//! Pieces of a line that several sites share: seats and cards.

use vstd::prelude::*;
use crate::parsers::number::is_digit;
use crate::parsers::text::{
    cut, find_byte, find_byte_from, lemma_find_byte_from, lemma_find_byte_tail, opt_int, rfind_byte,
    spec_find_byte, spec_rfind_byte, tail,
};
use crate::pklp::cards::{Card, Cards};
use crate::pklp::span::{Span, SpanLike};

verus! {

/// What a line that seats a player holds: the range of the seat's digits,
/// the player's name, and where the text after the last `(` begins.
///
/// The line is taken to begin with the five bytes of `Seat `; they are not
/// looked at. The seat has one digit, or two where the byte after the first
/// is a digit too. The name begins two bytes after the seat and ends one
/// byte before the last `(`.
pub open spec fn spec_parse_seat_name(s: Seq<u8>) -> Option<(Span, Seq<u8>, int)> {
    if s.len() <= 6 {
        None
    } else {
        let seat_sep: int = if is_digit(s[6]) {
            7
        } else {
            6
        };
        match spec_rfind_byte(s, 0x28) {
            None => None,
            Some(end) => if seat_sep + 2 > end - 1 {
                None
            } else {
                Some((Span::spec_new(5, seat_sep - 5), s.subrange(seat_sep + 2, end - 1), end + 1))
            },
        }
    }
}

/// Reads a line that seats a player.
pub fn parse_seat_name(input: &[u8]) -> (r: Option<(Span, &[u8], usize)>)
    ensures
        match r {
            Some((seat, name, rest)) => spec_parse_seat_name(input@) == Some(
                (seat, name@, rest as int),
            ) && rest <= input@.len() && 5 + seat.spec_size() <= input@.len()
                && seat.spec_begin() == 5 && 1 <= seat.spec_size() <= 2,
            None => spec_parse_seat_name(input@) is None,
        },
{
    if input.len() <= 6 {
        return None;
    }
    let two = 0x30 <= input[6] && input[6] <= 0x39;
    let seat_sep: usize = if two {
        7
    } else {
        6
    };
    match rfind_byte(input, 0x28) {
        None => None,
        Some(end) => {
            if end < 1 || seat_sep + 2 > end - 1 {
                None
            } else {
                proof {
                    Span::lemma_fields(5, seat_sep - 5);
                }
                Some((Span::range(5, seat_sep), cut(input, seat_sep + 2, end - 1), end + 1))
            }
        },
    }
}

/// Where the piece that begins at `from` ends: at the next space, or at
/// the end.
pub open spec fn piece_end(s: Seq<u8>, from: int) -> int {
    match find_byte_from(s, 0x20, from) {
        Some(i) => i,
        None => s.len() as int,
    }
}

/// The cards written from `from` on, one to each piece between spaces,
/// after the cards `acc` already read. Each piece must begin with a card;
/// what follows the card in its piece is not read. No more than five cards
/// can be held.
pub open spec fn spec_parse_cards_from(s: Seq<u8>, from: int, acc: Seq<Card>) -> Option<Seq<Card>>
    decreases s.len() - from + 1,
{
    if from < 0 || from > s.len() {
        None
    } else {
        let end = piece_end(s, from);
        proof {
            lemma_find_byte_from(s, 0x20, from);
        }
        match Card::spec_parse(s.subrange(from, end)) {
            None => None,
            Some(c) => if acc.len() >= 5 {
                None
            } else if end >= s.len() {
                Some(acc.push(c))
            } else {
                spec_parse_cards_from(s, end + 1, acc.push(c))
            },
        }
    }
}

/// The cards that `s` lists.
pub open spec fn spec_parse_cards(s: Seq<u8>) -> Option<Seq<Card>> {
    spec_parse_cards_from(s, 0, Seq::empty())
}

/// Reads a list of cards separated by single spaces.
pub fn parse_cards(part: &[u8]) -> (r: Option<Cards>)
    ensures
        match r {
            Some(cards) => spec_parse_cards(part@) == Some(cards@) && cards.wf(),
            None => spec_parse_cards(part@) is None,
        },
{
    let _len = part.len();
    let mut cards = Cards::default();
    let mut from: usize = 0;
    loop
        invariant
            from <= part@.len() <= usize::MAX,
            cards.wf(),
            cards@.len() == cards.size,
            spec_parse_cards(part@) == spec_parse_cards_from(part@, from as int, cards@),
        decreases part@.len() - from + 1,
    {
        let rest = tail(part, from);
        let end = match find_byte(rest, 0x20) {
            Some(i) => from + i,
            None => part.len(),
        };
        proof {
            lemma_find_byte_tail(part@, 0x20, from as int, from as int);
            lemma_find_byte_from(part@, 0x20, from as int);
            assert(end == piece_end(part@, from as int));
        }
        match Card::parse(cut(part, from, end)) {
            None => {
                return None;
            },
            Some(c) => {
                if cards.len() >= 5 {
                    return None;
                }
                cards.push(c);
                if end >= part.len() {
                    return Some(cards);
                }
                from = end + 1;
            },
        }
    }
}

/// The cards between the first `[` of `s` and the first `]` after it, and
/// the range of them: from after the `[` to after the `]`. No cards and an
/// empty range where the brackets are missing.
pub open spec fn spec_find_cards(s: Seq<u8>) -> Option<(Seq<Card>, (int, int))> {
    match spec_find_byte(s, 0x5b) {
        None => Some((Seq::empty(), (0, 0))),
        Some(begin) => match find_byte_from(s, 0x5d, begin) {
            None => Some((Seq::empty(), (0, 0))),
            Some(close) => match spec_parse_cards(s.subrange(begin + 1, close + 1)) {
                None => None,
                Some(cards) => Some((cards, (begin + 1, close + 1))),
            },
        },
    }
}

/// Finds the first bracketed list of cards.
pub fn find_cards(part: &[u8]) -> (r: Option<(Cards, (usize, usize))>)
    ensures
        match r {
            Some((cards, (begin, end))) => spec_find_cards(part@) == Some(
                (cards@, (begin as int, end as int)),
            ) && cards.wf() && begin <= end <= part@.len(),
            None => spec_find_cards(part@) is None,
        },
{
    let _len = part.len();
    if let Some(begin) = find_byte(part, 0x5b) {
        if let Some(end) = find_byte(tail(part, begin), 0x5d) {
            proof {
                lemma_find_byte_tail(part@, 0x5d, begin as int, begin as int);
                lemma_find_byte_from(part@, 0x5d, begin as int);
            }
            return match parse_cards(cut(part, begin + 1, begin + 1 + end)) {
                Some(cards) => Some((cards, (begin + 1, begin + 1 + end))),
                None => None,
            };
        }
        proof {
            lemma_find_byte_tail(part@, 0x5d, begin as int, begin as int);
        }
    }
    Some((Cards::default(), (0, 0)))
}

} // verus!
