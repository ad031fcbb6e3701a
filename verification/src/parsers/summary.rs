//! The summary that closes a hand: the pots, and what became of each seat.

use vstd::prelude::*;
use crate::parsers::currency::{
    char_bytes, encode_char, extract_currency, find_currency, opt_amount, opt_found,
    spec_extract_currency, spec_find_currency,
};
use crate::parsers::fields::{
    find_cards, parse_cards, parse_seat_name, piece_end, spec_find_cards, spec_parse_seat_name,
};
use crate::parsers::number::{parse_float, spec_parse_float};
use crate::parsers::parser::{Parser, State};
use crate::parsers::pokerstars::{
    cards_of, comma, lemma_cards_of, spec_trim_player_name, trim_player_name, uses_comma,
};
use crate::parsers::streets::spec_last_cards;
use crate::parsers::text::{
    cut, ends_with, ends_with_byte, equal, find, find_byte, find_byte_at, find_byte_from, head,
    lemma_find_byte_from, lit, rfind, rfind_byte, spec_ends_with, spec_find, spec_find_after,
    spec_rfind, spec_rfind_byte, spec_starts_with, starts_with, starts_with_byte, tail, StrOps,
};
use crate::pklp::action::{Action, ActionType};
use crate::pklp::cards::{Card, Cards};
use crate::pklp::hand::{Arena, PokerSite, PotInfo, Summary, Winner};
use crate::pklp::number::Number;
use crate::pklp::span::{
    span_fits, ActionSpan, SpanLike, WinnerSpan, MAX_SPAN_BEGIN, MAX_SPAN_SIZE,
};

verus! {

/// The pots with these amounts.
pub open spec fn pot_info_of(total: Number, rake: Number, main: Number, side: Seq<Number>) -> PotInfo {
    choose|p: PotInfo| p.total == total && p.rake == rake && p.main == main && p.side@ == side
}

/// Pots are the pots with their own amounts.
pub proof fn lemma_pot_info_of(p: PotInfo)
    ensures
        pot_info_of(p.total, p.rake, p.main, p.side@) == p,
{
    let q = pot_info_of(p.total, p.rake, p.main, p.side@);
    assert(q.total == p.total && q.rake == p.rake && q.main == p.main && q.side@ == p.side@);
    assert forall|i: int| 0 <= i < 3 implies q.side[i] == p.side[i] by {
        assert(q.side@[i] == p.side@[i]);
    }
    assert(q.side =~= p.side);
}

/// The rake that a line such as `Total pot $1.23 | Rake $0.15` names after
/// its last `|`: nothing where the line ends there, else the amount, with
/// or without the currency's symbol before it.
pub open spec fn spec_rake(line: Seq<u8>, currency: char, comma: bool) -> Option<Number> {
    match spec_rfind_byte(line, 0x7c) {
        None => None,
        Some(bar) => {
            let rake_begin = bar + lit("| Rake ").len();
            if rake_begin >= line.len() {
                Some(Number(0))
            } else {
                let rest = line.subrange(rake_begin, line.len() as int);
                let amount = if spec_starts_with(rest, char_bytes(currency)) {
                    spec_parse_float(
                        rest.subrange(char_bytes(currency).len() as int, rest.len() as int),
                        comma,
                    )
                } else {
                    spec_parse_float(rest, comma)
                };
                match amount {
                    Some((rake, _)) => Some(rake),
                    None => None,
                }
            }
        },
    }
}

/// The main pot and where its amount ends: the amount after the first
/// `Main pot ` that follows the total, or the total itself where the line
/// names no main pot.
pub open spec fn spec_main_pot(
    line: Seq<u8>,
    currency: char,
    comma: bool,
    total: Number,
    total_end: int,
) -> Option<(Number, int)> {
    match spec_find(line.subrange(total_end, line.len() as int), lit("Main ")) {
        None => Some((total, total_end)),
        Some(i) => {
            let begin = total_end + i + lit("Main pot ").len();
            if begin > line.len() {
                None
            } else {
                match spec_extract_currency(
                    line.subrange(begin, line.len() as int),
                    currency,
                    0,
                    comma,
                ) {
                    Some((main, end)) => Some((main, begin + end)),
                    None => None,
                }
            }
        },
    }
}

/// The amount of the next side pot named from `from` on, and where the
/// amount ends. After `Side ` and the three bytes of
/// `pot` stands a space, or `-` and a digit and a space; then the amount.
/// `Some(None)` where no side pot is named.
#[verifier::opaque]
pub open spec fn spec_next_side_pot(line: Seq<u8>, currency: char, comma: bool, from: int) -> Option<
    Option<(Number, int)>,
> {
    if from > line.len() {
        Some(None)
    } else {
        match spec_find_after(line.subrange(from, line.len() as int), lit("Side ")) {
            None => Some(None),
            Some(i) => {
                let pot_end = from + i + lit("pot").len();
                if pot_end >= line.len() {
                    None
                } else {
                    let amount_at = pot_end + if line[pot_end] == 0x2d {
                        3int
                    } else {
                        1int
                    };
                    match spec_extract_currency(line, currency, amount_at, comma) {
                        None => None,
                        Some((amount, end)) => Some(Some((amount, end))),
                    }
                }
            },
        }
    }
}

/// The amount of a side pot ends within the line, after where the search
/// for the pot began.
pub proof fn lemma_next_side_pot(line: Seq<u8>, currency: char, comma: bool, from: int)
    requires
        0 <= from,
    ensures
        spec_next_side_pot(line, currency, comma, from) matches Some(Some((_, end))) ==> from < end
            <= line.len(),
{
    reveal(spec_next_side_pot);
    if from <= line.len() {
        let rest = line.subrange(from, line.len() as int);
        crate::parsers::text::lemma_find_from(rest, lit("Side "), 0);
        match spec_find_after(rest, lit("Side ")) {
            None => {},
            Some(i) => {
                let pot_end = from + i + lit("pot").len();
                if pot_end < line.len() {
                    let amount_at = pot_end + if line[pot_end] == 0x2d {
                        3int
                    } else {
                        1int
                    };
                    crate::parsers::currency::lemma_extract_currency(
                        line,
                        currency,
                        amount_at,
                        comma,
                    );
                }
            },
        }
    }
}

/// The side pots named from `from` on, after those in `acc`. No more than
/// three can be held.
pub open spec fn spec_side_pots_from(
    line: Seq<u8>,
    currency: char,
    comma: bool,
    from: int,
    acc: Seq<Number>,
) -> Option<Seq<Number>>
    decreases line.len() - from + 1,
    when 0 <= from
{
    proof {
        lemma_next_side_pot(line, currency, comma, from);
    }
    match spec_next_side_pot(line, currency, comma, from) {
        None => None,
        Some(None) => Some(acc),
        Some(Some((amount, end))) => if acc.len() >= 3 {
            None
        } else {
            spec_side_pots_from(line, currency, comma, end + 1, acc.push(amount))
        },
    }
}

/// `side` made three long with amounts of nothing.
pub open spec fn pad_side(side: Seq<Number>) -> Seq<Number> {
    Seq::new(
        3,
        |i: int|
            if i < side.len() {
                side[i]
            } else {
                Number(0)
            },
    )
}

/// What the line of the pots says: the total, which is the first amount
/// in the line; the rake; the main pot; the side pots.
pub open spec fn spec_pots(line: Seq<u8>, currency: char, comma: bool) -> Option<
    (Number, Number, Number, Seq<Number>),
> {
    match (spec_rake(line, currency, comma), spec_find_currency(line, currency, comma)) {
        (Some(rake), Some((total, (_, total_end)))) => match spec_main_pot(
            line,
            currency,
            comma,
            total,
            total_end,
        ) {
            None => None,
            Some((main, main_end)) => match spec_side_pots_from(
                line,
                currency,
                comma,
                main_end,
                Seq::empty(),
            ) {
                None => None,
                Some(side) => Some((total, rake, main, pad_side(side))),
            },
        },
        _ => None,
    }
}

fn read_rake(line: &[u8], currency: char, comma: bool) -> (r: Option<Number>)
    ensures
        r == spec_rake(line@, currency, comma),
{
    let bar = match rfind_byte(line, 0x7c) {
        Some(i) => i,
        None => {
            return None;
        },
    };
    let words = "| Rake ".as_bytes().len();
    if words >= line.len() - bar {
        return Some(Number(0));
    }
    let rest = tail(line, bar + words);
    let symbol = encode_char(currency);
    let amount = if starts_with(rest, symbol.as_slice()) {
        parse_float(tail(rest, symbol.len()), comma)
    } else {
        parse_float(rest, comma)
    };
    match amount {
        Some((rake, _)) => Some(rake),
        None => None,
    }
}

fn read_main_pot(line: &[u8], currency: char, comma: bool, total: Number, total_end: usize) -> (r:
    Option<(Number, usize)>)
    requires
        total_end <= line@.len(),
    ensures
        opt_amount(r) == spec_main_pot(line@, currency, comma, total, total_end as int),
        r matches Some((_, end)) ==> end <= line@.len(),
{
    let _len = line.len();
    match find(tail(line, total_end), "Main ".as_bytes()) {
        None => Some((total, total_end)),
        Some(i) => {
            let words = "Main pot ".as_bytes().len();
            if words > line.len() - (total_end + i) {
                return None;
            }
            let begin = total_end + i + words;
            match extract_currency(tail(line, begin), currency, 0, comma) {
                Some((main, end)) => Some((main, begin + end)),
                None => None,
            }
        },
    }
}

fn read_next_side_pot(line: &[u8], currency: char, comma: bool, from: usize) -> (r: Option<
    Option<(Number, usize)>,
>)
    ensures
        match r {
            None => spec_next_side_pot(line@, currency, comma, from as int) is None,
            Some(None) => spec_next_side_pot(line@, currency, comma, from as int) == Some(
                None::<(Number, int)>,
            ),
            Some(Some((amount, end))) => spec_next_side_pot(line@, currency, comma, from as int)
                == Some(Some((amount, end as int))) && from <= end <= line@.len(),
        },
{
    reveal(spec_next_side_pot);
    let len = line.len();
    if from > len {
        return Some(None);
    }
    let i = match tail(line, from).find_after("Side ".as_bytes()) {
        Some(i) => i,
        None => {
            return Some(None);
        },
    };
    proof {
        crate::parsers::text::lemma_find_from(
            line@.subrange(from as int, len as int),
            lit("Side "),
            0,
        );
    }
    let pot = "pot".as_bytes().len();
    if pot >= len - (from + i) {
        return None;
    }
    let pot_end = from + i + pot;
    let step: usize = if line[pot_end] == 0x2d {
        3
    } else {
        1
    };
    if step > len - pot_end {
        proof {
            assert(spec_extract_currency(line@, currency, pot_end + step, comma) is None);
        }
        return None;
    }
    match extract_currency(line, currency, pot_end + step, comma) {
        None => None,
        Some((amount, end)) => Some(Some((amount, end))),
    }
}

fn read_side_pots(line: &[u8], currency: char, comma: bool, main_end: usize) -> (r: Option<
    [Number; 3],
>)
    requires
        main_end <= line@.len(),
    ensures
        match r {
            Some(side) => spec_side_pots_from(line@, currency, comma, main_end as int, Seq::empty())
                is Some && side@ == pad_side(
                spec_side_pots_from(line@, currency, comma, main_end as int, Seq::empty())->0,
            ),
            None => spec_side_pots_from(line@, currency, comma, main_end as int, Seq::empty())
                is None,
        },
{
    let _len = line.len();
    let mut side = [Number(0), Number(0), Number(0)];
    let mut count: usize = 0;
    let mut from = main_end;
    let ghost mut acc: Seq<Number> = Seq::empty();
    loop
        invariant
            count == acc.len() <= 3,
            from <= line@.len() <= usize::MAX,
            forall|i: int| 0 <= i < count ==> side@[i] == acc[i],
            forall|i: int| count <= i < 3 ==> side@[i] == Number(0),
            spec_side_pots_from(line@, currency, comma, main_end as int, Seq::empty())
                == spec_side_pots_from(line@, currency, comma, from as int, acc),
        decreases line@.len() - from,
    {
        match read_next_side_pot(line, currency, comma, from) {
            None => {
                return None;
            },
            Some(None) => {
                proof {
                    assert(side@ =~= pad_side(acc));
                }
                return Some(side);
            },
            Some(Some((amount, end))) => {
                if count >= 3 {
                    return None;
                }
                side[count] = amount;
                count += 1;
                proof {
                    acc = acc.push(amount);
                }
                if end >= line.len() {
                    proof {
                        assert(side@ =~= pad_side(acc));
                        assert(spec_next_side_pot(line@, currency, comma, end + 1) == Some(
                            None::<(Number, int)>,
                        )) by {
                            reveal(spec_next_side_pot);
                        }
                        assert(spec_side_pots_from(line@, currency, comma, end + 1, acc) == Some(
                            acc,
                        ));
                    }
                    return Some(side);
                }
                from = end + 1;
            },
        }
    }
}

fn read_pots(line: &[u8], currency: char, comma: bool) -> (r: Option<PotInfo>)
    ensures
        match r {
            Some(p) => spec_pots(line@, currency, comma) == Some(
                (p.total, p.rake, p.main, p.side@),
            ),
            None => spec_pots(line@, currency, comma) is None,
        },
{
    let (rake, total, total_end) = match (
        read_rake(line, currency, comma),
        find_currency(line, currency, comma),
    ) {
        (Some(rake), Some((total, (_, total_end)))) => (rake, total, total_end),
        _ => {
            return None;
        },
    };
    let (main, main_end) = match read_main_pot(line, currency, comma, total, total_end) {
        Some(r) => r,
        None => {
            return None;
        },
    };
    match read_side_pots(line, currency, comma, main_end) {
        Some(side) => Some(PotInfo { total, rake, main, side }),
        None => None,
    }
}

/// The player named in a line of results, in the first `name_end` bytes
/// of `part`. PokerStars adds the player's place at the table in brackets,
/// as in `name (button)` or `name (small blind)`: that is cut off. Pluribus
/// logs drop a leading `Mr`.
pub open spec fn spec_result_player_name(site: PokerSite, part: Seq<u8>, name_end: int) -> Option<
    Seq<u8>,
> {
    if name_end < 0 || name_end > part.len() {
        None
    } else if site == PokerSite::PokerStarsPluribus {
        Some(spec_trim_player_name(site, part.subrange(0, name_end)))
    } else {
        match spec_rfind_byte(part.subrange(0, name_end), 0x20) {
            Some(space) => {
                let after = part.subrange(space + 1, part.len() as int);
                if spec_starts_with(after, lit("(b")) || spec_starts_with(after, lit("(s")) {
                    Some(part.subrange(0, space))
                } else {
                    Some(part.subrange(0, name_end))
                }
            },
            None => Some(part.subrange(0, name_end)),
        }
    }
}

/// A name, as plain values.
pub open spec fn opt_name(r: Option<&[u8]>) -> Option<Seq<u8>> {
    match r {
        Some(name) => Some(name@),
        None => None,
    }
}

/// Reads the player named in a line of results.
pub fn parse_summary_result_player_name<'a>(site: PokerSite, part: &'a [u8], name_end: usize) -> (r:
    Option<&'a [u8]>)
    ensures
        opt_name(r) == spec_result_player_name(site, part@, name_end as int),
{
    if name_end > part.len() {
        return None;
    }
    let name = head(part, name_end);
    if site == PokerSite::PokerStarsPluribus {
        return Some(trim_player_name(site, name));
    }
    if let Some(space) = rfind_byte(name, 0x20) {
        let after = tail(part, space + 1);
        if starts_with(after, "(b".as_bytes()) || starts_with(after, "(s".as_bytes()) {
            assert(part@.subrange(0, space as int) =~= name@.subrange(0, space as int));
            return Some(head(part, space));
        }
    }
    Some(name)
}

impl State {
    /// The state with a new last row in the winners column.
    pub open spec fn push_winner(self, winner: Winner) -> State {
        State { hands: Arena { winners: self.hands.winners.push(winner), ..self.hands }, ..self }
    }

    /// The state with another amount in the last row of the winners column.
    pub open spec fn set_last_amount(self, amount: Number) -> State {
        if self.hands.winners.len() == 0 {
            self
        } else {
            let at = self.hands.winners.len() - 1;
            State {
                hands: Arena {
                    winners: self.hands.winners.update(
                        at,
                        Winner { amount, ..self.hands.winners[at] },
                    ),
                    ..self.hands
                },
                ..self
            }
        }
    }

    /// What one word of a player's results does. `won` adds a winner for
    /// the run that is being told, with an amount yet to come; `lost` ends
    /// the telling of a run; a word in brackets right after `won` is the
    /// amount. The result is the state, whether an amount is awaited, and
    /// the number of the next run; nothing where a run has no number left
    /// or the amount cannot be read.
    pub open spec fn result_word(
        self,
        word: Seq<u8>,
        player_id: u8,
        currency: char,
        comma: bool,
        did_win: bool,
        game_id: u8,
    ) -> Option<(State, bool, u8)> {
        if word == lit("won") {
            if game_id == u8::MAX {
                None
            } else {
                Some(
                    (
                        self.push_winner(Winner { amount: Number(0), player_id, game_id }),
                        true,
                        (game_id + 1) as u8,
                    ),
                )
            }
        } else if word == lit("lost") {
            if game_id == u8::MAX {
                None
            } else {
                Some((self, false, (game_id + 1) as u8))
            }
        } else if did_win && word.len() > 0 && word[0] == 0x28 {
            match spec_find_currency(word.subrange(1, word.len() as int), currency, comma) {
                Some((amount, _)) => Some((self.set_last_amount(amount), false, game_id)),
                None => None,
            }
        } else {
            Some((self, false, game_id))
        }
    }

    /// What the words of `part` from `from` on, split at single spaces, say
    /// of what the player won, run by run. The flag tells whether every
    /// word could be read.
    pub open spec fn winners_from(
        self,
        part: Seq<u8>,
        from: int,
        player_id: u8,
        currency: char,
        comma: bool,
        did_win: bool,
        game_id: u8,
    ) -> (State, bool)
        decreases part.len() - from + 1,
    {
        if from < 0 || from > part.len() {
            (self, true)
        } else {
            let end = piece_end(part, from);
            match self.result_word(
                part.subrange(from, end),
                player_id,
                currency,
                comma,
                did_win,
                game_id,
            ) {
                None => (self, false),
                Some((next, did_win, game_id)) => if end >= part.len() {
                    (next, true)
                } else {
                    proof {
                        lemma_find_byte_from(part, 0x20, from);
                    }
                    next.winners_from(part, end + 1, player_id, currency, comma, did_win, game_id)
                },
            }
        }
    }
}

/// Reads what a player won from the words that follow the player's cards.
pub fn parse_summary_winners(
    p: &mut Parser,
    part: &[u8],
    player_id: u8,
    site: PokerSite,
    currency: char,
) -> (ok: bool)
    requires
        old(p).wf(),
    ensures
        final(p)@.new_actions_ok(old(p)@),
        final(p).wf(),
        final(p).data == old(p).data,
        final(p)@.hands.grows_from(old(p)@.hands),
        final(p)@.same_hand(old(p)@),
        final(p)@.cursor() == old(p)@.cursor(),
        (final(p)@, ok) == old(p)@.winners_from(
            part@,
            0,
            player_id,
            currency,
            uses_comma(site),
            false,
            0,
        ),
{
    let _len = part.len();
    let ghost begin = p@.hands.winners.len();
    let mut did_win = false;
    let mut game_id: u8 = 0;
    let mut from: usize = 0;
    loop
        invariant
            p.wf(),
            p.data == old(p).data,
            p@.hands.grows_from(old(p)@.hands),
            p@.same_hand(old(p)@),
            p@.cursor() == old(p)@.cursor(),
            from <= part@.len() <= usize::MAX,
            begin == old(p)@.hands.winners.len() <= p@.hands.winners.len(),
            p@.hands.actions == old(p)@.hands.actions,
            did_win ==> begin < p@.hands.winners.len(),
            old(p)@.winners_from(part@, 0, player_id, currency, uses_comma(site), false, 0)
                == p@.winners_from(
                part@,
                from as int,
                player_id,
                currency,
                uses_comma(site),
                did_win,
                game_id,
            ),
        decreases part@.len() - from + 1,
    {
        let end = match find_byte_at(part, 0x20, from) {
            Some(i) => i,
            None => part.len(),
        };
        proof {
            lemma_find_byte_from(part@, 0x20, from as int);
        }
        let word = cut(part, from, end);
        if equal(word, "won".as_bytes()) {
            if game_id == u8::MAX {
                return false;
            }
            p.hands.winners.push(Winner { amount: Number(0), player_id, game_id });
            game_id += 1;
            did_win = true;
        } else if equal(word, "lost".as_bytes()) {
            if game_id == u8::MAX {
                return false;
            }
            game_id += 1;
            did_win = false;
        } else {
            if did_win && starts_with_byte(word, 0x28) {
                let amount = match find_currency(tail(word, 1), currency, comma(site)) {
                    Some((amount, _)) => amount,
                    None => {
                        return false;
                    },
                };
                let at = p.hands.winners.len() - 1;
                let winner = p.hands.winners[at];
                p.hands.winners.set(at, Winner { amount, ..winner });
            }
            did_win = false;
        }
        if end >= part.len() {
            return true;
        }
        from = end + 1;
    }
}

/// Whether the line ends as the results of a player who folded do.
pub open spec fn spec_ends_folded(line: Seq<u8>) -> bool {
    spec_ends_with(line, lit("n't bet)")) || spec_ends_with(line, lit("re Flop"))
        || spec_ends_with(line, lit("he Flop")) || spec_ends_with(line, lit("he Turn"))
        || spec_ends_with(line, lit("he River"))
}

fn ends_folded(line: &[u8]) -> (b: bool)
    ensures
        b == spec_ends_folded(line@),
{
    ends_with(line, "n't bet)".as_bytes()) || ends_with(line, "re Flop".as_bytes()) || ends_with(
        line,
        "he Flop".as_bytes(),
    ) || ends_with(line, "he Turn".as_bytes()) || ends_with(line, "he River".as_bytes())
}

impl State {
    /// The lines after the pots that tell nothing here: those that begin
    /// with `Hand was`.
    pub open spec fn skip_run_twice(self) -> State
        decreases self.remaining(),
        when self.lines.wf()
    {
        if !self.at_end && spec_starts_with(self.line, lit("Hand was")) {
            proof {
                self.lines.lemma_next();
            }
            self.advance().skip_run_twice()
        } else {
            self
        }
    }

    /// The lines after the pots that show a board.
    pub open spec fn skip_boards(self) -> State
        decreases self.remaining(),
        when self.lines.wf()
    {
        if !self.at_end && spec_find(self.line, lit("Board [")) is Some {
            proof {
                self.lines.lemma_next();
            }
            self.advance().skip_boards()
        } else {
            self
        }
    }

    /// The line of the pots, and the lines about the boards after it, which
    /// are passed over.
    pub open spec fn summary_pots(self, site: PokerSite, currency: char) -> (State, Option<PotInfo>) {
        match spec_pots(self.line, currency, uses_comma(site)) {
            None => (self, None),
            Some((total, rake, main, side)) => (
                self.advance().skip_run_twice().skip_boards(),
                Some(pot_info_of(total, rake, main, side)),
            ),
        }
    }

    /// A seat's result that names the player between `name_begin` and the
    /// words that end the line.
    pub open spec fn result_no_data(self, kind: ActionType, name_begin: int, words: Seq<u8>) -> (
        State,
        bool,
    ) {
        let name_end = self.line.len() - words.len();
        if name_begin > name_end {
            (self, false)
        } else {
            match self.action_no_data(kind, self.line.subrange(name_begin, name_end)) {
                Some(a) => (self.push_action(a), true),
                None => (self, false),
            }
        }
    }

    /// The result of a seat that folded on a street that the line names:
    /// the name stands before ` folded `.
    pub open spec fn result_folded(self, site: PokerSite, name_begin: int) -> (State, bool) {
        let line = self.line;
        let rest = line.subrange(name_begin, line.len() as int);
        match spec_find(rest, lit(" folded ")) {
            None => (self, false),
            Some(name_end) => match spec_result_player_name(site, rest, name_end) {
                None => (self, false),
                Some(name) => match self.action_no_data(ActionType::Fold, name) {
                    Some(a) => (self.push_action(a), true),
                    None => (self, false),
                },
            },
        }
    }

    /// The result of a seat that showed cards, four bytes before which
    /// the name ends: the cards are the first in brackets from index `i + 4`
    /// of the line on, and what follows them tells what the player won.
    pub open spec fn result_showed(self, site: PokerSite, currency: char, name_begin: int, i: int) -> (
        State,
        bool,
    ) {
        let line = self.line;
        let rest = line.subrange(name_begin, line.len() as int);
        if i < 4 || i + 4 > line.len() {
            (self, false)
        } else {
            match (
                spec_result_player_name(site, rest, i - 4),
                spec_find_cards(line.subrange(i + 4, line.len() as int)),
            ) {
                (Some(name), Some((cards, (_, cards_end)))) => {
                    let (shown, a) = self.action_cards(ActionType::Show, name, cards_of(cards));
                    match a {
                        None => (shown, false),
                        Some(a) => {
                            let (won, ok) = shown.winners_from(
                                line.subrange(i + 4 + cards_end, line.len() as int),
                                0,
                                a.player_id,
                                currency,
                                uses_comma(site),
                                false,
                                0,
                            );
                            if ok {
                                (won.push_action(a), true)
                            } else {
                                (won, false)
                            }
                        },
                    }
                },
                _ => (self, false),
            }
        }
    }

    /// The result of a seat that mucked cards that the line shows.
    pub open spec fn result_mucked(self, site: PokerSite, name_begin: int, i: int) -> (State, bool) {
        let line = self.line;
        let rest = line.subrange(name_begin, line.len() as int);
        if i < 4 || i + 4 > line.len() {
            (self, false)
        } else {
            match (
                spec_result_player_name(site, rest, i - 4),
                spec_find_cards(line.subrange(i + 4, line.len() as int)),
            ) {
                (Some(name), Some((cards, _))) => {
                    let (mucked, a) = self.action_cards(ActionType::Muck, name, cards_of(cards));
                    match a {
                        None => (mucked, false),
                        Some(a) => (mucked.push_action(a), true),
                    }
                },
                _ => (self, false),
            }
        }
    }

    /// The result of a seat that collected a pot: the amount stands after
    /// the last `(`, the name before ` collected (`. The player is a winner
    /// of the first run.
    pub open spec fn result_collected(self, site: PokerSite, currency: char, name_begin: int) -> (
        State,
        bool,
    ) {
        let line = self.line;
        let rest = line.subrange(name_begin, line.len() as int);
        match spec_rfind_byte(line, 0x28) {
            None => (self, false),
            Some(open) => {
                let amount_begin = open + 1;
                let name_end = amount_begin - name_begin - lit(" collected (").len();
                match (
                    spec_find_currency(
                        line.subrange(amount_begin, line.len() as int),
                        currency,
                        uses_comma(site),
                    ),
                    spec_result_player_name(site, rest, name_end),
                ) {
                    (Some((amount, _)), Some(name)) => match self.action_num(
                        ActionType::CollectMainPot,
                        name,
                        amount,
                    ) {
                        None => (self, false),
                        Some(a) => (
                            self.push_winner(
                                Winner { player_id: a.player_id, amount, game_id: 0 },
                            ).push_action(a),
                            true,
                        ),
                    },
                    _ => (self, false),
                }
            },
        }
    }

    /// A seat's result other than a plain fold or muck; the name begins
    /// at `name_begin`. In the order tried: a fold with the street it came
    /// on; cards shown, with what they won; cards mucked; a pot collected.
    pub open spec fn result_with_data(self, site: PokerSite, currency: char, name_begin: int) -> (
        State,
        bool,
    ) {
        let line = self.line;
        let rest = line.subrange(name_begin, line.len() as int);
        if spec_ends_folded(line) {
            self.result_folded(site, name_begin)
        } else {
            match spec_find(rest, lit("wed [")) {
                Some(i) => self.result_showed(site, currency, name_begin, i),
                None => match spec_rfind(rest, lit("ked [")) {
                    Some(i) => self.result_mucked(site, name_begin, i),
                    None => self.result_collected(site, currency, name_begin),
                },
            }
        }
    }

    /// What a line such as `Seat 1: name (button) folded before Flop` adds
    /// to the actions and the winners. The name begins two bytes after the
    /// first `:` that follows `Seat `. The flag tells whether the line could
    /// be read.
    pub open spec fn summary_result(self, site: PokerSite, currency: char) -> (State, bool) {
        let line = self.line;
        match find_byte_from(line, 0x3a, lit("Seat ").len() as int) {
            None => (self, false),
            Some(colon) => {
                let name_begin = colon + 2;
                if spec_ends_with(line, lit(" folded")) {
                    self.result_no_data(ActionType::Fold, name_begin, lit(" folded"))
                } else if spec_ends_with(line, lit(" mucked")) {
                    self.result_no_data(ActionType::Muck, name_begin, lit(" mucked"))
                } else if name_begin > line.len() {
                    (self, false)
                } else {
                    self.result_with_data(site, currency, name_begin)
                }
            },
        }
    }
}

fn parse_result_no_data(p: &mut Parser, kind: ActionType, name_begin: usize, words: &[u8]) -> (ok:
    bool)
    requires
        old(p).wf(),
        spec_ends_with(old(p)@.line, words@),
        kind == ActionType::Fold || kind == ActionType::Muck,
    ensures
        final(p)@.new_actions_ok(old(p)@),
        final(p).wf(),
        final(p).data == old(p).data,
        final(p)@.hands.grows_from(old(p)@.hands),
        final(p)@.same_hand(old(p)@),
        final(p)@.cursor() == old(p)@.cursor(),
        (final(p)@, ok) == old(p)@.result_no_data(kind, name_begin as int, words@),
{
    let line = p.line;
    let name_end = line.len() - words.len();
    if name_begin > name_end {
        return false;
    }
    match p.action_no_data(kind, cut(line, name_begin, name_end)) {
        Some(a) => {
            p.push_action(a);
            true
        },
        None => false,
    }
}

fn parse_result_folded(p: &mut Parser, site: PokerSite, name_begin: usize) -> (ok: bool)
    requires
        old(p).wf(),
        name_begin <= old(p)@.line.len(),
    ensures
        final(p)@.new_actions_ok(old(p)@),
        final(p).wf(),
        final(p).data == old(p).data,
        final(p)@.hands.grows_from(old(p)@.hands),
        final(p)@.same_hand(old(p)@),
        final(p)@.cursor() == old(p)@.cursor(),
        (final(p)@, ok) == old(p)@.result_folded(site, name_begin as int),
{
    let line = p.line;
    let rest = tail(line, name_begin);
    let name_end = match find(rest, " folded ".as_bytes()) {
        Some(i) => i,
        None => {
            return false;
        },
    };
    let name = match parse_summary_result_player_name(site, rest, name_end) {
        Some(name) => name,
        None => {
            return false;
        },
    };
    match p.action_no_data(ActionType::Fold, name) {
        Some(a) => {
            p.push_action(a);
            true
        },
        None => false,
    }
}

fn parse_result_showed(p: &mut Parser, site: PokerSite, currency: char, name_begin: usize, i: usize) -> (ok:
    bool)
    requires
        old(p).wf(),
        name_begin <= old(p)@.line.len(),
    ensures
        final(p)@.new_actions_ok(old(p)@),
        final(p).wf(),
        final(p).data == old(p).data,
        final(p)@.hands.grows_from(old(p)@.hands),
        final(p)@.same_hand(old(p)@),
        final(p)@.cursor() == old(p)@.cursor(),
        (final(p)@, ok) == old(p)@.result_showed(site, currency, name_begin as int, i as int),
{
    let line = p.line;
    let len = line.len();
    let rest = tail(line, name_begin);
    if i < 4 || len < 4 || i > len - 4 {
        return false;
    }
    let (name, cards, cards_end) = match (
        parse_summary_result_player_name(site, rest, i - 4),
        find_cards(tail(line, i + 4)),
    ) {
        (Some(name), Some((cards, (_, cards_end)))) => (name, cards, cards_end),
        _ => {
            return false;
        },
    };
    proof {
        lemma_cards_of(cards);
    }
    let a = match p.action_cards(ActionType::Show, name, cards) {
        Some(a) => a,
        None => {
            return false;
        },
    };
    if !parse_summary_winners(p, tail(line, i + 4 + cards_end), a.player_id, site, currency) {
        return false;
    }
    p.push_action(a);
    true
}

fn parse_result_mucked(p: &mut Parser, site: PokerSite, name_begin: usize, i: usize) -> (ok: bool)
    requires
        old(p).wf(),
        name_begin <= old(p)@.line.len(),
    ensures
        final(p)@.new_actions_ok(old(p)@),
        final(p).wf(),
        final(p).data == old(p).data,
        final(p)@.hands.grows_from(old(p)@.hands),
        final(p)@.same_hand(old(p)@),
        final(p)@.cursor() == old(p)@.cursor(),
        (final(p)@, ok) == old(p)@.result_mucked(site, name_begin as int, i as int),
{
    let line = p.line;
    let len = line.len();
    let rest = tail(line, name_begin);
    if i < 4 || len < 4 || i > len - 4 {
        return false;
    }
    let (name, cards) = match (
        parse_summary_result_player_name(site, rest, i - 4),
        find_cards(tail(line, i + 4)),
    ) {
        (Some(name), Some((cards, _))) => (name, cards),
        _ => {
            return false;
        },
    };
    proof {
        lemma_cards_of(cards);
    }
    match p.action_cards(ActionType::Muck, name, cards) {
        Some(a) => {
            p.push_action(a);
            true
        },
        None => false,
    }
}

fn parse_result_collected(p: &mut Parser, site: PokerSite, currency: char, name_begin: usize) -> (ok:
    bool)
    requires
        old(p).wf(),
        name_begin <= old(p)@.line.len(),
    ensures
        final(p)@.new_actions_ok(old(p)@),
        final(p).wf(),
        final(p).data == old(p).data,
        final(p)@.hands.grows_from(old(p)@.hands),
        final(p)@.same_hand(old(p)@),
        final(p)@.cursor() == old(p)@.cursor(),
        (final(p)@, ok) == old(p)@.result_collected(site, currency, name_begin as int),
{
    let line = p.line;
    let rest = tail(line, name_begin);
    let amount_begin = match rfind_byte(line, 0x28) {
        Some(open) => open + 1,
        None => {
            return false;
        },
    };
    let words = " collected (".as_bytes().len();
    let amount = find_currency(tail(line, amount_begin), currency, comma(site));
    if amount_begin < name_begin || amount_begin - name_begin < words {
        proof {
            assert(spec_result_player_name(
                site,
                rest@,
                amount_begin - name_begin - lit(" collected (").len(),
            ) is None);
        }
        return false;
    }
    let name = parse_summary_result_player_name(site, rest, amount_begin - name_begin - words);
    match (amount, name) {
        (Some((amount, _)), Some(name)) => match p.action_num(
            ActionType::CollectMainPot,
            name,
            amount,
        ) {
            None => false,
            Some(a) => {
                p.hands.winners.push(Winner { player_id: a.player_id, amount, game_id: 0 });
                p.push_action(a);
                true
            },
        },
        _ => false,
    }
}

fn parse_result_with_data(p: &mut Parser, site: PokerSite, currency: char, name_begin: usize) -> (ok:
    bool)
    requires
        old(p).wf(),
        name_begin <= old(p)@.line.len(),
    ensures
        final(p)@.new_actions_ok(old(p)@),
        final(p).wf(),
        final(p).data == old(p).data,
        final(p)@.hands.grows_from(old(p)@.hands),
        final(p)@.same_hand(old(p)@),
        final(p)@.cursor() == old(p)@.cursor(),
        (final(p)@, ok) == old(p)@.result_with_data(site, currency, name_begin as int),
{
    let line = p.line;
    let rest = tail(line, name_begin);
    if ends_folded(line) {
        return parse_result_folded(p, site, name_begin);
    }
    if let Some(i) = find(rest, "wed [".as_bytes()) {
        return parse_result_showed(p, site, currency, name_begin, i);
    }
    if let Some(i) = rfind(rest, "ked [".as_bytes()) {
        return parse_result_mucked(p, site, name_begin, i);
    }
    parse_result_collected(p, site, currency, name_begin)
}

/// Reads what became of one seat.
pub fn parse_summary_result(p: &mut Parser, site: PokerSite, currency: char) -> (ok: bool)
    requires
        old(p).wf(),
    ensures
        final(p)@.new_actions_ok(old(p)@),
        final(p).wf(),
        final(p).data == old(p).data,
        final(p)@.hands.grows_from(old(p)@.hands),
        final(p)@.same_hand(old(p)@),
        final(p)@.cursor() == old(p)@.cursor(),
        (final(p)@, ok) == old(p)@.summary_result(site, currency),
{
    let line = p.line;
    let colon = match find_byte_at(line, 0x3a, "Seat ".as_bytes().len()) {
        Some(i) => i,
        None => {
            return false;
        },
    };
    if colon + 1 >= line.len() {
        return false;
    }
    let name_begin = colon + 2;
    let folded = " folded".as_bytes();
    let mucked = " mucked".as_bytes();
    if ends_with(line, folded) {
        parse_result_no_data(p, ActionType::Fold, name_begin, folded)
    } else if ends_with(line, mucked) {
        parse_result_no_data(p, ActionType::Muck, name_begin, mucked)
    } else if name_begin > line.len() {
        false
    } else {
        parse_result_with_data(p, site, currency, name_begin)
    }
}

impl State {
    /// Reading what a player won never moves the cursor.
    pub proof fn lemma_winners_from_cursor(
        self,
        part: Seq<u8>,
        from: int,
        player_id: u8,
        currency: char,
        comma: bool,
        did_win: bool,
        game_id: u8,
    )
        ensures
            self.winners_from(part, from, player_id, currency, comma, did_win, game_id).0.cursor()
                == self.cursor(),
        decreases part.len() - from + 1,
    {
        if from < 0 || from > part.len() {
        } else {
            let end = piece_end(part, from);
            match self.result_word(
                part.subrange(from, end),
                player_id,
                currency,
                comma,
                did_win,
                game_id,
            ) {
                None => {},
                Some((next, did_win, game_id)) => {
                    if end >= part.len() {
                    } else {
                        lemma_find_byte_from(part, 0x20, from);
                        next.lemma_winners_from_cursor(
                            part,
                            end + 1,
                            player_id,
                            currency,
                            comma,
                            did_win,
                            game_id,
                        );
                    }
                },
            }
        }
    }

    /// Reading the result of a seat that showed cards never moves the
    /// cursor.
    proof fn lemma_result_showed_cursor(self, site: PokerSite, currency: char, name_begin: int, i: int)
        ensures
            self.result_showed(site, currency, name_begin, i).0.cursor() == self.cursor(),
    {
        let line = self.line;
        let rest = line.subrange(name_begin, line.len() as int);
        match (
            spec_result_player_name(site, rest, i - 4),
            spec_find_cards(line.subrange(i + 4, line.len() as int)),
        ) {
            (Some(name), Some((cards, (_, cards_end)))) => {
                let (shown, a) = self.action_cards(ActionType::Show, name, cards_of(cards));
                match a {
                    None => {},
                    Some(a) => {
                        shown.lemma_winners_from_cursor(
                            line.subrange(i + 4 + cards_end, line.len() as int),
                            0,
                            a.player_id,
                            currency,
                            uses_comma(site),
                            false,
                            0,
                        );
                    },
                }
            },
            _ => {},
        }
    }

    /// Reading the result of a seat never moves the cursor, whatever the
    /// result.
    proof fn lemma_result_with_data_cursor(self, site: PokerSite, currency: char, name_begin: int)
        ensures
            self.result_with_data(site, currency, name_begin).0.cursor() == self.cursor(),
    {
        let line = self.line;
        let rest = line.subrange(name_begin, line.len() as int);
        match spec_find(rest, lit("wed [")) {
            Some(i) => {
                self.lemma_result_showed_cursor(site, currency, name_begin, i);
            },
            None => {},
        }
    }

    /// Reading what became of a seat never moves the cursor.
    pub proof fn lemma_summary_result_cursor(self, site: PokerSite, currency: char)
        ensures
            self.summary_result(site, currency).0.cursor() == self.cursor(),
    {
        match find_byte_from(self.line, 0x3a, lit("Seat ").len() as int) {
            None => {},
            Some(colon) => {
                self.lemma_result_with_data_cursor(site, currency, colon + 2);
            },
        }
    }

    /// The results of the seats, from the cursor on: each line that begins
    /// with `Seat ` is read and passed. They must be followed by an empty
    /// line or by the end of the text. The result is the ranges of the
    /// actions and the winners from the two places given to the ends of
    /// their columns.
    pub open spec fn summary_results_from(
        self,
        site: PokerSite,
        currency: char,
        actions_begin: int,
        winners_begin: int,
    ) -> (State, Option<(ActionSpan, WinnerSpan)>)
        decreases self.remaining(),
        when self.lines.wf()
    {
        if !self.at_end && spec_starts_with(self.line, lit("Seat ")) {
            let (read, ok) = self.summary_result(site, currency);
            if ok {
                proof {
                    self.lemma_summary_result_cursor(site, currency);
                    self.lines.lemma_next();
                }
                read.advance().summary_results_from(site, currency, actions_begin, winners_begin)
            } else {
                (read, None)
            }
        } else if self.line.len() == 0 || self.at_end {
            let actions = self.hands.actions.len() - actions_begin;
            let winners = self.hands.winners.len() - winners_begin;
            if span_fits(actions_begin, actions) && span_fits(winners_begin, winners) {
                (
                    self,
                    Some(
                        (
                            ActionSpan::spec_new(actions_begin, actions),
                            WinnerSpan::spec_new(winners_begin, winners),
                        ),
                    ),
                )
            } else {
                (self, None)
            }
        } else {
            (self, None)
        }
    }

    /// The results of the seats, as ranges that begin at the ends of the
    /// actions and the winners columns.
    pub open spec fn summary_results(self, site: PokerSite, currency: char) -> (
        State,
        Option<(ActionSpan, WinnerSpan)>,
    ) {
        self.summary_results_from(
            site,
            currency,
            self.hands.actions.len() as int,
            self.hands.winners.len() as int,
        )
    }

    /// The summary of a PokerStars hand: the line that opens it is passed
    /// over, then come the pots and the results of the seats.
    #[verifier::opaque]
    pub open spec fn pokerstars_summary(self, site: PokerSite, currency: char) -> (
        State,
        Option<Summary>,
    ) {
        let (s1, pot) = self.advance().summary_pots(site, currency);
        match pot {
            None => (s1, None),
            Some(pot) => {
                let (s2, spans) = s1.summary_results(site, currency);
                match spans {
                    None => (s2, None),
                    Some((actions, winners)) => (s2, Some(Summary { pot, actions, winners })),
                }
            },
        }
    }
}

impl State {
    /// Passing lines never moves the cursor back.
    pub proof fn lemma_skips_move(self)
        requires
            self.sound(),
        ensures
            self.skip_run_twice().moved_on(self),
            self.skip_boards().moved_on(self),
        decreases self.remaining(),
    {
        self.lemma_advance();
        if !self.at_end {
            self.advance().lemma_skips_move();
        }
    }

    /// Reading the results of the seats never moves the cursor back.
    pub proof fn lemma_summary_results_from_moves(
        self,
        site: PokerSite,
        currency: char,
        actions_begin: int,
        winners_begin: int,
    )
        requires
            self.sound(),
        ensures
            self.summary_results_from(site, currency, actions_begin, winners_begin).0.moved_on(
                self,
            ),
        decreases self.remaining(),
    {
        if !self.at_end && spec_starts_with(self.line, lit("Seat ")) {
            let (read, ok) = self.summary_result(site, currency);
            self.lemma_summary_result_cursor(site, currency);
            if ok {
                self.lemma_advance();
                read.lemma_advance();
                read.advance().lemma_summary_results_from_moves(
                    site,
                    currency,
                    actions_begin,
                    winners_begin,
                );
            }
        }
    }

    /// Reading the cards shown in an OnGame summary never moves the cursor
    /// back.
    pub proof fn lemma_ongame_shown_from_moves(self, actions_begin: int, winners_begin: int)
        requires
            self.sound(),
        ensures
            self.ongame_shown_from(actions_begin, winners_begin).0.moved_on(self),
        decreases self.remaining(),
    {
        self.lemma_advance();
        if self.at_end {
        } else if self.line.len() > 0 && self.line[0] == 0x2a {
        } else {
            let (read, ok) = self.ongame_shown();
            if ok {
                read.lemma_advance();
                read.advance().lemma_ongame_shown_from_moves(actions_begin, winners_begin);
            }
        }
    }

    /// Reading a summary never moves the cursor back.
    pub proof fn lemma_summary_moves(self, site: PokerSite, currency: char)
        requires
            self.sound(),
        ensures
            self.summary(site, currency).0.moved_on(self),
    {
        reveal(State::summary);
        reveal(State::pokerstars_summary);
        reveal(State::ongame_summary);
        self.lemma_advance();
        let next = self.advance();
        next.lemma_advance();
        if site == PokerSite::OnGame {
            let at_pot = next.advance();
            match spec_ongame_pot(at_pot.line, currency) {
                None => {},
                Some((total, name, win, rake)) => {
                    let (named, id) = at_pot.player_id(name);
                    match id {
                        None => {},
                        Some(id) => {
                            let won = named.push_winner(
                                Winner { amount: win, player_id: id, game_id: 0 },
                            );
                            won.lemma_advance();
                            won.advance().lemma_ongame_shown_from_moves(
                                at_pot.hands.actions.len() as int,
                                at_pot.hands.winners.len() as int,
                            );
                        },
                    }
                },
            }
        } else {
            let (s1, pot) = next.summary_pots(site, currency);
            assert(s1.moved_on(next)) by {
                next.advance().lemma_skips_move();
                next.advance().skip_run_twice().lemma_skips_move();
            }
            match pot {
                None => {},
                Some(pot) => {
                    s1.lemma_summary_results_from_moves(
                        site,
                        currency,
                        s1.hands.actions.len() as int,
                        s1.hands.winners.len() as int,
                    );
                },
            }
        }
    }
}

/// Reads the line of the pots and passes the lines about the boards.
pub fn parse_summary_pots(p: &mut Parser, site: PokerSite, currency: char) -> (r: Option<PotInfo>)
    requires
        old(p).wf(),
    ensures
        final(p).wf(),
        final(p).data == old(p).data,
        final(p)@.hands == old(p)@.hands,
        final(p)@.same_hand(old(p)@),
        (final(p)@, r) == old(p)@.summary_pots(site, currency),
        final(p)@.remaining() <= old(p)@.remaining(),
{
    let pot = match read_pots(p.line, currency, comma(site)) {
        Some(pot) => pot,
        None => {
            return None;
        },
    };
    proof {
        lemma_pot_info_of(pot);
    }
    p.advance();
    let ghost first = p@;
    while !p.eof() && starts_with(p.line, "Hand was".as_bytes())
        invariant
            p.wf(),
            p.data == old(p).data,
            p@.hands == old(p)@.hands,
            p@.same_hand(old(p)@),
            p@.remaining() <= old(p)@.remaining(),
            first.skip_run_twice() == p@.skip_run_twice(),
        decreases p@.remaining(),
    {
        p.advance();
    }
    let ghost second = p@;
    while !p.eof() && find(p.line, "Board [".as_bytes()).is_some()
        invariant
            p.wf(),
            p.data == old(p).data,
            p@.hands == old(p)@.hands,
            p@.same_hand(old(p)@),
            p@.remaining() <= old(p)@.remaining(),
            second.skip_boards() == p@.skip_boards(),
        decreases p@.remaining(),
    {
        p.advance();
    }
    Some(pot)
}

/// Reads the results of the seats.
pub fn parse_summary_actions_winners(p: &mut Parser, site: PokerSite, currency: char) -> (r: Option<
    (ActionSpan, WinnerSpan),
>)
    requires
        old(p).wf(),
    ensures
        final(p).wf(),
        final(p).data == old(p).data,
        final(p)@.hands.grows_from(old(p)@.hands),
        final(p)@.same_hand(old(p)@),
        (final(p)@, r) == old(p)@.summary_results(site, currency),
        final(p)@.remaining() <= old(p)@.remaining(),
        r matches Some((actions, winners)) ==> final(p)@.hands.actions_ok(
            final(p)@.src_offset,
            actions,
        ) && final(p)@.hands.has_winners(winners),
{
    let actions_begin = p.hands.actions.len();
    let winners_begin = p.hands.winners.len();
    loop
        invariant
            p.wf(),
            p.data == old(p).data,
            p@.hands.grows_from(old(p)@.hands),
            p@.same_hand(old(p)@),
            p@.remaining() <= old(p)@.remaining(),
            actions_begin == old(p)@.hands.actions.len() <= p@.hands.actions.len(),
            winners_begin == old(p)@.hands.winners.len() <= p@.hands.winners.len(),
            p@.actions_ok_from(actions_begin as int),
            old(p)@.summary_results(site, currency) == p@.summary_results_from(
                site,
                currency,
                actions_begin as int,
                winners_begin as int,
            ),
        decreases p@.remaining(),
    {
        if !p.eof() && starts_with(p.line, "Seat ".as_bytes()) {
            let ghost before = p@;
            if !parse_summary_result(p, site, currency) {
                return None;
            }
            proof {
                p@.lemma_actions_ok_from(before, actions_begin as int);
            }
            p.advance();
        } else if p.line.len() == 0 || p.eof() {
            let actions = p.hands.actions.len() - actions_begin;
            let winners = p.hands.winners.len() - winners_begin;
            if actions_begin as u64 > MAX_SPAN_BEGIN || actions as u64 > MAX_SPAN_SIZE
                || winners_begin as u64 > MAX_SPAN_BEGIN || winners as u64 > MAX_SPAN_SIZE {
                return None;
            }
            proof {
                ActionSpan::lemma_fields(actions_begin as int, actions as int);
                WinnerSpan::lemma_fields(winners_begin as int, winners as int);
            }
            return Some(
                (ActionSpan::new(actions_begin, actions), WinnerSpan::new(winners_begin, winners)),
            );
        } else {
            return None;
        }
    }
}

/// Reads the summary of a PokerStars hand.
pub fn parse_pokerstars_summary(p: &mut Parser, site: PokerSite, currency: char) -> (r: Option<
    Summary,
>)
    requires
        old(p).wf(),
    ensures
        final(p).wf(),
        final(p).data == old(p).data,
        final(p)@.hands.grows_from(old(p)@.hands),
        final(p)@.same_hand(old(p)@),
        (final(p)@, r) == old(p)@.pokerstars_summary(site, currency),
        final(p)@.remaining() <= old(p)@.remaining(),
        r matches Some(summary) ==> final(p)@.hands.actions_ok(
            final(p)@.src_offset,
            summary.actions,
        ) && final(p)@.hands.has_winners(summary.winners),
{
    reveal(State::pokerstars_summary);
    p.advance();
    let pot = match parse_summary_pots(p, site, currency) {
        Some(pot) => pot,
        None => {
            return None;
        },
    };
    match parse_summary_actions_winners(p, site, currency) {
        Some((actions, winners)) => Some(Summary { pot, actions, winners }),
        None => None,
    }
}

/// What a line such as `Main pot: $23.40 won by name ($22.20)` says: the
/// pot, which is the amount one currency symbol after the opening words;
/// the winner's name, after the words ` won by ` that follow the pot and
/// before the byte that precedes the last `(`; what the winner got, one
/// currency symbol after that `(`; and the rake, which is the rest of the
/// pot.
pub open spec fn spec_ongame_pot(line: Seq<u8>, currency: char) -> Option<
    (Number, Seq<u8>, Number, Number),
> {
    match (
        spec_extract_currency(line, currency, lit("Main pot: ").len() as int, true),
        spec_rfind_byte(line, 0x28),
    ) {
        (Some((total, total_end)), Some(open)) => {
            let name_begin = total_end + lit(" won by ").len();
            if name_begin > open - 1 {
                None
            } else {
                match spec_extract_currency(line, currency, open + 1, true) {
                    Some((win, _)) => if win@ > total@ {
                        None
                    } else {
                        Some(
                            (
                                total,
                                line.subrange(name_begin, open - 1),
                                win,
                                Number((total@ - win@) as u32),
                            ),
                        )
                    },
                    None => None,
                }
            }
        },
        _ => None,
    }
}

/// A pot, its winner and the rake, as plain values.
pub open spec fn opt_ongame_pot(r: Option<(Number, &[u8], Number, Number)>) -> Option<
    (Number, Seq<u8>, Number, Number),
> {
    match r {
        Some((total, name, win, rake)) => Some((total, name@, win, rake)),
        None => None,
    }
}

fn read_ongame_pot<'a>(line: &'a [u8], currency: char) -> (r: Option<
    (Number, &'a [u8], Number, Number),
>)
    ensures
        opt_ongame_pot(r) == spec_ongame_pot(line@, currency),
{
    let (total, total_end, open) = match (
        extract_currency(line, currency, "Main pot: ".as_bytes().len(), true),
        rfind_byte(line, 0x28),
    ) {
        (Some((total, total_end)), Some(open)) => (total, total_end, open),
        _ => {
            return None;
        },
    };
    let words = " won by ".as_bytes().len();
    if open < 1 || words > open - 1 || total_end > open - 1 - words {
        return None;
    }
    let name_begin = total_end + words;
    match extract_currency(line, currency, open + 1, true) {
        Some((win, _)) => match total.checked_sub(win) {
            Some(rake) => Some((total, cut(line, name_begin, open - 1), win, rake)),
            None => None,
        },
        None => None,
    }
}

impl State {
    /// What a line of an OnGame summary after the pot adds: where the line
    /// ends with `]`, the cards in its last brackets, shown by the player
    /// that the line seats.
    pub open spec fn ongame_shown(self) -> (State, bool) {
        let line = self.line;
        if !(line.len() > 0 && line.last() == 0x5d) {
            (self, true)
        } else {
            match (spec_last_cards(line), spec_parse_seat_name(line)) {
                (Some(cards), Some((_, name, _))) => {
                    let (shown, a) = self.action_cards(ActionType::Show, name, cards_of(cards));
                    match a {
                        Some(a) => (shown.push_action(a), true),
                        None => (shown, false),
                    }
                },
                _ => (self, false),
            }
        }
    }

    /// The lines of an OnGame summary after the pot, up to and past the
    /// line that begins with `*`.
    pub open spec fn ongame_shown_from(self, actions_begin: int, winners_begin: int) -> (
        State,
        Option<(ActionSpan, WinnerSpan)>,
    )
        decreases self.remaining(),
        when self.lines.wf()
    {
        if self.at_end {
            (self, None)
        } else if self.line.len() > 0 && self.line[0] == 0x2a {
            let actions = self.hands.actions.len() - actions_begin;
            let winners = self.hands.winners.len() - winners_begin;
            if span_fits(actions_begin, actions) && span_fits(winners_begin, winners) {
                (
                    self.advance(),
                    Some(
                        (
                            ActionSpan::spec_new(actions_begin, actions),
                            WinnerSpan::spec_new(winners_begin, winners),
                        ),
                    ),
                )
            } else {
                (self, None)
            }
        } else {
            let (read, ok) = self.ongame_shown();
            if ok {
                proof {
                    self.lines.lemma_next();
                }
                read.advance().ongame_shown_from(actions_begin, winners_begin)
            } else {
                (read, None)
            }
        }
    }

    /// The summary of an OnGame hand: two lines are passed over; the next
    /// tells the pot and its winner, who becomes a player where not one
    /// yet; then come the cards that were shown.
    #[verifier::opaque]
    pub open spec fn ongame_summary(self, currency: char) -> (State, Option<Summary>) {
        let at_pot = self.advance().advance();
        match spec_ongame_pot(at_pot.line, currency) {
            None => (at_pot, None),
            Some((total, name, win, rake)) => {
                let (named, id) = at_pot.player_id(name);
                match id {
                    None => (named, None),
                    Some(id) => {
                        let (read, spans) = named.push_winner(
                            Winner { amount: win, player_id: id, game_id: 0 },
                        ).advance().ongame_shown_from(
                            at_pot.hands.actions.len() as int,
                            at_pot.hands.winners.len() as int,
                        );
                        match spans {
                            None => (read, None),
                            Some((actions, winners)) => (
                                read,
                                Some(
                                    Summary {
                                        pot: pot_info_of(
                                            total,
                                            rake,
                                            total,
                                            seq![Number(0), Number(0), Number(0)],
                                        ),
                                        actions,
                                        winners,
                                    },
                                ),
                            ),
                        }
                    },
                }
            },
        }
    }

    /// The summary of a hand, for the site.
    #[verifier::opaque]
    pub open spec fn summary(self, site: PokerSite, currency: char) -> (State, Option<Summary>) {
        if site == PokerSite::OnGame {
            self.ongame_summary(currency)
        } else {
            self.pokerstars_summary(site, currency)
        }
    }
}

fn parse_ongame_shown(p: &mut Parser) -> (ok: bool)
    requires
        old(p).wf(),
    ensures
        final(p)@.new_actions_ok(old(p)@),
        final(p).wf(),
        final(p).data == old(p).data,
        final(p)@.hands.grows_from(old(p)@.hands),
        final(p)@.same_hand(old(p)@),
        final(p)@.cursor() == old(p)@.cursor(),
        (final(p)@, ok) == old(p)@.ongame_shown(),
{
    let line = p.line;
    if !ends_with_byte(line, 0x5d) {
        return true;
    }
    let open = match rfind_byte(line, 0x5b) {
        Some(i) => i,
        None => {
            return false;
        },
    };
    if open + 1 > line.len() - 1 {
        return false;
    }
    match (parse_cards(cut(line, open + 1, line.len() - 1)), parse_seat_name(line)) {
        (Some(cards), Some((_, name, _))) => {
            proof {
                lemma_cards_of(cards);
            }
            match p.action_cards(ActionType::Show, name, cards) {
                Some(a) => {
                    p.push_action(a);
                    true
                },
                None => false,
            }
        },
        _ => false,
    }
}

fn parse_ongame_shown_list(p: &mut Parser, actions_begin: usize, winners_begin: usize) -> (r:
    Option<(ActionSpan, WinnerSpan)>)
    requires
        old(p).wf(),
        actions_begin <= old(p)@.hands.actions.len(),
        winners_begin <= old(p)@.hands.winners.len(),
        old(p)@.actions_ok_from(actions_begin as int),
    ensures
        final(p).wf(),
        final(p).data == old(p).data,
        final(p)@.hands.grows_from(old(p)@.hands),
        final(p)@.same_hand(old(p)@),
        (final(p)@, r) == old(p)@.ongame_shown_from(actions_begin as int, winners_begin as int),
        final(p)@.remaining() <= old(p)@.remaining(),
        r matches Some((actions, winners)) ==> final(p)@.hands.actions_ok(
            final(p)@.src_offset,
            actions,
        ) && final(p)@.hands.has_winners(winners),
{
    loop
        invariant
            p.wf(),
            p@.actions_ok_from(actions_begin as int),
            p.data == old(p).data,
            p@.hands.grows_from(old(p)@.hands),
            p@.same_hand(old(p)@),
            p@.remaining() <= old(p)@.remaining(),
            actions_begin <= p@.hands.actions.len(),
            winners_begin <= p@.hands.winners.len(),
            old(p)@.ongame_shown_from(actions_begin as int, winners_begin as int)
                == p@.ongame_shown_from(actions_begin as int, winners_begin as int),
        decreases p@.remaining(),
    {
        if p.eof() {
            return None;
        }
        if starts_with_byte(p.line, 0x2a) {
            let actions = p.hands.actions.len() - actions_begin;
            let winners = p.hands.winners.len() - winners_begin;
            if actions_begin as u64 > MAX_SPAN_BEGIN || actions as u64 > MAX_SPAN_SIZE
                || winners_begin as u64 > MAX_SPAN_BEGIN || winners as u64 > MAX_SPAN_SIZE {
                return None;
            }
            p.advance();
            proof {
                ActionSpan::lemma_fields(actions_begin as int, actions as int);
                WinnerSpan::lemma_fields(winners_begin as int, winners as int);
            }
            return Some(
                (ActionSpan::new(actions_begin, actions), WinnerSpan::new(winners_begin, winners)),
            );
        }
        let ghost before = p@;
        if !parse_ongame_shown(p) {
            return None;
        }
        proof {
            p@.lemma_actions_ok_from(before, actions_begin as int);
        }
        p.advance();
    }
}

/// Reads the summary of an OnGame hand.
pub fn parse_ongame_summary(p: &mut Parser, currency: char) -> (r: Option<Summary>)
    requires
        old(p).wf(),
    ensures
        final(p).wf(),
        final(p).data == old(p).data,
        final(p)@.hands.grows_from(old(p)@.hands),
        final(p)@.same_hand(old(p)@),
        (final(p)@, r) == old(p)@.ongame_summary(currency),
        final(p)@.remaining() <= old(p)@.remaining(),
        r matches Some(summary) ==> final(p)@.hands.actions_ok(
            final(p)@.src_offset,
            summary.actions,
        ) && final(p)@.hands.has_winners(summary.winners),
{
    reveal(State::ongame_summary);
    p.advance();
    p.advance();
    let actions_begin = p.hands.actions.len();
    let winners_begin = p.hands.winners.len();
    let (total, name, win, rake) = match read_ongame_pot(p.line, currency) {
        Some(r) => r,
        None => {
            return None;
        },
    };
    let id = match p.player_id(name) {
        Some(id) => id,
        None => {
            return None;
        },
    };
    p.hands.winners.push(Winner { amount: win, player_id: id, game_id: 0 });
    p.advance();
    let pot = PotInfo { total, rake, main: total, side: [Number(0), Number(0), Number(0)] };
    proof {
        lemma_pot_info_of(pot);
        assert(pot.side@ =~= seq![Number(0), Number(0), Number(0)]);
    }
    match parse_ongame_shown_list(p, actions_begin, winners_begin) {
        Some((actions, winners)) => Some(Summary { pot, actions, winners }),
        None => None,
    }
}

/// Reads the summary of a hand.
pub fn parse_summary(p: &mut Parser, site: PokerSite, currency: char) -> (r: Option<Summary>)
    requires
        old(p).wf(),
    ensures
        final(p).wf(),
        final(p).data == old(p).data,
        final(p)@.hands.grows_from(old(p)@.hands),
        final(p)@.same_hand(old(p)@),
        (final(p)@, r) == old(p)@.summary(site, currency),
        final(p)@.remaining() <= old(p)@.remaining(),
        r matches Some(summary) ==> final(p)@.hands.actions_ok(
            final(p)@.src_offset,
            summary.actions,
        ) && final(p)@.hands.has_winners(summary.winners),
{
    reveal(State::summary);
    if site == PokerSite::OnGame {
        parse_ongame_summary(p, currency)
    } else {
        parse_pokerstars_summary(p, site, currency)
    }
}

} // verus!
