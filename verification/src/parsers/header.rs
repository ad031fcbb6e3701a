//! The lines that open a hand: what is played, at which table, and by whom.

use vstd::prelude::*;
use crate::parsers::currency::{
    extract_currency, find_currency, opt_amount, opt_found, parse_currency_char, rfind_currency,
    spec_extract_currency, spec_find_currency, spec_parse_currency_char, spec_rfind_currency,
};
use crate::parsers::fields::{parse_seat_name, spec_parse_seat_name};
use crate::parsers::number::{is_digit, parse_float, parse_integer, spec_parse_float};
use crate::parsers::parser::{Parser, State};
use crate::parsers::pokerstars::{
    comma, leading_integer, spec_parse_datetime, spec_parse_game_bet_type, spec_trim_player_name,
    trim_player_name, uses_comma, PokerStars,
};
use crate::parsers::stages::{parse_action_list, Stage};
use crate::parsers::text::{
    cut, find_byte, find_byte_at, find_byte_from, head, lit, rfind_byte, spec_find_byte,
    spec_rfind_byte, spec_starts_with, starts_with, starts_with_byte, tail,
};
use crate::pklp::action::SEAT_NONE;
use crate::pklp::datetime::DateTime;
use crate::pklp::hand::{Arena, BetType, GameType, Header, PokerSite};
use crate::pklp::number::Number;
use crate::pklp::span::{Span, SpanLike};

verus! {

/// What the first line of a PokerStars hand says.
pub struct HandInfo<'a> {
    pub id: &'a [u8],
    pub game_type: GameType,
    pub bet_type: BetType,
    pub start_date: DateTime,
    pub currency: char,
    pub small_blind: Number,
    pub big_blind: Number,
    /// The cap on a player's bets in one hand, where the table has one.
    pub bet_cap: Option<Number>,
}

/// A `HandInfo` as plain values.
pub struct HandInfoView {
    pub id: Seq<u8>,
    pub game_type: GameType,
    pub bet_type: BetType,
    pub start_date: DateTime,
    pub currency: char,
    pub small_blind: Number,
    pub big_blind: Number,
    pub bet_cap: Option<Number>,
}

impl<'a> HandInfo<'a> {
    pub open spec fn view(&self) -> HandInfoView {
        HandInfoView {
            id: self.id@,
            game_type: self.game_type,
            bet_type: self.bet_type,
            start_date: self.start_date,
            currency: self.currency,
            small_blind: self.small_blind,
            big_blind: self.big_blind,
            bet_cap: self.bet_cap,
        }
    }
}

/// A `HandInfo` as plain values, where there is one.
pub open spec fn opt_hand_info(r: Option<HandInfo>) -> Option<HandInfoView> {
    match r {
        Some(info) => Some(info@),
        None => None,
    }
}

/// The cap that follows the blinds: after ` -` and one more byte, the first
/// amount. `Some(None)` where no ` -` follows, `None` where one does but no
/// amount.
pub open spec fn spec_bet_cap(rest: Seq<u8>, currency: char, comma: bool) -> Option<
    Option<Number>,
> {
    if !spec_starts_with(rest, lit(" -")) {
        Some(None)
    } else if 3 > rest.len() {
        None
    } else {
        match spec_find_currency(rest.subrange(3, rest.len() as int), currency, comma) {
            Some((cap, _)) => Some(Some(cap)),
            None => None,
        }
    }
}

/// What a line such as
/// `PokerStars Hand #1:  Hold'em No Limit ($0.25/$0.50 USD) - 2020/02/08 4:04:48 ET`
/// says. The id stands between the opening words and the first `:` after
/// them; the date two bytes after the last `-`; the game two bytes after
/// the id's `:`; the blinds after the last `(` before the date's `-`: a
/// currency symbol, the small blind, one byte, then the first amount is the
/// big blind.
pub open spec fn spec_hand_info(line: Seq<u8>) -> Option<HandInfoView> {
    let comma = false;
    let len = line.len() as int;
    let id_begin = lit("PokerStars Hand #").len() as int;
    match find_byte_from(line, 0x3a, id_begin) {
        None => None,
        Some(id_end) => match spec_rfind_byte(line, 0x2d) {
            None => None,
            Some(dash) => if dash + 2 <= id_end || dash + 2 > len || id_end + 2 > len {
                None
            } else {
                match (
                    spec_parse_game_bet_type(line.subrange(id_end + 2, len)),
                    spec_parse_datetime(line.subrange(dash + 2, len), comma),
                    spec_rfind_byte(line.subrange(0, dash), 0x28),
                ) {
                    (Some((game_type, bet_type)), Some(start_date), Some(open)) => {
                        let blinds = line.subrange(open + 1, len);
                        match spec_parse_currency_char(blinds) {
                            None => None,
                            Some((currency, width)) => match spec_parse_float(
                                blinds.subrange(width, blinds.len() as int),
                                comma,
                            ) {
                                None => None,
                                Some((small_blind, small_end)) => if width + small_end + 1
                                    > blinds.len() {
                                    None
                                } else {
                                    let after_small = blinds.subrange(
                                        width + small_end + 1,
                                        blinds.len() as int,
                                    );
                                    match spec_find_currency(after_small, currency, comma) {
                                        None => None,
                                        Some((big_blind, (_, big_end))) => match spec_bet_cap(
                                            after_small.subrange(
                                                big_end,
                                                after_small.len() as int,
                                            ),
                                            currency,
                                            comma,
                                        ) {
                                            None => None,
                                            Some(bet_cap) => Some(
                                                HandInfoView {
                                                    id: line.subrange(id_begin, id_end),
                                                    game_type,
                                                    bet_type,
                                                    start_date,
                                                    currency,
                                                    small_blind,
                                                    big_blind,
                                                    bet_cap,
                                                },
                                            ),
                                        },
                                    }
                                },
                            },
                        }
                    },
                    _ => None,
                }
            },
        },
    }
}

fn read_bet_cap(rest: &[u8], currency: char, comma: bool) -> (r: Option<Option<Number>>)
    ensures
        r == spec_bet_cap(rest@, currency, comma),
{
    if !starts_with(rest, " -".as_bytes()) {
        Some(None)
    } else if 3 > rest.len() {
        None
    } else {
        match find_currency(tail(rest, 3), currency, comma) {
            Some((cap, _)) => Some(Some(cap)),
            None => None,
        }
    }
}

/// Reads the first line of a PokerStars hand.
pub fn read_hand_info<'a>(line: &'a [u8]) -> (r: Option<HandInfo<'a>>)
    ensures
        opt_hand_info(r) == spec_hand_info(line@),
{
    let comma = false;
    let len = line.len();
    let id_begin = "PokerStars Hand #".as_bytes().len();
    let id_end = match find_byte_at(line, 0x3a, id_begin) {
        Some(i) => i,
        None => {
            return None;
        },
    };
    let dash = match rfind_byte(line, 0x2d) {
        Some(i) => i,
        None => {
            return None;
        },
    };
    if len < 2 || dash > len - 2 || dash + 2 <= id_end || id_end > len - 2 {
        return None;
    }
    let game = PokerStars::parse_game_bet_type(tail(line, id_end + 2));
    let date = PokerStars::parse_datetime(tail(line, dash + 2));
    let open = rfind_byte(head(line, dash), 0x28);
    let (game_type, bet_type, start_date, open) = match (game, date, open) {
        (Some((game_type, bet_type)), Some(start_date), Some(open)) => (
            game_type,
            bet_type,
            start_date,
            open,
        ),
        _ => {
            return None;
        },
    };
    let blinds = tail(line, open + 1);
    let (currency, width) = match parse_currency_char(blinds) {
        Some(r) => r,
        None => {
            return None;
        },
    };
    let (small_blind, small_end) = match parse_float(tail(blinds, width), comma) {
        Some(r) => r,
        None => {
            return None;
        },
    };
    if width + small_end + 1 > blinds.len() {
        return None;
    }
    let after_small = tail(blinds, width + small_end + 1);
    let (big_blind, big_end) = match find_currency(after_small, currency, comma) {
        Some((big_blind, (_, big_end))) => (big_blind, big_end),
        None => {
            return None;
        },
    };
    let bet_cap = match read_bet_cap(tail(after_small, big_end), currency, comma) {
        Some(cap) => cap,
        None => {
            return None;
        },
    };
    Some(
        HandInfo {
            id: cut(line, id_begin, id_end),
            game_type,
            bet_type,
            start_date,
            currency,
            small_blind,
            big_blind,
            bet_cap,
        },
    )
}

/// What a line such as `Table 'Acamar V' 6-max Seat #1 is the button`
/// says: the name between the first two `'`; two bytes on, the number of
/// seats; after it and the words `-max Seat #`, the seat of the button.
pub open spec fn spec_table_info(line: Seq<u8>) -> Option<(Seq<u8>, u8, u8)> {
    let len = line.len() as int;
    match spec_find_byte(line, 0x27) {
        None => None,
        Some(quote) => match find_byte_from(line, 0x27, quote + 1) {
            None => None,
            Some(name_end) => if name_end + 2 > len {
                None
            } else {
                match crate::parsers::number::spec_parse_integer(
                    line.subrange(name_end + 2, len),
                    false,
                ) {
                    None => None,
                    Some((max_players, width)) => {
                        let dealer_begin = name_end + 2 + width + lit("-max Seat #").len();
                        if dealer_begin > len {
                            None
                        } else {
                            match leading_integer(line.subrange(dealer_begin, len), false) {
                                None => None,
                                Some(dealer) => Some(
                                    (
                                        line.subrange(quote + 1, name_end),
                                        max_players as u8,
                                        dealer as u8,
                                    ),
                                ),
                            }
                        }
                    },
                }
            },
        },
    }
}

/// A table's name, seats and button, as plain values.
pub open spec fn opt_table_info(r: Option<(&[u8], u8, u8)>) -> Option<(Seq<u8>, u8, u8)> {
    match r {
        Some((name, seats, dealer)) => Some((name@, seats, dealer)),
        None => None,
    }
}

/// Reads the second line of a PokerStars hand.
pub fn read_table_info<'a>(line: &'a [u8]) -> (r: Option<(&'a [u8], u8, u8)>)
    ensures
        opt_table_info(r) == spec_table_info(line@),
{
    let len = line.len();
    let quote = match find_byte(line, 0x27) {
        Some(i) => i,
        None => {
            return None;
        },
    };
    let name_end = match find_byte_at(line, 0x27, quote + 1) {
        Some(i) => i,
        None => {
            return None;
        },
    };
    if len < 2 || name_end > len - 2 {
        return None;
    }
    let (max_players, width) = match parse_integer(tail(line, name_end + 2), false) {
        Some(r) => r,
        None => {
            return None;
        },
    };
    let words = "-max Seat #".as_bytes().len();
    if words > len - (name_end + 2 + width) {
        return None;
    }
    let dealer_begin = name_end + 2 + width + words;
    let dealer = match parse_integer(tail(line, dealer_begin), false) {
        Some((dealer, _)) => dealer,
        None => {
            return None;
        },
    };
    Some((cut(line, quote + 1, name_end), max_players as u8, dealer as u8))
}

/// The seat that one or two digits write.
pub open spec fn spec_seat_number(s: Seq<u8>) -> Option<u8> {
    if s.len() == 1 && is_digit(s[0]) {
        Some((s[0] - 0x30) as u8)
    } else if s.len() == 2 && is_digit(s[0]) && is_digit(s[1]) {
        Some(((s[0] - 0x30) * 10 + (s[1] - 0x30)) as u8)
    } else {
        None
    }
}

fn seat_number(s: &[u8]) -> (r: Option<u8>)
    ensures
        r == spec_seat_number(s@),
{
    if s.len() == 1 && 0x30 <= s[0] && s[0] <= 0x39 {
        Some(s[0] - 0x30)
    } else if s.len() == 2 && 0x30 <= s[0] && s[0] <= 0x39 && 0x30 <= s[1] && s[1] <= 0x39 {
        Some((s[0] - 0x30) * 10 + (s[1] - 0x30))
    } else {
        None
    }
}

/// What a line such as `Seat 2: name ($50 in chips)` says: the seat, the
/// name as the site's hands know it, and the chips, which are the amount
/// one currency symbol after the last `(`.
pub open spec fn spec_seat_line(line: Seq<u8>, site: PokerSite, currency: char) -> Option<
    (u8, Seq<u8>, Number),
> {
    match spec_parse_seat_name(line) {
        None => None,
        Some((seat, name, rest_begin)) => match (
            spec_seat_number(
                line.subrange(seat.spec_begin(), seat.spec_begin() + seat.spec_size()),
            ),
            spec_extract_currency(line, currency, rest_begin, uses_comma(site)),
        ) {
            (Some(seat), Some((chips, _))) => Some(
                (seat, spec_trim_player_name(site, name), chips),
            ),
            _ => None,
        },
    }
}

/// A seat, a name and chips, as plain values.
pub open spec fn opt_seat_line(r: Option<(u8, &[u8], Number)>) -> Option<(u8, Seq<u8>, Number)> {
    match r {
        Some((seat, name, chips)) => Some((seat, name@, chips)),
        None => None,
    }
}

/// Reads a line that seats a player.
pub fn read_seat_line<'a>(line: &'a [u8], site: PokerSite, currency: char) -> (r: Option<
    (u8, &'a [u8], Number),
>)
    ensures
        opt_seat_line(r) == spec_seat_line(line@, site, currency),
{
    let (seat, name, rest_begin) = match parse_seat_name(line) {
        Some(r) => r,
        None => {
            return None;
        },
    };
    let seat = seat_number(cut(line, seat.begin(), seat.begin() + seat.size()));
    let chips = extract_currency(line, currency, rest_begin, comma(site));
    match (seat, chips) {
        (Some(seat), Some((chips, _))) => Some((seat, trim_player_name(site, name), chips)),
        _ => None,
    }
}

/// The id that the first line of a PokerStars hand gives the hand.
pub open spec fn hand_id_of(line: Seq<u8>) -> Seq<u8> {
    match spec_hand_info(line) {
        Some(info) => info.id,
        None => Seq::empty(),
    }
}

/// The currency that the first line of a PokerStars hand names.
pub open spec fn hand_currency_of(line: Seq<u8>) -> char {
    match spec_hand_info(line) {
        Some(info) => info.currency,
        None => '\0',
    }
}

/// The table's name that the second line of a PokerStars hand gives.
pub open spec fn table_name_of(line: Seq<u8>) -> Seq<u8> {
    match spec_table_info(line) {
        Some((name, _, _)) => name,
        None => Seq::empty(),
    }
}

impl State {
    /// The first line of a PokerStars hand, read into `h`: the id goes to
    /// the text buffer, and the button and the hero are not known yet. The
    /// cursor moves on whether or not the line could be read, so that a hand
    /// with a bad first line is left behind.
    #[verifier::opaque]
    pub open spec fn pokerstars_hand_info(self, h: Header) -> (State, Option<Header>) {
        match spec_hand_info(self.line) {
            None => (self.advance(), None),
            Some(info) => {
                let (pushed, id) = self.push_str(info.id);
                match id {
                    None => (pushed.advance(), None),
                    Some(id) => (
                        pushed.advance(),
                        Some(
                            Header {
                                site: PokerSite::PokerStars,
                                dealer: SEAT_NONE,
                                hero: SEAT_NONE,
                                id,
                                game_type: info.game_type,
                                bet_type: info.bet_type,
                                start_date: info.start_date,
                                currency: info.currency,
                                small_blind: info.small_blind,
                                big_blind: info.big_blind,
                                bet_cap: match info.bet_cap {
                                    Some(cap) => cap,
                                    None => h.bet_cap,
                                },
                                ..h
                            },
                        ),
                    ),
                }
            },
        }
    }

    /// The second line of a PokerStars hand, read into `h`: the table's
    /// name goes to the text buffer.
    #[verifier::opaque]
    pub open spec fn pokerstars_table_info(self, h: Header) -> (State, Option<Header>) {
        match spec_table_info(self.line) {
            None => (self, None),
            Some((name, max_players, dealer)) => {
                let (pushed, table_name) = self.push_str(name);
                match table_name {
                    None => (pushed, None),
                    Some(table_name) => (
                        pushed.advance(),
                        Some(Header { table_name, max_players, dealer, ..h }),
                    ),
                }
            },
        }
    }

    /// The lines that seat the players, read from the cursor on: each
    /// player is added to the hand, and the cursor stops at the first line
    /// that does not begin with `Seat `. Where a player sits in the seat
    /// that `h` has for the button, the button becomes that player's id.
    pub open spec fn header_players(self, site: PokerSite, h: Header) -> (State, Option<Header>)
        decreases self.remaining(),
        when self.lines.wf()
    {
        if self.at_end || !spec_starts_with(self.line, lit("Seat ")) {
            (self, Some(h))
        } else {
            match spec_seat_line(self.line, site, h.currency) {
                None => (self, None),
                Some((seat, name, chips)) => {
                    let (added, id) = self.add_player(name, seat, chips);
                    match id {
                        None => (added, None),
                        Some(id) => {
                            proof {
                                self.lines.lemma_next();
                            }
                            added.advance().header_players(
                                site,
                                if seat == h.dealer {
                                    Header { dealer: id, ..h }
                                } else {
                                    h
                                },
                            )
                        },
                    }
                },
            }
        }
    }
}

/// A place in a text: what moving to the next line changes.
pub type Cursor = (crate::parsers::split::Split, Seq<u8>, bool);

/// The cursor moved to the next line.
pub open spec fn cursor_advance(c: Cursor) -> Cursor {
    match c.0.next() {
        Some(((begin, end), after)) => (after, c.0.data.subrange(begin, end), false),
        None => (c.0, Seq::empty(), true),
    }
}

/// The cursor moved on by `n` lines.
pub open spec fn cursor_skip(c: Cursor, n: nat) -> Cursor
    decreases n,
{
    if n == 0 {
        c
    } else {
        cursor_skip(cursor_advance(c), (n - 1) as nat)
    }
}

/// How much of the text lies after the cursor.
pub open spec fn cursor_remaining(c: Cursor) -> int {
    if c.2 {
        0
    } else {
        c.0.remaining() + 1
    }
}

/// The names that the lines from the cursor on give the players they seat,
/// up to the first line that seats none.
pub open spec fn seat_names_at(c: Cursor, site: PokerSite, currency: char) -> Seq<Seq<u8>>
    decreases cursor_remaining(c),
    when c.0.wf()
{
    if c.2 || !spec_starts_with(c.1, lit("Seat ")) {
        Seq::empty()
    } else {
        match spec_seat_line(c.1, site, currency) {
            None => Seq::empty(),
            Some((_, name, _)) => {
                proof {
                    c.0.lemma_next();
                }
                seq![name] + seat_names_at(cursor_advance(c), site, currency)
            },
        }
    }
}

/// The id that the first line of a hand gives it.
pub open spec fn literal_id(way: PokerSite, line: Seq<u8>) -> Seq<u8> {
    if way == PokerSite::OnGame {
        match spec_ongame_hand_id(line) {
            Some(id) => id,
            None => Seq::empty(),
        }
    } else {
        hand_id_of(line)
    }
}

/// The name that the line about the table gives it.
pub open spec fn literal_table_name(way: PokerSite, line: Seq<u8>) -> Seq<u8> {
    if way == PokerSite::OnGame {
        ongame_table_name_of(line)
    } else {
        table_name_of(line)
    }
}

/// How many lines after the first the line about the table stands.
pub open spec fn table_line_at(way: PokerSite) -> nat {
    if way == PokerSite::OnGame {
        2
    } else {
        1
    }
}

/// How many lines after the first the players begin.
pub open spec fn seat_lines_at(way: PokerSite) -> nat {
    if way == PokerSite::OnGame {
        5
    } else {
        2
    }
}

impl Arena {
    /// Whether the players from `begin` on are named as `names` says, one
    /// after the other.
    pub open spec fn players_named(self, begin: int, names: Seq<Seq<u8>>) -> bool {
        &&& 0 <= begin
        &&& begin + names.len() <= self.players.len()
        &&& forall|k: int|
            0 <= k < names.len() ==> self.has_text((#[trigger] self.players[begin + k]).name)
                && self.text(self.players[begin + k].name) == names[k]
    }

    /// Whether the header holds what the hand that begins at `c` says of
    /// itself: the id and the table's name read back from the text buffer
    /// as they stand in the hand's first lines, and so do the names of the
    /// players that the hand seats, in their order, from `players_begin`
    /// on.
    #[verifier::opaque]
    pub open spec fn says_literals(
        self,
        c: Cursor,
        site: PokerSite,
        h: Header,
        players_begin: int,
    ) -> bool {
        let way = State::header_site(site);
        &&& self.has_text(h.id)
        &&& self.text(h.id) == literal_id(way, c.1)
        &&& self.has_text(h.table_name)
        &&& self.text(h.table_name) == literal_table_name(
            way,
            cursor_skip(c, table_line_at(way)).1,
        )
        &&& self.players_named(
            players_begin,
            seat_names_at(cursor_skip(c, seat_lines_at(way)), way, h.currency),
        )
    }

    /// Players that were named stay named as the arena grows.
    pub proof fn lemma_players_named_grows(self, old: Arena, begin: int, names: Seq<Seq<u8>>)
        requires
            self.grows_from(old),
            old.players_named(begin, names),
        ensures
            self.players_named(begin, names),
    {
        assert forall|k: int| 0 <= k < names.len() implies self.has_text(
            (#[trigger] self.players[begin + k]).name,
        ) && self.text(self.players[begin + k].name) == names[k] by {
            let p = old.players[begin + k];
            assert(self.players[begin + k].name == p.name);
            self.lemma_text_grows(old, p.name);
        }
    }

    /// What a header holds of its hand it still holds as the arena grows.
    pub proof fn lemma_says_literals_grows(
        self,
        old: Arena,
        c: Cursor,
        site: PokerSite,
        h: Header,
        players_begin: int,
    )
        requires
            self.grows_from(old),
            old.says_literals(c, site, h, players_begin),
        ensures
            self.says_literals(c, site, h, players_begin),
    {
        reveal(Arena::says_literals);
        let way = State::header_site(site);
        self.lemma_text_grows(old, h.id);
        self.lemma_text_grows(old, h.table_name);
        self.lemma_players_named_grows(
            old,
            players_begin,
            seat_names_at(cursor_skip(c, seat_lines_at(way)), way, h.currency),
        );
    }
}

/// Reads the first line of a PokerStars hand into `h`.
pub fn parse_header_hand_info(p: &mut Parser, h: Header) -> (r: Option<Header>)
    requires
        old(p).wf(),
    ensures
        final(p).wf(),
        final(p).data == old(p).data,
        final(p)@.hands.grows_from(old(p)@.hands),
        final(p)@.same_hand(old(p)@),
        (final(p)@, r) == old(p)@.pokerstars_hand_info(h),
        final(p)@.remaining() <= old(p)@.remaining(),
        !old(p)@.at_end ==> final(p)@.remaining() < old(p)@.remaining(),
        r matches Some(header) ==> final(p)@.hands.text(header.id) == hand_id_of(old(p)@.line)
            && final(p)@.hands.has_text(header.id) && final(p)@.cursor() == cursor_skip(
            old(p)@.cursor(),
            1,
        ) && header.currency == hand_currency_of(old(p)@.line),
        final(p)@.hands.players == old(p)@.hands.players,
{
    reveal_with_fuel(cursor_skip, 4);
    reveal(State::pokerstars_hand_info);
    let info = match read_hand_info(p.line) {
        Some(info) => info,
        None => {
            p.advance();
            return None;
        },
    };
    let id = p.push_str(info.id);
    p.advance();
    match id {
        None => None,
        Some(id) => {
            let mut h = h;
            h.site = PokerSite::PokerStars;
            h.dealer = SEAT_NONE;
            h.hero = SEAT_NONE;
            h.id = id;
            h.game_type = info.game_type;
            h.bet_type = info.bet_type;
            h.start_date = info.start_date;
            h.currency = info.currency;
            h.small_blind = info.small_blind;
            h.big_blind = info.big_blind;
            match info.bet_cap {
                Some(cap) => {
                    h.bet_cap = cap;
                },
                None => {},
            }
            proof {
                Span::lemma_fields(old(p)@.hands.src.len() as int, info.id@.len() as int);
                assert(p@.hands.text(id) =~= info.id@);
            }
            Some(h)
        },
    }
}

/// Reads the second line of a PokerStars hand into `h`.
pub fn parse_header_table_info(p: &mut Parser, h: Header) -> (r: Option<Header>)
    requires
        old(p).wf(),
    ensures
        final(p).wf(),
        final(p).data == old(p).data,
        final(p)@.hands.grows_from(old(p)@.hands),
        final(p)@.same_hand(old(p)@),
        (final(p)@, r) == old(p)@.pokerstars_table_info(h),
        final(p)@.remaining() <= old(p)@.remaining(),
        r matches Some(header) ==> final(p)@.hands.text(header.table_name) == table_name_of(
            old(p)@.line,
        ) && final(p)@.hands.has_text(header.table_name) && header.id == h.id
            && header.currency == h.currency && final(p)@.cursor() == cursor_skip(
            old(p)@.cursor(),
            1,
        ),
        final(p)@.hands.players == old(p)@.hands.players,
{
    reveal_with_fuel(cursor_skip, 4);
    reveal(State::pokerstars_table_info);
    let (name, max_players, dealer) = match read_table_info(p.line) {
        Some(r) => r,
        None => {
            return None;
        },
    };
    let table_name = match p.push_str(name) {
        Some(span) => span,
        None => {
            return None;
        },
    };
    p.advance();
    let mut h = h;
    h.table_name = table_name;
    h.max_players = max_players;
    h.dealer = dealer;
    proof {
        Span::lemma_fields(old(p)@.hands.src.len() as int, name@.len() as int);
        assert(p@.hands.text(table_name) =~= name@);
    }
    Some(h)
}

/// Reads the lines that seat the players.
pub fn parse_header_players(p: &mut Parser, site: PokerSite, h: Header) -> (r: Option<Header>)
    requires
        old(p).wf(),
    ensures
        final(p).wf(),
        final(p).data == old(p).data,
        final(p)@.hands.grows_from(old(p)@.hands),
        final(p)@.same_hand(old(p)@),
        (final(p)@, r) == old(p)@.header_players(site, h),
        final(p)@.remaining() <= old(p)@.remaining(),
        r matches Some(header) ==> header.id == h.id && header.table_name == h.table_name
            && header.currency == h.currency && final(p)@.hands.players_named(
            old(p)@.hands.players.len() as int,
            seat_names_at(old(p)@.cursor(), site, h.currency),
        ),
{
    let mut header = h;
    let ghost first = p@.hands.players.len() as int;
    let ghost mut done: Seq<Seq<u8>> = Seq::empty();
    loop
        invariant
            p.wf(),
            header.id == h.id,
            header.table_name == h.table_name,
            header.currency == h.currency,
            first == old(p)@.hands.players.len(),
            p@.hands.players.len() == first + done.len(),
            p@.hands.players_named(first, done),
            seat_names_at(old(p)@.cursor(), site, h.currency) == done + seat_names_at(
                p@.cursor(),
                site,
                h.currency,
            ),
            p.data == old(p).data,
            p@.hands.grows_from(old(p)@.hands),
            p@.same_hand(old(p)@),
            p@.remaining() <= old(p)@.remaining(),
            old(p)@.header_players(site, h) == p@.header_players(site, header),
        decreases p@.remaining(),
    {
        if p.eof() || !starts_with(p.line, "Seat ".as_bytes()) {
            proof {
                assert(done + Seq::<Seq<u8>>::empty() =~= done);
            }
            return Some(header);
        }
        let (seat, name, chips) = match read_seat_line(p.line, site, header.currency) {
            Some(r) => r,
            None => {
                return None;
            },
        };
        let ghost before = p@;
        let id = match p.add_player(name, seat, chips) {
            Some(id) => id,
            None => {
                return None;
            },
        };
        if seat == header.dealer {
            header.dealer = id;
        }
        p.advance();
        proof {
            let c = before.cursor();
            assert(p@.cursor() == cursor_advance(c));
            assert(seat_names_at(c, site, h.currency) == seq![name@] + seat_names_at(
                cursor_advance(c),
                site,
                h.currency,
            ));
            let grown = done.push(name@);
            assert(grown + seat_names_at(p@.cursor(), site, h.currency) =~= done + seat_names_at(
                c,
                site,
                h.currency,
            ));
            Span::lemma_fields(before.hands.src.len() as int, name@.len() as int);
            p@.hands.lemma_players_named_grows(before.hands, first, done);
            assert(p@.hands.text(p@.hands.players[first + done.len()].name) =~= name@);
            assert(p@.hands.players_named(first, grown));
            done = grown;
        }
    }
}

/// The id of an OnGame hand: what stands between the words that open its
/// first line, `***** History for hand R5-`, and the eleven bytes that
/// close it.
pub open spec fn spec_ongame_hand_id(line: Seq<u8>) -> Option<Seq<u8>> {
    let opening = lit("***** History for hand R5-").len();
    let closing = lit("-1825 *****").len();
    if opening + closing > line.len() {
        None
    } else {
        Some(line.subrange(opening as int, line.len() - closing))
    }
}

/// What a line such as
/// `Table: name [1631690] (NO_LIMIT TEXAS_HOLDEM $3/$6, Real money)` says:
/// the name, between the opening word and the byte before the first `[`;
/// the currency and the big blind, after the last `/`; the small blind, the
/// last amount before that `/`.
pub open spec fn spec_ongame_table(line: Seq<u8>) -> Option<(Seq<u8>, char, Number, Number)> {
    let len = line.len() as int;
    let name_begin = lit("Table: ").len() as int;
    match (find_byte_from(line, 0x5b, name_begin), spec_rfind_byte(line, 0x2f)) {
        (Some(bracket), Some(blind_sep)) => if bracket - 1 < name_begin {
            None
        } else {
            let big = line.subrange(blind_sep + 1, len);
            match spec_parse_currency_char(big) {
                None => None,
                Some((currency, width)) => match (
                    spec_parse_float(big.subrange(width, big.len() as int), true),
                    spec_rfind_currency(line.subrange(0, blind_sep), currency, true),
                ) {
                    (Some((big_blind, _)), Some((small_blind, _))) => Some(
                        (line.subrange(name_begin, bracket - 1), currency, small_blind, big_blind),
                    ),
                    _ => None,
                },
            }
        },
        _ => None,
    }
}

/// The table's name that an OnGame hand gives.
pub open spec fn ongame_table_name_of(line: Seq<u8>) -> Seq<u8> {
    match spec_ongame_table(line) {
        Some((name, _, _, _)) => name,
        None => Seq::empty(),
    }
}

/// The number after the last space of a line such as `Button: seat 5` or
/// `Players in round:  4`. With `button`, a last word that begins with `R`
/// means that no seat has the button.
pub open spec fn spec_ongame_count(line: Seq<u8>, button: bool) -> Option<u8> {
    match spec_rfind_byte(line, 0x20) {
        None => None,
        Some(space) => {
            let word = line.subrange(space + 1, line.len() as int);
            if button && word.len() > 0 && word[0] == 0x52 {
                Some(SEAT_NONE)
            } else {
                match leading_integer(word, true) {
                    Some(v) => Some(v as u8),
                    None => None,
                }
            }
        },
    }
}

/// A table's name, currency and blinds, as plain values.
pub open spec fn opt_ongame_table(r: Option<(&[u8], char, Number, Number)>) -> Option<
    (Seq<u8>, char, Number, Number),
> {
    match r {
        Some((name, currency, small, big)) => Some((name@, currency, small, big)),
        None => None,
    }
}

fn read_ongame_table<'a>(line: &'a [u8]) -> (r: Option<(&'a [u8], char, Number, Number)>)
    ensures
        opt_ongame_table(r) == spec_ongame_table(line@),
{
    let name_begin = "Table: ".as_bytes().len();
    let (bracket, blind_sep) = match (find_byte_at(line, 0x5b, name_begin), rfind_byte(line, 0x2f)) {
        (Some(bracket), Some(blind_sep)) => (bracket, blind_sep),
        _ => {
            return None;
        },
    };
    if bracket < 1 || bracket - 1 < name_begin {
        return None;
    }
    let big = tail(line, blind_sep + 1);
    let (currency, width) = match parse_currency_char(big) {
        Some(r) => r,
        None => {
            return None;
        },
    };
    match (parse_float(tail(big, width), true), rfind_currency(head(line, blind_sep), currency, true)) {
        (Some((big_blind, _)), Some((small_blind, _))) => Some(
            (cut(line, name_begin, bracket - 1), currency, small_blind, big_blind),
        ),
        _ => None,
    }
}

fn read_ongame_count(line: &[u8], button: bool) -> (r: Option<u8>)
    ensures
        r == spec_ongame_count(line@, button),
{
    let space = match rfind_byte(line, 0x20) {
        Some(i) => i,
        None => {
            return None;
        },
    };
    let word = tail(line, space + 1);
    if button && starts_with_byte(word, 0x52) {
        Some(SEAT_NONE)
    } else {
        match parse_integer(word, true) {
            Some((v, _)) => Some(v as u8),
            None => None,
        }
    }
}

impl State {
    /// The first two lines of an OnGame hand, read into `h`: the id goes to
    /// the text buffer; the second line, which holds the time, is passed
    /// over. The cursor moves on whether or not the id could be read.
    #[verifier::opaque]
    pub open spec fn ongame_hand_info(self, h: Header) -> (State, Option<Header>) {
        match spec_ongame_hand_id(self.line) {
            None => (self.advance(), None),
            Some(id) => {
                let (pushed, id) = self.push_str(id);
                match id {
                    None => (pushed.advance(), None),
                    Some(id) => (
                        pushed.advance().advance(),
                        Some(
                            Header {
                                site: PokerSite::OnGame,
                                dealer: SEAT_NONE,
                                hero: SEAT_NONE,
                                id,
                                ..h
                            },
                        ),
                    ),
                }
            },
        }
    }

    /// The three lines of an OnGame hand that tell the table, the button
    /// and the number of players, read into `h`.
    #[verifier::opaque]
    pub open spec fn ongame_table_info(self, h: Header) -> (State, Option<Header>) {
        match spec_ongame_table(self.line) {
            None => (self, None),
            Some((name, currency, small_blind, big_blind)) => {
                let (pushed, table_name) = self.push_str(name);
                match table_name {
                    None => (pushed, None),
                    Some(table_name) => {
                        let second = pushed.advance();
                        match spec_ongame_count(second.line, true) {
                            None => (second, None),
                            Some(dealer) => {
                                let third = second.advance();
                                match spec_ongame_count(third.line, false) {
                                    None => (third, None),
                                    Some(max_players) => (
                                        third.advance(),
                                        Some(
                                            Header {
                                                game_type: GameType::HoldEm,
                                                table_name,
                                                currency,
                                                small_blind,
                                                big_blind,
                                                dealer,
                                                max_players,
                                                ..h
                                            },
                                        ),
                                    ),
                                }
                            },
                        }
                    },
                }
            },
        }
    }

    /// The site whose way of reading a header `site` uses: Pluribus logs
    /// are read as PokerStars hands, names untrimmed.
    pub open spec fn header_site(site: PokerSite) -> PokerSite {
        if site == PokerSite::PokerStarsPluribus {
            PokerSite::PokerStars
        } else {
            site
        }
    }

    /// The lines of a header up to the last player: the lines about the
    /// hand and the table, then the players.
    pub open spec fn header_lines(self, way: PokerSite) -> (State, Option<Header>) {
        let (s1, h1) = if way == PokerSite::PokerStars {
            self.pokerstars_hand_info(Header::spec_default())
        } else if way == PokerSite::OnGame {
            self.ongame_hand_info(Header::spec_default())
        } else {
            (self.advance(), None)
        };
        match h1 {
            None => (s1, None),
            Some(h1) => {
                let (s2, h2) = if way == PokerSite::PokerStars {
                    s1.pokerstars_table_info(h1)
                } else {
                    s1.ongame_table_info(h1)
                };
                match h2 {
                    None => (s2, None),
                    Some(h2) => s2.header_players(way, h2),
                }
            },
        }
    }

    /// The header of a hand: its lines, then the actions before the cards
    /// are dealt. The range of the players is not filled in yet.
    #[verifier::opaque]
    pub open spec fn header(self, site: PokerSite) -> (State, Option<Header>) {
        let way = State::header_site(site);
        let (s3, h3) = self.header_lines(way);
        match h3 {
            None => (s3, None),
            Some(h3) => {
                let (s4, actions) = s3.action_list(way, Stage::Header, h3.currency);
                match actions {
                    None => (s4, None),
                    Some(actions) => (
                        s4,
                        Some(
                            Header {
                                actions,
                                site: if site == PokerSite::PokerStarsPluribus {
                                    site
                                } else {
                                    h3.site
                                },
                                ..h3
                            },
                        ),
                    ),
                }
            },
        }
    }
}

impl State {
    /// Reading the players never moves the cursor back.
    pub proof fn lemma_header_players_moves(self, site: PokerSite, h: Header)
        requires
            self.sound(),
        ensures
            self.header_players(site, h).0.moved_on(self),
        decreases self.remaining(),
    {
        if self.at_end || !spec_starts_with(self.line, lit("Seat ")) {
        } else {
            match spec_seat_line(self.line, site, h.currency) {
                None => {},
                Some((seat, name, chips)) => {
                    let (added, id) = self.add_player(name, seat, chips);
                    match id {
                        None => {},
                        Some(id) => {
                            self.lemma_advance();
                            added.lemma_advance();
                            added.advance().lemma_header_players_moves(
                                site,
                                if seat == h.dealer {
                                    Header { dealer: id, ..h }
                                } else {
                                    h
                                },
                            );
                        },
                    }
                },
            }
        }
    }

    /// Reading the lines of a header moves the cursor on.
    pub proof fn lemma_header_lines_moves(self, way: PokerSite)
        requires
            self.sound(),
        ensures
            self.header_lines(way).0.moved_on(self),
            !self.at_end ==> self.header_lines(way).0.remaining() < self.remaining(),
    {
        reveal(State::pokerstars_hand_info);
        reveal(State::pokerstars_table_info);
        reveal(State::ongame_hand_info);
        reveal(State::ongame_table_info);
        self.lemma_advance();
        let (s1, h1) = if way == PokerSite::PokerStars {
            self.pokerstars_hand_info(Header::spec_default())
        } else if way == PokerSite::OnGame {
            self.ongame_hand_info(Header::spec_default())
        } else {
            (self.advance(), None)
        };
        assert(s1.moved_on(self) && (!self.at_end ==> s1.remaining() < self.remaining())) by {
            match spec_hand_info(self.line) {
                None => {},
                Some(info) => {
                    self.push_str(info.id).0.lemma_advance();
                },
            }
            match spec_ongame_hand_id(self.line) {
                None => {},
                Some(id) => {
                    let pushed = self.push_str(id).0;
                    pushed.lemma_advance();
                    pushed.advance().lemma_advance();
                },
            }
        }
        match h1 {
            None => {},
            Some(h1) => {
                let (s2, h2) = if way == PokerSite::PokerStars {
                    s1.pokerstars_table_info(h1)
                } else {
                    s1.ongame_table_info(h1)
                };
                assert(s2.moved_on(s1)) by {
                    match spec_table_info(s1.line) {
                        None => {},
                        Some((name, _, _)) => {
                            s1.push_str(name).0.lemma_advance();
                        },
                    }
                    match spec_ongame_table(s1.line) {
                        None => {},
                        Some((name, _, _, _)) => {
                            let pushed = s1.push_str(name).0;
                            pushed.lemma_advance();
                            pushed.advance().lemma_advance();
                            pushed.advance().advance().lemma_advance();
                        },
                    }
                }
                match h2 {
                    None => {},
                    Some(h2) => {
                        s2.lemma_header_players_moves(way, h2);
                    },
                }
            },
        }
    }

    /// Reading a header moves the cursor on.
    pub proof fn lemma_header_moves(self, site: PokerSite)
        requires
            self.sound(),
        ensures
            self.header(site).0.moved_on(self),
            !self.at_end ==> self.header(site).0.remaining() < self.remaining(),
    {
        reveal(State::header);
        let way = State::header_site(site);
        self.lemma_header_lines_moves(way);
        let (s3, h3) = self.header_lines(way);
        match h3 {
            None => {},
            Some(h3) => {
                s3.lemma_action_list_moves(way, Stage::Header, h3.currency);
            },
        }
    }
}

/// Reads the first two lines of an OnGame hand into `h`.
pub fn parse_ongame_hand_info(p: &mut Parser, h: Header) -> (r: Option<Header>)
    requires
        old(p).wf(),
    ensures
        final(p).wf(),
        final(p).data == old(p).data,
        final(p)@.hands.grows_from(old(p)@.hands),
        final(p)@.same_hand(old(p)@),
        (final(p)@, r) == old(p)@.ongame_hand_info(h),
        final(p)@.remaining() <= old(p)@.remaining(),
        !old(p)@.at_end ==> final(p)@.remaining() < old(p)@.remaining(),
        r matches Some(header) ==> Some(final(p)@.hands.text(header.id)) == spec_ongame_hand_id(
            old(p)@.line,
        ) && final(p)@.hands.has_text(header.id) && final(p)@.cursor() == cursor_skip(
            old(p)@.cursor(),
            2,
        ),
        final(p)@.hands.players == old(p)@.hands.players,
{
    reveal_with_fuel(cursor_skip, 4);
    reveal(State::ongame_hand_info);
    let line = p.line;
    let opening = "***** History for hand R5-".as_bytes().len();
    let closing = "-1825 *****".as_bytes().len();
    if opening > line.len() || closing > line.len() - opening {
        p.advance();
        return None;
    }
    let text = cut(line, opening, line.len() - closing);
    let id = p.push_str(text);
    p.advance();
    match id {
        None => None,
        Some(id) => {
            p.advance();
            let mut h = h;
            h.site = PokerSite::OnGame;
            h.dealer = SEAT_NONE;
            h.hero = SEAT_NONE;
            h.id = id;
            proof {
                Span::lemma_fields(old(p)@.hands.src.len() as int, text@.len() as int);
                assert(p@.hands.text(id) =~= text@);
            }
            Some(h)
        },
    }
}

/// Reads the table, the button and the number of players of an OnGame hand
/// into `h`.
pub fn parse_ongame_table_info(p: &mut Parser, h: Header) -> (r: Option<Header>)
    requires
        old(p).wf(),
    ensures
        final(p).wf(),
        final(p).data == old(p).data,
        final(p)@.hands.grows_from(old(p)@.hands),
        final(p)@.same_hand(old(p)@),
        (final(p)@, r) == old(p)@.ongame_table_info(h),
        final(p)@.remaining() <= old(p)@.remaining(),
        r matches Some(header) ==> final(p)@.hands.text(header.table_name) == ongame_table_name_of(
            old(p)@.line,
        ) && final(p)@.hands.has_text(header.table_name) && header.id == h.id
            && final(p)@.cursor() == cursor_skip(old(p)@.cursor(), 3),
        final(p)@.hands.players == old(p)@.hands.players,
{
    reveal_with_fuel(cursor_skip, 4);
    reveal(State::ongame_table_info);
    let (name, currency, small_blind, big_blind) = match read_ongame_table(p.line) {
        Some(r) => r,
        None => {
            return None;
        },
    };
    let table_name = match p.push_str(name) {
        Some(span) => span,
        None => {
            return None;
        },
    };
    proof {
        Span::lemma_fields(old(p)@.hands.src.len() as int, name@.len() as int);
        assert(p@.hands.text(table_name) =~= name@);
    }
    p.advance();
    let dealer = match read_ongame_count(p.line, true) {
        Some(v) => v,
        None => {
            return None;
        },
    };
    p.advance();
    let max_players = match read_ongame_count(p.line, false) {
        Some(v) => v,
        None => {
            return None;
        },
    };
    p.advance();
    let mut h = h;
    h.game_type = GameType::HoldEm;
    h.table_name = table_name;
    h.currency = currency;
    h.small_blind = small_blind;
    h.big_blind = big_blind;
    h.dealer = dealer;
    h.max_players = max_players;
    Some(h)
}

/// Reads the lines of a header up to the last player.
fn parse_header_lines(p: &mut Parser, way: PokerSite) -> (r: Option<Header>)
    requires
        old(p).wf(),
        way == PokerSite::PokerStars || way == PokerSite::OnGame,
    ensures
        final(p).wf(),
        final(p).data == old(p).data,
        final(p)@.hands.grows_from(old(p)@.hands),
        final(p)@.same_hand(old(p)@),
        (final(p)@, r) == old(p)@.header_lines(way),
        final(p)@.remaining() <= old(p)@.remaining(),
        !old(p)@.at_end ==> final(p)@.remaining() < old(p)@.remaining(),
        r matches Some(header) ==> final(p)@.hands.says_literals(
            old(p)@.cursor(),
            way,
            header,
            old(p)@.hands.players.len() as int,
        ),
{
    let ghost c0 = p@.cursor();
    let h = Header::default();
    let h = if way == PokerSite::PokerStars {
        parse_header_hand_info(p, h)
    } else if way == PokerSite::OnGame {
        parse_ongame_hand_info(p, h)
    } else {
        p.advance();
        None
    };
    let h = match h {
        Some(h) => h,
        None => {
            return None;
        },
    };
    let ghost a1 = p@.hands;
    let ghost c1 = p@.cursor();
    let ghost h1 = h;
    let h = if way == PokerSite::PokerStars {
        parse_header_table_info(p, h)
    } else {
        parse_ongame_table_info(p, h)
    };
    let h = match h {
        Some(h) => h,
        None => {
            return None;
        },
    };
    let ghost a2 = p@.hands;
    let ghost c2 = p@.cursor();
    let ghost h2 = h;
    let r = parse_header_players(p, way, h);
    proof {
        if let Some(header) = r {
            lemma_header_literals(a1, a2, p@.hands, c0, c1, c2, way, h1, h2, header);
        }
    }
    r
}

/// What the three parts of a header read, put together: the id from the
/// first line, the table's name from the line about the table, the players
/// from the lines that seat them.
proof fn lemma_header_literals(
    a1: Arena,
    a2: Arena,
    a3: Arena,
    c0: Cursor,
    c1: Cursor,
    c2: Cursor,
    way: PokerSite,
    h1: Header,
    h2: Header,
    h3: Header,
)
    requires
        way == PokerSite::PokerStars || way == PokerSite::OnGame,
        a2.grows_from(a1),
        a3.grows_from(a2),
        a2.players == a1.players,
        c1 == cursor_skip(c0, table_line_at(way)),
        c2 == cursor_skip(c1, (seat_lines_at(way) - table_line_at(way)) as nat),
        a1.has_text(h1.id),
        a1.text(h1.id) == literal_id(way, c0.1),
        a2.has_text(h2.table_name),
        a2.text(h2.table_name) == literal_table_name(way, c1.1),
        h2.id == h1.id,
        h3.id == h2.id,
        h3.table_name == h2.table_name,
        a3.players_named(a2.players.len() as int, seat_names_at(c2, way, h3.currency)),
    ensures
        a3.says_literals(c0, way, h3, a1.players.len() as int),
{
    reveal(Arena::says_literals);
    lemma_cursor_skip_add(
        c0,
        table_line_at(way),
        (seat_lines_at(way) - table_line_at(way)) as nat,
    );
    a2.lemma_text_grows(a1, h1.id);
    a3.lemma_text_grows(a2, h2.id);
    a3.lemma_text_grows(a2, h2.table_name);
}

/// Moving on by `n` lines and then by `m` is moving on by `n + m`.
pub proof fn lemma_cursor_skip_add(c: Cursor, n: nat, m: nat)
    ensures
        cursor_skip(cursor_skip(c, n), m) == cursor_skip(c, n + m),
    decreases n,
{
    if n > 0 {
        lemma_cursor_skip_add(cursor_advance(c), (n - 1) as nat, m);
    }
}

/// Reads the header of a hand.
pub fn parse_header(p: &mut Parser, site: PokerSite) -> (r: Option<Header>)
    requires
        old(p).wf(),
    ensures
        final(p).wf(),
        final(p).data == old(p).data,
        final(p)@.hands.grows_from(old(p)@.hands),
        final(p)@.same_hand(old(p)@),
        (final(p)@, r) == old(p)@.header(site),
        final(p)@.remaining() <= old(p)@.remaining(),
        !old(p)@.at_end ==> final(p)@.remaining() < old(p)@.remaining(),
        r matches Some(header) ==> final(p)@.hands.has_text(header.id) && final(p)@.hands.has_text(
            header.table_name,
        ) && final(p)@.hands.actions_ok(final(p)@.src_offset, header.actions),
        r matches Some(header) ==> final(p)@.hands.says_literals(
            old(p)@.cursor(),
            site,
            header,
            old(p)@.hands.players.len() as int,
        ),
{
    reveal(State::header);
    if site != PokerSite::PokerStars && site != PokerSite::PokerStarsPluribus && site
        != PokerSite::OnGame {
        p.advance();
        return None;
    }
    let ghost c0 = p@.cursor();
    let ghost first = p@.hands.players.len() as int;
    let way = if site == PokerSite::PokerStarsPluribus {
        PokerSite::PokerStars
    } else {
        site
    };
    let h = match parse_header_lines(p, way) {
        Some(h) => h,
        None => {
            return None;
        },
    };
    let ghost lines = p@.hands;
    let ghost read = h;
    let actions = match parse_action_list(p, way, Stage::Header, h.currency) {
        Some(actions) => actions,
        None => {
            return None;
        },
    };
    let mut h = h;
    h.actions = actions;
    if site == PokerSite::PokerStarsPluribus {
        h.site = site;
    }
    proof {
        p@.hands.lemma_says_literals_grows(lines, c0, way, read, first);
        lemma_says_literals_site(p@.hands, c0, site, read, h, first);
        assert(p@.hands.has_text(h.id) && p@.hands.has_text(h.table_name)) by {
            reveal(Arena::says_literals);
        }
    }
    Some(h)
}

/// What a header holds of its hand does not rest on its actions or on the
/// tag of its site, and a Pluribus log is held to what PokerStars writes.
pub proof fn lemma_says_literals_site(
    a: Arena,
    c: Cursor,
    site: PokerSite,
    read: Header,
    h: Header,
    first: int,
)
    requires
        a.says_literals(c, State::header_site(site), read, first) || a.says_literals(
            c,
            site,
            read,
            first,
        ),
        h.id == read.id,
        h.table_name == read.table_name,
        h.currency == read.currency,
    ensures
        a.says_literals(c, site, h, first),
{
    reveal(Arena::says_literals);
}

} // verus!
