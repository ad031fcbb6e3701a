//! The PokerStars format, and the part of it that logs of Pluribus matches
//! use.
//!
//! Within a stage the ways a line can read are tried in a fixed order and
//! the first that fits decides; the order is part of the format.

use vstd::prelude::*;
use crate::parsers::currency::{
    find_currency, opt_found, rfind_currency, spec_find_currency, spec_rfind_currency,
};
use crate::parsers::fields::{find_cards, parse_cards, spec_find_cards, spec_parse_cards};
use crate::parsers::number::{parse_integer, spec_parse_integer};
use crate::parsers::parser::{Parser, State};
use crate::parsers::text::{
    cut, ends_with, ends_with_byte, find, find_byte, find_byte_at, find_byte_from, head, lit, rfind, rfind_byte, spec_ends_with,
    spec_find, spec_find_byte, spec_rfind, spec_rfind_byte, spec_starts_with, starts_with, tail,
    StrOps,
};
use crate::pklp::action::{
    Action, ActionData, ActionType, MAX_MESSAGE_OFFSET, MAX_MESSAGE_SIZE, SEAT_AFTER_DEALER,
    SEAT_INITIAL,
};
use crate::pklp::cards::{Card, Cards};
use crate::pklp::datetime::{date_fits, DateTime};
use crate::pklp::hand::{Arena, BetType, GameType, PokerSite};
use crate::pklp::number::Number;
use crate::pklp::span::{Span, SpanLike};

verus! {

/// The parser of PokerStars hands.
pub struct PokerStars {}

/// The parser of logs of Pluribus matches.
pub struct PokerStarsPluribus {}

/// Whether the site writes thousands separators in its numbers.
pub open spec fn uses_comma(site: PokerSite) -> bool {
    site == PokerSite::OnGame
}

/// A player's name as the site's hands know it: Pluribus logs drop a
/// leading `Mr`.
pub open spec fn spec_trim_player_name(site: PokerSite, name: Seq<u8>) -> Seq<u8> {
    if site == PokerSite::PokerStarsPluribus && spec_starts_with(name, lit("Mr")) {
        name.subrange(lit("Mr").len() as int, name.len() as int)
    } else {
        name
    }
}

/// Whether the site writes thousands separators in its numbers.
pub fn comma(site: PokerSite) -> (c: bool)
    ensures
        c == uses_comma(site),
{
    site == PokerSite::OnGame
}

/// A player's name as the site's hands know it.
pub fn trim_player_name<'a>(site: PokerSite, name: &'a [u8]) -> (r: &'a [u8])
    ensures
        r@ == spec_trim_player_name(site, name@),
{
    let mr = "Mr".as_bytes();
    if site == PokerSite::PokerStarsPluribus && starts_with(name, mr) {
        tail(name, mr.len())
    } else {
        name
    }
}

impl State {
    /// A line that says what a player did in its last words alone. The line
    /// must end with `ending`; the name is what stands before the last
    /// `suffix.len()` bytes, which are not looked at any further.
    #[verifier::opaque]
    pub open spec fn suffix_action(
        self,
        site: PokerSite,
        kind: ActionType,
        ending: Seq<u8>,
        suffix: Seq<u8>,
        data: ActionData,
    ) -> (State, Option<Action>) {
        if spec_ends_with(self.line, ending) && suffix.len() <= self.line.len() {
            let name = spec_trim_player_name(
                site,
                self.line.subrange(0, self.line.len() - suffix.len()),
            );
            let (after, id) = self.player_id(name);
            match id {
                Some(id) => (after, Some(Action { kind, player_id: id, data })),
                None => (after, None),
            }
        } else {
            (self, None)
        }
    }
}

/// Reads a line that says what a player did in its last words alone.
pub fn suffix_action(
    p: &mut Parser,
    site: PokerSite,
    kind: ActionType,
    ending: &[u8],
    suffix: &[u8],
    data: ActionData,
) -> (a: Option<Action>)
    requires
        old(p).wf(),
    ensures
        final(p).wf(),
        final(p).data == old(p).data,
        final(p)@.hands.keeps_rows(old(p)@.hands),
        final(p)@.hands.grows_from(old(p)@.hands),
        final(p)@.same_hand(old(p)@),
        final(p)@.cursor() == old(p)@.cursor(),
        (final(p)@, a) == old(p)@.suffix_action(site, kind, ending@, suffix@, data),
        a is None ==> final(p)@ == old(p)@,
        a matches Some(act) ==> act.kind == kind && act.data == data,
{
    reveal(State::suffix_action);
    let line = p.line;
    if ends_with(line, ending) && suffix.len() <= line.len() {
        let name = trim_player_name(site, head(line, line.len() - suffix.len()));
        match p.player_id(name) {
            Some(id) => Some(Action::new(kind, id, data)),
            None => None,
        }
    } else {
        None
    }
}

impl State {
    /// A line about a player who comes, goes, sits out or runs out of time. The endings are tried in this order.
    #[verifier::opaque]
    pub open spec fn join_leave_timeout(self, site: PokerSite) -> (State, Option<Action>) {
        let r = self.suffix_action(
            site,
            ActionType::Sitout,
            lit("s out"),
            lit(": sits out"),
            ActionData::spec_invalid(),
        );
        if r.1 is Some {
            r
        } else {
            let r = self.suffix_action(
                site,
                ActionType::Sitout,
                lit("g out"),
                lit(": is sitting out"),
                ActionData::spec_invalid(),
            );
            if r.1 is Some {
                r
            } else {
                let r = self.suffix_action(
                    site,
                    ActionType::Leave,
                    lit("med out"),
                    lit(" has timed out"),
                    ActionData::spec_invalid(),
                );
                if r.1 is Some {
                    r
                } else {
                    let r = self.suffix_action(
                        site,
                        ActionType::Join,
                        lit("s connected"),
                        lit(" is connected"),
                        ActionData(SEAT_INITIAL as u32),
                    );
                    if r.1 is Some {
                        r
                    } else {
                        let r = self.suffix_action(
                            site,
                            ActionType::Leave,
                            lit("s disconnected"),
                            lit(" is disconnected"),
                            ActionData::spec_invalid(),
                        );
                        if r.1 is Some {
                            r
                        } else {
                            let r = self.suffix_action(
                                site,
                                ActionType::Leave,
                                lit("e disconnected"),
                                lit(" has timed out while disconnected"),
                                ActionData::spec_invalid(),
                            );
                            if r.1 is Some {
                                r
                            } else {
                                let r = self.suffix_action(
                                    site,
                                    ActionType::Leave,
                                    lit("g disconnected"),
                                    lit(" has timed out while being disconnected"),
                                    ActionData::spec_invalid(),
                                );
                                if r.1 is Some {
                                    r
                                } else {
                                    let r = self.suffix_action(
                                        site,
                                        ActionType::Leave,
                                        lit("e table"),
                                        lit(" leaves the table"),
                                        ActionData::spec_invalid(),
                                    );
                                    if r.1 is Some {
                                        r
                                    } else {
                                        let r = self.suffix_action(
                                            site,
                                            ActionType::Leave,
                                            lit("g to post"),
                                            lit(" was removed from the table for failing to post"),
                                            ActionData::spec_invalid(),
                                        );
                                        if r.1 is Some {
                                            r
                                        } else {
                                            let r = self.suffix_action(
                                                site,
                                                ActionType::Join,
                                                lit("e button"),
                                                lit(" will be allowed to play after the button"),
                                                ActionData(SEAT_AFTER_DEALER as u32),
                                            );
                                            if r.1 is Some {
                                                r
                                            } else {
                                                self.suffix_action(
                                                    site,
                                                    ActionType::Join,
                                                    lit("s returned"),
                                                    lit(" has returned"),
                                                    ActionData(SEAT_INITIAL as u32),
                                                )
                                            }
                                        }
                                    }
                                }
                            }
                        }
                    }
                }
            }
        }
    }

    /// A line about a player who folds, checks or keeps the hand hidden.
    #[verifier::opaque]
    pub open spec fn fold_check_not_show(self, site: PokerSite) -> (State, Option<Action>) {
        let r = self.suffix_action(
            site,
            ActionType::Fold,
            lit(": folds"),
            lit(": folds"),
            ActionData::spec_invalid(),
        );
        if r.1 is Some {
            r
        } else {
            let r = self.suffix_action(
                site,
                ActionType::Check,
                lit(": checks"),
                lit(": checks"),
                ActionData::spec_invalid(),
            );
            if r.1 is Some {
                r
            } else {
                let r = self.suffix_action(
                    site,
                    ActionType::Fold,
                    lit("s hand"),
                    lit(": mucks hand"),
                    ActionData::spec_invalid(),
                );
                if r.1 is Some {
                    r
                } else {
                    self.suffix_action(
                        site,
                        ActionType::Muck,
                        lit("w hand"),
                        lit(": doesn't show hand"),
                        ActionData::spec_invalid(),
                    )
                }
            }
        }
    }

}

/// Reads a line about a player who comes, goes, sits out or runs out of time.
pub fn join_leave_timeout(p: &mut Parser, site: PokerSite) -> (a: Option<Action>)
    requires
        old(p).wf(),
    ensures
        final(p).wf(),
        final(p).data == old(p).data,
        final(p)@.hands.keeps_rows(old(p)@.hands),
        a matches Some(act) ==> final(p)@.hands.action_ok(final(p)@.src_offset, act),
        final(p)@.hands.grows_from(old(p)@.hands),
        final(p)@.same_hand(old(p)@),
        final(p)@.cursor() == old(p)@.cursor(),
        (final(p)@, a) == old(p)@.join_leave_timeout(site),
        a is None ==> final(p)@ == old(p)@,
{
    reveal(State::join_leave_timeout);
    if let Some(a) = suffix_action(
        p,
        site,
        ActionType::Sitout,
        "s out".as_bytes(),
        ": sits out".as_bytes(),
        ActionData::invalid(),
    ) {
        return Some(a);
    }
    if let Some(a) = suffix_action(
        p,
        site,
        ActionType::Sitout,
        "g out".as_bytes(),
        ": is sitting out".as_bytes(),
        ActionData::invalid(),
    ) {
        return Some(a);
    }
    if let Some(a) = suffix_action(
        p,
        site,
        ActionType::Leave,
        "med out".as_bytes(),
        " has timed out".as_bytes(),
        ActionData::invalid(),
    ) {
        return Some(a);
    }
    if let Some(a) = suffix_action(
        p,
        site,
        ActionType::Join,
        "s connected".as_bytes(),
        " is connected".as_bytes(),
        ActionData::new_handle(SEAT_INITIAL as u32),
    ) {
        return Some(a);
    }
    if let Some(a) = suffix_action(
        p,
        site,
        ActionType::Leave,
        "s disconnected".as_bytes(),
        " is disconnected".as_bytes(),
        ActionData::invalid(),
    ) {
        return Some(a);
    }
    if let Some(a) = suffix_action(
        p,
        site,
        ActionType::Leave,
        "e disconnected".as_bytes(),
        " has timed out while disconnected".as_bytes(),
        ActionData::invalid(),
    ) {
        return Some(a);
    }
    if let Some(a) = suffix_action(
        p,
        site,
        ActionType::Leave,
        "g disconnected".as_bytes(),
        " has timed out while being disconnected".as_bytes(),
        ActionData::invalid(),
    ) {
        return Some(a);
    }
    if let Some(a) = suffix_action(
        p,
        site,
        ActionType::Leave,
        "e table".as_bytes(),
        " leaves the table".as_bytes(),
        ActionData::invalid(),
    ) {
        return Some(a);
    }
    if let Some(a) = suffix_action(
        p,
        site,
        ActionType::Leave,
        "g to post".as_bytes(),
        " was removed from the table for failing to post".as_bytes(),
        ActionData::invalid(),
    ) {
        return Some(a);
    }
    if let Some(a) = suffix_action(
        p,
        site,
        ActionType::Join,
        "e button".as_bytes(),
        " will be allowed to play after the button".as_bytes(),
        ActionData::new_handle(SEAT_AFTER_DEALER as u32),
    ) {
        return Some(a);
    }
    suffix_action(
        p,
        site,
        ActionType::Join,
        "s returned".as_bytes(),
        " has returned".as_bytes(),
        ActionData::new_handle(SEAT_INITIAL as u32),
    )
}

/// Reads a line about a player who folds, checks or keeps the hand hidden.
pub fn fold_check_not_show(p: &mut Parser, site: PokerSite) -> (a: Option<Action>)
    requires
        old(p).wf(),
    ensures
        final(p).wf(),
        final(p).data == old(p).data,
        final(p)@.hands.keeps_rows(old(p)@.hands),
        a matches Some(act) ==> final(p)@.hands.action_ok(final(p)@.src_offset, act),
        final(p)@.hands.grows_from(old(p)@.hands),
        final(p)@.same_hand(old(p)@),
        final(p)@.cursor() == old(p)@.cursor(),
        (final(p)@, a) == old(p)@.fold_check_not_show(site),
        a is None ==> final(p)@ == old(p)@,
{
    reveal(State::fold_check_not_show);
    if let Some(a) = suffix_action(
        p,
        site,
        ActionType::Fold,
        ": folds".as_bytes(),
        ": folds".as_bytes(),
        ActionData::invalid(),
    ) {
        return Some(a);
    }
    if let Some(a) = suffix_action(
        p,
        site,
        ActionType::Check,
        ": checks".as_bytes(),
        ": checks".as_bytes(),
        ActionData::invalid(),
    ) {
        return Some(a);
    }
    if let Some(a) = suffix_action(
        p,
        site,
        ActionType::Fold,
        "s hand".as_bytes(),
        ": mucks hand".as_bytes(),
        ActionData::invalid(),
    ) {
        return Some(a);
    }
    suffix_action(
        p,
        site,
        ActionType::Muck,
        "w hand".as_bytes(),
        ": doesn't show hand".as_bytes(),
        ActionData::invalid(),
    )
}

impl State {
    /// `name: folds [cards]` or `name: shows [cards]`. The line must end
    /// with `]`; the cards stand between the last `[` and that `]`; the
    /// letter seven bytes before the cards tells a show (`s`) from a fold.
    #[verifier::opaque]
    pub open spec fn fold_show(self, site: PokerSite) -> (State, Option<Action>) {
        let line = self.line;
        if !(line.len() > 0 && line.last() == 0x5d) {
            (self, None)
        } else {
            match spec_rfind_byte(line, 0x5b) {
                None => (self, None),
                Some(open) => {
                    let cards_begin = open + 1;
                    if cards_begin > line.len() - 1 || cards_begin < lit(": folds [").len()
                        || cards_begin < lit("folds [").len() {
                        (self, None)
                    } else {
                        match spec_parse_cards(line.subrange(cards_begin, line.len() - 1)) {
                            None => (self, None),
                            Some(cards) => {
                                let cmd = line[cards_begin - lit("folds [").len()];
                                let name = line.subrange(
                                    0,
                                    cards_begin - lit(": folds [").len(),
                                );
                                let kind = if cmd == 0x73 {
                                    ActionType::Show
                                } else {
                                    ActionType::Fold
                                };
                                self.action_cards_seq(
                                    kind,
                                    spec_trim_player_name(site, name),
                                    cards,
                                )
                            },
                        }
                    }
                },
            }
        }
    }

    /// An action that carries the cards `cards`, which are the well-formed
    /// list with that view.
    pub open spec fn action_cards_seq(self, kind: ActionType, name: Seq<u8>, cards: Seq<Card>) -> (
        State,
        Option<Action>,
    ) {
        self.action_cards(kind, name, cards_of(cards))
    }
}

/// The well-formed list that holds `cards`.
pub open spec fn cards_of(cards: Seq<Card>) -> Cards {
    choose|c: Cards| c.wf() && c@ == cards
}

/// A well-formed list is the list of its own cards.
pub proof fn lemma_cards_of(c: Cards)
    requires
        c.wf(),
    ensures
        cards_of(c@) == c,
{
    let d = cards_of(c@);
    assert(d.wf() && d@ == c@);
    Cards::lemma_view_injective(c, d);
}

/// Reads `name: folds [cards]` or `name: shows [cards]`.
pub fn parse_action_fold_show(p: &mut Parser, site: PokerSite) -> (a: Option<Action>)
    requires
        old(p).wf(),
    ensures
        final(p).wf(),
        final(p).data == old(p).data,
        final(p)@.hands.keeps_rows(old(p)@.hands),
        a matches Some(act) ==> final(p)@.hands.action_ok(final(p)@.src_offset, act),
        final(p)@.hands.grows_from(old(p)@.hands),
        final(p)@.same_hand(old(p)@),
        final(p)@.cursor() == old(p)@.cursor(),
        (final(p)@, a) == old(p)@.fold_show(site),
        a is None ==> final(p)@ == old(p)@,
{
    reveal(State::fold_show);
    let line = p.line;
    if !ends_with_byte(line, 0x5d) {
        return None;
    }
    let cards_begin = match rfind_byte(line, 0x5b) {
        Some(open) => open + 1,
        None => {
            return None;
        },
    };
    let n9 = ": folds [".as_bytes().len();
    let n7 = "folds [".as_bytes().len();
    if cards_begin > line.len() - 1 || cards_begin < n9 || cards_begin < n7 {
        return None;
    }
    let cards = match parse_cards(cut(line, cards_begin, line.len() - 1)) {
        Some(cards) => cards,
        None => {
            return None;
        },
    };
    proof {
        lemma_cards_of(cards);
    }
    let cmd = line[cards_begin - n7];
    let name = head(line, cards_begin - n9);
    let kind = if cmd == 0x73 {
        ActionType::Show
    } else {
        ActionType::Fold
    };
    p.action_cards(kind, trim_player_name(site, name), cards)
}

/// The line without the number of a side pot: with `side`, a line that
/// ends with `pot-1` or `pot-2` loses its last two bytes and names the side
/// pot; without, a line that ends with `pot` stays as it is.
pub open spec fn spec_pot_line(whole: Seq<u8>, side: bool) -> Option<(Seq<u8>, ActionType)> {
    if side {
        let pot1 = spec_ends_with(whole, lit("pot-1"));
        let pot2 = spec_ends_with(whole, lit("pot-2"));
        if (!pot1 && !pot2) || whole.len() < 2 {
            None
        } else {
            Some(
                (
                    whole.subrange(0, whole.len() - 2),
                    if pot1 {
                        ActionType::CollectSidePot1
                    } else {
                        ActionType::CollectSidePot2
                    },
                ),
            )
        }
    } else if spec_ends_with(whole, lit("pot")) {
        Some((whole, ActionType::CollectSidePot1))
    } else {
        None
    }
}

/// The pot that the words at the end of the line name, and how long the
/// words are: the letter five bytes before the end tells ` from pot`,
/// ` from main pot` and ` from side pot` apart.
pub open spec fn spec_pot_words(line: Seq<u8>, side_kind: ActionType) -> Option<(ActionType, int)> {
    if line.len() < lit("x pot").len() {
        None
    } else {
        let c = line[line.len() - lit("x pot").len()];
        if c == 0x6d {
            Some((ActionType::CollectMainPot, lit(" from pot").len() as int))
        } else if c == 0x6e {
            Some((ActionType::CollectMainPot, lit(" from main pot").len() as int))
        } else if c == 0x65 {
            Some((side_kind, lit(" from side pot").len() as int))
        } else {
            None
        }
    }
}

/// What a line such as `name collected $14.81 from side pot-1` says: the
/// pot, the name as the site's hands know it, and the amount, which is the
/// last in the line before the words that name the pot. The name stands
/// before ` collected `.
pub open spec fn spec_collected(line: Seq<u8>, site: PokerSite, currency: char, side: bool) -> Option<
    (ActionType, Seq<u8>, Number),
> {
    match spec_pot_line(line, side) {
        None => None,
        Some((line, side_kind)) => match spec_pot_words(line, side_kind) {
            None => None,
            Some((kind, n)) => if line.len() < n {
                None
            } else {
                match spec_rfind_currency(
                    line.subrange(0, line.len() - n),
                    currency,
                    uses_comma(site),
                ) {
                    None => None,
                    Some((amount, (currency_begin, _))) => if currency_begin < lit(
                        " collected ",
                    ).len() {
                        None
                    } else {
                        Some(
                            (
                                kind,
                                spec_trim_player_name(
                                    site,
                                    line.subrange(0, currency_begin - lit(" collected ").len()),
                                ),
                                amount,
                            ),
                        )
                    },
                }
            },
        },
    }
}

fn read_pot_line(whole: &[u8], side: bool) -> (r: Option<(&[u8], ActionType)>)
    ensures
        match r {
            Some((line, kind)) => spec_pot_line(whole@, side) == Some((line@, kind)),
            None => spec_pot_line(whole@, side) is None,
        },
{
    if side {
        let pot1 = ends_with(whole, "pot-1".as_bytes());
        let pot2 = ends_with(whole, "pot-2".as_bytes());
        if (!pot1 && !pot2) || whole.len() < 2 {
            None
        } else {
            Some(
                (
                    head(whole, whole.len() - 2),
                    if pot1 {
                        ActionType::CollectSidePot1
                    } else {
                        ActionType::CollectSidePot2
                    },
                ),
            )
        }
    } else if ends_with(whole, "pot".as_bytes()) {
        Some((whole, ActionType::CollectSidePot1))
    } else {
        None
    }
}

fn read_pot_words(line: &[u8], side_kind: ActionType) -> (r: Option<(ActionType, usize)>)
    ensures
        match r {
            Some((kind, n)) => spec_pot_words(line@, side_kind) == Some((kind, n as int)),
            None => spec_pot_words(line@, side_kind) is None,
        },
{
    let n5 = "x pot".as_bytes().len();
    proof {
        reveal_strlit("x pot");
        assert(vstd::string::is_ascii("x pot"));
        vstd::string::is_ascii_spec_bytes("x pot");
    }
    if line.len() < n5 {
        return None;
    }
    let c = line[line.len() - n5];
    if c == 0x6d {
        Some((ActionType::CollectMainPot, " from pot".as_bytes().len()))
    } else if c == 0x6e {
        Some((ActionType::CollectMainPot, " from main pot".as_bytes().len()))
    } else if c == 0x65 {
        Some((side_kind, " from side pot".as_bytes().len()))
    } else {
        None
    }
}

fn read_collected<'a>(line: &'a [u8], site: PokerSite, currency: char, side: bool) -> (r: Option<
    (ActionType, &'a [u8], Number),
>)
    ensures
        match r {
            Some((kind, name, amount)) => spec_collected(line@, site, currency, side) == Some(
                (kind, name@, amount),
            ) && kind.spec_can_have_pot(),
            None => spec_collected(line@, site, currency, side) is None,
        },
{
    let (line, side_kind) = match read_pot_line(line, side) {
        Some(r) => r,
        None => {
            return None;
        },
    };
    let (kind, n) = match read_pot_words(line, side_kind) {
        Some(r) => r,
        None => {
            return None;
        },
    };
    if line.len() < n {
        return None;
    }
    let (amount, currency_begin) = match rfind_currency(
        head(line, line.len() - n),
        currency,
        comma(site),
    ) {
        Some((amount, (currency_begin, _))) => (amount, currency_begin),
        None => {
            return None;
        },
    };
    let n11 = " collected ".as_bytes().len();
    if currency_begin < n11 {
        return None;
    }
    let name = head(line, currency_begin - n11);
    Some((kind, trim_player_name(site, name), amount))
}

/// The smaller of two lengths.
pub open spec fn spec_min(a: int, b: int) -> int {
    if a <= b {
        a
    } else {
        b
    }
}

impl State {
    /// `name said, "message"`. The line must end with `"`; the message
    /// stands between the first `"` and that last one, and the name before
    /// the eight bytes that end with the first `"`. The speaker becomes a
    /// player where not one yet. At most 255 bytes of the message are kept:
    /// they go to the text buffer, and the action holds where they stand
    /// relative to the hand's own text.
    #[verifier::opaque]
    pub open spec fn say(self) -> (State, Option<Action>) {
        let line = self.line;
        if !(line.len() > 0 && line.last() == 0x22) {
            (self, None)
        } else {
            match spec_find_byte(line, 0x22) {
                None => (self, None),
                Some(quote) => {
                    let msg_begin = quote + 1;
                    if msg_begin < lit(" said, '").len() || msg_begin > line.len() - 1 {
                        (self, None)
                    } else {
                        let name = line.subrange(0, msg_begin - lit(" said, '").len());
                        let (named, id) = self.player_id(name);
                        match id {
                            None => (named, None),
                            Some(id) => {
                                let m = line.subrange(msg_begin, line.len() - 1);
                                let kept = m.subrange(0, spec_min(255, m.len() as int));
                                let (pushed, span) = named.push_str(kept);
                                match span {
                                    None => (pushed, None),
                                    Some(span) => {
                                        let offset = span.spec_begin() - self.src_offset;
                                        if offset > MAX_MESSAGE_OFFSET {
                                            (pushed, None)
                                        } else {
                                            (
                                                pushed,
                                                Some(
                                                    Action {
                                                        kind: ActionType::Say,
                                                        player_id: id,
                                                        data: ActionData::spec_new_message(
                                                            offset,
                                                            kept.len() as int,
                                                        ),
                                                    },
                                                ),
                                            )
                                        }
                                    },
                                }
                            },
                        }
                    }
                },
            }
        }
    }

    /// `name joins the table at seat #n`. The name stands before the first
    /// ` joins `, the seat after the last `#`. The player, new where not one
    /// yet, gets the seat.
    #[verifier::opaque]
    pub open spec fn join(self, site: PokerSite) -> (State, Option<Action>) {
        let line = self.line;
        match spec_find(line, lit(" joins ")) {
            None => (self, None),
            Some(name_end) => match spec_rfind_byte(line, 0x23) {
                None => (self, None),
                Some(hash) => match spec_parse_integer(
                    line.subrange(hash + 1, line.len() as int),
                    uses_comma(site),
                ) {
                    None => (self, None),
                    Some((seat, _)) => {
                        let (named, id) = self.player_id(line.subrange(0, name_end));
                        match id {
                            None => (named, None),
                            Some(id) => (
                                named.set_seat(id, seat as u8),
                                Some(
                                    Action {
                                        kind: ActionType::Join,
                                        player_id: id,
                                        data: ActionData(seat as u32),
                                    },
                                ),
                            ),
                        }
                    },
                },
            },
        }
    }

    /// A line about a player who collects from a pot.
    #[verifier::opaque]
    pub open spec fn collected_pot(self, site: PokerSite, currency: char, side: bool) -> (
        State,
        Option<Action>,
    ) {
        match spec_collected(self.line, site, currency, side) {
            None => (self, None),
            Some((kind, name, amount)) => (self, self.action_num(kind, name, amount)),
        }
    }

    /// `Uncalled bet ($n) returned to name`. The amount is the first after
    /// the opening words, the name what follows the last `ed to `.
    #[verifier::opaque]
    pub open spec fn uncalled_bet_returned(self, site: PokerSite, currency: char) -> (
        State,
        Option<Action>,
    ) {
        let line = self.line;
        if !spec_starts_with(line, lit("Uncalled ")) || lit("Uncalled bet (").len() > line.len() {
            (self, None)
        } else {
            match spec_find_currency(
                line.subrange(lit("Uncalled bet (").len() as int, line.len() as int),
                currency,
                uses_comma(site),
            ) {
                None => (self, None),
                Some((amount, _)) => match spec_rfind(line, lit("ed to ")) {
                    None => (self, None),
                    Some(at) => (
                        self,
                        self.action_num(
                            ActionType::UncalledBetReturned,
                            spec_trim_player_name(
                                site,
                                line.subrange(at + lit("ed to ").len(), line.len() as int),
                            ),
                            amount,
                        ),
                    ),
                },
            }
        }
    }

    /// `name: shows [cards] (what they make)`. The name stands before the
    /// first `: shows`, the cards in the first brackets after it.
    #[verifier::opaque]
    pub open spec fn show_with_card_description(self) -> (State, Option<Action>) {
        let line = self.line;
        match spec_find(line, lit(": shows")) {
            None => (self, None),
            Some(name_end) => {
                let rest_begin = name_end + lit(": shows").len();
                if rest_begin + 1 > line.len() {
                    (self, None)
                } else {
                    match spec_find_cards(line.subrange(rest_begin + 1, line.len() as int)) {
                        None => (self, None),
                        Some((cards, _)) => self.action_cards_seq(
                            ActionType::Show,
                            line.subrange(0, name_end),
                            cards,
                        ),
                    }
                }
            },
        }
    }

    /// The amount that follows the last `words` of the line, for a player
    /// named before them; all in where the line ends with ` in`.
    #[verifier::opaque]
    pub open spec fn wager(
        self,
        site: PokerSite,
        currency: char,
        words: Seq<u8>,
        kind: ActionType,
        all_in: ActionType,
    ) -> Option<(State, Option<Action>)> {
        let line = self.line;
        match spec_rfind(line, words) {
            None => None,
            Some(name_end) => {
                let rest_begin = name_end + words.len();
                if rest_begin + 1 > line.len() {
                    Some((self, None))
                } else {
                    match spec_find_currency(
                        line.subrange(rest_begin + 1, line.len() as int),
                        currency,
                        uses_comma(site),
                    ) {
                        None => Some((self, None)),
                        Some((bet, _)) => Some(
                            (
                                self,
                                self.action_num(
                                    if spec_ends_with(line, lit(" in")) {
                                        all_in
                                    } else {
                                        kind
                                    },
                                    spec_trim_player_name(site, line.subrange(0, name_end)),
                                    bet,
                                ),
                            ),
                        ),
                    }
                }
            },
        }
    }

    /// `name: bets $n`, `name: calls $n`, `name: raises $n to $m`, each
    /// perhaps followed by `and is all-in`. The first of the three words
    /// that the line holds decides, and of a raise the first amount is kept.
    #[verifier::opaque]
    pub open spec fn bet_call_raise(self, site: PokerSite, currency: char) -> (
        State,
        Option<Action>,
    ) {
        match self.wager(site, currency, lit(": bets"), ActionType::Bet, ActionType::BetAllIn) {
            Some(r) => r,
            None => match self.wager(
                site,
                currency,
                lit(": calls"),
                ActionType::Call,
                ActionType::CallAllIn,
            ) {
                Some(r) => r,
                None => match self.wager(
                    site,
                    currency,
                    lit(": raises"),
                    ActionType::Raise,
                    ActionType::RaiseAllIn,
                ) {
                    Some(r) => r,
                    None => (self, None),
                },
            },
        }
    }

    /// `name cashed out the hand for $n | Cash Out Fee $m`. The fee is
    /// nothing where the line names none.
    #[verifier::opaque]
    pub open spec fn cashout(self, site: PokerSite, currency: char) -> (State, Option<Action>) {
        let line = self.line;
        match spec_find(line, lit(" cashed o")) {
            None => (self, None),
            Some(name_end) => {
                let amount_begin = name_end + lit(" cashed o").len() + lit(
                    "ut the hand for ",
                ).len();
                if amount_begin > line.len() {
                    (self, None)
                } else {
                    match spec_find_currency(
                        line.subrange(amount_begin, line.len() as int),
                        currency,
                        uses_comma(site),
                    ) {
                        None => (self, None),
                        Some((amount, (_, currency_end))) => {
                            let rest = line.subrange(
                                amount_begin + currency_end,
                                line.len() as int,
                            );
                            match spec_rfind(rest, lit(" Fee ")) {
                                None => self.action_num_pair(
                                    ActionType::CashOut,
                                    line.subrange(0, name_end),
                                    amount,
                                    Number(0),
                                ),
                                Some(i) => match spec_find_currency(
                                    rest.subrange(
                                        i + lit(" Fee ").len(),
                                        rest.len() as int,
                                    ),
                                    currency,
                                    uses_comma(site),
                                ) {
                                    None => (self, None),
                                    Some((fee, _)) => self.action_num_pair(
                                        ActionType::CashOut,
                                        line.subrange(0, name_end),
                                        amount,
                                        fee,
                                    ),
                                },
                            }
                        },
                    }
                }
            },
        }
    }

    /// `name: posts small blind $n`, `... big blind $n`, `... small & big
    /// blinds $n`, `... the ante $n`. The amount is the last in the line;
    /// the words between `: posts ` and it name the blind by their last or
    /// their first letter.
    #[verifier::opaque]
    pub open spec fn blind(self, site: PokerSite, currency: char) -> (State, Option<Action>) {
        let line = self.line;
        match spec_find(line, lit(": posts")) {
            None => (self, None),
            Some(name_end) => {
                let rest_begin = name_end + lit(": posts").len();
                match spec_rfind_currency(line, currency, uses_comma(site)) {
                    None => (self, None),
                    Some((amount, (amount_begin, _))) => if amount_begin < 1 || rest_begin + 1
                        > amount_begin - 1 {
                        (self, None)
                    } else {
                        let blind = line.subrange(rest_begin + 1, amount_begin - 1);
                        let kind = if blind.len() > 0 && blind.last() == 0x73 {
                            Some(ActionType::BigSmallBlind)
                        } else if blind.len() == 0 {
                            None
                        } else if blind[0] == 0x73 {
                            Some(ActionType::SmallBlind)
                        } else if blind[0] == 0x62 {
                            Some(ActionType::BigBlind)
                        } else if blind[0] == 0x74 {
                            Some(ActionType::Ante)
                        } else {
                            None
                        };
                        match kind {
                            None => (self, None),
                            Some(kind) => (
                                self,
                                self.action_num(
                                    kind,
                                    spec_trim_player_name(site, line.subrange(0, name_end)),
                                    amount,
                                ),
                            ),
                        }
                    },
                }
            },
        }
    }

    /// `Dealt to name [cards]`. The cards stand between the last `[` and
    /// the line's last byte, the name between the opening words and the byte
    /// before that `[`.
    #[verifier::opaque]
    pub open spec fn dealt_to(self, site: PokerSite) -> (State, Option<Action>) {
        let line = self.line;
        match spec_rfind_byte(line, 0x5b) {
            None => (self, None),
            Some(cards_begin) => if cards_begin + 1 > line.len() - 1 || cards_begin < 1 || lit(
                "Dealt to ",
            ).len() > cards_begin - 1 {
                (self, None)
            } else {
                match spec_parse_cards(line.subrange(cards_begin + 1, line.len() - 1)) {
                    None => (self, None),
                    Some(cards) => self.action_cards_seq(
                        ActionType::Dealt,
                        spec_trim_player_name(
                            site,
                            line.subrange(lit("Dealt to ").len() as int, cards_begin - 1),
                        ),
                        cards,
                    ),
                }
            },
        }
    }
}

/// Reads `name said, "message"`.
pub fn parse_action_say(p: &mut Parser) -> (a: Option<Action>)
    requires
        old(p).wf(),
    ensures
        final(p).wf(),
        final(p).data == old(p).data,
        final(p)@.hands.keeps_rows(old(p)@.hands),
        a matches Some(act) ==> final(p)@.hands.action_ok(final(p)@.src_offset, act),
        final(p)@.hands.grows_from(old(p)@.hands),
        final(p)@.same_hand(old(p)@),
        final(p)@.cursor() == old(p)@.cursor(),
        (final(p)@, a) == old(p)@.say(),
{
    reveal(State::say);
    let line = p.line;
    if !ends_with_byte(line, 0x22) {
        return None;
    }
    let msg_begin = match find_byte(line, 0x22) {
        Some(quote) => quote + 1,
        None => {
            return None;
        },
    };
    let n8 = " said, '".as_bytes().len();
    if msg_begin < n8 || msg_begin > line.len() - 1 {
        return None;
    }
    let src_offset = p.src_offset;
    let id = match p.player_id(head(line, msg_begin - n8)) {
        Some(id) => id,
        None => {
            return None;
        },
    };
    let m = cut(line, msg_begin, line.len() - 1);
    let kept = head(
        m,
        if m.len() < 255 {
            m.len()
        } else {
            255
        },
    );
    let span = match p.push_str(kept) {
        Some(span) => span,
        None => {
            return None;
        },
    };
    proof {
        Span::lemma_fields(
            p@.hands.src.len() - kept@.len(),
            kept@.len() as int,
        );
    }
    let begin = span.begin();
    if begin - src_offset > MAX_MESSAGE_OFFSET as usize {
        return None;
    }
    proof {
        Span::lemma_fields(begin - src_offset, kept@.len() as int);
        ActionData::lemma_message_fields(begin - src_offset, kept@.len() as int);
    }
    let msg = Span::new(begin - src_offset, span.size());
    Some(Action::new(ActionType::Say, id, ActionData::new_message(msg)))
}

/// Reads `name joins the table at seat #n`.
pub fn parse_action_join(p: &mut Parser, site: PokerSite) -> (a: Option<Action>)
    requires
        old(p).wf(),
    ensures
        final(p).wf(),
        final(p).data == old(p).data,
        final(p)@.hands.keeps_rows(old(p)@.hands),
        a matches Some(act) ==> final(p)@.hands.action_ok(final(p)@.src_offset, act),
        final(p)@.hands.grows_from(old(p)@.hands),
        final(p)@.same_hand(old(p)@),
        final(p)@.cursor() == old(p)@.cursor(),
        (final(p)@, a) == old(p)@.join(site),
        a is None ==> final(p)@ == old(p)@,
{
    reveal(State::join);
    let line = p.line;
    let name_end = match find(line, " joins ".as_bytes()) {
        Some(i) => i,
        None => {
            return None;
        },
    };
    let seat_begin = match rfind_byte(line, 0x23) {
        Some(hash) => hash + 1,
        None => {
            return None;
        },
    };
    let seat = match parse_integer(tail(line, seat_begin), comma(site)) {
        Some((seat, _)) => seat,
        None => {
            return None;
        },
    };
    let id = match p.player_id(head(line, name_end)) {
        Some(id) => id,
        None => {
            return None;
        },
    };
    p.set_seat(id, seat as u8);
    Some(Action::new(ActionType::Join, id, ActionData::new_handle(seat as u32)))
}

/// Reads a line about a player who collects from a pot.
pub fn parse_action_collected_pot(p: &mut Parser, site: PokerSite, currency: char, side: bool) -> (a:
    Option<Action>)
    requires
        old(p).wf(),
    ensures
        final(p).wf(),
        final(p).data == old(p).data,
        final(p)@.hands.keeps_rows(old(p)@.hands),
        a matches Some(act) ==> final(p)@.hands.action_ok(final(p)@.src_offset, act),
        final(p)@.hands.grows_from(old(p)@.hands),
        final(p)@.same_hand(old(p)@),
        final(p)@.cursor() == old(p)@.cursor(),
        (final(p)@, a) == old(p)@.collected_pot(site, currency, side),
        final(p)@ == old(p)@,
{
    reveal(State::collected_pot);
    match read_collected(p.line, site, currency, side) {
        None => None,
        Some((kind, name, amount)) => p.action_num(kind, name, amount),
    }
}

/// Reads `Uncalled bet ($n) returned to name`.
pub fn parse_action_uncalled_bet_returned(p: &mut Parser, site: PokerSite, currency: char) -> (a:
    Option<Action>)
    requires
        old(p).wf(),
    ensures
        final(p).wf(),
        final(p).data == old(p).data,
        final(p)@.hands.keeps_rows(old(p)@.hands),
        a matches Some(act) ==> final(p)@.hands.action_ok(final(p)@.src_offset, act),
        final(p)@.hands.grows_from(old(p)@.hands),
        final(p)@.same_hand(old(p)@),
        final(p)@.cursor() == old(p)@.cursor(),
        (final(p)@, a) == old(p)@.uncalled_bet_returned(site, currency),
        final(p)@ == old(p)@,
{
    reveal(State::uncalled_bet_returned);
    let line = p.line;
    let n14 = "Uncalled bet (".as_bytes().len();
    if !starts_with(line, "Uncalled ".as_bytes()) || n14 > line.len() {
        return None;
    }
    let amount = match find_currency(tail(line, n14), currency, comma(site)) {
        Some((amount, _)) => amount,
        None => {
            return None;
        },
    };
    let ed_to = "ed to ".as_bytes();
    let name_begin = match rfind(line, ed_to) {
        Some(at) => at + ed_to.len(),
        None => {
            return None;
        },
    };
    p.action_num(
        ActionType::UncalledBetReturned,
        trim_player_name(site, tail(line, name_begin)),
        amount,
    )
}

/// Reads `name: shows [cards] (what they make)`.
pub fn parse_action_show_with_card_description(p: &mut Parser) -> (a: Option<Action>)
    requires
        old(p).wf(),
    ensures
        final(p).wf(),
        final(p).data == old(p).data,
        final(p)@.hands.keeps_rows(old(p)@.hands),
        a matches Some(act) ==> final(p)@.hands.action_ok(final(p)@.src_offset, act),
        final(p)@.hands.grows_from(old(p)@.hands),
        final(p)@.same_hand(old(p)@),
        final(p)@.cursor() == old(p)@.cursor(),
        (final(p)@, a) == old(p)@.show_with_card_description(),
        a is None ==> final(p)@ == old(p)@,
{
    reveal(State::show_with_card_description);
    let line = p.line;
    let shows = ": shows".as_bytes();
    let name_end = match find(line, shows) {
        Some(i) => i,
        None => {
            return None;
        },
    };
    let rest_begin = name_end + shows.len();
    if rest_begin >= line.len() {
        return None;
    }
    let cards = match find_cards(tail(line, rest_begin + 1)) {
        Some((cards, _)) => cards,
        None => {
            return None;
        },
    };
    proof {
        lemma_cards_of(cards);
    }
    p.action_cards(ActionType::Show, head(line, name_end), cards)
}

fn parse_wager(
    p: &mut Parser,
    site: PokerSite,
    currency: char,
    words: &[u8],
    kind: ActionType,
    all_in: ActionType,
) -> (r: Option<Option<Action>>)
    requires
        old(p).wf(),
    ensures
        final(p).wf(),
        final(p).data == old(p).data,
        final(p)@.hands.keeps_rows(old(p)@.hands),
        final(p)@.hands.grows_from(old(p)@.hands),
        final(p)@.same_hand(old(p)@),
        final(p)@.cursor() == old(p)@.cursor(),
        final(p)@ == old(p)@,
        match r {
            Some(a) => old(p)@.wager(site, currency, words@, kind, all_in) == Some((old(p)@, a)),
            None => old(p)@.wager(site, currency, words@, kind, all_in) is None,
        },
        r matches Some(Some(act)) ==> act.kind == kind || act.kind == all_in,
{
    reveal(State::wager);
    let line = p.line;
    let name_end = match rfind(line, words) {
        Some(i) => i,
        None => {
            return None;
        },
    };
    let rest_begin = name_end + words.len();
    if rest_begin >= line.len() {
        return Some(None);
    }
    let bet = match find_currency(tail(line, rest_begin + 1), currency, comma(site)) {
        Some((bet, _)) => bet,
        None => {
            return Some(None);
        },
    };
    let which = if ends_with(line, " in".as_bytes()) {
        all_in
    } else {
        kind
    };
    Some(p.action_num(which, trim_player_name(site, head(line, name_end)), bet))
}

/// Reads a bet, a call or a raise.
pub fn parse_action_bet_call_raise(p: &mut Parser, site: PokerSite, currency: char) -> (a: Option<
    Action,
>)
    requires
        old(p).wf(),
    ensures
        final(p).wf(),
        final(p).data == old(p).data,
        final(p)@.hands.keeps_rows(old(p)@.hands),
        a matches Some(act) ==> final(p)@.hands.action_ok(final(p)@.src_offset, act),
        final(p)@.hands.grows_from(old(p)@.hands),
        final(p)@.same_hand(old(p)@),
        final(p)@.cursor() == old(p)@.cursor(),
        (final(p)@, a) == old(p)@.bet_call_raise(site, currency),
        final(p)@ == old(p)@,
{
    reveal(State::bet_call_raise);
    if let Some(a) = parse_wager(
        p,
        site,
        currency,
        ": bets".as_bytes(),
        ActionType::Bet,
        ActionType::BetAllIn,
    ) {
        return a;
    }
    if let Some(a) = parse_wager(
        p,
        site,
        currency,
        ": calls".as_bytes(),
        ActionType::Call,
        ActionType::CallAllIn,
    ) {
        return a;
    }
    if let Some(a) = parse_wager(
        p,
        site,
        currency,
        ": raises".as_bytes(),
        ActionType::Raise,
        ActionType::RaiseAllIn,
    ) {
        return a;
    }
    None
}

/// Reads `name cashed out the hand for $n | Cash Out Fee $m`.
pub fn parse_action_cashout(p: &mut Parser, site: PokerSite, currency: char) -> (a: Option<Action>)
    requires
        old(p).wf(),
    ensures
        final(p).wf(),
        final(p).data == old(p).data,
        final(p)@.hands.keeps_rows(old(p)@.hands),
        a matches Some(act) ==> final(p)@.hands.action_ok(final(p)@.src_offset, act),
        final(p)@.hands.grows_from(old(p)@.hands),
        final(p)@.same_hand(old(p)@),
        final(p)@.cursor() == old(p)@.cursor(),
        (final(p)@, a) == old(p)@.cashout(site, currency),
        a is None ==> final(p)@ == old(p)@,
{
    reveal(State::cashout);
    let line = p.line;
    let cashed = " cashed o".as_bytes();
    let name_end = match find(line, cashed) {
        Some(i) => i,
        None => {
            return None;
        },
    };
    let n16 = "ut the hand for ".as_bytes().len();
    if n16 > line.len() - (name_end + cashed.len()) {
        return None;
    }
    let amount_begin = name_end + cashed.len() + n16;
    let (amount, currency_end) = match find_currency(
        tail(line, amount_begin),
        currency,
        comma(site),
    ) {
        Some((amount, (_, currency_end))) => (amount, currency_end),
        None => {
            return None;
        },
    };
    let rest = tail(line, amount_begin + currency_end);
    let fee_words = " Fee ".as_bytes();
    let fee = match rfind(rest, fee_words) {
        None => Number(0),
        Some(i) => match find_currency(tail(rest, i + fee_words.len()), currency, comma(site)) {
            Some((fee, _)) => fee,
            None => {
                return None;
            },
        },
    };
    p.action_num_pair(ActionType::CashOut, head(line, name_end), amount, fee)
}

/// Reads a line about a player who posts a blind or an ante.
pub fn parse_action_blind(p: &mut Parser, site: PokerSite, currency: char) -> (a: Option<Action>)
    requires
        old(p).wf(),
    ensures
        final(p).wf(),
        final(p).data == old(p).data,
        final(p)@.hands.keeps_rows(old(p)@.hands),
        a matches Some(act) ==> final(p)@.hands.action_ok(final(p)@.src_offset, act),
        final(p)@.hands.grows_from(old(p)@.hands),
        final(p)@.same_hand(old(p)@),
        final(p)@.cursor() == old(p)@.cursor(),
        (final(p)@, a) == old(p)@.blind(site, currency),
        final(p)@ == old(p)@,
{
    reveal(State::blind);
    let line = p.line;
    let posts = ": posts".as_bytes();
    let name_end = match find(line, posts) {
        Some(i) => i,
        None => {
            return None;
        },
    };
    let rest_begin = name_end + posts.len();
    let (amount, amount_begin) = match rfind_currency(line, currency, comma(site)) {
        Some((amount, (amount_begin, _))) => (amount, amount_begin),
        None => {
            return None;
        },
    };
    if amount_begin < 1 || rest_begin >= amount_begin - 1 {
        return None;
    }
    let blind = cut(line, rest_begin + 1, amount_begin - 1);
    let kind = if ends_with_byte(blind, 0x73) {
        ActionType::BigSmallBlind
    } else if blind.len() == 0 {
        return None;
    } else if blind[0] == 0x73 {
        ActionType::SmallBlind
    } else if blind[0] == 0x62 {
        ActionType::BigBlind
    } else if blind[0] == 0x74 {
        ActionType::Ante
    } else {
        return None;
    };
    p.action_num(kind, trim_player_name(site, head(line, name_end)), amount)
}

/// Reads `Dealt to name [cards]`.
pub fn parse_action_dealt_to(p: &mut Parser, site: PokerSite) -> (a: Option<Action>)
    requires
        old(p).wf(),
    ensures
        final(p).wf(),
        final(p).data == old(p).data,
        final(p)@.hands.keeps_rows(old(p)@.hands),
        a matches Some(act) ==> final(p)@.hands.action_ok(final(p)@.src_offset, act),
        final(p)@.hands.grows_from(old(p)@.hands),
        final(p)@.same_hand(old(p)@),
        final(p)@.cursor() == old(p)@.cursor(),
        (final(p)@, a) == old(p)@.dealt_to(site),
        a is None ==> final(p)@ == old(p)@,
{
    reveal(State::dealt_to);
    let line = p.line;
    let cards_begin = match rfind_byte(line, 0x5b) {
        Some(i) => i,
        None => {
            return None;
        },
    };
    let n9 = "Dealt to ".as_bytes().len();
    if cards_begin + 1 > line.len() - 1 || cards_begin < 1 || n9 > cards_begin - 1 {
        return None;
    }
    let cards = match parse_cards(cut(line, cards_begin + 1, line.len() - 1)) {
        Some(cards) => cards,
        None => {
            return None;
        },
    };
    proof {
        lemma_cards_of(cards);
    }
    let name = cut(line, n9, cards_begin - 1);
    p.action_cards(ActionType::Dealt, trim_player_name(site, name), cards)
}

/// Reading an action never moves the cursor.
pub proof fn lemma_actions_keep_cursor(s: State, site: PokerSite, currency: char)
    ensures
        s.join_leave_timeout(site).0.cursor() == s.cursor(),
        s.fold_check_not_show(site).0.cursor() == s.cursor(),
        s.fold_show(site).0.cursor() == s.cursor(),
        s.say().0.cursor() == s.cursor(),
        s.join(site).0.cursor() == s.cursor(),
        s.collected_pot(site, currency, false).0.cursor() == s.cursor(),
        s.collected_pot(site, currency, true).0.cursor() == s.cursor(),
        s.uncalled_bet_returned(site, currency).0.cursor() == s.cursor(),
        s.show_with_card_description().0.cursor() == s.cursor(),
        s.bet_call_raise(site, currency).0.cursor() == s.cursor(),
        s.cashout(site, currency).0.cursor() == s.cursor(),
        s.blind(site, currency).0.cursor() == s.cursor(),
        s.dealt_to(site).0.cursor() == s.cursor(),
{
    lemma_suffix_groups_keep_cursor(s, site);
    lemma_card_actions_keep_cursor(s, site);
    lemma_say_join_keep_cursor(s, site);
    lemma_amount_actions_keep_cursor(s, site, currency);
}

proof fn lemma_suffix_groups_keep_cursor(s: State, site: PokerSite)
    ensures
        s.join_leave_timeout(site).0.cursor() == s.cursor(),
        s.fold_check_not_show(site).0.cursor() == s.cursor(),
{
    lemma_suffix_keeps_cursor(s, site);
    assert(s.join_leave_timeout(site).0.cursor() == s.cursor()) by {
        reveal(State::join_leave_timeout);
    }
    assert(s.fold_check_not_show(site).0.cursor() == s.cursor()) by {
        reveal(State::fold_check_not_show);
    }
}

proof fn lemma_card_actions_keep_cursor(s: State, site: PokerSite)
    ensures
        s.fold_show(site).0.cursor() == s.cursor(),
        s.show_with_card_description().0.cursor() == s.cursor(),
        s.dealt_to(site).0.cursor() == s.cursor(),
{
    assert(s.fold_show(site).0.cursor() == s.cursor()) by {
        reveal(State::fold_show);
    }
    assert(s.show_with_card_description().0.cursor() == s.cursor()) by {
        reveal(State::show_with_card_description);
    }
    assert(s.dealt_to(site).0.cursor() == s.cursor()) by {
        reveal(State::dealt_to);
    }
}

proof fn lemma_say_join_keep_cursor(s: State, site: PokerSite)
    ensures
        s.say().0.cursor() == s.cursor(),
        s.join(site).0.cursor() == s.cursor(),
{
    assert(s.say().0.cursor() == s.cursor()) by {
        reveal(State::say);
    }
    assert(s.join(site).0.cursor() == s.cursor()) by {
        reveal(State::join);
    }
}

proof fn lemma_amount_actions_keep_cursor(s: State, site: PokerSite, currency: char)
    ensures
        s.collected_pot(site, currency, false).0.cursor() == s.cursor(),
        s.collected_pot(site, currency, true).0.cursor() == s.cursor(),
        s.uncalled_bet_returned(site, currency).0.cursor() == s.cursor(),
        s.bet_call_raise(site, currency).0.cursor() == s.cursor(),
        s.cashout(site, currency).0.cursor() == s.cursor(),
        s.blind(site, currency).0.cursor() == s.cursor(),
{
    assert(s.collected_pot(site, currency, false).0.cursor() == s.cursor()) by {
        reveal(State::collected_pot);
    }
    assert(s.collected_pot(site, currency, true).0.cursor() == s.cursor()) by {
        reveal(State::collected_pot);
    }
    assert(s.uncalled_bet_returned(site, currency).0.cursor() == s.cursor()) by {
        reveal(State::uncalled_bet_returned);
    }
    assert(s.bet_call_raise(site, currency).0.cursor() == s.cursor()) by {
        reveal(State::bet_call_raise);
        reveal(State::wager);
    }
    assert(s.cashout(site, currency).0.cursor() == s.cursor()) by {
        reveal(State::cashout);
    }
    assert(s.blind(site, currency).0.cursor() == s.cursor()) by {
        reveal(State::blind);
    }
}

/// A line that is read by its last words never moves the cursor.
pub proof fn lemma_suffix_keeps_cursor(s: State, site: PokerSite)
    ensures
        forall|kind: ActionType, ending: Seq<u8>, suffix: Seq<u8>, data: ActionData|
            (#[trigger] s.suffix_action(site, kind, ending, suffix, data)).0.cursor()
                == s.cursor(),
{
    reveal(State::suffix_action);
}

/// Whether `b` is white space.
pub open spec fn is_space(b: u8) -> bool {
    b == 0x20 || (0x09 <= b <= 0x0d)
}

/// Where the white space that begins at `from` ends.
pub open spec fn space_end(s: Seq<u8>, from: int) -> int
    decreases s.len() - from,
{
    if 0 <= from < s.len() && is_space(s[from]) {
        space_end(s, from + 1)
    } else {
        from
    }
}

/// The game and the way of betting that a hand's first line names, after
/// any white space: `Hold'em` or `Omaha`, told by the first letter; then,
/// one byte after the game's name, an `H` for `Omaha Hi/Lo`; then, one byte
/// after the name that this makes, `N`o limit, `L`imit or `P`ot limit.
pub open spec fn spec_parse_game_bet_type(s: Seq<u8>) -> Option<(GameType, BetType)> {
    let i = space_end(s, 0);
    if i >= s.len() {
        None
    } else {
        let first = if s[i] == 0x48 {
            Some((GameType::HoldEm, lit("Hold'em").len()))
        } else if s[i] == 0x4f {
            Some((GameType::Omaha, lit("Omaha").len()))
        } else {
            None
        };
        match first {
            None => None,
            Some((game, n)) => if i + n + 1 >= s.len() {
                None
            } else {
                let (game, n) = if s[i + n + 1] == 0x48 {
                    (GameType::OmahaHiLo, lit("Omaha Hi/Lo").len())
                } else {
                    (game, n)
                };
                if i + n + 1 >= s.len() {
                    None
                } else if s[i + n + 1] == 0x4e {
                    Some((game, BetType::NoLimit))
                } else if s[i + n + 1] == 0x4c {
                    Some((game, BetType::Limit))
                } else if s[i + n + 1] == 0x50 {
                    Some((game, BetType::PotLimit))
                } else {
                    None
                }
            },
        }
    }
}

/// The number that `s` begins with.
pub open spec fn leading_integer(s: Seq<u8>, comma: bool) -> Option<u64> {
    match spec_parse_integer(s, comma) {
        Some((v, _)) => Some(v),
        None => None,
    }
}

/// The date and time written as `year/month/day hour:minute:second`, where
/// each part begins with a number and the six numbers fit a `DateTime`.
pub open spec fn spec_parse_datetime(s: Seq<u8>, comma: bool) -> Option<DateTime> {
    match find_byte_from(s, 0x2f, 0) {
        None => None,
        Some(year_end) => match find_byte_from(s, 0x2f, year_end + 1) {
            None => None,
            Some(month_end) => match find_byte_from(s, 0x20, month_end + 1) {
                None => None,
                Some(day_end) => match find_byte_from(s, 0x3a, day_end + 1) {
                    None => None,
                    Some(hour_end) => match find_byte_from(s, 0x3a, hour_end + 1) {
                        None => None,
                        Some(min_end) => match (
                            leading_integer(s.subrange(0, year_end), comma),
                            leading_integer(s.subrange(year_end + 1, month_end), comma),
                            leading_integer(s.subrange(month_end + 1, day_end), comma),
                            leading_integer(s.subrange(day_end + 1, hour_end), comma),
                            leading_integer(s.subrange(hour_end + 1, min_end), comma),
                            leading_integer(s.subrange(min_end + 1, s.len() as int), comma),
                        ) {
                            (
                                Some(year),
                                Some(month),
                                Some(day),
                                Some(hour),
                                Some(min),
                                Some(sec),
                            ) => if date_fits(
                                year as int,
                                month as int,
                                day as int,
                                hour as int,
                                min as int,
                                sec as int,
                            ) {
                                Some(
                                    DateTime::spec_new(
                                        year as int,
                                        month as int,
                                        day as int,
                                        hour as int,
                                        min as int,
                                        sec as int,
                                    ),
                                )
                            } else {
                                None
                            },
                            _ => None,
                        },
                    },
                },
            },
        },
    }
}

fn leading(s: &[u8], comma: bool) -> (r: Option<u64>)
    ensures
        r == leading_integer(s@, comma),
{
    match parse_integer(s, comma) {
        Some((v, _)) => Some(v),
        None => None,
    }
}

impl PokerStars {
    /// Reads the game and the way of betting from a hand's first line.
    pub fn parse_game_bet_type(input: &[u8]) -> (r: Option<(GameType, BetType)>)
        ensures
            r == spec_parse_game_bet_type(input@),
    {
        let mut i: usize = 0;
        while i < input.len() && (input[i] == 0x20 || (0x09 <= input[i] && input[i] <= 0x0d))
            invariant
                i <= input@.len(),
                space_end(input@, 0) == space_end(input@, i as int),
            decreases input@.len() - i,
        {
            i += 1;
        }
        if i >= input.len() {
            return None;
        }
        let (game, n) = if input[i] == 0x48 {
            (GameType::HoldEm, "Hold'em".as_bytes().len())
        } else if input[i] == 0x4f {
            (GameType::Omaha, "Omaha".as_bytes().len())
        } else {
            return None;
        };
        if n >= input.len() - i - 1 {
            return None;
        }
        let (game, n) = if input[i + n + 1] == 0x48 {
            (GameType::OmahaHiLo, "Omaha Hi/Lo".as_bytes().len())
        } else {
            (game, n)
        };
        if n >= input.len() - i - 1 {
            return None;
        }
        let c = input[i + n + 1];
        if c == 0x4e {
            Some((game, BetType::NoLimit))
        } else if c == 0x4c {
            Some((game, BetType::Limit))
        } else if c == 0x50 {
            Some((game, BetType::PotLimit))
        } else {
            None
        }
    }

    /// Reads a date and time of day.
    pub fn parse_datetime(input: &[u8]) -> (r: Option<DateTime>)
        ensures
            r == spec_parse_datetime(input@, false),
    {
        let year_end = match find_byte_at(input, 0x2f, 0) {
            Some(i) => i,
            None => {
                return None;
            },
        };
        let month_end = match find_byte_at(input, 0x2f, year_end + 1) {
            Some(i) => i,
            None => {
                return None;
            },
        };
        let day_end = match find_byte_at(input, 0x20, month_end + 1) {
            Some(i) => i,
            None => {
                return None;
            },
        };
        let hour_end = match find_byte_at(input, 0x3a, day_end + 1) {
            Some(i) => i,
            None => {
                return None;
            },
        };
        let min_end = match find_byte_at(input, 0x3a, hour_end + 1) {
            Some(i) => i,
            None => {
                return None;
            },
        };
        let year = leading(head(input, year_end), false);
        let month = leading(cut(input, year_end + 1, month_end), false);
        let day = leading(cut(input, month_end + 1, day_end), false);
        let hour = leading(cut(input, day_end + 1, hour_end), false);
        let min = leading(cut(input, hour_end + 1, min_end), false);
        let sec = leading(tail(input, min_end + 1), false);
        match (year, month, day, hour, min, sec) {
            (Some(year), Some(month), Some(day), Some(hour), Some(min), Some(sec)) => {
                if 2000 <= year && year < 2064 && 1 <= month && month <= 16 && 1 <= day && day
                    <= 32 && hour < 32 && min < 64 && sec < 64 {
                    Some(
                        DateTime::new(
                            year as u32,
                            month as u32,
                            day as u32,
                            hour as u32,
                            min as u32,
                            sec as u32,
                        ),
                    )
                } else {
                    None
                }
            },
            _ => None,
        }
    }
}

} // verus!
