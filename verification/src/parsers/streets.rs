//! The streets of a hand: the cards that come and what the players do on
//! them.

use vstd::prelude::*;
use crate::parsers::fields::{parse_cards, spec_parse_cards};
use crate::parsers::parser::{Parser, State};
use crate::parsers::pokerstars::{cards_of, lemma_cards_of};
use crate::parsers::stages::{
    is_summary_line, lemma_action_keeps_cursor, parse_action_list, spec_is_section_line,
    spec_is_summary_line, Stage,
};
use crate::parsers::text::{cut, find_at, find_from, lit, rfind_byte, spec_rfind_byte};
use crate::pklp::action::Action;
use crate::pklp::cards::{Card, Cards};
use crate::pklp::hand::{Arena, PokerSite, Street, StreetArray, StreetType};
use crate::pklp::span::{
    span_fits, ActionSpan, FlopSpan, RiverSpan, ShowdownSpan, SpanLike, TurnSpan, MAX_SPAN_BEGIN,
    MAX_SPAN_SIZE,
};

verus! {

/// The cards in the last brackets of a line that ends with `]`.
pub open spec fn spec_last_cards(line: Seq<u8>) -> Option<Seq<Card>> {
    match spec_rfind_byte(line, 0x5b) {
        None => None,
        Some(open) => if open + 1 > line.len() - 1 {
            None
        } else {
            spec_parse_cards(line.subrange(open + 1, line.len() - 1))
        },
    }
}

/// What a line such as `*** TURN *** [4c 8s 5h] [6d]` says: the street,
/// told by the two letters before the first ` *` from the ninth byte on,
/// and the cards in the last brackets. A show-down has no cards.
pub open spec fn spec_pokerstars_street(line: Seq<u8>) -> Option<(StreetType, Seq<Card>)> {
    match find_from(line, lit(" *"), 8) {
        None => None,
        Some(end) => {
            let a = line[end - 2];
            let b = line[end - 1];
            let kind = if a == 0x4f && b == 0x50 {
                Some(StreetType::Flop)
            } else if a == 0x45 && b == 0x52 {
                Some(StreetType::River)
            } else if a == 0x52 && b == 0x4e {
                Some(StreetType::Turn)
            } else if a == 0x57 && b == 0x4e {
                Some(StreetType::Showdown)
            } else {
                None
            };
            match kind {
                None => None,
                Some(StreetType::Showdown) => Some((StreetType::Showdown, Seq::empty())),
                Some(kind) => match spec_last_cards(line) {
                    Some(cards) => Some((kind, cards)),
                    None => None,
                },
            }
        },
    }
}

/// What a line such as `--- Dealing flop [Qh, Td, As]` says: the street,
/// told by the first letter after the opening words, and the cards in the
/// last brackets.
pub open spec fn spec_ongame_street(line: Seq<u8>) -> Option<(StreetType, Seq<Card>)> {
    let at = lit("--- Dealing ").len() as int;
    if at >= line.len() {
        None
    } else {
        let kind = if line[at] == 0x66 {
            Some(StreetType::Flop)
        } else if line[at] == 0x72 {
            Some(StreetType::River)
        } else if line[at] == 0x74 {
            Some(StreetType::Turn)
        } else {
            None
        };
        match (kind, spec_last_cards(line)) {
            (Some(kind), Some(cards)) => Some((kind, cards)),
            _ => None,
        }
    }
}

/// The line that opens a street, for the site.
pub open spec fn spec_street_header(site: PokerSite, line: Seq<u8>) -> Option<
    (StreetType, Seq<Card>),
> {
    if site == PokerSite::OnGame {
        spec_ongame_street(line)
    } else {
        spec_pokerstars_street(line)
    }
}

fn last_cards(line: &[u8]) -> (r: Option<Cards>)
    ensures
        match r {
            Some(cards) => spec_last_cards(line@) == Some(cards@) && cards.wf(),
            None => spec_last_cards(line@) is None,
        },
{
    match rfind_byte(line, 0x5b) {
        None => None,
        Some(open) => {
            if open + 1 > line.len() - 1 {
                None
            } else {
                parse_cards(cut(line, open + 1, line.len() - 1))
            }
        },
    }
}

fn read_pokerstars_street(line: &[u8]) -> (r: Option<(StreetType, Cards)>)
    ensures
        match r {
            Some((kind, cards)) => spec_pokerstars_street(line@) == Some((kind, cards@))
                && cards.wf(),
            None => spec_pokerstars_street(line@) is None,
        },
{
    let end = match find_at(line, " *".as_bytes(), 8) {
        Some(end) => end,
        None => {
            return None;
        },
    };
    let a = line[end - 2];
    let b = line[end - 1];
    let kind = if a == 0x4f && b == 0x50 {
        StreetType::Flop
    } else if a == 0x45 && b == 0x52 {
        StreetType::River
    } else if a == 0x52 && b == 0x4e {
        StreetType::Turn
    } else if a == 0x57 && b == 0x4e {
        StreetType::Showdown
    } else {
        return None;
    };
    match kind {
        StreetType::Showdown => Some((kind, Cards::default())),
        _ => match last_cards(line) {
            Some(cards) => Some((kind, cards)),
            None => None,
        },
    }
}

fn read_ongame_street(line: &[u8]) -> (r: Option<(StreetType, Cards)>)
    ensures
        match r {
            Some((kind, cards)) => spec_ongame_street(line@) == Some((kind, cards@))
                && cards.wf(),
            None => spec_ongame_street(line@) is None,
        },
{
    let at = "--- Dealing ".as_bytes().len();
    if at >= line.len() {
        return None;
    }
    let kind = if line[at] == 0x66 {
        Some(StreetType::Flop)
    } else if line[at] == 0x72 {
        Some(StreetType::River)
    } else if line[at] == 0x74 {
        Some(StreetType::Turn)
    } else {
        None
    };
    match (kind, last_cards(line)) {
        (Some(kind), Some(cards)) => Some((kind, cards)),
        _ => None,
    }
}

impl Arena {
    /// The arena with a new last row in the column of streets of kind `t`.
    pub open spec fn push_street(self, t: StreetType, street: Street) -> Arena {
        match t {
            StreetType::Flop => Arena { flops: self.flops.push(street), ..self },
            StreetType::Turn => Arena { turns: self.turns.push(street), ..self },
            StreetType::River => Arena { rivers: self.rivers.push(street), ..self },
            StreetType::Showdown => Arena { showdowns: self.showdowns.push(street), ..self },
        }
    }

    /// How many rows each of the four columns of streets has.
    pub open spec fn street_counts(self) -> (int, int, int, int) {
        (
            self.flops.len() as int,
            self.turns.len() as int,
            self.rivers.len() as int,
            self.showdowns.len() as int,
        )
    }
}

/// The four ranges from `begins` to `ends`, where each fits a span.
pub open spec fn street_spans(begins: (int, int, int, int), ends: (int, int, int, int)) -> Option<
    StreetArray,
> {
    if span_fits(begins.0, ends.0 - begins.0) && span_fits(begins.1, ends.1 - begins.1)
        && span_fits(begins.2, ends.2 - begins.2) && span_fits(begins.3, ends.3 - begins.3) {
        Some(
            (
                FlopSpan::spec_new(begins.0, ends.0 - begins.0),
                TurnSpan::spec_new(begins.1, ends.1 - begins.1),
                RiverSpan::spec_new(begins.2, ends.2 - begins.2),
                ShowdownSpan::spec_new(begins.3, ends.3 - begins.3),
            ),
        )
    } else {
        None
    }
}

impl State {
    /// Whether the streets from `begins` on in the four columns are there,
    /// and what they point at.
    pub open spec fn streets_ok_from(self, begins: (int, int, int, int)) -> bool {
        let a = self.hands;
        let at = self.src_offset;
        &&& a.streets_ok(at, a.flops, begins.0, a.flops.len() - begins.0)
        &&& a.streets_ok(at, a.turns, begins.1, a.turns.len() - begins.1)
        &&& a.streets_ok(at, a.rivers, begins.2, a.rivers.len() - begins.2)
        &&& a.streets_ok(at, a.showdowns, begins.3, a.showdowns.len() - begins.3)
    }

    /// Whether the streets that the four spans cover are there, and what
    /// they point at.
    pub open spec fn streets_ok(self, spans: StreetArray) -> bool {
        let a = self.hands;
        let at = self.src_offset;
        &&& a.streets_ok(at, a.flops, spans.0.spec_begin(), spans.0.spec_size())
        &&& a.streets_ok(at, a.turns, spans.1.spec_begin(), spans.1.spec_size())
        &&& a.streets_ok(at, a.rivers, spans.2.spec_begin(), spans.2.spec_size())
        &&& a.streets_ok(at, a.showdowns, spans.3.spec_begin(), spans.3.spec_size())
    }

    /// Streets that were there stay there as actions are read, where no
    /// street was added.
    pub proof fn lemma_streets_ok_from(self, old: State, begins: (int, int, int, int))
        requires
            self.hands.grows_from(old.hands),
            self.same_hand(old),
            old.streets_ok_from(begins),
            self.hands.street_counts() == old.hands.street_counts(),
        ensures
            self.streets_ok_from(begins),
    {
        let at = self.src_offset;
        self.hands.lemma_streets_ok_grows(
            old.hands,
            at,
            old.hands.flops,
            self.hands.flops,
            begins.0,
            old.hands.flops.len() - begins.0,
        );
        self.hands.lemma_streets_ok_grows(
            old.hands,
            at,
            old.hands.turns,
            self.hands.turns,
            begins.1,
            old.hands.turns.len() - begins.1,
        );
        self.hands.lemma_streets_ok_grows(
            old.hands,
            at,
            old.hands.rivers,
            self.hands.rivers,
            begins.2,
            old.hands.rivers.len() - begins.2,
        );
        self.hands.lemma_streets_ok_grows(
            old.hands,
            at,
            old.hands.showdowns,
            self.hands.showdowns,
            begins.3,
            old.hands.showdowns.len() - begins.3,
        );
    }

    /// The line that opens a street: the cursor moves past it.
    pub open spec fn street_header(self, site: PokerSite) -> (State, Option<(StreetType, Cards)>) {
        match spec_street_header(site, self.line) {
            None => (self, None),
            Some((kind, cards)) => (self.advance(), Some((kind, cards_of(cards)))),
        }
    }

    /// Reading a list of actions never moves the cursor back.
    pub proof fn lemma_action_list_from(
        self,
        site: PokerSite,
        stage: Stage,
        currency: char,
        begin: int,
    )
        requires
            self.lines.wf(),
        ensures
            self.action_list_from(site, stage, currency, begin).0.remaining() <= self.remaining(),
            self.action_list_from(site, stage, currency, begin).0.lines.wf(),
            self.sound() ==> self.action_list_from(site, stage, currency, begin).0.sound(),
        decreases self.remaining(),
    {
        if self.at_end {
        } else if spec_is_section_line(site, self.line) {
        } else {
            let (read, action) = self.action(site, stage, currency);
            lemma_action_keeps_cursor(self, site, stage, currency);
            self.lines.lemma_next();
            if self.sound() {
                read.lemma_advance();
            }
            match action {
                None => {},
                Some(action) => {
                    read.advance().push_action(action).lemma_action_list_from(
                        site,
                        stage,
                        currency,
                        begin,
                    );
                },
            }
        }
    }

    /// Reading a list of actions never moves the cursor back.
    pub proof fn lemma_action_list_moves(self, site: PokerSite, stage: Stage, currency: char)
        requires
            self.sound(),
        ensures
            self.action_list(site, stage, currency).0.moved_on(self),
    {
        self.lemma_action_list_from(site, stage, currency, self.hands.actions.len() as int);
    }

    /// Reading the streets never moves the cursor back.
    pub proof fn lemma_streets_from_moves(
        self,
        site: PokerSite,
        currency: char,
        id: u8,
        begins: (int, int, int, int),
    )
        requires
            self.sound(),
        ensures
            self.streets_from(site, currency, id, begins).0.moved_on(self),
        decreases self.remaining(),
    {
        if self.at_end {
        } else if spec_is_summary_line(site, self.line) {
        } else {
            let (opened, header) = self.street_header(site);
            match header {
                None => {},
                Some((kind, cards)) => {
                    self.lemma_advance();
                    opened.lemma_action_list_moves(site, Stage::Street, currency);
                    let (read, actions) = opened.action_list(site, Stage::Street, currency);
                    match actions {
                        None => {},
                        Some(actions) => {
                            if id != u8::MAX {
                                (State {
                                    hands: read.hands.push_street(
                                        kind,
                                        Street { cards, id, actions },
                                    ),
                                    ..read
                                }).lemma_streets_from_moves(
                                    site,
                                    currency,
                                    (id + 1) as u8,
                                    begins,
                                );
                            }
                        },
                    }
                },
            }
        }
    }

    /// Reading the streets and what lies before them never moves the
    /// cursor back.
    pub proof fn lemma_streets_moves(self, site: PokerSite, currency: char)
        requires
            self.sound(),
        ensures
            self.streets(site, currency).0.moved_on(self),
            self.preflop(site, currency).0.moved_on(self),
    {
        reveal(State::streets);
        reveal(State::preflop);
        self.lemma_streets_from_moves(site, currency, 0, self.hands.street_counts());
        self.lemma_advance();
        self.advance().lemma_advance();
        let begun = if site == PokerSite::OnGame {
            self.advance().advance()
        } else {
            self.advance()
        };
        begun.lemma_action_list_moves(site, Stage::PreFlop, currency);
    }

    /// The streets from the cursor on, up to the line that begins the
    /// summary: each is a line that opens it and a list of actions, and
    /// becomes the last row of the column of its kind, numbered from `id`
    /// on. The result is the four ranges from `begins` to the ends of the
    /// columns.
    pub open spec fn streets_from(
        self,
        site: PokerSite,
        currency: char,
        id: u8,
        begins: (int, int, int, int),
    ) -> (State, Option<StreetArray>)
        decreases self.remaining(),
        when self.lines.wf()
    {
        if self.at_end {
            (self, None)
        } else if spec_is_summary_line(site, self.line) {
            (self, street_spans(begins, self.hands.street_counts()))
        } else {
            let (opened, header) = self.street_header(site);
            match header {
                None => (opened, None),
                Some((kind, cards)) => {
                    let (read, actions) = opened.action_list(site, Stage::Street, currency);
                    match actions {
                        None => (read, None),
                        Some(actions) => if id == u8::MAX {
                            (read, None)
                        } else {
                            proof {
                                self.lines.lemma_next();
                                opened.lemma_action_list_from(
                                    site,
                                    Stage::Street,
                                    currency,
                                    opened.hands.actions.len() as int,
                                );
                            }
                            (State {
                                hands: read.hands.push_street(kind, Street { cards, id, actions }),
                                ..read
                            }).streets_from(site, currency, (id + 1) as u8, begins)
                        },
                    }
                },
            }
        }
    }

    /// The streets of a hand, as ranges that begin at the ends of the four
    /// columns.
    #[verifier::opaque]
    pub open spec fn streets(self, site: PokerSite, currency: char) -> (State, Option<StreetArray>) {
        self.streets_from(site, currency, 0, self.hands.street_counts())
    }

    /// What lies between the header and the first street: the lines that
    /// announce the cards are passed over, one or for OnGame two, and the
    /// actions are read.
    #[verifier::opaque]
    pub open spec fn preflop(self, site: PokerSite, currency: char) -> (State, Option<Street>) {
        let begun = if site == PokerSite::OnGame {
            self.advance().advance()
        } else {
            self.advance()
        };
        let (read, actions) = begun.action_list(site, Stage::PreFlop, currency);
        match actions {
            None => (read, None),
            Some(actions) => (
                read,
                Some(Street { cards: cards_of(Seq::empty()), id: 0, actions }),
            ),
        }
    }
}

/// Reads the line that opens a street.
pub fn parse_street_header(p: &mut Parser, site: PokerSite) -> (r: Option<(StreetType, Cards)>)
    requires
        old(p).wf(),
    ensures
        final(p).wf(),
        final(p).data == old(p).data,
        final(p)@.hands == old(p)@.hands,
        final(p)@.same_hand(old(p)@),
        (final(p)@, r) == old(p)@.street_header(site),
        final(p)@.remaining() <= old(p)@.remaining(),
        r is Some && !old(p)@.at_end ==> final(p)@.remaining() < old(p)@.remaining(),
{
    let r = if site == PokerSite::OnGame {
        read_ongame_street(p.line)
    } else {
        read_pokerstars_street(p.line)
    };
    match r {
        None => None,
        Some((kind, cards)) => {
            proof {
                lemma_cards_of(cards);
            }
            p.advance();
            Some((kind, cards))
        },
    }
}

/// Reads the streets of a hand.
pub fn parse_streets(p: &mut Parser, site: PokerSite, currency: char) -> (r: Option<StreetArray>)
    requires
        old(p).wf(),
    ensures
        final(p).wf(),
        final(p).data == old(p).data,
        final(p)@.hands.grows_from(old(p)@.hands),
        final(p)@.same_hand(old(p)@),
        (final(p)@, r) == old(p)@.streets(site, currency),
        final(p)@.remaining() <= old(p)@.remaining(),
        r matches Some(spans) ==> final(p)@.streets_ok(spans),
{
    reveal(State::streets);
    let begins = (
        p.hands.flops.len(),
        p.hands.turns.len(),
        p.hands.rivers.len(),
        p.hands.showdowns.len(),
    );
    let ghost spec_begins = (begins.0 as int, begins.1 as int, begins.2 as int, begins.3 as int);
    let mut id: u8 = 0;
    loop
        invariant
            p.wf(),
            p.data == old(p).data,
            p@.hands.grows_from(old(p)@.hands),
            p@.same_hand(old(p)@),
            p@.remaining() <= old(p)@.remaining(),
            spec_begins == (begins.0 as int, begins.1 as int, begins.2 as int, begins.3 as int),
            begins.0 <= p@.hands.flops.len(),
            begins.1 <= p@.hands.turns.len(),
            begins.2 <= p@.hands.rivers.len(),
            begins.3 <= p@.hands.showdowns.len(),
            p@.streets_ok_from(spec_begins),
            old(p)@.streets(site, currency) == p@.streets_from(site, currency, id, spec_begins),
        decreases p@.remaining(),
    {
        if p.eof() {
            return None;
        }
        if is_summary_line(site, p.line) {
            let ends = (
                p.hands.flops.len(),
                p.hands.turns.len(),
                p.hands.rivers.len(),
                p.hands.showdowns.len(),
            );
            if begins.0 as u64 > MAX_SPAN_BEGIN || (ends.0 - begins.0) as u64 > MAX_SPAN_SIZE
                || begins.1 as u64 > MAX_SPAN_BEGIN || (ends.1 - begins.1) as u64 > MAX_SPAN_SIZE
                || begins.2 as u64 > MAX_SPAN_BEGIN || (ends.2 - begins.2) as u64 > MAX_SPAN_SIZE
                || begins.3 as u64 > MAX_SPAN_BEGIN || (ends.3 - begins.3) as u64 > MAX_SPAN_SIZE {
                return None;
            }
            proof {
                FlopSpan::lemma_fields(begins.0 as int, ends.0 - begins.0);
                TurnSpan::lemma_fields(begins.1 as int, ends.1 - begins.1);
                RiverSpan::lemma_fields(begins.2 as int, ends.2 - begins.2);
                ShowdownSpan::lemma_fields(begins.3 as int, ends.3 - begins.3);
            }
            return Some(
                (
                    FlopSpan::range(begins.0, ends.0),
                    TurnSpan::range(begins.1, ends.1),
                    RiverSpan::range(begins.2, ends.2),
                    ShowdownSpan::range(begins.3, ends.3),
                ),
            );
        }
        let (kind, cards) = match parse_street_header(p, site) {
            Some(r) => r,
            None => {
                return None;
            },
        };
        let ghost before = p@;
        let actions = match parse_action_list(p, site, Stage::Street, currency) {
            Some(actions) => actions,
            None => {
                return None;
            },
        };
        proof {
            p@.lemma_streets_ok_from(before, spec_begins);
        }
        if id == u8::MAX {
            return None;
        }
        let street = Street { cards, id, actions };
        match kind {
            StreetType::Flop => {
                p.hands.flops.push(street);
            },
            StreetType::Turn => {
                p.hands.turns.push(street);
            },
            StreetType::River => {
                p.hands.rivers.push(street);
            },
            StreetType::Showdown => {
                p.hands.showdowns.push(street);
            },
        }
        id += 1;
    }
}

/// Reads what lies between the header and the first street.
pub fn parse_preflop(p: &mut Parser, site: PokerSite, currency: char) -> (r: Option<Street>)
    requires
        old(p).wf(),
    ensures
        final(p).wf(),
        final(p).data == old(p).data,
        final(p)@.hands.grows_from(old(p)@.hands),
        final(p)@.same_hand(old(p)@),
        (final(p)@, r) == old(p)@.preflop(site, currency),
        final(p)@.remaining() <= old(p)@.remaining(),
        r matches Some(street) ==> final(p)@.hands.street_ok(final(p)@.src_offset, street),
{
    reveal(State::preflop);
    p.advance();
    if site == PokerSite::OnGame {
        p.advance();
    }
    match parse_action_list(p, site, Stage::PreFlop, currency) {
        None => None,
        Some(actions) => {
            let cards = Cards::default();
            proof {
                lemma_cards_of(cards);
            }
            Some(Street { cards, id: 0, actions })
        },
    }
}

} // verus!
