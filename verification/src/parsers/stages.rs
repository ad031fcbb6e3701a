//! What the sites' parsers share: which way of reading a line is tried
//! when, and the lists of actions that make up a stage of a hand.

use vstd::prelude::*;
use crate::parsers::ongame;
use crate::parsers::parser::{Parser, State};
use crate::parsers::pokerstars::{
    fold_check_not_show, join_leave_timeout, parse_action_bet_call_raise, parse_action_blind,
    parse_action_cashout, parse_action_collected_pot, parse_action_dealt_to,
    parse_action_fold_show, parse_action_join, parse_action_say,
    parse_action_show_with_card_description, parse_action_uncalled_bet_returned, suffix_action,
};
use crate::parsers::text::{equal, lit, spec_starts_with, starts_with};
use crate::pklp::action::{Action, ActionData, ActionType};
use crate::pklp::hand::PokerSite;
use crate::pklp::span::{ActionSpan, SpanLike, MAX_SPAN_BEGIN, MAX_SPAN_SIZE};

verus! {

/// The part of a hand whose actions are being read.
#[derive(Debug, Clone, Copy, PartialEq, Eq, Structural)]
pub enum Stage {
    /// Before the cards are dealt.
    Header,
    /// After the cards are dealt, before the flop.
    PreFlop,
    /// On a street, and in the show-down.
    Street,
}

/// Whether `site` is one of the two that write the PokerStars format.
pub open spec fn is_pokerstars(site: PokerSite) -> bool {
    site == PokerSite::PokerStars || site == PokerSite::PokerStarsPluribus
}

/// Whether the line begins a new part of the hand, which ends a list of
/// actions.
pub open spec fn spec_is_section_line(site: PokerSite, line: Seq<u8>) -> bool {
    if site == PokerSite::OnGame {
        spec_starts_with(line, lit("---"))
    } else {
        spec_starts_with(line, lit("*** "))
    }
}

/// Whether the line begins the summary, which ends the streets.
pub open spec fn spec_is_summary_line(site: PokerSite, line: Seq<u8>) -> bool {
    if site == PokerSite::OnGame {
        line == lit("---")
    } else {
        spec_starts_with(line, lit("*** SU"))
    }
}

/// Whether the line begins a new part of the hand.
pub fn is_section_line(site: PokerSite, line: &[u8]) -> (b: bool)
    ensures
        b == spec_is_section_line(site, line@),
{
    if site == PokerSite::OnGame {
        starts_with(line, "---".as_bytes())
    } else {
        starts_with(line, "*** ".as_bytes())
    }
}

/// Whether the line begins the summary.
pub fn is_summary_line(site: PokerSite, line: &[u8]) -> (b: bool)
    ensures
        b == spec_is_summary_line(site, line@),
{
    if site == PokerSite::OnGame {
        equal(line, "---".as_bytes())
    } else {
        starts_with(line, "*** SU".as_bytes())
    }
}

impl State {
    /// An action on a street of a PokerStars hand: the ways to read the
    /// line, in the order they are tried.
    pub open spec fn pokerstars_street(self, currency: char) -> (State, Option<Action>) {
        let site = PokerSite::PokerStars;
        let r = self.fold_check_not_show(site);
        if r.1 is Some {
            r
        } else {
            let r = r.0.fold_show(site);
            if r.1 is Some {
                r
            } else {
                let r = r.0.join_leave_timeout(site);
                if r.1 is Some {
                    r
                } else {
                    let r = r.0.say();
                    if r.1 is Some {
                        r
                    } else {
                        let r = r.0.collected_pot(site, currency, false);
                        if r.1 is Some {
                            r
                        } else {
                            let r = r.0.uncalled_bet_returned(site, currency);
                            if r.1 is Some {
                                r
                            } else {
                                let r = r.0.bet_call_raise(site, currency);
                                if r.1 is Some {
                                    r
                                } else {
                                    let r = r.0.show_with_card_description();
                                    if r.1 is Some {
                                        r
                                    } else {
                                        let r = r.0.cashout(site, currency);
                                        if r.1 is Some {
                                            r
                                        } else {
                                            let r = r.0.join(site);
                                            if r.1 is Some {
                                                r
                                            } else {
                                                r.0.collected_pot(site, currency, true)
                                            }
                                        }
                                    }
                                }
                            }
                        }
                    }
                }
            }
        }
    }

    /// An action before the cards of a PokerStars hand are dealt.
    pub open spec fn pokerstars_header(self, currency: char) -> (State, Option<Action>) {
        let site = PokerSite::PokerStars;
        let r = self.blind(site, currency);
        if r.1 is Some {
            r
        } else {
            let r = r.0.join_leave_timeout(site);
            if r.1 is Some {
                r
            } else {
                let r = r.0.say();
                if r.1 is Some {
                    r
                } else {
                    r.0.join(site)
                }
            }
        }
    }

    /// An action on a street of a Pluribus hand: fewer ways to read a line
    /// than PokerStars has.
    pub open spec fn pluribus_street(self, currency: char) -> (State, Option<Action>) {
        let site = PokerSite::PokerStarsPluribus;
        let r = self.fold_check_not_show(site);
        if r.1 is Some {
            r
        } else {
            let r = r.0.fold_show(site);
            if r.1 is Some {
                r
            } else {
                let r = r.0.collected_pot(site, currency, false);
                if r.1 is Some {
                    r
                } else {
                    let r = r.0.uncalled_bet_returned(site, currency);
                    if r.1 is Some {
                        r
                    } else {
                        let r = r.0.bet_call_raise(site, currency);
                        if r.1 is Some {
                            r
                        } else {
                            r.0.collected_pot(site, currency, true)
                        }
                    }
                }
            }
        }
    }

    /// An action on a street of an OnGame hand.
    pub open spec fn ongame_street(self, currency: char) -> (State, Option<Action>) {
        let site = PokerSite::OnGame;
        let r = self.suffix_action(
            site,
            ActionType::Fold,
            lit("ds"),
            lit(" folds"),
            ActionData::spec_invalid(),
        );
        if r.1 is Some {
            r
        } else {
            let r = r.0.suffix_action(
                site,
                ActionType::Check,
                lit("ks"),
                lit(" checks"),
                ActionData::spec_invalid(),
            );
            if r.1 is Some {
                r
            } else {
                r.0.ongame_bet_call_raise(currency)
            }
        }
    }

    /// A blind or an ante that a player posts, as the site writes it.
    pub open spec fn posted_blind(self, site: PokerSite, currency: char) -> (State, Option<Action>) {
        if site == PokerSite::OnGame {
            self.ongame_blind(currency)
        } else {
            self.blind(site, currency)
        }
    }

    /// The action that the line holds, for the site and the stage. Sites
    /// other than the three that are read have no actions.
    pub open spec fn action(self, site: PokerSite, stage: Stage, currency: char) -> (
        State,
        Option<Action>,
    ) {
        match site {
            PokerSite::PokerStars => match stage {
                Stage::Header => self.pokerstars_header(currency),
                _ => self.pokerstars_street(currency),
            },
            PokerSite::PokerStarsPluribus => match stage {
                Stage::Header => self.blind(site, currency),
                Stage::PreFlop => if spec_starts_with(self.line, lit("Dealt to ")) {
                    self.dealt_to(site)
                } else {
                    self.pluribus_street(currency)
                },
                Stage::Street => self.pluribus_street(currency),
            },
            PokerSite::OnGame => match stage {
                Stage::Header => self.ongame_blind(currency),
                _ => self.ongame_street(currency),
            },
            _ => (self, None),
        }
    }
}

fn pokerstars_street(p: &mut Parser, currency: char) -> (a: Option<Action>)
    requires
        old(p).wf(),
    ensures
        final(p).wf(),
        final(p).data == old(p).data,
        final(p)@.hands.keeps_rows(old(p)@.hands),
        a matches Some(act) ==> final(p)@.hands.action_ok(final(p)@.src_offset, act),
        final(p)@.hands.grows_from(old(p)@.hands),
        final(p)@.same_hand(old(p)@),
        (final(p)@, a) == old(p)@.pokerstars_street(currency),
        final(p)@.cursor() == old(p)@.cursor(),
{
    let site = PokerSite::PokerStars;
    if let Some(a) = fold_check_not_show(p, site) {
        return Some(a);
    }
    if let Some(a) = parse_action_fold_show(p, site) {
        return Some(a);
    }
    if let Some(a) = join_leave_timeout(p, site) {
        return Some(a);
    }
    if let Some(a) = parse_action_say(p) {
        return Some(a);
    }
    if let Some(a) = parse_action_collected_pot(p, site, currency, false) {
        return Some(a);
    }
    if let Some(a) = parse_action_uncalled_bet_returned(p, site, currency) {
        return Some(a);
    }
    if let Some(a) = parse_action_bet_call_raise(p, site, currency) {
        return Some(a);
    }
    if let Some(a) = parse_action_show_with_card_description(p) {
        return Some(a);
    }
    if let Some(a) = parse_action_cashout(p, site, currency) {
        return Some(a);
    }
    if let Some(a) = parse_action_join(p, site) {
        return Some(a);
    }
    parse_action_collected_pot(p, site, currency, true)
}

fn pokerstars_header(p: &mut Parser, currency: char) -> (a: Option<Action>)
    requires
        old(p).wf(),
    ensures
        final(p).wf(),
        final(p).data == old(p).data,
        final(p)@.hands.keeps_rows(old(p)@.hands),
        a matches Some(act) ==> final(p)@.hands.action_ok(final(p)@.src_offset, act),
        final(p)@.hands.grows_from(old(p)@.hands),
        final(p)@.same_hand(old(p)@),
        (final(p)@, a) == old(p)@.pokerstars_header(currency),
        final(p)@.cursor() == old(p)@.cursor(),
{
    let site = PokerSite::PokerStars;
    if let Some(a) = parse_action_blind(p, site, currency) {
        return Some(a);
    }
    if let Some(a) = join_leave_timeout(p, site) {
        return Some(a);
    }
    if let Some(a) = parse_action_say(p) {
        return Some(a);
    }
    parse_action_join(p, site)
}

fn pluribus_street(p: &mut Parser, currency: char) -> (a: Option<Action>)
    requires
        old(p).wf(),
    ensures
        final(p).wf(),
        final(p).data == old(p).data,
        final(p)@.hands.keeps_rows(old(p)@.hands),
        a matches Some(act) ==> final(p)@.hands.action_ok(final(p)@.src_offset, act),
        final(p)@.hands.grows_from(old(p)@.hands),
        final(p)@.same_hand(old(p)@),
        (final(p)@, a) == old(p)@.pluribus_street(currency),
        final(p)@.cursor() == old(p)@.cursor(),
{
    let site = PokerSite::PokerStarsPluribus;
    if let Some(a) = fold_check_not_show(p, site) {
        return Some(a);
    }
    if let Some(a) = parse_action_fold_show(p, site) {
        return Some(a);
    }
    if let Some(a) = parse_action_collected_pot(p, site, currency, false) {
        return Some(a);
    }
    if let Some(a) = parse_action_uncalled_bet_returned(p, site, currency) {
        return Some(a);
    }
    if let Some(a) = parse_action_bet_call_raise(p, site, currency) {
        return Some(a);
    }
    parse_action_collected_pot(p, site, currency, true)
}

fn ongame_street(p: &mut Parser, currency: char) -> (a: Option<Action>)
    requires
        old(p).wf(),
    ensures
        final(p).wf(),
        final(p).data == old(p).data,
        final(p)@.hands.keeps_rows(old(p)@.hands),
        a matches Some(act) ==> final(p)@.hands.action_ok(final(p)@.src_offset, act),
        final(p)@.hands.grows_from(old(p)@.hands),
        final(p)@.same_hand(old(p)@),
        (final(p)@, a) == old(p)@.ongame_street(currency),
        final(p)@.cursor() == old(p)@.cursor(),
{
    let site = PokerSite::OnGame;
    if let Some(a) = suffix_action(
        p,
        site,
        ActionType::Fold,
        "ds".as_bytes(),
        " folds".as_bytes(),
        ActionData::invalid(),
    ) {
        return Some(a);
    }
    if let Some(a) = suffix_action(
        p,
        site,
        ActionType::Check,
        "ks".as_bytes(),
        " checks".as_bytes(),
        ActionData::invalid(),
    ) {
        return Some(a);
    }
    ongame::parse_action_bet_call_raise(p, currency)
}

/// Reads the action that the line holds.
pub fn parse_action(p: &mut Parser, site: PokerSite, stage: Stage, currency: char) -> (a: Option<
    Action,
>)
    requires
        old(p).wf(),
    ensures
        final(p).wf(),
        final(p).data == old(p).data,
        final(p)@.hands.keeps_rows(old(p)@.hands),
        a matches Some(act) ==> final(p)@.hands.action_ok(final(p)@.src_offset, act),
        final(p)@.hands.grows_from(old(p)@.hands),
        final(p)@.same_hand(old(p)@),
        (final(p)@, a) == old(p)@.action(site, stage, currency),
        final(p)@.cursor() == old(p)@.cursor(),
{
    match site {
        PokerSite::PokerStars => match stage {
            Stage::Header => pokerstars_header(p, currency),
            _ => pokerstars_street(p, currency),
        },
        PokerSite::PokerStarsPluribus => match stage {
            Stage::Header => parse_action_blind(p, site, currency),
            Stage::PreFlop => {
                if starts_with(p.line, "Dealt to ".as_bytes()) {
                    parse_action_dealt_to(p, site)
                } else {
                    pluribus_street(p, currency)
                }
            },
            Stage::Street => pluribus_street(p, currency),
        },
        PokerSite::OnGame => match stage {
            Stage::Header => ongame::parse_action_blind(p, currency),
            _ => ongame_street(p, currency),
        },
        _ => None,
    }
}

/// Reading an action never moves the cursor.
pub proof fn lemma_action_keeps_cursor(s: State, site: PokerSite, stage: Stage, currency: char)
    ensures
        s.action(site, stage, currency).0.cursor() == s.cursor(),
{
    match site {
        PokerSite::PokerStars => {
            let ps = PokerSite::PokerStars;
            if stage == Stage::Header {
                let r1 = s.blind(ps, currency);
                crate::parsers::pokerstars::lemma_actions_keep_cursor(s, ps, currency);
                let r2 = r1.0.join_leave_timeout(ps);
                crate::parsers::pokerstars::lemma_actions_keep_cursor(r1.0, ps, currency);
                let r3 = r2.0.say();
                crate::parsers::pokerstars::lemma_actions_keep_cursor(r2.0, ps, currency);
                crate::parsers::pokerstars::lemma_actions_keep_cursor(r3.0, ps, currency);
            } else {
                let r1 = s.fold_check_not_show(ps);
                crate::parsers::pokerstars::lemma_actions_keep_cursor(s, ps, currency);
                let r2 = r1.0.fold_show(ps);
                crate::parsers::pokerstars::lemma_actions_keep_cursor(r1.0, ps, currency);
                let r3 = r2.0.join_leave_timeout(ps);
                crate::parsers::pokerstars::lemma_actions_keep_cursor(r2.0, ps, currency);
                let r4 = r3.0.say();
                crate::parsers::pokerstars::lemma_actions_keep_cursor(r3.0, ps, currency);
                let r5 = r4.0.collected_pot(ps, currency, false);
                crate::parsers::pokerstars::lemma_actions_keep_cursor(r4.0, ps, currency);
                let r6 = r5.0.uncalled_bet_returned(ps, currency);
                crate::parsers::pokerstars::lemma_actions_keep_cursor(r5.0, ps, currency);
                let r7 = r6.0.bet_call_raise(ps, currency);
                crate::parsers::pokerstars::lemma_actions_keep_cursor(r6.0, ps, currency);
                let r8 = r7.0.show_with_card_description();
                crate::parsers::pokerstars::lemma_actions_keep_cursor(r7.0, ps, currency);
                let r9 = r8.0.cashout(ps, currency);
                crate::parsers::pokerstars::lemma_actions_keep_cursor(r8.0, ps, currency);
                let r10 = r9.0.join(ps);
                crate::parsers::pokerstars::lemma_actions_keep_cursor(r9.0, ps, currency);
                crate::parsers::pokerstars::lemma_actions_keep_cursor(r10.0, ps, currency);
            }
        },
        PokerSite::PokerStarsPluribus => {
            let pl = PokerSite::PokerStarsPluribus;
            crate::parsers::pokerstars::lemma_actions_keep_cursor(s, pl, currency);
            let r1 = s.fold_check_not_show(pl);
            let r2 = r1.0.fold_show(pl);
            crate::parsers::pokerstars::lemma_actions_keep_cursor(r1.0, pl, currency);
            let r3 = r2.0.collected_pot(pl, currency, false);
            crate::parsers::pokerstars::lemma_actions_keep_cursor(r2.0, pl, currency);
            let r4 = r3.0.uncalled_bet_returned(pl, currency);
            crate::parsers::pokerstars::lemma_actions_keep_cursor(r3.0, pl, currency);
            let r5 = r4.0.bet_call_raise(pl, currency);
            crate::parsers::pokerstars::lemma_actions_keep_cursor(r4.0, pl, currency);
            crate::parsers::pokerstars::lemma_actions_keep_cursor(r5.0, pl, currency);
        },
        PokerSite::OnGame => {
            let og = PokerSite::OnGame;
            crate::parsers::ongame::lemma_actions_keep_cursor(s, currency);
            crate::parsers::pokerstars::lemma_suffix_keeps_cursor(s, og);
            let r1 = s.suffix_action(
                og,
                ActionType::Fold,
                lit("ds"),
                lit(" folds"),
                ActionData::spec_invalid(),
            );
            crate::parsers::pokerstars::lemma_suffix_keeps_cursor(r1.0, og);
            let r2 = r1.0.suffix_action(
                og,
                ActionType::Check,
                lit("ks"),
                lit(" checks"),
                ActionData::spec_invalid(),
            );
            crate::parsers::ongame::lemma_actions_keep_cursor(r2.0, currency);
        },
        _ => {},
    }
}

impl State {
    /// The actions from the cursor on, up to the line that begins the next
    /// part of the hand: each goes to the actions column and the cursor
    /// moves past its line. The result is the range from `begin` to the end
    /// of the column. Nothing is returned where the text ends first, where
    /// a line holds no action, or where the range outgrows a span.
    pub open spec fn action_list_from(
        self,
        site: PokerSite,
        stage: Stage,
        currency: char,
        begin: int,
    ) -> (State, Option<ActionSpan>)
        decreases self.remaining(),
        when self.lines.wf()
    {
        if self.at_end {
            (self, None)
        } else if spec_is_section_line(site, self.line) {
            if self.hands.actions.len() - begin > MAX_SPAN_SIZE {
                (self, None)
            } else {
                (self, Some(ActionSpan::spec_new(begin, self.hands.actions.len() - begin)))
            }
        } else {
            let (read, action) = self.action(site, stage, currency);
            match action {
                None => (read, None),
                Some(action) => {
                    proof {
                        lemma_action_keeps_cursor(self, site, stage, currency);
                        self.lines.lemma_next();
                    }
                    read.advance().push_action(action).action_list_from(
                        site,
                        stage,
                        currency,
                        begin,
                    )
                },
            }
        }
    }

    /// The actions from the cursor on, as a range that begins at the end of
    /// the actions column.
    pub open spec fn action_list(self, site: PokerSite, stage: Stage, currency: char) -> (
        State,
        Option<ActionSpan>,
    ) {
        if self.hands.actions.len() > MAX_SPAN_BEGIN {
            (self, None)
        } else {
            self.action_list_from(site, stage, currency, self.hands.actions.len() as int)
        }
    }
}

/// Reads the actions of one stage of a hand.
pub fn parse_action_list(p: &mut Parser, site: PokerSite, stage: Stage, currency: char) -> (r:
    Option<ActionSpan>)
    requires
        old(p).wf(),
    ensures
        final(p).wf(),
        final(p).data == old(p).data,
        final(p)@.hands.grows_from(old(p)@.hands),
        final(p)@.same_hand(old(p)@),
        (final(p)@, r) == old(p)@.action_list(site, stage, currency),
        final(p)@.remaining() <= old(p)@.remaining(),
        r matches Some(span) ==> final(p)@.hands.actions_ok(final(p)@.src_offset, span),
        final(p)@.hands.flops == old(p)@.hands.flops,
        final(p)@.hands.turns == old(p)@.hands.turns,
        final(p)@.hands.rivers == old(p)@.hands.rivers,
        final(p)@.hands.showdowns == old(p)@.hands.showdowns,
{
    let begin = p.hands.actions.len();
    if begin as u64 > MAX_SPAN_BEGIN {
        return None;
    }
    loop
        invariant
            p.wf(),
            p.data == old(p).data,
            p@.hands.grows_from(old(p)@.hands),
            p@.same_hand(old(p)@),
            begin <= p@.hands.actions.len(),
            begin <= MAX_SPAN_BEGIN,
            p@.hands.flops == old(p)@.hands.flops,
            p@.hands.turns == old(p)@.hands.turns,
            p@.hands.rivers == old(p)@.hands.rivers,
            p@.hands.showdowns == old(p)@.hands.showdowns,
            forall|k: int|
                begin <= k < p@.hands.actions.len() ==> p@.hands.action_ok(
                    p@.src_offset,
                    #[trigger] p@.hands.actions[k],
                ),
            p@.remaining() <= old(p)@.remaining(),
            old(p)@.action_list(site, stage, currency) == p@.action_list_from(
                site,
                stage,
                currency,
                begin as int,
            ),
        decreases p@.remaining(),
    {
        if p.eof() {
            return None;
        }
        if is_section_line(site, p.line) {
            let size = p.hands.actions.len() - begin;
            if size as u64 > MAX_SPAN_SIZE {
                return None;
            }
            proof {
                ActionSpan::lemma_fields(begin as int, size as int);
            }
            return Some(ActionSpan::new(begin, size));
        }
        let ghost before = p@.hands;
        let action = match parse_action(p, site, stage, currency) {
            Some(action) => action,
            None => {
                return None;
            },
        };
        proof {
            assert forall|k: int| begin <= k < before.actions.len() implies p@.hands.action_ok(
                p@.src_offset,
                #[trigger] p@.hands.actions[k],
            ) by {
                assert(p@.hands.actions[k] == before.actions[k]);
                p@.hands.lemma_action_ok_grows(before, p@.src_offset, before.actions[k]);
            }
        }
        p.advance();
        p.push_action(action);
    }
}

} // verus!
