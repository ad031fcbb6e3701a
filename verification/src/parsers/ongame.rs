//! The OnGame format.

use vstd::prelude::*;
use crate::parsers::currency::{
    find_currency, opt_found, rfind_currency, spec_find_currency, spec_rfind_currency,
};
use crate::parsers::parser::{Parser, State};
use crate::parsers::pokerstars::{comma, uses_comma};
use crate::parsers::text::{ends_with_byte, head, lit};
use crate::pklp::action::{Action, ActionType};
use crate::pklp::hand::PokerSite;

verus! {

/// The parser of OnGame hands.
pub struct OnGame {}

impl State {
    /// `name posts small blind ($n)` or `name posts big blind ($n)`. The
    /// amount is the last in the line; the letter nine bytes before it
    /// tells the blind, and the name ends where the words before that
    /// letter begin.
    #[verifier::opaque]
    pub open spec fn ongame_blind(self, currency: char) -> (State, Option<Action>) {
        let line = self.line;
        match spec_rfind_currency(line, currency, uses_comma(PokerSite::OnGame)) {
            None => (self, None),
            Some((amount, (amount_begin, _))) => if amount_begin < lit("x blind (").len() {
                (self, None)
            } else {
                let cmd_end = amount_begin - lit("x blind (").len();
                let c = line[cmd_end];
                let words = if c == 0x6c {
                    Some((ActionType::SmallBlind, lit(" posts smal").len()))
                } else if c == 0x67 {
                    Some((ActionType::BigBlind, lit(" posts bi").len()))
                } else {
                    None
                };
                match words {
                    None => (self, None),
                    Some((kind, n)) => if cmd_end < n {
                        (self, None)
                    } else {
                        (self, self.action_num(kind, line.subrange(0, cmd_end - n), amount))
                    },
                }
            },
        }
    }

    /// `name bets $n`, `name calls $n`, `name raises $n to $m`, each
    /// perhaps followed by `[all in]`. The amount is the first in the line;
    /// the letter three bytes before it tells which, and the name ends
    /// where the word begins.
    #[verifier::opaque]
    pub open spec fn ongame_bet_call_raise(self, currency: char) -> (State, Option<Action>) {
        let line = self.line;
        let all_in = line.len() > 0 && line.last() == 0x5d;
        match spec_find_currency(line, currency, uses_comma(PokerSite::OnGame)) {
            None => (self, None),
            Some((amount, (amount_begin, _))) => if amount_begin < 3 {
                (self, None)
            } else {
                let c = line[amount_begin - 3];
                let words = if c == 0x74 {
                    Some((ActionType::Bet, ActionType::BetAllIn, lit(" bets ").len()))
                } else if c == 0x6c {
                    Some((ActionType::Call, ActionType::CallAllIn, lit(" calls ").len()))
                } else if c == 0x65 {
                    Some((ActionType::Raise, ActionType::RaiseAllIn, lit(" raises ").len()))
                } else {
                    None
                };
                match words {
                    None => (self, None),
                    Some((kind, kind_all_in, n)) => if amount_begin < n {
                        (self, None)
                    } else {
                        (
                            self,
                            self.action_num(
                                if all_in {
                                    kind_all_in
                                } else {
                                    kind
                                },
                                line.subrange(0, amount_begin - n),
                                amount,
                            ),
                        )
                    },
                }
            },
        }
    }
}

/// Reads a line about a player who posts a blind.
pub fn parse_action_blind(p: &mut Parser, currency: char) -> (a: Option<Action>)
    requires
        old(p).wf(),
    ensures
        final(p).wf(),
        final(p).data == old(p).data,
        final(p)@.hands.keeps_rows(old(p)@.hands),
        a matches Some(act) ==> final(p)@.hands.action_ok(final(p)@.src_offset, act),
        final(p)@.hands.grows_from(old(p)@.hands),
        final(p)@.same_hand(old(p)@),
        final(p)@.cursor() == old(p)@.cursor(),
        (final(p)@, a) == old(p)@.ongame_blind(currency),
        final(p)@ == old(p)@,
{
    reveal(State::ongame_blind);
    let line = p.line;
    let (amount, amount_begin) = match rfind_currency(line, currency, comma(PokerSite::OnGame)) {
        Some((amount, (amount_begin, _))) => (amount, amount_begin),
        None => {
            return None;
        },
    };
    let n9 = "x blind (".as_bytes().len();
    if amount_begin < n9 {
        return None;
    }
    let cmd_end = amount_begin - n9;
    let c = line[cmd_end];
    let (kind, n) = if c == 0x6c {
        (ActionType::SmallBlind, " posts smal".as_bytes().len())
    } else if c == 0x67 {
        (ActionType::BigBlind, " posts bi".as_bytes().len())
    } else {
        return None;
    };
    if cmd_end < n {
        return None;
    }
    p.action_num(kind, head(line, cmd_end - n), amount)
}

/// Reads a bet, a call or a raise.
pub fn parse_action_bet_call_raise(p: &mut Parser, currency: char) -> (a: Option<Action>)
    requires
        old(p).wf(),
    ensures
        final(p).wf(),
        final(p).data == old(p).data,
        final(p)@.hands.keeps_rows(old(p)@.hands),
        a matches Some(act) ==> final(p)@.hands.action_ok(final(p)@.src_offset, act),
        final(p)@.hands.grows_from(old(p)@.hands),
        final(p)@.same_hand(old(p)@),
        final(p)@.cursor() == old(p)@.cursor(),
        (final(p)@, a) == old(p)@.ongame_bet_call_raise(currency),
        final(p)@ == old(p)@,
{
    reveal(State::ongame_bet_call_raise);
    let line = p.line;
    let all_in = ends_with_byte(line, 0x5d);
    let (amount, amount_begin) = match find_currency(line, currency, comma(PokerSite::OnGame)) {
        Some((amount, (amount_begin, _))) => (amount, amount_begin),
        None => {
            return None;
        },
    };
    if amount_begin < 3 {
        return None;
    }
    let c = line[amount_begin - 3];
    let (kind, kind_all_in, n) = if c == 0x74 {
        (ActionType::Bet, ActionType::BetAllIn, " bets ".as_bytes().len())
    } else if c == 0x6c {
        (ActionType::Call, ActionType::CallAllIn, " calls ".as_bytes().len())
    } else if c == 0x65 {
        (ActionType::Raise, ActionType::RaiseAllIn, " raises ".as_bytes().len())
    } else {
        return None;
    };
    if amount_begin < n {
        return None;
    }
    p.action_num(
        if all_in {
            kind_all_in
        } else {
            kind
        },
        head(line, amount_begin - n),
        amount,
    )
}

/// Reading an action never moves the cursor.
pub proof fn lemma_actions_keep_cursor(s: State, currency: char)
    ensures
        s.ongame_blind(currency).0.cursor() == s.cursor(),
        s.ongame_bet_call_raise(currency).0.cursor() == s.cursor(),
{
    reveal(State::ongame_blind);
    reveal(State::ongame_bet_call_raise);
}

} // verus!
