//! One parser per site, all with the same stages.
//!
//! A hand is read in five stages: header, what lies before the flop,
//! streets, summary, and, after a hand that could not be read, the way to
//! the next. Each site is a type that offers them; what the sites share is
//! written once and told apart by the site's tag.

use vstd::prelude::*;
use crate::parsers::currency;
use crate::parsers::currency::{
    opt_amount, opt_found, spec_extract_currency, spec_find_currency, spec_rfind_currency,
};
use crate::parsers::hands;
use crate::parsers::header;
use crate::parsers::number;
use crate::parsers::number::{
    spec_extract_float, spec_extract_integer, spec_parse_float, spec_parse_integer,
};
use crate::parsers::ongame::OnGame;
use crate::parsers::parser::{Parser, State};
use crate::parsers::pokerstars;
use crate::parsers::pokerstars::{
    spec_trim_player_name, uses_comma, PokerStars, PokerStarsPluribus,
};
use crate::parsers::stages;
use crate::parsers::stages::{spec_is_section_line, spec_is_summary_line, Stage};
use crate::parsers::streets;
use crate::parsers::summary;
use crate::parsers::text::opt_int;
use crate::pklp::action::Action;
use crate::pklp::cards::Cards;
use crate::pklp::hand::{Hand, Header, PokerSite, PotInfo, Street, StreetArray, StreetType, Summary};
use crate::pklp::number::Number;
use crate::pklp::span::{ActionSpan, SpanLike, WinnerSpan};

verus! {

/// A site whose hands are read.
pub trait Dialect {
    /// The site's tag.
    spec fn site() -> PokerSite;

    fn tag() -> (site: PokerSite)
        ensures
            site == Self::site(),
    ;
}

/// How the site names a player.
pub trait ParseTrimPlayerName: Dialect {
    /// A player's name as the site's hands know it.
    fn trim_player_name(name: &[u8]) -> (r: &[u8])
        ensures
            r@ == spec_trim_player_name(Self::site(), name@),
    ;
}

/// How the site writes numbers.
pub trait ParseNumber: Dialect {
    /// The length of the integer that `input` begins with.
    fn extract_integer(input: &[u8]) -> (r: Option<usize>)
        ensures
            opt_int(r) == spec_extract_integer(input@, uses_comma(Self::site())),
    ;

    /// The integer that `input` begins with, and its length.
    fn parse_integer(input: &[u8]) -> (r: Option<(u64, usize)>)
        ensures
            match r {
                Some((v, i)) => spec_parse_integer(input@, uses_comma(Self::site())) == Some(
                    (v, i as int),
                ),
                None => spec_parse_integer(input@, uses_comma(Self::site())) is None,
            },
    ;

    /// The length of the number that `input` begins with.
    fn extract_float(input: &[u8]) -> (r: Option<usize>)
        ensures
            opt_int(r) == spec_extract_float(input@, uses_comma(Self::site())),
    ;

    /// The amount that `input` begins with, and its length.
    fn parse_float(input: &[u8]) -> (r: Option<(Number, usize)>)
        ensures
            match r {
                Some((v, i)) => spec_parse_float(input@, uses_comma(Self::site())) == Some(
                    (v, i as int),
                ),
                None => spec_parse_float(input@, uses_comma(Self::site())) is None,
            },
    ;
}

/// How the site writes amounts of money.
pub trait ParseCurrency: ParseNumber {
    /// The amount that follows a symbol standing at `currency_begin`.
    fn extract_currency(input: &[u8], currency: char, currency_begin: usize) -> (r: Option<(Number, usize)>)
        ensures
            opt_amount(r) == spec_extract_currency(
                input@,
                currency,
                currency_begin as int,
                uses_comma(Self::site()),
            ),
    ;

    /// The amount after the first symbol of `currency`.
    fn find_currency(input: &[u8], currency: char) -> (r: Option<(Number, (usize, usize))>)
        ensures
            opt_found(r) == spec_find_currency(input@, currency, uses_comma(Self::site())),
    ;

    /// The amount after the last symbol of `currency`.
    fn rfind_currency(input: &[u8], currency: char) -> (r: Option<(Number, (usize, usize))>)
        ensures
            opt_found(r) == spec_rfind_currency(input@, currency, uses_comma(Self::site())),
    ;
}

/// The actions before the cards are dealt.
pub trait ParseActionHeader: Dialect {
    /// Reads an action that comes before the cards are dealt.
    fn parse_action_header(p: &mut Parser, currency: char) -> (a: Option<Action>)
        requires
            old(p).wf(),
        ensures
            final(p).wf(),
            final(p).data == old(p).data,
            final(p)@.hands.grows_from(old(p)@.hands),
            final(p)@.same_hand(old(p)@),
            (final(p)@, a) == old(p)@.action(Self::site(), Stage::Header, currency),
            final(p)@.cursor() == old(p)@.cursor(),
    ;
}

/// The actions before the flop.
pub trait ParseActionPreFlop: Dialect {
    /// Reads an action that comes before the flop.
    fn parse_action_preflop(p: &mut Parser, currency: char) -> (a: Option<Action>)
        requires
            old(p).wf(),
        ensures
            final(p).wf(),
            final(p).data == old(p).data,
            final(p)@.hands.grows_from(old(p)@.hands),
            final(p)@.same_hand(old(p)@),
            (final(p)@, a) == old(p)@.action(Self::site(), Stage::PreFlop, currency),
            final(p)@.cursor() == old(p)@.cursor(),
    ;
}

/// The actions on a street.
pub trait ParseActionStreet: Dialect {
    /// Reads an action on a street.
    fn parse_action_street(p: &mut Parser, currency: char) -> (a: Option<Action>)
        requires
            old(p).wf(),
        ensures
            final(p).wf(),
            final(p).data == old(p).data,
            final(p)@.hands.grows_from(old(p)@.hands),
            final(p)@.same_hand(old(p)@),
            (final(p)@, a) == old(p)@.action(Self::site(), Stage::Street, currency),
            final(p)@.cursor() == old(p)@.cursor(),
    ;
}

/// Every action of a hand.
pub trait ParseAction: ParseActionHeader + ParseActionPreFlop + ParseActionStreet {
}

/// The lists of actions that make up a stage.
pub trait ParseActionList: ParseAction {
    /// Whether the line begins a new part of the hand.
    fn is_section_line(line: &[u8]) -> (b: bool)
        ensures
            b == spec_is_section_line(Self::site(), line@),
    ;

    /// Reads the actions before the cards are dealt.
    fn parse_action_list_header(p: &mut Parser, currency: char) -> (r: Option<ActionSpan>)
        requires
            old(p).wf(),
        ensures
            final(p).wf(),
            final(p).data == old(p).data,
            final(p)@.hands.grows_from(old(p)@.hands),
            final(p)@.same_hand(old(p)@),
            (final(p)@, r) == old(p)@.action_list(Self::site(), Stage::Header, currency),
            final(p)@.remaining() <= old(p)@.remaining(),
            r matches Some(span) ==> final(p)@.hands.actions_ok(final(p)@.src_offset, span),
    ;

    /// Reads the actions before the flop.
    fn parse_action_list_preflop(p: &mut Parser, currency: char) -> (r: Option<ActionSpan>)
        requires
            old(p).wf(),
        ensures
            final(p).wf(),
            final(p).data == old(p).data,
            final(p)@.hands.grows_from(old(p)@.hands),
            final(p)@.same_hand(old(p)@),
            (final(p)@, r) == old(p)@.action_list(Self::site(), Stage::PreFlop, currency),
            final(p)@.remaining() <= old(p)@.remaining(),
    ;

    /// Reads the actions of a street.
    fn parse_action_list_street(p: &mut Parser, currency: char) -> (r: Option<ActionSpan>)
        requires
            old(p).wf(),
        ensures
            final(p).wf(),
            final(p).data == old(p).data,
            final(p)@.hands.grows_from(old(p)@.hands),
            final(p)@.same_hand(old(p)@),
            (final(p)@, r) == old(p)@.action_list(Self::site(), Stage::Street, currency),
            final(p)@.remaining() <= old(p)@.remaining(),
    ;
}

/// The line that opens a street.
pub trait ParseStreet: Dialect {
    /// Whether the line begins the summary.
    fn is_summary_line(line: &[u8]) -> (b: bool)
        ensures
            b == spec_is_summary_line(Self::site(), line@),
    ;

    /// Reads the line that opens a street.
    fn parse_street_header(p: &mut Parser) -> (r: Option<(StreetType, Cards)>)
        requires
            old(p).wf(),
        ensures
            final(p).wf(),
            final(p).data == old(p).data,
            final(p)@.hands.grows_from(old(p)@.hands),
            final(p)@.same_hand(old(p)@),
            (final(p)@, r) == old(p)@.street_header(Self::site()),
    ;
}

/// The way from a hand that could not be read to the next.
pub trait ParseSync: Dialect {
    /// Passes the lines up to where the next hand may begin.
    fn parse_sync(p: &mut Parser)
        requires
            old(p).wf(),
        ensures
            final(p).wf(),
            final(p).data == old(p).data,
            final(p)@.hands.grows_from(old(p)@.hands),
            final(p)@.same_hand(old(p)@),
            final(p)@ == old(p)@.sync(Self::site()),
            final(p)@.remaining() <= old(p)@.remaining(),
    ;
}

/// The header of a hand.
pub trait ParseHeader: Dialect {
    /// Reads the header of a hand.
    fn parse_header(p: &mut Parser) -> (r: Option<Header>)
        requires
            old(p).wf(),
        ensures
            final(p).wf(),
            final(p).data == old(p).data,
            final(p)@.hands.grows_from(old(p)@.hands),
            final(p)@.same_hand(old(p)@),
            (final(p)@, r) == old(p)@.header(Self::site()),
            final(p)@.remaining() <= old(p)@.remaining(),
            !old(p)@.at_end ==> final(p)@.remaining() < old(p)@.remaining(),
    ;
}

/// What lies between the header and the first street.
pub trait ParsePreFlop: Dialect {
    /// Reads what lies between the header and the first street.
    fn parse_preflop(p: &mut Parser, currency: char) -> (r: Option<Street>)
        requires
            old(p).wf(),
        ensures
            final(p).wf(),
            final(p).data == old(p).data,
            final(p)@.hands.grows_from(old(p)@.hands),
            final(p)@.same_hand(old(p)@),
            (final(p)@, r) == old(p)@.preflop(Self::site(), currency),
            final(p)@.remaining() <= old(p)@.remaining(),
    ;
}

/// The streets of a hand.
pub trait ParseStreets: Dialect {
    /// Reads the streets of a hand.
    fn parse_streets(p: &mut Parser, currency: char) -> (r: Option<StreetArray>)
        requires
            old(p).wf(),
        ensures
            final(p).wf(),
            final(p).data == old(p).data,
            final(p)@.hands.grows_from(old(p)@.hands),
            final(p)@.same_hand(old(p)@),
            (final(p)@, r) == old(p)@.streets(Self::site(), currency),
            final(p)@.remaining() <= old(p)@.remaining(),
    ;
}

/// The summary of a hand.
pub trait ParseSummary: Dialect {
    /// Reads the summary of a hand.
    fn parse_summary(p: &mut Parser, currency: char) -> (r: Option<Summary>)
        requires
            old(p).wf(),
        ensures
            final(p).wf(),
            final(p).data == old(p).data,
            final(p)@.hands.grows_from(old(p)@.hands),
            final(p)@.same_hand(old(p)@),
            (final(p)@, r) == old(p)@.summary(Self::site(), currency),
            final(p)@.remaining() <= old(p)@.remaining(),
    ;
}

/// A whole hand, and a whole text.
pub trait Parse: ParseHeader + ParsePreFlop + ParseStreets + ParseSummary + ParseSync {
    /// Reads the whole text.
    fn parse(p: &mut Parser)
        requires
            old(p).wf(),
        ensures
            final(p).wf(),
            final(p).data == old(p).data,
            final(p)@.hands.grows_from(old(p)@.hands),
            final(p)@ == old(p)@.parse(Self::site()),
            final(p)@.at_end,
            old(p)@.hands.wf() ==> final(p)@.hands.wf(),
            final(p)@.hands.hands.len() == old(p)@.hands.hands.len() + old(p)@.hand_starts(
                Self::site(),
            ).len(),
            final(p)@.hands.reads_back(
                old(p)@.hands.hands.len() as int,
                old(p)@.hand_starts(Self::site()),
                Self::site(),
            ),
    ;

    /// Reads one hand.
    fn parse_hand(p: &mut Parser) -> (r: Option<Hand>)
        requires
            old(p).wf(),
        ensures
            final(p).wf(),
            final(p).data == old(p).data,
            final(p)@.hands.grows_from(old(p)@.hands),
            (final(p)@, r) == old(p)@.hand(Self::site()),
            final(p)@.remaining() <= old(p)@.remaining(),
            !old(p)@.at_end ==> final(p)@.remaining() < old(p)@.remaining(),
            r matches Some(hand) ==> final(p)@.hands.hand_ok(hand),
            r matches Some(hand) ==> final(p)@.hands.says_literals(
                old(p)@.cursor(),
                Self::site(),
                hand.header,
                hand.header.players.spec_begin(),
            ),
    ;
}

/// The parts of a summary as PokerStars writes it.
pub trait ParseSummaryPokerStars: Dialect {
    /// Reads the line of the pots and passes the lines about the boards.
    fn parse_summary_pots(p: &mut Parser, currency: char) -> (r: Option<PotInfo>)
        requires
            old(p).wf(),
        ensures
            final(p).wf(),
            final(p).data == old(p).data,
            final(p)@.hands.grows_from(old(p)@.hands),
            (final(p)@, r) == old(p)@.summary_pots(Self::site(), currency),
            final(p)@.remaining() <= old(p)@.remaining(),
    ;

    /// Reads the results of the seats.
    fn parse_summary_actions_winners(p: &mut Parser, currency: char) -> (r: Option<(ActionSpan, WinnerSpan)>)
        requires
            old(p).wf(),
        ensures
            final(p).wf(),
            final(p).data == old(p).data,
            final(p)@.hands.grows_from(old(p)@.hands),
            (final(p)@, r) == old(p)@.summary_results(Self::site(), currency),
            final(p)@.remaining() <= old(p)@.remaining(),
    ;
}

/// A site that writes thousands separators in its numbers.
pub trait ParseNumberWithComma {
}

/// A site whose only actions before the cards are dealt are blinds.
pub trait ParseActionHeaderBlindOnly {
}

/// A site that tells which cards each player was dealt.
pub trait ParsePreFlopDealtTo {
}

/// A site that writes nothing but actions before the flop.
pub trait ParsePreFlopActionsOnly {
}

impl Dialect for PokerStars {
    open spec fn site() -> PokerSite {
        PokerSite::PokerStars
    }

    fn tag() -> (site: PokerSite) {
        PokerSite::PokerStars
    }
}

impl ParseTrimPlayerName for PokerStars {
    fn trim_player_name(name: &[u8]) -> (r: &[u8]) {
        pokerstars::trim_player_name(Self::tag(), name)
    }
}

impl ParseNumber for PokerStars {
    fn extract_integer(input: &[u8]) -> (r: Option<usize>) {
        number::extract_integer(input, pokerstars::comma(Self::tag()))
    }

    fn parse_integer(input: &[u8]) -> (r: Option<(u64, usize)>) {
        number::parse_integer(input, pokerstars::comma(Self::tag()))
    }

    fn extract_float(input: &[u8]) -> (r: Option<usize>) {
        number::extract_float(input, pokerstars::comma(Self::tag()))
    }

    fn parse_float(input: &[u8]) -> (r: Option<(Number, usize)>) {
        number::parse_float(input, pokerstars::comma(Self::tag()))
    }
}

impl ParseCurrency for PokerStars {
    fn extract_currency(input: &[u8], currency: char, currency_begin: usize) -> (r: Option<(Number, usize)>) {
        currency::extract_currency(input, currency, currency_begin, pokerstars::comma(Self::tag()))
    }

    fn find_currency(input: &[u8], currency: char) -> (r: Option<(Number, (usize, usize))>) {
        currency::find_currency(input, currency, pokerstars::comma(Self::tag()))
    }

    fn rfind_currency(input: &[u8], currency: char) -> (r: Option<(Number, (usize, usize))>) {
        currency::rfind_currency(input, currency, pokerstars::comma(Self::tag()))
    }
}

impl ParseActionHeader for PokerStars {
    fn parse_action_header(p: &mut Parser, currency: char) -> (a: Option<Action>) {
        stages::parse_action(p, Self::tag(), Stage::Header, currency)
    }
}

impl ParseActionPreFlop for PokerStars {
    fn parse_action_preflop(p: &mut Parser, currency: char) -> (a: Option<Action>) {
        stages::parse_action(p, Self::tag(), Stage::PreFlop, currency)
    }
}

impl ParseActionStreet for PokerStars {
    fn parse_action_street(p: &mut Parser, currency: char) -> (a: Option<Action>) {
        stages::parse_action(p, Self::tag(), Stage::Street, currency)
    }
}

impl ParseAction for PokerStars {
}

impl ParseActionList for PokerStars {
    fn is_section_line(line: &[u8]) -> (b: bool) {
        stages::is_section_line(Self::tag(), line)
    }

    fn parse_action_list_header(p: &mut Parser, currency: char) -> (r: Option<ActionSpan>) {
        stages::parse_action_list(p, Self::tag(), Stage::Header, currency)
    }

    fn parse_action_list_preflop(p: &mut Parser, currency: char) -> (r: Option<ActionSpan>) {
        stages::parse_action_list(p, Self::tag(), Stage::PreFlop, currency)
    }

    fn parse_action_list_street(p: &mut Parser, currency: char) -> (r: Option<ActionSpan>) {
        stages::parse_action_list(p, Self::tag(), Stage::Street, currency)
    }
}

impl ParseStreet for PokerStars {
    fn is_summary_line(line: &[u8]) -> (b: bool) {
        stages::is_summary_line(Self::tag(), line)
    }

    fn parse_street_header(p: &mut Parser) -> (r: Option<(StreetType, Cards)>) {
        streets::parse_street_header(p, Self::tag())
    }
}

impl ParseSync for PokerStars {
    fn parse_sync(p: &mut Parser) {
        hands::parse_sync(p, Self::tag())
    }
}

impl ParseHeader for PokerStars {
    fn parse_header(p: &mut Parser) -> (r: Option<Header>) {
        header::parse_header(p, Self::tag())
    }
}

impl ParsePreFlop for PokerStars {
    fn parse_preflop(p: &mut Parser, currency: char) -> (r: Option<Street>) {
        streets::parse_preflop(p, Self::tag(), currency)
    }
}

impl ParseStreets for PokerStars {
    fn parse_streets(p: &mut Parser, currency: char) -> (r: Option<StreetArray>) {
        streets::parse_streets(p, Self::tag(), currency)
    }
}

impl ParseSummary for PokerStars {
    fn parse_summary(p: &mut Parser, currency: char) -> (r: Option<Summary>) {
        summary::parse_summary(p, Self::tag(), currency)
    }
}

impl Parse for PokerStars {
    fn parse(p: &mut Parser) {
        hands::parse(p, Self::tag())
    }

    fn parse_hand(p: &mut Parser) -> (r: Option<Hand>) {
        hands::parse_hand(p, Self::tag())
    }
}

impl ParseSummaryPokerStars for PokerStars {
    fn parse_summary_pots(p: &mut Parser, currency: char) -> (r: Option<PotInfo>) {
        summary::parse_summary_pots(p, Self::tag(), currency)
    }

    fn parse_summary_actions_winners(p: &mut Parser, currency: char) -> (r: Option<(ActionSpan, WinnerSpan)>) {
        summary::parse_summary_actions_winners(p, Self::tag(), currency)
    }
}

impl Dialect for PokerStarsPluribus {
    open spec fn site() -> PokerSite {
        PokerSite::PokerStarsPluribus
    }

    fn tag() -> (site: PokerSite) {
        PokerSite::PokerStarsPluribus
    }
}

impl ParseTrimPlayerName for PokerStarsPluribus {
    fn trim_player_name(name: &[u8]) -> (r: &[u8]) {
        pokerstars::trim_player_name(Self::tag(), name)
    }
}

impl ParseNumber for PokerStarsPluribus {
    fn extract_integer(input: &[u8]) -> (r: Option<usize>) {
        number::extract_integer(input, pokerstars::comma(Self::tag()))
    }

    fn parse_integer(input: &[u8]) -> (r: Option<(u64, usize)>) {
        number::parse_integer(input, pokerstars::comma(Self::tag()))
    }

    fn extract_float(input: &[u8]) -> (r: Option<usize>) {
        number::extract_float(input, pokerstars::comma(Self::tag()))
    }

    fn parse_float(input: &[u8]) -> (r: Option<(Number, usize)>) {
        number::parse_float(input, pokerstars::comma(Self::tag()))
    }
}

impl ParseCurrency for PokerStarsPluribus {
    fn extract_currency(input: &[u8], currency: char, currency_begin: usize) -> (r: Option<(Number, usize)>) {
        currency::extract_currency(input, currency, currency_begin, pokerstars::comma(Self::tag()))
    }

    fn find_currency(input: &[u8], currency: char) -> (r: Option<(Number, (usize, usize))>) {
        currency::find_currency(input, currency, pokerstars::comma(Self::tag()))
    }

    fn rfind_currency(input: &[u8], currency: char) -> (r: Option<(Number, (usize, usize))>) {
        currency::rfind_currency(input, currency, pokerstars::comma(Self::tag()))
    }
}

impl ParseActionHeader for PokerStarsPluribus {
    fn parse_action_header(p: &mut Parser, currency: char) -> (a: Option<Action>) {
        stages::parse_action(p, Self::tag(), Stage::Header, currency)
    }
}

impl ParseActionPreFlop for PokerStarsPluribus {
    fn parse_action_preflop(p: &mut Parser, currency: char) -> (a: Option<Action>) {
        stages::parse_action(p, Self::tag(), Stage::PreFlop, currency)
    }
}

impl ParseActionStreet for PokerStarsPluribus {
    fn parse_action_street(p: &mut Parser, currency: char) -> (a: Option<Action>) {
        stages::parse_action(p, Self::tag(), Stage::Street, currency)
    }
}

impl ParseAction for PokerStarsPluribus {
}

impl ParseActionList for PokerStarsPluribus {
    fn is_section_line(line: &[u8]) -> (b: bool) {
        stages::is_section_line(Self::tag(), line)
    }

    fn parse_action_list_header(p: &mut Parser, currency: char) -> (r: Option<ActionSpan>) {
        stages::parse_action_list(p, Self::tag(), Stage::Header, currency)
    }

    fn parse_action_list_preflop(p: &mut Parser, currency: char) -> (r: Option<ActionSpan>) {
        stages::parse_action_list(p, Self::tag(), Stage::PreFlop, currency)
    }

    fn parse_action_list_street(p: &mut Parser, currency: char) -> (r: Option<ActionSpan>) {
        stages::parse_action_list(p, Self::tag(), Stage::Street, currency)
    }
}

impl ParseStreet for PokerStarsPluribus {
    fn is_summary_line(line: &[u8]) -> (b: bool) {
        stages::is_summary_line(Self::tag(), line)
    }

    fn parse_street_header(p: &mut Parser) -> (r: Option<(StreetType, Cards)>) {
        streets::parse_street_header(p, Self::tag())
    }
}

impl ParseSync for PokerStarsPluribus {
    fn parse_sync(p: &mut Parser) {
        hands::parse_sync(p, Self::tag())
    }
}

impl ParseHeader for PokerStarsPluribus {
    fn parse_header(p: &mut Parser) -> (r: Option<Header>) {
        header::parse_header(p, Self::tag())
    }
}

impl ParsePreFlop for PokerStarsPluribus {
    fn parse_preflop(p: &mut Parser, currency: char) -> (r: Option<Street>) {
        streets::parse_preflop(p, Self::tag(), currency)
    }
}

impl ParseStreets for PokerStarsPluribus {
    fn parse_streets(p: &mut Parser, currency: char) -> (r: Option<StreetArray>) {
        streets::parse_streets(p, Self::tag(), currency)
    }
}

impl ParseSummary for PokerStarsPluribus {
    fn parse_summary(p: &mut Parser, currency: char) -> (r: Option<Summary>) {
        summary::parse_summary(p, Self::tag(), currency)
    }
}

impl Parse for PokerStarsPluribus {
    fn parse(p: &mut Parser) {
        hands::parse(p, Self::tag())
    }

    fn parse_hand(p: &mut Parser) -> (r: Option<Hand>) {
        hands::parse_hand(p, Self::tag())
    }
}

impl ParseSummaryPokerStars for PokerStarsPluribus {
    fn parse_summary_pots(p: &mut Parser, currency: char) -> (r: Option<PotInfo>) {
        summary::parse_summary_pots(p, Self::tag(), currency)
    }

    fn parse_summary_actions_winners(p: &mut Parser, currency: char) -> (r: Option<(ActionSpan, WinnerSpan)>) {
        summary::parse_summary_actions_winners(p, Self::tag(), currency)
    }
}

impl Dialect for OnGame {
    open spec fn site() -> PokerSite {
        PokerSite::OnGame
    }

    fn tag() -> (site: PokerSite) {
        PokerSite::OnGame
    }
}

impl ParseTrimPlayerName for OnGame {
    fn trim_player_name(name: &[u8]) -> (r: &[u8]) {
        pokerstars::trim_player_name(Self::tag(), name)
    }
}

impl ParseNumber for OnGame {
    fn extract_integer(input: &[u8]) -> (r: Option<usize>) {
        number::extract_integer(input, pokerstars::comma(Self::tag()))
    }

    fn parse_integer(input: &[u8]) -> (r: Option<(u64, usize)>) {
        number::parse_integer(input, pokerstars::comma(Self::tag()))
    }

    fn extract_float(input: &[u8]) -> (r: Option<usize>) {
        number::extract_float(input, pokerstars::comma(Self::tag()))
    }

    fn parse_float(input: &[u8]) -> (r: Option<(Number, usize)>) {
        number::parse_float(input, pokerstars::comma(Self::tag()))
    }
}

impl ParseCurrency for OnGame {
    fn extract_currency(input: &[u8], currency: char, currency_begin: usize) -> (r: Option<(Number, usize)>) {
        currency::extract_currency(input, currency, currency_begin, pokerstars::comma(Self::tag()))
    }

    fn find_currency(input: &[u8], currency: char) -> (r: Option<(Number, (usize, usize))>) {
        currency::find_currency(input, currency, pokerstars::comma(Self::tag()))
    }

    fn rfind_currency(input: &[u8], currency: char) -> (r: Option<(Number, (usize, usize))>) {
        currency::rfind_currency(input, currency, pokerstars::comma(Self::tag()))
    }
}

impl ParseActionHeader for OnGame {
    fn parse_action_header(p: &mut Parser, currency: char) -> (a: Option<Action>) {
        stages::parse_action(p, Self::tag(), Stage::Header, currency)
    }
}

impl ParseActionPreFlop for OnGame {
    fn parse_action_preflop(p: &mut Parser, currency: char) -> (a: Option<Action>) {
        stages::parse_action(p, Self::tag(), Stage::PreFlop, currency)
    }
}

impl ParseActionStreet for OnGame {
    fn parse_action_street(p: &mut Parser, currency: char) -> (a: Option<Action>) {
        stages::parse_action(p, Self::tag(), Stage::Street, currency)
    }
}

impl ParseAction for OnGame {
}

impl ParseActionList for OnGame {
    fn is_section_line(line: &[u8]) -> (b: bool) {
        stages::is_section_line(Self::tag(), line)
    }

    fn parse_action_list_header(p: &mut Parser, currency: char) -> (r: Option<ActionSpan>) {
        stages::parse_action_list(p, Self::tag(), Stage::Header, currency)
    }

    fn parse_action_list_preflop(p: &mut Parser, currency: char) -> (r: Option<ActionSpan>) {
        stages::parse_action_list(p, Self::tag(), Stage::PreFlop, currency)
    }

    fn parse_action_list_street(p: &mut Parser, currency: char) -> (r: Option<ActionSpan>) {
        stages::parse_action_list(p, Self::tag(), Stage::Street, currency)
    }
}

impl ParseStreet for OnGame {
    fn is_summary_line(line: &[u8]) -> (b: bool) {
        stages::is_summary_line(Self::tag(), line)
    }

    fn parse_street_header(p: &mut Parser) -> (r: Option<(StreetType, Cards)>) {
        streets::parse_street_header(p, Self::tag())
    }
}

impl ParseSync for OnGame {
    fn parse_sync(p: &mut Parser) {
        hands::parse_sync(p, Self::tag())
    }
}

impl ParseHeader for OnGame {
    fn parse_header(p: &mut Parser) -> (r: Option<Header>) {
        header::parse_header(p, Self::tag())
    }
}

impl ParsePreFlop for OnGame {
    fn parse_preflop(p: &mut Parser, currency: char) -> (r: Option<Street>) {
        streets::parse_preflop(p, Self::tag(), currency)
    }
}

impl ParseStreets for OnGame {
    fn parse_streets(p: &mut Parser, currency: char) -> (r: Option<StreetArray>) {
        streets::parse_streets(p, Self::tag(), currency)
    }
}

impl ParseSummary for OnGame {
    fn parse_summary(p: &mut Parser, currency: char) -> (r: Option<Summary>) {
        summary::parse_summary(p, Self::tag(), currency)
    }
}

impl Parse for OnGame {
    fn parse(p: &mut Parser) {
        hands::parse(p, Self::tag())
    }

    fn parse_hand(p: &mut Parser) -> (r: Option<Hand>) {
        hands::parse_hand(p, Self::tag())
    }
}

impl ParsePreFlopActionsOnly for PokerStars {
}

impl ParsePreFlopDealtTo for PokerStarsPluribus {
}

impl ParsePreFlopActionsOnly for PokerStarsPluribus {
}

impl ParseActionHeaderBlindOnly for PokerStarsPluribus {
}

impl ParseNumberWithComma for OnGame {
}

impl ParseActionHeaderBlindOnly for OnGame {
}

impl ParsePreFlopActionsOnly for OnGame {
}

/// The ways a line of a PokerStars hand can tell an action.
pub trait ParseActionPokerStars: ParseCurrency + ParseTrimPlayerName {
    /// Reads a line about a player who comes, goes, sits out or runs out of time.
    fn parse_action_join_leave_timeout_etc_no_data(p: &mut Parser) -> (a: Option<Action>)
        requires
            old(p).wf(),
        ensures
            final(p).wf(),
            final(p).data == old(p).data,
            final(p)@.hands.grows_from(old(p)@.hands),
            final(p)@.same_hand(old(p)@),
            final(p)@.cursor() == old(p)@.cursor(),
            a matches Some(act) ==> final(p)@.hands.action_ok(final(p)@.src_offset, act),
            (final(p)@, a) == old(p)@.join_leave_timeout(Self::site()),
    ;

    /// Reads a line about a player who folds, checks or keeps the hand hidden.
    fn parse_action_fold_check_not_show_no_data(p: &mut Parser) -> (a: Option<Action>)
        requires
            old(p).wf(),
        ensures
            final(p).wf(),
            final(p).data == old(p).data,
            final(p)@.hands.grows_from(old(p)@.hands),
            final(p)@.same_hand(old(p)@),
            final(p)@.cursor() == old(p)@.cursor(),
            a matches Some(act) ==> final(p)@.hands.action_ok(final(p)@.src_offset, act),
            (final(p)@, a) == old(p)@.fold_check_not_show(Self::site()),
    ;

    /// Reads a fold or a show with the cards.
    fn parse_action_fold_show(p: &mut Parser) -> (a: Option<Action>)
        requires
            old(p).wf(),
        ensures
            final(p).wf(),
            final(p).data == old(p).data,
            final(p)@.hands.grows_from(old(p)@.hands),
            final(p)@.same_hand(old(p)@),
            final(p)@.cursor() == old(p)@.cursor(),
            a matches Some(act) ==> final(p)@.hands.action_ok(final(p)@.src_offset, act),
            (final(p)@, a) == old(p)@.fold_show(Self::site()),
    ;

    /// Reads what a player said.
    fn parse_action_say(p: &mut Parser) -> (a: Option<Action>)
        requires
            old(p).wf(),
        ensures
            final(p).wf(),
            final(p).data == old(p).data,
            final(p)@.hands.grows_from(old(p)@.hands),
            final(p)@.same_hand(old(p)@),
            final(p)@.cursor() == old(p)@.cursor(),
            a matches Some(act) ==> final(p)@.hands.action_ok(final(p)@.src_offset, act),
            (final(p)@, a) == old(p)@.say(),
    ;

    /// Reads a line about a player who takes a seat.
    fn parse_action_join(p: &mut Parser) -> (a: Option<Action>)
        requires
            old(p).wf(),
        ensures
            final(p).wf(),
            final(p).data == old(p).data,
            final(p)@.hands.grows_from(old(p)@.hands),
            final(p)@.same_hand(old(p)@),
            final(p)@.cursor() == old(p)@.cursor(),
            a matches Some(act) ==> final(p)@.hands.action_ok(final(p)@.src_offset, act),
            (final(p)@, a) == old(p)@.join(Self::site()),
    ;

    /// Reads a line about a player who collects from a pot; with `side`, from a numbered side pot.
    fn parse_action_collected_pot(p: &mut Parser, currency: char, side: bool) -> (a: Option<Action>)
        requires
            old(p).wf(),
        ensures
            final(p).wf(),
            final(p).data == old(p).data,
            final(p)@.hands.grows_from(old(p)@.hands),
            final(p)@.same_hand(old(p)@),
            final(p)@.cursor() == old(p)@.cursor(),
            a matches Some(act) ==> final(p)@.hands.action_ok(final(p)@.src_offset, act),
            (final(p)@, a) == old(p)@.collected_pot(Self::site(), currency, side),
    ;

    /// Reads a line about a bet that nobody called.
    fn parse_action_uncalled_bet_returned(p: &mut Parser, currency: char) -> (a: Option<Action>)
        requires
            old(p).wf(),
        ensures
            final(p).wf(),
            final(p).data == old(p).data,
            final(p)@.hands.grows_from(old(p)@.hands),
            final(p)@.same_hand(old(p)@),
            final(p)@.cursor() == old(p)@.cursor(),
            a matches Some(act) ==> final(p)@.hands.action_ok(final(p)@.src_offset, act),
            (final(p)@, a) == old(p)@.uncalled_bet_returned(Self::site(), currency),
    ;

    /// Reads a show that says what the cards make.
    fn parse_action_show_with_card_description(p: &mut Parser) -> (a: Option<Action>)
        requires
            old(p).wf(),
        ensures
            final(p).wf(),
            final(p).data == old(p).data,
            final(p)@.hands.grows_from(old(p)@.hands),
            final(p)@.same_hand(old(p)@),
            final(p)@.cursor() == old(p)@.cursor(),
            a matches Some(act) ==> final(p)@.hands.action_ok(final(p)@.src_offset, act),
            (final(p)@, a) == old(p)@.show_with_card_description(),
    ;

    /// Reads a bet, a call or a raise.
    fn parse_action_bet_call_raise(p: &mut Parser, currency: char) -> (a: Option<Action>)
        requires
            old(p).wf(),
        ensures
            final(p).wf(),
            final(p).data == old(p).data,
            final(p)@.hands.grows_from(old(p)@.hands),
            final(p)@.same_hand(old(p)@),
            final(p)@.cursor() == old(p)@.cursor(),
            a matches Some(act) ==> final(p)@.hands.action_ok(final(p)@.src_offset, act),
            (final(p)@, a) == old(p)@.bet_call_raise(Self::site(), currency),
    ;

    /// Reads a cash-out.
    fn parse_action_cashout(p: &mut Parser, currency: char) -> (a: Option<Action>)
        requires
            old(p).wf(),
        ensures
            final(p).wf(),
            final(p).data == old(p).data,
            final(p)@.hands.grows_from(old(p)@.hands),
            final(p)@.same_hand(old(p)@),
            final(p)@.cursor() == old(p)@.cursor(),
            a matches Some(act) ==> final(p)@.hands.action_ok(final(p)@.src_offset, act),
            (final(p)@, a) == old(p)@.cashout(Self::site(), currency),
    ;
}

impl ParseActionPokerStars for PokerStars {
    fn parse_action_join_leave_timeout_etc_no_data(p: &mut Parser) -> (a: Option<Action>) {
        pokerstars::join_leave_timeout(p, Self::tag())
    }

    fn parse_action_fold_check_not_show_no_data(p: &mut Parser) -> (a: Option<Action>) {
        pokerstars::fold_check_not_show(p, Self::tag())
    }

    fn parse_action_fold_show(p: &mut Parser) -> (a: Option<Action>) {
        pokerstars::parse_action_fold_show(p, Self::tag())
    }

    fn parse_action_say(p: &mut Parser) -> (a: Option<Action>) {
        pokerstars::parse_action_say(p)
    }

    fn parse_action_join(p: &mut Parser) -> (a: Option<Action>) {
        pokerstars::parse_action_join(p, Self::tag())
    }

    fn parse_action_collected_pot(p: &mut Parser, currency: char, side: bool) -> (a: Option<Action>) {
        pokerstars::parse_action_collected_pot(p, Self::tag(), currency, side)
    }

    fn parse_action_uncalled_bet_returned(p: &mut Parser, currency: char) -> (a: Option<Action>) {
        pokerstars::parse_action_uncalled_bet_returned(p, Self::tag(), currency)
    }

    fn parse_action_show_with_card_description(p: &mut Parser) -> (a: Option<Action>) {
        pokerstars::parse_action_show_with_card_description(p)
    }

    fn parse_action_bet_call_raise(p: &mut Parser, currency: char) -> (a: Option<Action>) {
        pokerstars::parse_action_bet_call_raise(p, Self::tag(), currency)
    }

    fn parse_action_cashout(p: &mut Parser, currency: char) -> (a: Option<Action>) {
        pokerstars::parse_action_cashout(p, Self::tag(), currency)
    }
}

impl ParseActionPokerStars for PokerStarsPluribus {
    fn parse_action_join_leave_timeout_etc_no_data(p: &mut Parser) -> (a: Option<Action>) {
        pokerstars::join_leave_timeout(p, Self::tag())
    }

    fn parse_action_fold_check_not_show_no_data(p: &mut Parser) -> (a: Option<Action>) {
        pokerstars::fold_check_not_show(p, Self::tag())
    }

    fn parse_action_fold_show(p: &mut Parser) -> (a: Option<Action>) {
        pokerstars::parse_action_fold_show(p, Self::tag())
    }

    fn parse_action_say(p: &mut Parser) -> (a: Option<Action>) {
        pokerstars::parse_action_say(p)
    }

    fn parse_action_join(p: &mut Parser) -> (a: Option<Action>) {
        pokerstars::parse_action_join(p, Self::tag())
    }

    fn parse_action_collected_pot(p: &mut Parser, currency: char, side: bool) -> (a: Option<Action>) {
        pokerstars::parse_action_collected_pot(p, Self::tag(), currency, side)
    }

    fn parse_action_uncalled_bet_returned(p: &mut Parser, currency: char) -> (a: Option<Action>) {
        pokerstars::parse_action_uncalled_bet_returned(p, Self::tag(), currency)
    }

    fn parse_action_show_with_card_description(p: &mut Parser) -> (a: Option<Action>) {
        pokerstars::parse_action_show_with_card_description(p)
    }

    fn parse_action_bet_call_raise(p: &mut Parser, currency: char) -> (a: Option<Action>) {
        pokerstars::parse_action_bet_call_raise(p, Self::tag(), currency)
    }

    fn parse_action_cashout(p: &mut Parser, currency: char) -> (a: Option<Action>) {
        pokerstars::parse_action_cashout(p, Self::tag(), currency)
    }
}

/// The blinds and antes that players post.
pub trait ParseActionBlind: Dialect {
    /// Reads a line about a player who posts a blind.
    fn parse_action_blind(p: &mut Parser, currency: char) -> (a: Option<Action>)
        requires
            old(p).wf(),
        ensures
            final(p).wf(),
            final(p).data == old(p).data,
            final(p)@.hands.grows_from(old(p)@.hands),
            final(p)@.same_hand(old(p)@),
            final(p)@.cursor() == old(p)@.cursor(),
            a matches Some(act) ==> final(p)@.hands.action_ok(final(p)@.src_offset, act),
            (final(p)@, a) == old(p)@.posted_blind(Self::site(), currency),
    ;
}

impl ParseActionBlind for PokerStars {
    fn parse_action_blind(p: &mut Parser, currency: char) -> (a: Option<Action>) {
        pokerstars::parse_action_blind(p, Self::tag(), currency)
    }
}

impl ParseActionBlind for PokerStarsPluribus {
    fn parse_action_blind(p: &mut Parser, currency: char) -> (a: Option<Action>) {
        pokerstars::parse_action_blind(p, Self::tag(), currency)
    }
}

impl ParseActionBlind for OnGame {
    fn parse_action_blind(p: &mut Parser, currency: char) -> (a: Option<Action>) {
        crate::parsers::ongame::parse_action_blind(p, currency)
    }
}

/// The cards that the players were dealt.
pub trait ParseActionDealtTo: ParseTrimPlayerName {
    /// Reads a line that tells which cards a player was dealt.
    fn parse_action_dealt_to(p: &mut Parser, currency: char) -> (a: Option<Action>)
        requires
            old(p).wf(),
        ensures
            final(p).wf(),
            final(p).data == old(p).data,
            final(p)@.hands.grows_from(old(p)@.hands),
            final(p)@.same_hand(old(p)@),
            final(p)@.cursor() == old(p)@.cursor(),
            a matches Some(act) ==> final(p)@.hands.action_ok(final(p)@.src_offset, act),
            (final(p)@, a) == old(p)@.dealt_to(Self::site()),
    ;
}

impl ParseActionDealtTo for PokerStarsPluribus {
    fn parse_action_dealt_to(p: &mut Parser, currency: char) -> (a: Option<Action>) {
        pokerstars::parse_action_dealt_to(p, Self::tag())
    }
}

/// The lines that open a hand.
pub trait ParseHeaderPokerStars: Dialect {
    /// Reads the line that opens a hand into `h`.
    fn parse_header_hand_info(p: &mut Parser, h: Header) -> (r: Option<Header>)
        requires
            old(p).wf(),
        ensures
            final(p).wf(),
            final(p).data == old(p).data,
            final(p)@.hands.grows_from(old(p)@.hands),
            final(p)@.same_hand(old(p)@),
            final(p)@.remaining() <= old(p)@.remaining(),
            (final(p)@, r) == (if Self::site() == PokerSite::OnGame {
                old(p)@.ongame_hand_info(h)
            } else {
                old(p)@.pokerstars_hand_info(h)
            }),
    ;

    /// Reads the lines about the table into `h`.
    fn parse_header_table_info(p: &mut Parser, h: Header) -> (r: Option<Header>)
        requires
            old(p).wf(),
        ensures
            final(p).wf(),
            final(p).data == old(p).data,
            final(p)@.hands.grows_from(old(p)@.hands),
            final(p)@.same_hand(old(p)@),
            final(p)@.remaining() <= old(p)@.remaining(),
            (final(p)@, r) == (if Self::site() == PokerSite::OnGame {
                old(p)@.ongame_table_info(h)
            } else {
                old(p)@.pokerstars_table_info(h)
            }),
    ;
}

impl ParseHeaderPokerStars for PokerStars {
    fn parse_header_hand_info(p: &mut Parser, h: Header) -> (r: Option<Header>) {
        header::parse_header_hand_info(p, h)
    }

    fn parse_header_table_info(p: &mut Parser, h: Header) -> (r: Option<Header>) {
        header::parse_header_table_info(p, h)
    }
}

impl ParseHeaderPokerStars for PokerStarsPluribus {
    fn parse_header_hand_info(p: &mut Parser, h: Header) -> (r: Option<Header>) {
        header::parse_header_hand_info(p, h)
    }

    fn parse_header_table_info(p: &mut Parser, h: Header) -> (r: Option<Header>) {
        header::parse_header_table_info(p, h)
    }
}

impl ParseHeaderPokerStars for OnGame {
    fn parse_header_hand_info(p: &mut Parser, h: Header) -> (r: Option<Header>) {
        header::parse_ongame_hand_info(p, h)
    }

    fn parse_header_table_info(p: &mut Parser, h: Header) -> (r: Option<Header>) {
        header::parse_ongame_table_info(p, h)
    }
}

/// The players of a hand.
pub trait ParseHeaderPlayersPokerStars: ParseCurrency + ParseTrimPlayerName {
    /// Reads the lines that seat the players.
    fn parse_header_players(p: &mut Parser, header: Header) -> (r: Option<Header>)
        requires
            old(p).wf(),
        ensures
            final(p).wf(),
            final(p).data == old(p).data,
            final(p)@.hands.grows_from(old(p)@.hands),
            final(p)@.same_hand(old(p)@),
            final(p)@.remaining() <= old(p)@.remaining(),
            (final(p)@, r) == old(p)@.header_players(Self::site(), header),
    ;
}

impl ParseHeaderPlayersPokerStars for PokerStars {
    fn parse_header_players(p: &mut Parser, header: Header) -> (r: Option<Header>) {
        header::parse_header_players(p, Self::tag(), header)
    }
}

impl ParseHeaderPlayersPokerStars for PokerStarsPluribus {
    fn parse_header_players(p: &mut Parser, header: Header) -> (r: Option<Header>) {
        header::parse_header_players(p, Self::tag(), header)
    }
}

impl ParseHeaderPlayersPokerStars for OnGame {
    fn parse_header_players(p: &mut Parser, header: Header) -> (r: Option<Header>) {
        header::parse_header_players(p, Self::tag(), header)
    }
}

} // verus!
