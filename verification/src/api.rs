//! Reading a text of hands without choosing a parser by hand.

use vstd::prelude::*;
use vstd::string::StringSliceAdditionalSpecFns;
use crate::parsers::detect::{detect_site, spec_detect_site, UnrecognizedFormat};
use crate::parsers::hands::{
    implemented, is_implemented, parse_str, spec_hand_starts, spec_parse_str,
};
use crate::pklp::hand::{Arena, HandVec, PokerSite};

verus! {

/// Why a text was not read.
#[derive(Debug, Clone, PartialEq, Eq)]
pub enum ParseError {
    /// No site is known to write such a text.
    UnrecognizedFormat(UnrecognizedFormat),
    /// The site is known, but its hands cannot be read.
    NotImplemented(PokerSite),
}

/// What reading `text` into `arena` gives: the arena with the hands of the
/// text, or the reason why it was not read.
pub open spec fn spec_parse_string_into(text: Seq<u8>, arena: Arena) -> Result<
    Arena,
    Result<PokerSite, Seq<u8>>,
> {
    match spec_detect_site(text) {
        Err(line) => Err(Err(line)),
        Ok(site) => if is_implemented(site) {
            Ok(spec_parse_str(site, text, arena))
        } else {
            Err(Ok(site))
        },
    }
}

/// An error as plain values: the site that cannot be read, or the line of
/// a text that is not recognized.
/// Whether `after` holds, behind the hands of `before`, one hand for every
/// place of `text` at which a hand is read, in their order, and each such
/// hand reads back what the lines at its place say of it: its id, the name
/// of its table and the names of its players.
pub open spec fn reads_back_from(text: Seq<u8>, before: Arena, after: Arena) -> bool {
    match spec_detect_site(text) {
        Ok(site) => {
            let starts = spec_hand_starts(site, text, before);
            &&& after.hands.len() == before.hands.len() + starts.len()
            &&& after.reads_back(before.hands.len() as int, starts, site)
        },
        Err(_) => false,
    }
}

pub open spec fn error_view(e: ParseError) -> Result<PokerSite, Seq<u8>> {
    match e {
        ParseError::UnrecognizedFormat(u) => Err(u.line@),
        ParseError::NotImplemented(site) => Ok(site),
    }
}

/// Reads the hands that `src` holds into `hands`. Where the text is not
/// read, `hands` is left as it was.
pub fn parse_string_into(src: &str, hands: &mut HandVec) -> (r: Result<(), ParseError>)
    ensures
        match r {
            Ok(_) => spec_parse_string_into(src.spec_bytes(), old(hands)@) == Ok::<
                Arena,
                Result<PokerSite, Seq<u8>>,
            >(final(hands)@),
            Err(e) => spec_parse_string_into(src.spec_bytes(), old(hands)@) == Err::<
                Arena,
                Result<PokerSite, Seq<u8>>,
            >(error_view(e)) && final(hands)@ == old(hands)@,
        },
        final(hands)@.grows_from(old(hands)@),
        old(hands)@.wf() ==> final(hands)@.wf(),
        r is Ok ==> reads_back_from(src.spec_bytes(), old(hands)@, final(hands)@),
{
    match detect_site(src) {
        Err(e) => Err(ParseError::UnrecognizedFormat(e)),
        Ok(site) => {
            if implemented(site) {
                parse_str(site, src.as_bytes(), hands);
                Ok(())
            } else {
                Err(ParseError::NotImplemented(site))
            }
        },
    }
}

/// Reads the hands that `src` holds into a new arena.
pub fn parse_string(src: &str) -> (r: Result<HandVec, ParseError>)
    ensures
        match r {
            Ok(hands) => spec_parse_string_into(src.spec_bytes(), Arena::empty()) == Ok::<
                Arena,
                Result<PokerSite, Seq<u8>>,
            >(hands@),
            Err(e) => spec_parse_string_into(src.spec_bytes(), Arena::empty()) == Err::<
                Arena,
                Result<PokerSite, Seq<u8>>,
            >(error_view(e)),
        },
        r matches Ok(hands) ==> hands@.wf(),
        r matches Ok(hands) ==> reads_back_from(src.spec_bytes(), Arena::empty(), hands@),
{
    let mut hands = HandVec::default();
    match parse_string_into(src, &mut hands) {
        Ok(_) => Ok(hands),
        Err(e) => Err(e),
    }
}

/// Makes one arena of several, in their order. One arena alone is
/// returned as it is.
pub fn combine(v: Vec<HandVec>) -> (r: HandVec)
    requires
        v@.len() >= 1,
        crate::combine::combinable(crate::combine::arenas_of(v@)),
    ensures
        r@ == crate::combine::combine_arenas(crate::combine::arenas_of(v@)),
        v@.len() == 1 ==> r == v@[0],
        (forall|i: int| 0 <= i < v@.len() ==> (#[trigger] v@[i])@.wf()) ==> r@.wf(),
{
    HandVec::combine(v)
}

/// Makes one arena of several where they can be made one; `None` for no
/// arenas, and for arenas whose rows cannot be moved on within the limits
/// of spans, indexes and message offsets.
pub fn try_combine(v: Vec<HandVec>) -> (r: Option<HandVec>)
    ensures
        match r {
            Some(c) => v@.len() >= 1 && crate::combine::combinable(crate::combine::arenas_of(v@))
                && c@ == crate::combine::combine_arenas(crate::combine::arenas_of(v@)),
            None => v@.len() == 0 || !crate::combine::combinable(crate::combine::arenas_of(v@)),
        },
        (forall|i: int| 0 <= i < v@.len() ==> (#[trigger] v@[i])@.wf()) ==> (r matches Some(c)
            ==> c@.wf()),
{
    if v.len() == 0 || !HandVec::can_combine(&v) {
        None
    } else {
        Some(HandVec::combine(v))
    }
}

} // verus!
