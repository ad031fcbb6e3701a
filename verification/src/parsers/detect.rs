//! Telling by its first lines which site a text comes from.

use vstd::prelude::*;
use vstd::string::StringSliceAdditionalSpecFns;
use crate::parsers::number::is_digit;
use crate::parsers::pokerstars::{is_space, space_end};
use crate::parsers::text::{
    cut, ends_with, find_byte, find_byte_at, find_byte_from, head, lit, spec_ends_with,
    spec_find_byte, spec_starts_with, starts_with, tail,
};
use crate::pklp::hand::PokerSite;

verus! {

/// A text that no site is known to write. `line` is its first line.
#[derive(Debug, Clone, PartialEq, Eq)]
pub struct UnrecognizedFormat {
    pub line: Vec<u8>,
}

/// `s` without the white space it begins with.
pub open spec fn spec_trim_start(s: Seq<u8>) -> Seq<u8> {
    s.subrange(space_end(s, 0), s.len() as int)
}

/// The line of `s` that begins at `from`: it ends before the next line
/// feed, and before the carriage return that precedes that line feed; or at
/// the end of the text.
pub open spec fn line_at(s: Seq<u8>, from: int) -> Seq<u8> {
    match find_byte_from(s, 0x0a, from) {
        Some(end) => if end > from && s[end - 1] == 0x0d {
            s.subrange(from, end - 1)
        } else {
            s.subrange(from, end)
        },
        None => s.subrange(from, s.len() as int),
    }
}

/// The second line of `s`, where it has one.
pub open spec fn second_line(s: Seq<u8>) -> Option<Seq<u8>> {
    match spec_find_byte(s, 0x0a) {
        Some(end) => if end + 1 < s.len() {
            Some(line_at(s, end + 1))
        } else {
            None
        },
        None => None,
    }
}

/// The line that an unrecognized text is reported by: its first, or `@@@`
/// for a text with nothing in it.
pub open spec fn offending_line(trimmed: Seq<u8>) -> Seq<u8> {
    if trimmed.len() == 0 {
        lit("@@@")
    } else {
        line_at(trimmed, 0)
    }
}

/// The site that a text without leading white space comes from, told by
/// how it begins. The beginnings are tried in this order; a text that
/// begins with `PokerStars ` is a Pluribus log where its second line names
/// a table `Pluribus...`, and one that begins with `Game #` is PartyPoker's
/// where its first line ends with `starts.`
pub open spec fn site_of(t: Seq<u8>) -> Option<PokerSite> {
    if spec_starts_with(t, lit("PokerStars ")) {
        match second_line(t) {
            Some(line) => if spec_starts_with(line, lit("Table 'Pluribus")) {
                Some(PokerSite::PokerStarsPluribus)
            } else {
                Some(PokerSite::PokerStars)
            },
            None => Some(PokerSite::PokerStars),
        }
    } else if spec_starts_with(t, lit("***** History")) {
        Some(PokerSite::OnGame)
    } else if spec_starts_with(t, lit("BetOnline ")) {
        Some(PokerSite::BetOnline)
    } else if spec_starts_with(t, lit("Bodog ")) {
        Some(PokerSite::Bovada)
    } else if spec_starts_with(t, lit("Full Tilt ")) {
        Some(PokerSite::FullTiltPoker)
    } else if spec_starts_with(t, lit("Everleaf ")) {
        Some(PokerSite::EverLeaf)
    } else if spec_starts_with(t, lit("Winamax ")) {
        Some(PokerSite::Winamax)
    } else if spec_starts_with(t, lit("Stage ")) {
        Some(PokerSite::Absolute)
    } else if spec_starts_with(t, lit("#Game No ")) {
        Some(PokerSite::PacificPoker)
    } else if spec_starts_with(t, lit("Poker Hand #")) {
        Some(PokerSite::GGPoker)
    } else if spec_starts_with(t, lit("MERGE_GAME ")) {
        Some(PokerSite::PokerTracker)
    } else if spec_starts_with(t, lit("Hand#")) {
        Some(PokerSite::Cake)
    } else if spec_starts_with(t, lit("Table #")) {
        Some(PokerSite::Pkr)
    } else if spec_starts_with(t, lit("Game started ")) {
        Some(PokerSite::Winning)
    } else if t.len() > 1 && t[0] == 0x23 && is_digit(t[1]) {
        Some(PokerSite::KingsClub)
    } else if spec_starts_with(t, lit("Game #")) {
        if spec_ends_with(line_at(t, 0), lit("starts.")) {
            Some(PokerSite::PartyPoker)
        } else {
            Some(PokerSite::Enet)
        }
    } else {
        None
    }
}

/// The site that `input` comes from, or the line it is reported by.
pub open spec fn spec_detect_site(input: Seq<u8>) -> Result<PokerSite, Seq<u8>> {
    let trimmed = spec_trim_start(input);
    match site_of(trimmed) {
        Some(site) => Ok(site),
        None => Err(offending_line(trimmed)),
    }
}

/// What the report of an unrecognized text says.
pub open spec fn spec_message(line: Seq<u8>) -> Seq<u8> {
    lit("Invalid poker website - '") + line + lit("'")
}

fn trim_start(s: &[u8]) -> (t: &[u8])
    ensures
        t@ == spec_trim_start(s@),
{
    let mut i: usize = 0;
    while i < s.len() && (s[i] == 0x20 || (0x09 <= s[i] && s[i] <= 0x0d))
        invariant
            i <= s@.len(),
            space_end(s@, 0) == space_end(s@, i as int),
        decreases s@.len() - i,
    {
        i += 1;
    }
    tail(s, i)
}

fn read_line_at(s: &[u8], from: usize) -> (line: &[u8])
    requires
        from <= s@.len(),
    ensures
        line@ == line_at(s@, from as int),
{
    match find_byte_at(s, 0x0a, from) {
        Some(end) => {
            if end > from && s[end - 1] == 0x0d {
                cut(s, from, end - 1)
            } else {
                cut(s, from, end)
            }
        },
        None => tail(s, from),
    }
}

fn read_second_line(s: &[u8]) -> (line: Option<&[u8]>)
    ensures
        match line {
            Some(line) => second_line(s@) == Some(line@),
            None => second_line(s@) is None,
        },
{
    match find_byte(s, 0x0a) {
        Some(end) => {
            if end + 1 < s.len() {
                Some(read_line_at(s, end + 1))
            } else {
                None
            }
        },
        None => None,
    }
}

fn read_site(t: &[u8]) -> (site: Option<PokerSite>)
    ensures
        site == site_of(t@),
{
    if starts_with(t, "PokerStars ".as_bytes()) {
        match read_second_line(t) {
            Some(line) => {
                if starts_with(line, "Table 'Pluribus".as_bytes()) {
                    Some(PokerSite::PokerStarsPluribus)
                } else {
                    Some(PokerSite::PokerStars)
                }
            },
            None => Some(PokerSite::PokerStars),
        }
    } else if starts_with(t, "***** History".as_bytes()) {
        Some(PokerSite::OnGame)
    } else if starts_with(t, "BetOnline ".as_bytes()) {
        Some(PokerSite::BetOnline)
    } else if starts_with(t, "Bodog ".as_bytes()) {
        Some(PokerSite::Bovada)
    } else if starts_with(t, "Full Tilt ".as_bytes()) {
        Some(PokerSite::FullTiltPoker)
    } else if starts_with(t, "Everleaf ".as_bytes()) {
        Some(PokerSite::EverLeaf)
    } else if starts_with(t, "Winamax ".as_bytes()) {
        Some(PokerSite::Winamax)
    } else if starts_with(t, "Stage ".as_bytes()) {
        Some(PokerSite::Absolute)
    } else if starts_with(t, "#Game No ".as_bytes()) {
        Some(PokerSite::PacificPoker)
    } else if starts_with(t, "Poker Hand #".as_bytes()) {
        Some(PokerSite::GGPoker)
    } else if starts_with(t, "MERGE_GAME ".as_bytes()) {
        Some(PokerSite::PokerTracker)
    } else if starts_with(t, "Hand#".as_bytes()) {
        Some(PokerSite::Cake)
    } else if starts_with(t, "Table #".as_bytes()) {
        Some(PokerSite::Pkr)
    } else if starts_with(t, "Game started ".as_bytes()) {
        Some(PokerSite::Winning)
    } else if t.len() > 1 && t[0] == 0x23 && 0x30 <= t[1] && t[1] <= 0x39 {
        Some(PokerSite::KingsClub)
    } else if starts_with(t, "Game #".as_bytes()) {
        if ends_with(read_line_at(t, 0), "starts.".as_bytes()) {
            Some(PokerSite::PartyPoker)
        } else {
            Some(PokerSite::Enet)
        }
    } else {
        None
    }
}

/// The bytes of `s`, copied.
pub fn to_vec(s: &[u8]) -> (v: Vec<u8>)
    ensures
        v@ == s@,
{
    let mut v: Vec<u8> = Vec::new();
    let mut i: usize = 0;
    while i < s.len()
        invariant
            i <= s@.len(),
            v@ == s@.subrange(0, i as int),
        decreases s@.len() - i,
    {
        v.push(s[i]);
        i += 1;
    }
    assert(s@.subrange(0, s@.len() as int) == s@);
    v
}

/// Tells which site `input` comes from.
pub fn detect_site(input: &str) -> (r: Result<PokerSite, UnrecognizedFormat>)
    ensures
        match r {
            Ok(site) => spec_detect_site(input.spec_bytes()) == Ok::<PokerSite, Seq<u8>>(site),
            Err(e) => spec_detect_site(input.spec_bytes()) == Err::<PokerSite, Seq<u8>>(e.line@),
        },
{
    let trimmed = trim_start(input.as_bytes());
    match read_site(trimmed) {
        Some(site) => Ok(site),
        None => {
            let line = if trimmed.len() == 0 {
                to_vec("@@@".as_bytes())
            } else {
                to_vec(read_line_at(trimmed, 0))
            };
            Err(UnrecognizedFormat { line })
        },
    }
}

impl UnrecognizedFormat {
    /// The report, with the offending line in quotes.
    pub fn message(&self) -> (m: Vec<u8>)
        ensures
            m@ == spec_message(self.line@),
    {
        let mut m = to_vec("Invalid poker website - '".as_bytes());
        let mut i: usize = 0;
        while i < self.line.len()
            invariant
                i <= self.line@.len(),
                m@ == lit("Invalid poker website - '") + self.line@.subrange(0, i as int),
            decreases self.line@.len() - i,
        {
            m.push(self.line[i]);
            i += 1;
        }
        assert(self.line@.subrange(0, self.line@.len() as int) == self.line@);
        let quote = "'".as_bytes();
        proof {
            reveal_strlit("'");
            assert(vstd::string::is_ascii("'"));
            vstd::string::is_ascii_spec_bytes("'");
        }
        m.push(quote[0]);
        assert(m@ =~= spec_message(self.line@));
        m
    }
}

} // verus!
