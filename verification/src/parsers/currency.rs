//! Currency symbols and the amounts that follow them.

use vstd::prelude::*;
use vstd::utf8::encode_scalar;
use crate::parsers::number::{parse_float, spec_parse_float};
use crate::parsers::text::{
    find_byte_from, find_from, lemma_find_from, lemma_rfind_upto, occurs_at, opt_int,
    rfind_byte_upto, rfind_upto, spec_find, spec_find_byte, spec_rfind, spec_rfind_byte,
    spec_starts_with, starts_with, tail, StrOps,
};
use crate::pklp::number::Number;

verus! {

pub const DOLLAR: char = '$';

pub const POUND: char = '\u{a3}';

pub const YEN: char = '\u{a5}';

pub const EURO: char = '\u{20ac}';

pub const INDIAN_RUPEE: char = '\u{20b9}';

/// Whether `c` is one of the five symbols that are read.
pub open spec fn is_currency(c: char) -> bool {
    c == DOLLAR || c == POUND || c == YEN || c == EURO || c == INDIAN_RUPEE
}

/// Whether `c` is one of the five symbols that are read.
pub fn is_currency_char(c: char) -> (b: bool)
    ensures
        b == is_currency(c),
{
    c == DOLLAR || c == POUND || c == YEN || c == EURO || c == INDIAN_RUPEE
}

/// The bytes that write `c` in UTF-8.
pub open spec fn char_bytes(c: char) -> Seq<u8> {
    encode_scalar(c as u32)
}

/// The bytes that write `c` in UTF-8.
pub fn encode_char(c: char) -> (v: Vec<u8>)
    ensures
        v@ == char_bytes(c),
        1 <= v@.len() <= 4,
{
    let u = c as u32;
    let mut v: Vec<u8> = Vec::new();
    if u <= 0x7f {
        v.push((u & 0x7F) as u8);
    } else if u <= 0x7ff {
        v.push(0xC0 | ((u >> 6) & 0x1F) as u8);
        v.push(0x80 | (u & 0x3F) as u8);
    } else if u <= 0xffff {
        v.push(0xE0 | ((u >> 12) & 0x0F) as u8);
        v.push(0x80 | ((u >> 6) & 0x3F) as u8);
        v.push(0x80 | (u & 0x3F) as u8);
    } else {
        v.push(0xF0 | ((u >> 18) & 0x7) as u8);
        v.push(0x80 | ((u >> 12) & 0x3F) as u8);
        v.push(0x80 | ((u >> 6) & 0x3F) as u8);
        v.push(0x80 | (u & 0x3F) as u8);
    }
    proof {
        vstd::utf8::char_is_scalar(c);
        assert(v@ =~= char_bytes(c));
    }
    v
}

/// The symbol that `s` begins with, and how many bytes write it.
pub open spec fn spec_parse_currency_char(s: Seq<u8>) -> Option<(char, int)> {
    if spec_starts_with(s, char_bytes(DOLLAR)) {
        Some((DOLLAR, char_bytes(DOLLAR).len() as int))
    } else if spec_starts_with(s, char_bytes(POUND)) {
        Some((POUND, char_bytes(POUND).len() as int))
    } else if spec_starts_with(s, char_bytes(YEN)) {
        Some((YEN, char_bytes(YEN).len() as int))
    } else if spec_starts_with(s, char_bytes(EURO)) {
        Some((EURO, char_bytes(EURO).len() as int))
    } else if spec_starts_with(s, char_bytes(INDIAN_RUPEE)) {
        Some((INDIAN_RUPEE, char_bytes(INDIAN_RUPEE).len() as int))
    } else {
        None
    }
}

fn begins_with_symbol(input: &[u8], c: char) -> (r: Option<(char, usize)>)
    ensures
        match r {
            Some((sym, n)) => spec_starts_with(input@, char_bytes(c)) && sym == c && n
                == char_bytes(c).len(),
            None => !spec_starts_with(input@, char_bytes(c)),
        },
{
    let bytes = encode_char(c);
    if starts_with(input, bytes.as_slice()) {
        Some((c, bytes.len()))
    } else {
        None
    }
}

/// The currency symbol that `input` begins with, and how many bytes write
/// it.
pub fn parse_currency_char(input: &[u8]) -> (r: Option<(char, usize)>)
    ensures
        match r {
            Some((c, n)) => spec_parse_currency_char(input@) == Some((c, n as int)) && is_currency(
                c,
            ) && n == char_bytes(c).len() && n <= input@.len(),
            None => spec_parse_currency_char(input@) is None,
        },
{
    if let Some(r) = begins_with_symbol(input, DOLLAR) {
        return Some(r);
    }
    if let Some(r) = begins_with_symbol(input, POUND) {
        return Some(r);
    }
    if let Some(r) = begins_with_symbol(input, YEN) {
        return Some(r);
    }
    if let Some(r) = begins_with_symbol(input, EURO) {
        return Some(r);
    }
    if let Some(r) = begins_with_symbol(input, INDIAN_RUPEE) {
        return Some(r);
    }
    None
}

/// The three letters that name the currency of `currency`.
pub open spec fn spec_currency_iso(currency: char) -> Seq<char> {
    if currency == DOLLAR {
        "USD"@
    } else if currency == POUND {
        "GBP"@
    } else if currency == YEN {
        "JPY"@
    } else if currency == EURO {
        "EUR"@
    } else {
        "INR"@
    }
}

/// The three letters that name the currency of `currency`.
pub fn get_currency_iso(currency: char) -> (iso: &'static str)
    requires
        is_currency(currency),
    ensures
        iso@ == spec_currency_iso(currency),
{
    if currency == DOLLAR {
        "USD"
    } else if currency == POUND {
        "GBP"
    } else if currency == YEN {
        "JPY"
    } else if currency == EURO {
        "EUR"
    } else {
        "INR"
    }
}

impl crate::pklp::hand::Header {
    /// The three letters that name the currency of the hand.
    pub fn currency_iso(&self) -> (iso: &'static str)
        requires
            is_currency(self.currency),
        ensures
            iso@ == spec_currency_iso(self.currency),
    {
        get_currency_iso(self.currency)
    }
}

/// The amount that follows a symbol standing at `currency_begin`, and where
/// the amount ends. Whether the symbol stands there is not looked at: only
/// its width is passed over.
pub open spec fn spec_extract_currency(
    s: Seq<u8>,
    currency: char,
    currency_begin: int,
    comma: bool,
) -> Option<(Number, int)> {
    let begin = currency_begin + char_bytes(currency).len();
    if begin > s.len() {
        None
    } else {
        match spec_parse_float(s.subrange(begin, s.len() as int), comma) {
            Some((n, offset)) => Some((n, begin + offset)),
            None => None,
        }
    }
}

/// An amount that is there ends within the line, after the symbol.
pub proof fn lemma_extract_currency(s: Seq<u8>, currency: char, currency_begin: int, comma: bool)
    requires
        0 <= currency_begin,
    ensures
        spec_extract_currency(s, currency, currency_begin, comma) matches Some((_, end))
            ==> currency_begin < end <= s.len(),
{
    let begin = currency_begin + char_bytes(currency).len();
    if begin <= s.len() {
        crate::parsers::number::lemma_extract_float(s.subrange(begin, s.len() as int), comma);
    }
}

/// The amount after the first symbol of `currency` in `s`, where the symbol
/// begins and where the amount ends.
pub open spec fn spec_find_currency(s: Seq<u8>, currency: char, comma: bool) -> Option<
    (Number, (int, int)),
> {
    match spec_find(s, char_bytes(currency)) {
        Some(begin) => match spec_extract_currency(s, currency, begin, comma) {
            Some((n, end)) => Some((n, (begin, end))),
            None => None,
        },
        None => None,
    }
}

/// The amount after the last symbol of `currency` in `s`, where the symbol
/// begins and where the amount ends.
pub open spec fn spec_rfind_currency(s: Seq<u8>, currency: char, comma: bool) -> Option<
    (Number, (int, int)),
> {
    match spec_rfind(s, char_bytes(currency)) {
        Some(begin) => match spec_extract_currency(s, currency, begin, comma) {
            Some((n, end)) => Some((n, (begin, end))),
            None => None,
        },
        None => None,
    }
}

/// An amount and where it ends, as mathematical values.
pub open spec fn opt_amount(r: Option<(Number, usize)>) -> Option<(Number, int)> {
    match r {
        Some((n, end)) => Some((n, end as int)),
        None => None,
    }
}

/// An amount and the range it was found in, as mathematical values.
pub open spec fn opt_found(r: Option<(Number, (usize, usize))>) -> Option<(Number, (int, int))> {
    match r {
        Some((n, (begin, end))) => Some((n, (begin as int, end as int))),
        None => None,
    }
}

/// Searching for a run of one byte is searching for the byte.
pub proof fn lemma_find_single(s: Seq<u8>, b: u8, from: int)
    requires
        0 <= from,
    ensures
        find_from(s, seq![b], from) == find_byte_from(s, b, from),
    decreases s.len() - from,
{
    if from < s.len() {
        assert(s.subrange(from, from + 1)[0] == s[from]);
        if s[from] != b {
            lemma_find_single(s, b, from + 1);
        } else {
            assert(s.subrange(from, from + 1) =~= seq![b]);
        }
    }
}

/// The same, searching from the end.
pub proof fn lemma_rfind_single(s: Seq<u8>, b: u8, upto: int)
    requires
        upto <= s.len(),
    ensures
        rfind_upto(s, seq![b], upto - 1) == rfind_byte_upto(s, b, upto),
    decreases upto,
{
    if upto > 0 {
        assert(s.subrange(upto - 1, upto)[0] == s[upto - 1]);
        if s[upto - 1] != b {
            lemma_rfind_single(s, b, upto - 1);
        } else {
            assert(s.subrange(upto - 1, upto) =~= seq![b]);
        }
    }
}

proof fn lemma_single_byte(u: u32)
    by (bit_vector)
    requires
        u <= 0x7f,
    ensures
        (u & 0x7F) as u8 == u as u8,
{
}

/// The amount that follows a symbol standing at `currency_begin`.
pub fn extract_currency(input: &[u8], currency: char, currency_begin: usize, comma: bool) -> (r:
    Option<(Number, usize)>)
    ensures
        opt_amount(r) == spec_extract_currency(input@, currency, currency_begin as int, comma),
        r matches Some((_, end)) ==> currency_begin < end <= input@.len(),
{
    let width = encode_char(currency).len();
    if currency_begin > input.len() || width > input.len() - currency_begin {
        return None;
    }
    let begin = currency_begin + width;
    match parse_float(tail(input, begin), comma) {
        Some((n, offset)) => Some((n, begin + offset)),
        None => None,
    }
}

/// Where the first symbol of `currency` stands.
fn find_symbol(input: &[u8], currency: char) -> (r: Option<usize>)
    ensures
        opt_int(r) == spec_find(input@, char_bytes(currency)),
{
    let bytes = encode_char(currency);
    if bytes.len() == 1 {
        proof {
            lemma_single_byte(currency as u32);
            assert(char_bytes(currency) =~= seq![currency as u8]);
            lemma_find_single(input@, currency as u8, 0);
        }
        input.find_fast_char(currency)
    } else {
        input.find_fast_str(bytes.as_slice())
    }
}

/// Where the last symbol of `currency` stands.
fn rfind_symbol(input: &[u8], currency: char) -> (r: Option<usize>)
    ensures
        opt_int(r) == spec_rfind(input@, char_bytes(currency)),
{
    let bytes = encode_char(currency);
    if bytes.len() == 1 {
        proof {
            lemma_single_byte(currency as u32);
            assert(char_bytes(currency) =~= seq![currency as u8]);
            lemma_rfind_single(input@, currency as u8, input@.len() as int);
        }
        input.rfind_fast_char(currency)
    } else {
        input.rfind_fast_str(bytes.as_slice())
    }
}

/// The amount after the first symbol of `currency`.
pub fn find_currency(input: &[u8], currency: char, comma: bool) -> (r: Option<
    (Number, (usize, usize)),
>)
    ensures
        opt_found(r) == spec_find_currency(input@, currency, comma),
        r matches Some((_, (begin, end))) ==> begin < end <= input@.len(),
{
    match find_symbol(input, currency) {
        Some(begin) => match extract_currency(input, currency, begin, comma) {
            Some((n, end)) => Some((n, (begin, end))),
            None => None,
        },
        None => None,
    }
}

/// The amount after the last symbol of `currency`.
pub fn rfind_currency(input: &[u8], currency: char, comma: bool) -> (r: Option<
    (Number, (usize, usize)),
>)
    ensures
        opt_found(r) == spec_rfind_currency(input@, currency, comma),
        r matches Some((_, (begin, end))) ==> begin < end <= input@.len(),
{
    match rfind_symbol(input, currency) {
        Some(begin) => match extract_currency(input, currency, begin, comma) {
            Some((n, end)) => Some((n, (begin, end))),
            None => None,
        },
        None => None,
    }
}

} // verus!
