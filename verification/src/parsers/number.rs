//! Numbers and amounts of money, read from the beginning of a line.
//!
//! Two ways of writing a number are read: digits alone, and digits with
//! thousands separators. Which one a site uses is a flag, `comma`.

use vstd::prelude::*;
use vstd::utf8::encode_scalar;
use crate::parsers::text::{
    cut, find_byte, find_byte_from, find_from, head, lemma_find_byte_from, lemma_find_from,
    lemma_find_tail, lemma_rfind_upto, occurs_at, opt_int, rfind_upto, spec_find, spec_find_byte,
    spec_rfind, tail, StrOps,
};
use crate::pklp::number::Number;

verus! {

/// Why a number could not be read.
#[derive(Debug, Clone, Copy, PartialEq, Eq, Structural)]
pub enum NumberError {
    /// A byte that is neither a digit nor a separator stands where a digit
    /// is due.
    InvalidDigit,
    /// The number is larger than its type holds.
    Overflow,
}

/// Whether `b` is one of the ten digits.
pub open spec fn is_digit(b: u8) -> bool {
    0x30 <= b <= 0x39
}

/// Whether `b` can stand inside a number: a digit, or with `comma` a
/// separator.
pub open spec fn is_number_byte(b: u8, comma: bool) -> bool {
    is_digit(b) || (comma && b == 0x2c)
}

/// Where the run of number bytes that begins at `from` ends.
pub open spec fn run_end(s: Seq<u8>, comma: bool, from: int) -> int
    decreases s.len() - from,
{
    if 0 <= from < s.len() && is_number_byte(s[from], comma) {
        run_end(s, comma, from + 1)
    } else {
        from
    }
}

/// The run ends within the line, at or after where it began.
pub proof fn lemma_run_end(s: Seq<u8>, comma: bool, from: int)
    requires
        0 <= from <= s.len(),
    ensures
        from <= run_end(s, comma, from) <= s.len(),
    decreases s.len() - from,
{
    if from < s.len() && is_number_byte(s[from], comma) {
        lemma_run_end(s, comma, from + 1);
    }
}

/// The length of the integer that `s` begins with.
pub open spec fn spec_extract_integer(s: Seq<u8>, comma: bool) -> Option<int> {
    if run_end(s, comma, 0) > 0 {
        Some(run_end(s, comma, 0))
    } else {
        None
    }
}

/// The length of the number that `s` begins with: an integer, then
/// perhaps a point and more digits. With `comma`, the integer before the
/// point may be missing.
pub open spec fn spec_extract_float(s: Seq<u8>, comma: bool) -> Option<int> {
    let i = run_end(s, comma, 0);
    if i > 0 {
        if i < s.len() && s[i] == 0x2e && run_end(s, comma, i + 1) > i + 1 {
            Some(run_end(s, comma, i + 1))
        } else {
            Some(i)
        }
    } else if comma && s.len() > 0 && s[0] == 0x2e && run_end(s, comma, 1) > 1 {
        Some(run_end(s, comma, 1))
    } else {
        None
    }
}

/// A number that is there has a length, and ends within the line.
pub proof fn lemma_extract_float(s: Seq<u8>, comma: bool)
    ensures
        spec_extract_float(s, comma) matches Some(i) ==> 0 < i <= s.len(),
{
    lemma_run_end(s, comma, 0);
    let i = run_end(s, comma, 0);
    if i < s.len() {
        lemma_run_end(s, comma, i + 1);
    }
    if s.len() > 0 {
        lemma_run_end(s, comma, 1);
    }
}

/// The number that the digits of `s` write, separators passed over.
pub open spec fn digits_value(s: Seq<u8>) -> nat
    decreases s.len(),
{
    if s.len() == 0 {
        0
    } else if s.last() == 0x2c {
        digits_value(s.drop_last())
    } else {
        digits_value(s.drop_last()) * 10 + (s.last() - 0x30) as nat
    }
}

/// Whether every byte of `s` is a digit or a separator.
pub open spec fn all_number_bytes(s: Seq<u8>) -> bool {
    forall|j: int| 0 <= j < s.len() ==> is_number_byte(#[trigger] s[j], true)
}

/// Where the integer part of `s` ends: at the first point, or at the end.
pub open spec fn int_part_end(s: Seq<u8>) -> int {
    match spec_find_byte(s, 0x2e) {
        Some(i) => i,
        None => s.len() as int,
    }
}

/// The integer part of a number: what stands before the first point, read
/// as digits with separators passed over.
pub open spec fn spec_str_to_integer(s: Seq<u8>) -> Result<u64, NumberError> {
    let part = s.subrange(0, int_part_end(s));
    if !all_number_bytes(part) {
        Err(NumberError::InvalidDigit)
    } else if digits_value(part) > u64::MAX {
        Err(NumberError::Overflow)
    } else {
        Ok(digits_value(part) as u64)
    }
}

/// The digit at index `at`, or 0 where the line has ended.
pub open spec fn digit_or_zero(s: Seq<u8>, at: int) -> Option<int> {
    if at >= s.len() {
        Some(0)
    } else if is_digit(s[at]) {
        Some(s[at] - 0x30)
    } else {
        None
    }
}

/// An amount: the integer part, then the two digits after the first point,
/// each taken as 0 where it is missing. What follows them is not read.
pub open spec fn spec_str_to_float(s: Seq<u8>) -> Result<Number, NumberError> {
    let end = int_part_end(s);
    let part = s.subrange(0, end);
    if !all_number_bytes(part) {
        Err(NumberError::InvalidDigit)
    } else {
        match (digit_or_zero(s, end + 1), digit_or_zero(s, end + 2)) {
            (Some(tenth), Some(hundredth)) => {
                let total = digits_value(part) * 100 + tenth * 10 + hundredth;
                if total > u32::MAX {
                    Err(NumberError::Overflow)
                } else {
                    Ok(Number(total as u32))
                }
            },
            _ => Err(NumberError::InvalidDigit),
        }
    }
}

/// The integer that `s` begins with, and its length.
pub open spec fn spec_parse_integer(s: Seq<u8>, comma: bool) -> Option<(u64, int)> {
    match spec_extract_integer(s, comma) {
        Some(i) => match spec_str_to_integer(s.subrange(0, i)) {
            Ok(v) => Some((v, i)),
            Err(_) => None,
        },
        None => None,
    }
}

/// The amount that `s` begins with, and its length.
pub open spec fn spec_parse_float(s: Seq<u8>, comma: bool) -> Option<(Number, int)> {
    match spec_extract_float(s, comma) {
        Some(i) => match spec_str_to_float(s.subrange(0, i)) {
            Ok(v) => Some((v, i)),
            Err(_) => None,
        },
        None => None,
    }
}

fn is_number_byte_exec(b: u8, comma: bool) -> (r: bool)
    ensures
        r == is_number_byte(b, comma),
{
    (0x30 <= b && b <= 0x39) || (comma && b == 0x2c)
}

/// Where the run of number bytes that begins at `from` ends.
fn scan_run(s: &[u8], comma: bool, from: usize) -> (end: usize)
    requires
        from <= s@.len(),
    ensures
        end == run_end(s@, comma, from as int),
        from <= end <= s@.len(),
{
    let mut i: usize = from;
    while i < s.len() && is_number_byte_exec(s[i], comma)
        invariant
            from <= i <= s@.len(),
            run_end(s@, comma, from as int) == run_end(s@, comma, i as int),
        decreases s@.len() - i,
    {
        i += 1;
    }
    i
}

/// The length of the integer that `input` begins with.
pub fn extract_integer(input: &[u8], comma: bool) -> (r: Option<usize>)
    ensures
        opt_int(r) == spec_extract_integer(input@, comma),
        r matches Some(i) ==> 0 < i <= input@.len(),
{
    let end = scan_run(input, comma, 0);
    if end > 0 {
        Some(end)
    } else {
        None
    }
}

/// The length of the number that `input` begins with.
pub fn extract_float(input: &[u8], comma: bool) -> (r: Option<usize>)
    ensures
        opt_int(r) == spec_extract_float(input@, comma),
        r matches Some(i) ==> 0 < i <= input@.len(),
{
    let i = scan_run(input, comma, 0);
    if i > 0 {
        if i < input.len() && input[i] == 0x2e {
            let x = scan_run(input, comma, i + 1);
            if x > i + 1 {
                Some(x)
            } else {
                Some(i)
            }
        } else {
            Some(i)
        }
    } else if comma && input.len() > 0 && input[0] == 0x2e {
        let x = scan_run(input, comma, 1);
        if x > 1 {
            Some(x)
        } else {
            None
        }
    } else {
        None
    }
}

/// The value of a run of digits never shrinks as the run grows.
proof fn lemma_digits_value_prefix(s: Seq<u8>, k: int)
    requires
        0 <= k <= s.len(),
        all_number_bytes(s),
    ensures
        digits_value(s.subrange(0, k)) <= digits_value(s),
    decreases s.len() - k,
{
    if k < s.len() {
        let t = s.subrange(0, k + 1);
        assert(t.drop_last() =~= s.subrange(0, k));
        assert(t.last() == s[k]);
        assert(is_number_byte(s[k], true));
        lemma_digits_value_prefix(s, k + 1);
    } else {
        assert(s.subrange(0, k) =~= s);
    }
}

/// Reads digits, with separators passed over, up to `end`. `None` where a
/// byte is neither, `Some(None)` where the value outgrows 64 bits.
fn read_digits(s: &[u8], end: usize) -> (r: Option<Option<u64>>)
    requires
        end <= s@.len(),
    ensures
        r is None <==> !all_number_bytes(s@.subrange(0, end as int)),
        r matches Some(None) ==> digits_value(s@.subrange(0, end as int)) > u64::MAX,
        r matches Some(Some(v)) ==> v == digits_value(s@.subrange(0, end as int)),
{
    let ghost part = s@.subrange(0, end as int);
    let mut value: u64 = 0;
    let mut i: usize = 0;
    while i < end
        invariant
            i <= end <= s@.len(),
            part == s@.subrange(0, end as int),
            forall|j: int| 0 <= j < i ==> is_number_byte(#[trigger] part[j], true),
            value == digits_value(part.subrange(0, i as int)),
        decreases end - i,
    {
        let b = s[i];
        proof {
            assert(part[i as int] == b);
            let t = part.subrange(0, i + 1);
            assert(t.drop_last() =~= part.subrange(0, i as int));
            assert(t.last() == b);
        }
        if b == 0x2c {
        } else if 0x30 <= b && b <= 0x39 {
            let d = (b - 0x30) as u64;
            if value > (u64::MAX - d) / 10 {
                // The value can only grow from here on; whether the rest is
                // made of number bytes decides which failure this is.
                let mut k: usize = i + 1;
                while k < end
                    invariant
                        i < k <= end <= s@.len(),
                        part == s@.subrange(0, end as int),
                        forall|j: int| 0 <= j < k ==> is_number_byte(#[trigger] part[j], true),
                    decreases end - k,
                {
                    if !is_number_byte_exec(s[k], true) {
                        proof {
                            assert(part[k as int] == s@[k as int]);
                        }
                        return None;
                    }
                    proof {
                        assert(part[k as int] == s@[k as int]);
                    }
                    k += 1;
                }
                proof {
                    lemma_digits_value_prefix(part, i + 1);
                    assert(digits_value(part.subrange(0, i + 1)) == value * 10 + d);
                }
                return Some(None);
            }
            value = value * 10 + d;
        } else {
            return None;
        }
        i += 1;
    }
    proof {
        assert(part.subrange(0, end as int) =~= part);
    }
    Some(Some(value))
}

/// The integer part of a number.
pub fn str_to_integer(input: &[u8]) -> (r: Result<u64, NumberError>)
    ensures
        r == spec_str_to_integer(input@),
{
    let end = match find_byte(input, 0x2e) {
        Some(i) => i,
        None => input.len(),
    };
    match read_digits(input, end) {
        None => Err(NumberError::InvalidDigit),
        Some(None) => Err(NumberError::Overflow),
        Some(Some(v)) => Ok(v),
    }
}

fn digit_at(s: &[u8], at: usize) -> (r: Option<u8>)
    ensures
        match r {
            Some(d) => digit_or_zero(s@, at as int) == Some(d as int) && d <= 9,
            None => digit_or_zero(s@, at as int) is None,
        },
{
    if at >= s.len() {
        Some(0)
    } else if 0x30 <= s[at] && s[at] <= 0x39 {
        Some(s[at] - 0x30)
    } else {
        None
    }
}

/// An amount: its integer part and two decimals.
pub fn str_to_float(input: &[u8]) -> (r: Result<Number, NumberError>)
    ensures
        r == spec_str_to_float(input@),
{
    let _len = input.len();
    let end = match find_byte(input, 0x2e) {
        Some(i) => i,
        None => input.len(),
    };
    let value = match read_digits(input, end) {
        None => {
            return Err(NumberError::InvalidDigit);
        },
        Some(v) => v,
    };
    // `end` is at most the length of a slice, so `end + 2` cannot wrap
    // unless the slice fills the address space; guard for that all the same.
    if end >= usize::MAX - 1 {
        return match value {
            None => Err(NumberError::Overflow),
            Some(v) => {
                if v > 42_949_672 {
                    Err(NumberError::Overflow)
                } else {
                    let total: u64 = v * 100;
                    if total > 0xffff_ffff {
                        Err(NumberError::Overflow)
                    } else {
                        Ok(Number(total as u32))
                    }
                }
            },
        };
    }
    let tenth = match digit_at(input, end + 1) {
        None => {
            return Err(NumberError::InvalidDigit);
        },
        Some(d) => d,
    };
    let hundredth = match digit_at(input, end + 2) {
        None => {
            return Err(NumberError::InvalidDigit);
        },
        Some(d) => d,
    };
    match value {
        None => Err(NumberError::Overflow),
        Some(v) => {
            if v > 42_949_672 {
                Err(NumberError::Overflow)
            } else {
                let total: u64 = v * 100 + (tenth as u64) * 10 + hundredth as u64;
                if total > 0xffff_ffff {
                    Err(NumberError::Overflow)
                } else {
                    Ok(Number(total as u32))
                }
            }
        },
    }
}

/// The integer that `input` begins with, and its length.
pub fn parse_integer(input: &[u8], comma: bool) -> (r: Option<(u64, usize)>)
    ensures
        match r {
            Some((v, i)) => spec_parse_integer(input@, comma) == Some((v, i as int)) && 0 < i
                <= input@.len(),
            None => spec_parse_integer(input@, comma) is None,
        },
{
    match extract_integer(input, comma) {
        Some(i) => match str_to_integer(head(input, i)) {
            Ok(v) => Some((v, i)),
            Err(_) => None,
        },
        None => None,
    }
}

/// The amount that `input` begins with, and its length.
pub fn parse_float(input: &[u8], comma: bool) -> (r: Option<(Number, usize)>)
    ensures
        match r {
            Some((v, i)) => spec_parse_float(input@, comma) == Some((v, i as int)) && 0 < i
                <= input@.len(),
            None => spec_parse_float(input@, comma) is None,
        },
{
    match extract_float(input, comma) {
        Some(i) => match str_to_float(head(input, i)) {
            Ok(v) => Some((v, i)),
            Err(_) => None,
        },
        None => None,
    }
}

} // verus!
