//! Searching and cutting lines of bytes.
//!
//! Every search is stated as what it finds: the first or the last place
//! where a byte or a run of bytes stands.

use vstd::prelude::*;
use vstd::slice::slice_subrange;
use crate::parsers::split::{FastSplit, Split};
use vstd::string::StringSliceAdditionalSpecFns;

verus! {

/// The bytes of a literal.
pub open spec fn lit(s: &str) -> Seq<u8> {
    s.spec_bytes()
}

/// An index as a mathematical integer.
pub open spec fn opt_int(r: Option<usize>) -> Option<int> {
    match r {
        Some(i) => Some(i as int),
        None => None,
    }
}

/// Whether `p` stands in `s` at index `i`.
pub open spec fn occurs_at(s: Seq<u8>, p: Seq<u8>, i: int) -> bool {
    0 <= i && i + p.len() <= s.len() && s.subrange(i, i + p.len()) == p
}

/// The first index at or after `from` where `b` stands.
pub open spec fn find_byte_from(s: Seq<u8>, b: u8, from: int) -> Option<int>
    decreases s.len() - from,
{
    if from < 0 || from >= s.len() {
        None
    } else if s[from] == b {
        Some(from)
    } else {
        find_byte_from(s, b, from + 1)
    }
}

/// The first index where `b` stands.
pub open spec fn spec_find_byte(s: Seq<u8>, b: u8) -> Option<int> {
    find_byte_from(s, b, 0)
}

/// The last index before `upto` where `b` stands.
pub open spec fn rfind_byte_upto(s: Seq<u8>, b: u8, upto: int) -> Option<int>
    decreases upto,
{
    if upto <= 0 || upto > s.len() {
        None
    } else if s[upto - 1] == b {
        Some(upto - 1)
    } else {
        rfind_byte_upto(s, b, upto - 1)
    }
}

/// The last index where `b` stands.
pub open spec fn spec_rfind_byte(s: Seq<u8>, b: u8) -> Option<int> {
    rfind_byte_upto(s, b, s.len() as int)
}

/// The first index at or after `from` where `p` stands.
pub open spec fn find_from(s: Seq<u8>, p: Seq<u8>, from: int) -> Option<int>
    decreases s.len() - from + 1,
{
    if from < 0 || from + p.len() > s.len() {
        None
    } else if occurs_at(s, p, from) {
        Some(from)
    } else {
        find_from(s, p, from + 1)
    }
}

/// The first index where `p` stands.
pub open spec fn spec_find(s: Seq<u8>, p: Seq<u8>) -> Option<int> {
    find_from(s, p, 0)
}

/// The last index at or before `last` where `p` stands.
pub open spec fn rfind_upto(s: Seq<u8>, p: Seq<u8>, last: int) -> Option<int>
    decreases last + 1,
{
    if last < 0 || last + p.len() > s.len() {
        None
    } else if occurs_at(s, p, last) {
        Some(last)
    } else {
        rfind_upto(s, p, last - 1)
    }
}

/// The last index where `p` stands.
pub open spec fn spec_rfind(s: Seq<u8>, p: Seq<u8>) -> Option<int> {
    rfind_upto(s, p, s.len() - p.len())
}

pub open spec fn spec_starts_with(s: Seq<u8>, p: Seq<u8>) -> bool {
    occurs_at(s, p, 0)
}

pub open spec fn spec_ends_with(s: Seq<u8>, p: Seq<u8>) -> bool {
    occurs_at(s, p, s.len() - p.len())
}

/// What `find_byte_from` returns is the least index with the byte.
pub proof fn lemma_find_byte_from(s: Seq<u8>, b: u8, from: int)
    requires
        0 <= from,
    ensures
        match find_byte_from(s, b, from) {
            Some(i) => from <= i < s.len() && s[i] == b && forall|j: int|
                from <= j < i ==> s[j] != b,
            None => forall|j: int| from <= j < s.len() ==> s[j] != b,
        },
    decreases s.len() - from,
{
    if from < s.len() && s[from] != b {
        lemma_find_byte_from(s, b, from + 1);
    }
}

/// What `rfind_byte_upto` returns is the greatest index with the byte.
pub proof fn lemma_rfind_byte_upto(s: Seq<u8>, b: u8, upto: int)
    requires
        upto <= s.len(),
    ensures
        match rfind_byte_upto(s, b, upto) {
            Some(i) => 0 <= i < upto && s[i] == b && forall|j: int| i < j < upto ==> s[j] != b,
            None => forall|j: int| 0 <= j < upto ==> s[j] != b,
        },
    decreases upto,
{
    if upto > 0 && s[upto - 1] != b {
        lemma_rfind_byte_upto(s, b, upto - 1);
    }
}

/// What `find_from` returns is the least index where the run stands.
pub proof fn lemma_find_from(s: Seq<u8>, p: Seq<u8>, from: int)
    requires
        0 <= from,
    ensures
        match find_from(s, p, from) {
            Some(i) => from <= i && occurs_at(s, p, i) && forall|j: int|
                from <= j < i ==> !occurs_at(s, p, j),
            None => forall|j: int| from <= j ==> !occurs_at(s, p, j),
        },
    decreases s.len() - from + 1,
{
    if from + p.len() <= s.len() && !occurs_at(s, p, from) {
        lemma_find_from(s, p, from + 1);
    }
}

/// What `rfind_upto` returns is the greatest index where the run stands.
pub proof fn lemma_rfind_upto(s: Seq<u8>, p: Seq<u8>, last: int)
    requires
        last + p.len() <= s.len(),
    ensures
        match rfind_upto(s, p, last) {
            Some(i) => 0 <= i <= last && occurs_at(s, p, i) && forall|j: int|
                i < j <= last ==> !occurs_at(s, p, j),
            None => forall|j: int| 0 <= j <= last ==> !occurs_at(s, p, j),
        },
    decreases last + 1,
{
    if last >= 0 && !occurs_at(s, p, last) {
        lemma_rfind_upto(s, p, last - 1);
    }
}

/// Whether `p` stands in `s` at `i`.
pub fn matches_at(s: &[u8], p: &[u8], i: usize) -> (m: bool)
    requires
        i + p@.len() <= s@.len(),
    ensures
        m == occurs_at(s@, p@, i as int),
{
    let _len = s.len();
    let mut k: usize = 0;
    while k < p.len()
        invariant
            k <= p@.len(),
            i + p@.len() <= s@.len() <= usize::MAX,
            forall|j: int| 0 <= j < k ==> s@[i + j] == p@[j],
        decreases p@.len() - k,
    {
        if s[i + k] != p[k] {
            proof {
                assert(s@.subrange(i as int, i + p@.len())[k as int] == s@[i + k]);
            }
            return false;
        }
        k += 1;
    }
    assert(s@.subrange(i as int, i + p@.len()) =~= p@);
    true
}

pub fn starts_with(s: &[u8], p: &[u8]) -> (m: bool)
    ensures
        m == spec_starts_with(s@, p@),
{
    if p.len() > s.len() {
        false
    } else {
        matches_at(s, p, 0)
    }
}

pub fn ends_with(s: &[u8], p: &[u8]) -> (m: bool)
    ensures
        m == spec_ends_with(s@, p@),
{
    if p.len() > s.len() {
        false
    } else {
        matches_at(s, p, s.len() - p.len())
    }
}

pub fn starts_with_byte(s: &[u8], b: u8) -> (m: bool)
    ensures
        m == (s@.len() > 0 && s@[0] == b),
{
    s.len() > 0 && s[0] == b
}

pub fn ends_with_byte(s: &[u8], b: u8) -> (m: bool)
    ensures
        m == (s@.len() > 0 && s@[s@.len() - 1] == b),
{
    s.len() > 0 && s[s.len() - 1] == b
}

/// Whether the two lines hold the same bytes.
pub fn equal(s: &[u8], p: &[u8]) -> (m: bool)
    ensures
        m == (s@ == p@),
{
    if s.len() != p.len() {
        return false;
    }
    let m = matches_at(s, p, 0);
    proof {
        assert(s@.subrange(0, s@.len() as int) =~= s@);
    }
    m
}

pub fn find_byte(s: &[u8], b: u8) -> (r: Option<usize>)
    ensures
        opt_int(r) == spec_find_byte(s@, b),
        r matches Some(i) ==> i < s@.len() <= usize::MAX && s@[i as int] == b,
{
    let _len = s.len();
    proof {
        lemma_find_byte_from(s@, b, 0);
    }
    let mut i: usize = 0;
    while i < s.len()
        invariant
            i <= s@.len(),
            find_byte_from(s@, b, 0) == find_byte_from(s@, b, i as int),
        decreases s@.len() - i,
    {
        if s[i] == b {
            return Some(i);
        }
        i += 1;
    }
    None
}

pub fn rfind_byte(s: &[u8], b: u8) -> (r: Option<usize>)
    ensures
        opt_int(r) == spec_rfind_byte(s@, b),
        r matches Some(i) ==> i < s@.len() <= usize::MAX && s@[i as int] == b,
{
    let _len = s.len();
    proof {
        lemma_rfind_byte_upto(s@, b, s@.len() as int);
    }
    let mut i: usize = s.len();
    while i > 0
        invariant
            i <= s@.len(),
            spec_rfind_byte(s@, b) == rfind_byte_upto(s@, b, i as int),
        decreases i,
    {
        if s[i - 1] == b {
            return Some(i - 1);
        }
        i -= 1;
    }
    None
}

pub fn find(s: &[u8], p: &[u8]) -> (r: Option<usize>)
    ensures
        opt_int(r) == spec_find(s@, p@),
        r matches Some(i) ==> i + p@.len() <= s@.len() <= usize::MAX,
{
    proof {
        lemma_find_from(s@, p@, 0);
    }
    if p.len() > s.len() {
        return None;
    }
    let last = s.len() - p.len();
    let mut i: usize = 0;
    loop
        invariant
            last == s@.len() - p@.len(),
            s@.len() <= usize::MAX,
            i <= last,
            find_from(s@, p@, 0) == find_from(s@, p@, i as int),
        decreases last - i,
    {
        if matches_at(s, p, i) {
            return Some(i);
        }
        if i == last {
            return None;
        }
        i += 1;
    }
}

pub fn rfind(s: &[u8], p: &[u8]) -> (r: Option<usize>)
    ensures
        opt_int(r) == spec_rfind(s@, p@),
        r matches Some(i) ==> i + p@.len() <= s@.len() <= usize::MAX,
{
    proof {
        lemma_rfind_upto(s@, p@, s@.len() - p@.len());
    }
    if p.len() > s.len() {
        return None;
    }
    let mut i: usize = s.len() - p.len();
    loop
        invariant
            i <= s@.len() - p@.len(),
            s@.len() <= usize::MAX,
            spec_rfind(s@, p@) == rfind_upto(s@, p@, i as int),
        decreases i,
    {
        if matches_at(s, p, i) {
            return Some(i);
        }
        if i == 0 {
            return None;
        }
        i -= 1;
    }
}

/// The first index at or after `from` where `b` stands.
pub fn find_byte_at(s: &[u8], b: u8, from: usize) -> (r: Option<usize>)
    ensures
        opt_int(r) == find_byte_from(s@, b, from as int),
        r matches Some(i) ==> from <= i < s@.len() <= usize::MAX && s@[i as int] == b,
{
    let _len = s.len();
    proof {
        lemma_find_byte_from(s@, b, from as int);
    }
    let mut i: usize = from;
    while i < s.len()
        invariant
            from <= i,
            find_byte_from(s@, b, from as int) == find_byte_from(s@, b, i as int),
        decreases s@.len() - i,
    {
        if s[i] == b {
            return Some(i);
        }
        i += 1;
    }
    None
}

/// The first index at or after `from` where `p` stands.
pub fn find_at(s: &[u8], p: &[u8], from: usize) -> (r: Option<usize>)
    ensures
        opt_int(r) == find_from(s@, p@, from as int),
        r matches Some(i) ==> from <= i && i + p@.len() <= s@.len() <= usize::MAX,
{
    let _len = s.len();
    if from > s.len() {
        return None;
    }
    proof {
        lemma_find_tail(s@, p@, from as int, from as int);
        lemma_find_from(s@, p@, from as int);
    }
    match find(tail(s, from), p) {
        Some(i) => Some(from + i),
        None => None,
    }
}

/// The part of `s` from `from` on.
pub fn tail(s: &[u8], from: usize) -> (t: &[u8])
    requires
        from <= s@.len(),
    ensures
        t@ == s@.subrange(from as int, s@.len() as int),
{
    slice_subrange(s, from, s.len())
}

/// The part of `s` before `to`.
pub fn head(s: &[u8], to: usize) -> (t: &[u8])
    requires
        to <= s@.len(),
    ensures
        t@ == s@.subrange(0, to as int),
{
    slice_subrange(s, 0, to)
}

/// The part of `s` from `from` up to `to`.
pub fn cut(s: &[u8], from: usize, to: usize) -> (t: &[u8])
    requires
        from <= to <= s@.len(),
    ensures
        t@ == s@.subrange(from as int, to as int),
{
    slice_subrange(s, from, to)
}

/// Searching within a part of a line finds what searching the line from
/// the part's beginning finds.
pub proof fn lemma_find_byte_tail(s: Seq<u8>, b: u8, from: int, at: int)
    requires
        0 <= from <= at,
        from <= s.len(),
    ensures
        find_byte_from(s, b, at) == (match find_byte_from(
            s.subrange(from, s.len() as int),
            b,
            at - from,
        ) {
            Some(i) => Some(i + from),
            None => None,
        }),
    decreases s.len() - at,
{
    if at < s.len() {
        let t = s.subrange(from, s.len() as int);
        assert(t[at - from] == s[at]);
        if s[at] != b {
            lemma_find_byte_tail(s, b, from, at + 1);
        }
    }
}

/// The same, for a run of bytes.
pub proof fn lemma_find_tail(s: Seq<u8>, p: Seq<u8>, from: int, at: int)
    requires
        0 <= from <= at,
        from <= s.len(),
    ensures
        find_from(s, p, at) == (match find_from(s.subrange(from, s.len() as int), p, at - from) {
            Some(i) => Some(i + from),
            None => None,
        }),
    decreases s.len() - at + 1,
{
    if at + p.len() <= s.len() {
        let t = s.subrange(from, s.len() as int);
        assert(t.subrange(at - from, at - from + p.len()) =~= s.subrange(at, at + p.len()));
        if !occurs_at(s, p, at) {
            lemma_find_tail(s, p, from, at + 1);
        }
    }
}

/// `memchr::memchr`: the index of the first byte of `haystack` that equals
/// `needle`, `None` where no byte does.
#[verifier::external_body]
fn memchr_first(needle: u8, haystack: &[u8]) -> (r: Option<usize>)
    ensures
        opt_int(r) == spec_find_byte(haystack@, needle),
{
    memchr::memchr(needle, haystack)
}

/// `memchr::memrchr`: the index of the last byte of `haystack` that equals
/// `needle`, `None` where no byte does.
#[verifier::external_body]
fn memchr_last(needle: u8, haystack: &[u8]) -> (r: Option<usize>)
    ensures
        opt_int(r) == spec_rfind_byte(haystack@, needle),
{
    memchr::memrchr(needle, haystack)
}

/// `memchr::memmem::find`: the index of the first place in `haystack` where
/// the bytes of `needle` stand, `None` where they stand nowhere.
#[verifier::external_body]
fn memmem_first(haystack: &[u8], needle: &[u8]) -> (r: Option<usize>)
    requires
        needle@.len() > 0,
    ensures
        opt_int(r) == spec_find(haystack@, needle@),
{
    memchr::memmem::find(haystack, needle)
}

/// `memchr::memmem::rfind`: the index of the last place in `haystack` where
/// the bytes of `needle` stand, `None` where they stand nowhere.
#[verifier::external_body]
fn memmem_last(haystack: &[u8], needle: &[u8]) -> (r: Option<usize>)
    requires
        needle@.len() > 0,
    ensures
        opt_int(r) == spec_rfind(haystack@, needle@),
{
    memchr::memmem::rfind(haystack, needle)
}

/// Whether `c` is written as one byte.
pub open spec fn is_single_byte(c: char) -> bool {
    (c as u32) < 0x80
}

/// The end of the first place where `v` stands.
pub open spec fn spec_find_after(s: Seq<u8>, v: Seq<u8>) -> Option<int> {
    match spec_find(s, v) {
        Some(i) => Some(i + v.len()),
        None => None,
    }
}

/// The end of the last place where `v` stands.
pub open spec fn spec_rfind_after(s: Seq<u8>, v: Seq<u8>) -> Option<int> {
    match spec_rfind(s, v) {
        Some(i) => Some(i + v.len()),
        None => None,
    }
}

/// What stands before the first `v`, and where that `v` ends.
pub open spec fn spec_split_after(s: Seq<u8>, v: Seq<u8>) -> Option<(Seq<u8>, int)> {
    match spec_find(s, v) {
        Some(i) => Some((s.subrange(0, i), i + v.len())),
        None => None,
    }
}

/// What stands before the last `v`, and where that `v` ends.
pub open spec fn spec_rsplit_after(s: Seq<u8>, v: Seq<u8>) -> Option<(Seq<u8>, int)> {
    match spec_rfind(s, v) {
        Some(i) => Some((s.subrange(0, i), i + v.len())),
        None => None,
    }
}

/// A part of a line and an index, as mathematical values.
pub open spec fn opt_split(r: Option<(&[u8], usize)>) -> Option<(Seq<u8>, int)> {
    match r {
        Some((part, i)) => Some((part@, i as int)),
        None => None,
    }
}

/// Searches in lines of bytes, after the searches that `str` has.
pub trait StrOps {
    /// The bytes of the line.
    spec fn line(&self) -> Seq<u8>;

    /// The end of the first place where `v` stands.
    fn find_after(&self, v: &[u8]) -> (r: Option<usize>)
        ensures
            opt_int(r) == spec_find_after(self.line(), v@),
    ;

    /// The end of the last place where `v` stands.
    fn rfind_after(&self, v: &[u8]) -> (r: Option<usize>)
        ensures
            opt_int(r) == spec_rfind_after(self.line(), v@),
    ;

    /// Where `v` ends, if the line begins with it.
    fn starts_with_after(&self, v: &[u8]) -> (r: Option<usize>)
        ensures
            r == (if spec_starts_with(self.line(), v@) {
                Some(v@.len() as usize)
            } else {
                None
            }),
    ;

    /// Where `v` begins, if the line ends with it.
    fn ends_with_before(&self, v: &[u8]) -> (r: Option<usize>)
        ensures
            r == (if spec_ends_with(self.line(), v@) {
                Some((self.line().len() - v@.len()) as usize)
            } else {
                None
            }),
    ;

    /// What stands before the first `v`, and where that `v` ends.
    fn split_after(&self, v: &[u8]) -> (r: Option<(&[u8], usize)>)
        ensures
            opt_split(r) == spec_split_after(self.line(), v@),
    ;

    /// What stands before the last `v`, and where that `v` ends.
    fn rsplit_after(&self, v: &[u8]) -> (r: Option<(&[u8], usize)>)
        ensures
            opt_split(r) == spec_rsplit_after(self.line(), v@),
    ;

    /// The first index where the one-byte character `c` stands.
    fn find_fast_char(&self, c: char) -> (r: Option<usize>)
        requires
            is_single_byte(c),
        ensures
            opt_int(r) == spec_find_byte(self.line(), c as u8),
    ;

    /// The last index where the one-byte character `c` stands.
    fn rfind_fast_char(&self, c: char) -> (r: Option<usize>)
        requires
            is_single_byte(c),
        ensures
            opt_int(r) == spec_rfind_byte(self.line(), c as u8),
    ;

    /// The first index where the byte `b` stands.
    fn find_fast_byte(&self, b: u8) -> (r: Option<usize>)
        ensures
            opt_int(r) == spec_find_byte(self.line(), b),
    ;

    /// The first index where `v` stands.
    fn find_fast_str(&self, v: &[u8]) -> (r: Option<usize>)
        requires
            v@.len() > 0,
        ensures
            opt_int(r) == spec_find(self.line(), v@),
    ;

    /// The last index where `v` stands.
    fn rfind_fast_str(&self, v: &[u8]) -> (r: Option<usize>)
        requires
            v@.len() > 0,
        ensures
            opt_int(r) == spec_rfind(self.line(), v@),
    ;

    /// The parts of the line between occurrences of the one-byte character
    /// `c`.
    fn fast_split_char<'h>(&'h self, c: char) -> (s: FastSplit<'h, 'static>)
        requires
            is_single_byte(c),
        ensures
            s@ == (Split { data: self.line(), sep: seq![c as u8], prev: 0 }),
            s@.wf(),
    ;

    /// The parts of the line between occurrences of `v`.
    fn fast_split_str<'h, 'n>(&'h self, v: &'n [u8]) -> (s: FastSplit<'h, 'n>)
        requires
            v@.len() > 0,
        ensures
            s@ == (Split { data: self.line(), sep: v@, prev: 0 }),
            s@.wf(),
    ;
}

impl StrOps for [u8] {
    open spec fn line(&self) -> Seq<u8> {
        self@
    }

    fn find_after(&self, v: &[u8]) -> (r: Option<usize>) {
        match find(self, v) {
            Some(i) => Some(i + v.len()),
            None => None,
        }
    }

    fn rfind_after(&self, v: &[u8]) -> (r: Option<usize>) {
        match rfind(self, v) {
            Some(i) => Some(i + v.len()),
            None => None,
        }
    }

    fn starts_with_after(&self, v: &[u8]) -> (r: Option<usize>) {
        if starts_with(self, v) {
            Some(v.len())
        } else {
            None
        }
    }

    fn ends_with_before(&self, v: &[u8]) -> (r: Option<usize>) {
        if ends_with(self, v) {
            Some(self.len() - v.len())
        } else {
            None
        }
    }

    fn split_after(&self, v: &[u8]) -> (r: Option<(&[u8], usize)>) {
        match find(self, v) {
            Some(end) => Some((head(self, end), end + v.len())),
            None => None,
        }
    }

    fn rsplit_after(&self, v: &[u8]) -> (r: Option<(&[u8], usize)>) {
        match rfind(self, v) {
            Some(end) => Some((head(self, end), end + v.len())),
            None => None,
        }
    }

    fn find_fast_char(&self, c: char) -> (r: Option<usize>) {
        memchr_first(c as u8, self)
    }

    fn rfind_fast_char(&self, c: char) -> (r: Option<usize>) {
        memchr_last(c as u8, self)
    }

    fn find_fast_byte(&self, b: u8) -> (r: Option<usize>) {
        memchr_first(b, self)
    }

    fn find_fast_str(&self, v: &[u8]) -> (r: Option<usize>) {
        memmem_first(self, v)
    }

    fn rfind_fast_str(&self, v: &[u8]) -> (r: Option<usize>) {
        memmem_last(self, v)
    }

    fn fast_split_char<'h>(&'h self, c: char) -> (s: FastSplit<'h, 'static>) {
        FastSplit::from_char(c, self)
    }

    fn fast_split_str<'h, 'n>(&'h self, v: &'n [u8]) -> (s: FastSplit<'h, 'n>) {
        FastSplit::from_str(v, self)
    }
}

} // verus!
