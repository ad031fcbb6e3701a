//! Cutting a text into lines.

use std::ops::Range;
use vstd::prelude::*;
use crate::parsers::currency::lemma_find_single;
use crate::parsers::text::{
    ends_with_byte, find_byte, find_from, head, is_single_byte, lemma_find_byte_from,
    lemma_find_byte_tail, lemma_find_from, lemma_find_tail, spec_find_byte, tail, StrOps,
};

verus! {

/// The parts of a text between occurrences of one byte.
pub struct FastSplitChar<'h> {
    pub haystack: &'h [u8],
    pub needle: u8,
    pub prev: usize,
}

/// The parts of a text between occurrences of a run of bytes.
pub struct FastSplitStr<'h, 'n> {
    pub haystack: &'h [u8],
    pub needle: &'n [u8],
    pub prev: usize,
}

/// The parts of a text between occurrences of a separator.
pub enum FastSplit<'h, 'n> {
    Char(FastSplitChar<'h>),
    Str(FastSplitStr<'h, 'n>),
}

/// Where a text is being cut: the text, what separates its parts, and where
/// the next part begins.
pub struct Split {
    pub data: Seq<u8>,
    pub sep: Seq<u8>,
    pub prev: int,
}

impl Split {
    /// The range of the next part and the state after it; `None` once the
    /// text is used up. A part ends where the separator next stands, or at
    /// the end of the text. A text that ends with the separator has no empty
    /// part after it.
    pub open spec fn next(self) -> Option<((int, int), Split)> {
        if self.prev >= self.data.len() {
            None
        } else {
            match find_from(self.data, self.sep, self.prev) {
                Some(pos) => Some(((self.prev, pos), Split { prev: pos + self.sep.len(), ..self })),
                None => Some(
                    ((self.prev, self.data.len() as int), Split { prev: self.data.len() as int, ..self }),
                ),
            }
        }
    }

    pub open spec fn wf(self) -> bool {
        0 <= self.prev <= self.data.len() && self.sep.len() > 0
    }

    /// How much of the text is still to be cut.
    pub open spec fn remaining(self) -> int {
        self.data.len() - self.prev
    }

    /// Each part lies in the text, at or after where the one before ended,
    /// and taking it leaves less to cut.
    pub proof fn lemma_next(self)
        requires
            self.wf(),
        ensures
            match self.next() {
                Some(((begin, end), after)) => {
                    &&& self.prev == begin <= end <= self.data.len()
                    &&& after.wf()
                    &&& after.remaining() < self.remaining()
                    &&& after.data == self.data
                    &&& after.sep == self.sep
                },
                None => self.remaining() == 0,
            },
    {
        lemma_find_from(self.data, self.sep, self.prev);
    }
}

impl<'h> FastSplitChar<'h> {
    pub open spec fn view(&self) -> Split {
        Split { data: self.haystack@, sep: seq![self.needle], prev: self.prev as int }
    }

    pub fn new(needle: char, haystack: &'h [u8]) -> (s: Self)
        requires
            is_single_byte(needle),
        ensures
            s@ == (Split { data: haystack@, sep: seq![needle as u8], prev: 0 }),
            s@.wf(),
            s.haystack == haystack,
    {
        FastSplitChar { haystack, needle: needle as u8, prev: 0 }
    }

    pub fn next(&mut self) -> (r: Option<Range<usize>>)
        requires
            old(self)@.wf(),
        ensures
            final(self).haystack == old(self).haystack,
            final(self)@.wf(),
            match r {
                Some(range) => old(self)@.next() == Some(
                    ((range.start as int, range.end as int), final(self)@),
                ),
                None => old(self)@.next() is None && final(self)@ == old(self)@,
            },
    {
        let len = self.haystack.len();
        if self.prev >= len {
            return None;
        }
        let begin = self.prev;
        proof {
            lemma_find_single(self.haystack@, self.needle, begin as int);
            lemma_find_byte_tail(self.haystack@, self.needle, begin as int, begin as int);
            lemma_find_byte_from(self.haystack@, self.needle, begin as int);
        }
        match tail(self.haystack, begin).find_fast_byte(self.needle) {
            Some(at) => {
                self.prev = begin + at + 1;
                Some(begin..begin + at)
            },
            None => {
                self.prev = len;
                Some(begin..len)
            },
        }
    }
}

impl<'h, 'n> FastSplitStr<'h, 'n> {
    pub open spec fn view(&self) -> Split {
        Split { data: self.haystack@, sep: self.needle@, prev: self.prev as int }
    }

    pub fn new(needle: &'n [u8], haystack: &'h [u8]) -> (s: Self)
        requires
            needle@.len() > 0,
        ensures
            s@ == (Split { data: haystack@, sep: needle@, prev: 0 }),
            s@.wf(),
            s.haystack == haystack,
    {
        FastSplitStr { haystack, needle, prev: 0 }
    }

    pub fn next(&mut self) -> (r: Option<Range<usize>>)
        requires
            old(self)@.wf(),
        ensures
            final(self).haystack == old(self).haystack,
            final(self)@.wf(),
            match r {
                Some(range) => old(self)@.next() == Some(
                    ((range.start as int, range.end as int), final(self)@),
                ),
                None => old(self)@.next() is None && final(self)@ == old(self)@,
            },
    {
        let len = self.haystack.len();
        if self.prev >= len {
            return None;
        }
        let begin = self.prev;
        proof {
            lemma_find_tail(self.haystack@, self.needle@, begin as int, begin as int);
            lemma_find_from(self.haystack@, self.needle@, begin as int);
        }
        match tail(self.haystack, begin).find_fast_str(self.needle) {
            Some(at) => {
                self.prev = begin + at + self.needle.len();
                Some(begin..begin + at)
            },
            None => {
                self.prev = len;
                Some(begin..len)
            },
        }
    }
}

impl<'h, 'n> FastSplit<'h, 'n> {
    pub open spec fn view(&self) -> Split {
        match self {
            FastSplit::Char(v) => v@,
            FastSplit::Str(v) => v@,
        }
    }

    /// The text being cut.
    pub open spec fn haystack(&self) -> &'h [u8] {
        match self {
            FastSplit::Char(v) => v.haystack,
            FastSplit::Str(v) => v.haystack,
        }
    }

    pub fn from_char(needle: char, haystack: &'h [u8]) -> (s: Self)
        requires
            is_single_byte(needle),
        ensures
            s@ == (Split { data: haystack@, sep: seq![needle as u8], prev: 0 }),
            s@.wf(),
            s.haystack() == haystack,
    {
        FastSplit::Char(FastSplitChar::new(needle, haystack))
    }

    pub fn from_str(needle: &'n [u8], haystack: &'h [u8]) -> (s: Self)
        requires
            needle@.len() > 0,
        ensures
            s@ == (Split { data: haystack@, sep: needle@, prev: 0 }),
            s@.wf(),
            s.haystack() == haystack,
    {
        FastSplit::Str(FastSplitStr::new(needle, haystack))
    }

    pub fn next(&mut self) -> (r: Option<Range<usize>>)
        requires
            old(self)@.wf(),
        ensures
            final(self).haystack() == old(self).haystack(),
            final(self)@.wf(),
            match r {
                Some(range) => old(self)@.next() == Some(
                    ((range.start as int, range.end as int), final(self)@),
                ),
                None => old(self)@.next() is None && final(self)@ == old(self)@,
            },
    {
        match self {
            FastSplit::Char(v) => v.next(),
            FastSplit::Str(v) => v.next(),
        }
    }
}

/// What separates the lines of `text`: a carriage return and a line feed
/// where the first line feed follows a carriage return, a line feed alone
/// otherwise.
pub open spec fn line_separator(text: Seq<u8>) -> Seq<u8> {
    match spec_find_byte(text, 0x0a) {
        Some(end) => if end > 0 && text[end - 1] == 0x0d {
            seq![0x0du8, 0x0a]
        } else {
            seq![0x0au8]
        },
        None => seq![0x0au8],
    }
}

/// Cuts `haystack` into lines, by the separator that its first line ends
/// with.
pub fn split_lines<'h>(haystack: &'h [u8]) -> (s: FastSplit<'h, 'static>)
    ensures
        s@ == (Split { data: haystack@, sep: line_separator(haystack@), prev: 0 }),
        s@.wf(),
        s.haystack() == haystack,
{
    if let Some(end) = find_byte(haystack, 0x0a) {
        if ends_with_byte(head(haystack, end), 0x0d) {
            let crlf = "\r\n".as_bytes();
            proof {
                reveal_strlit("\r\n");
                assert(vstd::string::is_ascii("\r\n")) by {
                    assert("\r\n"@.len() == 2);
                }
                vstd::string::is_ascii_spec_bytes("\r\n");
                assert(crlf@ =~= seq![0x0du8, 0x0a]);
            }
            return FastSplit::from_str(crlf, haystack);
        }
    }
    FastSplit::from_char('\n', haystack)
}

} // verus!
