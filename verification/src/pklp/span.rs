//! Packed `(begin, size)` ranges.
//!
//! A span is one 64-bit word: the low 40 bits hold where the range begins,
//! the high 24 bits hold how many elements it covers.

use vstd::prelude::*;

verus! {

/// The largest `begin` a span can hold.
pub const MAX_SPAN_BEGIN: u64 = 0xff_ffff_ffff;

/// The largest `size` a span can hold.
pub const MAX_SPAN_SIZE: u64 = 0xff_ffff;

const SHIFT_SIZE: u64 = 40;

const MASK_OFFSET: u64 = 0xff_ffff_ffff;

/// Whether `begin` and `size` fit the 40/24-bit layout.
pub open spec fn span_fits(begin: int, size: int) -> bool {
    0 <= begin <= MAX_SPAN_BEGIN && 0 <= size <= MAX_SPAN_SIZE
}

/// A range of bytes in the text buffer.
#[derive(Debug, Clone, Copy, PartialEq, Eq, Structural)]
pub struct Span(u64);

/// What every kind of span offers.
pub trait SpanLike: Sized {
    /// The span that begins at `begin` and covers `size` elements.
    spec fn spec_new(begin: int, size: int) -> Self;

    /// Where the range begins.
    spec fn spec_begin(&self) -> int;

    /// How many elements the range covers.
    spec fn spec_size(&self) -> int;

    /// A span is its two fields and nothing more.
    proof fn lemma_fields(begin: int, size: int)
        requires
            span_fits(begin, size),
        ensures
            Self::spec_new(begin, size).spec_begin() == begin,
            Self::spec_new(begin, size).spec_size() == size,
    ;

    /// Two spans with the same fields are the same span.
    proof fn lemma_canonical(&self)
        ensures
            span_fits(self.spec_begin(), self.spec_size()),
            *self == Self::spec_new(self.spec_begin(), self.spec_size()),
    ;

    fn new(begin: usize, size: usize) -> (s: Self)
        requires
            span_fits(begin as int, size as int),
        ensures
            s == Self::spec_new(begin as int, size as int),
    ;

    fn range(begin: usize, end: usize) -> (s: Self)
        requires
            begin <= end,
            span_fits(begin as int, end - begin),
        ensures
            s == Self::spec_new(begin as int, end - begin),
    ;

    fn begin(&self) -> (b: usize)
        ensures
            b == self.spec_begin(),
    ;

    fn size(&self) -> (n: usize)
        ensures
            n == self.spec_size(),
    ;

    fn is_empty(&self) -> (e: bool)
        ensures
            e == (self.spec_size() == 0),
    ;

    fn end(&self) -> (e: usize)
        requires
            self.spec_begin() + self.spec_size() <= usize::MAX,
        ensures
            e == self.spec_begin() + self.spec_size(),
    ;
}

/// Where a span ends: one past its last element.
pub open spec fn spec_end<S: SpanLike>(s: S) -> int {
    s.spec_begin() + s.spec_size()
}

proof fn lemma_pack(b: u64, z: u64)
    by (bit_vector)
    requires
        b <= 0xff_ffff_ffff,
        z <= 0xff_ffff,
    ensures
        (b | (z << 40)) & 0xff_ffff_ffff == b,
        (b | (z << 40)) >> 40 == z,
{
}

proof fn lemma_unpack(w: u64)
    by (bit_vector)
    ensures
        (w & 0xff_ffff_ffff) | ((w >> 40) << 40) == w,
        w & 0xff_ffff_ffff <= 0xff_ffff_ffff,
        w >> 40 <= 0xff_ffff,
{
}

impl Span {
    /// `begin` was a `usize` when the span was made, so it still is one.
    #[verifier::type_invariant]
    closed spec fn begin_is_usize(self) -> bool {
        (self.0 & MASK_OFFSET) <= usize::MAX
    }
}

impl SpanLike for Span {
    closed spec fn spec_new(begin: int, size: int) -> Self {
        Span((begin as u64) | ((size as u64) << SHIFT_SIZE))
    }

    closed spec fn spec_begin(&self) -> int {
        (self.0 & MASK_OFFSET) as int
    }

    closed spec fn spec_size(&self) -> int {
        (self.0 >> SHIFT_SIZE) as int
    }

    proof fn lemma_fields(begin: int, size: int) {
        lemma_pack(begin as u64, size as u64);
    }

    proof fn lemma_canonical(&self) {
        lemma_unpack(self.0);
    }

    fn new(begin: usize, size: usize) -> (s: Self) {
        proof {
            lemma_pack(begin as u64, size as u64);
        }
        Span((begin as u64) | ((size as u64) << SHIFT_SIZE))
    }

    fn range(begin: usize, end: usize) -> (s: Self) {
        Self::new(begin, end - begin)
    }

    fn begin(&self) -> (b: usize) {
        proof {
            use_type_invariant(self);
        }
        (self.0 & MASK_OFFSET) as usize
    }

    fn size(&self) -> (n: usize) {
        proof {
            lemma_unpack(self.0);
        }
        (self.0 >> SHIFT_SIZE) as usize
    }

    fn is_empty(&self) -> (e: bool) {
        self.size() == 0
    }

    fn end(&self) -> (e: usize) {
        self.begin() + self.size()
    }
}

impl Default for Span {
    fn default() -> (s: Self)
        ensures
            s == Span::spec_new(0, 0),
    {
        Span::new(0, 0)
    }
}

/// A range of rows in the hands column.
#[derive(Debug, Clone, Copy, PartialEq, Eq, Structural)]
pub struct HandSpan(Span);

impl SpanLike for HandSpan {
    closed spec fn spec_new(begin: int, size: int) -> Self {
        HandSpan(Span::spec_new(begin, size))
    }

    closed spec fn spec_begin(&self) -> int {
        self.0.spec_begin()
    }

    closed spec fn spec_size(&self) -> int {
        self.0.spec_size()
    }

    proof fn lemma_fields(begin: int, size: int) {
        Span::lemma_fields(begin, size);
    }

    proof fn lemma_canonical(&self) {
        self.0.lemma_canonical();
    }

    fn new(begin: usize, size: usize) -> (s: Self) {
        HandSpan(Span::new(begin, size))
    }

    fn range(begin: usize, end: usize) -> (s: Self) {
        HandSpan(Span::range(begin, end))
    }

    fn begin(&self) -> (b: usize) {
        self.0.begin()
    }

    fn size(&self) -> (n: usize) {
        self.0.size()
    }

    fn is_empty(&self) -> (e: bool) {
        self.0.is_empty()
    }

    fn end(&self) -> (e: usize) {
        self.0.end()
    }
}

impl Default for HandSpan {
    fn default() -> (s: Self)
        ensures
            s == HandSpan::spec_new(0, 0),
    {
        HandSpan::new(0, 0)
    }
}

/// A range of rows in the actions column.
#[derive(Debug, Clone, Copy, PartialEq, Eq, Structural)]
pub struct ActionSpan(Span);

impl SpanLike for ActionSpan {
    closed spec fn spec_new(begin: int, size: int) -> Self {
        ActionSpan(Span::spec_new(begin, size))
    }

    closed spec fn spec_begin(&self) -> int {
        self.0.spec_begin()
    }

    closed spec fn spec_size(&self) -> int {
        self.0.spec_size()
    }

    proof fn lemma_fields(begin: int, size: int) {
        Span::lemma_fields(begin, size);
    }

    proof fn lemma_canonical(&self) {
        self.0.lemma_canonical();
    }

    fn new(begin: usize, size: usize) -> (s: Self) {
        ActionSpan(Span::new(begin, size))
    }

    fn range(begin: usize, end: usize) -> (s: Self) {
        ActionSpan(Span::range(begin, end))
    }

    fn begin(&self) -> (b: usize) {
        self.0.begin()
    }

    fn size(&self) -> (n: usize) {
        self.0.size()
    }

    fn is_empty(&self) -> (e: bool) {
        self.0.is_empty()
    }

    fn end(&self) -> (e: usize) {
        self.0.end()
    }
}

impl Default for ActionSpan {
    fn default() -> (s: Self)
        ensures
            s == ActionSpan::spec_new(0, 0),
    {
        ActionSpan::new(0, 0)
    }
}

/// A range of rows in the players column.
#[derive(Debug, Clone, Copy, PartialEq, Eq, Structural)]
pub struct PlayerSpan(Span);

impl SpanLike for PlayerSpan {
    closed spec fn spec_new(begin: int, size: int) -> Self {
        PlayerSpan(Span::spec_new(begin, size))
    }

    closed spec fn spec_begin(&self) -> int {
        self.0.spec_begin()
    }

    closed spec fn spec_size(&self) -> int {
        self.0.spec_size()
    }

    proof fn lemma_fields(begin: int, size: int) {
        Span::lemma_fields(begin, size);
    }

    proof fn lemma_canonical(&self) {
        self.0.lemma_canonical();
    }

    fn new(begin: usize, size: usize) -> (s: Self) {
        PlayerSpan(Span::new(begin, size))
    }

    fn range(begin: usize, end: usize) -> (s: Self) {
        PlayerSpan(Span::range(begin, end))
    }

    fn begin(&self) -> (b: usize) {
        self.0.begin()
    }

    fn size(&self) -> (n: usize) {
        self.0.size()
    }

    fn is_empty(&self) -> (e: bool) {
        self.0.is_empty()
    }

    fn end(&self) -> (e: usize) {
        self.0.end()
    }
}

impl Default for PlayerSpan {
    fn default() -> (s: Self)
        ensures
            s == PlayerSpan::spec_new(0, 0),
    {
        PlayerSpan::new(0, 0)
    }
}

/// A range of rows in the winners column.
#[derive(Debug, Clone, Copy, PartialEq, Eq, Structural)]
pub struct WinnerSpan(Span);

impl SpanLike for WinnerSpan {
    closed spec fn spec_new(begin: int, size: int) -> Self {
        WinnerSpan(Span::spec_new(begin, size))
    }

    closed spec fn spec_begin(&self) -> int {
        self.0.spec_begin()
    }

    closed spec fn spec_size(&self) -> int {
        self.0.spec_size()
    }

    proof fn lemma_fields(begin: int, size: int) {
        Span::lemma_fields(begin, size);
    }

    proof fn lemma_canonical(&self) {
        self.0.lemma_canonical();
    }

    fn new(begin: usize, size: usize) -> (s: Self) {
        WinnerSpan(Span::new(begin, size))
    }

    fn range(begin: usize, end: usize) -> (s: Self) {
        WinnerSpan(Span::range(begin, end))
    }

    fn begin(&self) -> (b: usize) {
        self.0.begin()
    }

    fn size(&self) -> (n: usize) {
        self.0.size()
    }

    fn is_empty(&self) -> (e: bool) {
        self.0.is_empty()
    }

    fn end(&self) -> (e: usize) {
        self.0.end()
    }
}

impl Default for WinnerSpan {
    fn default() -> (s: Self)
        ensures
            s == WinnerSpan::spec_new(0, 0),
    {
        WinnerSpan::new(0, 0)
    }
}

/// A range of rows in the flops column.
#[derive(Debug, Clone, Copy, PartialEq, Eq, Structural)]
pub struct FlopSpan(Span);

impl SpanLike for FlopSpan {
    closed spec fn spec_new(begin: int, size: int) -> Self {
        FlopSpan(Span::spec_new(begin, size))
    }

    closed spec fn spec_begin(&self) -> int {
        self.0.spec_begin()
    }

    closed spec fn spec_size(&self) -> int {
        self.0.spec_size()
    }

    proof fn lemma_fields(begin: int, size: int) {
        Span::lemma_fields(begin, size);
    }

    proof fn lemma_canonical(&self) {
        self.0.lemma_canonical();
    }

    fn new(begin: usize, size: usize) -> (s: Self) {
        FlopSpan(Span::new(begin, size))
    }

    fn range(begin: usize, end: usize) -> (s: Self) {
        FlopSpan(Span::range(begin, end))
    }

    fn begin(&self) -> (b: usize) {
        self.0.begin()
    }

    fn size(&self) -> (n: usize) {
        self.0.size()
    }

    fn is_empty(&self) -> (e: bool) {
        self.0.is_empty()
    }

    fn end(&self) -> (e: usize) {
        self.0.end()
    }
}

impl Default for FlopSpan {
    fn default() -> (s: Self)
        ensures
            s == FlopSpan::spec_new(0, 0),
    {
        FlopSpan::new(0, 0)
    }
}

/// A range of rows in the turns column.
#[derive(Debug, Clone, Copy, PartialEq, Eq, Structural)]
pub struct TurnSpan(Span);

impl SpanLike for TurnSpan {
    closed spec fn spec_new(begin: int, size: int) -> Self {
        TurnSpan(Span::spec_new(begin, size))
    }

    closed spec fn spec_begin(&self) -> int {
        self.0.spec_begin()
    }

    closed spec fn spec_size(&self) -> int {
        self.0.spec_size()
    }

    proof fn lemma_fields(begin: int, size: int) {
        Span::lemma_fields(begin, size);
    }

    proof fn lemma_canonical(&self) {
        self.0.lemma_canonical();
    }

    fn new(begin: usize, size: usize) -> (s: Self) {
        TurnSpan(Span::new(begin, size))
    }

    fn range(begin: usize, end: usize) -> (s: Self) {
        TurnSpan(Span::range(begin, end))
    }

    fn begin(&self) -> (b: usize) {
        self.0.begin()
    }

    fn size(&self) -> (n: usize) {
        self.0.size()
    }

    fn is_empty(&self) -> (e: bool) {
        self.0.is_empty()
    }

    fn end(&self) -> (e: usize) {
        self.0.end()
    }
}

impl Default for TurnSpan {
    fn default() -> (s: Self)
        ensures
            s == TurnSpan::spec_new(0, 0),
    {
        TurnSpan::new(0, 0)
    }
}

/// A range of rows in the rivers column.
#[derive(Debug, Clone, Copy, PartialEq, Eq, Structural)]
pub struct RiverSpan(Span);

impl SpanLike for RiverSpan {
    closed spec fn spec_new(begin: int, size: int) -> Self {
        RiverSpan(Span::spec_new(begin, size))
    }

    closed spec fn spec_begin(&self) -> int {
        self.0.spec_begin()
    }

    closed spec fn spec_size(&self) -> int {
        self.0.spec_size()
    }

    proof fn lemma_fields(begin: int, size: int) {
        Span::lemma_fields(begin, size);
    }

    proof fn lemma_canonical(&self) {
        self.0.lemma_canonical();
    }

    fn new(begin: usize, size: usize) -> (s: Self) {
        RiverSpan(Span::new(begin, size))
    }

    fn range(begin: usize, end: usize) -> (s: Self) {
        RiverSpan(Span::range(begin, end))
    }

    fn begin(&self) -> (b: usize) {
        self.0.begin()
    }

    fn size(&self) -> (n: usize) {
        self.0.size()
    }

    fn is_empty(&self) -> (e: bool) {
        self.0.is_empty()
    }

    fn end(&self) -> (e: usize) {
        self.0.end()
    }
}

impl Default for RiverSpan {
    fn default() -> (s: Self)
        ensures
            s == RiverSpan::spec_new(0, 0),
    {
        RiverSpan::new(0, 0)
    }
}

/// A range of rows in the showdowns column.
#[derive(Debug, Clone, Copy, PartialEq, Eq, Structural)]
pub struct ShowdownSpan(Span);

impl SpanLike for ShowdownSpan {
    closed spec fn spec_new(begin: int, size: int) -> Self {
        ShowdownSpan(Span::spec_new(begin, size))
    }

    closed spec fn spec_begin(&self) -> int {
        self.0.spec_begin()
    }

    closed spec fn spec_size(&self) -> int {
        self.0.spec_size()
    }

    proof fn lemma_fields(begin: int, size: int) {
        Span::lemma_fields(begin, size);
    }

    proof fn lemma_canonical(&self) {
        self.0.lemma_canonical();
    }

    fn new(begin: usize, size: usize) -> (s: Self) {
        ShowdownSpan(Span::new(begin, size))
    }

    fn range(begin: usize, end: usize) -> (s: Self) {
        ShowdownSpan(Span::range(begin, end))
    }

    fn begin(&self) -> (b: usize) {
        self.0.begin()
    }

    fn size(&self) -> (n: usize) {
        self.0.size()
    }

    fn is_empty(&self) -> (e: bool) {
        self.0.is_empty()
    }

    fn end(&self) -> (e: usize) {
        self.0.end()
    }
}

impl Default for ShowdownSpan {
    fn default() -> (s: Self)
        ensures
            s == ShowdownSpan::spec_new(0, 0),
    {
        ShowdownSpan::new(0, 0)
    }
}

} // verus!
