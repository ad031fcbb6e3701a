//! How much room arenas have needed, to set room aside for the next.

use vstd::prelude::*;
use crate::pklp::hand::{Arena, HandVec};

verus! {

/// The sizes of the eleven columns of the arenas seen so far: the largest
/// of each, and the sum of each.
#[derive(Debug)]
pub struct HandVecExpectedSize {
    max_sizes: [usize; 11],
    total_sizes: [usize; 11],
    count: usize,
}

/// The sizes of the columns of an arena, in the order they are kept: text,
/// hands, players, flops, turns, rivers, show-downs, actions, numbers,
/// cards, winners.
pub open spec fn column_sizes(a: Arena) -> Seq<int> {
    seq![
        a.src.len() as int,
        a.hands.len() as int,
        a.players.len() as int,
        a.flops.len() as int,
        a.turns.len() as int,
        a.rivers.len() as int,
        a.showdowns.len() as int,
        a.actions.len() as int,
        a.nums.len() as int,
        a.cards.len() as int,
        a.winners.len() as int,
    ]
}

/// The larger of two sizes.
pub open spec fn spec_max(a: int, b: int) -> int {
    if a >= b {
        a
    } else {
        b
    }
}

/// The sum of the sizes of column `k` over the first `n` arenas.
pub open spec fn sum_sizes(h: Seq<Arena>, k: int, n: int) -> int
    decreases n,
{
    if n <= 0 {
        0
    } else {
        sum_sizes(h, k, n - 1) + column_sizes(h[n - 1])[k]
    }
}

/// The largest of `floor` and the sizes of column `k` over the first `n`
/// arenas.
pub open spec fn max_sizes_over(h: Seq<Arena>, k: int, n: int, floor: int) -> int
    decreases n,
{
    if n <= 0 {
        floor
    } else {
        spec_max(column_sizes(h[n - 1])[k], max_sizes_over(h, k, n - 1, floor))
    }
}

/// The arenas that the vectors hold.
pub open spec fn arenas_in(h: Seq<HandVec>) -> Seq<Arena> {
    Seq::new(h.len(), |i: int| h[i]@)
}

/// The largest power of two that a `usize` holds.
pub open spec fn top_power() -> int {
    usize::MAX / 2 + 1
}

/// Whether `r` is `v` rounded up to a power of two: the least power of two
/// that is not less than `v`; nothing for nothing, and nothing where no
/// power of two that large fits.
pub open spec fn rounded_up(v: usize, r: usize) -> bool {
    if v == 0 || v > top_power() {
        r == 0
    } else {
        &&& r >= v
        &&& r / 2 < v
        &&& r > 0
        &&& r & ((r - 1) as usize) == 0
    }
}

proof fn lemma_smear(v: u64)
    by (bit_vector)
    requires
        1 <= v <= 0x8000_0000_0000_0000,
    ensures
        ({
            let a = (v - 1) as u64;
            let b = a | (a >> 1);
            let c = b | (b >> 2);
            let d = c | (c >> 4);
            let e = d | (d >> 8);
            let f = e | (e >> 16);
            let g = f | (f >> 32);
            let r = (g + 1) as u64;
            &&& g < 0xffff_ffff_ffff_ffff
            &&& r >= v
            &&& r / 2 < v
            &&& r > 0
            &&& r & g == 0
            &&& (v <= 0x8000_0000 ==> r <= 0x8000_0000)
        }),
{
}

impl HandVecExpectedSize {
    /// The largest size seen of each column.
    pub closed spec fn max_sizes(&self) -> Seq<usize> {
        self.max_sizes@
    }

    /// The sum of the sizes seen of each column.
    pub closed spec fn total_sizes(&self) -> Seq<usize> {
        self.total_sizes@
    }

    /// How many arenas were seen.
    pub closed spec fn count(&self) -> int {
        self.count as int
    }

    pub fn new() -> (s: Self)
        ensures
            s.count() == 0,
            s.max_sizes().len() == 11,
            s.total_sizes().len() == 11,
            forall|k: int| 0 <= k < 11 ==> s.max_sizes()[k] == 0 && s.total_sizes()[k] == 0,
    {
        HandVecExpectedSize { max_sizes: [0usize; 11], total_sizes: [0usize; 11], count: 0 }
    }

    /// `v` rounded up to a power of two.
    pub fn round_up_pot2(v: usize) -> (r: usize)
        ensures
            rounded_up(v, r),
    {
        if v == 0 || v > usize::MAX / 2 + 1 {
            return 0;
        }
        let x = v as u64;
        proof {
            lemma_smear(x);
        }
        let a: u64 = x - 1;
        let b: u64 = a | (a >> 1);
        let c: u64 = b | (b >> 2);
        let d: u64 = c | (c >> 4);
        let e: u64 = d | (d >> 8);
        let f: u64 = e | (e >> 16);
        let g: u64 = f | (f >> 32);
        let r: u64 = g + 1;
        assert(r <= usize::MAX);
        let out = r as usize;
        assert(out & ((out - 1) as usize) == 0) by {
            assert(out == r);
            assert((out - 1) as usize == g);
        }
        out
    }

    /// Takes in the sizes of one more arena.
    pub fn update_one(&mut self, v: &HandVec)
        requires
            old(self).count() < usize::MAX,
            forall|k: int|
                0 <= k < 11 ==> old(self).total_sizes()[k] + #[trigger] column_sizes(v@)[k]
                    <= usize::MAX,
        ensures
            final(self).count() == old(self).count() + 1,
            forall|k: int|
                0 <= k < 11 ==> (#[trigger] final(self).max_sizes()[k]) == spec_max(
                    column_sizes(v@)[k],
                    old(self).max_sizes()[k] as int,
                ),
            forall|k: int|
                0 <= k < 11 ==> (#[trigger] final(self).total_sizes()[k]) == old(
                    self,
                ).total_sizes()[k] + column_sizes(v@)[k],
    {
        let sizes: [usize; 11] = [
            v.src.len(),
            v.hands.len(),
            v.players.len(),
            v.flops.len(),
            v.turns.len(),
            v.rivers.len(),
            v.showdowns.len(),
            v.actions.len(),
            v.nums.len(),
            v.cards.len(),
            v.winners.len(),
        ];
        assert(forall|k: int| 0 <= k < 11 ==> sizes@[k] == #[trigger] column_sizes(v@)[k]);
        assert forall|j: int| 0 <= j < 11 implies old(self).total_sizes@[j] + #[trigger] sizes@[j]
            <= usize::MAX by {
            assert(sizes@[j] == column_sizes(v@)[j]);
        }
        let mut k: usize = 0;
        while k < 11
            invariant
                k <= 11,
                self.count == old(self).count,
                forall|j: int| 0 <= j < 11 ==> sizes@[j] == #[trigger] column_sizes(v@)[j],
                forall|j: int|
                    0 <= j < 11 ==> old(self).total_sizes@[j] + #[trigger] sizes@[j] <= usize::MAX,
                forall|j: int|
                    0 <= j < k ==> (#[trigger] self.max_sizes@[j]) == spec_max(
                        sizes@[j] as int,
                        old(self).max_sizes@[j] as int,
                    ),
                forall|j: int|
                    0 <= j < k ==> (#[trigger] self.total_sizes@[j]) == old(self).total_sizes@[j]
                        + sizes@[j],
                forall|j: int|
                    k <= j < 11 ==> (#[trigger] self.max_sizes@[j]) == old(self).max_sizes@[j],
                forall|j: int|
                    k <= j < 11 ==> (#[trigger] self.total_sizes@[j]) == old(self).total_sizes@[j],
            decreases 11 - k,
        {
            assert(old(self).total_sizes@[k as int] + sizes@[k as int] <= usize::MAX);
            let ghost before_max = self.max_sizes@;
            let ghost before_total = self.total_sizes@;
            let size = sizes[k];
            let largest = if size > self.max_sizes[k] {
                size
            } else {
                self.max_sizes[k]
            };
            let total = self.total_sizes[k] + size;
            self.max_sizes[k] = largest;
            self.total_sizes[k] = total;
            assert(self.max_sizes@ == before_max.update(k as int, largest));
            assert(self.total_sizes@ == before_total.update(k as int, total));
            k += 1;
        }
        self.count += 1;
    }

    /// Takes in the sizes of the arenas of `h`.
    pub fn update(&mut self, h: &[HandVec])
        requires
            old(self).count() + h@.len() <= usize::MAX,
            forall|k: int, n: int|
                0 <= k < 11 && 0 <= n <= h@.len() ==> old(self).total_sizes()[k] + #[trigger] sum_sizes(
                    arenas_in(h@),
                    k,
                    n,
                ) <= usize::MAX,
        ensures
            final(self).count() == old(self).count() + h@.len(),
            forall|k: int|
                0 <= k < 11 ==> (#[trigger] final(self).max_sizes()[k]) == max_sizes_over(
                    arenas_in(h@),
                    k,
                    h@.len() as int,
                    old(self).max_sizes()[k] as int,
                ),
            forall|k: int|
                0 <= k < 11 ==> (#[trigger] final(self).total_sizes()[k]) == old(
                    self,
                ).total_sizes()[k] + sum_sizes(arenas_in(h@), k, h@.len() as int),
    {
        let ghost arenas = arenas_in(h@);
        let mut i: usize = 0;
        while i < h.len()
            invariant
                i <= h@.len(),
                arenas == arenas_in(h@),
                old(self).count() + h@.len() <= usize::MAX,
                self.count() == old(self).count() + i,
                forall|k: int, n: int|
                    0 <= k < 11 && 0 <= n <= h@.len() ==> old(self).total_sizes()[k]
                        + #[trigger] sum_sizes(arenas, k, n) <= usize::MAX,
                forall|k: int|
                    0 <= k < 11 ==> (#[trigger] self.max_sizes()[k]) == max_sizes_over(
                        arenas,
                        k,
                        i as int,
                        old(self).max_sizes()[k] as int,
                    ),
                forall|k: int|
                    0 <= k < 11 ==> (#[trigger] self.total_sizes()[k]) == old(self).total_sizes()[k]
                        + sum_sizes(arenas, k, i as int),
            decreases h@.len() - i,
        {
            proof {
                assert(arenas[i as int] == h@[i as int]@);
                assert forall|k: int| 0 <= k < 11 implies self.total_sizes()[k]
                    + #[trigger] column_sizes(h@[i as int]@)[k] <= usize::MAX by {
                    assert(sum_sizes(arenas, k, i + 1) == sum_sizes(arenas, k, i as int)
                        + column_sizes(arenas[i as int])[k]);
                    assert(old(self).total_sizes()[k] + sum_sizes(arenas, k, i + 1)
                        <= usize::MAX);
                }
            }
            self.update_one(&h[i]);
            i += 1;
        }
    }

    /// The largest size seen of each column, rounded up to a power of two.
    pub fn max_rounded_up(&self) -> (r: [usize; 11])
        ensures
            forall|k: int| 0 <= k < 11 ==> rounded_up(self.max_sizes()[k], #[trigger] r@[k]),
    {
        let mut r = [0usize; 11];
        let mut k: usize = 0;
        while k < 11
            invariant
                k <= 11,
                forall|j: int| 0 <= j < k ==> rounded_up(self.max_sizes@[j], #[trigger] r@[j]),
            decreases 11 - k,
        {
            r[k] = Self::round_up_pot2(self.max_sizes[k]);
            k += 1;
        }
        r
    }

    /// The mean size seen of each column, rounded up to a power of two.
    pub fn avg_rounded_up(&self) -> (r: [usize; 11])
        requires
            self.count() > 0,
        ensures
            forall|k: int|
                0 <= k < 11 ==> rounded_up(
                    (self.total_sizes()[k] as int / self.count()) as usize,
                    #[trigger] r@[k],
                ),
    {
        let mut r = [0usize; 11];
        let mut k: usize = 0;
        while k < 11
            invariant
                k <= 11,
                self.count > 0,
                forall|j: int|
                    0 <= j < k ==> rounded_up(
                        (self.total_sizes@[j] as int / self.count as int) as usize,
                        #[trigger] r@[j],
                    ),
            decreases 11 - k,
        {
            r[k] = Self::round_up_pot2(self.total_sizes[k] / self.count);
            k += 1;
        }
        r
    }
}

impl Default for HandVecExpectedSize {
    fn default() -> (s: Self)
        ensures
            s.count() == 0,
            s.max_sizes().len() == 11,
            s.total_sizes().len() == 11,
            forall|k: int| 0 <= k < 11 ==> s.max_sizes()[k] == 0 && s.total_sizes()[k] == 0,
    {
        HandVecExpectedSize::new()
    }
}

} // verus!
