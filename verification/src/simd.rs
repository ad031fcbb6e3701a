//! The players of the hand being read, found by the first three bytes of
//! their names.
//!
//! A hand seats few players and names them often, so the table is 32 slots
//! of three bytes, kept as three rows of 32 lanes: a lookup compares one
//! byte of the key against a whole row at a time. Two names that begin with
//! the same three bytes share the slot of the first.

use vstd::prelude::*;

verus! {

/// How many bytes of a name are kept.
pub const STRIDE: usize = 3;

/// How many names the table holds; also what a lookup returns for a name
/// that is not in it.
pub const LANES: u8 = 32;

/// The first three bytes of up to 32 names, in the order the names were
/// added.
#[derive(Debug)]
pub struct NameCacheSimd {
    row0: [u8; 32],
    row1: [u8; 32],
    row2: [u8; 32],
    count: u8,
}

/// The first three bytes of `name`.
pub open spec fn prefix_of(name: Seq<u8>) -> Seq<u8> {
    name.subrange(0, 3)
}

/// The index of the first slot, of the first `upto`, that holds `key`;
/// `upto` where none does.
pub open spec fn first_match(slots: Seq<Seq<u8>>, key: Seq<u8>, upto: int) -> int
    decreases upto,
{
    if upto <= 0 {
        0
    } else {
        let before = first_match(slots, key, upto - 1);
        if before < upto - 1 {
            before
        } else if slots[upto - 1] == key {
            upto - 1
        } else {
            upto
        }
    }
}

/// What a lookup of `key` returns: the first slot that holds it, or 32.
pub open spec fn spec_find(slots: Seq<Seq<u8>>, key: Seq<u8>) -> int {
    let i = first_match(slots, key, slots.len() as int);
    if i < slots.len() {
        i
    } else {
        LANES as int
    }
}

/// `first_match` is the least index that holds the key.
pub proof fn lemma_first_match(slots: Seq<Seq<u8>>, key: Seq<u8>, upto: int)
    requires
        0 <= upto <= slots.len(),
    ensures
        0 <= first_match(slots, key, upto) <= upto,
        first_match(slots, key, upto) < upto ==> slots[first_match(slots, key, upto)] == key,
        forall|j: int| 0 <= j < first_match(slots, key, upto) ==> slots[j] != key,
    decreases upto,
{
    if upto > 0 {
        lemma_first_match(slots, key, upto - 1);
    }
}

/// A lookup returns the first slot whose three bytes are the key's, and 32
/// where no slot has them. So a name that was added is found at its own
/// slot unless an earlier name begins with the same three bytes, in which
/// case the earlier slot is returned; and nothing is found in an empty
/// table.
pub proof fn law_find(slots: Seq<Seq<u8>>, key: Seq<u8>)
    requires
        slots.len() <= LANES,
    ensures
        spec_find(slots, key) == LANES || 0 <= spec_find(slots, key) < slots.len(),
        spec_find(slots, key) < slots.len() ==> slots[spec_find(slots, key)] == key,
        forall|j: int| 0 <= j < slots.len() && j < spec_find(slots, key) ==> slots[j] != key,
        forall|i: int|
            0 <= i < slots.len() && (forall|j: int| 0 <= j < i ==> slots[j] != slots[i])
                ==> #[trigger] spec_find(slots, slots[i]) == i,
        forall|i: int, j: int|
            0 <= j < i < slots.len() && #[trigger] slots[j] == #[trigger] slots[i] ==> spec_find(
                slots,
                slots[i],
            ) <= j,
        (forall|j: int| 0 <= j < slots.len() ==> slots[j] != key) ==> spec_find(slots, key)
            == LANES,
        slots.len() == 0 ==> spec_find(slots, key) == LANES,
{
    lemma_first_match(slots, key, slots.len() as int);
    assert forall|i: int|
        0 <= i < slots.len() && (forall|j: int| 0 <= j < i ==> slots[j] != slots[i])
            implies #[trigger] spec_find(slots, slots[i]) == i by {
        lemma_first_match(slots, slots[i], slots.len() as int);
    }
    assert forall|i: int, j: int|
        0 <= j < i < slots.len() && #[trigger] slots[j] == #[trigger] slots[i] implies spec_find(
            slots,
            slots[i],
        ) <= j by {
        lemma_first_match(slots, slots[i], slots.len() as int);
    }
}

impl NameCacheSimd {
    /// No more names than lanes.
    pub closed spec fn wf(&self) -> bool {
        self.count <= LANES
    }

    /// The three bytes kept in slot `i`.
    pub closed spec fn slot(&self, i: int) -> Seq<u8> {
        seq![self.row0[i], self.row1[i], self.row2[i]]
    }

    /// The prefixes kept, in the order their names were added.
    pub closed spec fn view(&self) -> Seq<Seq<u8>> {
        Seq::new(self.count as nat, |i: int| self.slot(i))
    }

    pub fn new() -> (c: Self)
        ensures
            c.wf(),
            c@ == Seq::<Seq<u8>>::empty(),
    {
        let c = NameCacheSimd { row0: [0u8; 32], row1: [0u8; 32], row2: [0u8; 32], count: 0 };
        assert(c@ =~= Seq::<Seq<u8>>::empty());
        c
    }

    /// How many prefixes are kept: in a table that is well formed, no more
    /// than it has lanes.
    pub fn len(&self) -> (n: usize)
        ensures
            n == self@.len(),
            self.wf() ==> self@.len() <= LANES,
    {
        self.count as usize
    }

    pub fn clear(&mut self)
        ensures
            final(self).wf(),
            final(self)@ == Seq::<Seq<u8>>::empty(),
    {
        self.row0 = [0u8; 32];
        self.row1 = [0u8; 32];
        self.row2 = [0u8; 32];
        self.count = 0;
        assert(self@ =~= Seq::<Seq<u8>>::empty());
    }

    /// Gives `name` the next slot. Its id is the number of names added
    /// before it.
    pub fn add(&mut self, name: &[u8])
        requires
            old(self).wf(),
            old(self)@.len() < LANES,
            name@.len() >= STRIDE,
        ensures
            final(self).wf(),
            final(self)@ == old(self)@.push(prefix_of(name@)),
    {
        let at = self.count as usize;
        self.row0[at] = name[0];
        self.row1[at] = name[1];
        self.row2[at] = name[2];
        self.count += 1;
        proof {
            assert(self.slot(at as int) =~= prefix_of(name@));
            assert forall|i: int| 0 <= i < at implies self.slot(i) == old(self).slot(i) by {}
            assert(self@ =~= old(self)@.push(prefix_of(name@)));
        }
    }

    /// The id of the first name added that begins with the three bytes `s`
    /// begins with, or 32.
    pub fn find(&self, s: &[u8]) -> (id: u8)
        requires
            self.wf(),
            s@.len() >= STRIDE,
        ensures
            id == spec_find(self@, prefix_of(s@)),
            id == LANES || id < self@.len(),
    {
        let ghost key = prefix_of(s@);
        let mut i: u8 = 0;
        while i < self.count
            invariant
                self.wf(),
                s@.len() >= STRIDE,
                key == prefix_of(s@),
                i <= self.count,
                first_match(self@, key, i as int) == i,
            decreases self.count - i,
        {
            let at = i as usize;
            if self.row0[at] == s[0] && self.row1[at] == s[1] && self.row2[at] == s[2] {
                proof {
                    assert(self@[i as int] =~= key);
                    lemma_first_match_found(self@, key, i as int, self.count as int);
                }
                return i;
            }
            proof {
                assert(self@[i as int] != key) by {
                    if self@[i as int] == key {
                        assert(self.slot(i as int)[0] == key[0]);
                        assert(self.slot(i as int)[1] == key[1]);
                        assert(self.slot(i as int)[2] == key[2]);
                    }
                }
            }
            i += 1;
        }
        LANES
    }
}

/// Once a slot is the first to hold the key, looking further changes
/// nothing.
proof fn lemma_first_match_found(slots: Seq<Seq<u8>>, key: Seq<u8>, at: int, upto: int)
    requires
        0 <= at < upto <= slots.len(),
        first_match(slots, key, at) == at,
        slots[at] == key,
    ensures
        first_match(slots, key, upto) == at,
    decreases upto,
{
    if upto > at + 1 {
        lemma_first_match_found(slots, key, at, upto - 1);
    }
}

} // verus!
