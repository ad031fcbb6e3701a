//! Making one arena of several.
//!
//! The arenas are joined column by column, in the order given. The rows of
//! the first stay as they are; every row of a later arena that points into
//! a column is moved on by the number of rows that the arenas before it
//! put into that column.

use vstd::prelude::*;
use crate::pklp::action::{Action, ActionData, ActionType, MAX_MESSAGE_OFFSET};
use crate::pklp::hand::{Arena, Hand, HandVec, Header, Player, Street, Summary};
use crate::pklp::span::{
    span_fits, ActionSpan, FlopSpan, PlayerSpan, RiverSpan, ShowdownSpan, Span, SpanLike,
    TurnSpan, WinnerSpan,
};

verus! {

/// How many rows of each column stand before an arena.
#[derive(Debug, Clone, Copy, PartialEq, Eq, Structural)]
pub struct ConcatOffsets {
    pub src_offset: usize,
    pub hands_offset: usize,
    pub players_offset: usize,
    pub winners_offset: usize,
    pub nums_offset: usize,
    pub cards_offset: usize,
    pub actions_offset: usize,
    pub flops_offset: usize,
    pub turns_offset: usize,
    pub rivers_offset: usize,
    pub showdowns_offset: usize,
}

impl ConcatOffsets {
    /// No rows before.
    pub open spec fn zero() -> ConcatOffsets {
        ConcatOffsets {
            src_offset: 0,
            hands_offset: 0,
            players_offset: 0,
            winners_offset: 0,
            nums_offset: 0,
            cards_offset: 0,
            actions_offset: 0,
            flops_offset: 0,
            turns_offset: 0,
            rivers_offset: 0,
            showdowns_offset: 0,
        }
    }

    /// The offsets after the rows of `a` as well.
    pub open spec fn after(self, a: Arena) -> ConcatOffsets {
        ConcatOffsets {
            src_offset: (self.src_offset + a.src.len()) as usize,
            hands_offset: (self.hands_offset + a.hands.len()) as usize,
            players_offset: (self.players_offset + a.players.len()) as usize,
            winners_offset: (self.winners_offset + a.winners.len()) as usize,
            nums_offset: (self.nums_offset + a.nums.len()) as usize,
            cards_offset: (self.cards_offset + a.cards.len()) as usize,
            actions_offset: (self.actions_offset + a.actions.len()) as usize,
            flops_offset: (self.flops_offset + a.flops.len()) as usize,
            turns_offset: (self.turns_offset + a.turns.len()) as usize,
            rivers_offset: (self.rivers_offset + a.rivers.len()) as usize,
            showdowns_offset: (self.showdowns_offset + a.showdowns.len()) as usize,
        }
    }

    /// Whether the rows of `a` can be counted in without a count outgrowing
    /// its type.
    pub open spec fn has_room(self, a: Arena) -> bool {
        &&& self.src_offset + a.src.len() <= usize::MAX
        &&& self.hands_offset + a.hands.len() <= usize::MAX
        &&& self.players_offset + a.players.len() <= usize::MAX
        &&& self.winners_offset + a.winners.len() <= usize::MAX
        &&& self.nums_offset + a.nums.len() <= usize::MAX
        &&& self.cards_offset + a.cards.len() <= usize::MAX
        &&& self.actions_offset + a.actions.len() <= usize::MAX
        &&& self.flops_offset + a.flops.len() <= usize::MAX
        &&& self.turns_offset + a.turns.len() <= usize::MAX
        &&& self.rivers_offset + a.rivers.len() <= usize::MAX
        &&& self.showdowns_offset + a.showdowns.len() <= usize::MAX
    }
}

impl Default for ConcatOffsets {
    fn default() -> (o: Self)
        ensures
            o == ConcatOffsets::zero(),
    {
        ConcatOffsets {
            src_offset: 0,
            hands_offset: 0,
            players_offset: 0,
            winners_offset: 0,
            nums_offset: 0,
            cards_offset: 0,
            actions_offset: 0,
            flops_offset: 0,
            turns_offset: 0,
            rivers_offset: 0,
            showdowns_offset: 0,
        }
    }
}

/// The span moved on by `by` rows.
pub open spec fn rebase_span<S: SpanLike>(s: S, by: int) -> S {
    S::spec_new(s.spec_begin() + by, s.spec_size())
}

/// Whether the span can be moved on by `by` rows.
pub open spec fn span_has_room<S: SpanLike>(s: S, by: int) -> bool {
    span_fits(s.spec_begin() + by, s.spec_size()) && s.spec_begin() + by <= usize::MAX
}

/// The action with its payload moved on. An action that carries cards
/// points into the cards column, unless it carries none; a cash-out points
/// into the numbers column. Every other payload stays: an amount or a seat
/// is a value, and what a player says is placed relative to the hand's
/// text, which the hand itself moves on.
pub open spec fn rebase_action(a: Action, o: ConcatOffsets) -> Action {
    if a.kind.spec_can_have_cards() && a.data != ActionData::spec_invalid() {
        Action { data: ActionData((a.data.0 + o.cards_offset) as u32), ..a }
    } else if a.kind == ActionType::CashOut {
        Action { data: ActionData((a.data.0 + o.nums_offset) as u32), ..a }
    } else {
        a
    }
}

/// Whether the payload of the action can be moved on: an index must stay
/// an index.
pub open spec fn action_has_room(a: Action, o: ConcatOffsets) -> bool {
    if a.kind.spec_can_have_cards() && a.data != ActionData::spec_invalid() {
        a.data.0 + o.cards_offset < u32::MAX
    } else if a.kind == ActionType::CashOut {
        a.data.0 + o.nums_offset <= u32::MAX
    } else {
        true
    }
}

pub open spec fn rebase_player(p: Player, o: ConcatOffsets) -> Player {
    Player { name: rebase_span(p.name, o.src_offset as int), ..p }
}

pub open spec fn rebase_street(s: Street, o: ConcatOffsets) -> Street {
    Street { actions: rebase_span(s.actions, o.actions_offset as int), ..s }
}

pub open spec fn rebase_hand(h: Hand, o: ConcatOffsets) -> Hand {
    Hand {
        header: Header {
            id: rebase_span(h.header.id, o.src_offset as int),
            table_name: rebase_span(h.header.table_name, o.src_offset as int),
            players: rebase_span(h.header.players, o.players_offset as int),
            actions: rebase_span(h.header.actions, o.actions_offset as int),
            ..h.header
        },
        preflop: rebase_street(h.preflop, o),
        summary: Summary {
            winners: rebase_span(h.summary.winners, o.winners_offset as int),
            actions: rebase_span(h.summary.actions, o.actions_offset as int),
            ..h.summary
        },
        streets: (
            rebase_span(h.streets.0, o.flops_offset as int),
            rebase_span(h.streets.1, o.turns_offset as int),
            rebase_span(h.streets.2, o.rivers_offset as int),
            rebase_span(h.streets.3, o.showdowns_offset as int),
        ),
        src_offset: (h.src_offset + o.src_offset) as usize,
    }
}

pub open spec fn player_has_room(p: Player, o: ConcatOffsets) -> bool {
    span_has_room(p.name, o.src_offset as int)
}

pub open spec fn street_has_room(s: Street, o: ConcatOffsets) -> bool {
    span_has_room(s.actions, o.actions_offset as int)
}

pub open spec fn hand_has_room(h: Hand, o: ConcatOffsets) -> bool {
    &&& span_has_room(h.header.id, o.src_offset as int)
    &&& span_has_room(h.header.table_name, o.src_offset as int)
    &&& span_has_room(h.header.players, o.players_offset as int)
    &&& span_has_room(h.header.actions, o.actions_offset as int)
    &&& street_has_room(h.preflop, o)
    &&& span_has_room(h.summary.winners, o.winners_offset as int)
    &&& span_has_room(h.summary.actions, o.actions_offset as int)
    &&& span_has_room(h.streets.0, o.flops_offset as int)
    &&& span_has_room(h.streets.1, o.turns_offset as int)
    &&& span_has_room(h.streets.2, o.rivers_offset as int)
    &&& span_has_room(h.streets.3, o.showdowns_offset as int)
    &&& h.src_offset + o.src_offset <= usize::MAX
}

pub open spec fn rebase_hands(s: Seq<Hand>, o: ConcatOffsets) -> Seq<Hand> {
    Seq::new(s.len(), |i: int| rebase_hand(s[i], o))
}

pub open spec fn rebase_players(s: Seq<Player>, o: ConcatOffsets) -> Seq<Player> {
    Seq::new(s.len(), |i: int| rebase_player(s[i], o))
}

pub open spec fn rebase_streets(s: Seq<Street>, o: ConcatOffsets) -> Seq<Street> {
    Seq::new(s.len(), |i: int| rebase_street(s[i], o))
}

pub open spec fn rebase_actions(s: Seq<Action>, o: ConcatOffsets) -> Seq<Action> {
    Seq::new(s.len(), |i: int| rebase_action(s[i], o))
}

impl Arena {
    /// How many rows each column has.
    pub open spec fn lens(self) -> ConcatOffsets {
        ConcatOffsets::zero().after(self)
    }

    /// Whether `o` counts the rows of each column.
    pub open spec fn counted_by(self, o: ConcatOffsets) -> bool {
        &&& self.src.len() == o.src_offset
        &&& self.hands.len() == o.hands_offset
        &&& self.players.len() == o.players_offset
        &&& self.winners.len() == o.winners_offset
        &&& self.nums.len() == o.nums_offset
        &&& self.cards.len() == o.cards_offset
        &&& self.actions.len() == o.actions_offset
        &&& self.flops.len() == o.flops_offset
        &&& self.turns.len() == o.turns_offset
        &&& self.rivers.len() == o.rivers_offset
        &&& self.showdowns.len() == o.showdowns_offset
    }

    /// The arena with every row that points into a column moved on by the
    /// rows that stand before.
    pub open spec fn rebase(self, o: ConcatOffsets) -> Arena {
        Arena {
            hands: rebase_hands(self.hands, o),
            players: rebase_players(self.players, o),
            flops: rebase_streets(self.flops, o),
            turns: rebase_streets(self.turns, o),
            rivers: rebase_streets(self.rivers, o),
            showdowns: rebase_streets(self.showdowns, o),
            actions: rebase_actions(self.actions, o),
            ..self
        }
    }

    /// Whether every row can be moved on by `o` within the limits of spans
    /// and indexes.
    pub open spec fn has_room(self, o: ConcatOffsets) -> bool {
        &&& forall|i: int| 0 <= i < self.hands.len() ==> hand_has_room(#[trigger] self.hands[i], o)
        &&& forall|i: int|
            0 <= i < self.players.len() ==> player_has_room(#[trigger] self.players[i], o)
        &&& forall|i: int|
            0 <= i < self.flops.len() ==> street_has_room(#[trigger] self.flops[i], o)
        &&& forall|i: int|
            0 <= i < self.turns.len() ==> street_has_room(#[trigger] self.turns[i], o)
        &&& forall|i: int|
            0 <= i < self.rivers.len() ==> street_has_room(#[trigger] self.rivers[i], o)
        &&& forall|i: int|
            0 <= i < self.showdowns.len() ==> street_has_room(#[trigger] self.showdowns[i], o)
        &&& forall|i: int|
            0 <= i < self.actions.len() ==> action_has_room(#[trigger] self.actions[i], o)
    }

    /// The columns of `self`, each followed by the same column of `next`.
    pub open spec fn append(self, next: Arena) -> Arena {
        Arena {
            src: self.src + next.src,
            hands: self.hands + next.hands,
            players: self.players + next.players,
            flops: self.flops + next.flops,
            turns: self.turns + next.turns,
            rivers: self.rivers + next.rivers,
            showdowns: self.showdowns + next.showdowns,
            actions: self.actions + next.actions,
            nums: self.nums + next.nums,
            cards: self.cards + next.cards,
            winners: self.winners + next.winners,
        }
    }

    /// `self` followed by `next`, whose rows are moved on by the rows of
    /// `self`.
    pub open spec fn merge(self, next: Arena) -> Arena {
        self.append(next.rebase(self.lens()))
    }
}

/// The arenas made one, in their order: the first as it is, each later one
/// merged on.
pub open spec fn combine_arenas(arenas: Seq<Arena>) -> Arena
    decreases arenas.len(),
{
    if arenas.len() == 0 {
        Arena::empty()
    } else if arenas.len() == 1 {
        arenas[0]
    } else {
        combine_arenas(arenas.drop_last()).merge(arenas.last())
    }
}

/// The rows that stand before arena `i` once the arenas are made one.
pub open spec fn offsets_before(arenas: Seq<Arena>, i: int) -> ConcatOffsets
    decreases i,
{
    if i <= 0 {
        ConcatOffsets::zero()
    } else {
        offsets_before(arenas, i - 1).after(arenas[i - 1])
    }
}

/// Whether the arenas can be made one: the rows can be counted, and every
/// arena after the first has room to be moved on by the rows before it.
pub open spec fn combinable(arenas: Seq<Arena>) -> bool {
    &&& forall|i: int|
        0 <= i < arenas.len() ==> (#[trigger] offsets_before(arenas, i)).has_room(arenas[i])
    &&& forall|i: int|
        1 <= i < arenas.len() ==> arenas[i].has_room(#[trigger] offsets_before(arenas, i))
}

/// The arenas that the vectors hold.
pub open spec fn arenas_of(vecs: Seq<HandVec>) -> Seq<Arena> {
    Seq::new(vecs.len(), |i: int| vecs[i]@)
}

/// The rows of the arenas before `i`, made one, are counted by
/// `offsets_before`.
pub proof fn lemma_offsets_before(arenas: Seq<Arena>, i: int)
    requires
        0 <= i <= arenas.len(),
        forall|k: int|
            0 <= k < arenas.len() ==> (#[trigger] offsets_before(arenas, k)).has_room(arenas[k]),
    ensures
        combine_arenas(arenas.subrange(0, i)).counted_by(offsets_before(arenas, i)),
        combine_arenas(arenas.subrange(0, i)).lens() == offsets_before(arenas, i),
    decreases i,
{
    let front = arenas.subrange(0, i);
    if i == 0 {
    } else if i == 1 {
        assert(front[0] == arenas[0]);
        assert(offsets_before(arenas, 0).has_room(arenas[0]));
        assert(offsets_before(arenas, 1) == offsets_before(arenas, 0).after(arenas[0]));
    } else {
        lemma_offsets_before(arenas, i - 1);
        assert(front.drop_last() =~= arenas.subrange(0, i - 1));
        assert(front.last() == arenas[i - 1]);
        assert(offsets_before(arenas, i - 1).has_room(arenas[i - 1]));
        let before = combine_arenas(arenas.subrange(0, i - 1));
        assert(combine_arenas(front) == before.merge(arenas[i - 1]));
        assert(offsets_before(arenas, i) == offsets_before(arenas, i - 1).after(arenas[i - 1]));
    }
}

impl HandVec {
    /// Counts the rows of `o` into `cur` and returns what `cur` was: the
    /// rows that stand before `o`.
    pub fn combine_begin(cur: &mut ConcatOffsets, o: &HandVec) -> (off: ConcatOffsets)
        requires
            old(cur).has_room(o@),
        ensures
            off == *old(cur),
            *final(cur) == old(cur).after(o@),
    {
        let off = *cur;
        cur.src_offset += o.src.len();
        cur.hands_offset += o.hands.len();
        cur.players_offset += o.players.len();
        cur.winners_offset += o.winners.len();
        cur.nums_offset += o.nums.len();
        cur.cards_offset += o.cards.len();
        cur.actions_offset += o.actions.len();
        cur.flops_offset += o.flops.len();
        cur.turns_offset += o.turns.len();
        cur.rivers_offset += o.rivers.len();
        cur.showdowns_offset += o.showdowns.len();
        off
    }

    /// Moves a range of text on by `offset` bytes.
    pub fn replace_str(s: &mut Span, offset: usize)
        requires
            span_has_room(*old(s), offset as int),
        ensures
            *final(s) == rebase_span(*old(s), offset as int),
    {
        *s = Span::new(s.begin() + offset, s.size())
    }

    /// Moves a range of rows on by `offset` rows.
    pub fn replace_span<T: SpanLike>(s: &mut T, offset: usize)
        requires
            span_has_room(*old(s), offset as int),
        ensures
            *final(s) == rebase_span(*old(s), offset as int),
    {
        *s = T::new(s.begin() + offset, s.size())
    }
}

fn rebased_action(a: Action, o: &ConcatOffsets) -> (r: Action)
    requires
        action_has_room(a, *o),
    ensures
        r == rebase_action(a, *o),
{
    let mut a = a;
    if a.kind.can_have_cards() && a.data.0 != u32::MAX {
        a.data = ActionData::new_handle((a.data.handle() as usize + o.cards_offset) as u32);
    } else if a.kind == ActionType::CashOut {
        a.data = ActionData::new_handle((a.data.handle() as usize + o.nums_offset) as u32);
    }
    a
}

fn rebased_street(s: Street, o: &ConcatOffsets) -> (r: Street)
    requires
        street_has_room(s, *o),
    ensures
        r == rebase_street(s, *o),
{
    let mut s = s;
    HandVec::replace_span(&mut s.actions, o.actions_offset);
    s
}

fn rebased_player(p: Player, o: &ConcatOffsets) -> (r: Player)
    requires
        player_has_room(p, *o),
    ensures
        r == rebase_player(p, *o),
{
    let mut p = p;
    HandVec::replace_str(&mut p.name, o.src_offset);
    p
}

fn rebased_hand(h: Hand, o: &ConcatOffsets) -> (r: Hand)
    requires
        hand_has_room(h, *o),
    ensures
        r == rebase_hand(h, *o),
{
    let mut h = h;
    h.src_offset += o.src_offset;
    HandVec::replace_str(&mut h.header.id, o.src_offset);
    HandVec::replace_str(&mut h.header.table_name, o.src_offset);
    HandVec::replace_span(&mut h.header.players, o.players_offset);
    HandVec::replace_span(&mut h.header.actions, o.actions_offset);
    HandVec::replace_span(&mut h.preflop.actions, o.actions_offset);
    HandVec::replace_span(&mut h.summary.winners, o.winners_offset);
    HandVec::replace_span(&mut h.summary.actions, o.actions_offset);
    let (mut flops, mut turns, mut rivers, mut showdowns) = h.streets;
    HandVec::replace_span(&mut flops, o.flops_offset);
    HandVec::replace_span(&mut turns, o.turns_offset);
    HandVec::replace_span(&mut rivers, o.rivers_offset);
    HandVec::replace_span(&mut showdowns, o.showdowns_offset);
    h.streets = (flops, turns, rivers, showdowns);
    h
}

fn rebase_hand_rows(v: &mut Vec<Hand>, o: &ConcatOffsets)
    requires
        forall|i: int| 0 <= i < old(v)@.len() ==> hand_has_room(#[trigger] old(v)@[i], *o),
    ensures
        final(v)@ == rebase_hands(old(v)@, *o),
{
    let mut i: usize = 0;
    while i < v.len()
        invariant
            i <= v@.len() == old(v)@.len(),
            forall|k: int| 0 <= k < old(v)@.len() ==> hand_has_room(#[trigger] old(v)@[k], *o),
            forall|k: int| 0 <= k < i ==> v@[k] == rebase_hand(old(v)@[k], *o),
            forall|k: int| i <= k < v@.len() ==> v@[k] == old(v)@[k],
        decreases v@.len() - i,
    {
        let row = v[i];
        v.set(i, rebased_hand(row, o));
        i += 1;
    }
    assert(v@ =~= rebase_hands(old(v)@, *o));
}

fn rebase_player_rows(v: &mut Vec<Player>, o: &ConcatOffsets)
    requires
        forall|i: int| 0 <= i < old(v)@.len() ==> player_has_room(#[trigger] old(v)@[i], *o),
    ensures
        final(v)@ == rebase_players(old(v)@, *o),
{
    let mut i: usize = 0;
    while i < v.len()
        invariant
            i <= v@.len() == old(v)@.len(),
            forall|k: int| 0 <= k < old(v)@.len() ==> player_has_room(#[trigger] old(v)@[k], *o),
            forall|k: int| 0 <= k < i ==> v@[k] == rebase_player(old(v)@[k], *o),
            forall|k: int| i <= k < v@.len() ==> v@[k] == old(v)@[k],
        decreases v@.len() - i,
    {
        let row = v[i];
        v.set(i, rebased_player(row, o));
        i += 1;
    }
    assert(v@ =~= rebase_players(old(v)@, *o));
}

fn rebase_street_rows(v: &mut Vec<Street>, o: &ConcatOffsets)
    requires
        forall|i: int| 0 <= i < old(v)@.len() ==> street_has_room(#[trigger] old(v)@[i], *o),
    ensures
        final(v)@ == rebase_streets(old(v)@, *o),
{
    let mut i: usize = 0;
    while i < v.len()
        invariant
            i <= v@.len() == old(v)@.len(),
            forall|k: int| 0 <= k < old(v)@.len() ==> street_has_room(#[trigger] old(v)@[k], *o),
            forall|k: int| 0 <= k < i ==> v@[k] == rebase_street(old(v)@[k], *o),
            forall|k: int| i <= k < v@.len() ==> v@[k] == old(v)@[k],
        decreases v@.len() - i,
    {
        let row = v[i];
        v.set(i, rebased_street(row, o));
        i += 1;
    }
    assert(v@ =~= rebase_streets(old(v)@, *o));
}

fn rebase_action_rows(v: &mut Vec<Action>, o: &ConcatOffsets)
    requires
        forall|i: int| 0 <= i < old(v)@.len() ==> action_has_room(#[trigger] old(v)@[i], *o),
    ensures
        final(v)@ == rebase_actions(old(v)@, *o),
{
    let mut i: usize = 0;
    while i < v.len()
        invariant
            i <= v@.len() == old(v)@.len(),
            forall|k: int| 0 <= k < old(v)@.len() ==> action_has_room(#[trigger] old(v)@[k], *o),
            forall|k: int| 0 <= k < i ==> v@[k] == rebase_action(old(v)@[k], *o),
            forall|k: int| i <= k < v@.len() ==> v@[k] == old(v)@[k],
        decreases v@.len() - i,
    {
        let row = v[i];
        v.set(i, rebased_action(row, o));
        i += 1;
    }
    assert(v@ =~= rebase_actions(old(v)@, *o));
}

impl HandVec {
    /// Moves every row that points into a column on by the rows that `o`
    /// counts.
    pub fn combine_update(&mut self, o: &ConcatOffsets)
        requires
            old(self)@.has_room(*o),
        ensures
            final(self)@ == old(self)@.rebase(*o),
    {
        proof {
            let a = self@;
            assert forall|i: int| 0 <= i < self.hands@.len() implies hand_has_room(
                #[trigger] self.hands@[i],
                *o,
            ) by {
                assert(hand_has_room(a.hands[i], *o));
            }
            assert forall|i: int| 0 <= i < self.players@.len() implies player_has_room(
                #[trigger] self.players@[i],
                *o,
            ) by {
                assert(player_has_room(a.players[i], *o));
            }
            assert forall|i: int| 0 <= i < self.flops@.len() implies street_has_room(
                #[trigger] self.flops@[i],
                *o,
            ) by {
                assert(street_has_room(a.flops[i], *o));
            }
            assert forall|i: int| 0 <= i < self.turns@.len() implies street_has_room(
                #[trigger] self.turns@[i],
                *o,
            ) by {
                assert(street_has_room(a.turns[i], *o));
            }
            assert forall|i: int| 0 <= i < self.rivers@.len() implies street_has_room(
                #[trigger] self.rivers@[i],
                *o,
            ) by {
                assert(street_has_room(a.rivers[i], *o));
            }
            assert forall|i: int| 0 <= i < self.showdowns@.len() implies street_has_room(
                #[trigger] self.showdowns@[i],
                *o,
            ) by {
                assert(street_has_room(a.showdowns[i], *o));
            }
            assert forall|i: int| 0 <= i < self.actions@.len() implies action_has_room(
                #[trigger] self.actions@[i],
                *o,
            ) by {
                assert(action_has_room(a.actions[i], *o));
            }
        }
        rebase_hand_rows(&mut self.hands, o);
        rebase_player_rows(&mut self.players, o);
        rebase_street_rows(&mut self.flops, o);
        rebase_street_rows(&mut self.turns, o);
        rebase_street_rows(&mut self.rivers, o);
        rebase_street_rows(&mut self.showdowns, o);
        rebase_action_rows(&mut self.actions, o);
    }

    /// Puts the rows of `next` after the rows of `self`, column by column.
    pub fn append(&mut self, next: HandVec)
        ensures
            final(self)@ == old(self)@.append(next@),
    {
        let mut next = next;
        self.src.append(&mut next.src);
        self.hands.append(&mut next.hands);
        self.players.append(&mut next.players);
        self.winners.append(&mut next.winners);
        self.nums.append(&mut next.nums);
        self.cards.append(&mut next.cards);
        self.actions.append(&mut next.actions);
        self.flops.append(&mut next.flops);
        self.turns.append(&mut next.turns);
        self.rivers.append(&mut next.rivers);
        self.showdowns.append(&mut next.showdowns);
    }

    /// Makes one arena of several, in their order.
    pub fn combine(vecs: Vec<HandVec>) -> (r: HandVec)
        requires
            vecs@.len() >= 1,
            combinable(arenas_of(vecs@)),
        ensures
            r@ == combine_arenas(arenas_of(vecs@)),
            vecs@.len() == 1 ==> r == vecs@[0],
            (forall|i: int| 0 <= i < vecs@.len() ==> (#[trigger] vecs@[i])@.wf()) ==> r@.wf(),
    {
        let mut vecs = vecs;
        let ghost arenas = arenas_of(vecs@);
        let n = vecs.len();
        proof {
            if forall|i: int| 0 <= i < vecs@.len() ==> (#[trigger] vecs@[i])@.wf() {
                assert forall|i: int| 0 <= i < arenas.len() implies (#[trigger] arenas[i]).wf() by {
                    assert(vecs@[i]@.wf());
                }
                law_combine_wf(arenas);
            }
        }
        if n == 1 {
            let only = vecs.pop();
            return only.unwrap();
        }
        // The rows before each arena: one after the other, since each count
        // rests on those before it.
        let mut cur = ConcatOffsets::default();
        let mut offsets: Vec<ConcatOffsets> = Vec::new();
        let mut i: usize = 0;
        while i < n
            invariant
                i <= n == vecs@.len(),
                arenas == arenas_of(vecs@),
                combinable(arenas),
                cur == offsets_before(arenas, i as int),
                offsets@.len() == i,
                forall|k: int| 0 <= k < i ==> offsets@[k] == offsets_before(arenas, k),
            decreases n - i,
        {
            assert(offsets_before(arenas, i as int).has_room(arenas[i as int]));
            assert(arenas[i as int] == vecs@[i as int]@);
            let off = HandVec::combine_begin(&mut cur, &vecs[i]);
            offsets.push(off);
            i += 1;
        }
        // The arenas in reverse, so that they can be taken from the end in
        // their order.
        let mut rev: Vec<HandVec> = Vec::new();
        while vecs.len() > 0
            invariant
                vecs@.len() + rev@.len() == n,
                arenas.len() == n,
                forall|k: int| 0 <= k < vecs@.len() ==> vecs@[k]@ == arenas[k],
                forall|k: int| 0 <= k < rev@.len() ==> (#[trigger] rev@[k])@ == arenas[n - 1 - k],
            decreases vecs@.len(),
        {
            let last = vecs.pop().unwrap();
            rev.push(last);
        }
        let mut acc = rev.pop().unwrap();
        proof {
            assert(arenas.subrange(0, 1) =~= seq![arenas[0]]);
        }
        let mut i: usize = 1;
        while i < n
            invariant
                1 <= i <= n == arenas.len(),
                rev@.len() == n - i,
                combinable(arenas),
                offsets@.len() == n,
                forall|k: int| 0 <= k < n ==> offsets@[k] == offsets_before(arenas, k),
                forall|k: int| 0 <= k < rev@.len() ==> (#[trigger] rev@[k])@ == arenas[n - 1 - k],
                acc@ == combine_arenas(arenas.subrange(0, i as int)),
            decreases n - i,
        {
            let mut next = rev.pop().unwrap();
            proof {
                assert(next@ == arenas[i as int]);
                assert(arenas[i as int].has_room(offsets_before(arenas, i as int)));
                lemma_offsets_before(arenas, i as int);
                let front = arenas.subrange(0, i + 1);
                assert(front.drop_last() =~= arenas.subrange(0, i as int));
                assert(front.last() == arenas[i as int]);
            }
            next.combine_update(&offsets[i]);
            acc.append(next);
            i += 1;
        }
        proof {
            assert(arenas.subrange(0, n as int) =~= arenas);
        }
        acc
    }
}

/// A span that has room to be moved on keeps its size and begins later by
/// as much.
pub proof fn lemma_rebased_span<S: SpanLike>(s: S, by: int)
    requires
        span_has_room(s, by),
    ensures
        rebase_span(s, by).spec_begin() == s.spec_begin() + by,
        rebase_span(s, by).spec_size() == s.spec_size(),
        0 <= s.spec_begin(),
        0 <= s.spec_size(),
{
    s.lemma_canonical();
    S::lemma_fields(s.spec_begin() + by, s.spec_size());
}

impl Arena {
    /// Whether the rows of each column can be counted in a `usize`.
    pub open spec fn countable(self) -> bool {
        self.counted_by(self.lens())
    }
}

/// An action of the first arena says in the merged arena what it said.
proof fn lemma_action_left(a: Arena, b: Arena, at: int, act: Action)
    requires
        a.action_ok(at, act),
        0 <= at,
    ensures
        a.append(b).action_ok(at, act),
        a.append(b).action_view(at, act) == a.action_view(at, act),
{
    let m = a.append(b);
    a.data_lemma(act);
    if act.kind == ActionType::Say {
        assert(m.src.subrange(
            at + act.data.spec_message_offset(),
            at + act.data.spec_message_offset() + act.data.spec_message_size(),
        ) =~= a.src.subrange(
            at + act.data.spec_message_offset(),
            at + act.data.spec_message_offset() + act.data.spec_message_size(),
        ));
    }
}

impl Arena {
    /// What a payload reads as lies within its bits.
    pub proof fn data_lemma(self, act: Action)
        ensures
            0 <= act.data.spec_message_offset() <= MAX_MESSAGE_OFFSET,
            0 <= act.data.spec_message_size() <= crate::pklp::action::MAX_MESSAGE_SIZE,
    {
        act.data.lemma_message_canonical();
    }
}

/// An action of the second arena, moved on, says in the merged arena what
/// it said, read from where the hand's text now begins.
proof fn lemma_action_right(a: Arena, b: Arena, at: int, act: Action)
    requires
        a.countable(),
        b.action_ok(at, act),
        action_has_room(act, a.lens()),
        0 <= at,
    ensures
        a.merge(b).action_ok(at + a.src.len(), rebase_action(act, a.lens())),
        a.merge(b).action_view(at + a.src.len(), rebase_action(act, a.lens())) == b.action_view(
            at,
            act,
        ),
{
    let o = a.lens();
    let m = a.merge(b);
    let moved = rebase_action(act, o);
    a.data_lemma(act);
    if act.kind.spec_can_have_cards() && act.data != ActionData::spec_invalid() {
        assert(m.cards[act.data.0 + a.cards.len()] == b.cards[act.data.0 as int]);
    } else if act.kind == ActionType::Say {
        assert(moved == act);
        assert(m.src.subrange(
            at + a.src.len() + act.data.spec_message_offset(),
            at + a.src.len() + act.data.spec_message_offset() + act.data.spec_message_size(),
        ) =~= b.src.subrange(
            at + act.data.spec_message_offset(),
            at + act.data.spec_message_offset() + act.data.spec_message_size(),
        ));
    } else if act.kind == ActionType::CashOut {
        assert(m.nums[act.data.0 + a.nums.len()] == b.nums[act.data.0 as int]);
        assert(m.nums[act.data.0 + a.nums.len() + 1] == b.nums[act.data.0 + 1]);
    }
}

/// The actions that a span of the first arena covers say in the merged
/// arena what they said.
proof fn lemma_actions_left(a: Arena, b: Arena, at: int, span: ActionSpan)
    requires
        a.actions_ok(at, span),
        0 <= at,
    ensures
        a.append(b).actions_ok(at, span),
        a.append(b).actions_view(at, span) == a.actions_view(at, span),
{
    let m = a.append(b);
    span.lemma_canonical();
    assert forall|k: int| 0 <= k < span.spec_size() implies m.action_ok(
        at,
        #[trigger] m.actions[span.spec_begin() + k],
    ) && m.action_view(at, m.actions[span.spec_begin() + k]) == a.action_view(
        at,
        a.actions[span.spec_begin() + k],
    ) by {
        let act = a.actions[span.spec_begin() + k];
        assert(m.actions[span.spec_begin() + k] == act);
        lemma_action_left(a, b, at, act);
    }
    assert(m.actions_view(at, span) =~= a.actions_view(at, span));
}

/// The actions that a span of the second arena covers say in the merged
/// arena, under the span moved on, what they said.
proof fn lemma_actions_right(a: Arena, b: Arena, at: int, span: ActionSpan)
    requires
        a.countable(),
        b.has_room(a.lens()),
        b.actions_ok(at, span),
        span_has_room(span, a.actions.len() as int),
        0 <= at,
    ensures
        a.merge(b).actions_ok(at + a.src.len(), rebase_span(span, a.actions.len() as int)),
        a.merge(b).actions_view(at + a.src.len(), rebase_span(span, a.actions.len() as int))
            == b.actions_view(at, span),
{
    let o = a.lens();
    let m = a.merge(b);
    let moved = rebase_span(span, a.actions.len() as int);
    lemma_rebased_span(span, a.actions.len() as int);
    assert forall|k: int| 0 <= k < moved.spec_size() implies m.action_ok(
        at + a.src.len(),
        #[trigger] m.actions[moved.spec_begin() + k],
    ) && m.action_view(at + a.src.len(), m.actions[moved.spec_begin() + k]) == b.action_view(
        at,
        b.actions[span.spec_begin() + k],
    ) by {
        let act = b.actions[span.spec_begin() + k];
        assert(m.actions[moved.spec_begin() + k] == rebase_action(act, o));
        assert(action_has_room(act, o));
        assert(b.action_ok(at, act));
        lemma_action_right(a, b, at, act);
    }
    assert(m.actions_view(at + a.src.len(), moved) =~= b.actions_view(at, span));
}

/// The streets of a column of the first arena say in the merged arena
/// what they said.
proof fn lemma_streets_left(
    a: Arena,
    b: Arena,
    at: int,
    column: Seq<Street>,
    more: Seq<Street>,
    begin: int,
    size: int,
)
    requires
        a.streets_ok(at, column, begin, size),
        0 <= at,
    ensures
        a.append(b).streets_ok(at, column + more, begin, size),
        a.append(b).streets_view(at, column + more, begin, size) == a.streets_view(
            at,
            column,
            begin,
            size,
        ),
{
    let m = a.append(b);
    assert forall|k: int| 0 <= k < size implies m.street_ok(
        at,
        #[trigger] (column + more)[begin + k],
    ) && m.street_view(at, (column + more)[begin + k]) == a.street_view(at, column[begin + k]) by {
        let s = column[begin + k];
        assert((column + more)[begin + k] == s);
        assert(a.street_ok(at, s));
        lemma_actions_left(a, b, at, s.actions);
    }
    assert(m.streets_view(at, column + more, begin, size) =~= a.streets_view(
        at,
        column,
        begin,
        size,
    ));
}

/// The streets of a column of the second arena say in the merged arena,
/// moved on, what they said.
proof fn lemma_streets_right(
    a: Arena,
    b: Arena,
    at: int,
    before: Seq<Street>,
    column: Seq<Street>,
    begin: int,
    size: int,
)
    requires
        a.countable(),
        b.has_room(a.lens()),
        b.streets_ok(at, column, begin, size),
        forall|k: int| 0 <= k < column.len() ==> street_has_room(#[trigger] column[k], a.lens()),
        0 <= at,
    ensures
        a.merge(b).streets_ok(
            at + a.src.len(),
            before + rebase_streets(column, a.lens()),
            begin + before.len(),
            size,
        ),
        a.merge(b).streets_view(
            at + a.src.len(),
            before + rebase_streets(column, a.lens()),
            begin + before.len(),
            size,
        ) == b.streets_view(at, column, begin, size),
{
    let o = a.lens();
    let m = a.merge(b);
    let joined = before + rebase_streets(column, o);
    assert forall|k: int| 0 <= k < size implies m.street_ok(
        at + a.src.len(),
        #[trigger] joined[begin + before.len() + k],
    ) && m.street_view(at + a.src.len(), joined[begin + before.len() + k]) == b.street_view(
        at,
        column[begin + k],
    ) by {
        let s = column[begin + k];
        assert(joined[begin + before.len() + k] == rebase_street(s, o));
        assert(b.street_ok(at, s));
        assert(street_has_room(s, o));
        lemma_actions_right(a, b, at, s.actions);
    }
    assert(m.streets_view(at + a.src.len(), joined, begin + before.len(), size)
        =~= b.streets_view(at, column, begin, size));
}

/// One arena made one is itself.
pub proof fn law_combine_one(a: Arena)
    ensures
        combine_arenas(seq![a]) == a,
{
}

/// Two arenas made one hold the hands of the first, then the hands of the
/// second, and each hand says what it said in its own arena.
pub proof fn law_combine_two(a: Arena, b: Arena)
    requires
        a.countable(),
        b.has_room(a.lens()),
    ensures
        combine_arenas(seq![a, b]) == a.merge(b),
        a.merge(b).hands.len() == a.hands.len() + b.hands.len(),
        forall|i: int| 0 <= i < a.hands.len() ==> (#[trigger] a.merge(b).hands[i]) == a.hands[i],
        forall|j: int|
            0 <= j < b.hands.len() ==> (#[trigger] a.merge(b).hands[a.hands.len() + j])
                == rebase_hand(b.hands[j], a.lens()),
        forall|i: int|
            0 <= i < a.hands.len() && a.hand_ok(a.hands[i]) ==> a.merge(b).hand_ok(
                #[trigger] a.merge(b).hands[i],
            ) && a.merge(b).hand_view(a.merge(b).hands[i]) == a.hand_view(a.hands[i]),
        forall|j: int|
            0 <= j < b.hands.len() && b.hand_ok(b.hands[j]) ==> a.merge(b).hand_ok(
                #[trigger] a.merge(b).hands[a.hands.len() + j],
            ) && a.merge(b).hand_view(a.merge(b).hands[a.hands.len() + j]) == b.hand_view(
                b.hands[j],
            ),
        a.wf() && b.wf() ==> a.merge(b).wf(),
{
    let m = a.merge(b);
    assert(seq![a, b].drop_last() =~= seq![a]);
    assert(seq![a, b].last() == b);
    assert(combine_arenas(seq![a]) == a);
    assert(combine_arenas(seq![a, b]) == m);
    assert forall|i: int| 0 <= i < a.hands.len() && a.hand_ok(a.hands[i]) implies m.hand_ok(
        #[trigger] m.hands[i],
    ) && m.hand_view(m.hands[i]) == a.hand_view(a.hands[i]) by {
        lemma_hand_left(a, b.rebase(a.lens()), a.hands[i]);
    }
    assert forall|j: int| 0 <= j < b.hands.len() && b.hand_ok(b.hands[j]) implies m.hand_ok(
        #[trigger] m.hands[a.hands.len() + j],
    ) && m.hand_view(m.hands[a.hands.len() + j]) == b.hand_view(b.hands[j]) by {
        assert(hand_has_room(b.hands[j], a.lens()));
        lemma_hand_right(a, b, b.hands[j]);
    }
    if a.wf() && b.wf() {
        assert forall|i: int| 0 <= i < m.hands.len() implies m.hand_ok(#[trigger] m.hands[i]) by {
            if i < a.hands.len() {
                assert(a.hand_ok(a.hands[i]));
            } else {
                let j = i - a.hands.len();
                assert(b.hand_ok(b.hands[j]));
                assert(m.hand_ok(m.hands[a.hands.len() + j]));
            }
        }
    }
}

/// The hand `j` of arena `k` says, in the first `n` arenas made one, what
/// it says in its own arena.
proof fn lemma_combine_prefix(arenas: Seq<Arena>, k: int, j: int, n: int)
    requires
        combinable(arenas),
        0 <= k < n <= arenas.len(),
        0 <= j < arenas[k].hands.len(),
        arenas[k].hand_ok(arenas[k].hands[j]),
    ensures
        ({
            let m = combine_arenas(arenas.subrange(0, n));
            let at = offsets_before(arenas, k).hands_offset + j;
            &&& at < m.hands.len()
            &&& m.hand_ok(m.hands[at])
            &&& m.hand_view(m.hands[at]) == arenas[k].hand_view(arenas[k].hands[j])
        }),
    decreases n,
{
    let front = arenas.subrange(0, n);
    let h = arenas[k].hands[j];
    if n == 1 {
        assert(front[0] == arenas[0]);
    } else {
        assert(front.drop_last() =~= arenas.subrange(0, n - 1));
        assert(front.last() == arenas[n - 1]);
        let a = combine_arenas(arenas.subrange(0, n - 1));
        lemma_offsets_before(arenas, n - 1);
        assert(arenas[n - 1].has_room(offsets_before(arenas, n - 1)));
        if n == k + 1 {
            assert(hand_has_room(h, a.lens()));
            lemma_hand_right(a, arenas[k], h);
        } else {
            lemma_combine_prefix(arenas, k, j, n - 1);
            let at = offsets_before(arenas, k).hands_offset + j;
            lemma_hand_left(a, arenas[n - 1].rebase(a.lens()), a.hands[at]);
        }
    }
}

/// Arenas made one hold the hands of each in the order of the arenas, and
/// each hand says what it said in its own arena: the hand `j` of arena `k`
/// stands after the hands of the arenas before `k`.
pub proof fn law_combine_many(arenas: Seq<Arena>, k: int, j: int)
    requires
        combinable(arenas),
        0 <= k < arenas.len(),
        0 <= j < arenas[k].hands.len(),
        arenas[k].hand_ok(arenas[k].hands[j]),
    ensures
        ({
            let m = combine_arenas(arenas);
            let at = offsets_before(arenas, k).hands_offset + j;
            &&& at < m.hands.len()
            &&& m.hand_ok(m.hands[at])
            &&& m.hand_view(m.hands[at]) == arenas[k].hand_view(arenas[k].hands[j])
        }),
{
    lemma_combine_prefix(arenas, k, j, arenas.len() as int);
    assert(arenas.subrange(0, arenas.len() as int) =~= arenas);
}

/// Arenas in which every hand finds what it refers to, made one, are such
/// an arena.
pub proof fn law_combine_wf(arenas: Seq<Arena>)
    requires
        combinable(arenas),
        forall|i: int| 0 <= i < arenas.len() ==> (#[trigger] arenas[i]).wf(),
    ensures
        combine_arenas(arenas).wf(),
{
    lemma_combine_wf(arenas, arenas.len() as int);
    assert(arenas.subrange(0, arenas.len() as int) =~= arenas);
}

/// The first `n` of such arenas, made one, are such an arena.
proof fn lemma_combine_wf(arenas: Seq<Arena>, n: int)
    requires
        combinable(arenas),
        0 <= n <= arenas.len(),
        forall|i: int| 0 <= i < arenas.len() ==> (#[trigger] arenas[i]).wf(),
    ensures
        combine_arenas(arenas.subrange(0, n)).wf(),
    decreases n,
{
    let front = arenas.subrange(0, n);
    if n == 0 {
    } else if n == 1 {
        assert(front[0] == arenas[0]);
    } else {
        lemma_combine_wf(arenas, n - 1);
        assert(front.drop_last() =~= arenas.subrange(0, n - 1));
        assert(front.last() == arenas[n - 1]);
        let a = combine_arenas(arenas.subrange(0, n - 1));
        lemma_offsets_before(arenas, n - 1);
        assert(arenas[n - 1].has_room(offsets_before(arenas, n - 1)));
        assert(arenas[n - 1].wf());
        law_combine_two(a, arenas[n - 1]);
    }
}

/// A hand of the first arena says in the merged arena what it said.
proof fn lemma_hand_left(a: Arena, b: Arena, h: Hand)
    requires
        a.hand_ok(h),
    ensures
        a.append(b).hand_ok(h),
        a.append(b).hand_view(h) == a.hand_view(h),
{
    let m = a.append(b);
    let at = h.src_offset as int;
    h.header.id.lemma_canonical();
    h.header.table_name.lemma_canonical();
    h.header.players.lemma_canonical();
    h.summary.winners.lemma_canonical();
    h.streets.0.lemma_canonical();
    h.streets.1.lemma_canonical();
    h.streets.2.lemma_canonical();
    h.streets.3.lemma_canonical();
    assert(m.text(h.header.id) =~= a.text(h.header.id));
    assert(m.text(h.header.table_name) =~= a.text(h.header.table_name));
    let pb = h.header.players.spec_begin();
    assert forall|k: int| 0 <= k < h.header.players.spec_size() implies m.has_text(
        (#[trigger] m.players[pb + k]).name,
    ) && m.player_view(m.players[pb + k]) == a.player_view(a.players[pb + k]) by {
        let p = a.players[pb + k];
        assert(m.players[pb + k] == p);
        p.name.lemma_canonical();
        assert(m.text(p.name) =~= a.text(p.name));
    }
    assert(m.hand_view(h).players =~= a.hand_view(h).players);
    lemma_actions_left(a, b, at, h.header.actions);
    lemma_actions_left(a, b, at, h.preflop.actions);
    lemma_actions_left(a, b, at, h.summary.actions);
    lemma_streets_left(a, b, at, a.flops, b.flops, h.streets.0.spec_begin(), h.streets.0.spec_size());
    lemma_streets_left(a, b, at, a.turns, b.turns, h.streets.1.spec_begin(), h.streets.1.spec_size());
    lemma_streets_left(
        a,
        b,
        at,
        a.rivers,
        b.rivers,
        h.streets.2.spec_begin(),
        h.streets.2.spec_size(),
    );
    lemma_streets_left(
        a,
        b,
        at,
        a.showdowns,
        b.showdowns,
        h.streets.3.spec_begin(),
        h.streets.3.spec_size(),
    );
    assert(m.hand_view(h).winners =~= a.hand_view(h).winners);
}

/// A hand of the second arena, moved on, says in the merged arena what it
/// said.
proof fn lemma_hand_right(a: Arena, b: Arena, h: Hand)
    requires
        a.countable(),
        b.has_room(a.lens()),
        hand_has_room(h, a.lens()),
        b.hand_ok(h),
    ensures
        a.merge(b).hand_ok(rebase_hand(h, a.lens())),
        a.merge(b).hand_view(rebase_hand(h, a.lens())) == b.hand_view(h),
{
    let o = a.lens();
    let m = a.merge(b);
    let moved = rebase_hand(h, o);
    let at = h.src_offset as int;
    lemma_rebased_span(h.header.id, a.src.len() as int);
    lemma_rebased_span(h.header.table_name, a.src.len() as int);
    lemma_rebased_span(h.header.players, a.players.len() as int);
    lemma_rebased_span(h.summary.winners, a.winners.len() as int);
    lemma_rebased_span(h.streets.0, a.flops.len() as int);
    lemma_rebased_span(h.streets.1, a.turns.len() as int);
    lemma_rebased_span(h.streets.2, a.rivers.len() as int);
    lemma_rebased_span(h.streets.3, a.showdowns.len() as int);
    assert(m.text(moved.header.id) =~= b.text(h.header.id));
    assert(m.text(moved.header.table_name) =~= b.text(h.header.table_name));
    let pb = h.header.players.spec_begin();
    let pm = moved.header.players.spec_begin();
    assert forall|k: int| 0 <= k < moved.header.players.spec_size() implies m.has_text(
        (#[trigger] m.players[pm + k]).name,
    ) && m.player_view(m.players[pm + k]) == b.player_view(b.players[pb + k]) by {
        let p = b.players[pb + k];
        assert(m.players[pm + k] == rebase_player(p, o));
        assert(player_has_room(p, o));
        assert(b.has_text(p.name));
        lemma_rebased_span(p.name, a.src.len() as int);
        assert(m.text(rebase_player(p, o).name) =~= b.text(p.name));
    }
    assert(m.hand_view(moved).players =~= b.hand_view(h).players);
    lemma_actions_right(a, b, at, h.header.actions);
    lemma_actions_right(a, b, at, h.preflop.actions);
    lemma_actions_right(a, b, at, h.summary.actions);
    assert forall|k: int| 0 <= k < b.flops.len() implies street_has_room(
        #[trigger] b.flops[k],
        o,
    ) by {}
    assert forall|k: int| 0 <= k < b.turns.len() implies street_has_room(
        #[trigger] b.turns[k],
        o,
    ) by {}
    assert forall|k: int| 0 <= k < b.rivers.len() implies street_has_room(
        #[trigger] b.rivers[k],
        o,
    ) by {}
    assert forall|k: int| 0 <= k < b.showdowns.len() implies street_has_room(
        #[trigger] b.showdowns[k],
        o,
    ) by {}
    lemma_streets_right(
        a,
        b,
        at,
        a.flops,
        b.flops,
        h.streets.0.spec_begin(),
        h.streets.0.spec_size(),
    );
    lemma_streets_right(
        a,
        b,
        at,
        a.turns,
        b.turns,
        h.streets.1.spec_begin(),
        h.streets.1.spec_size(),
    );
    lemma_streets_right(
        a,
        b,
        at,
        a.rivers,
        b.rivers,
        h.streets.2.spec_begin(),
        h.streets.2.spec_size(),
    );
    lemma_streets_right(
        a,
        b,
        at,
        a.showdowns,
        b.showdowns,
        h.streets.3.spec_begin(),
        h.streets.3.spec_size(),
    );
    assert(m.hand_view(moved).winners =~= b.hand_view(h).winners);
}

fn span_can_move<S: SpanLike>(s: &S, by: usize) -> (b: bool)
    ensures
        b == span_has_room(*s, by as int),
{
    proof {
        s.lemma_canonical();
    }
    let begin = s.begin();
    by <= usize::MAX - begin && (begin + by) as u64 <= crate::pklp::span::MAX_SPAN_BEGIN
}

fn action_can_move(a: &Action, o: &ConcatOffsets) -> (b: bool)
    ensures
        b == action_has_room(*a, *o),
{
    if a.kind.can_have_cards() && a.data.0 != u32::MAX {
        o.cards_offset < u32::MAX as usize && a.data.0 < u32::MAX - o.cards_offset as u32
    } else if a.kind == ActionType::CashOut {
        o.nums_offset <= u32::MAX as usize && a.data.0 <= u32::MAX - o.nums_offset as u32
    } else {
        true
    }
}

fn hand_can_move(h: &Hand, o: &ConcatOffsets) -> (b: bool)
    ensures
        b == hand_has_room(*h, *o),
{
    span_can_move(&h.header.id, o.src_offset) && span_can_move(&h.header.table_name, o.src_offset)
        && span_can_move(&h.header.players, o.players_offset) && span_can_move(
        &h.header.actions,
        o.actions_offset,
    ) && span_can_move(&h.preflop.actions, o.actions_offset) && span_can_move(
        &h.summary.winners,
        o.winners_offset,
    ) && span_can_move(&h.summary.actions, o.actions_offset) && span_can_move(
        &h.streets.0,
        o.flops_offset,
    ) && span_can_move(&h.streets.1, o.turns_offset) && span_can_move(
        &h.streets.2,
        o.rivers_offset,
    ) && span_can_move(&h.streets.3, o.showdowns_offset) && o.src_offset <= usize::MAX
        - h.src_offset
}

fn streets_can_move(v: &Vec<Street>, o: &ConcatOffsets) -> (b: bool)
    ensures
        b == (forall|i: int| 0 <= i < v@.len() ==> street_has_room(#[trigger] v@[i], *o)),
{
    let mut i: usize = 0;
    while i < v.len()
        invariant
            i <= v@.len(),
            forall|k: int| 0 <= k < i ==> street_has_room(#[trigger] v@[k], *o),
        decreases v@.len() - i,
    {
        if !span_can_move(&v[i].actions, o.actions_offset) {
            assert(!street_has_room(v@[i as int], *o));
            return false;
        }
        i += 1;
    }
    true
}

impl ConcatOffsets {
    /// Whether the rows of `a` can be counted in.
    pub fn can_count(&self, a: &HandVec) -> (b: bool)
        ensures
            b == self.has_room(a@),
    {
        a.src.len() <= usize::MAX - self.src_offset && a.hands.len() <= usize::MAX
            - self.hands_offset && a.players.len() <= usize::MAX - self.players_offset
            && a.winners.len() <= usize::MAX - self.winners_offset && a.nums.len() <= usize::MAX
            - self.nums_offset && a.cards.len() <= usize::MAX - self.cards_offset
            && a.actions.len() <= usize::MAX - self.actions_offset && a.flops.len() <= usize::MAX
            - self.flops_offset && a.turns.len() <= usize::MAX - self.turns_offset
            && a.rivers.len() <= usize::MAX - self.rivers_offset && a.showdowns.len()
            <= usize::MAX - self.showdowns_offset
    }
}

impl HandVec {
    /// Whether every row can be moved on by the rows that `o` counts.
    pub fn can_update(&self, o: &ConcatOffsets) -> (b: bool)
        ensures
            b == self@.has_room(*o),
    {
        let mut i: usize = 0;
        while i < self.hands.len()
            invariant
                i <= self.hands@.len(),
                forall|k: int| 0 <= k < i ==> hand_has_room(#[trigger] self@.hands[k], *o),
            decreases self.hands@.len() - i,
        {
            if !hand_can_move(&self.hands[i], o) {
                assert(!hand_has_room(self@.hands[i as int], *o));
                return false;
            }
            i += 1;
        }
        let mut i: usize = 0;
        while i < self.players.len()
            invariant
                i <= self.players@.len(),
                forall|k: int| 0 <= k < i ==> player_has_room(#[trigger] self@.players[k], *o),
            decreases self.players@.len() - i,
        {
            if !span_can_move(&self.players[i].name, o.src_offset) {
                assert(!player_has_room(self@.players[i as int], *o));
                return false;
            }
            i += 1;
        }
        let mut i: usize = 0;
        while i < self.actions.len()
            invariant
                i <= self.actions@.len(),
                forall|k: int| 0 <= k < i ==> action_has_room(#[trigger] self@.actions[k], *o),
            decreases self.actions@.len() - i,
        {
            if !action_can_move(&self.actions[i], o) {
                assert(!action_has_room(self@.actions[i as int], *o));
                return false;
            }
            i += 1;
        }
        if !streets_can_move(&self.flops, o) {
            assert(self@.flops == self.flops@);
            return false;
        }
        if !streets_can_move(&self.turns, o) {
            assert(self@.turns == self.turns@);
            return false;
        }
        if !streets_can_move(&self.rivers, o) {
            assert(self@.rivers == self.rivers@);
            return false;
        }
        if !streets_can_move(&self.showdowns, o) {
            assert(self@.showdowns == self.showdowns@);
            return false;
        }
        assert(self@.flops == self.flops@);
        assert(self@.turns == self.turns@);
        assert(self@.rivers == self.rivers@);
        assert(self@.showdowns == self.showdowns@);
        true
    }

    /// Whether the arenas can be made one.
    pub fn can_combine(vecs: &Vec<HandVec>) -> (b: bool)
        ensures
            b == combinable(arenas_of(vecs@)),
    {
        let ghost arenas = arenas_of(vecs@);
        let mut cur = ConcatOffsets::default();
        let mut i: usize = 0;
        while i < vecs.len()
            invariant
                i <= vecs@.len(),
                arenas == arenas_of(vecs@),
                cur == offsets_before(arenas, i as int),
                forall|k: int|
                    0 <= k < i ==> (#[trigger] offsets_before(arenas, k)).has_room(arenas[k]),
                forall|k: int|
                    1 <= k < i ==> arenas[k].has_room(#[trigger] offsets_before(arenas, k)),
            decreases vecs@.len() - i,
        {
            assert(arenas[i as int] == vecs@[i as int]@);
            if !cur.can_count(&vecs[i]) {
                return false;
            }
            if i >= 1 && !vecs[i].can_update(&cur) {
                return false;
            }
            let _before = HandVec::combine_begin(&mut cur, &vecs[i]);
            i += 1;
        }
        true
    }
}

} // verus!
