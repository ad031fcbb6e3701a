//! Reading the arena's columns through spans.

use vstd::prelude::*;
use crate::pklp::action::{Action, ActionData};
use crate::pklp::cards::Cards;
use crate::pklp::hand::{Arena, Hand, HandVec, Header, Player, Street, StreetType, Winner};
use crate::pklp::number::Number;
use crate::pklp::span::{
    span_fits, ActionSpan, FlopSpan, HandSpan, PlayerSpan, RiverSpan, ShowdownSpan, SpanLike,
    TurnSpan, WinnerSpan,
};

verus! {

/// A column of the arena that spans of kind `T` point into.
pub trait TypedSpanStorage<T: SpanLike> {
    /// How many rows the column has.
    spec fn column_len(&self) -> int;

    /// An empty span at the column's end: where the rows pushed from now on
    /// will begin.
    fn begin_span(&self, _span: T) -> (s: T)
        requires
            self.column_len() <= crate::pklp::span::MAX_SPAN_BEGIN,
        ensures
            s == T::spec_new(self.column_len(), 0),
    ;

    /// The span from where `span` begins to the column's end: the rows
    /// pushed since `begin_span`.
    fn end_span(&self, span: T) -> (s: T)
        requires
            span.spec_begin() <= self.column_len(),
            self.column_len() - span.spec_begin() <= crate::pklp::span::MAX_SPAN_SIZE,
        ensures
            s == T::spec_new(span.spec_begin(), self.column_len() - span.spec_begin()),
    ;
}

/// The rows of `column` that a span with these fields covers.
pub open spec fn rows<R>(column: Seq<R>, begin: int, size: int) -> Seq<R> {
    column.subrange(begin, begin + size)
}

impl TypedSpanStorage<HandSpan> for HandVec {
    open spec fn column_len(&self) -> int {
        self.hands@.len() as int
    }

    fn begin_span(&self, _span: HandSpan) -> (s: HandSpan) {
        HandSpan::new(self.hands.len(), 0)
    }

    fn end_span(&self, span: HandSpan) -> (s: HandSpan) {
        proof {
            span.lemma_canonical();
        }
        HandSpan::range(span.begin(), self.hands.len())
    }
}

impl TypedSpanStorage<ActionSpan> for HandVec {
    open spec fn column_len(&self) -> int {
        self.actions@.len() as int
    }

    fn begin_span(&self, _span: ActionSpan) -> (s: ActionSpan) {
        ActionSpan::new(self.actions.len(), 0)
    }

    fn end_span(&self, span: ActionSpan) -> (s: ActionSpan) {
        proof {
            span.lemma_canonical();
        }
        ActionSpan::range(span.begin(), self.actions.len())
    }
}

impl TypedSpanStorage<PlayerSpan> for HandVec {
    open spec fn column_len(&self) -> int {
        self.players@.len() as int
    }

    fn begin_span(&self, _span: PlayerSpan) -> (s: PlayerSpan) {
        PlayerSpan::new(self.players.len(), 0)
    }

    fn end_span(&self, span: PlayerSpan) -> (s: PlayerSpan) {
        proof {
            span.lemma_canonical();
        }
        PlayerSpan::range(span.begin(), self.players.len())
    }
}

impl TypedSpanStorage<WinnerSpan> for HandVec {
    open spec fn column_len(&self) -> int {
        self.winners@.len() as int
    }

    fn begin_span(&self, _span: WinnerSpan) -> (s: WinnerSpan) {
        WinnerSpan::new(self.winners.len(), 0)
    }

    fn end_span(&self, span: WinnerSpan) -> (s: WinnerSpan) {
        proof {
            span.lemma_canonical();
        }
        WinnerSpan::range(span.begin(), self.winners.len())
    }
}

impl TypedSpanStorage<FlopSpan> for HandVec {
    open spec fn column_len(&self) -> int {
        self.flops@.len() as int
    }

    fn begin_span(&self, _span: FlopSpan) -> (s: FlopSpan) {
        FlopSpan::new(self.flops.len(), 0)
    }

    fn end_span(&self, span: FlopSpan) -> (s: FlopSpan) {
        proof {
            span.lemma_canonical();
        }
        FlopSpan::range(span.begin(), self.flops.len())
    }
}

impl TypedSpanStorage<TurnSpan> for HandVec {
    open spec fn column_len(&self) -> int {
        self.turns@.len() as int
    }

    fn begin_span(&self, _span: TurnSpan) -> (s: TurnSpan) {
        TurnSpan::new(self.turns.len(), 0)
    }

    fn end_span(&self, span: TurnSpan) -> (s: TurnSpan) {
        proof {
            span.lemma_canonical();
        }
        TurnSpan::range(span.begin(), self.turns.len())
    }
}

impl TypedSpanStorage<RiverSpan> for HandVec {
    open spec fn column_len(&self) -> int {
        self.rivers@.len() as int
    }

    fn begin_span(&self, _span: RiverSpan) -> (s: RiverSpan) {
        RiverSpan::new(self.rivers.len(), 0)
    }

    fn end_span(&self, span: RiverSpan) -> (s: RiverSpan) {
        proof {
            span.lemma_canonical();
        }
        RiverSpan::range(span.begin(), self.rivers.len())
    }
}

impl TypedSpanStorage<ShowdownSpan> for HandVec {
    open spec fn column_len(&self) -> int {
        self.showdowns@.len() as int
    }

    fn begin_span(&self, _span: ShowdownSpan) -> (s: ShowdownSpan) {
        ShowdownSpan::new(self.showdowns.len(), 0)
    }

    fn end_span(&self, span: ShowdownSpan) -> (s: ShowdownSpan) {
        proof {
            span.lemma_canonical();
        }
        ShowdownSpan::range(span.begin(), self.showdowns.len())
    }
}

impl Arena {
    /// The rows of the hands column that `s` covers.
    pub open spec fn hands_of(self, s: HandSpan) -> Seq<Hand> {
        rows(self.hands, s.spec_begin(), s.spec_size())
    }

    /// Whether `s` lies within the hands column.
    pub open spec fn has_hands(self, s: HandSpan) -> bool {
        s.spec_begin() + s.spec_size() <= self.hands.len()
    }

    /// The rows of the actions column that `s` covers.
    pub open spec fn actions_of(self, s: ActionSpan) -> Seq<Action> {
        rows(self.actions, s.spec_begin(), s.spec_size())
    }

    /// Whether `s` lies within the actions column.
    pub open spec fn has_actions(self, s: ActionSpan) -> bool {
        s.spec_begin() + s.spec_size() <= self.actions.len()
    }

    /// The rows of the players column that `s` covers.
    pub open spec fn players_of(self, s: PlayerSpan) -> Seq<Player> {
        rows(self.players, s.spec_begin(), s.spec_size())
    }

    /// Whether `s` lies within the players column.
    pub open spec fn has_players(self, s: PlayerSpan) -> bool {
        s.spec_begin() + s.spec_size() <= self.players.len()
    }

    /// The rows of the winners column that `s` covers.
    pub open spec fn winners_of(self, s: WinnerSpan) -> Seq<Winner> {
        rows(self.winners, s.spec_begin(), s.spec_size())
    }

    /// Whether `s` lies within the winners column.
    pub open spec fn has_winners(self, s: WinnerSpan) -> bool {
        s.spec_begin() + s.spec_size() <= self.winners.len()
    }

    /// The rows of the flops column that `s` covers.
    pub open spec fn flops_of(self, s: FlopSpan) -> Seq<Street> {
        rows(self.flops, s.spec_begin(), s.spec_size())
    }

    /// Whether `s` lies within the flops column.
    pub open spec fn has_flops(self, s: FlopSpan) -> bool {
        s.spec_begin() + s.spec_size() <= self.flops.len()
    }

    /// The rows of the turns column that `s` covers.
    pub open spec fn turns_of(self, s: TurnSpan) -> Seq<Street> {
        rows(self.turns, s.spec_begin(), s.spec_size())
    }

    /// Whether `s` lies within the turns column.
    pub open spec fn has_turns(self, s: TurnSpan) -> bool {
        s.spec_begin() + s.spec_size() <= self.turns.len()
    }

    /// The rows of the rivers column that `s` covers.
    pub open spec fn rivers_of(self, s: RiverSpan) -> Seq<Street> {
        rows(self.rivers, s.spec_begin(), s.spec_size())
    }

    /// Whether `s` lies within the rivers column.
    pub open spec fn has_rivers(self, s: RiverSpan) -> bool {
        s.spec_begin() + s.spec_size() <= self.rivers.len()
    }

    /// The rows of the showdowns column that `s` covers.
    pub open spec fn showdowns_of(self, s: ShowdownSpan) -> Seq<Street> {
        rows(self.showdowns, s.spec_begin(), s.spec_size())
    }

    /// Whether `s` lies within the showdowns column.
    pub open spec fn has_showdowns(self, s: ShowdownSpan) -> bool {
        s.spec_begin() + s.spec_size() <= self.showdowns.len()
    }

    /// The streets of kind `t` that hand `hand` went through.
    pub open spec fn street(self, hand: Hand, t: StreetType) -> Seq<Street> {
        match t {
            StreetType::Flop => self.flops_of(hand.streets.0),
            StreetType::Turn => self.turns_of(hand.streets.1),
            StreetType::River => self.rivers_of(hand.streets.2),
            StreetType::Showdown => self.showdowns_of(hand.streets.3),
        }
    }

    /// Whether the four lists of streets of `hand` lie within their columns.
    pub open spec fn has_streets(self, hand: Hand) -> bool {
        &&& self.has_flops(hand.streets.0)
        &&& self.has_turns(hand.streets.1)
        &&& self.has_rivers(hand.streets.2)
        &&& self.has_showdowns(hand.streets.3)
    }
}

impl HandVec {
    /// The rows of the hands column that `s` covers.
    pub fn hands_of(&self, s: HandSpan) -> (r: &[Hand])
        requires
            self@.has_hands(s),
        ensures
            r@ == self@.hands_of(s),
    {
        proof {
            s.lemma_canonical();
        }
        let column = self.hands.as_slice();
        let _len = column.len();
        vstd::slice::slice_subrange(column, s.begin(), s.end())
    }

    /// The rows of the actions column that `s` covers.
    pub fn actions_of(&self, s: ActionSpan) -> (r: &[Action])
        requires
            self@.has_actions(s),
        ensures
            r@ == self@.actions_of(s),
    {
        proof {
            s.lemma_canonical();
        }
        let column = self.actions.as_slice();
        let _len = column.len();
        vstd::slice::slice_subrange(column, s.begin(), s.end())
    }

    /// The rows of the players column that `s` covers.
    pub fn players_of(&self, s: PlayerSpan) -> (r: &[Player])
        requires
            self@.has_players(s),
        ensures
            r@ == self@.players_of(s),
    {
        proof {
            s.lemma_canonical();
        }
        let column = self.players.as_slice();
        let _len = column.len();
        vstd::slice::slice_subrange(column, s.begin(), s.end())
    }

    /// The rows of the winners column that `s` covers.
    pub fn winners_of(&self, s: WinnerSpan) -> (r: &[Winner])
        requires
            self@.has_winners(s),
        ensures
            r@ == self@.winners_of(s),
    {
        proof {
            s.lemma_canonical();
        }
        let column = self.winners.as_slice();
        let _len = column.len();
        vstd::slice::slice_subrange(column, s.begin(), s.end())
    }

    /// The rows of the flops column that `s` covers.
    pub fn flops_of(&self, s: FlopSpan) -> (r: &[Street])
        requires
            self@.has_flops(s),
        ensures
            r@ == self@.flops_of(s),
    {
        proof {
            s.lemma_canonical();
        }
        let column = self.flops.as_slice();
        let _len = column.len();
        vstd::slice::slice_subrange(column, s.begin(), s.end())
    }

    /// The rows of the turns column that `s` covers.
    pub fn turns_of(&self, s: TurnSpan) -> (r: &[Street])
        requires
            self@.has_turns(s),
        ensures
            r@ == self@.turns_of(s),
    {
        proof {
            s.lemma_canonical();
        }
        let column = self.turns.as_slice();
        let _len = column.len();
        vstd::slice::slice_subrange(column, s.begin(), s.end())
    }

    /// The rows of the rivers column that `s` covers.
    pub fn rivers_of(&self, s: RiverSpan) -> (r: &[Street])
        requires
            self@.has_rivers(s),
        ensures
            r@ == self@.rivers_of(s),
    {
        proof {
            s.lemma_canonical();
        }
        let column = self.rivers.as_slice();
        let _len = column.len();
        vstd::slice::slice_subrange(column, s.begin(), s.end())
    }

    /// The rows of the showdowns column that `s` covers.
    pub fn showdowns_of(&self, s: ShowdownSpan) -> (r: &[Street])
        requires
            self@.has_showdowns(s),
        ensures
            r@ == self@.showdowns_of(s),
    {
        proof {
            s.lemma_canonical();
        }
        let column = self.showdowns.as_slice();
        let _len = column.len();
        vstd::slice::slice_subrange(column, s.begin(), s.end())
    }

}

impl Hand {
    /// The streets of kind `index` that this hand went through.
    pub fn street<'a>(&self, index: StreetType, h: &'a HandVec) -> (s: &'a [Street])
        requires
            h@.has_streets(*self),
        ensures
            s@ == h@.street(*self, index),
    {
        match index {
            StreetType::Flop => h.flops_of(self.streets.0),
            StreetType::Turn => h.turns_of(self.streets.1),
            StreetType::River => h.rivers_of(self.streets.2),
            StreetType::Showdown => h.showdowns_of(self.streets.3),
        }
    }
}

impl Header {
    /// The player with id `id` among the players of this hand.
    pub fn player<'a>(&self, id: u8, h: &'a HandVec) -> (p: &'a Player)
        requires
            h@.has_players(self.players),
            id < self.players.spec_size(),
        ensures
            *p == h@.players_of(self.players)[id as int],
    {
        proof {
            self.players.lemma_canonical();
        }
        let players = h.players_of(self.players);
        &players[id as usize]
    }

    /// The player who has the button.
    pub fn dealer<'a>(&self, h: &'a HandVec) -> (p: &'a Player)
        requires
            h@.has_players(self.players),
            self.dealer < self.players.spec_size(),
        ensures
            *p == h@.players_of(self.players)[self.dealer as int],
    {
        self.player(self.dealer, h)
    }
}

impl ActionData {
    /// The cards that a payload of a card-bearing action refers to: none
    /// where the action has no payload.
    pub open spec fn spec_cards(self, v: Arena) -> Cards
        recommends
            self != ActionData::spec_invalid() ==> self.0 < v.cards.len(),
    {
        v.cards[self.0 as int]
    }

    pub fn cards(self, v: &HandVec) -> (c: Cards)
        requires
            self != ActionData::spec_invalid() ==> self.0 < v.cards@.len(),
        ensures
            self != ActionData::spec_invalid() ==> c == self.spec_cards(v@),
            self == ActionData::spec_invalid() ==> c.wf() && c.size == 0,
    {
        if self.0 == u32::MAX {
            Cards::default()
        } else {
            v.cards[self.0 as usize]
        }
    }

    /// The bytes of the message that a payload of hand `h` refers to.
    pub open spec fn spec_message(self, h: int, v: Arena) -> Seq<u8> {
        let begin = self.spec_message_offset() + v.hands[h].src_offset;
        v.src.subrange(begin, begin + self.spec_message_size())
    }

    pub fn message<'a>(&self, h: usize, v: &'a HandVec) -> (m: &'a [u8])
        requires
            h < v.hands@.len(),
            self.spec_message_offset() + v.hands@[h as int].src_offset + self.spec_message_size()
                <= v.src@.len(),
        ensures
            m@ == self.spec_message(h as int, v@),
    {
        proof {
            self.lemma_message_canonical();
        }
        let text = v.src.as_slice();
        let _len = text.len();
        let begin = (self.0 & crate::pklp::action::MAX_MESSAGE_OFFSET) as usize + v.hands[h].src_offset;
        vstd::slice::slice_subrange(text, begin, begin + (self.0 >> 24) as usize)
    }

    /// The two numbers that a payload of a cash-out refers to: the amount,
    /// then the fee.
    pub fn pair(self, v: &HandVec) -> (p: (Number, Number))
        requires
            self.0 + 1 < v.nums@.len(),
        ensures
            p == (v.nums@[self.0 as int], v.nums@[self.0 + 1]),
    {
        let _len = v.nums.len();
        (v.nums[self.0 as usize], v.nums[self.0 as usize + 1])
    }
}

} // verus!
