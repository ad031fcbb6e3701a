//! What an arena says, with every span and index followed to what it
//! points at.
//!
//! These are the values that a reader of the arena gets out of it. Two
//! arenas that say the same of a hand may hold it at different places.

use vstd::prelude::*;
use crate::pklp::action::{Action, ActionData, ActionType};
use crate::pklp::cards::Cards;
use crate::pklp::datetime::DateTime;
use crate::pklp::hand::{
    Arena, BetType, GameType, Hand, Header, Player, PokerSite, PotInfo, Street, Winner,
};
use crate::pklp::number::Number;
use crate::pklp::span::{ActionSpan, SpanLike};
use crate::pklp::storage::rows;

verus! {

/// What an action carries, by its kind.
pub enum Payload {
    /// Nothing: a check, a player who leaves or sits out.
    Nothing,
    /// The amount bet, called, raised, posted, collected or returned.
    Amount(Number),
    /// The cards folded, mucked, shown or dealt; none where the line
    /// showed none.
    Cards(Option<Cards>),
    /// What a player said.
    Message(Seq<u8>),
    /// The seat a player took.
    Seat(u32),
    /// The amount cashed out, and the fee.
    CashOut(Number, Number),
}

/// An action with its payload read.
pub struct ActionView {
    pub kind: ActionType,
    pub player_id: u8,
    pub payload: Payload,
}

/// A street with its actions read.
pub struct StreetView {
    pub cards: Cards,
    pub id: u8,
    pub actions: Seq<ActionView>,
}

/// A player with the name read.
pub struct PlayerView {
    pub name: Seq<u8>,
    pub seat: u8,
    pub chips: Number,
}

/// A hand with everything it refers to read.
pub struct HandView {
    pub site: PokerSite,
    pub game_type: GameType,
    pub bet_type: BetType,
    pub max_players: u8,
    pub dealer: u8,
    pub hero: u8,
    pub currency: char,
    pub ante: Number,
    pub small_blind: Number,
    pub big_blind: Number,
    pub bet_cap: Number,
    pub start_date: DateTime,
    pub is_tournament: bool,
    pub id: Seq<u8>,
    pub table_name: Seq<u8>,
    pub players: Seq<PlayerView>,
    pub header_actions: Seq<ActionView>,
    pub preflop: StreetView,
    pub flops: Seq<StreetView>,
    pub turns: Seq<StreetView>,
    pub rivers: Seq<StreetView>,
    pub showdowns: Seq<StreetView>,
    pub pot: PotInfo,
    pub winners: Seq<Winner>,
    pub summary_actions: Seq<ActionView>,
}

impl Arena {
    /// Whether what `a` points at is there, for a hand whose text begins
    /// at `src_offset`.
    pub open spec fn action_ok(self, src_offset: int, a: Action) -> bool {
        if a.kind.spec_can_have_cards() {
            a.data != ActionData::spec_invalid() ==> a.data.0 < self.cards.len()
        } else if a.kind == ActionType::Say {
            src_offset + a.data.spec_message_offset() + a.data.spec_message_size()
                <= self.src.len()
        } else if a.kind == ActionType::CashOut {
            a.data.0 + 1 < self.nums.len()
        } else {
            true
        }
    }

    /// The action `a` with its payload read, for a hand whose text begins
    /// at `src_offset`.
    pub open spec fn action_view(self, src_offset: int, a: Action) -> ActionView {
        ActionView {
            kind: a.kind,
            player_id: a.player_id,
            payload: if a.kind.spec_can_have_num() {
                Payload::Amount(Number(a.data.0))
            } else if a.kind.spec_can_have_cards() {
                if a.data == ActionData::spec_invalid() {
                    Payload::Cards(None)
                } else {
                    Payload::Cards(Some(self.cards[a.data.0 as int]))
                }
            } else if a.kind == ActionType::Say {
                Payload::Message(
                    self.src.subrange(
                        src_offset + a.data.spec_message_offset(),
                        src_offset + a.data.spec_message_offset() + a.data.spec_message_size(),
                    ),
                )
            } else if a.kind == ActionType::Join {
                Payload::Seat(a.data.0)
            } else if a.kind == ActionType::CashOut {
                Payload::CashOut(self.nums[a.data.0 as int], self.nums[a.data.0 + 1])
            } else {
                Payload::Nothing
            },
        }
    }

    /// Whether the actions that `span` covers are there, and what they
    /// point at.
    pub open spec fn actions_ok(self, src_offset: int, span: ActionSpan) -> bool {
        &&& self.has_actions(span)
        &&& forall|k: int|
            0 <= k < span.spec_size() ==> self.action_ok(
                src_offset,
                #[trigger] self.actions[span.spec_begin() + k],
            )
    }

    /// The actions that `span` covers, read.
    pub open spec fn actions_view(self, src_offset: int, span: ActionSpan) -> Seq<ActionView> {
        Seq::new(
            span.spec_size() as nat,
            |k: int| self.action_view(src_offset, self.actions[span.spec_begin() + k]),
        )
    }

    pub open spec fn street_ok(self, src_offset: int, s: Street) -> bool {
        self.actions_ok(src_offset, s.actions)
    }

    pub open spec fn street_view(self, src_offset: int, s: Street) -> StreetView {
        StreetView { cards: s.cards, id: s.id, actions: self.actions_view(src_offset, s.actions) }
    }

    /// Whether the streets of `column` from `begin` on, `size` of them, are
    /// there, and what they point at.
    pub open spec fn streets_ok(self, src_offset: int, column: Seq<Street>, begin: int, size: int) -> bool {
        &&& 0 <= begin && 0 <= size && begin + size <= column.len()
        &&& forall|k: int|
            0 <= k < size ==> self.street_ok(src_offset, #[trigger] column[begin + k])
    }

    pub open spec fn streets_view(self, src_offset: int, column: Seq<Street>, begin: int, size: int) -> Seq<StreetView> {
        Seq::new(size as nat, |k: int| self.street_view(src_offset, column[begin + k]))
    }

    pub open spec fn player_view(self, p: Player) -> PlayerView {
        PlayerView { name: self.text(p.name), seat: p.seat, chips: p.chips }
    }

    /// Whether everything that `h` refers to is there.
    pub open spec fn hand_ok(self, h: Hand) -> bool {
        let at = h.src_offset as int;
        &&& self.has_text(h.header.id)
        &&& self.has_text(h.header.table_name)
        &&& self.has_players(h.header.players)
        &&& forall|k: int|
            0 <= k < h.header.players.spec_size() ==> self.has_text(
                (#[trigger] self.players[h.header.players.spec_begin() + k]).name,
            )
        &&& self.actions_ok(at, h.header.actions)
        &&& self.street_ok(at, h.preflop)
        &&& self.streets_ok(at, self.flops, h.streets.0.spec_begin(), h.streets.0.spec_size())
        &&& self.streets_ok(at, self.turns, h.streets.1.spec_begin(), h.streets.1.spec_size())
        &&& self.streets_ok(at, self.rivers, h.streets.2.spec_begin(), h.streets.2.spec_size())
        &&& self.streets_ok(at, self.showdowns, h.streets.3.spec_begin(), h.streets.3.spec_size())
        &&& self.has_winners(h.summary.winners)
        &&& self.actions_ok(at, h.summary.actions)
    }

    /// The hand `h` with everything it refers to read.
    pub open spec fn hand_view(self, h: Hand) -> HandView {
        let at = h.src_offset as int;
        HandView {
            site: h.header.site,
            game_type: h.header.game_type,
            bet_type: h.header.bet_type,
            max_players: h.header.max_players,
            dealer: h.header.dealer,
            hero: h.header.hero,
            currency: h.header.currency,
            ante: h.header.ante,
            small_blind: h.header.small_blind,
            big_blind: h.header.big_blind,
            bet_cap: h.header.bet_cap,
            start_date: h.header.start_date,
            is_tournament: h.header.is_tournament,
            id: self.text(h.header.id),
            table_name: self.text(h.header.table_name),
            players: Seq::new(
                h.header.players.spec_size() as nat,
                |k: int| self.player_view(self.players[h.header.players.spec_begin() + k]),
            ),
            header_actions: self.actions_view(at, h.header.actions),
            preflop: self.street_view(at, h.preflop),
            flops: self.streets_view(
                at,
                self.flops,
                h.streets.0.spec_begin(),
                h.streets.0.spec_size(),
            ),
            turns: self.streets_view(
                at,
                self.turns,
                h.streets.1.spec_begin(),
                h.streets.1.spec_size(),
            ),
            rivers: self.streets_view(
                at,
                self.rivers,
                h.streets.2.spec_begin(),
                h.streets.2.spec_size(),
            ),
            showdowns: self.streets_view(
                at,
                self.showdowns,
                h.streets.3.spec_begin(),
                h.streets.3.spec_size(),
            ),
            pot: h.summary.pot,
            winners: rows(
                self.winners,
                h.summary.winners.spec_begin(),
                h.summary.winners.spec_size(),
            ),
            summary_actions: self.actions_view(at, h.summary.actions),
        }
    }

    /// Whether everything that the hands refer to is there.
    pub open spec fn wf(self) -> bool {
        forall|i: int| 0 <= i < self.hands.len() ==> self.hand_ok(#[trigger] self.hands[i])
    }
}

impl Arena {
    /// What an action points at stays there as the arena grows.
    pub proof fn lemma_action_ok_grows(self, old: Arena, at: int, a: Action)
        requires
            self.grows_from(old),
            old.action_ok(at, a),
        ensures
            self.action_ok(at, a),
    {
    }

    /// The actions that a span covers stay there as the arena grows.
    pub proof fn lemma_actions_ok_grows(self, old: Arena, at: int, span: ActionSpan)
        requires
            self.grows_from(old),
            old.actions_ok(at, span),
        ensures
            self.actions_ok(at, span),
    {
        span.lemma_canonical();
        assert forall|k: int| 0 <= k < span.spec_size() implies self.action_ok(
            at,
            #[trigger] self.actions[span.spec_begin() + k],
        ) by {
            assert(self.actions[span.spec_begin() + k] == old.actions[span.spec_begin() + k]);
            assert(old.action_ok(at, old.actions[span.spec_begin() + k]));
        }
    }

    /// The streets of a column stay there as the arena grows.
    pub proof fn lemma_streets_ok_grows(
        self,
        old: Arena,
        at: int,
        column: Seq<Street>,
        grown: Seq<Street>,
        begin: int,
        size: int,
    )
        requires
            self.grows_from(old),
            column.is_prefix_of(grown),
            old.streets_ok(at, column, begin, size),
        ensures
            self.streets_ok(at, grown, begin, size),
    {
        assert forall|k: int| 0 <= k < size implies self.street_ok(
            at,
            #[trigger] grown[begin + k],
        ) by {
            assert(grown[begin + k] == column[begin + k]);
            assert(old.street_ok(at, column[begin + k]));
            self.lemma_actions_ok_grows(old, at, column[begin + k].actions);
        }
    }

    /// What a hand refers to stays there as the arena grows.
    pub proof fn lemma_hand_ok_grows(self, old: Arena, h: Hand)
        requires
            self.grows_from(old),
            old.hand_ok(h),
        ensures
            self.hand_ok(h),
    {
        let at = h.src_offset as int;
        h.header.players.lemma_canonical();
        assert forall|k: int| 0 <= k < h.header.players.spec_size() implies self.has_text(
            (#[trigger] self.players[h.header.players.spec_begin() + k]).name,
        ) by {
            assert(old.has_text(old.players[h.header.players.spec_begin() + k].name));
        }
        self.lemma_actions_ok_grows(old, at, h.header.actions);
        self.lemma_actions_ok_grows(old, at, h.preflop.actions);
        self.lemma_actions_ok_grows(old, at, h.summary.actions);
        self.lemma_streets_ok_grows(
            old,
            at,
            old.flops,
            self.flops,
            h.streets.0.spec_begin(),
            h.streets.0.spec_size(),
        );
        self.lemma_streets_ok_grows(
            old,
            at,
            old.turns,
            self.turns,
            h.streets.1.spec_begin(),
            h.streets.1.spec_size(),
        );
        self.lemma_streets_ok_grows(
            old,
            at,
            old.rivers,
            self.rivers,
            h.streets.2.spec_begin(),
            h.streets.2.spec_size(),
        );
        self.lemma_streets_ok_grows(
            old,
            at,
            old.showdowns,
            self.showdowns,
            h.streets.3.spec_begin(),
            h.streets.3.spec_size(),
        );
    }

    /// An arena whose hands are all there stays so as it grows.
    pub proof fn lemma_wf_grows(self, old: Arena)
        requires
            self.grows_from(old),
            old.wf(),
        ensures
            forall|i: int| 0 <= i < old.hands.len() ==> self.hand_ok(#[trigger] self.hands[i]),
    {
        assert forall|i: int| 0 <= i < old.hands.len() implies self.hand_ok(
            #[trigger] self.hands[i],
        ) by {
            assert(self.hands[i] == old.hands[i]);
            self.lemma_hand_ok_grows(old, old.hands[i]);
        }
    }
}

} // verus!
