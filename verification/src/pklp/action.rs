//! What a player does, and the 32 bits that go with it.

use vstd::prelude::*;
use crate::pklp::number::Number;
use crate::pklp::span::{Span, SpanLike};

verus! {

/// The seat of a player who has none.
pub const SEAT_NONE: u8 = 0xff;

/// The seat of a player who waits for the button to pass.
pub const SEAT_AFTER_DEALER: u8 = 0xfe;

/// The seat a player had before leaving.
pub const SEAT_INITIAL: u8 = 0xfd;

/// The pot that a player collects from.
#[derive(Debug, Clone, Copy, PartialEq, Eq, Structural)]
pub enum Pot {
    Main,
    Side1,
    Side2,
    Side3,
}

/// The blind that a player posts.
#[derive(Debug, Clone, Copy, PartialEq, Eq, Structural)]
pub enum Blind {
    Ante,
    Small,
    Big,
    Both,
    Dead,
    Extra,
}

/// What a player does. A bet, a call or a raise that puts the player all
/// in is a kind of its own, and so is each blind and each pot collected.
#[derive(Debug, Clone, Copy, PartialEq, Eq, Structural)]
pub enum ActionType {
    Bet,
    Call,
    Raise,
    BetAllIn,
    CallAllIn,
    RaiseAllIn,
    Check,
    Fold,
    Muck,
    Show,
    Dealt,
    Ante,
    BigBlind,
    SmallBlind,
    BigSmallBlind,
    DeadBlind,
    ExtraBlind,
    CashOut,
    CollectMainPot,
    CollectSidePot1,
    CollectSidePot2,
    CollectSidePot3,
    UncalledBetReturned,
    Join,
    Leave,
    Sitout,
    Say,
}

/// The payload of an action. What the 32 bits mean is decided by the
/// action's kind alone: an amount, an index into the cards or the numbers
/// column, a seat, or a message's place relative to its hand.
#[derive(Debug, Clone, Copy, PartialEq, Eq, Structural)]
pub struct ActionData(pub u32);

/// One thing that one player did.
#[derive(Debug, Clone, Copy, PartialEq, Eq, Structural)]
pub struct Action {
    pub data: ActionData,
    pub player_id: u8,
    pub kind: ActionType,
}

/// The longest message an action can refer to.
pub const MAX_MESSAGE_SIZE: usize = 255;

/// The largest offset from its hand's text that a message can have.
pub const MAX_MESSAGE_OFFSET: u32 = 0x00ff_ffff;

const DATA_MSG_SIZE_SHIFT: u32 = 24;

impl Pot {
    pub open spec fn spec_from_u8(v: u8) -> Pot {
        if v == 0 {
            Pot::Main
        } else if v == 1 {
            Pot::Side1
        } else if v == 2 {
            Pot::Side2
        } else {
            Pot::Side3
        }
    }

    /// The pot that an action of kind `kind` collects from.
    pub open spec fn spec_of(kind: ActionType) -> Pot {
        match kind {
            ActionType::CollectMainPot => Pot::Main,
            ActionType::CollectSidePot1 => Pot::Side1,
            ActionType::CollectSidePot2 => Pot::Side2,
            _ => Pot::Side3,
        }
    }

    pub fn from_u8(v: u8) -> (p: Pot)
        requires
            v < 4,
        ensures
            p == Pot::spec_from_u8(v),
    {
        if v == 0 {
            Pot::Main
        } else if v == 1 {
            Pot::Side1
        } else if v == 2 {
            Pot::Side2
        } else {
            Pot::Side3
        }
    }

    pub fn of(kind: ActionType) -> (p: Pot)
        requires
            kind.can_have_pot(),
        ensures
            p == Pot::spec_of(kind),
    {
        match kind {
            ActionType::CollectMainPot => Pot::Main,
            ActionType::CollectSidePot1 => Pot::Side1,
            ActionType::CollectSidePot2 => Pot::Side2,
            _ => Pot::Side3,
        }
    }
}

impl Blind {
    pub open spec fn spec_from_u8(v: u8) -> Blind {
        if v == 0 {
            Blind::Small
        } else if v == 1 {
            Blind::Big
        } else if v == 2 {
            Blind::Both
        } else if v == 3 {
            Blind::Dead
        } else {
            Blind::Extra
        }
    }

    /// The blind that an action of kind `kind` posts.
    pub open spec fn spec_of(kind: ActionType) -> Blind {
        match kind {
            ActionType::Ante => Blind::Ante,
            ActionType::SmallBlind => Blind::Small,
            ActionType::BigBlind => Blind::Big,
            ActionType::BigSmallBlind => Blind::Both,
            ActionType::DeadBlind => Blind::Dead,
            _ => Blind::Extra,
        }
    }

    pub fn from_u8(v: u8) -> (b: Blind)
        requires
            v < 5,
        ensures
            b == Blind::spec_from_u8(v),
    {
        if v == 0 {
            Blind::Small
        } else if v == 1 {
            Blind::Big
        } else if v == 2 {
            Blind::Both
        } else if v == 3 {
            Blind::Dead
        } else {
            Blind::Extra
        }
    }

    pub fn of(kind: ActionType) -> (b: Blind)
        requires
            kind.can_have_blind(),
        ensures
            b == Blind::spec_of(kind),
    {
        match kind {
            ActionType::Ante => Blind::Ante,
            ActionType::SmallBlind => Blind::Small,
            ActionType::BigBlind => Blind::Big,
            ActionType::BigSmallBlind => Blind::Both,
            ActionType::DeadBlind => Blind::Dead,
            _ => Blind::Extra,
        }
    }
}

impl ActionType {
    pub open spec fn spec_is_all_in(self) -> bool {
        self is BetAllIn || self is CallAllIn || self is RaiseAllIn
    }

    pub open spec fn spec_can_have_all_in(self) -> bool {
        self is Bet || self is BetAllIn || self is Call || self is CallAllIn || self is Raise
            || self is RaiseAllIn
    }

    pub open spec fn spec_can_have_pot(self) -> bool {
        self is CollectMainPot || self is CollectSidePot1 || self is CollectSidePot2
            || self is CollectSidePot3
    }

    pub open spec fn spec_can_have_blind(self) -> bool {
        self is Ante || self is BigBlind || self is SmallBlind || self is BigSmallBlind
            || self is DeadBlind || self is ExtraBlind
    }

    pub open spec fn spec_can_have_num(self) -> bool {
        self.spec_can_have_all_in() || self.spec_can_have_blind() || self.spec_can_have_pot()
            || self is UncalledBetReturned
    }

    pub open spec fn spec_can_have_cards(self) -> bool {
        self is Fold || self is Muck || self is Show || self is Dealt
    }

    #[verifier::when_used_as_spec(spec_is_all_in)]
    pub fn is_all_in(self) -> (b: bool)
        ensures
            b == self.spec_is_all_in(),
    {
        match self {
            ActionType::BetAllIn | ActionType::CallAllIn | ActionType::RaiseAllIn => true,
            _ => false,
        }
    }

    #[verifier::when_used_as_spec(spec_can_have_num)]
    pub fn can_have_num(self) -> (b: bool)
        ensures
            b == self.spec_can_have_num(),
    {
        match self {
            ActionType::Bet
            | ActionType::BetAllIn
            | ActionType::Call
            | ActionType::CallAllIn
            | ActionType::Raise
            | ActionType::RaiseAllIn
            | ActionType::Ante
            | ActionType::BigBlind
            | ActionType::SmallBlind
            | ActionType::BigSmallBlind
            | ActionType::DeadBlind
            | ActionType::ExtraBlind
            | ActionType::CollectMainPot
            | ActionType::CollectSidePot1
            | ActionType::CollectSidePot2
            | ActionType::CollectSidePot3
            | ActionType::UncalledBetReturned => true,
            _ => false,
        }
    }

    #[verifier::when_used_as_spec(spec_can_have_all_in)]
    pub fn can_have_all_in(self) -> (b: bool)
        ensures
            b == self.spec_can_have_all_in(),
    {
        match self {
            ActionType::Bet
            | ActionType::BetAllIn
            | ActionType::Call
            | ActionType::CallAllIn
            | ActionType::Raise
            | ActionType::RaiseAllIn => true,
            _ => false,
        }
    }

    #[verifier::when_used_as_spec(spec_can_have_pot)]
    pub fn can_have_pot(self) -> (b: bool)
        ensures
            b == self.spec_can_have_pot(),
    {
        match self {
            ActionType::CollectMainPot
            | ActionType::CollectSidePot1
            | ActionType::CollectSidePot2
            | ActionType::CollectSidePot3 => true,
            _ => false,
        }
    }

    #[verifier::when_used_as_spec(spec_can_have_blind)]
    pub fn can_have_blind(self) -> (b: bool)
        ensures
            b == self.spec_can_have_blind(),
    {
        match self {
            ActionType::Ante
            | ActionType::BigBlind
            | ActionType::SmallBlind
            | ActionType::BigSmallBlind
            | ActionType::DeadBlind
            | ActionType::ExtraBlind => true,
            _ => false,
        }
    }

    #[verifier::when_used_as_spec(spec_can_have_cards)]
    pub fn can_have_cards(self) -> (b: bool)
        ensures
            b == self.spec_can_have_cards(),
    {
        match self {
            ActionType::Fold | ActionType::Muck | ActionType::Show | ActionType::Dealt => true,
            _ => false,
        }
    }
}

proof fn lemma_message_bits(off: u32, size: u32)
    by (bit_vector)
    requires
        off <= 0x00ff_ffff,
        size <= 255,
    ensures
        (off | (size << 24)) & 0x00ff_ffff == off,
        (off | (size << 24)) >> 24 == size,
{
}

proof fn lemma_message_split(w: u32)
    by (bit_vector)
    ensures
        w & 0x00ff_ffff <= 0x00ff_ffff,
        w >> 24 <= 255,
        (w & 0x00ff_ffff) | ((w >> 24) << 24) == w,
{
}

impl ActionData {
    /// The payload of an action that has none.
    pub open spec fn spec_invalid() -> ActionData {
        ActionData(u32::MAX)
    }

    /// The payload that places a message `offset` bytes into its hand's
    /// text, `size` bytes long.
    pub open spec fn spec_new_message(offset: int, size: int) -> ActionData {
        ActionData((offset as u32) | ((size as u32) << 24))
    }

    /// How far into its hand's text the message begins.
    pub open spec fn spec_message_offset(self) -> int {
        (self.0 & MAX_MESSAGE_OFFSET) as int
    }

    /// How many bytes the message has.
    pub open spec fn spec_message_size(self) -> int {
        (self.0 >> 24) as int
    }

    /// A message payload is its offset and its size.
    pub proof fn lemma_message_fields(offset: int, size: int)
        requires
            0 <= offset <= MAX_MESSAGE_OFFSET,
            0 <= size <= MAX_MESSAGE_SIZE,
        ensures
            ActionData::spec_new_message(offset, size).spec_message_offset() == offset,
            ActionData::spec_new_message(offset, size).spec_message_size() == size,
    {
        lemma_message_bits(offset as u32, size as u32);
    }

    /// Every payload reads as a message within the limits, and is the
    /// payload made of what it reads as.
    pub proof fn lemma_message_canonical(self)
        ensures
            0 <= self.spec_message_offset() <= MAX_MESSAGE_OFFSET,
            0 <= self.spec_message_size() <= MAX_MESSAGE_SIZE,
            self == ActionData::spec_new_message(
                self.spec_message_offset(),
                self.spec_message_size(),
            ),
    {
        lemma_message_split(self.0);
    }

    pub fn invalid() -> (d: ActionData)
        ensures
            d == ActionData::spec_invalid(),
    {
        ActionData(u32::MAX)
    }

    pub fn new_handle(h: u32) -> (d: ActionData)
        ensures
            d == ActionData(h),
    {
        ActionData(h)
    }

    pub fn new_num(n: Number) -> (d: ActionData)
        ensures
            d == ActionData(n.0),
    {
        ActionData(n.0)
    }

    pub fn new_message(s: Span) -> (d: ActionData)
        requires
            s.spec_begin() <= MAX_MESSAGE_OFFSET,
            s.spec_size() <= MAX_MESSAGE_SIZE,
        ensures
            d == ActionData::spec_new_message(s.spec_begin(), s.spec_size()),
    {
        ActionData((s.begin() as u32) | ((s.size() as u32) << DATA_MSG_SIZE_SHIFT))
    }

    pub fn handle(self) -> (h: u32)
        ensures
            h == self.0,
    {
        self.0
    }

    pub fn num(self) -> (n: Number)
        ensures
            n == Number(self.0),
    {
        Number(self.0)
    }

    /// The message's range in the text buffer, for a hand whose text begins
    /// at `offset`.
    pub fn message_span(&self, offset: usize) -> (s: Span)
        requires
            self.spec_message_offset() + offset <= crate::pklp::span::MAX_SPAN_BEGIN,
            self.spec_message_offset() + offset <= usize::MAX,
        ensures
            s == Span::spec_new(self.spec_message_offset() + offset, self.spec_message_size()),
    {
        proof {
            lemma_message_split(self.0);
        }
        Span::new(
            (self.0 & MAX_MESSAGE_OFFSET) as usize + offset,
            (self.0 >> DATA_MSG_SIZE_SHIFT) as usize,
        )
    }
}

impl ActionData {
    /// The word under which the payload of an action of kind `t` is shown.
    pub open spec fn spec_fmt_key(t: ActionType) -> Seq<char> {
        if t.spec_can_have_num() {
            "amount"@
        } else if t.spec_can_have_cards() {
            "cards"@
        } else if t == ActionType::Say {
            "msg"@
        } else if t == ActionType::Join {
            "seat"@
        } else {
            "data"@
        }
    }

    /// The word under which the payload of an action of kind `t` is shown.
    pub fn fmt_key(t: ActionType) -> (key: &'static str)
        ensures
            key@ == ActionData::spec_fmt_key(t),
    {
        if t.can_have_num() {
            "amount"
        } else if t.can_have_cards() {
            "cards"
        } else if t == ActionType::Say {
            "msg"
        } else if t == ActionType::Join {
            "seat"
        } else {
            "data"
        }
    }
}

impl Action {
    pub fn new(kind: ActionType, player_id: u8, data: ActionData) -> (a: Action)
        ensures
            a == (Action { kind, player_id, data }),
    {
        Action { kind, player_id, data }
    }

    pub fn no_data(kind: ActionType, player_id: u8) -> (a: Action)
        ensures
            a == (Action { kind, player_id, data: ActionData::spec_invalid() }),
    {
        Action { kind, player_id, data: ActionData::invalid() }
    }
}

} // verus!
