//! The data model: packed ranges, cards, actions and the arena that owns
//! every column.

pub mod action;
pub mod cards;
pub mod datetime;
pub mod decode;
pub mod hand;
pub mod number;
pub mod sizes;
pub mod span;
pub mod storage;

pub use action::{
    Action, ActionData, ActionType, Blind, Pot, MAX_MESSAGE_OFFSET, MAX_MESSAGE_SIZE,
    SEAT_AFTER_DEALER, SEAT_INITIAL, SEAT_NONE,
};
pub use cards::{Card, Cards, Suit, MAX_RANK};
pub use decode::{ActionView, HandView, Payload, PlayerView, StreetView};
pub use datetime::{date_fits, DateTime, YEAR_BEGIN};
pub use hand::{
    Arena, BetType, GameType, Hand, HandVec, Header, Player, PokerSite, PotInfo, Street,
    StreetArray, StreetType, Summary, Winner,
};
pub use number::Number;
pub use sizes::HandVecExpectedSize;
pub use span::{
    span_fits, spec_end, ActionSpan, FlopSpan, HandSpan, PlayerSpan, RiverSpan, ShowdownSpan, Span,
    SpanLike, TurnSpan, WinnerSpan, MAX_SPAN_BEGIN, MAX_SPAN_SIZE,
};
pub use storage::{rows, TypedSpanStorage};
