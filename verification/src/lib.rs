//! Hand-history logs of several poker sites, parsed into one columnar arena.
//!
//! A text of hands is read line by line into an arena: the text that is
//! kept, and one column of rows each for hands, players, streets, actions,
//! numbers, cards and winners. Rows refer to each other by packed ranges and
//! indexes, never by address, so that arenas can be joined and moved.
//!
//! Text is handled as bytes throughout. Amounts are counted in hundredths
//! and kept exact. Nothing here panics: a line that cannot be read fails its
//! hand, and the hand is left behind.
//!
//! Every function is stated over plain values (sequences, integers, and the
//! views of the types) and proved against that statement.

pub mod pklp;
pub mod simd;
pub mod parsers;
pub mod api;
pub mod combine;
