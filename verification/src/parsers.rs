//! Reading hand histories: the shared pieces, then one parser per site.

pub mod text;
pub mod number;
pub mod currency;
pub mod fields;
pub mod split;
pub mod parser;
pub mod pokerstars;
pub mod ongame;
pub mod stages;
pub mod header;
pub mod streets;
pub mod summary;
pub mod hands;
pub mod detect;
pub mod dialects;

pub use detect::{detect_site, UnrecognizedFormat};
pub use ongame::OnGame;
pub use pokerstars::{PokerStars, PokerStarsPluribus};
