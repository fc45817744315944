//! Board representation shared by every feature set and loader.

pub mod types;
pub mod bits;
pub mod bona_piece;
pub mod board;
pub mod packed_sfen;
