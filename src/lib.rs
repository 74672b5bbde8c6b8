//! Texture classification of three-card poker boards and averaging of
//! per-board solver statistics over the boards that match a texture filter.

pub mod error;
pub mod rank;
pub mod suit;
pub mod card;
pub mod board;
pub mod text;
pub mod texture;
pub mod flop;
pub mod situation;
pub mod fields;
pub mod stats;
pub mod calculation;
pub mod args;
pub mod store;

