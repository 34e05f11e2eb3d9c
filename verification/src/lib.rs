//! Verified core of the Blooket game engine: the data model, the parsing of
//! question sets and live game snapshots, answer selection, prompt building,
//! token and payload helpers, and the decisions of the game loop.

pub mod json;
pub mod text;
pub mod types;
pub mod client;
pub mod crypto;
pub mod answer;
pub mod game;
