//! Rules engine for a turn-based token-trading board game for 2 to 4
//! players: players collect colored tokens, reserve and buy production
//! cards, attract nobles, and race to a victory-point threshold.
//!
//! Every game operation is a total function from an immutable state and a
//! request to a new state or a structured failure; the contracts in this
//! crate pin down both outcomes exactly.

pub mod bank;
pub mod board;
pub mod noble;
pub mod original_game;
pub mod piece;
pub mod player;
pub mod production_card;
pub mod session;
pub mod util;
