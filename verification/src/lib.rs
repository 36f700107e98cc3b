//! A rules engine for turn-based Rummy-family card games.
//!
//! The crate owns the card and deck model, meld (set/run) validation with
//! wildcard support, per-player state, and the phase state machine that
//! sequences a game from draw through play, discard, scoring and round
//! advance. Every executable function carries a verified contract.

pub mod suit_rank;
pub mod card;
pub mod deck;
pub mod error;
pub mod meld;
pub mod player;
pub mod game;
