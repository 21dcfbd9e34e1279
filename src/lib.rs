//! Single-round wagering card games: a shuffled deck, a lifecycle state
//! machine and a zero-sum payout engine.

pub mod card;
pub mod deck;
pub mod error;
pub mod player;
pub mod config;
pub mod payout;
pub mod state;
pub mod fts;
pub mod cta;
pub mod game;
