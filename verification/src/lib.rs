//! On-chain state machine for a seat-based, turn-ordered card game played
//! with an in-contract chip ledger.
//!
//! Chips are minted by claims, purchases and payouts and burned by bets;
//! the game core keeps token supply accounting consistent with the game
//! state under any order of player, backend and admin calls.

pub mod action;
pub mod admin;
pub mod api;
pub mod contract;
pub mod laws;
pub mod model;
pub mod player;
pub mod storage;
pub mod table;
pub mod tokens;
pub mod types;
