//! Rules engine for a territory-capture word game.
//!
//! Players place letter tiles on a grid; when a placed word ends up next to an
//! opposing word, the two sides fight a "battle" that is adjudicated against a
//! dictionary, and a player wins the game by occupying a square next to an
//! opponent's town.  This crate holds the adjudication core: the board model,
//! the word judge (wildcard and alias resolution, battle outcomes, win
//! detection), and the plain data shapes exchanged with the network transport,
//! together with machine-checked contracts for all of it.

pub mod board;
pub mod client;
pub mod convert;
pub mod judge;
pub mod letters;
pub mod moves;
pub mod player;
pub mod reporting;
pub mod rules;
pub mod ui;
pub mod wire;
