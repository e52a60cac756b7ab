//! Glicko-2 skill ratings for a head-to-head league.
//!
//! The library keeps a registry of players and an append-only log of
//! matches, ingests match results from delimited text, and recomputes every
//! player's rating triple — rating, deviation, volatility — in discrete
//! rating periods. The rating-period engine expands each match into unit
//! games, pairs every game with the opponent's pre-period triple, and hands
//! the list to the Glicko-2 update; its contracts pin the game-list
//! assembly down exactly, while the floating-point update itself is carried
//! out by the `skillratings` crate behind a small trusted boundary in
//! `rating`.

pub mod cli;
pub mod engine;
pub mod import;
pub mod matchlog;
pub mod rating;
pub mod registry;
pub mod report;

pub use rating::Rating;
