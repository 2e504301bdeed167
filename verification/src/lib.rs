//! A turn-based two-action duel between autonomous agents, with a
//! round-robin tournament driver that aggregates win counts.
//!
//! The crate is organised bottom-up: `game` holds the actions, player
//! state and the payoff rules; `agents` holds the decision strategies;
//! `engine` resolves one turn and one full match; `tournament` runs
//! repeated trials over every ordered agent pairing.

pub mod agents;
pub mod engine;
pub mod game;
mod rng;
pub mod text;
pub mod tournament;
