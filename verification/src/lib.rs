//! Probabilistic thinning of chess game archives.
//!
//! The library holds the rules by which a game is kept or dropped: how a
//! declared time control maps to a speed class, which share of the games of a
//! class and rating is retained, and how one random draw turns that share into
//! a decision.

pub mod decimal;
pub mod emit;
pub mod indexer;
pub mod sampling;
pub mod time_control;
