//! An evolutionary tournament over repeated two-player Prisoner's-Dilemma
//! matches.
//!
//! The engine pits strategies against each other in round-robin matches with
//! optional action noise, accumulates integer payoffs, and each generation
//! replaces the worst-performing population slot with a copy of a randomly
//! chosen slot.

pub mod premades;
pub mod protocol;
pub mod rng;
pub mod rules;
pub mod tournament;
