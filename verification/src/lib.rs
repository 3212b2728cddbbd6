//! A spatial stochastic kinetics simulator: a lattice of cells, each holding
//! one species, evolves through rate-governed reaction events.  The engine
//! keeps an append-only history of committed events with strictly increasing
//! times, supports exact forward and backward replay of that history, and
//! grows it just in time (or during idle frames) from a priority queue of
//! candidate events, discarding candidates that went stale.

pub mod geometry;
pub mod pqueue;
pub mod reactions;
pub mod sampling;
pub mod simulator;
pub mod state;
