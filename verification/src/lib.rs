//! Ingests a stream of chess-game events and turns each game into a summary
//! record plus one position-index record per half-move, so that a store built
//! from these records can answer "which games reached this position?" by a
//! fingerprint lookup.

pub mod laws;
pub mod records;
pub mod tracker;
pub mod visitor;
