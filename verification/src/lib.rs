//! Core of a chess engine: iterative-deepening alpha-beta search with a
//! staged move-ordering pipeline, a fixed-size XOR-checksummed transposition
//! table, history/killer/counter-move heuristics, a quiescence search and an
//! incrementally updated integer neural-network evaluator.

pub mod board;
pub mod eval;
pub mod h_table;
pub mod lookup;
pub mod move_entry;
pub mod moves;
pub mod nnue;
pub mod move_gen;
pub mod params;
pub mod position;
pub mod runner;
pub mod search;
pub mod see;
pub mod t_table;
pub mod time;
pub mod window;
