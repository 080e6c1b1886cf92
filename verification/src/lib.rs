//! Bit-level core of an English peg-solitaire solver.

pub mod board;
pub mod eval;
pub mod moves;

pub use board::apply_move;
pub use board::count_pegs;
pub use board::has_peg;
pub use board::SolverError;
pub use board::VALID_MASK;
pub use eval::evaluate_batch;
pub use eval::evaluate_position;
pub use eval::pagoda_value;
pub use moves::generate_moves;
pub use moves::is_dead;
