//! Adapter for the CBC optimization engine: the arguments that start it,
//! what follows its exit, and a reader for the solution text it writes.

use vstd::prelude::*;

pub mod decimal;
pub mod error;
pub mod solution;
pub mod solver;
pub mod status;
pub mod text;

pub use error::{Malformed, SolveError};
pub use solution::{data_values, read_specific_solution, Assignment, Solution};
pub use solver::{CbcSolver, ExitStep};
pub use status::Status;

verus! {

} // verus!
