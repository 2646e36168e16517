//! Algebraic constraint-system representations over a prime field:
//! R1CS (Rank-1 Constraint System), CCS (Customizable Constraint System),
//! and a Plonkish arithmetization, each with a validating constructor, a
//! satisfaction check, and (for R1CS and Plonkish) a conversion to CCS.
use vstd::prelude::*;

pub use ccs::CCS;
pub use r1cs::R1CS;
pub mod field;
pub mod utils;
pub mod ccs;
pub mod r1cs;
pub mod poly;
pub mod plonkish;

verus! {

/// Convenience alias for a row-major grid of field elements.
/// Rectangularity is validated by the structures that hold one.
pub type Matrix = Vec<Vec<crate::field::FiniteField>>;

} // verus!

