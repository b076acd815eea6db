//! Solver catalogue: named, parameterized descriptors of hint computations.
//!
//! A descriptor is inert data at this layer: synthesis stores it in a
//! directive and the witness-generation engine executes it much later.

use vstd::prelude::*;

verus! {

/// A named descriptor of a side computation that proposes candidate witness
/// values; opaque to synthesis, which only stores and returns it unchanged.
#[derive(Clone, Copy, Debug, PartialEq, Eq, Hash)]
pub enum Solver {
    /// Decompose a field element into the given number of bits.
    Bits(usize),
}

impl Solver {
    /// The bit-decomposition solver of the given width.
    pub fn bits(width: usize) -> (r: Self)
        ensures
            r == Solver::Bits(width),
    {
        Solver::Bits(width)
    }
}

} // verus!
