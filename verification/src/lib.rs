//! Gadget-synthesis core of a zero-knowledge circuit compiler.
//!
//! A small catalogue of built-in, non-algebraic operations (bit decomposition
//! of a field element, fixed-width integer/bit-array conversion markers) is
//! turned into a flattened arithmetic-constraint representation that later
//! compiler stages consume directly. Operations that have no closed algebraic
//! form are declared as a non-deterministic hint (a directive handed to an
//! external solver at witness time) together with constraints that force any
//! accepted witness to agree with the hinted values.

pub mod embed;
pub mod field;
pub mod ink;
pub mod ir;
pub mod solver;
pub mod types;
