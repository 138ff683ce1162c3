//! A permutation argument arithmetized for a STARK proving engine.
//!
//! Two sequences of field elements are laid out as the two main columns of an
//! execution trace. One auxiliary column holds the running product of the
//! per-row ratios `(a + c) / (b + c)` for a verifier-chosen challenge `c`; it
//! closes to one exactly when the products of the two randomized columns agree,
//! which is the case whenever one column is a rearrangement of the other.

pub mod field;
pub mod matrix;
pub mod running_product;
pub mod frame;
pub mod trace_table;
pub mod air;
pub mod prover;
