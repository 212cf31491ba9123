//! Sparse matrices over a prime field, stored in compressed-sparse-row form,
//! and their product with a dense vector, computed row by row in parallel.
//!
//! * [`csr`] is the mathematical model: a matrix as sequences of integers,
//!   the product modulo `m`, and the laws of that product.
//! * [`field`] is the interface to the scalars: a field element stands for an
//!   integer, and sum and product are the integer ones reduced by the modulus.
//! * [`bn256`] implements that interface for the scalar field of BN254.
//! * [`sparse`] is the executable matrix, with contracts over the model.
//!
//! # Trust
//!
//! Every function written here is verified but five private ones, each a
//! single call into another crate with a contract that Verus takes for
//! granted: the field's sum and product (`halo2curves`), the pairing of a
//! row's values with their columns (`itertools`), and the parallel copy and
//! the parallel map over row boundaries (`rayon`). Each says in its
//! documentation what it assumes of the call.

pub mod bn256;
pub mod csr;
pub mod field;
pub mod sparse;
