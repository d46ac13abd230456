//! A HyperLogLog distinct-count estimator with a verified register core.
//!
//! The estimator keeps a fixed array of registers, one per low-order hash
//! prefix, and records in each the largest rank (leading-zero run of the
//! remaining hash bits, plus one) ever observed.  Inserting, merging and
//! clearing that state is exact integer work and is verified here; the
//! floating-point cardinality formulas that read the registers live outside
//! the verified core.

pub mod estimator;
pub mod model;
mod outside;
