//! A verified circuit-description and witness-assignment layer for an
//! arithmetic relation ("the product of two private values equals a public
//! value") laid out as a grid of cells governed by polynomial identities.
//!
//! The library covers column/gate schema definition, region-scoped cell
//! assignment, copy (equality) constraints, and public-input exposure, and
//! proves the circuits it describes sound and complete against a model of
//! the constraint-satisfaction check that a proving backend performs.

pub mod backend;
pub mod deferred;
pub mod errors;
pub mod felt;
pub mod schema;
pub mod simple;
pub mod synthesis;
pub mod tutorial;
