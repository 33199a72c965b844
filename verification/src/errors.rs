//! Core-level errors. Each aborts a synthesis pass immediately and surfaces
//! to the caller unmodified; none is transient and none is retried.
//!
//! A backend's rejection of a finished grid is not an error of the core: the
//! backend's answer is binary and is reported as a plain `bool` by the
//! acceptance check.

use vstd::prelude::*;

verus! {

#[derive(Clone, Copy, PartialEq, Eq, Structural, Debug)]
pub enum CircuitError {
    /// Mutating the schema after it was finalized, or referencing a column
    /// that is not present in the schema.
    SchemaMisuse,
    /// Assigning a (column, row) cell that already holds an assignment.
    AssignmentConflict,
    /// A copy constraint on a column without equality support, or a public
    /// binding through a column that is not of the public kind.
    ConstraintScopeError,
}

} // verus!
