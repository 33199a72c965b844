//! Deferred values: a two-state container that lets one circuit description
//! run both in a schema-only pass (no witnesses, every value `Unknown`) and
//! in a witness-filling pass (every value `Known`).

use vstd::prelude::*;
use crate::felt::{fmul, Felt};

verus! {

/// Either a value known now, or a placeholder for a schema-only pass.
#[derive(Clone, Copy, PartialEq, Eq, Structural, Debug)]
pub enum Deferred {
    Known(Felt),
    Unknown,
}

/// Whether a deferred value carries a known field element.
pub open spec fn dknown(d: Deferred) -> bool {
    d is Known
}

/// The field value carried, with the additive identity standing in for
/// `Unknown` (an unknown never reaches a backend in a real-proof pass).
pub open spec fn dval(d: Deferred) -> int {
    match d {
        Deferred::Known(f) => f.val(),
        Deferred::Unknown => 0,
    }
}

impl Deferred {
    /// A deferred value is well formed when any element it carries is.
    pub open spec fn wf(self) -> bool {
        match self {
            Deferred::Known(f) => f.inv(),
            Deferred::Unknown => true,
        }
    }

    /// Combine two deferred values by field multiplication.
    ///
    /// A transformation over an `Unknown` yields `Unknown`; the product is
    /// known exactly when both inputs are.
    pub fn mul(self, rhs: Deferred) -> (r: Deferred)
        requires
            self.wf(),
            rhs.wf(),
        ensures
            r.wf(),
            dknown(r) == (dknown(self) && dknown(rhs)),
            dknown(r) ==> dval(r) == fmul(dval(self), dval(rhs)),
    {
        match (self, rhs) {
            (Deferred::Known(a), Deferred::Known(b)) => Deferred::Known(a.mul(b)),
            _ => Deferred::Unknown,
        }
    }
}

} // verus!
