//! Column registry and gate set: the schema phase of a circuit description.
//!
//! A schema moves through a two-state machine, unconfigured to configured:
//! columns are allocated, equality support is switched on, and gates are
//! defined; after `finalize` the schema is immutable and every mutating
//! operation is rejected with `SchemaMisuse`.

use vstd::prelude::*;
use crate::errors::CircuitError;

verus! {

/// The three column kinds of the grid.
#[derive(Clone, Copy, PartialEq, Eq, Structural, Debug)]
pub enum ColumnKind {
    /// Holds values known only to the prover.
    Witness,
    /// Holds circuit-structure constants choosing which gate term is active.
    Selector,
    /// Holds values known to both prover and verifier.
    Public,
}

/// A typed column of the grid, identified by kind and index.
#[derive(Clone, Copy, PartialEq, Eq, Structural, Debug)]
pub struct Column {
    pub kind: ColumnKind,
    pub index: usize,
}

/// One configurable polynomial identity over current-row column queries.
///
/// On each row the identity evaluates to
/// `l*sl + r*sr + l*r*sm - o*so + sc`
/// where a selector term left at `None` contributes the additive identity.
/// Which selector terms are present decides its shape: a generalized
/// add/mul/const gate names all five, a single-purpose multiply gate names
/// one selector column for both `sm` and `so`.
#[derive(Clone, Debug)]
pub struct Gate {
    pub name: String,
    pub l: Column,
    pub r: Column,
    pub o: Column,
    pub sl: Option<Column>,
    pub sr: Option<Column>,
    pub sm: Option<Column>,
    pub so: Option<Column>,
    pub sc: Option<Column>,
}

/// The column registry and gate set of one circuit.
pub struct Schema {
    eq_witness: Vec<bool>,
    eq_selector: Vec<bool>,
    eq_public: Vec<bool>,
    gates: Vec<Gate>,
    finalized: bool,
}

/// Whether an optional gate term only names columns of the schema.
pub open spec fn sel_wf(s: Schema, sel: Option<Column>) -> bool {
    match sel {
        Some(c) => s.in_schema(c),
        None => true,
    }
}

impl Schema {
    /// Equality flags of the columns of one kind; its length is the number
    /// of columns allocated with that kind.
    pub closed spec fn eq_bank(self, k: ColumnKind) -> Seq<bool> {
        match k {
            ColumnKind::Witness => self.eq_witness@,
            ColumnKind::Selector => self.eq_selector@,
            ColumnKind::Public => self.eq_public@,
        }
    }

    /// How many columns of a kind have been allocated.
    pub open spec fn n_cols(self, k: ColumnKind) -> nat {
        self.eq_bank(k).len()
    }

    /// Whether a column was allocated in this schema.
    pub open spec fn in_schema(self, c: Column) -> bool {
        c.index < self.n_cols(c.kind)
    }

    /// Whether a column supports copy constraints.
    pub open spec fn equality_enabled(self, c: Column) -> bool {
        self.in_schema(c) && self.eq_bank(c.kind)[c.index as int]
    }

    /// The gates defined so far, in definition order.
    pub closed spec fn gates_spec(self) -> Seq<Gate> {
        self.gates@
    }

    /// Whether the schema was finalized.
    pub closed spec fn is_finalized(self) -> bool {
        self.finalized
    }

    /// Whether a gate only references columns present in the schema.
    pub open spec fn gate_wf(self, g: Gate) -> bool {
        &&& self.in_schema(g.l)
        &&& self.in_schema(g.r)
        &&& self.in_schema(g.o)
        &&& sel_wf(self, g.sl)
        &&& sel_wf(self, g.sr)
        &&& sel_wf(self, g.sm)
        &&& sel_wf(self, g.so)
        &&& sel_wf(self, g.sc)
    }

    /// Every defined gate references schema columns only.
    pub open spec fn inv(self) -> bool {
        forall|i: int|
            0 <= i < self.gates_spec().len() ==> self.gate_wf(#[trigger] self.gates_spec()[i])
    }

    /// A fresh, unconfigured schema.
    pub fn new() -> (s: Schema)
        ensures
            s.inv(),
            !s.is_finalized(),
            forall|k: ColumnKind| s.n_cols(k) == 0,
            s.gates_spec() =~= Seq::<Gate>::empty(),
    {
        Schema {
            eq_witness: Vec::new(),
            eq_selector: Vec::new(),
            eq_public: Vec::new(),
            gates: Vec::new(),
            finalized: false,
        }
    }

    /// Declare one more column of the given kind.
    ///
    /// After finalization the schema is immutable: the call is rejected
    /// with `SchemaMisuse` and the schema is left untouched.
    pub fn allocate_column(&mut self, kind: ColumnKind) -> (r: Result<Column, CircuitError>)
        requires
            old(self).inv(),
        ensures
            final(self).inv(),
            old(self).is_finalized() ==> r == Err::<Column, CircuitError>(
                CircuitError::SchemaMisuse,
            ) && *final(self) == *old(self),
            !old(self).is_finalized() ==> {
                &&& r == Ok::<Column, CircuitError>(
                    Column { kind, index: old(self).n_cols(kind) as usize },
                )
                &&& !final(self).is_finalized()
                &&& final(self).n_cols(kind) == old(self).n_cols(kind) + 1
                &&& forall|k2: ColumnKind| k2 != kind ==> final(self).n_cols(k2) == old(self).n_cols(k2)
                &&& forall|c: Column|
                    #[trigger] final(self).equality_enabled(c) == old(self).equality_enabled(c)
                &&& final(self).gates_spec() == old(self).gates_spec()
            },
    {
        if self.finalized {
            return Err(CircuitError::SchemaMisuse);
        }
        let index = match kind {
            ColumnKind::Witness => {
                let i = self.eq_witness.len();
                self.eq_witness.push(false);
                i
            },
            ColumnKind::Selector => {
                let i = self.eq_selector.len();
                self.eq_selector.push(false);
                i
            },
            ColumnKind::Public => {
                let i = self.eq_public.len();
                self.eq_public.push(false);
                i
            },
        };
        proof {
            assert forall|i: int| 0 <= i < self.gates_spec().len() implies self.gate_wf(
                #[trigger] self.gates_spec()[i],
            ) by {
                assert(old(self).gate_wf(old(self).gates_spec()[i]));
            }
        }
        Ok(Column { kind, index })
    }

    /// Switch on copy-constraint support for a column of the schema.
    ///
    /// Rejected with `SchemaMisuse` after finalization or for a column the
    /// schema does not hold; the schema is then left untouched.
    pub fn enable_equality(&mut self, c: Column) -> (r: Result<(), CircuitError>)
        requires
            old(self).inv(),
        ensures
            final(self).inv(),
            old(self).is_finalized() || !old(self).in_schema(c) ==> r == Err::<(), CircuitError>(
                CircuitError::SchemaMisuse,
            ) && *final(self) == *old(self),
            !old(self).is_finalized() && old(self).in_schema(c) ==> {
                &&& r == Ok::<(), CircuitError>(())
                &&& !final(self).is_finalized()
                &&& forall|k2: ColumnKind| final(self).n_cols(k2) == old(self).n_cols(k2)
                &&& forall|c2: Column|
                    #[trigger] final(self).equality_enabled(c2) == (old(self).equality_enabled(c2) || c2
                        == c)
                &&& final(self).gates_spec() == old(self).gates_spec()
            },
    {
        if self.finalized {
            return Err(CircuitError::SchemaMisuse);
        }
        match c.kind {
            ColumnKind::Witness => {
                if c.index >= self.eq_witness.len() {
                    return Err(CircuitError::SchemaMisuse);
                }
                self.eq_witness[c.index] = true;
            },
            ColumnKind::Selector => {
                if c.index >= self.eq_selector.len() {
                    return Err(CircuitError::SchemaMisuse);
                }
                self.eq_selector[c.index] = true;
            },
            ColumnKind::Public => {
                if c.index >= self.eq_public.len() {
                    return Err(CircuitError::SchemaMisuse);
                }
                self.eq_public[c.index] = true;
            },
        }
        proof {
            assert forall|i: int| 0 <= i < self.gates_spec().len() implies self.gate_wf(
                #[trigger] self.gates_spec()[i],
            ) by {
                assert(old(self).gate_wf(old(self).gates_spec()[i]));
            }
        }
        Ok(())
    }

    /// Whether the schema holds the column (executable form of `in_schema`).
    pub fn has_column(&self, c: Column) -> (b: bool)
        ensures
            b == self.in_schema(c),
    {
        match c.kind {
            ColumnKind::Witness => c.index < self.eq_witness.len(),
            ColumnKind::Selector => c.index < self.eq_selector.len(),
            ColumnKind::Public => c.index < self.eq_public.len(),
        }
    }

    /// Whether the column supports copy constraints (executable form of
    /// `equality_enabled`).
    pub fn has_equality(&self, c: Column) -> (b: bool)
        ensures
            b == self.equality_enabled(c),
    {
        match c.kind {
            ColumnKind::Witness => c.index < self.eq_witness.len() && self.eq_witness[c.index],
            ColumnKind::Selector => c.index < self.eq_selector.len() && self.eq_selector[c.index],
            ColumnKind::Public => c.index < self.eq_public.len() && self.eq_public[c.index],
        }
    }

    fn sel_ok(&self, sel: &Option<Column>) -> (b: bool)
        ensures
            b == sel_wf(*self, *sel),
    {
        match sel {
            Some(c) => self.has_column(*c),
            None => true,
        }
    }

    /// Define a named polynomial identity over current-row column queries.
    ///
    /// Rejected with `SchemaMisuse` after finalization or when a column it
    /// references is not present in the schema.
    pub fn define_gate(&mut self, gate: Gate) -> (r: Result<(), CircuitError>)
        requires
            old(self).inv(),
        ensures
            final(self).inv(),
            old(self).is_finalized() || !old(self).gate_wf(gate) ==> r == Err::<(), CircuitError>(
                CircuitError::SchemaMisuse,
            ) && *final(self) == *old(self),
            !old(self).is_finalized() && old(self).gate_wf(gate) ==> {
                &&& r == Ok::<(), CircuitError>(())
                &&& !final(self).is_finalized()
                &&& forall|k2: ColumnKind| final(self).n_cols(k2) == old(self).n_cols(k2)
                &&& forall|c2: Column|
                    #[trigger] final(self).equality_enabled(c2) == old(self).equality_enabled(c2)
                &&& final(self).gates_spec() =~= old(self).gates_spec().push(gate)
            },
    {
        if self.finalized {
            return Err(CircuitError::SchemaMisuse);
        }
        let ok = self.has_column(gate.l) && self.has_column(gate.r) && self.has_column(gate.o)
            && self.sel_ok(&gate.sl) && self.sel_ok(&gate.sr) && self.sel_ok(&gate.sm)
            && self.sel_ok(&gate.so) && self.sel_ok(&gate.sc);
        if !ok {
            return Err(CircuitError::SchemaMisuse);
        }
        self.gates.push(gate);
        proof {
            assert forall|i: int| 0 <= i < self.gates_spec().len() implies self.gate_wf(
                #[trigger] self.gates_spec()[i],
            ) by {
                if i < old(self).gates_spec().len() {
                    assert(old(self).gate_wf(old(self).gates_spec()[i]));
                } else {
                    assert(self.gates_spec()[i] == gate);
                }
            }
        }
        Ok(())
    }

    /// Move the schema to its configured state; it is immutable thereafter.
    pub fn finalize(&mut self)
        requires
            old(self).inv(),
        ensures
            final(self).inv(),
            final(self).is_finalized(),
            forall|k2: ColumnKind| final(self).n_cols(k2) == old(self).n_cols(k2),
            forall|c2: Column|
                #[trigger] final(self).equality_enabled(c2) == old(self).equality_enabled(c2),
            final(self).gates_spec() == old(self).gates_spec(),
    {
        self.finalized = true;
        proof {
            assert forall|i: int| 0 <= i < self.gates_spec().len() implies self.gate_wf(
                #[trigger] self.gates_spec()[i],
            ) by {
                assert(old(self).gate_wf(old(self).gates_spec()[i]));
            }
        }
    }

    /// How many columns of a kind the schema holds.
    pub fn num_cols(&self, k: ColumnKind) -> (n: usize)
        ensures
            n == self.n_cols(k),
    {
        match k {
            ColumnKind::Witness => self.eq_witness.len(),
            ColumnKind::Selector => self.eq_selector.len(),
            ColumnKind::Public => self.eq_public.len(),
        }
    }

    /// How many gates the schema holds.
    pub fn num_gates(&self) -> (n: usize)
        ensures
            n == self.gates_spec().len(),
    {
        self.gates.len()
    }

    /// One defined identity, by position in definition order.
    pub fn gate_at(&self, i: usize) -> (g: &Gate)
        requires
            i < self.gates_spec().len(),
        ensures
            *g == self.gates_spec()[i as int],
    {
        &self.gates[i]
    }
}

} // verus!
