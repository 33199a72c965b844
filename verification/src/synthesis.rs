//! Region builder and witness assembly: the synthesis phase of a circuit.
//!
//! A `Synthesizer` owns one grid produced by one synthesis pass over a
//! finalized schema. Regions are opened at a fresh row counter in call
//! order; cells are assigned at most once; copy constraints and public
//! bindings are recorded as they are issued. The first operation that
//! fails aborts with its error and leaves the assembly untouched.

use vstd::prelude::*;
use crate::deferred::Deferred;
use crate::errors::CircuitError;
use crate::felt::{Felt, MODULUS};
use crate::schema::{Column, ColumnKind, Schema};

verus! {

/// An opaque handle to an assigned grid position. It never owns circuit
/// state, it only identifies the position.
#[derive(Clone, Copy, PartialEq, Eq, Structural, Debug)]
pub struct Cell {
    pub column: Column,
    pub row: usize,
}

/// A named row scope opened at a fresh row counter. Purely organizational:
/// it decides where the next rows are allocated and nothing else.
#[derive(Clone, Copy, PartialEq, Eq, Structural, Debug)]
pub struct RegionHandle {
    pub start: usize,
}

/// In-range flat positions of distinct (column index, row) pairs differ.
proof fn lemma_flat_index(i: int, r: int, n: int, rows: int)
    requires
        0 <= i < n,
        0 <= r < rows,
    ensures
        0 <= i * rows + r < n * rows,
{
    assert(0 <= i * rows + r < n * rows) by (nonlinear_arith)
        requires
            0 <= i < n,
            0 <= r < rows,
    ;
}

proof fn lemma_flat_index_injective(i1: int, r1: int, i2: int, r2: int, rows: int)
    requires
        0 <= r1 < rows,
        0 <= r2 < rows,
        0 <= i1,
        0 <= i2,
        i1 * rows + r1 == i2 * rows + r2,
    ensures
        i1 == i2,
        r1 == r2,
{
    assert(i1 == i2 && r1 == r2) by (nonlinear_arith)
        requires
            0 <= r1 < rows,
            0 <= r2 < rows,
            0 <= i1,
            0 <= i2,
            i1 * rows + r1 == i2 * rows + r2,
    ;
}

/// One synthesis pass: the grid being filled, the copy-constraint list and
/// the public-input bindings, over an immutable schema.
pub struct Synthesizer {
    schema: Schema,
    rows: usize,
    next_row: usize,
    witness: Vec<Option<Deferred>>,
    selector: Vec<Option<Deferred>>,
    public: Vec<Option<Deferred>>,
    copies: Vec<(Cell, Cell)>,
    bindings: Vec<(Cell, usize)>,
}

impl Synthesizer {
    /// The schema this pass synthesizes against.
    pub closed spec fn schema_spec(self) -> Schema {
        self.schema
    }

    /// The number of rows of the grid.
    pub closed spec fn rows_spec(self) -> int {
        self.rows as int
    }

    /// The first row that no region has allocated yet.
    pub closed spec fn next_row_spec(self) -> int {
        self.next_row as int
    }

    /// The cells of one column kind, column-major.
    pub closed spec fn bank(self, k: ColumnKind) -> Seq<Option<Deferred>> {
        match k {
            ColumnKind::Witness => self.witness@,
            ColumnKind::Selector => self.selector@,
            ColumnKind::Public => self.public@,
        }
    }

    /// The assignment held at a grid position, if any.
    pub closed spec fn cell_state(self, c: Column, row: int) -> Option<Deferred> {
        if c.index < self.schema.n_cols(c.kind) && 0 <= row < self.rows as int {
            self.bank(c.kind)[c.index as int * (self.rows as int) + row]
        } else {
            Option::<Deferred>::None
        }
    }

    /// Whether a grid position has been assigned.
    pub open spec fn assigned(self, c: Column, row: int) -> bool {
        self.cell_state(c, row) is Some
    }

    /// The value a backend reads at a grid position: the known value where
    /// one was assigned, the additive identity otherwise.
    pub open spec fn value_at(self, c: Column, row: int) -> int {
        match self.cell_state(c, row) {
            Some(Deferred::Known(f)) => f.val(),
            _ => 0,
        }
    }

    /// The value a backend reads at a cell handle.
    pub open spec fn cell_value(self, cell: Cell) -> int {
        self.value_at(cell.column, cell.row as int)
    }

    /// The recorded copy constraints, in issue order.
    pub closed spec fn copies_spec(self) -> Seq<(Cell, Cell)> {
        self.copies@
    }

    /// The recorded public-input bindings, in issue order.
    pub closed spec fn bindings_spec(self) -> Seq<(Cell, usize)> {
        self.bindings@
    }

    /// The grid storage matches the schema and row count.
    pub open spec fn banks_wf(self) -> bool {
        &&& self.schema_spec().is_finalized()
        &&& self.schema_spec().inv()
        &&& self.rows_spec() >= 1
        &&& self.bank(ColumnKind::Witness).len() == self.schema_spec().n_cols(ColumnKind::Witness)
            * self.rows_spec()
        &&& self.bank(ColumnKind::Selector).len() == self.schema_spec().n_cols(
            ColumnKind::Selector,
        ) * self.rows_spec()
        &&& self.bank(ColumnKind::Public).len() == self.schema_spec().n_cols(ColumnKind::Public)
            * self.rows_spec()
        &&& self.bank(ColumnKind::Witness).len() <= usize::MAX as int
        &&& self.bank(ColumnKind::Selector).len() <= usize::MAX as int
        &&& self.bank(ColumnKind::Public).len() <= usize::MAX as int
    }

    /// Well-formedness of one synthesis pass: the storage matches the
    /// schema, rows are allocated strictly below the row counter, every
    /// stored value is a reduced residue, and every recorded copy
    /// constraint references two equality-enabled columns.
    pub open spec fn inv(self) -> bool {
        &&& self.banks_wf()
        &&& 0 <= self.next_row_spec() <= self.rows_spec()
        &&& forall|c: Column, row: int| #[trigger] self.assigned(c, row) ==> row
            < self.next_row_spec()
        &&& forall|c: Column, row: int| 0 <= #[trigger] self.value_at(c, row) < MODULUS as int
        &&& forall|i: int|
            0 <= i < self.copies_spec().len() ==> {
                &&& self.schema_spec().equality_enabled((#[trigger] self.copies_spec()[i]).0.column)
                &&& self.schema_spec().equality_enabled(self.copies_spec()[i].1.column)
            }
    }

    /// Open a fresh, fully unassigned assembly over a finalized schema.
    pub fn new(schema: Schema, rows: usize) -> (s: Synthesizer)
        requires
            schema.is_finalized(),
            schema.inv(),
            rows >= 1,
            schema.n_cols(ColumnKind::Witness) * rows as int <= usize::MAX as int,
            schema.n_cols(ColumnKind::Selector) * rows as int <= usize::MAX as int,
            schema.n_cols(ColumnKind::Public) * rows as int <= usize::MAX as int,
        ensures
            s.inv(),
            s.schema_spec() == schema,
            s.rows_spec() == rows,
            s.next_row_spec() == 0,
            s.copies_spec() =~= Seq::<(Cell, Cell)>::empty(),
            s.bindings_spec() =~= Seq::<(Cell, usize)>::empty(),
            forall|c: Column, row: int| #[trigger] s.cell_state(c, row) is None,
    {
        let nw = schema.num_cols(ColumnKind::Witness);
        let ns = schema.num_cols(ColumnKind::Selector);
        let np = schema.num_cols(ColumnKind::Public);
        let s = Synthesizer {
            schema,
            rows,
            next_row: 0,
            witness: make_bank(nw * rows),
            selector: make_bank(ns * rows),
            public: make_bank(np * rows),
            copies: Vec::new(),
            bindings: Vec::new(),
        };
        proof {
            assert forall|c: Column, row: int| #[trigger] s.cell_state(c, row) is None by {
                if c.index < s.schema.n_cols(c.kind) && 0 <= row < s.rows as int {
                    lemma_flat_index(
                        c.index as int,
                        row,
                        s.schema.n_cols(c.kind) as int,
                        s.rows as int,
                    );
                }
            }
            assert forall|c: Column, row: int| 0 <= #[trigger] s.value_at(c, row)
                < MODULUS as int by {
                assert(s.cell_state(c, row) is None);
            }
            assert forall|c: Column, row: int| #[trigger] s.assigned(c, row) implies row
                < s.next_row_spec() by {
                assert(s.cell_state(c, row) is None);
            }
        }
        s
    }

    /// Open a named region at a fresh row counter. Sequential regions do
    /// not share rows; the name is organizational only.
    pub fn open_region(&self, _name: &str) -> (r: RegionHandle)
        ensures
            r.start == self.next_row_spec(),
    {
        RegionHandle { start: self.next_row }
    }

    /// Whether a grid position has been assigned (executable form).
    pub fn assigned_at(&self, c: Column, row: usize) -> (b: bool)
        requires
            self.banks_wf(),
        ensures
            b == self.assigned(c, row as int),
    {
        if !self.schema.has_column(c) || row >= self.rows {
            return false;
        }
        proof {
            lemma_flat_index(c.index as int, row as int, self.schema.n_cols(c.kind) as int, self.rows as int);
        }
        let idx = c.index * self.rows + row;
        match c.kind {
            ColumnKind::Witness => self.witness[idx].is_some(),
            ColumnKind::Selector => self.selector[idx].is_some(),
            ColumnKind::Public => self.public[idx].is_some(),
        }
    }

    /// The value a backend reads at a grid position (executable form).
    pub fn lookup(&self, c: Column, row: usize) -> (r: Felt)
        requires
            self.inv(),
        ensures
            r.inv(),
            r.val() == self.value_at(c, row as int),
    {
        if !self.schema.has_column(c) || row >= self.rows {
            return Felt::zero();
        }
        proof {
            lemma_flat_index(c.index as int, row as int, self.schema.n_cols(c.kind) as int, self.rows as int);
        }
        let idx = c.index * self.rows + row;
        let slot = match c.kind {
            ColumnKind::Witness => self.witness[idx],
            ColumnKind::Selector => self.selector[idx],
            ColumnKind::Public => self.public[idx],
        };
        proof {
            assert(slot == self.cell_state(c, row as int));
            assert(0 <= self.value_at(c, row as int) < MODULUS as int);
        }
        match slot {
            Some(Deferred::Known(f)) => f,
            _ => Felt::zero(),
        }
    }

    /// Store a deferred value at an unoccupied in-range grid position.
    fn set_cell(&mut self, c: Column, row: usize, d: Deferred)
        requires
            old(self).banks_wf(),
            old(self).schema_spec().in_schema(c),
            row < old(self).rows_spec(),
        ensures
            final(self).banks_wf(),
            final(self).schema_spec() == old(self).schema_spec(),
            final(self).rows_spec() == old(self).rows_spec(),
            final(self).next_row_spec() == old(self).next_row_spec(),
            final(self).copies_spec() == old(self).copies_spec(),
            final(self).bindings_spec() == old(self).bindings_spec(),
            final(self).cell_state(c, row as int) == Some(d),
            forall|c2: Column, r2: int|
                !(c2 == c && r2 == row as int) ==> #[trigger] final(self).cell_state(c2, r2)
                    == old(self).cell_state(c2, r2),
    {
        proof {
            lemma_flat_index(c.index as int, row as int, self.schema.n_cols(c.kind) as int, self.rows as int);
        }
        let idx = c.index * self.rows + row;
        match c.kind {
            ColumnKind::Witness => {
                self.witness[idx] = Some(d);
            },
            ColumnKind::Selector => {
                self.selector[idx] = Some(d);
            },
            ColumnKind::Public => {
                self.public[idx] = Some(d);
            },
        }
        proof {
            assert forall|c2: Column, r2: int|
                !(c2 == c && r2 == row as int) implies #[trigger] self.cell_state(c2, r2) == old(
                self,
            ).cell_state(c2, r2) by {
                if c2.kind == c.kind && c2.index < self.schema.n_cols(c2.kind) && 0 <= r2
                    < self.rows as int {
                    lemma_flat_index(
                        c2.index as int,
                        r2,
                        self.schema.n_cols(c2.kind) as int,
                        self.rows as int,
                    );
                    lemma_flat_index(
                        c.index as int,
                        row as int,
                        self.schema.n_cols(c.kind) as int,
                        self.rows as int,
                    );
                    if c2.index as int * (self.rows as int) + r2 == c.index as int * (
                    self.rows as int) + row as int {
                        lemma_flat_index_injective(
                            c2.index as int,
                            r2,
                            c.index as int,
                            row as int,
                            self.rows as int,
                        );
                    }
                }
            }
        }
    }

    /// Assign a deferred value at an offset within a region, returning the
    /// cell handle. A `(column, row)` cell is assigned at most once:
    /// assigning it again is rejected with `AssignmentConflict` and never
    /// silently overwrites. A column outside the schema is rejected with
    /// `SchemaMisuse`. On any error the assembly is left untouched.
    pub fn assign(&mut self, region: RegionHandle, c: Column, offset: usize, d: Deferred) -> (r:
        Result<Cell, CircuitError>)
        requires
            old(self).inv(),
            d.wf(),
            region.start + offset < old(self).rows_spec(),
        ensures
            final(self).inv(),
            final(self).schema_spec() == old(self).schema_spec(),
            final(self).rows_spec() == old(self).rows_spec(),
            final(self).copies_spec() == old(self).copies_spec(),
            final(self).bindings_spec() == old(self).bindings_spec(),
            ({
                let row = region.start + offset;
                if !old(self).schema_spec().in_schema(c) {
                    r == Err::<Cell, CircuitError>(CircuitError::SchemaMisuse) && *final(self)
                        == *old(self)
                } else if old(self).assigned(c, row) {
                    r == Err::<Cell, CircuitError>(CircuitError::AssignmentConflict)
                        && *final(self) == *old(self)
                } else {
                    &&& r == Ok::<Cell, CircuitError>(
                        Cell { column: c, row: (region.start + offset) as usize },
                    )
                    &&& final(self).cell_state(c, row) == Some(d)
                    &&& forall|c2: Column, r2: int|
                        !(c2 == c && r2 == row) ==> #[trigger] final(self).cell_state(c2, r2)
                            == old(self).cell_state(c2, r2)
                    &&& final(self).next_row_spec() == if old(self).next_row_spec() >= row + 1 {
                        old(self).next_row_spec()
                    } else {
                        row + 1
                    }
                }
            }),
    {
        let row = region.start + offset;
        if !self.schema.has_column(c) {
            return Err(CircuitError::SchemaMisuse);
        }
        if self.assigned_at(c, row) {
            return Err(CircuitError::AssignmentConflict);
        }
        self.set_cell(c, row, d);
        let ghost mid = *self;
        if self.next_row < row + 1 {
            self.next_row = row + 1;
        }
        proof {
            grid_preserved_facts(mid, *self);
            assert forall|c2: Column, r2: int|
                !(c2 == c && r2 == row as int) implies #[trigger] self.cell_state(c2, r2) == old(
                self,
            ).cell_state(c2, r2) by {
                assert(mid.cell_state(c2, r2) == old(self).cell_state(c2, r2));
                assert(self.cell_state(c2, r2) == mid.cell_state(c2, r2));
            }
            assert(self.cell_state(c, row as int) == Some(d));
            assert forall|c2: Column, r2: int| #[trigger] self.assigned(c2, r2) implies r2
                < self.next_row_spec() by {
                if !(c2 == c && r2 == row as int) {
                    assert(self.cell_state(c2, r2) == old(self).cell_state(c2, r2));
                    assert(old(self).assigned(c2, r2));
                }
            }
            assert forall|c2: Column, r2: int| 0 <= #[trigger] self.value_at(c2, r2)
                < MODULUS as int by {
                if !(c2 == c && r2 == row as int) {
                    assert(self.cell_state(c2, r2) == old(self).cell_state(c2, r2));
                    assert(0 <= old(self).value_at(c2, r2) < MODULUS as int);
                }
            }
            assert forall|i: int| 0 <= i < self.copies_spec().len() implies {
                &&& self.schema_spec().equality_enabled(
                    (#[trigger] self.copies_spec()[i]).0.column,
                )
                &&& self.schema_spec().equality_enabled(self.copies_spec()[i].1.column)
            } by {
                assert(old(self).schema_spec().equality_enabled(
                    (old(self).copies_spec()[i]).0.column,
                ));
                assert(old(self).schema_spec().equality_enabled(
                    (old(self).copies_spec()[i]).1.column,
                ));
            }
        }
        Ok(Cell { column: c, row })
    }

    /// Record a copy constraint declaring two cells equal. Both columns
    /// must support equality; otherwise the call is rejected with
    /// `ConstraintScopeError` and the assembly is left untouched.
    pub fn constrain_equal(&mut self, a: Cell, b: Cell) -> (r: Result<(), CircuitError>)
        requires
            old(self).inv(),
        ensures
            final(self).inv(),
            same_grid(*final(self), *old(self)),
            if old(self).schema_spec().equality_enabled(a.column) && old(
                self,
            ).schema_spec().equality_enabled(b.column) {
                &&& r == Ok::<(), CircuitError>(())
                &&& final(self).copies_spec() =~= old(self).copies_spec().push((a, b))
                &&& final(self).bindings_spec() == old(self).bindings_spec()
            } else {
                &&& r == Err::<(), CircuitError>(CircuitError::ConstraintScopeError)
                &&& *final(self) == *old(self)
            },
    {
        if !(self.schema.has_equality(a.column) && self.schema.has_equality(b.column)) {
            return Err(CircuitError::ConstraintScopeError);
        }
        self.copies.push((a, b));
        proof {
            grid_preserved_facts(*old(self), *self);
            assert forall|i: int| 0 <= i < self.copies_spec().len() implies {
                &&& self.schema_spec().equality_enabled(
                    (#[trigger] self.copies_spec()[i]).0.column,
                )
                &&& self.schema_spec().equality_enabled(self.copies_spec()[i].1.column)
            } by {
                if i < old(self).copies_spec().len() {
                    assert(old(self).schema_spec().equality_enabled(
                        (old(self).copies_spec()[i]).0.column,
                    ));
                    assert(old(self).schema_spec().equality_enabled(
                        (old(self).copies_spec()[i]).1.column,
                    ));
                } else {
                    assert(self.copies_spec()[i] == (a, b));
                }
            }
        }
        Ok(())
    }

    /// Record a public-exposure binding: the cell's grid value must equal
    /// the public-input value at the given row. The exposing column must be
    /// of the public kind and present in the schema; otherwise the call is
    /// rejected with `ConstraintScopeError` and the assembly is untouched.
    pub fn constrain_to_instance(&mut self, cell: Cell, instance_col: Column, public_row: usize)
        -> (r: Result<(), CircuitError>)
        requires
            old(self).inv(),
        ensures
            final(self).inv(),
            same_grid(*final(self), *old(self)),
            if instance_col.kind == ColumnKind::Public && old(self).schema_spec().in_schema(
                instance_col,
            ) {
                &&& r == Ok::<(), CircuitError>(())
                &&& final(self).bindings_spec() =~= old(self).bindings_spec().push(
                    (cell, public_row),
                )
                &&& final(self).copies_spec() == old(self).copies_spec()
            } else {
                &&& r == Err::<(), CircuitError>(CircuitError::ConstraintScopeError)
                &&& *final(self) == *old(self)
            },
    {
        let is_public = match instance_col.kind {
            ColumnKind::Public => true,
            _ => false,
        };
        if !(is_public && self.schema.has_column(instance_col)) {
            return Err(CircuitError::ConstraintScopeError);
        }
        self.bindings.push((cell, public_row));
        proof {
            grid_preserved_facts(*old(self), *self);
            assert forall|i: int| 0 <= i < self.copies_spec().len() implies {
                &&& self.schema_spec().equality_enabled(
                    (#[trigger] self.copies_spec()[i]).0.column,
                )
                &&& self.schema_spec().equality_enabled(self.copies_spec()[i].1.column)
            } by {
                assert(old(self).schema_spec().equality_enabled(
                    (old(self).copies_spec()[i]).0.column,
                ));
                assert(old(self).schema_spec().equality_enabled(
                    (old(self).copies_spec()[i]).1.column,
                ));
            }
        }
        Ok(())
    }

    /// The number of rows of the grid.
    pub fn num_rows(&self) -> (n: usize)
        ensures
            n == self.rows_spec(),
    {
        self.rows
    }

    /// The first row no region has allocated yet.
    pub fn next_free_row(&self) -> (n: usize)
        ensures
            n == self.next_row_spec(),
    {
        self.next_row
    }

    /// The schema this pass synthesizes against.
    pub fn schema_ref(&self) -> (s: &Schema)
        ensures
            *s == self.schema_spec(),
    {
        &self.schema
    }

    /// How many copy constraints were recorded.
    pub fn num_copies(&self) -> (n: usize)
        ensures
            n == self.copies_spec().len(),
    {
        self.copies.len()
    }

    /// The copy constraint at a position, in issue order.
    pub fn copy_at(&self, i: usize) -> (p: (Cell, Cell))
        requires
            i < self.copies_spec().len(),
        ensures
            p == self.copies_spec()[i as int],
    {
        self.copies[i]
    }

    /// How many public-exposure bindings were recorded.
    pub fn num_bindings(&self) -> (n: usize)
        ensures
            n == self.bindings_spec().len(),
    {
        self.bindings.len()
    }

    /// The public-exposure binding at a position, in issue order.
    pub fn binding_at(&self, i: usize) -> (b: (Cell, usize))
        requires
            i < self.bindings_spec().len(),
        ensures
            b == self.bindings_spec()[i as int],
    {
        self.bindings[i]
    }
}

/// Both assemblies share banks, schema, rows and row counter: they agree
/// on every grid observer.
proof fn grid_preserved_facts(a: Synthesizer, b: Synthesizer)
    requires
        a.schema == b.schema,
        a.rows == b.rows,
        a.witness == b.witness,
        a.selector == b.selector,
        a.public == b.public,
    ensures
        forall|c: Column, r: int| #[trigger] b.cell_state(c, r) == a.cell_state(c, r),
        forall|c: Column, r: int| #[trigger] b.assigned(c, r) == a.assigned(c, r),
        forall|c: Column, r: int| #[trigger] b.value_at(c, r) == a.value_at(c, r),
{
    assert forall|c: Column, r: int| #[trigger] b.cell_state(c, r) == a.cell_state(c, r) by {}
    assert forall|c: Column, r: int| #[trigger] b.assigned(c, r) == a.assigned(c, r) by {
        assert(b.cell_state(c, r) == a.cell_state(c, r));
    }
    assert forall|c: Column, r: int| #[trigger] b.value_at(c, r) == a.value_at(c, r) by {
        assert(b.cell_state(c, r) == a.cell_state(c, r));
    }
}

/// Two assemblies agree on everything a gate or binding can read: schema,
/// row bounds, row counter and every grid position.
pub open spec fn same_grid(a: Synthesizer, b: Synthesizer) -> bool {
    &&& a.schema_spec() == b.schema_spec()
    &&& a.rows_spec() == b.rows_spec()
    &&& a.next_row_spec() == b.next_row_spec()
    &&& forall|c: Column, r: int| #[trigger] a.cell_state(c, r) == b.cell_state(c, r)
}

/// The row count of a grid with a `k`-bit grid-size parameter: `2^k` rows.
pub fn grid_rows(k: usize) -> (r: usize)
    requires
        k <= 29,
    ensures
        r == vstd::arithmetic::power2::pow2(k as nat),
        1 <= r <= 0x2000_0000,
{
    proof {
        vstd::arithmetic::power2::lemma2_to64();
    }
    let mut r: usize = 1;
    let mut i: usize = 0;
    while i < k
        invariant
            i <= k,
            k <= 29,
            r == vstd::arithmetic::power2::pow2(i as nat),
            r <= 0x2000_0000,
        decreases k - i,
    {
        proof {
            vstd::arithmetic::power2::lemma2_to64();
            vstd::arithmetic::power2::lemma_pow2_adds(i as nat, 1);
            if i + 1 < 29 {
                vstd::arithmetic::power2::lemma_pow2_strictly_increases((i + 1) as nat, 29);
            }
        }
        r = r * 2;
        i += 1;
    }
    r
}

/// A fully unassigned bank of grid cells.
fn make_bank(total: usize) -> (v: Vec<Option<Deferred>>)
    ensures
        v@.len() == total,
        forall|i: int| 0 <= i < total ==> #[trigger] v@[i] is None,
{
    let mut v: Vec<Option<Deferred>> = Vec::new();
    while v.len() < total
        invariant
            v@.len() <= total,
            forall|i: int| 0 <= i < v@.len() ==> #[trigger] v@[i] is None,
        decreases total - v@.len(),
    {
        v.push(None);
    }
    v
}

} // verus!
