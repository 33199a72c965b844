//! The single-purpose composer: one selector column drives a combined
//! multiply gate realizing `s * (a*b - c)`, with operands copied into the
//! multiply row through copy constraints, together with the circuit that
//! checks `a * b = c` against the first public input.

use vstd::prelude::*;
use crate::backend;
use crate::backend::{gate_value, satisfied};
use crate::deferred::{dknown, dval, Deferred};
use crate::errors::CircuitError;
use crate::felt::{fmul, Felt, MODULUS};
use crate::schema::{Column, ColumnKind, Gate, Schema};
use crate::synthesis::{grid_rows, same_grid, Cell, Synthesizer};

verus! {

/// The columns of the single-purpose composer: three witness columns, one
/// selector column and the public-input column.
#[derive(Clone, Copy, PartialEq, Eq, Structural, Debug)]
pub struct TestConfig {
    pub a: Column,
    pub b: Column,
    pub c: Column,
    pub s: Column,
    pub instance: Column,
}

/// The configuration names distinct schema columns of the right kinds,
/// with equality support where cells are copied or exposed.
pub open spec fn test_cfg_wf(cfg: TestConfig, sch: Schema) -> bool {
    &&& cfg.a.kind == ColumnKind::Witness && sch.in_schema(cfg.a)
    &&& cfg.b.kind == ColumnKind::Witness && sch.in_schema(cfg.b)
    &&& cfg.c.kind == ColumnKind::Witness && sch.in_schema(cfg.c)
    &&& cfg.s.kind == ColumnKind::Selector && sch.in_schema(cfg.s)
    &&& cfg.instance.kind == ColumnKind::Public && sch.in_schema(cfg.instance)
    &&& cfg.a.index != cfg.b.index && cfg.a.index != cfg.c.index && cfg.b.index != cfg.c.index
    &&& sch.equality_enabled(cfg.a)
    &&& sch.equality_enabled(cfg.b)
    &&& sch.equality_enabled(cfg.c)
    &&& sch.equality_enabled(cfg.instance)
}

/// Whether a gate is the combined multiply gate over this configuration:
/// one selector column drives both the multiply and the output term, so
/// the identity is `s*(a*b) - s*c`, which vanishes exactly where
/// `s*(a*b - c)` does.
pub open spec fn is_mul_gate(g: Gate, cfg: TestConfig) -> bool {
    &&& g.l == cfg.a
    &&& g.r == cfg.b
    &&& g.o == cfg.c
    &&& g.sl is None
    &&& g.sr is None
    &&& g.sm == Some(cfg.s)
    &&& g.so == Some(cfg.s)
    &&& g.sc is None
}

/// A cell handle together with the deferred value stored at it.
#[derive(Clone, Copy, PartialEq, Eq, Structural, Debug)]
pub struct AssignedCell {
    pub cell: Cell,
    pub value: Deferred,
}

/// The grid positions one multiply row writes.
pub open spec fn mul_touched(cfg: TestConfig, row: int, c2: Column, r2: int) -> bool {
    r2 == row && (c2 == cfg.s || c2 == cfg.a || c2 == cfg.b || c2 == cfg.c)
}

/// The single-purpose composer chip over a configured schema.
pub struct TestChip {
    pub config: TestConfig,
}

impl TestChip {
    pub fn new(config: TestConfig) -> (chip: TestChip)
        ensures
            chip.config == config,
    {
        TestChip { config }
    }

    /// The configuration the chip drives.
    pub fn config(&self) -> (c: &TestConfig)
        ensures
            *c == self.config,
    {
        &self.config
    }

    /// Load one private value into a fresh row of the first witness
    /// column and hand back the assigned cell.
    pub fn load_private(&self, syn: &mut Synthesizer, v: Deferred) -> (r: Result<
        AssignedCell,
        CircuitError,
    >)
        requires
            old(syn).inv(),
            test_cfg_wf(self.config, old(syn).schema_spec()),
            old(syn).next_row_spec() < old(syn).rows_spec(),
            v.wf(),
        ensures
            final(syn).inv(),
            ({
                let row = old(syn).next_row_spec();
                &&& r == Ok::<AssignedCell, CircuitError>(
                    AssignedCell {
                        cell: Cell { column: self.config.a, row: row as usize },
                        value: v,
                    },
                )
                &&& final(syn).schema_spec() == old(syn).schema_spec()
                &&& final(syn).rows_spec() == old(syn).rows_spec()
                &&& final(syn).next_row_spec() == row + 1
                &&& final(syn).copies_spec() == old(syn).copies_spec()
                &&& final(syn).bindings_spec() == old(syn).bindings_spec()
                &&& final(syn).cell_state(self.config.a, row) == Some(v)
                &&& forall|c2: Column, r2: int|
                    !(c2 == self.config.a && r2 == row) ==> #[trigger] final(syn).cell_state(
                        c2,
                        r2,
                    ) == old(syn).cell_state(c2, r2)
            }),
    {
        let ghost s0 = *syn;
        let region = syn.open_region("load private");
        proof {
            assert(s0.schema_spec().in_schema(self.config.a));
            assert(!s0.assigned(self.config.a, region.start + 0));
        }
        let cell = match syn.assign(region, self.config.a, 0, v) {
            Ok(c) => c,
            Err(e) => {
                proof {
                    assert(false);
                }
                return Err(e);
            },
        };
        Ok(AssignedCell { cell, value: v })
    }

    /// Open one multiply row: activate the selector, copy both operands
    /// into the row through the copy-constraint path, and store the
    /// product, computed once, in the output column.
    pub fn mul(&self, syn: &mut Synthesizer, x: AssignedCell, y: AssignedCell) -> (r: Result<
        AssignedCell,
        CircuitError,
    >)
        requires
            old(syn).inv(),
            test_cfg_wf(self.config, old(syn).schema_spec()),
            old(syn).next_row_spec() < old(syn).rows_spec(),
            x.value.wf(),
            y.value.wf(),
            old(syn).schema_spec().equality_enabled(x.cell.column),
            old(syn).schema_spec().equality_enabled(y.cell.column),
        ensures
            final(syn).inv(),
            ({
                let row = old(syn).next_row_spec();
                let a_cell = Cell { column: self.config.a, row: row as usize };
                let b_cell = Cell { column: self.config.b, row: row as usize };
                &&& r is Ok
                &&& (r matches Ok(out) ==> {
                    &&& out.cell == Cell { column: self.config.c, row: row as usize }
                    &&& out.value.wf()
                    &&& dknown(out.value) == (dknown(x.value) && dknown(y.value))
                    &&& (dknown(out.value) ==> dval(out.value) == fmul(
                        dval(x.value),
                        dval(y.value),
                    ))
                    &&& final(syn).cell_state(self.config.c, row) == Some(out.value)
                })
                &&& final(syn).schema_spec() == old(syn).schema_spec()
                &&& final(syn).rows_spec() == old(syn).rows_spec()
                &&& final(syn).next_row_spec() == row + 1
                &&& final(syn).copies_spec() =~= old(syn).copies_spec().push(
                    (x.cell, a_cell),
                ).push((y.cell, b_cell))
                &&& final(syn).bindings_spec() == old(syn).bindings_spec()
                &&& final(syn).cell_state(self.config.a, row) == Some(x.value)
                &&& final(syn).cell_state(self.config.b, row) == Some(y.value)
                &&& final(syn).value_at(self.config.s, row) == 1
                &&& final(syn).value_at(self.config.a, row) == dval(x.value)
                &&& final(syn).value_at(self.config.b, row) == dval(y.value)
                &&& final(syn).value_at(self.config.c, row) == (if dknown(x.value) && dknown(
                    y.value,
                ) {
                    fmul(dval(x.value), dval(y.value))
                } else {
                    0
                })
                &&& forall|c2: Column, r2: int|
                    !mul_touched(self.config, row, c2, r2) ==> #[trigger] final(syn).cell_state(
                        c2,
                        r2,
                    ) == old(syn).cell_state(c2, r2)
            }),
    {
        let cfg = self.config;
        let ghost s0 = *syn;
        let region = syn.open_region("mul");
        let ghost row = s0.next_row_spec();
        let one = Deferred::Known(Felt::one());
        proof {
            assert(s0.schema_spec().in_schema(cfg.s));
            assert(!s0.assigned(cfg.s, region.start + 0));
        }
        let _ = match syn.assign(region, cfg.s, 0, one) {
            Ok(c) => c,
            Err(e) => {
                proof {
                    assert(false);
                }
                return Err(e);
            },
        };
        let ghost m1 = *syn;
        proof {
            assert(m1.cell_state(cfg.a, row) == s0.cell_state(cfg.a, row));
            assert(!s0.assigned(cfg.a, row));
            assert(m1.schema_spec().in_schema(cfg.a));
            assert(!m1.assigned(cfg.a, region.start + 0));
        }
        let a_cell = match syn.assign(region, cfg.a, 0, x.value) {
            Ok(c) => c,
            Err(e) => {
                proof {
                    assert(false);
                }
                return Err(e);
            },
        };
        let ghost m2 = *syn;
        proof {
            assert(m2.schema_spec() == s0.schema_spec());
            assert(m2.schema_spec().equality_enabled(x.cell.column));
            assert(m2.schema_spec().equality_enabled(a_cell.column));
        }
        match syn.constrain_equal(x.cell, a_cell) {
            Ok(_) => {},
            Err(e) => {
                proof {
                    assert(false);
                }
                return Err(e);
            },
        }
        let ghost m3 = *syn;
        proof {
            assert(m3.cell_state(cfg.b, row) == m2.cell_state(cfg.b, row));
            assert(m2.cell_state(cfg.b, row) == m1.cell_state(cfg.b, row));
            assert(m1.cell_state(cfg.b, row) == s0.cell_state(cfg.b, row));
            assert(!s0.assigned(cfg.b, row));
            assert(m3.schema_spec().in_schema(cfg.b));
            assert(!m3.assigned(cfg.b, region.start + 0));
        }
        let b_cell = match syn.assign(region, cfg.b, 0, y.value) {
            Ok(c) => c,
            Err(e) => {
                proof {
                    assert(false);
                }
                return Err(e);
            },
        };
        let ghost m4 = *syn;
        proof {
            assert(m4.schema_spec() == s0.schema_spec());
            assert(m4.schema_spec().equality_enabled(y.cell.column));
            assert(m4.schema_spec().equality_enabled(b_cell.column));
        }
        match syn.constrain_equal(y.cell, b_cell) {
            Ok(_) => {},
            Err(e) => {
                proof {
                    assert(false);
                }
                return Err(e);
            },
        }
        let ghost m5 = *syn;
        let val = x.value.mul(y.value);
        proof {
            assert(m5.cell_state(cfg.c, row) == m4.cell_state(cfg.c, row));
            assert(m4.cell_state(cfg.c, row) == m3.cell_state(cfg.c, row));
            assert(m3.cell_state(cfg.c, row) == m2.cell_state(cfg.c, row));
            assert(m2.cell_state(cfg.c, row) == m1.cell_state(cfg.c, row));
            assert(m1.cell_state(cfg.c, row) == s0.cell_state(cfg.c, row));
            assert(!s0.assigned(cfg.c, row));
            assert(m5.schema_spec().in_schema(cfg.c));
            assert(!m5.assigned(cfg.c, region.start + 0));
        }
        let c_cell = match syn.assign(region, cfg.c, 0, val) {
            Ok(c) => c,
            Err(e) => {
                proof {
                    assert(false);
                }
                return Err(e);
            },
        };
        proof {
            assert forall|c2: Column, r2: int|
                !mul_touched(cfg, row, c2, r2) implies #[trigger] syn.cell_state(c2, r2)
                == s0.cell_state(c2, r2) by {
                assert(syn.cell_state(c2, r2) == m5.cell_state(c2, r2));
                assert(m5.cell_state(c2, r2) == m4.cell_state(c2, r2));
                assert(m4.cell_state(c2, r2) == m3.cell_state(c2, r2));
                assert(m3.cell_state(c2, r2) == m2.cell_state(c2, r2));
                assert(m2.cell_state(c2, r2) == m1.cell_state(c2, r2));
                assert(m1.cell_state(c2, r2) == s0.cell_state(c2, r2));
            }
            assert(syn.cell_state(cfg.s, row) == Some(one)) by {
                assert(syn.cell_state(cfg.s, row) == m5.cell_state(cfg.s, row));
                assert(m5.cell_state(cfg.s, row) == m4.cell_state(cfg.s, row));
                assert(m4.cell_state(cfg.s, row) == m3.cell_state(cfg.s, row));
                assert(m3.cell_state(cfg.s, row) == m2.cell_state(cfg.s, row));
                assert(m2.cell_state(cfg.s, row) == m1.cell_state(cfg.s, row));
            }
            assert(syn.cell_state(cfg.a, row) == Some(x.value)) by {
                assert(syn.cell_state(cfg.a, row) == m5.cell_state(cfg.a, row));
                assert(m5.cell_state(cfg.a, row) == m4.cell_state(cfg.a, row));
                assert(m4.cell_state(cfg.a, row) == m3.cell_state(cfg.a, row));
                assert(m3.cell_state(cfg.a, row) == m2.cell_state(cfg.a, row));
            }
            assert(syn.cell_state(cfg.b, row) == Some(y.value)) by {
                assert(syn.cell_state(cfg.b, row) == m5.cell_state(cfg.b, row));
                assert(m5.cell_state(cfg.b, row) == m4.cell_state(cfg.b, row));
            }
            assert(syn.cell_state(cfg.c, row) == Some(val));
        }
        Ok(AssignedCell { cell: c_cell, value: val })
    }

    /// Declare two already-assigned cells equal through a direct copy
    /// constraint; no new cell is allocated. Rejected with
    /// `ConstraintScopeError` when either column lacks equality support.
    pub fn constrain_equal(&self, syn: &mut Synthesizer, x: AssignedCell, y: AssignedCell) -> (r:
        Result<(), CircuitError>)
        requires
            old(syn).inv(),
        ensures
            final(syn).inv(),
            same_grid(*final(syn), *old(syn)),
            if old(syn).schema_spec().equality_enabled(x.cell.column) && old(
                syn,
            ).schema_spec().equality_enabled(y.cell.column) {
                &&& r == Ok::<(), CircuitError>(())
                &&& final(syn).copies_spec() =~= old(syn).copies_spec().push((x.cell, y.cell))
                &&& final(syn).bindings_spec() == old(syn).bindings_spec()
            } else {
                &&& r == Err::<(), CircuitError>(CircuitError::ConstraintScopeError)
                &&& *final(syn) == *old(syn)
            },
    {
        syn.constrain_equal(x.cell, y.cell)
    }

    /// Bind an assigned cell to a row of the public-input vector.
    pub fn expose_public(&self, syn: &mut Synthesizer, v: AssignedCell, row: usize) -> (r: Result<
        (),
        CircuitError,
    >)
        requires
            old(syn).inv(),
            test_cfg_wf(self.config, old(syn).schema_spec()),
        ensures
            final(syn).inv(),
            r == Ok::<(), CircuitError>(()),
            same_grid(*final(syn), *old(syn)),
            final(syn).bindings_spec() =~= old(syn).bindings_spec().push((v.cell, row)),
            final(syn).copies_spec() == old(syn).copies_spec(),
    {
        proof {
            assert(self.config.instance.kind == ColumnKind::Public);
            assert(old(syn).schema_spec().in_schema(self.config.instance));
        }
        match syn.constrain_to_instance(v.cell, self.config.instance, row) {
            Ok(_) => Ok(()),
            Err(e) => {
                proof {
                    assert(false);
                }
                Err(e)
            },
        }
    }
}


/// The concrete column layout `configure` produces on a fresh schema.
pub open spec fn test_config() -> TestConfig {
    TestConfig {
        a: Column { kind: ColumnKind::Witness, index: 0 },
        b: Column { kind: ColumnKind::Witness, index: 1 },
        c: Column { kind: ColumnKind::Witness, index: 2 },
        s: Column { kind: ColumnKind::Selector, index: 0 },
        instance: Column { kind: ColumnKind::Public, index: 0 },
    }
}

/// The grid positions one full synthesis pass of the circuit writes,
/// relative to its first row.
pub open spec fn circuit_touched(cfg: TestConfig, base: int, c2: Column, r2: int) -> bool {
    ||| (c2 == cfg.a && r2 == base)
    ||| (c2 == cfg.a && r2 == base + 1)
    ||| mul_touched(cfg, base + 2, c2, r2)
    ||| (c2 == cfg.c && r2 == base + 3)
}

/// The circuit checking that the product of two private values equals the
/// claimed private output, which is exposed as the first public input.
pub struct TestCircuit {
    a: Deferred,
    b: Deferred,
    c: Deferred,
}

impl TestCircuit {
    /// The left factor.
    pub closed spec fn a_spec(self) -> Deferred {
        self.a
    }

    /// The right factor.
    pub closed spec fn b_spec(self) -> Deferred {
        self.b
    }

    /// The claimed product.
    pub closed spec fn c_spec(self) -> Deferred {
        self.c
    }

    /// The inputs the circuit holds are well formed.
    pub open spec fn wf(self) -> bool {
        &&& self.a_spec().wf()
        &&& self.b_spec().wf()
        &&& self.c_spec().wf()
    }

    pub fn new(a: Deferred, b: Deferred, c: Deferred) -> (circuit: TestCircuit)
        ensures
            circuit.a_spec() == a,
            circuit.b_spec() == b,
            circuit.c_spec() == c,
    {
        TestCircuit { a, b, c }
    }

    /// Schema derivation: an equivalent circuit with every private input
    /// replaced by `Unknown`, for passes that only need the shape.
    pub fn without_witnesses(&self) -> (circuit: TestCircuit)
        ensures
            !dknown(circuit.a_spec()),
            !dknown(circuit.b_spec()),
            !dknown(circuit.c_spec()),
            circuit.wf(),
    {
        TestCircuit { a: Deferred::Unknown, b: Deferred::Unknown, c: Deferred::Unknown }
    }

    /// Schema phase on a fresh registry: allocate the witness, selector
    /// and public columns, switch on equality where cells are copied or
    /// exposed, and define the combined multiply gate.
    pub fn configure(schema: &mut Schema) -> (r: Result<TestConfig, CircuitError>)
        requires
            old(schema).inv(),
            !old(schema).is_finalized(),
            forall|k2: ColumnKind| old(schema).n_cols(k2) == 0,
            old(schema).gates_spec().len() == 0,
        ensures
            final(schema).inv(),
            !final(schema).is_finalized(),
            r == Ok::<TestConfig, CircuitError>(test_config()),
            test_cfg_wf(test_config(), *final(schema)),
            final(schema).n_cols(ColumnKind::Witness) == 3,
            final(schema).n_cols(ColumnKind::Selector) == 1,
            final(schema).n_cols(ColumnKind::Public) == 1,
            final(schema).gates_spec().len() == 1,
            is_mul_gate(final(schema).gates_spec()[0], test_config()),
            final(schema).gates_spec()[0].name@ == "a*b=c"@,
            forall|c2: Column|
                #[trigger] final(schema).equality_enabled(c2) == (c2 == test_config().a || c2
                    == test_config().b || c2 == test_config().c || c2 == test_config().instance),
    {
        let ghost g0 = *schema;
        let a = match schema.allocate_column(ColumnKind::Witness) {
            Ok(col) => col,
            Err(e) => {
                proof {
                    assert(false);
                }
                return Err(e);
            },
        };
        let ghost g1 = *schema;
        let b = match schema.allocate_column(ColumnKind::Witness) {
            Ok(col) => col,
            Err(e) => {
                proof {
                    assert(false);
                }
                return Err(e);
            },
        };
        let ghost g2 = *schema;
        let c = match schema.allocate_column(ColumnKind::Witness) {
            Ok(col) => col,
            Err(e) => {
                proof {
                    assert(false);
                }
                return Err(e);
            },
        };
        let ghost g3 = *schema;
        proof {
            assert(g3.in_schema(a));
        }
        match schema.enable_equality(a) {
            Ok(_) => {},
            Err(e) => {
                proof {
                    assert(false);
                }
                return Err(e);
            },
        }
        let ghost g4 = *schema;
        proof {
            assert(g4.in_schema(b));
        }
        match schema.enable_equality(b) {
            Ok(_) => {},
            Err(e) => {
                proof {
                    assert(false);
                }
                return Err(e);
            },
        }
        let ghost g5 = *schema;
        proof {
            assert(g5.in_schema(c));
        }
        match schema.enable_equality(c) {
            Ok(_) => {},
            Err(e) => {
                proof {
                    assert(false);
                }
                return Err(e);
            },
        }
        let ghost g6 = *schema;
        let s = match schema.allocate_column(ColumnKind::Selector) {
            Ok(col) => col,
            Err(e) => {
                proof {
                    assert(false);
                }
                return Err(e);
            },
        };
        let ghost g7 = *schema;
        let instance = match schema.allocate_column(ColumnKind::Public) {
            Ok(col) => col,
            Err(e) => {
                proof {
                    assert(false);
                }
                return Err(e);
            },
        };
        let ghost g8 = *schema;
        proof {
            assert(g8.in_schema(instance));
        }
        match schema.enable_equality(instance) {
            Ok(_) => {},
            Err(e) => {
                proof {
                    assert(false);
                }
                return Err(e);
            },
        }
        let ghost g9 = *schema;
        let gate_name = "a*b=c".to_string();
        proof {
            vstd::string::to_string_from_display_ensures_for_str("a*b=c", gate_name);
        }
        let gate = Gate {
            name: gate_name,
            l: a,
            r: b,
            o: c,
            sl: None,
            sr: None,
            sm: Some(s),
            so: Some(s),
            sc: None,
        };
        proof {
            assert(g9.gate_wf(gate));
        }
        match schema.define_gate(gate) {
            Ok(_) => {},
            Err(e) => {
                proof {
                    assert(false);
                }
                return Err(e);
            },
        }
        proof {
            let cfg = test_config();
            assert(a == cfg.a && b == cfg.b && c == cfg.c && s == cfg.s && instance
                == cfg.instance);
            assert forall|c2: Column|
                #[trigger] schema.equality_enabled(c2) == (c2 == cfg.a || c2 == cfg.b || c2
                    == cfg.c || c2 == cfg.instance) by {
                assert(g1.equality_enabled(c2) == g0.equality_enabled(c2));
                assert(g2.equality_enabled(c2) == g1.equality_enabled(c2));
                assert(g3.equality_enabled(c2) == g2.equality_enabled(c2));
                assert(g4.equality_enabled(c2) == (g3.equality_enabled(c2) || c2 == a));
                assert(g5.equality_enabled(c2) == (g4.equality_enabled(c2) || c2 == b));
                assert(g6.equality_enabled(c2) == (g5.equality_enabled(c2) || c2 == c));
                assert(g7.equality_enabled(c2) == g6.equality_enabled(c2));
                assert(g8.equality_enabled(c2) == g7.equality_enabled(c2));
                assert(g9.equality_enabled(c2) == (g8.equality_enabled(c2) || c2 == instance));
                assert(schema.equality_enabled(c2) == g9.equality_enabled(c2));
                assert(!g0.equality_enabled(c2));
            }
        }
        Ok(TestConfig { a, b, c, s, instance })
    }

    /// Synthesis: one forward pass in call order. Both factors are loaded
    /// on their own rows, multiplied on the selector row, the claimed
    /// product is loaded and constrained equal to the computed one, and
    /// then bound to row 0 of the public-input vector.
    pub fn synthesize(&self, config: TestConfig, syn: &mut Synthesizer) -> (r: Result<
        (),
        CircuitError,
    >)
        requires
            old(syn).inv(),
            test_cfg_wf(config, old(syn).schema_spec()),
            old(syn).next_row_spec() + 4 <= old(syn).rows_spec(),
            self.wf(),
        ensures
            final(syn).inv(),
            r == Ok::<(), CircuitError>(()),
            final(syn).schema_spec() == old(syn).schema_spec(),
            final(syn).rows_spec() == old(syn).rows_spec(),
            final(syn).next_row_spec() == old(syn).next_row_spec() + 4,
            ({
                let base = old(syn).next_row_spec();
                let a0 = Cell { column: config.a, row: base as usize };
                let a1 = Cell { column: config.a, row: (base + 1) as usize };
                let am = Cell { column: config.a, row: (base + 2) as usize };
                let bm = Cell { column: config.b, row: (base + 2) as usize };
                let cm = Cell { column: config.c, row: (base + 2) as usize };
                let cl = Cell { column: config.c, row: (base + 3) as usize };
                &&& final(syn).copies_spec() =~= old(syn).copies_spec().push((a0, am)).push(
                    (a1, bm),
                ).push((cm, cl))
                &&& final(syn).bindings_spec() =~= old(syn).bindings_spec().push((cl, 0usize))
                &&& final(syn).value_at(config.a, base) == dval(self.a_spec())
                &&& final(syn).value_at(config.a, base + 1) == dval(self.b_spec())
                &&& final(syn).value_at(config.s, base + 2) == 1
                &&& final(syn).value_at(config.a, base + 2) == dval(self.a_spec())
                &&& final(syn).value_at(config.b, base + 2) == dval(self.b_spec())
                &&& final(syn).value_at(config.c, base + 2) == (if dknown(self.a_spec())
                    && dknown(self.b_spec()) {
                    fmul(dval(self.a_spec()), dval(self.b_spec()))
                } else {
                    0
                })
                &&& final(syn).cell_state(config.c, base + 3) == Some(self.c_spec())
                &&& forall|c2: Column, r2: int|
                    !circuit_touched(config, base, c2, r2) ==> #[trigger] final(syn).cell_state(
                        c2,
                        r2,
                    ) == old(syn).cell_state(c2, r2)
            }),
    {
        let chip = TestChip::new(config);
        let ghost t0 = *syn;
        let ghost base = t0.next_row_spec();
        let av = match chip.load_private(syn, self.a) {
            Ok(v) => v,
            Err(e) => {
                proof {
                    assert(false);
                }
                return Err(e);
            },
        };
        let ghost t1 = *syn;
        proof {
            assert(t1.schema_spec() == t0.schema_spec());
        }
        let bv = match chip.load_private(syn, self.b) {
            Ok(v) => v,
            Err(e) => {
                proof {
                    assert(false);
                }
                return Err(e);
            },
        };
        let ghost t2 = *syn;
        proof {
            assert(t2.schema_spec() == t0.schema_spec());
            assert(t2.schema_spec().equality_enabled(av.cell.column));
            assert(t2.schema_spec().equality_enabled(bv.cell.column));
        }
        let out = match chip.mul(syn, av, bv) {
            Ok(v) => v,
            Err(e) => {
                proof {
                    assert(false);
                }
                return Err(e);
            },
        };
        let ghost t3 = *syn;
        let region = syn.open_region("load c");
        proof {
            assert(t3.schema_spec() == t0.schema_spec());
            assert(t3.schema_spec().in_schema(config.c));
            assert(!t3.assigned(config.c, region.start + 0));
        }
        let c_cell = match syn.assign(region, config.c, 0, self.c) {
            Ok(cc) => cc,
            Err(e) => {
                proof {
                    assert(false);
                }
                return Err(e);
            },
        };
        let c_loaded = AssignedCell { cell: c_cell, value: self.c };
        let ghost t4 = *syn;
        proof {
            assert(t4.schema_spec() == t0.schema_spec());
            assert(t4.schema_spec().equality_enabled(out.cell.column));
            assert(t4.schema_spec().equality_enabled(c_loaded.cell.column));
        }
        match chip.constrain_equal(syn, out, c_loaded) {
            Ok(_) => {},
            Err(e) => {
                proof {
                    assert(false);
                }
                return Err(e);
            },
        }
        let ghost t5 = *syn;
        proof {
            assert(t5.schema_spec() == t0.schema_spec());
        }
        match chip.expose_public(syn, c_loaded, 0) {
            Ok(_) => {},
            Err(e) => {
                proof {
                    assert(false);
                }
                return Err(e);
            },
        }
        proof {
            assert forall|c2: Column, r2: int|
                !circuit_touched(config, base, c2, r2) implies #[trigger] syn.cell_state(c2, r2)
                == t0.cell_state(c2, r2) by {
                assert(syn.cell_state(c2, r2) == t5.cell_state(c2, r2));
                assert(t5.cell_state(c2, r2) == t4.cell_state(c2, r2));
                assert(t4.cell_state(c2, r2) == t3.cell_state(c2, r2));
                assert(t3.cell_state(c2, r2) == t2.cell_state(c2, r2));
                assert(t2.cell_state(c2, r2) == t1.cell_state(c2, r2));
                assert(t1.cell_state(c2, r2) == t0.cell_state(c2, r2));
            }
            assert(syn.cell_state(config.a, base) == t1.cell_state(config.a, base)) by {
                assert(syn.cell_state(config.a, base) == t5.cell_state(config.a, base));
                assert(t5.cell_state(config.a, base) == t4.cell_state(config.a, base));
                assert(t4.cell_state(config.a, base) == t3.cell_state(config.a, base));
                assert(t3.cell_state(config.a, base) == t2.cell_state(config.a, base));
                assert(t2.cell_state(config.a, base) == t1.cell_state(config.a, base));
            }
            assert(syn.cell_state(config.a, base + 1) == t2.cell_state(config.a, base + 1)) by {
                assert(syn.cell_state(config.a, base + 1) == t5.cell_state(config.a, base + 1));
                assert(t5.cell_state(config.a, base + 1) == t4.cell_state(config.a, base + 1));
                assert(t4.cell_state(config.a, base + 1) == t3.cell_state(config.a, base + 1));
                assert(t3.cell_state(config.a, base + 1) == t2.cell_state(config.a, base + 1));
            }
            assert(syn.cell_state(config.s, base + 2) == t3.cell_state(config.s, base + 2)) by {
                assert(syn.cell_state(config.s, base + 2) == t5.cell_state(config.s, base + 2));
                assert(t5.cell_state(config.s, base + 2) == t4.cell_state(config.s, base + 2));
                assert(t4.cell_state(config.s, base + 2) == t3.cell_state(config.s, base + 2));
            }
            assert(syn.cell_state(config.a, base + 2) == t3.cell_state(config.a, base + 2)) by {
                assert(syn.cell_state(config.a, base + 2) == t5.cell_state(config.a, base + 2));
                assert(t5.cell_state(config.a, base + 2) == t4.cell_state(config.a, base + 2));
                assert(t4.cell_state(config.a, base + 2) == t3.cell_state(config.a, base + 2));
            }
            assert(syn.cell_state(config.b, base + 2) == t3.cell_state(config.b, base + 2)) by {
                assert(syn.cell_state(config.b, base + 2) == t5.cell_state(config.b, base + 2));
                assert(t5.cell_state(config.b, base + 2) == t4.cell_state(config.b, base + 2));
                assert(t4.cell_state(config.b, base + 2) == t3.cell_state(config.b, base + 2));
            }
            assert(syn.cell_state(config.c, base + 2) == t3.cell_state(config.c, base + 2)) by {
                assert(syn.cell_state(config.c, base + 2) == t5.cell_state(config.c, base + 2));
                assert(t5.cell_state(config.c, base + 2) == t4.cell_state(config.c, base + 2));
                assert(t4.cell_state(config.c, base + 2) == t3.cell_state(config.c, base + 2));
            }
            assert(syn.cell_state(config.c, base + 3) == Some(self.c_spec())) by {
                assert(syn.cell_state(config.c, base + 3) == t5.cell_state(config.c, base + 3));
                assert(t5.cell_state(config.c, base + 3) == t4.cell_state(config.c, base + 3));
            }
        }
        Ok(())
    }
}

impl Default for TestCircuit {
    /// The schema-only form of the circuit: every input `Unknown`.
    fn default() -> (circuit: Self)
        ensures
            !dknown(circuit.a_spec()),
            !dknown(circuit.b_spec()),
            !dknown(circuit.c_spec()),
            circuit.wf(),
    {
        TestCircuit { a: Deferred::Unknown, b: Deferred::Unknown, c: Deferred::Unknown }
    }
}


/// Submit the `a * b = c` circuit to the backend model: synthesize with
/// the three private inputs on a `k`-bit grid and check the finished
/// assembly against the public-input vector.
///
/// Soundness: with `c = a * b` and public input `[c, ..]` the backend
/// accepts. Completeness: with any claimed product other than `a * b`, or
/// any first public input other than `c`, the backend rejects; the claimed
/// product reaches the exposed cell only through a copy constraint, so a
/// mismatch fails exactly that check.
pub fn run_mul_circuit(a: Felt, b: Felt, c: Felt, instance: &Vec<Felt>, k: usize) -> (r: bool)
    requires
        a.inv(),
        b.inv(),
        c.inv(),
        2 <= k <= 29,
    ensures
        r == (c.val() == fmul(a.val(), b.val()) && instance@.len() >= 1 && instance@[0].val()
            == c.val()),
{
    let mut schema = Schema::new();
    let config = match TestCircuit::configure(&mut schema) {
        Ok(cfg) => cfg,
        Err(_) => {
            proof {
                assert(false);
            }
            return false;
        },
    };
    let ghost sc1 = schema;
    schema.finalize();
    proof {
        assert(schema.equality_enabled(config.a) == sc1.equality_enabled(config.a));
        assert(schema.equality_enabled(config.b) == sc1.equality_enabled(config.b));
        assert(schema.equality_enabled(config.c) == sc1.equality_enabled(config.c));
        assert(schema.equality_enabled(config.instance) == sc1.equality_enabled(config.instance));
        assert(test_cfg_wf(config, schema));
        assert(schema.gates_spec() == sc1.gates_spec());
    }
    let rows = grid_rows(k);
    proof {
        vstd::arithmetic::power2::lemma2_to64();
        if 2 < k {
            vstd::arithmetic::power2::lemma_pow2_strictly_increases(2, k as nat);
        }
        assert(rows >= 4);
    }
    let mut syn = Synthesizer::new(schema, rows);
    let circuit = TestCircuit::new(Deferred::Known(a), Deferred::Known(b), Deferred::Known(c));
    let ghost s0 = syn;
    match circuit.synthesize(config, &mut syn) {
        Ok(_) => {},
        Err(_) => {
            proof {
                assert(false);
            }
            return false;
        },
    }
    let verdict = backend::accepts(&syn, instance);
    proof {
        let m = fmul(a.val(), b.val());
        let a0 = Cell { column: config.a, row: 0usize };
        let a1 = Cell { column: config.a, row: 1usize };
        let am = Cell { column: config.a, row: 2usize };
        let bm = Cell { column: config.b, row: 2usize };
        let cm = Cell { column: config.c, row: 2usize };
        let cl = Cell { column: config.c, row: 3usize };
        let g = syn.schema_spec().gates_spec()[0];
        assert(syn.schema_spec() == schema);
        assert(is_mul_gate(g, config));
        assert(syn.value_at(config.a, 0) == a.val());
        assert(syn.value_at(config.a, 1) == b.val());
        assert(syn.value_at(config.s, 2) == 1);
        assert(syn.value_at(config.a, 2) == a.val());
        assert(syn.value_at(config.b, 2) == b.val());
        assert(syn.value_at(config.c, 2) == m);
        assert(syn.value_at(config.c, 3) == c.val());
        assert forall|i: int, row2: int|
            0 <= i < syn.schema_spec().gates_spec().len() && 0 <= row2 < syn.rows_spec()
                implies #[trigger] gate_value(syn.schema_spec().gates_spec()[i], syn, row2)
                == 0 by {
            let gg = syn.schema_spec().gates_spec()[i];
            assert(gg == g);
            if row2 == 2 {
                backend::lemma_gate_vanishes_product_row(gg, syn, 2);
            } else {
                assert(!circuit_touched(config, 0, config.s, row2));
                assert(syn.cell_state(config.s, row2) == s0.cell_state(config.s, row2));
                assert(syn.value_at(config.s, row2) == 0);
                assert(0 <= syn.value_at(gg.l, row2) < MODULUS as int);
                assert(0 <= syn.value_at(gg.r, row2) < MODULUS as int);
                assert(0 <= syn.value_at(gg.o, row2) < MODULUS as int);
                backend::lemma_gate_vanishes_inactive_row(gg, syn, row2);
            }
        }
        assert(backend::gates_ok(syn));
        assert(syn.copies_spec().len() == 3);
        assert(syn.copies_spec()[0] == (a0, am));
        assert(syn.copies_spec()[1] == (a1, bm));
        assert(syn.copies_spec()[2] == (cm, cl));
        assert(syn.cell_value(a0) == a.val());
        assert(syn.cell_value(am) == a.val());
        assert(syn.cell_value(a1) == b.val());
        assert(syn.cell_value(bm) == b.val());
        assert(syn.cell_value(cm) == m);
        assert(syn.cell_value(cl) == c.val());
        assert(syn.bindings_spec().len() == 1);
        assert(syn.bindings_spec()[0] == (cl, 0usize));
        if c.val() == m && instance@.len() >= 1 && instance@[0].val() == c.val() {
            assert forall|i: int|
                0 <= i < syn.copies_spec().len() implies syn.cell_value(
                (#[trigger] syn.copies_spec()[i]).0,
            ) == syn.cell_value(syn.copies_spec()[i].1) by {
                if i == 0 {
                    assert(syn.copies_spec()[i] == (a0, am));
                } else if i == 1 {
                    assert(syn.copies_spec()[i] == (a1, bm));
                } else {
                    assert(syn.copies_spec()[i] == (cm, cl));
                }
            }
            assert(backend::copies_ok(syn));
            assert forall|i: int| 0 <= i < syn.bindings_spec().len() implies {
                &&& (#[trigger] syn.bindings_spec()[i]).1 < instance@.len()
                &&& syn.cell_value(syn.bindings_spec()[i].0) == instance@[syn.bindings_spec()[i].1 as int].val()
            } by {
                assert(syn.bindings_spec()[i] == (cl, 0usize));
            }
            assert(backend::bindings_ok(syn, instance@));
            assert(satisfied(syn, instance@));
        } else if c.val() != m {
            backend::lemma_unequal_copy_rejected(syn, instance@, 2);
            assert(!satisfied(syn, instance@));
        } else {
            backend::lemma_binding_mismatch_rejected(syn, instance@, 0);
            assert(!satisfied(syn, instance@));
        }
    }
    verdict
}

} // verus!
