//! The generalized composer: one row per operation, driven by a gate with
//! left, right, multiply, output and constant selector terms, together with
//! the circuit that proves knowledge of two private factors of a public
//! product.

use vstd::prelude::*;
use crate::backend;
use crate::backend::{gate_value, satisfied};
use crate::deferred::{dknown, dval, Deferred};
use crate::errors::CircuitError;
use crate::felt::{fmul, Felt};
use crate::schema::{Column, ColumnKind, Gate, Schema};
use crate::synthesis::{grid_rows, same_grid, Cell, Synthesizer};

verus! {

/// The columns of the generalized composer: three witness columns, five
/// selector columns and the public-input column.
#[derive(Clone, Copy, PartialEq, Eq, Structural, Debug)]
pub struct TutorialConfig {
    pub l: Column,
    pub r: Column,
    pub o: Column,
    pub sl: Column,
    pub sr: Column,
    pub sm: Column,
    pub so: Column,
    pub sc: Column,
    pub pi: Column,
}

/// The configuration names distinct schema columns of the right kinds,
/// with equality support where cells are copied or exposed.
pub open spec fn cfg_wf(cfg: TutorialConfig, s: Schema) -> bool {
    &&& cfg.l.kind == ColumnKind::Witness && s.in_schema(cfg.l)
    &&& cfg.r.kind == ColumnKind::Witness && s.in_schema(cfg.r)
    &&& cfg.o.kind == ColumnKind::Witness && s.in_schema(cfg.o)
    &&& cfg.sl.kind == ColumnKind::Selector && s.in_schema(cfg.sl)
    &&& cfg.sr.kind == ColumnKind::Selector && s.in_schema(cfg.sr)
    &&& cfg.sm.kind == ColumnKind::Selector && s.in_schema(cfg.sm)
    &&& cfg.so.kind == ColumnKind::Selector && s.in_schema(cfg.so)
    &&& cfg.sc.kind == ColumnKind::Selector && s.in_schema(cfg.sc)
    &&& cfg.pi.kind == ColumnKind::Public && s.in_schema(cfg.pi)
    &&& cfg.l.index != cfg.r.index && cfg.l.index != cfg.o.index && cfg.r.index != cfg.o.index
    &&& cfg.sl.index != cfg.sr.index && cfg.sl.index != cfg.sm.index && cfg.sl.index
        != cfg.so.index && cfg.sl.index != cfg.sc.index
    &&& cfg.sr.index != cfg.sm.index && cfg.sr.index != cfg.so.index && cfg.sr.index
        != cfg.sc.index
    &&& cfg.sm.index != cfg.so.index && cfg.sm.index != cfg.sc.index
    &&& cfg.so.index != cfg.sc.index
    &&& s.equality_enabled(cfg.l)
    &&& s.equality_enabled(cfg.r)
    &&& s.equality_enabled(cfg.o)
    &&& s.equality_enabled(cfg.pi)
}

/// Whether a gate is the generalized gate over this configuration, with
/// all five selector terms present.
pub open spec fn is_product_gate(g: Gate, cfg: TutorialConfig) -> bool {
    &&& g.l == cfg.l
    &&& g.r == cfg.r
    &&& g.o == cfg.o
    &&& g.sl == Some(cfg.sl)
    &&& g.sr == Some(cfg.sr)
    &&& g.sm == Some(cfg.sm)
    &&& g.so == Some(cfg.so)
    &&& g.sc == Some(cfg.sc)
}

/// The grid positions an operation row writes: the witness triple and the
/// two selector cells it activates.
pub open spec fn op_row_touched(
    cfg: TutorialConfig,
    row: int,
    c2: Column,
    r2: int,
    mul: bool,
) -> bool {
    r2 == row && (c2 == cfg.l || c2 == cfg.r || c2 == cfg.o || (mul && (c2 == cfg.sm || c2
        == cfg.so)) || (!mul && (c2 == cfg.sl || c2 == cfg.sr || c2 == cfg.so)))
}

/// What one operation row leaves behind: the caller's triple in the
/// witness columns, the multiplicative identity in the active selector
/// cells, everything else untouched, and the three cell handles returned.
pub open spec fn op_row_shape(
    cfg: TutorialConfig,
    pre: Synthesizer,
    post: Synthesizer,
    vals: (Deferred, Deferred, Deferred),
    r: Result<(Cell, Cell, Cell), CircuitError>,
    mul: bool,
) -> bool {
    let row = pre.next_row_spec();
    &&& r == Ok::<(Cell, Cell, Cell), CircuitError>(
        (
            Cell { column: cfg.l, row: row as usize },
            Cell { column: cfg.r, row: row as usize },
            Cell { column: cfg.o, row: row as usize },
        ),
    )
    &&& post.schema_spec() == pre.schema_spec()
    &&& post.rows_spec() == pre.rows_spec()
    &&& post.next_row_spec() == row + 1
    &&& post.copies_spec() == pre.copies_spec()
    &&& post.bindings_spec() == pre.bindings_spec()
    &&& post.cell_state(cfg.l, row) == Some(vals.0)
    &&& post.cell_state(cfg.r, row) == Some(vals.1)
    &&& post.cell_state(cfg.o, row) == Some(vals.2)
    &&& (if mul {
        post.value_at(cfg.sm, row) == 1 && post.value_at(cfg.so, row) == 1
    } else {
        post.value_at(cfg.sl, row) == 1 && post.value_at(cfg.sr, row) == 1 && post.value_at(
            cfg.so,
            row,
        ) == 1
    })
    &&& forall|c2: Column, r2: int|
        !op_row_touched(cfg, row, c2, r2, mul) ==> #[trigger] post.cell_state(c2, r2)
            == pre.cell_state(c2, r2)
}

/// The generalized composer chip over a configured schema.
pub struct TutorialChip {
    pub config: TutorialConfig,
}

impl TutorialChip {
    pub fn new(config: TutorialConfig) -> (c: TutorialChip)
        ensures
            c.config == config,
    {
        TutorialChip { config }
    }
}

/// The capability set of the generalized composer: raw add and multiply
/// rows, cell copies, and public exposure.
pub trait TutorialComposer {
    /// The column configuration the composer drives.
    spec fn cfg(&self) -> TutorialConfig;

    /// Open one row, activate the additive selectors, and store the
    /// caller's (left, right, out) triple. No sum is computed here: the
    /// caller supplies a triple that already satisfies `l + r = o` when it
    /// means the row to hold.
    fn raw_add(&self, syn: &mut Synthesizer, vals: (Deferred, Deferred, Deferred)) -> (r: Result<
        (Cell, Cell, Cell),
        CircuitError,
    >)
        requires
            old(syn).inv(),
            cfg_wf(self.cfg(), old(syn).schema_spec()),
            old(syn).next_row_spec() < old(syn).rows_spec(),
            vals.0.wf(),
            vals.1.wf(),
            vals.2.wf(),
        ensures
            final(syn).inv(),
            op_row_shape(self.cfg(), *old(syn), *final(syn), vals, r, false),
    ;

    /// Open one row, activate the multiply and output selectors, and
    /// store the caller's (left, right, out) triple, computed once and
    /// shared by the three column assignments.
    fn raw_multiply(&self, syn: &mut Synthesizer, vals: (Deferred, Deferred, Deferred)) -> (r:
        Result<(Cell, Cell, Cell), CircuitError>)
        requires
            old(syn).inv(),
            cfg_wf(self.cfg(), old(syn).schema_spec()),
            old(syn).next_row_spec() < old(syn).rows_spec(),
            vals.0.wf(),
            vals.1.wf(),
            vals.2.wf(),
        ensures
            final(syn).inv(),
            op_row_shape(self.cfg(), *old(syn), *final(syn), vals, r, true),
    ;

    /// Assign an unknown-seeded cell at an offset in a fresh region and
    /// constrain it equal to the source cell: the destination's true value
    /// is supplied by the copy constraint, never by direct assignment.
    /// When either column lacks equality support the call is rejected with
    /// `ConstraintScopeError` and the assembly is left untouched.
    fn copy(&self, syn: &mut Synthesizer, src: Cell, dst_col: Column, offset: usize) -> (r: Result<
        Cell,
        CircuitError,
    >)
        requires
            old(syn).inv(),
            old(syn).next_row_spec() + offset < old(syn).rows_spec(),
        ensures
            final(syn).inv(),
            if old(syn).schema_spec().equality_enabled(src.column) && old(
                syn,
            ).schema_spec().equality_enabled(dst_col) {
                ({
                    let row = old(syn).next_row_spec() + offset;
                    let dst = Cell { column: dst_col, row: row as usize };
                    &&& r == Ok::<Cell, CircuitError>(dst)
                    &&& final(syn).schema_spec() == old(syn).schema_spec()
                    &&& final(syn).rows_spec() == old(syn).rows_spec()
                    &&& final(syn).next_row_spec() == row + 1
                    &&& final(syn).cell_state(dst_col, row) == Some(Deferred::Unknown)
                    &&& forall|c2: Column, r2: int|
                        !(c2 == dst_col && r2 == row) ==> #[trigger] final(syn).cell_state(c2, r2)
                            == old(syn).cell_state(c2, r2)
                    &&& final(syn).copies_spec() =~= old(syn).copies_spec().push((src, dst))
                    &&& final(syn).bindings_spec() == old(syn).bindings_spec()
                })
            } else {
                r == Err::<Cell, CircuitError>(CircuitError::ConstraintScopeError) && *final(syn)
                    == *old(syn)
            },
    ;

    /// Bind a cell to a row of the public-input vector.
    fn expose_public(&self, syn: &mut Synthesizer, cell: Cell, instance_row: usize) -> (r: Result<
        (),
        CircuitError,
    >)
        requires
            old(syn).inv(),
            cfg_wf(self.cfg(), old(syn).schema_spec()),
        ensures
            final(syn).inv(),
            r == Ok::<(), CircuitError>(()),
            same_grid(*final(syn), *old(syn)),
            final(syn).bindings_spec() =~= old(syn).bindings_spec().push((cell, instance_row)),
            final(syn).copies_spec() == old(syn).copies_spec(),
    ;
}

impl TutorialComposer for TutorialChip {
    open spec fn cfg(&self) -> TutorialConfig {
        self.config
    }

    fn raw_add(&self, syn: &mut Synthesizer, vals: (Deferred, Deferred, Deferred)) -> (r: Result<
        (Cell, Cell, Cell),
        CircuitError,
    >) {
        let cfg = self.config;
        let ghost s0 = *syn;
        let region = syn.open_region("add");
        let ghost row = s0.next_row_spec();
        let one = Deferred::Known(Felt::one());
        proof {
            assert(!s0.assigned(cfg.l, row));
            assert(s0.schema_spec().in_schema(cfg.l));
            assert(!s0.assigned(cfg.l, region.start + 0));
        }
        let c_l = match syn.assign(region, cfg.l, 0, vals.0) {
            Ok(c) => c,
            Err(e) => {
                proof {
                    assert(false);
                }
                return Err(e);
            },
        };
        let ghost s1 = *syn;
        proof {
            assert(s1.cell_state(cfg.r, row) == s0.cell_state(cfg.r, row));
            assert(!s0.assigned(cfg.r, row));
            assert(s1.schema_spec().in_schema(cfg.r));
            assert(!s1.assigned(cfg.r, region.start + 0));
        }
        let c_r = match syn.assign(region, cfg.r, 0, vals.1) {
            Ok(c) => c,
            Err(e) => {
                proof {
                    assert(false);
                }
                return Err(e);
            },
        };
        let ghost s2 = *syn;
        proof {
            assert(s2.cell_state(cfg.o, row) == s1.cell_state(cfg.o, row));
            assert(s1.cell_state(cfg.o, row) == s0.cell_state(cfg.o, row));
            assert(!s0.assigned(cfg.o, row));
            assert(s2.schema_spec().in_schema(cfg.o));
            assert(!s2.assigned(cfg.o, region.start + 0));
        }
        let c_o = match syn.assign(region, cfg.o, 0, vals.2) {
            Ok(c) => c,
            Err(e) => {
                proof {
                    assert(false);
                }
                return Err(e);
            },
        };
        let ghost s3 = *syn;
        proof {
            assert(s3.cell_state(cfg.sl, row) == s2.cell_state(cfg.sl, row));
            assert(s2.cell_state(cfg.sl, row) == s1.cell_state(cfg.sl, row));
            assert(s1.cell_state(cfg.sl, row) == s0.cell_state(cfg.sl, row));
            assert(!s0.assigned(cfg.sl, row));
            assert(s3.schema_spec().in_schema(cfg.sl));
            assert(!s3.assigned(cfg.sl, region.start + 0));
        }
        let _ = match syn.assign(region, cfg.sl, 0, one) {
            Ok(c) => c,
            Err(e) => {
                proof {
                    assert(false);
                }
                return Err(e);
            },
        };
        let ghost s4 = *syn;
        proof {
            assert(s4.cell_state(cfg.sr, row) == s3.cell_state(cfg.sr, row));
            assert(s3.cell_state(cfg.sr, row) == s2.cell_state(cfg.sr, row));
            assert(s2.cell_state(cfg.sr, row) == s1.cell_state(cfg.sr, row));
            assert(s1.cell_state(cfg.sr, row) == s0.cell_state(cfg.sr, row));
            assert(!s0.assigned(cfg.sr, row));
            assert(s4.schema_spec().in_schema(cfg.sr));
            assert(!s4.assigned(cfg.sr, region.start + 0));
        }
        let _ = match syn.assign(region, cfg.sr, 0, one) {
            Ok(c) => c,
            Err(e) => {
                proof {
                    assert(false);
                }
                return Err(e);
            },
        };
        let ghost s5 = *syn;
        proof {
            assert(s5.cell_state(cfg.so, row) == s4.cell_state(cfg.so, row));
            assert(s4.cell_state(cfg.so, row) == s3.cell_state(cfg.so, row));
            assert(s3.cell_state(cfg.so, row) == s2.cell_state(cfg.so, row));
            assert(s2.cell_state(cfg.so, row) == s1.cell_state(cfg.so, row));
            assert(s1.cell_state(cfg.so, row) == s0.cell_state(cfg.so, row));
            assert(!s0.assigned(cfg.so, row));
            assert(s5.schema_spec().in_schema(cfg.so));
            assert(!s5.assigned(cfg.so, region.start + 0));
        }
        let _ = match syn.assign(region, cfg.so, 0, one) {
            Ok(c) => c,
            Err(e) => {
                proof {
                    assert(false);
                }
                return Err(e);
            },
        };
        let ghost s6 = *syn;
        proof {
            assert forall|c2: Column, r2: int|
                !op_row_touched(cfg, row, c2, r2, false) implies #[trigger] syn.cell_state(c2, r2)
                == s0.cell_state(c2, r2) by {
                assert(s6.cell_state(c2, r2) == s5.cell_state(c2, r2));
                assert(s5.cell_state(c2, r2) == s4.cell_state(c2, r2));
                assert(s4.cell_state(c2, r2) == s3.cell_state(c2, r2));
                assert(s3.cell_state(c2, r2) == s2.cell_state(c2, r2));
                assert(s2.cell_state(c2, r2) == s1.cell_state(c2, r2));
                assert(s1.cell_state(c2, r2) == s0.cell_state(c2, r2));
            }
            assert(syn.cell_state(cfg.l, row) == Some(vals.0)) by {
                assert(s6.cell_state(cfg.l, row) == s5.cell_state(cfg.l, row));
                assert(s5.cell_state(cfg.l, row) == s4.cell_state(cfg.l, row));
                assert(s4.cell_state(cfg.l, row) == s3.cell_state(cfg.l, row));
                assert(s3.cell_state(cfg.l, row) == s2.cell_state(cfg.l, row));
                assert(s2.cell_state(cfg.l, row) == s1.cell_state(cfg.l, row));
            }
            assert(syn.cell_state(cfg.r, row) == Some(vals.1)) by {
                assert(s6.cell_state(cfg.r, row) == s5.cell_state(cfg.r, row));
                assert(s5.cell_state(cfg.r, row) == s4.cell_state(cfg.r, row));
                assert(s4.cell_state(cfg.r, row) == s3.cell_state(cfg.r, row));
                assert(s3.cell_state(cfg.r, row) == s2.cell_state(cfg.r, row));
            }
            assert(syn.cell_state(cfg.o, row) == Some(vals.2)) by {
                assert(s6.cell_state(cfg.o, row) == s5.cell_state(cfg.o, row));
                assert(s5.cell_state(cfg.o, row) == s4.cell_state(cfg.o, row));
                assert(s4.cell_state(cfg.o, row) == s3.cell_state(cfg.o, row));
            }
            assert(syn.cell_state(cfg.sl, row) == Some(one)) by {
                assert(s6.cell_state(cfg.sl, row) == s5.cell_state(cfg.sl, row));
                assert(s5.cell_state(cfg.sl, row) == s4.cell_state(cfg.sl, row));
            }
            assert(syn.cell_state(cfg.sr, row) == Some(one)) by {
                assert(s6.cell_state(cfg.sr, row) == s5.cell_state(cfg.sr, row));
            }
            assert(syn.cell_state(cfg.so, row) == Some(one)) by {
            }
        }
        Ok((c_l, c_r, c_o))
    }

    fn raw_multiply(&self, syn: &mut Synthesizer, vals: (Deferred, Deferred, Deferred)) -> (r:
        Result<(Cell, Cell, Cell), CircuitError>) {
        let cfg = self.config;
        let ghost s0 = *syn;
        let region = syn.open_region("mul");
        let ghost row = s0.next_row_spec();
        let one = Deferred::Known(Felt::one());
        proof {
            assert(!s0.assigned(cfg.l, row));
            assert(s0.schema_spec().in_schema(cfg.l));
            assert(!s0.assigned(cfg.l, region.start + 0));
        }
        let c_l = match syn.assign(region, cfg.l, 0, vals.0) {
            Ok(c) => c,
            Err(e) => {
                proof {
                    assert(false);
                }
                return Err(e);
            },
        };
        let ghost s1 = *syn;
        proof {
            assert(s1.cell_state(cfg.r, row) == s0.cell_state(cfg.r, row));
            assert(!s0.assigned(cfg.r, row));
            assert(s1.schema_spec().in_schema(cfg.r));
            assert(!s1.assigned(cfg.r, region.start + 0));
        }
        let c_r = match syn.assign(region, cfg.r, 0, vals.1) {
            Ok(c) => c,
            Err(e) => {
                proof {
                    assert(false);
                }
                return Err(e);
            },
        };
        let ghost s2 = *syn;
        proof {
            assert(s2.cell_state(cfg.o, row) == s1.cell_state(cfg.o, row));
            assert(s1.cell_state(cfg.o, row) == s0.cell_state(cfg.o, row));
            assert(!s0.assigned(cfg.o, row));
            assert(s2.schema_spec().in_schema(cfg.o));
            assert(!s2.assigned(cfg.o, region.start + 0));
        }
        let c_o = match syn.assign(region, cfg.o, 0, vals.2) {
            Ok(c) => c,
            Err(e) => {
                proof {
                    assert(false);
                }
                return Err(e);
            },
        };
        let ghost s3 = *syn;
        proof {
            assert(s3.cell_state(cfg.sm, row) == s2.cell_state(cfg.sm, row));
            assert(s2.cell_state(cfg.sm, row) == s1.cell_state(cfg.sm, row));
            assert(s1.cell_state(cfg.sm, row) == s0.cell_state(cfg.sm, row));
            assert(!s0.assigned(cfg.sm, row));
            assert(s3.schema_spec().in_schema(cfg.sm));
            assert(!s3.assigned(cfg.sm, region.start + 0));
        }
        let _ = match syn.assign(region, cfg.sm, 0, one) {
            Ok(c) => c,
            Err(e) => {
                proof {
                    assert(false);
                }
                return Err(e);
            },
        };
        let ghost s4 = *syn;
        proof {
            assert(s4.cell_state(cfg.so, row) == s3.cell_state(cfg.so, row));
            assert(s3.cell_state(cfg.so, row) == s2.cell_state(cfg.so, row));
            assert(s2.cell_state(cfg.so, row) == s1.cell_state(cfg.so, row));
            assert(s1.cell_state(cfg.so, row) == s0.cell_state(cfg.so, row));
            assert(!s0.assigned(cfg.so, row));
            assert(s4.schema_spec().in_schema(cfg.so));
            assert(!s4.assigned(cfg.so, region.start + 0));
        }
        let _ = match syn.assign(region, cfg.so, 0, one) {
            Ok(c) => c,
            Err(e) => {
                proof {
                    assert(false);
                }
                return Err(e);
            },
        };
        let ghost s5 = *syn;
        proof {
            assert forall|c2: Column, r2: int|
                !op_row_touched(cfg, row, c2, r2, true) implies #[trigger] syn.cell_state(c2, r2)
                == s0.cell_state(c2, r2) by {
                assert(s5.cell_state(c2, r2) == s4.cell_state(c2, r2));
                assert(s4.cell_state(c2, r2) == s3.cell_state(c2, r2));
                assert(s3.cell_state(c2, r2) == s2.cell_state(c2, r2));
                assert(s2.cell_state(c2, r2) == s1.cell_state(c2, r2));
                assert(s1.cell_state(c2, r2) == s0.cell_state(c2, r2));
            }
            assert(syn.cell_state(cfg.l, row) == Some(vals.0)) by {
                assert(s5.cell_state(cfg.l, row) == s4.cell_state(cfg.l, row));
                assert(s4.cell_state(cfg.l, row) == s3.cell_state(cfg.l, row));
                assert(s3.cell_state(cfg.l, row) == s2.cell_state(cfg.l, row));
                assert(s2.cell_state(cfg.l, row) == s1.cell_state(cfg.l, row));
            }
            assert(syn.cell_state(cfg.r, row) == Some(vals.1)) by {
                assert(s5.cell_state(cfg.r, row) == s4.cell_state(cfg.r, row));
                assert(s4.cell_state(cfg.r, row) == s3.cell_state(cfg.r, row));
                assert(s3.cell_state(cfg.r, row) == s2.cell_state(cfg.r, row));
            }
            assert(syn.cell_state(cfg.o, row) == Some(vals.2)) by {
                assert(s5.cell_state(cfg.o, row) == s4.cell_state(cfg.o, row));
                assert(s4.cell_state(cfg.o, row) == s3.cell_state(cfg.o, row));
            }
            assert(syn.cell_state(cfg.sm, row) == Some(one)) by {
                assert(s5.cell_state(cfg.sm, row) == s4.cell_state(cfg.sm, row));
            }
            assert(syn.cell_state(cfg.so, row) == Some(one)) by {
            }
        }
        Ok((c_l, c_r, c_o))
    }

    fn copy(&self, syn: &mut Synthesizer, src: Cell, dst_col: Column, offset: usize) -> (r: Result<
        Cell,
        CircuitError,
    >) {
        let ghost s0 = *syn;
        if !(syn.schema_ref().has_equality(src.column) && syn.schema_ref().has_equality(
            dst_col,
        )) {
            return Err(CircuitError::ConstraintScopeError);
        }
        let region = syn.open_region("copy");
        proof {
            assert(s0.schema_spec().in_schema(dst_col));
            assert(!s0.assigned(dst_col, region.start + offset));
        }
        let dst = match syn.assign(region, dst_col, offset, Deferred::Unknown) {
            Ok(c) => c,
            Err(e) => {
                proof {
                    assert(false);
                }
                return Err(e);
            },
        };
        let ghost s1 = *syn;
        proof {
            assert(s1.schema_spec() == s0.schema_spec());
            assert(s1.schema_spec().equality_enabled(src.column));
            assert(s1.schema_spec().equality_enabled(dst.column));
        }
        match syn.constrain_equal(src, dst) {
            Ok(_) => {},
            Err(e) => {
                proof {
                    assert(false);
                }
                return Err(e);
            },
        }
        proof {
            assert forall|c2: Column, r2: int|
                !(c2 == dst_col && r2 == s0.next_row_spec() + offset) implies #[trigger] syn.cell_state(
                c2,
                r2,
            ) == s0.cell_state(c2, r2) by {
                assert(syn.cell_state(c2, r2) == s1.cell_state(c2, r2));
                assert(s1.cell_state(c2, r2) == s0.cell_state(c2, r2));
            }
            assert(syn.cell_state(dst_col, s0.next_row_spec() + offset) == Some(
                Deferred::Unknown,
            )) by {
                assert(syn.cell_state(dst_col, s0.next_row_spec() + offset) == s1.cell_state(
                    dst_col,
                    s0.next_row_spec() + offset,
                ));
            }
        }
        Ok(dst)
    }

    fn expose_public(&self, syn: &mut Synthesizer, cell: Cell, instance_row: usize) -> (r: Result<
        (),
        CircuitError,
    >) {
        proof {
            assert(self.config == self.cfg());
            assert(self.config.pi.kind == ColumnKind::Public);
            assert(old(syn).schema_spec().in_schema(self.config.pi));
        }
        match syn.constrain_to_instance(cell, self.config.pi, instance_row) {
            Ok(_) => Ok(()),
            Err(e) => {
                proof {
                    assert(false);
                }
                Err(e)
            },
        }
    }
}


/// The concrete column layout `configure` produces on a fresh schema.
pub open spec fn tutorial_config() -> TutorialConfig {
    TutorialConfig {
        l: Column { kind: ColumnKind::Witness, index: 0 },
        r: Column { kind: ColumnKind::Witness, index: 1 },
        o: Column { kind: ColumnKind::Witness, index: 2 },
        sm: Column { kind: ColumnKind::Selector, index: 0 },
        sl: Column { kind: ColumnKind::Selector, index: 1 },
        sr: Column { kind: ColumnKind::Selector, index: 2 },
        so: Column { kind: ColumnKind::Selector, index: 3 },
        sc: Column { kind: ColumnKind::Selector, index: 4 },
        pi: Column { kind: ColumnKind::Public, index: 0 },
    }
}

/// The circuit proving knowledge of two private factors whose product is
/// the first public input. It holds its private inputs as deferred values
/// and a public constant.
pub struct TutorialCircuit {
    x: Deferred,
    y: Deferred,
    constant: Felt,
}

impl TutorialCircuit {
    /// The left private input.
    pub closed spec fn x_spec(self) -> Deferred {
        self.x
    }

    /// The right private input.
    pub closed spec fn y_spec(self) -> Deferred {
        self.y
    }

    /// The public constant the circuit carries.
    pub closed spec fn constant_spec(self) -> Felt {
        self.constant
    }

    /// The inputs the circuit holds are well formed.
    pub open spec fn wf(self) -> bool {
        &&& self.x_spec().wf()
        &&& self.y_spec().wf()
        &&& self.constant_spec().inv()
    }

    pub fn new(x: Deferred, y: Deferred, constant: Felt) -> (c: TutorialCircuit)
        ensures
            c.x_spec() == x,
            c.y_spec() == y,
            c.constant_spec() == constant,
    {
        TutorialCircuit { x, y, constant }
    }

    /// Schema derivation: an equivalent circuit with every private input
    /// replaced by `Unknown`, for passes that only need the shape. No
    /// value-producing computation runs on real data here; the public
    /// constant is kept.
    pub fn without_witnesses(&self) -> (c: TutorialCircuit)
        ensures
            !dknown(c.x_spec()),
            !dknown(c.y_spec()),
            c.constant_spec() == self.constant_spec(),
            self.wf() ==> c.wf(),
    {
        TutorialCircuit { x: Deferred::Unknown, y: Deferred::Unknown, constant: self.constant }
    }


    /// Schema phase on a fresh registry: allocate the witness, selector
    /// and public columns, switch on equality where cells are copied or
    /// exposed, and define the generalized gate.
    pub fn configure(schema: &mut Schema) -> (r: Result<TutorialConfig, CircuitError>)
        requires
            old(schema).inv(),
            !old(schema).is_finalized(),
            forall|k2: ColumnKind| old(schema).n_cols(k2) == 0,
            old(schema).gates_spec().len() == 0,
        ensures
            final(schema).inv(),
            !final(schema).is_finalized(),
            r == Ok::<TutorialConfig, CircuitError>(tutorial_config()),
            cfg_wf(tutorial_config(), *final(schema)),
            final(schema).n_cols(ColumnKind::Witness) == 3,
            final(schema).n_cols(ColumnKind::Selector) == 5,
            final(schema).n_cols(ColumnKind::Public) == 1,
            final(schema).gates_spec().len() == 1,
            is_product_gate(final(schema).gates_spec()[0], tutorial_config()),
            final(schema).gates_spec()[0].name@ == "mini plonk"@,
            forall|c2: Column|
                #[trigger] final(schema).equality_enabled(c2) == (c2 == tutorial_config().l || c2
                    == tutorial_config().r || c2 == tutorial_config().o || c2
                    == tutorial_config().pi),
    {
        let ghost g0 = *schema;
        let l = match schema.allocate_column(ColumnKind::Witness) {
            Ok(c) => c,
            Err(e) => {
                proof {
                    assert(false);
                }
                return Err(e);
            },
        };
        let ghost g1 = *schema;
        let r = match schema.allocate_column(ColumnKind::Witness) {
            Ok(c) => c,
            Err(e) => {
                proof {
                    assert(false);
                }
                return Err(e);
            },
        };
        let ghost g2 = *schema;
        let o = match schema.allocate_column(ColumnKind::Witness) {
            Ok(c) => c,
            Err(e) => {
                proof {
                    assert(false);
                }
                return Err(e);
            },
        };
        let ghost g3 = *schema;
        proof {
            assert(g3.in_schema(l));
        }
        match schema.enable_equality(l) {
            Ok(_) => {},
            Err(e) => {
                proof {
                    assert(false);
                }
                return Err(e);
            },
        }
        let ghost g4 = *schema;
        proof {
            assert(g4.in_schema(r));
        }
        match schema.enable_equality(r) {
            Ok(_) => {},
            Err(e) => {
                proof {
                    assert(false);
                }
                return Err(e);
            },
        }
        let ghost g5 = *schema;
        proof {
            assert(g5.in_schema(o));
        }
        match schema.enable_equality(o) {
            Ok(_) => {},
            Err(e) => {
                proof {
                    assert(false);
                }
                return Err(e);
            },
        }
        let ghost g6 = *schema;
        let sm = match schema.allocate_column(ColumnKind::Selector) {
            Ok(c) => c,
            Err(e) => {
                proof {
                    assert(false);
                }
                return Err(e);
            },
        };
        let ghost g7 = *schema;
        let sl = match schema.allocate_column(ColumnKind::Selector) {
            Ok(c) => c,
            Err(e) => {
                proof {
                    assert(false);
                }
                return Err(e);
            },
        };
        let ghost g8 = *schema;
        let sr = match schema.allocate_column(ColumnKind::Selector) {
            Ok(c) => c,
            Err(e) => {
                proof {
                    assert(false);
                }
                return Err(e);
            },
        };
        let ghost g9 = *schema;
        let so = match schema.allocate_column(ColumnKind::Selector) {
            Ok(c) => c,
            Err(e) => {
                proof {
                    assert(false);
                }
                return Err(e);
            },
        };
        let ghost g10 = *schema;
        let sc = match schema.allocate_column(ColumnKind::Selector) {
            Ok(c) => c,
            Err(e) => {
                proof {
                    assert(false);
                }
                return Err(e);
            },
        };
        let ghost g11 = *schema;
        let pi = match schema.allocate_column(ColumnKind::Public) {
            Ok(c) => c,
            Err(e) => {
                proof {
                    assert(false);
                }
                return Err(e);
            },
        };
        let ghost g12 = *schema;
        proof {
            assert(g12.in_schema(pi));
        }
        match schema.enable_equality(pi) {
            Ok(_) => {},
            Err(e) => {
                proof {
                    assert(false);
                }
                return Err(e);
            },
        }
        let ghost g13 = *schema;
        let gate_name = "mini plonk".to_string();
        proof {
            vstd::string::to_string_from_display_ensures_for_str("mini plonk", gate_name);
        }
        let gate = Gate {
            name: gate_name,
            l,
            r,
            o,
            sl: Some(sl),
            sr: Some(sr),
            sm: Some(sm),
            so: Some(so),
            sc: Some(sc),
        };
        proof {
            assert(g13.gate_wf(gate));
        }
        match schema.define_gate(gate) {
            Ok(_) => {},
            Err(e) => {
                proof {
                    assert(false);
                }
                return Err(e);
            },
        }
        proof {
            let cfg = tutorial_config();
            assert(l == cfg.l && r == cfg.r && o == cfg.o);
            assert(sm == cfg.sm && sl == cfg.sl && sr == cfg.sr && so == cfg.so && sc == cfg.sc);
            assert(pi == cfg.pi);
            assert forall|c2: Column|
                #[trigger] schema.equality_enabled(c2) == (c2 == cfg.l || c2 == cfg.r || c2
                    == cfg.o || c2 == cfg.pi) by {
                assert(g1.equality_enabled(c2) == g0.equality_enabled(c2));
                assert(g2.equality_enabled(c2) == g1.equality_enabled(c2));
                assert(g3.equality_enabled(c2) == g2.equality_enabled(c2));
                assert(g4.equality_enabled(c2) == (g3.equality_enabled(c2) || c2 == l));
                assert(g5.equality_enabled(c2) == (g4.equality_enabled(c2) || c2 == r));
                assert(g6.equality_enabled(c2) == (g5.equality_enabled(c2) || c2 == o));
                assert(g7.equality_enabled(c2) == g6.equality_enabled(c2));
                assert(g8.equality_enabled(c2) == g7.equality_enabled(c2));
                assert(g9.equality_enabled(c2) == g8.equality_enabled(c2));
                assert(g10.equality_enabled(c2) == g9.equality_enabled(c2));
                assert(g11.equality_enabled(c2) == g10.equality_enabled(c2));
                assert(g12.equality_enabled(c2) == g11.equality_enabled(c2));
                assert(g13.equality_enabled(c2) == (g12.equality_enabled(c2) || c2 == pi));
                assert(schema.equality_enabled(c2) == g13.equality_enabled(c2));
                assert(!g0.equality_enabled(c2));
            }
        }
        Ok(TutorialConfig { l, r, o, sl, sr, sm, so, sc, pi })
    }

    /// Synthesis: one forward pass in a fixed, deterministic order. The
    /// product of the two private inputs is computed once and the triple
    /// is laid out on one multiply row; the output cell is then bound to
    /// row 0 of the public-input vector.
    pub fn synthesize(&self, config: TutorialConfig, syn: &mut Synthesizer) -> (r: Result<
        (),
        CircuitError,
    >)
        requires
            old(syn).inv(),
            cfg_wf(config, old(syn).schema_spec()),
            old(syn).next_row_spec() < old(syn).rows_spec(),
            self.wf(),
        ensures
            final(syn).inv(),
            r == Ok::<(), CircuitError>(()),
            final(syn).schema_spec() == old(syn).schema_spec(),
            final(syn).rows_spec() == old(syn).rows_spec(),
            final(syn).next_row_spec() == old(syn).next_row_spec() + 1,
            final(syn).copies_spec() == old(syn).copies_spec(),
            final(syn).bindings_spec() =~= old(syn).bindings_spec().push(
                (
                    Cell { column: config.o, row: old(syn).next_row_spec() as usize },
                    0usize,
                ),
            ),
            ({
                let row = old(syn).next_row_spec();
                &&& final(syn).cell_state(config.l, row) == Some(self.x_spec())
                &&& final(syn).cell_state(config.r, row) == Some(self.y_spec())
                &&& final(syn).value_at(config.o, row) == (if dknown(self.x_spec()) && dknown(
                    self.y_spec(),
                ) {
                    fmul(dval(self.x_spec()), dval(self.y_spec()))
                } else {
                    0
                })
                &&& final(syn).value_at(config.sm, row) == 1
                &&& final(syn).value_at(config.so, row) == 1
                &&& forall|c2: Column, r2: int|
                    !op_row_touched(config, row, c2, r2, true) ==> #[trigger] final(syn).cell_state(
                        c2,
                        r2,
                    ) == old(syn).cell_state(c2, r2)
            }),
    {
        let chip = TutorialChip::new(config);
        let x = self.x;
        let y = self.y;
        let z = x.mul(y);
        let ghost s0 = *syn;
        let ghost row = s0.next_row_spec();
        let cells = match chip.raw_multiply(syn, (x, y, z)) {
            Ok(t) => t,
            Err(e) => {
                proof {
                    assert(false);
                }
                return Err(e);
            },
        };
        let ghost s1 = *syn;
        proof {
            assert(s1.schema_spec() == s0.schema_spec());
        }
        match chip.expose_public(syn, cells.2, 0) {
            Ok(_) => {},
            Err(e) => {
                proof {
                    assert(false);
                }
                return Err(e);
            },
        }
        proof {
            assert forall|c2: Column, r2: int|
                !op_row_touched(config, row, c2, r2, true) implies #[trigger] syn.cell_state(
                c2,
                r2,
            ) == s0.cell_state(c2, r2) by {
                assert(syn.cell_state(c2, r2) == s1.cell_state(c2, r2));
                assert(s1.cell_state(c2, r2) == s0.cell_state(c2, r2));
            }
            assert(syn.cell_state(config.l, row) == s1.cell_state(config.l, row));
            assert(syn.cell_state(config.r, row) == s1.cell_state(config.r, row));
            assert(syn.cell_state(config.o, row) == s1.cell_state(config.o, row));
            assert(syn.cell_state(config.sm, row) == s1.cell_state(config.sm, row));
            assert(syn.cell_state(config.so, row) == s1.cell_state(config.so, row));
            assert(s1.cell_state(config.o, row) == Some(z));
        }
        Ok(())
    }
}

/// Submit the product circuit to the backend model: synthesize on private
/// factors `a` and `b` with a `k`-bit grid and check the finished assembly
/// against the public-input vector.
///
/// Soundness: for all field elements `a`, `b` and public input
/// `[a * b, ..]`, the backend accepts. Completeness: for any first public
/// input other than `a * b` (or an empty vector), the backend rejects.
pub fn run_product_circuit(a: Felt, b: Felt, instance: &Vec<Felt>, k: usize) -> (r: bool)
    requires
        a.inv(),
        b.inv(),
        k <= 29,
    ensures
        r == (instance@.len() >= 1 && instance@[0].val() == fmul(a.val(), b.val())),
{
    let mut schema = Schema::new();
    let config = match TutorialCircuit::configure(&mut schema) {
        Ok(c) => c,
        Err(_) => {
            proof {
                assert(false);
            }
            return false;
        },
    };
    let ghost sc1 = schema;
    schema.finalize();
    proof {
        assert(schema.equality_enabled(config.l) == sc1.equality_enabled(config.l));
        assert(schema.equality_enabled(config.r) == sc1.equality_enabled(config.r));
        assert(schema.equality_enabled(config.o) == sc1.equality_enabled(config.o));
        assert(schema.equality_enabled(config.pi) == sc1.equality_enabled(config.pi));
        assert(cfg_wf(config, schema));
        assert(schema.gates_spec() == sc1.gates_spec());
    }
    let rows = grid_rows(k);
    let mut syn = Synthesizer::new(schema, rows);
    let circuit = TutorialCircuit::new(Deferred::Known(a), Deferred::Known(b), Felt::one());
    let ghost s0 = syn;
    match circuit.synthesize(config, &mut syn) {
        Ok(_) => {},
        Err(_) => {
            proof {
                assert(false);
            }
            return false;
        },
    }
    let verdict = backend::accepts(&syn, instance);
    proof {
        let m = fmul(a.val(), b.val());
        let g = syn.schema_spec().gates_spec()[0];
        assert(syn.schema_spec() == schema);
        assert(is_product_gate(g, config));
        assert(syn.value_at(config.l, 0) == a.val());
        assert(syn.value_at(config.r, 0) == b.val());
        assert(syn.value_at(config.o, 0) == m);
        assert(!op_row_touched(config, 0, config.sl, 0, true));
        assert(syn.cell_state(config.sl, 0) == s0.cell_state(config.sl, 0));
        assert(syn.cell_state(config.sr, 0) == s0.cell_state(config.sr, 0));
        assert(syn.cell_state(config.sc, 0) == s0.cell_state(config.sc, 0));
        assert(syn.value_at(config.sl, 0) == 0);
        assert(syn.value_at(config.sr, 0) == 0);
        assert(syn.value_at(config.sc, 0) == 0);
        assert forall|i: int, row2: int|
            0 <= i < syn.schema_spec().gates_spec().len() && 0 <= row2 < syn.rows_spec()
                implies #[trigger] gate_value(syn.schema_spec().gates_spec()[i], syn, row2)
                == 0 by {
            let gg = syn.schema_spec().gates_spec()[i];
            assert(gg == g);
            if row2 == 0 {
                backend::lemma_gate_vanishes_product_row(gg, syn, 0);
            } else {
                assert(!op_row_touched(config, 0, config.l, row2, true));
                assert(syn.cell_state(config.l, row2) == s0.cell_state(config.l, row2));
                assert(syn.cell_state(config.r, row2) == s0.cell_state(config.r, row2));
                assert(syn.cell_state(config.o, row2) == s0.cell_state(config.o, row2));
                assert(syn.cell_state(config.sl, row2) == s0.cell_state(config.sl, row2));
                assert(syn.cell_state(config.sr, row2) == s0.cell_state(config.sr, row2));
                assert(syn.cell_state(config.sm, row2) == s0.cell_state(config.sm, row2));
                assert(syn.cell_state(config.so, row2) == s0.cell_state(config.so, row2));
                assert(syn.cell_state(config.sc, row2) == s0.cell_state(config.sc, row2));
                assert(syn.value_at(config.l, row2) == 0);
                assert(syn.value_at(config.r, row2) == 0);
                assert(syn.value_at(config.o, row2) == 0);
                backend::lemma_gate_vanishes_inactive_row(gg, syn, row2);
            }
        }
        assert(backend::gates_ok(syn));
        assert(syn.copies_spec().len() == 0);
        assert(backend::copies_ok(syn));
        assert(syn.bindings_spec().len() == 1);
        assert(syn.bindings_spec()[0] == (Cell { column: config.o, row: 0usize }, 0usize));
        assert(syn.cell_value(Cell { column: config.o, row: 0usize }) == m);
        if instance@.len() >= 1 && instance@[0].val() == m {
            assert forall|i: int| 0 <= i < syn.bindings_spec().len() implies {
                &&& (#[trigger] syn.bindings_spec()[i]).1 < instance@.len()
                &&& syn.cell_value(syn.bindings_spec()[i].0) == instance@[syn.bindings_spec()[i].1 as int].val()
            } by {
                assert(syn.bindings_spec()[i] == syn.bindings_spec()[0]);
            }
            assert(backend::bindings_ok(syn, instance@));
            assert(satisfied(syn, instance@));
        } else {
            assert(!backend::bindings_ok(syn, instance@)) by {
                if backend::bindings_ok(syn, instance@) {
                    assert((syn.bindings_spec()[0]).1 < instance@.len());
                    assert(syn.cell_value(syn.bindings_spec()[0].0) == instance@[0].val());
                }
            }
            assert(!satisfied(syn, instance@));
        }
    }
    verdict
}

} // verus!
