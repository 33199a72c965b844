//! A model of the constraint-satisfaction check that a proving backend
//! performs on a finished assembly: every gate identity vanishes on every
//! row, every copy constraint links cells with identical grid values, and
//! every public-exposure binding matches the public-input vector.
//!
//! The backend's answer is binary: `accepts` returns `true` exactly when
//! the assembly `satisfied` the three families of checks.

use vstd::prelude::*;
use crate::felt::{
    fadd, fmul, fneg, lemma_f_bounds, lemma_fadd_neg, lemma_fadd_zero, lemma_fmul_one,
    lemma_fmul_zero, lemma_fneg_zero, Felt, MODULUS,
};
use crate::schema::{Column, Gate};
use crate::synthesis::Synthesizer;

verus! {

/// The value a selector term contributes on a row: the chosen column's
/// grid value, or the additive identity for an absent term.
pub open spec fn sel_value(s: Synthesizer, sel: Option<Column>, row: int) -> int {
    match sel {
        Some(c) => s.value_at(c, row),
        None => 0,
    }
}

/// The value of a gate's polynomial identity on one row:
/// `l*sl + r*sr + l*r*sm - o*so + sc`.
pub open spec fn gate_value(g: Gate, s: Synthesizer, row: int) -> int {
    fadd(
        fadd(
            fadd(
                fadd(
                    fmul(s.value_at(g.l, row), sel_value(s, g.sl, row)),
                    fmul(s.value_at(g.r, row), sel_value(s, g.sr, row)),
                ),
                fmul(
                    fmul(s.value_at(g.l, row), s.value_at(g.r, row)),
                    sel_value(s, g.sm, row),
                ),
            ),
            fneg(fmul(s.value_at(g.o, row), sel_value(s, g.so, row))),
        ),
        sel_value(s, g.sc, row),
    )
}

/// Every gate's identity evaluates to the additive identity on every row.
pub open spec fn gates_ok(s: Synthesizer) -> bool {
    forall|i: int, row: int|
        0 <= i < s.schema_spec().gates_spec().len() && 0 <= row < s.rows_spec()
            ==> #[trigger] gate_value(s.schema_spec().gates_spec()[i], s, row) == 0
}

/// Every copy constraint links two cells with identical grid values.
pub open spec fn copies_ok(s: Synthesizer) -> bool {
    forall|i: int|
        0 <= i < s.copies_spec().len() ==> s.cell_value(
            (#[trigger] s.copies_spec()[i]).0,
        ) == s.cell_value(s.copies_spec()[i].1)
}

/// Every public-exposure binding names a row of the public-input vector
/// and the bound cell's grid value equals that public input.
pub open spec fn bindings_ok(s: Synthesizer, instance: Seq<Felt>) -> bool {
    forall|i: int|
        0 <= i < s.bindings_spec().len() ==> {
            &&& (#[trigger] s.bindings_spec()[i]).1 < instance.len()
            &&& s.cell_value(s.bindings_spec()[i].0) == instance[s.bindings_spec()[i].1 as int].val()
        }
}

/// A backend accepts exactly when all three families of checks hold.
pub open spec fn satisfied(s: Synthesizer, instance: Seq<Felt>) -> bool {
    &&& gates_ok(s)
    &&& copies_ok(s)
    &&& bindings_ok(s, instance)
}

/// The value a selector term contributes on a row (executable form).
fn sel_lookup(s: &Synthesizer, sel: &Option<Column>, row: usize) -> (r: Felt)
    requires
        s.inv(),
    ensures
        r.inv(),
        r.val() == sel_value(*s, *sel, row as int),
{
    match sel {
        Some(c) => s.lookup(*c, row),
        None => Felt::zero(),
    }
}

/// The value of a gate's identity on one row (executable form).
pub fn gate_row_value(s: &Synthesizer, g: &Gate, row: usize) -> (r: Felt)
    requires
        s.inv(),
    ensures
        r.inv(),
        r.val() == gate_value(*g, *s, row as int),
{
    let vl = s.lookup(g.l, row);
    let vr = s.lookup(g.r, row);
    let vo = s.lookup(g.o, row);
    let t1 = vl.mul(sel_lookup(s, &g.sl, row));
    let t2 = vr.mul(sel_lookup(s, &g.sr, row));
    let t3 = vl.mul(vr).mul(sel_lookup(s, &g.sm, row));
    let t4 = vo.mul(sel_lookup(s, &g.so, row)).neg();
    let t5 = sel_lookup(s, &g.sc, row);
    t1.add(t2).add(t3).add(t4).add(t5)
}

/// Run the backend's check on a finished assembly and a public-input
/// vector. The answer is exactly `satisfied`.
pub fn accepts(s: &Synthesizer, instance: &Vec<Felt>) -> (r: bool)
    requires
        s.inv(),
    ensures
        r == satisfied(*s, instance@),
{
    let ng = s.schema_ref().num_gates();
    let rows = s.num_rows();
    let mut i: usize = 0;
    while i < ng
        invariant
            s.inv(),
            ng == s.schema_spec().gates_spec().len(),
            rows == s.rows_spec(),
            i <= ng,
            forall|i2: int, row2: int|
                0 <= i2 < i && 0 <= row2 < s.rows_spec() ==> #[trigger] gate_value(
                    s.schema_spec().gates_spec()[i2],
                    *s,
                    row2,
                ) == 0,
        decreases ng - i,
    {
        let g = s.schema_ref().gate_at(i);
        let mut row: usize = 0;
        while row < rows
            invariant
                s.inv(),
                ng == s.schema_spec().gates_spec().len(),
                rows == s.rows_spec(),
                i < ng,
                row <= rows,
                *g == s.schema_spec().gates_spec()[i as int],
                forall|i2: int, row2: int|
                    0 <= i2 < i && 0 <= row2 < s.rows_spec() ==> #[trigger] gate_value(
                        s.schema_spec().gates_spec()[i2],
                        *s,
                        row2,
                    ) == 0,
                forall|row2: int|
                    0 <= row2 < row ==> #[trigger] gate_value(
                        s.schema_spec().gates_spec()[i as int],
                        *s,
                        row2,
                    ) == 0,
            decreases rows - row,
        {
            let v = gate_row_value(s, g, row);
            if !v.is_zero() {
                proof {
                    assert(gate_value(s.schema_spec().gates_spec()[i as int], *s, row as int)
                        != 0);
                }
                return false;
            }
            row += 1;
        }
        i += 1;
    }
    let nc = s.num_copies();
    let mut j: usize = 0;
    while j < nc
        invariant
            s.inv(),
            nc == s.copies_spec().len(),
            j <= nc,
            gates_ok(*s),
            forall|j2: int|
                0 <= j2 < j ==> s.cell_value((#[trigger] s.copies_spec()[j2]).0) == s.cell_value(
                    s.copies_spec()[j2].1,
                ),
        decreases nc - j,
    {
        let (ca, cb) = s.copy_at(j);
        let va = s.lookup(ca.column, ca.row);
        let vb = s.lookup(cb.column, cb.row);
        if !va.eq_val(&vb) {
            proof {
                assert(s.cell_value(s.copies_spec()[j as int].0) != s.cell_value(
                    s.copies_spec()[j as int].1,
                ));
            }
            return false;
        }
        j += 1;
    }
    let nb = s.num_bindings();
    let mut k: usize = 0;
    while k < nb
        invariant
            s.inv(),
            nb == s.bindings_spec().len(),
            k <= nb,
            gates_ok(*s),
            copies_ok(*s),
            forall|k2: int|
                0 <= k2 < k ==> {
                    &&& (#[trigger] s.bindings_spec()[k2]).1 < instance@.len()
                    &&& s.cell_value(s.bindings_spec()[k2].0) == instance@[s.bindings_spec()[k2].1 as int].val()
                },
        decreases nb - k,
    {
        let (cell, prow) = s.binding_at(k);
        if prow >= instance.len() {
            return false;
        }
        let v = s.lookup(cell.column, cell.row);
        if !v.eq_val(&instance[prow]) {
            return false;
        }
        k += 1;
    }
    true
}

/// On a row where every selector term of a gate contributes the additive
/// identity, its polynomial vanishes whatever the queried values are.
pub proof fn lemma_gate_vanishes_inactive_row(g: Gate, s: Synthesizer, row: int)
    requires
        0 <= s.value_at(g.l, row) < MODULUS as int,
        0 <= s.value_at(g.r, row) < MODULUS as int,
        0 <= s.value_at(g.o, row) < MODULUS as int,
        sel_value(s, g.sl, row) == 0,
        sel_value(s, g.sr, row) == 0,
        sel_value(s, g.sm, row) == 0,
        sel_value(s, g.so, row) == 0,
        sel_value(s, g.sc, row) == 0,
    ensures
        gate_value(g, s, row) == 0,
{
    let vl = s.value_at(g.l, row);
    let vr = s.value_at(g.r, row);
    let vo = s.value_at(g.o, row);
    lemma_fmul_zero(vl);
    lemma_fmul_zero(vr);
    lemma_fmul_zero(fmul(vl, vr));
    lemma_fmul_zero(vo);
    lemma_fneg_zero();
    lemma_fadd_zero(0);
}

/// On a row where the multiply and output selectors hold the
/// multiplicative identity, the other selector terms contribute the
/// additive identity, and the output value is the product of the two
/// operand values, its polynomial vanishes.
pub proof fn lemma_gate_vanishes_product_row(g: Gate, s: Synthesizer, row: int)
    requires
        0 <= s.value_at(g.l, row) < MODULUS as int,
        0 <= s.value_at(g.r, row) < MODULUS as int,
        s.value_at(g.o, row) == fmul(s.value_at(g.l, row), s.value_at(g.r, row)),
        sel_value(s, g.sl, row) == 0,
        sel_value(s, g.sr, row) == 0,
        sel_value(s, g.sm, row) == 1,
        sel_value(s, g.so, row) == 1,
        sel_value(s, g.sc, row) == 0,
    ensures
        gate_value(g, s, row) == 0,
{
    let vl = s.value_at(g.l, row);
    let vr = s.value_at(g.r, row);
    let m = fmul(vl, vr);
    lemma_fmul_zero(vl);
    lemma_fmul_zero(vr);
    lemma_f_bounds(vl, vr);
    lemma_fmul_one(m);
    lemma_fadd_zero(0);
    lemma_fadd_zero(m);
    lemma_fadd_neg(m);
    lemma_fadd_zero(0);
}

/// Copy-constraint equality, one direction: whenever the backend accepts,
/// any two cells linked by a copy constraint hold identical grid values.
pub proof fn lemma_copy_constraint_equality(s: Synthesizer, instance: Seq<Felt>, i: int)
    requires
        satisfied(s, instance),
        0 <= i < s.copies_spec().len(),
    ensures
        s.cell_value(s.copies_spec()[i].0) == s.cell_value(s.copies_spec()[i].1),
{
}

/// Copy-constraint equality, the other direction: a copy constraint whose
/// two cells hold different grid values makes the backend reject, whatever
/// else holds of the assembly.
pub proof fn lemma_unequal_copy_rejected(s: Synthesizer, instance: Seq<Felt>, i: int)
    requires
        0 <= i < s.copies_spec().len(),
        s.cell_value(s.copies_spec()[i].0) != s.cell_value(s.copies_spec()[i].1),
    ensures
        !satisfied(s, instance),
{
}

/// A public-exposure binding whose cell value differs from the bound
/// public input (or whose row lies outside the vector) makes the backend
/// reject, whatever else holds of the assembly.
pub proof fn lemma_binding_mismatch_rejected(s: Synthesizer, instance: Seq<Felt>, i: int)
    requires
        0 <= i < s.bindings_spec().len(),
        s.bindings_spec()[i].1 >= instance.len() || s.cell_value(s.bindings_spec()[i].0)
            != instance[s.bindings_spec()[i].1 as int].val(),
    ensures
        !satisfied(s, instance),
{
}

} // verus!
