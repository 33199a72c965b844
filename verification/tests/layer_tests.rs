use zkgrid::backend::accepts;
use zkgrid::deferred::Deferred;
use zkgrid::errors::CircuitError;
use zkgrid::felt::{Felt, MODULUS};
use zkgrid::schema::{Column, ColumnKind, Gate, Schema};
use zkgrid::simple::{TestChip, TestCircuit};
use zkgrid::synthesis::{grid_rows, Cell, Synthesizer};
use zkgrid::tutorial::{TutorialChip, TutorialCircuit, TutorialComposer};

#[test]
fn felt_arithmetic_is_reduced() {
    assert_eq!(Felt::from_u64(MODULUS), Felt::zero());
    assert_eq!(Felt::from_u64(MODULUS + 1), Felt::one());
    let two = Felt::from_u64(2);
    let three = Felt::from_u64(3);
    assert_eq!(two.add(three), Felt::from_u64(5));
    assert_eq!(two.mul(three), Felt::from_u64(6));
    assert_eq!(Felt::zero().neg(), Felt::zero());
    assert_eq!(two.add(two.neg()), Felt::zero());
    // (MODULUS - 1) + 2 wraps to 1.
    let max = Felt::from_u64(MODULUS - 1);
    assert_eq!(max.add(two), Felt::one());
}

#[test]
fn deferred_unknown_absorbs() {
    let x = Deferred::Known(Felt::from_u64(6));
    let y = Deferred::Known(Felt::from_u64(7));
    assert_eq!(x.mul(y), Deferred::Known(Felt::from_u64(42)));
    assert_eq!(x.mul(Deferred::Unknown), Deferred::Unknown);
    assert_eq!(Deferred::Unknown.mul(y), Deferred::Unknown);
    assert_eq!(Deferred::Unknown.mul(Deferred::Unknown), Deferred::Unknown);
}

#[test]
fn schema_is_immutable_after_finalization() {
    let mut schema = Schema::new();
    let col = schema.allocate_column(ColumnKind::Witness).unwrap();
    schema.finalize();
    assert_eq!(
        schema.allocate_column(ColumnKind::Witness),
        Err(CircuitError::SchemaMisuse)
    );
    assert_eq!(schema.enable_equality(col), Err(CircuitError::SchemaMisuse));
    let gate = Gate {
        name: "late".to_string(),
        l: col,
        r: col,
        o: col,
        sl: None,
        sr: None,
        sm: None,
        so: None,
        sc: None,
    };
    assert_eq!(schema.define_gate(gate), Err(CircuitError::SchemaMisuse));
}

#[test]
fn schema_rejects_unknown_columns() {
    let mut schema = Schema::new();
    let ghost_col = Column { kind: ColumnKind::Witness, index: 3 };
    assert_eq!(
        schema.enable_equality(ghost_col),
        Err(CircuitError::SchemaMisuse)
    );
    let real = schema.allocate_column(ColumnKind::Witness).unwrap();
    let gate = Gate {
        name: "dangling".to_string(),
        l: real,
        r: ghost_col,
        o: real,
        sl: None,
        sr: None,
        sm: None,
        so: None,
        sc: None,
    };
    assert_eq!(schema.define_gate(gate), Err(CircuitError::SchemaMisuse));
}

#[test]
fn assigning_a_cell_twice_conflicts() {
    let mut schema = Schema::new();
    let col = schema.allocate_column(ColumnKind::Witness).unwrap();
    schema.finalize();
    let mut syn = Synthesizer::new(schema, 4);
    let region = syn.open_region("once");
    let first = syn
        .assign(region, col, 0, Deferred::Known(Felt::from_u64(7)))
        .unwrap();
    assert_eq!(first, Cell { column: col, row: 0 });
    let second = syn.assign(region, col, 0, Deferred::Known(Felt::from_u64(9)));
    assert_eq!(second, Err(CircuitError::AssignmentConflict));
    // The conflicting write never silently overwrites the first value.
    assert_eq!(syn.lookup(col, 0), Felt::from_u64(7));
}

#[test]
fn assigning_outside_the_schema_is_misuse() {
    let mut schema = Schema::new();
    let _ = schema.allocate_column(ColumnKind::Witness).unwrap();
    schema.finalize();
    let mut syn = Synthesizer::new(schema, 4);
    let region = syn.open_region("stray");
    let stray = Column { kind: ColumnKind::Selector, index: 0 };
    let r = syn.assign(region, stray, 0, Deferred::Unknown);
    assert_eq!(r, Err(CircuitError::SchemaMisuse));
}

#[test]
fn copy_constraints_need_equality_support() {
    let mut schema = Schema::new();
    let plain = schema.allocate_column(ColumnKind::Witness).unwrap();
    let blessed = schema.allocate_column(ColumnKind::Witness).unwrap();
    schema.enable_equality(blessed).unwrap();
    schema.finalize();
    let mut syn = Synthesizer::new(schema, 4);
    let a = Cell { column: plain, row: 0 };
    let b = Cell { column: blessed, row: 0 };
    assert_eq!(
        syn.constrain_equal(a, b),
        Err(CircuitError::ConstraintScopeError)
    );
    assert_eq!(syn.constrain_equal(b, b), Ok(()));
}

#[test]
fn public_bindings_need_a_public_column() {
    let mut schema = Schema::new();
    let witness = schema.allocate_column(ColumnKind::Witness).unwrap();
    schema.finalize();
    let mut syn = Synthesizer::new(schema, 4);
    let cell = Cell { column: witness, row: 0 };
    assert_eq!(
        syn.constrain_to_instance(cell, witness, 0),
        Err(CircuitError::ConstraintScopeError)
    );
}

#[test]
fn regions_allocate_rows_in_call_order() {
    let mut schema = Schema::new();
    let col = schema.allocate_column(ColumnKind::Witness).unwrap();
    schema.finalize();
    let mut syn = Synthesizer::new(schema, 8);
    let first = syn.open_region("first");
    let c0 = syn.assign(first, col, 0, Deferred::Unknown).unwrap();
    let second = syn.open_region("second");
    let c1 = syn.assign(second, col, 0, Deferred::Unknown).unwrap();
    assert_eq!(c0.row, 0);
    assert_eq!(c1.row, 1);
    assert_eq!(syn.next_free_row(), 2);
}

#[test]
fn raw_add_row_checks_the_sum() {
    let mut schema = Schema::new();
    let config = TutorialCircuit::configure(&mut schema).unwrap();
    schema.finalize();
    let mut syn = Synthesizer::new(schema, grid_rows(4));
    let chip = TutorialChip::new(config);
    let x = Felt::from_u64(5);
    let y = Felt::from_u64(7);
    let good = x.add(y);
    chip.raw_add(
        &mut syn,
        (Deferred::Known(x), Deferred::Known(y), Deferred::Known(good)),
    )
    .unwrap();
    let instance: Vec<Felt> = Vec::new();
    assert!(accepts(&syn, &instance));

    let mut schema2 = Schema::new();
    let config2 = TutorialCircuit::configure(&mut schema2).unwrap();
    schema2.finalize();
    let mut syn2 = Synthesizer::new(schema2, grid_rows(4));
    let chip2 = TutorialChip::new(config2);
    let bad = Felt::from_u64(13);
    chip2
        .raw_add(
            &mut syn2,
            (Deferred::Known(x), Deferred::Known(y), Deferred::Known(bad)),
        )
        .unwrap();
    assert!(!accepts(&syn2, &instance));
}

#[test]
fn raw_multiply_row_checks_the_product() {
    let mut schema = Schema::new();
    let config = TutorialCircuit::configure(&mut schema).unwrap();
    schema.finalize();
    let mut syn = Synthesizer::new(schema, grid_rows(4));
    let chip = TutorialChip::new(config);
    let x = Felt::from_u64(2);
    let y = Felt::from_u64(3);
    chip.raw_multiply(
        &mut syn,
        (
            Deferred::Known(x),
            Deferred::Known(y),
            Deferred::Known(Felt::from_u64(6)),
        ),
    )
    .unwrap();
    let instance: Vec<Felt> = Vec::new();
    assert!(accepts(&syn, &instance));
}

#[test]
fn copied_cell_reads_as_the_additive_identity_until_checked() {
    // `copy` seeds the destination with Unknown: the backend model reads
    // such a cell as the additive identity, so the copy constraint only
    // holds when the source also holds the additive identity.
    let mut schema = Schema::new();
    let config = TutorialCircuit::configure(&mut schema).unwrap();
    schema.finalize();
    let mut syn = Synthesizer::new(schema, grid_rows(4));
    let chip = TutorialChip::new(config);
    let (_, _, out) = chip
        .raw_multiply(
            &mut syn,
            (
                Deferred::Known(Felt::zero()),
                Deferred::Known(Felt::from_u64(5)),
                Deferred::Known(Felt::zero()),
            ),
        )
        .unwrap();
    let dst = chip.copy(&mut syn, out, config.l, 0).unwrap();
    assert_eq!(dst.column, config.l);
    assert_eq!(dst.row, 1);
    let instance: Vec<Felt> = Vec::new();
    assert!(accepts(&syn, &instance));

    let mut schema2 = Schema::new();
    let config2 = TutorialCircuit::configure(&mut schema2).unwrap();
    schema2.finalize();
    let mut syn2 = Synthesizer::new(schema2, grid_rows(4));
    let chip2 = TutorialChip::new(config2);
    let (_, _, out2) = chip2
        .raw_multiply(
            &mut syn2,
            (
                Deferred::Known(Felt::from_u64(2)),
                Deferred::Known(Felt::from_u64(3)),
                Deferred::Known(Felt::from_u64(6)),
            ),
        )
        .unwrap();
    let _ = chip2.copy(&mut syn2, out2, config2.l, 0).unwrap();
    assert!(!accepts(&syn2, &instance));
}

#[test]
fn without_witnesses_builds_the_same_shape() {
    // The schema-only pass assigns Unknown everywhere; the grid is built,
    // and only the value-dependent checks fail.
    let mut schema = Schema::new();
    let config = TestCircuit::configure(&mut schema).unwrap();
    schema.finalize();
    let mut syn = Synthesizer::new(schema, grid_rows(4));
    let circuit = TestCircuit::new(
        Deferred::Known(Felt::from_u64(3)),
        Deferred::Known(Felt::from_u64(4)),
        Deferred::Known(Felt::from_u64(12)),
    );
    let shape_only = circuit.without_witnesses();
    shape_only.synthesize(config, &mut syn).unwrap();
    assert_eq!(syn.num_copies(), 3);
    assert_eq!(syn.num_bindings(), 1);
    assert_eq!(syn.next_free_row(), 4);
    assert_eq!(syn.lookup(config.a, 0), Felt::zero());
}

#[test]
fn chip_getters_report_the_configuration() {
    let mut schema = Schema::new();
    let config = TestCircuit::configure(&mut schema).unwrap();
    let chip = TestChip::new(config);
    assert_eq!(*chip.config(), config);
    assert_eq!(config.a.kind, ColumnKind::Witness);
    assert_eq!(config.s.kind, ColumnKind::Selector);
    assert_eq!(config.instance.kind, ColumnKind::Public);
}

#[test]
fn grid_rows_is_a_power_of_two() {
    assert_eq!(grid_rows(0), 1);
    assert_eq!(grid_rows(4), 16);
    assert_eq!(grid_rows(10), 1024);
}

#[test]
fn composer_copy_needs_equality_support() {
    // Selector columns never support equality: copying into one is a
    // constraint-scope misuse and must leave the assembly untouched.
    let mut schema = Schema::new();
    let config = TutorialCircuit::configure(&mut schema).unwrap();
    schema.finalize();
    let mut syn = Synthesizer::new(schema, grid_rows(4));
    let chip = TutorialChip::new(config);
    let (_, _, out) = chip
        .raw_multiply(
            &mut syn,
            (
                Deferred::Known(Felt::from_u64(2)),
                Deferred::Known(Felt::from_u64(3)),
                Deferred::Known(Felt::from_u64(6)),
            ),
        )
        .unwrap();
    let r = chip.copy(&mut syn, out, config.sm, 0);
    assert_eq!(r, Err(CircuitError::ConstraintScopeError));
    assert_eq!(syn.num_copies(), 0);
    assert_eq!(syn.next_free_row(), 1);
}
