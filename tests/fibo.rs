use fibo_circuit::{
    verify, AssignedCell, Cell, Column, ColumnKind, ConstraintSystem, Error, Failure, Felt,
    FiboChip, FiboConfig, Gate, Layouter, MyCircuit, Selector, Verdict,
};

fn fe(n: u64) -> Felt {
    Felt::from_u64(n)
}

fn setup() -> (ConstraintSystem, FiboConfig) {
    let mut meta = ConstraintSystem::new();
    let config = MyCircuit::configure(&mut meta);
    (meta, config)
}

fn build(a: u64, b: u64, rows: usize) -> Layouter {
    let (_, config) = setup();
    let circuit = MyCircuit { a: Some(fe(a)), b: Some(fe(b)), rows };
    circuit.synthesize(config, false).unwrap()
}

// a - 1 in the field, as bytes: p - 1
fn p_minus_one() -> Felt {
    fe(0).sub(&fe(1))
}

#[test]
fn field_add_small_values() {
    assert_eq!(fe(2).add(&fe(3)), fe(5));
    assert!(fe(20).add(&fe(35)).equals(&fe(55)));
}

#[test]
fn field_add_wraps_at_modulus() {
    assert_eq!(p_minus_one().add(&fe(1)), fe(0));
    assert_eq!(p_minus_one().add(&fe(5)), fe(4));
}

#[test]
fn field_sub_and_mul() {
    assert_eq!(fe(9).sub(&fe(4)), fe(5));
    assert_eq!(fe(6).mul(&fe(7)), fe(42));
    assert_eq!(p_minus_one().mul(&p_minus_one()), fe(1));
    assert_eq!(fe(3).sub(&fe(3)), Felt::zero());
    assert_eq!(Felt::one().mul(&fe(11)), fe(11));
}

#[test]
fn field_equals_distinguishes() {
    assert!(fe(7).equals(&fe(7)));
    assert!(!fe(7).equals(&fe(8)));
}

#[test]
fn field_bytes_round_trip() {
    let mut bytes = [0u8; 32];
    bytes[0] = 0x37;
    bytes[1] = 0x01;
    let x = Felt::from_bytes(bytes).unwrap();
    assert_eq!(x, fe(0x137));
    assert_eq!(x.to_bytes(), bytes);
    assert_eq!(fe(55).to_bytes()[0], 55);
}

#[test]
fn field_rejects_non_canonical_bytes() {
    let pm1 = p_minus_one().to_bytes();
    assert_eq!(pm1[0], 0x00);
    assert_eq!(pm1[31], 0x40);
    let mut p = pm1;
    p[0] = 0x01;
    assert!(Felt::from_bytes(p).is_none());
    assert!(Felt::from_bytes([0xff; 32]).is_none());
    assert!(Felt::from_bytes(pm1).is_some());
}

#[test]
fn configure_declares_columns_gate_and_equality() {
    let (meta, config) = setup();
    assert_eq!(meta.num_advice, 3);
    assert_eq!(meta.num_instance, 1);
    assert_eq!(meta.num_selectors, 1);
    for i in 0..3 {
        assert_eq!(config.advice[i], Column { kind: ColumnKind::Advice, index: i });
    }
    assert_eq!(config.instance, Column { kind: ColumnKind::Instance, index: 0 });
    assert_eq!(config.selector, Selector { index: 0 });
    assert_eq!(
        meta.gates,
        vec![Gate {
            selector: Selector { index: 0 },
            a: config.advice[0],
            b: config.advice[1],
            c: config.advice[2],
        }]
    );
    assert_eq!(meta.equality.len(), 4);
    assert!(meta.equality.contains(&config.instance));
}

#[test]
fn chip_configure_on_given_columns() {
    let mut meta = ConstraintSystem::new();
    let a = meta.advice_column();
    let b = meta.advice_column();
    let c = meta.advice_column();
    let inst = meta.instance_column();
    meta.enable_equality(a);
    let config = FiboChip::configure(&mut meta, [a, b, c], inst);
    assert_eq!(config.advice, [a, b, c]);
    assert_eq!(meta.equality, vec![a, b, c, inst]);
    let chip = FiboChip::construct(config);
    assert_eq!(chip.config.selector, Selector { index: 0 });
}

#[test]
fn enable_equality_keeps_one_entry() {
    let mut meta = ConstraintSystem::new();
    let a = meta.advice_column();
    meta.enable_equality(a);
    meta.enable_equality(a);
    assert_eq!(meta.equality, vec![a]);
}

#[test]
fn first_row_sums_seeds() {
    let (_, config) = setup();
    let chip = FiboChip::construct(config);
    let mut layouter = Layouter::new(false);
    let (a, b, c) = chip.assign_first_row(&mut layouter, Some(fe(2)), Some(fe(5))).unwrap();
    assert_eq!(a, AssignedCell { cell: Cell { row: 0, col: 0 }, value: Some(fe(2)) });
    assert_eq!(b, AssignedCell { cell: Cell { row: 0, col: 1 }, value: Some(fe(5)) });
    assert_eq!(c, AssignedCell { cell: Cell { row: 0, col: 2 }, value: Some(fe(7)) });
    assert_eq!(layouter.rows.len(), 1);
    assert!(layouter.rows[0].selector);
    assert!(layouter.copies.is_empty());
}

#[test]
fn first_row_rejects_absent_seed() {
    let (_, config) = setup();
    let chip = FiboChip::construct(config);
    let mut layouter = Layouter::new(false);
    assert_eq!(chip.assign_first_row(&mut layouter, None, Some(fe(1))), Err(Error::Synthesis));
    assert_eq!(chip.assign_first_row(&mut layouter, Some(fe(1)), None), Err(Error::Synthesis));
    assert!(layouter.rows.is_empty());
}

#[test]
fn first_row_shape_only_leaves_values_absent() {
    let (_, config) = setup();
    let chip = FiboChip::construct(config);
    let mut layouter = Layouter::new(true);
    let (a, _, c) = chip.assign_first_row(&mut layouter, None, None).unwrap();
    assert_eq!(a.value, None);
    assert_eq!(c.value, None);
    assert_eq!(layouter.rows.len(), 1);
}

#[test]
fn next_row_copies_and_sums() {
    let (_, config) = setup();
    let chip = FiboChip::construct(config);
    let mut layouter = Layouter::new(false);
    let (_, b, c) = chip.assign_first_row(&mut layouter, Some(fe(1)), Some(fe(2))).unwrap();
    let c1 = chip.assign_row(&mut layouter, &b, &c).unwrap();
    assert_eq!(c1, AssignedCell { cell: Cell { row: 1, col: 2 }, value: Some(fe(5)) });
    assert_eq!(layouter.rows[1].a, Some(fe(2)));
    assert_eq!(layouter.rows[1].b, Some(fe(3)));
    assert_eq!(
        layouter.copies,
        vec![
            (Cell { row: 0, col: 1 }, Cell { row: 1, col: 0 }),
            (Cell { row: 0, col: 2 }, Cell { row: 1, col: 1 }),
        ]
    );
}

#[test]
fn next_row_rejects_absent_operand() {
    let mut layouter = Layouter::new(false);
    let (_, config) = setup();
    let chip = FiboChip::construct(config);
    let b = AssignedCell { cell: Cell { row: 0, col: 1 }, value: None };
    let c = AssignedCell { cell: Cell { row: 0, col: 2 }, value: Some(fe(1)) };
    assert_eq!(chip.assign_row(&mut layouter, &b, &c), Err(Error::Synthesis));
    assert!(layouter.rows.is_empty() && layouter.copies.is_empty());
}

#[test]
fn next_row_shape_only_still_wires() {
    let mut layouter = Layouter::new(true);
    let (_, config) = setup();
    let chip = FiboChip::construct(config);
    let b = AssignedCell { cell: Cell { row: 0, col: 1 }, value: None };
    let c = AssignedCell { cell: Cell { row: 0, col: 2 }, value: Some(fe(1)) };
    let out = chip.assign_row(&mut layouter, &b, &c).unwrap();
    assert_eq!(out.value, None);
    assert_eq!(layouter.copies.len(), 2);
}

#[test]
fn fibonacci_reaches_55() {
    let t = build(1, 1, 8);
    assert_eq!(t.rows.len(), 8);
    assert_eq!(t.rows[7].c, Some(fe(55)));
    assert_eq!(verify(&t), Verdict::Satisfied);
}

#[test]
fn ten_rows_end_in_144() {
    let t = build(1, 1, 10);
    assert_eq!(t.rows[9].c, Some(fe(144)));
    assert_eq!(verify(&t), Verdict::Satisfied);
}

#[test]
fn single_row_trace() {
    let t = build(3, 4, 1);
    assert_eq!(t.rows.len(), 1);
    assert_eq!(t.rows[0].c, Some(fe(7)));
    assert!(t.copies.is_empty());
    assert_eq!(verify(&t), Verdict::Satisfied);
}

#[test]
fn every_row_gated_and_chained() {
    let t = build(2, 7, 9);
    for r in 0..9 {
        let row = t.rows[r];
        assert!(row.selector);
        assert_eq!(row.a.unwrap().add(&row.b.unwrap()), row.c.unwrap());
        if r >= 1 {
            assert_eq!(row.a, t.rows[r - 1].b);
            assert_eq!(row.b, t.rows[r - 1].c);
        }
    }
    assert_eq!(t.copies.len(), 16);
    assert_eq!(t.copies[2], (Cell { row: 0, col: 2 }, Cell { row: 2, col: 0 }));
}

#[test]
fn recurrence_with_other_seeds() {
    // 2, 7, 9, 16, 25, 41, 66
    let t = build(2, 7, 5);
    assert_eq!(t.rows[4].c, Some(fe(66)));
}

#[test]
fn synthesis_is_deterministic() {
    let t1 = build(5, 8, 12);
    let t2 = build(5, 8, 12);
    assert_eq!(t1.rows, t2.rows);
    assert_eq!(t1.copies, t2.copies);
    for r in 0..12 {
        assert_eq!(t1.rows[r].c.unwrap().to_bytes(), t2.rows[r].c.unwrap().to_bytes());
    }
}

#[test]
fn synthesis_rejects_absent_seed() {
    let (_, config) = setup();
    let circuit = MyCircuit { a: Some(fe(1)), b: Some(fe(1)), rows: 8 };
    let blank = circuit.without_witnesses();
    assert_eq!(blank, MyCircuit { a: None, b: None, rows: 8 });
    assert_eq!(blank.synthesize(config, false).unwrap_err(), Error::Synthesis);
    let shape = blank.synthesize(config, true).unwrap();
    assert_eq!(shape.rows.len(), 8);
    assert_eq!(shape.copies.len(), 14);
    assert!(shape.rows.iter().all(|r| r.c.is_none()));
}

#[test]
fn overwritten_output_fails_gate() {
    let mut t = build(1, 1, 8);
    t.set_cell(Cell { row: 7, col: 2 }, Some(fe(56)));
    assert_eq!(verify(&t), Verdict::Unsatisfied(Failure::Gate { row: 7 }));
}

#[test]
fn ten_rows_overwritten_output_fails_gate() {
    let mut t = build(1, 1, 10);
    t.set_cell(Cell { row: 9, col: 2 }, Some(fe(56)));
    assert_eq!(verify(&t), Verdict::Unsatisfied(Failure::Gate { row: 9 }));
}

#[test]
fn tampered_copy_fails_wiring() {
    let mut t = build(1, 1, 8);
    // row 5 gets an `a` of its own and a `c` that keeps its gate true
    let b5 = t.rows[5].b.unwrap();
    t.set_cell(Cell { row: 5, col: 0 }, Some(fe(100)));
    t.set_cell(Cell { row: 5, col: 2 }, Some(fe(100).add(&b5)));
    for r in 0..8 {
        let row = t.rows[r];
        assert_eq!(row.a.unwrap().add(&row.b.unwrap()), row.c.unwrap());
    }
    // row 5's `a` is copy constraint 8 (row 3's `c` to row 5's `a`)
    assert_eq!(verify(&t), Verdict::Unsatisfied(Failure::Copy { index: 8 }));
}

#[test]
fn absent_cell_on_active_row_fails_gate() {
    let mut t = build(1, 1, 3);
    t.set_cell(Cell { row: 1, col: 1 }, None);
    assert_eq!(verify(&t), Verdict::Unsatisfied(Failure::Gate { row: 1 }));
}

#[test]
fn inactive_row_is_not_gated() {
    let mut t = build(1, 1, 1);
    t.rows[0].selector = false;
    t.set_cell(Cell { row: 0, col: 2 }, Some(fe(9)));
    assert_eq!(verify(&t), Verdict::Satisfied);
}
