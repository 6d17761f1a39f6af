use vstd::prelude::*;
use vstd::arithmetic::div_mod::{
    lemma_fundamental_div_mod, lemma_mod_multiples_basic, lemma_mod_multiples_vanish,
};
use crate::chip::{cell_value, is_sum, Cell, Layouter, Row};
use crate::field::{modulus, Felt};
use crate::circuit::{a_source, fib_values, is_fib_trace, lemma_recurrence, wire};

verus! {

/// The first constraint that a trace breaks.
#[derive(Clone, Copy, Debug, PartialEq, Eq, Structural)]
pub enum Failure {
    /// The `add` gate does not vanish on this row, or one of its cells is absent.
    Gate { row: usize },
    /// This copy constraint joins cells that are absent or differ.
    Copy { index: usize },
}

/// The checker's answer on a whole trace.
#[derive(Clone, Copy, Debug, PartialEq, Eq, Structural)]
pub enum Verdict {
    Satisfied,
    Unsatisfied(Failure),
}

/// On a row whose selector is on, `a + b - c` is zero in the field.
pub open spec fn gate_holds(r: Row) -> bool {
    r.selector ==> match (r.a, r.b, r.c) {
        (Some(a), Some(b), Some(c)) => (a.value() + b.value() - c.value()) % modulus() == 0,
        _ => false,
    }
}

/// Both cells of a copy constraint hold values, and the same one.
pub open spec fn copy_holds(rows: Seq<Row>, w: (Cell, Cell)) -> bool {
    &&& cell_value(rows, w.0) is Some
    &&& cell_value(rows, w.1) is Some
    &&& cell_value(rows, w.0)->0.value() == cell_value(rows, w.1)->0.value()
}

pub open spec fn gates_hold_below(rows: Seq<Row>, n: int) -> bool {
    forall|r: int| 0 <= r < n ==> gate_holds(#[trigger] rows[r])
}

pub open spec fn copies_hold_below(rows: Seq<Row>, copies: Seq<(Cell, Cell)>, n: int) -> bool {
    forall|k: int| 0 <= k < n ==> copy_holds(rows, #[trigger] copies[k])
}

/// Every gate holds on every row and every copy constraint holds.
pub open spec fn satisfied(t: Layouter) -> bool {
    &&& gates_hold_below(t.rows@, t.rows@.len() as int)
    &&& copies_hold_below(t.rows@, t.copies@, t.copies@.len() as int)
}

proof fn lemma_sum_vanishes(x: int, c: int)
    requires
        c == x % modulus(),
    ensures
        (x - c) % modulus() == 0,
{
    let p = modulus();
    lemma_fundamental_div_mod(x, p);
    lemma_mod_multiples_basic(x / p, p);
    assert(x - c == (x / p) * p) by (nonlinear_arith)
        requires
            x == p * (x / p) + x % p,
            c == x % p,
    ;
}

/// Gates are sound on accepted traces: on every row whose selector is on,
/// `a`, `b` and `c` are present and `a + b = c` in the field.
pub proof fn lemma_gate_soundness(t: Layouter, r: int)
    requires
        satisfied(t),
        0 <= r < t.rows@.len(),
        t.rows@[r].selector,
    ensures
        t.rows@[r].a is Some && t.rows@[r].b is Some && t.rows@[r].c is Some,
        (t.rows@[r].a->0.value() + t.rows@[r].b->0.value() - t.rows@[r].c->0.value()) % modulus()
            == 0,
{
    assert(gate_holds(t.rows@[r]));
}

/// Copy constraints are sound on accepted traces: where a trace of `n` rows
/// carries the chain's wiring and passes the check, each row after the first
/// starts with the previous row's `b` and `c`.
pub proof fn lemma_copy_soundness(t: Layouter, n: nat)
    requires
        satisfied(t),
        n >= 1,
        t.rows@.len() == n,
        t.copies@ == Seq::new((2 * (n - 1)) as nat, |k: int| wire(k)),
    ensures
        forall|r: int|
            1 <= r < n ==> {
                &&& (#[trigger] t.rows@[r]).a is Some
                &&& t.rows@[r].b is Some
                &&& t.rows@[r - 1].b is Some
                &&& t.rows@[r - 1].c is Some
                &&& t.rows@[r].a->0.value() == t.rows@[r - 1].b->0.value()
                &&& t.rows@[r].b->0.value() == t.rows@[r - 1].c->0.value()
            },
{
    let rows = t.rows@;
    assert forall|r: int| 1 <= r < n implies {
        &&& (#[trigger] t.rows@[r]).a is Some
        &&& t.rows@[r].b is Some
        &&& t.rows@[r - 1].b is Some
        &&& t.rows@[r - 1].c is Some
        &&& t.rows@[r].a->0.value() == t.rows@[r - 1].b->0.value()
        &&& t.rows@[r].b->0.value() == t.rows@[r - 1].c->0.value()
    } by {
        lemma_copy_soundness_row(t, n, r);
    }
}

proof fn lemma_copy_soundness_row(t: Layouter, n: nat, r: int)
    requires
        satisfied(t),
        t.rows@.len() == n,
        t.copies@ == Seq::new((2 * (n - 1)) as nat, |k: int| wire(k)),
        1 <= r < n,
    ensures
        t.rows@[r].a is Some,
        t.rows@[r].b is Some,
        t.rows@[r - 1].b is Some,
        t.rows@[r - 1].c is Some,
        t.rows@[r].a->0.value() == t.rows@[r - 1].b->0.value(),
        t.rows@[r].b->0.value() == t.rows@[r - 1].c->0.value(),
    decreases r,
{
    assert(t.rows@.len() == t.rows.len());
    let rows = t.rows@;
    let ka = 2 * r - 2;
    let kb = 2 * r - 1;
    assert(ka / 2 + 1 == r && ka % 2 == 0);
    assert(kb / 2 + 1 == r && kb % 2 == 1);
    assert(copy_holds(rows, t.copies@[ka]));
    assert(copy_holds(rows, t.copies@[kb]));
    assert(t.copies@[ka] == (a_source(r), Cell { row: r as usize, col: 0 }));
    assert(t.copies@[kb] == (Cell { row: (r - 1) as usize, col: 2 }, Cell { row: r as usize, col: 1 }));
    if r >= 2 {
        lemma_copy_soundness_row(t, n, r - 1);
    }
}

/// Every trace that the assembler builds from present seeds passes the check.
pub proof fn lemma_fib_trace_satisfied(x: Felt, y: Felt, n: nat, t: Layouter)
    requires
        is_fib_trace(Some(x), Some(y), n, t),
    ensures
        satisfied(t),
{
    lemma_recurrence(x.value(), y.value(), Some(x), Some(y), n, t);
    reveal(is_fib_trace);
    let rows = t.rows@;
    assert forall|r: int| 0 <= r < rows.len() implies gate_holds(#[trigger] rows[r]) by {
        assert(is_sum(rows[r].a, rows[r].b, rows[r].c));
        lemma_sum_vanishes(rows[r].a->0.value() + rows[r].b->0.value(), rows[r].c->0.value());
    }
    assert forall|k: int| 0 <= k < t.copies@.len() implies copy_holds(rows, #[trigger] t.copies@[k]) by {
        lemma_fib_copy_holds(x, y, n, t, k);
    }
}

proof fn lemma_fib_copy_holds(x: Felt, y: Felt, n: nat, t: Layouter, k: int)
    requires
        is_fib_trace(Some(x), Some(y), n, t),
        fib_values(x.value(), y.value(), t.rows@),
        0 <= k < 2 * (n - 1),
    ensures
        copy_holds(t.rows@, t.copies@[k]),
{
    reveal(is_fib_trace);
    assert(t.rows@.len() == t.rows.len());
    let rows = t.rows@;
    let r = k / 2 + 1;
    assert(1 <= r < n);
    assert(t.copies@[k] == wire(k));
    assert(rows[r].a == rows[r - 1].b);
    assert(rows[r].b == rows[r - 1].c);
    assert(rows[r].a is Some && rows[r].b is Some);
    if r >= 2 {
        assert(rows[r - 1].b == rows[r - 2].c);
    }
}

fn check_gate(row: &Row) -> (r: bool)
    ensures
        r == gate_holds(*row),
{
    if !row.selector {
        return true;
    }
    match (row.a, row.b, row.c) {
        (Some(a), Some(b), Some(c)) => {
            let e = a.add(&b).sub(&c);
            let z = Felt::zero();
            let r = e.equals(&z);
            proof {
                let p = modulus();
                let x = a.value() + b.value();
                lemma_fundamental_div_mod(x, p);
                lemma_mod_multiples_vanish(-(x / p), x - c.value(), p);
                assert(p * (-(x / p)) + (x - c.value()) == x % p - c.value()) by (nonlinear_arith)
                    requires
                        x == p * (x / p) + x % p,
                ;
            }
            r
        },
        _ => false,
    }
}

fn cell_at(rows: &Vec<Row>, cell: Cell) -> (r: Option<Felt>)
    ensures
        r == cell_value(rows@, cell),
{
    if cell.row < rows.len() && cell.col < 3 {
        let row = rows[cell.row];
        if cell.col == 0 {
            row.a
        } else if cell.col == 1 {
            row.b
        } else {
            row.c
        }
    } else {
        None
    }
}

fn check_copy(rows: &Vec<Row>, w: (Cell, Cell)) -> (r: bool)
    ensures
        r == copy_holds(rows@, w),
{
    match (cell_at(rows, w.0), cell_at(rows, w.1)) {
        (Some(x), Some(y)) => x.equals(&y),
        _ => false,
    }
}

/// Decides whether a trace satisfies the table. Gates are checked row by row
/// first, then copy constraints as they were declared; a failure names the
/// earliest broken one.
pub fn verify(trace: &Layouter) -> (r: Verdict)
    ensures
        r is Satisfied <==> satisfied(*trace),
        r matches Verdict::Unsatisfied(Failure::Gate { row }) ==> {
            &&& row < trace.rows@.len()
            &&& !gate_holds(trace.rows@[row as int])
            &&& gates_hold_below(trace.rows@, row as int)
        },
        r matches Verdict::Unsatisfied(Failure::Copy { index }) ==> {
            &&& gates_hold_below(trace.rows@, trace.rows@.len() as int)
            &&& index < trace.copies@.len()
            &&& !copy_holds(trace.rows@, trace.copies@[index as int])
            &&& copies_hold_below(trace.rows@, trace.copies@, index as int)
        },
{
    let mut i: usize = 0;
    while i < trace.rows.len()
        invariant
            0 <= i <= trace.rows@.len(),
            gates_hold_below(trace.rows@, i as int),
        decreases trace.rows@.len() - i,
    {
        if !check_gate(&trace.rows[i]) {
            return Verdict::Unsatisfied(Failure::Gate { row: i });
        }
        i = i + 1;
    }
    let mut k: usize = 0;
    while k < trace.copies.len()
        invariant
            0 <= k <= trace.copies@.len(),
            gates_hold_below(trace.rows@, trace.rows@.len() as int),
            copies_hold_below(trace.rows@, trace.copies@, k as int),
        decreases trace.copies@.len() - k,
    {
        if !check_copy(&trace.rows, trace.copies[k]) {
            return Verdict::Unsatisfied(Failure::Copy { index: k });
        }
        k = k + 1;
    }
    Verdict::Satisfied
}

} // verus!
