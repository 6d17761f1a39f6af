use vstd::prelude::*;
use crate::chip::{is_sum, AssignedCell, Cell, Error, FiboChip, FiboConfig, Layouter, Row};
use crate::field::{modulus, Felt};
use crate::table::{Column, ColumnKind, ConstraintSystem, Gate, Selector};

verus! {

/// The two-term recurrence seeded by `x` and `y`, in the field:
/// `fib(0) = x`, `fib(1) = y`, `fib(n + 2) = fib(n) + fib(n + 1)`.
pub open spec fn fib(x: int, y: int, n: nat) -> int
    decreases n,
{
    if n == 0 {
        x
    } else if n == 1 {
        y
    } else {
        (fib(x, y, (n - 2) as nat) + fib(x, y, (n - 1) as nat)) % modulus()
    }
}

/// The cell whose value row `r` takes as its `a`: row 0's `b` for row 1, and
/// row `r - 2`'s `c` after that (the same value as row `r - 1`'s `b`).
pub open spec fn a_source(r: int) -> Cell {
    if r == 1 {
        Cell { row: 0, col: 1 }
    } else {
        Cell { row: (r - 2) as usize, col: 2 }
    }
}

/// The `k`-th copy constraint of the chain, for row `r = k / 2 + 1`: first its
/// `a` is wired to `a_source(r)`, then its `b` to row `r - 1`'s `c`.
pub open spec fn wire(k: int) -> (Cell, Cell) {
    let r = k / 2 + 1;
    if k % 2 == 0 {
        (a_source(r), Cell { row: r as usize, col: 0 })
    } else {
        (Cell { row: (r - 1) as usize, col: 2 }, Cell { row: r as usize, col: 1 })
    }
}

/// Every row has its selector on and `c = a + b` (absent if an operand is).
pub open spec fn rows_gated(rows: Seq<Row>) -> bool {
    forall|r: int|
        0 <= r < rows.len() ==> (#[trigger] rows[r]).selector && is_sum(
            rows[r].a,
            rows[r].b,
            rows[r].c,
        )
}

/// Each row after the first starts with the previous row's `b` and `c`.
pub open spec fn rows_chained(rows: Seq<Row>) -> bool {
    forall|r: int|
        1 <= r < rows.len() ==> (#[trigger] rows[r]).a == rows[r - 1].b && rows[r].b == rows[r
            - 1].c
}

/// The trace that the assembler builds for seeds `x`, `y` and `n` rows.
#[verifier::opaque]
pub open spec fn is_fib_trace(x: Option<Felt>, y: Option<Felt>, n: nat, t: Layouter) -> bool {
    &&& n >= 1
    &&& t.rows@.len() == n
    &&& t.rows@[0].a == x
    &&& t.rows@[0].b == y
    &&& rows_gated(t.rows@)
    &&& rows_chained(t.rows@)
    &&& t.copies@ == Seq::new((2 * (n - 1)) as nat, |k: int| wire(k))
}

/// Row `k` holds `fib(k)`, `fib(k + 1)` and `fib(k + 2)`, all present.
pub open spec fn fib_values(x: int, y: int, rows: Seq<Row>) -> bool {
    forall|k: int|
        0 <= k < rows.len() ==> {
            &&& (#[trigger] rows[k]).a is Some
            &&& rows[k].b is Some
            &&& rows[k].c is Some
            &&& rows[k].a->0.value() == fib(x, y, k as nat)
            &&& rows[k].b->0.value() == fib(x, y, (k + 1) as nat)
            &&& rows[k].c->0.value() == fib(x, y, (k + 2) as nat)
        }
}

/// A trace built from present seeds follows the recurrence: row `k` holds
/// `fib(k)`, `fib(k + 1)`, `fib(k + 2)`, so the last of `n` rows ends in
/// `fib(n + 1)`.
pub proof fn lemma_recurrence(x: int, y: int, sa: Option<Felt>, sb: Option<Felt>, n: nat, t: Layouter)
    requires
        sa is Some && sa->0.value() == x,
        sb is Some && sb->0.value() == y,
        is_fib_trace(sa, sb, n, t),
    ensures
        fib_values(x, y, t.rows@),
        t.rows@[n - 1].c->0.value() == fib(x, y, n + 1),
{
    reveal(is_fib_trace);
    let rows = t.rows@;
    lemma_row_values(x, y, sa, sb, n, t, n - 1);
    assert forall|k: int| 0 <= k < rows.len() implies {
        &&& (#[trigger] rows[k]).a is Some
        &&& rows[k].b is Some
        &&& rows[k].c is Some
        &&& rows[k].a->0.value() == fib(x, y, k as nat)
        &&& rows[k].b->0.value() == fib(x, y, (k + 1) as nat)
        &&& rows[k].c->0.value() == fib(x, y, (k + 2) as nat)
    } by {
        lemma_row_values(x, y, sa, sb, n, t, k);
    }
}

proof fn lemma_row_values(x: int, y: int, sa: Option<Felt>, sb: Option<Felt>, n: nat, t: Layouter, k: int)
    requires
        sa is Some && sa->0.value() == x,
        sb is Some && sb->0.value() == y,
        is_fib_trace(sa, sb, n, t),
        0 <= k < n,
    ensures
        t.rows@[k].a is Some,
        t.rows@[k].b is Some,
        t.rows@[k].c is Some,
        t.rows@[k].a->0.value() == fib(x, y, k as nat),
        t.rows@[k].b->0.value() == fib(x, y, (k + 1) as nat),
        t.rows@[k].c->0.value() == fib(x, y, (k + 2) as nat),
    decreases k,
{
    reveal(is_fib_trace);
    let rows = t.rows@;
    assert(rows[k].selector);
    if k > 0 {
        lemma_row_values(x, y, sa, sb, n, t, k - 1);
        assert(rows[k].a == rows[k - 1].b);
    }
    assert(fib(x, y, (k + 2) as nat) == (fib(x, y, k as nat) + fib(x, y, (k + 1) as nat))
        % modulus());
}

/// Synthesis is deterministic: two traces built from the same seeds and row
/// count are the same, row for row and down to the bytes of every cell, with
/// the same copy constraints.
pub proof fn lemma_deterministic(x: Option<Felt>, y: Option<Felt>, n: nat, t1: Layouter, t2: Layouter)
    requires
        is_fib_trace(x, y, n, t1),
        is_fib_trace(x, y, n, t2),
    ensures
        t1.rows@ == t2.rows@,
        t1.copies@ == t2.copies@,
{
    reveal(is_fib_trace);
    assert forall|k: int| 0 <= k < n implies #[trigger] t1.rows@[k] == t2.rows@[k] by {
        lemma_same_row(x, y, n, t1, t2, k);
    }
    assert(t1.rows@ =~= t2.rows@);
}

proof fn lemma_same_row(x: Option<Felt>, y: Option<Felt>, n: nat, t1: Layouter, t2: Layouter, k: int)
    requires
        is_fib_trace(x, y, n, t1),
        is_fib_trace(x, y, n, t2),
        0 <= k < n,
    ensures
        t1.rows@[k] == t2.rows@[k],
    decreases k,
{
    reveal(is_fib_trace);
    let (r1, r2) = (t1.rows@[k], t2.rows@[k]);
    if k > 0 {
        lemma_same_row(x, y, n, t1, t2, k - 1);
        assert(r1.a == t1.rows@[k - 1].b && r2.a == t2.rows@[k - 1].b);
        assert(r1.b == t1.rows@[k - 1].c && r2.b == t2.rows@[k - 1].c);
    }
    assert(r1.selector && r2.selector);
    assert(is_sum(r1.a, r1.b, r1.c) && is_sum(r2.a, r2.b, r2.c));
    if r1.c is Some {
        r1.c->0.lemma_value_eq(r2.c->0);
    }
}

proof fn lemma_wire_pair(i: int)
    requires
        i >= 1,
    ensures
        wire(2 * i - 2) == (a_source(i), Cell { row: i as usize, col: 0 }),
        wire(2 * i - 1) == (Cell { row: (i - 1) as usize, col: 2 }, Cell { row: i as usize, col: 1 }),
{
    assert((2 * i - 2) / 2 == i - 1 && (2 * i - 2) % 2 == 0);
    assert((2 * i - 1) / 2 == i - 1 && (2 * i - 1) % 2 == 1);
}

/// Appending one more chained row keeps the shape of the trace.
proof fn lemma_extend(
    x: Option<Felt>,
    y: Option<Felt>,
    i: nat,
    before: Layouter,
    after: Layouter,
    c: Option<Felt>,
)
    requires
        i >= 1,
        is_fib_trace(x, y, i, before),
        is_sum(before.rows@[i - 1].b, before.rows@[i - 1].c, c),
        after.rows@ == before.rows@.push(
            Row { selector: true, a: before.rows@[i - 1].b, b: before.rows@[i - 1].c, c },
        ),
        after.copies@ == before.copies@.push((a_source(i as int), Cell { row: i as usize, col: 0 })).push((Cell { row: (i - 1) as usize, col: 2 }, Cell { row: i as usize, col: 1 })),
    ensures
        is_fib_trace(x, y, i + 1, after),
{
    reveal(is_fib_trace);
    let rows = after.rows@;
    assert forall|r: int| 0 <= r < rows.len() implies (#[trigger] rows[r]).selector && is_sum(
        rows[r].a,
        rows[r].b,
        rows[r].c,
    ) by {
        if r < i {
            assert(rows[r] == before.rows@[r]);
        }
    }
    assert forall|r: int| 1 <= r < rows.len() implies (#[trigger] rows[r]).a == rows[r - 1].b
        && rows[r].b == rows[r - 1].c by {
        if r < i {
            assert(rows[r] == before.rows@[r]);
        }
    }
    lemma_extend_copies(before.copies@, after.copies@, i);
}

proof fn lemma_extend_copies(before: Seq<(Cell, Cell)>, after: Seq<(Cell, Cell)>, i: nat)
    requires
        i >= 1,
        before == Seq::new((2 * (i - 1)) as nat, |k: int| wire(k)),
        after == before.push((a_source(i as int), Cell { row: i as usize, col: 0 })).push(
            (Cell { row: (i - 1) as usize, col: 2 }, Cell { row: i as usize, col: 1 }),
        ),
    ensures
        after == Seq::new((2 * i) as nat, |k: int| wire(k)),
{
    lemma_wire_pair(i as int);
    assert(after =~= Seq::new((2 * i) as nat, |k: int| wire(k)));
}

/// The circuit: two private seeds and the number of rows to fill.
#[derive(Clone, Copy, Debug, PartialEq, Eq)]
pub struct MyCircuit {
    pub a: Option<Felt>,
    pub b: Option<Felt>,
    pub rows: usize,
}

impl MyCircuit {
    /// The same circuit with its witness values taken out.
    pub fn without_witnesses(&self) -> (r: MyCircuit)
        ensures
            r == (MyCircuit { a: None, b: None, rows: self.rows }),
    {
        MyCircuit { a: None, b: None, rows: self.rows }
    }

    /// Declares three advice columns and one instance column, then the chip's
    /// selector, gate and equality wiring over them.
    pub fn configure(meta: &mut ConstraintSystem) -> (r: FiboConfig)
        requires
            old(meta).num_advice + 3 <= usize::MAX,
            old(meta).num_instance < usize::MAX,
            old(meta).num_selectors < usize::MAX,
        ensures
            forall|i: int|
                0 <= i < 3 ==> #[trigger] r.advice[i] == (Column {
                    kind: ColumnKind::Advice,
                    index: (old(meta).num_advice + i) as usize,
                }),
            r.instance == (Column { kind: ColumnKind::Instance, index: old(meta).num_instance }),
            r.selector == (Selector { index: old(meta).num_selectors }),
            final(meta).num_advice == old(meta).num_advice + 3,
            final(meta).num_instance == old(meta).num_instance + 1,
            final(meta).num_selectors == old(meta).num_selectors + 1,
            final(meta).gates@ == old(meta).gates@.push(
                Gate { selector: r.selector, a: r.advice[0], b: r.advice[1], c: r.advice[2] },
            ),
            forall|c: Column|
                #[trigger] final(meta).equality@.contains(c) <==> (old(meta).equality@.contains(c)
                    || c == r.advice[0] || c == r.advice[1] || c == r.advice[2] || c
                    == r.instance),
    {
        let col_a = meta.advice_column();
        let col_b = meta.advice_column();
        let col_c = meta.advice_column();
        let instance = meta.instance_column();
        let advice = [col_a, col_b, col_c];
        FiboChip::configure(meta, advice, instance)
    }

    /// Builds the trace: the first row from the seeds, then `rows - 1` rows,
    /// each fed the previous row's `b` and `c`. Outside shape-only mode an
    /// absent seed is a synthesis error and no trace comes back.
    pub fn synthesize(&self, config: FiboConfig, shape_only: bool) -> (r: Result<Layouter, Error>)
        requires
            self.rows >= 1,
        ensures
            r is Err <==> (!shape_only && (self.a is None || self.b is None)),
            r is Err ==> r->Err_0 == Error::Synthesis,
            r is Ok ==> is_fib_trace(self.a, self.b, self.rows as nat, r->Ok_0),
            r is Ok ==> r->Ok_0.shape_only == shape_only,
            r is Ok ==> r->Ok_0.rows@.len() == self.rows,
            r is Ok && self.a is Some && self.b is Some ==> fib_values(
                self.a->0.value(),
                self.b->0.value(),
                r->Ok_0.rows@,
            ),
    {
        let chip = FiboChip::construct(config);
        let mut layouter = Layouter::new(shape_only);
        let first = chip.assign_first_row(&mut layouter, self.a, self.b);
        let (_a0, b0, c0) = match first {
            Ok(cells) => cells,
            Err(e) => {
                return Err(e);
            },
        };
        let ghost witnessed = self.a is Some && self.b is Some;
        let mut prev_b = b0;
        let mut prev_c = c0;
        let mut i: usize = 1;
        proof {
            reveal(is_fib_trace);
            assert(layouter.copies@ =~= Seq::new(0, |k: int| wire(k)));
        }
        while i < self.rows
            invariant
                1 <= i <= self.rows,
                layouter.shape_only == shape_only,
                !shape_only ==> witnessed,
                witnessed == (self.a is Some && self.b is Some),
                is_fib_trace(self.a, self.b, i as nat, layouter),
                layouter.rows@.len() == i,
                witnessed ==> prev_b.value is Some && prev_c.value is Some,
                prev_b == (AssignedCell { cell: a_source(i as int), value: layouter.rows@[i - 1].b }),
                prev_c == (AssignedCell {
                    cell: Cell { row: (i - 1) as usize, col: 2 },
                    value: layouter.rows@[i - 1].c,
                }),
            decreases self.rows - i,
        {
            let ghost before = layouter;
            let next = chip.assign_row(&mut layouter, &prev_b, &prev_c);
            let c = match next {
                Ok(c) => c,
                Err(e) => {
                    return Err(e);
                },
            };
            proof {
                lemma_extend(self.a, self.b, i as nat, before, layouter, c.value);
            }
            prev_b = prev_c;
            prev_c = c;
            i = i + 1;
        }
        proof {
            reveal(is_fib_trace);
            if witnessed {
                lemma_recurrence(self.a->0.value(), self.b->0.value(), self.a, self.b, self.rows as nat, layouter);
            }
        }
        Ok(layouter)
    }
}

} // verus!
