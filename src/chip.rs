use vstd::prelude::*;
use crate::field::{modulus, Felt};
use crate::table::{Column, ColumnKind, ConstraintSystem, Gate, Selector};

verus! {

/// Why synthesis stopped.
#[derive(Clone, Copy, Debug, PartialEq, Eq, Structural)]
pub enum Error {
    /// A cell needed a concrete value and only an absent one was at hand.
    Synthesis,
}

/// A cell handle: a row of the trace and one of the chip's three advice
/// columns (`0` is `a`, `1` is `b`, `2` is `c`).
#[derive(Clone, Copy, Debug, PartialEq, Eq, Structural)]
pub struct Cell {
    pub row: usize,
    pub col: usize,
}

/// A filled cell: where it stands and what it holds.
#[derive(Clone, Copy, Debug, PartialEq, Eq)]
pub struct AssignedCell {
    pub cell: Cell,
    pub value: Option<Felt>,
}

/// One row of the witness trace.
#[derive(Clone, Copy, Debug, PartialEq, Eq)]
pub struct Row {
    pub selector: bool,
    pub a: Option<Felt>,
    pub b: Option<Felt>,
    pub c: Option<Felt>,
}

/// The row allocator and the witness trace it builds: rows are appended one
/// region at a time, and copy constraints are kept as pairs of cells. In
/// shape-only mode absent values are accepted and left absent.
#[derive(Clone, Debug)]
pub struct Layouter {
    pub rows: Vec<Row>,
    pub copies: Vec<(Cell, Cell)>,
    pub shape_only: bool,
}

/// The advice value of a row in one of the three columns.
pub open spec fn slot(r: Row, col: int) -> Option<Felt> {
    if col == 0 {
        r.a
    } else if col == 1 {
        r.b
    } else {
        r.c
    }
}

/// What a cell holds; `None` for a cell outside the trace.
pub open spec fn cell_value(rows: Seq<Row>, cell: Cell) -> Option<Felt> {
    if cell.row < rows.len() && cell.col < 3 {
        slot(rows[cell.row as int], cell.col as int)
    } else {
        None
    }
}

/// `c` is `a + b` when both are present, and absent otherwise.
pub open spec fn is_sum(a: Option<Felt>, b: Option<Felt>, c: Option<Felt>) -> bool {
    match (a, b) {
        (Some(x), Some(y)) => c is Some && c->0.value() == (x.value() + y.value()) % modulus(),
        _ => c is None,
    }
}

impl Layouter {
    pub fn new(shape_only: bool) -> (r: Layouter)
        ensures
            r.rows@ == Seq::<Row>::empty(),
            r.copies@ == Seq::<(Cell, Cell)>::empty(),
            r.shape_only == shape_only,
    {
        Layouter { rows: Vec::new(), copies: Vec::new(), shape_only }
    }

    /// Overwrites one advice cell of an existing row, leaving the rest alone.
    pub fn set_cell(&mut self, cell: Cell, value: Option<Felt>)
        requires
            cell.row < old(self).rows.len(),
            cell.col < 3,
        ensures
            final(self).copies@ == old(self).copies@,
            final(self).shape_only == old(self).shape_only,
            final(self).rows.len() == old(self).rows.len(),
            forall|r: int|
                0 <= r < old(self).rows.len() && r != cell.row ==> final(self).rows@[r]
                    == old(self).rows@[r],
            final(self).rows@[cell.row as int].selector == old(self).rows@[cell.row as int].selector,
            forall|c: int|
                0 <= c < 3 ==> slot(final(self).rows@[cell.row as int], c) == if c == cell.col {
                    value
                } else {
                    slot(old(self).rows@[cell.row as int], c)
                },
    {
        let mut row = self.rows[cell.row];
        if cell.col == 0 {
            row.a = value;
        } else if cell.col == 1 {
            row.b = value;
        } else {
            row.c = value;
        }
        self.rows.set(cell.row, row);
    }
}

/// The columns and selector that the Fibonacci chip works on.
#[derive(Clone, Copy, Debug)]
pub struct FiboConfig {
    pub advice: [Column; 3],
    pub selector: Selector,
    pub instance: Column,
}

/// Fills rows of the add chain: `a + b = c` on each row, and each row's `a`
/// and `b` wired to the previous row's `b` and `c`.
#[derive(Clone, Copy, Debug)]
pub struct FiboChip {
    pub config: FiboConfig,
}

impl FiboChip {
    pub fn construct(config: FiboConfig) -> (r: FiboChip)
        ensures
            r.config == config,
    {
        FiboChip { config }
    }

    /// Declares the selector and the `add` gate over the three advice columns,
    /// and opens all four columns to copy constraints.
    pub fn configure(meta: &mut ConstraintSystem, advice: [Column; 3], instance: Column) -> (r:
        FiboConfig)
        requires
            old(meta).num_selectors < usize::MAX,
            forall|i: int| 0 <= i < 3 ==> (#[trigger] advice[i]).kind == ColumnKind::Advice,
            instance.kind == ColumnKind::Instance,
        ensures
            r.advice == advice,
            r.instance == instance,
            r.selector == (Selector { index: old(meta).num_selectors }),
            final(meta).num_advice == old(meta).num_advice,
            final(meta).num_instance == old(meta).num_instance,
            final(meta).num_selectors == old(meta).num_selectors + 1,
            final(meta).gates@ == old(meta).gates@.push(
                Gate { selector: r.selector, a: advice[0], b: advice[1], c: advice[2] },
            ),
            final(meta).equality@.contains(advice[0]),
            final(meta).equality@.contains(advice[1]),
            final(meta).equality@.contains(advice[2]),
            final(meta).equality@.contains(instance),
            forall|c: Column|
                #[trigger] final(meta).equality@.contains(c) <==> (old(meta).equality@.contains(c)
                    || c == advice[0] || c == advice[1] || c == advice[2] || c == instance),
    {
        let col_a = advice[0];
        let col_b = advice[1];
        let col_c = advice[2];
        let selector = meta.selector();
        meta.enable_equality(col_a);
        meta.enable_equality(col_b);
        meta.enable_equality(col_c);
        meta.enable_equality(instance);
        meta.create_gate(Gate { selector, a: col_a, b: col_b, c: col_c });
        FiboConfig { advice: [col_a, col_b, col_c], selector, instance }
    }

    /// Allocates the next row with its selector on, puts `a` and `b` in it and
    /// `a + b` beside them. Outside shape-only mode an absent seed is a
    /// synthesis error, and then nothing is allocated.
    pub fn assign_first_row(&self, layouter: &mut Layouter, a: Option<Felt>, b: Option<Felt>) -> (r:
        Result<(AssignedCell, AssignedCell, AssignedCell), Error>)
        ensures
            r is Err <==> (!old(layouter).shape_only && (a is None || b is None)),
            r is Err ==> r->Err_0 == Error::Synthesis && *final(layouter) == *old(layouter),
            r is Ok ==> {
                let n = old(layouter).rows.len();
                let cells = r->Ok_0;
                &&& cells.0 == (AssignedCell { cell: Cell { row: n, col: 0 }, value: a })
                &&& cells.1 == (AssignedCell { cell: Cell { row: n, col: 1 }, value: b })
                &&& cells.2.cell == (Cell { row: n, col: 2 })
                &&& is_sum(a, b, cells.2.value)
                &&& final(layouter).rows@ == old(layouter).rows@.push(
                    Row { selector: true, a, b, c: cells.2.value },
                )
                &&& final(layouter).copies@ == old(layouter).copies@
                &&& final(layouter).shape_only == old(layouter).shape_only
            },
    {
        let c: Option<Felt> = match (a, b) {
            (Some(x), Some(y)) => Some(x.add(&y)),
            _ => None,
        };
        if !layouter.shape_only && c.is_none() {
            return Err(Error::Synthesis);
        }
        let row = layouter.rows.len();
        layouter.rows.push(Row { selector: true, a, b, c });
        Ok(
            (
                AssignedCell { cell: Cell { row, col: 0 }, value: a },
                AssignedCell { cell: Cell { row, col: 1 }, value: b },
                AssignedCell { cell: Cell { row, col: 2 }, value: c },
            ),
        )
    }

    /// Allocates the next row with its selector on, wires `prev_b` to its `a`
    /// and `prev_c` to its `b` by copy constraints, and fills its `c` with their
    /// sum. Outside shape-only mode an absent operand is a synthesis error, and
    /// then nothing is allocated or wired.
    pub fn assign_row(&self, layouter: &mut Layouter, prev_b: &AssignedCell, prev_c: &AssignedCell) -> (r:
        Result<AssignedCell, Error>)
        ensures
            r is Err <==> (!old(layouter).shape_only && (prev_b.value is None || prev_c.value is None)),
            r is Err ==> r->Err_0 == Error::Synthesis && *final(layouter) == *old(layouter),
            r is Ok ==> {
                let n = old(layouter).rows.len();
                let c = r->Ok_0;
                &&& c.cell == (Cell { row: n, col: 2 })
                &&& is_sum(prev_b.value, prev_c.value, c.value)
                &&& final(layouter).rows@ == old(layouter).rows@.push(
                    Row { selector: true, a: prev_b.value, b: prev_c.value, c: c.value },
                )
                &&& final(layouter).copies@ == old(layouter).copies@.push(
                    (prev_b.cell, Cell { row: n, col: 0 }),
                ).push((prev_c.cell, Cell { row: n, col: 1 }))
                &&& final(layouter).shape_only == old(layouter).shape_only
            },
    {
        let c: Option<Felt> = match (prev_b.value, prev_c.value) {
            (Some(x), Some(y)) => Some(x.add(&y)),
            _ => None,
        };
        if !layouter.shape_only && c.is_none() {
            return Err(Error::Synthesis);
        }
        let row = layouter.rows.len();
        layouter.rows.push(Row { selector: true, a: prev_b.value, b: prev_c.value, c });
        layouter.copies.push((prev_b.cell, Cell { row, col: 0 }));
        layouter.copies.push((prev_c.cell, Cell { row, col: 1 }));
        Ok(AssignedCell { cell: Cell { row, col: 2 }, value: c })
    }
}

} // verus!
