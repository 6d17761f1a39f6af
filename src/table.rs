use vstd::prelude::*;

verus! {

/// What a column holds: private witness values or public values.
#[derive(Clone, Copy, Debug, PartialEq, Eq, Structural)]
pub enum ColumnKind {
    Advice,
    Instance,
}

/// A column of the table: its role and its number among columns of that role.
#[derive(Clone, Copy, Debug, PartialEq, Eq, Structural)]
pub struct Column {
    pub kind: ColumnKind,
    pub index: usize,
}

/// A per-row flag column that switches a gate on.
#[derive(Clone, Copy, Debug, PartialEq, Eq, Structural)]
pub struct Selector {
    pub index: usize,
}

/// The identity `s * (a + b - c) == 0` over the current row.
#[derive(Clone, Copy, Debug, PartialEq, Eq, Structural)]
pub struct Gate {
    pub selector: Selector,
    pub a: Column,
    pub b: Column,
    pub c: Column,
}

/// The static description of the table: its columns, its selectors, the
/// columns that may take part in copy constraints, and its gates.
#[derive(Clone, Debug)]
pub struct ConstraintSystem {
    pub num_advice: usize,
    pub num_instance: usize,
    pub num_selectors: usize,
    pub equality: Vec<Column>,
    pub gates: Vec<Gate>,
}

impl ConstraintSystem {
    /// The column has been declared, with its role.
    pub open spec fn declares(self, c: Column) -> bool {
        match c.kind {
            ColumnKind::Advice => c.index < self.num_advice,
            ColumnKind::Instance => c.index < self.num_instance,
        }
    }

    pub fn new() -> (r: ConstraintSystem)
        ensures
            r.num_advice == 0,
            r.num_instance == 0,
            r.num_selectors == 0,
            r.equality@ == Seq::<Column>::empty(),
            r.gates@ == Seq::<Gate>::empty(),
    {
        ConstraintSystem {
            num_advice: 0,
            num_instance: 0,
            num_selectors: 0,
            equality: Vec::new(),
            gates: Vec::new(),
        }
    }

    pub fn advice_column(&mut self) -> (r: Column)
        requires
            old(self).num_advice < usize::MAX,
        ensures
            r == (Column { kind: ColumnKind::Advice, index: old(self).num_advice }),
            *final(self) == (ConstraintSystem { num_advice: (old(self).num_advice + 1) as usize, ..*old(self) }),
    {
        let r = Column { kind: ColumnKind::Advice, index: self.num_advice };
        self.num_advice = self.num_advice + 1;
        r
    }

    pub fn instance_column(&mut self) -> (r: Column)
        requires
            old(self).num_instance < usize::MAX,
        ensures
            r == (Column { kind: ColumnKind::Instance, index: old(self).num_instance }),
            *final(self) == (ConstraintSystem { num_instance: (old(self).num_instance + 1) as usize, ..*old(self) }),
    {
        let r = Column { kind: ColumnKind::Instance, index: self.num_instance };
        self.num_instance = self.num_instance + 1;
        r
    }

    pub fn selector(&mut self) -> (r: Selector)
        requires
            old(self).num_selectors < usize::MAX,
        ensures
            r == (Selector { index: old(self).num_selectors }),
            *final(self) == (ConstraintSystem { num_selectors: (old(self).num_selectors + 1) as usize, ..*old(self) }),
    {
        let r = Selector { index: self.num_selectors };
        self.num_selectors = self.num_selectors + 1;
        r
    }

    /// Marks a column as one that copy constraints may use; a column already
    /// marked stays listed once.
    pub fn enable_equality(&mut self, column: Column)
        ensures
            final(self).num_advice == old(self).num_advice,
            final(self).num_instance == old(self).num_instance,
            final(self).num_selectors == old(self).num_selectors,
            final(self).gates@ == old(self).gates@,
            old(self).equality@.contains(column) ==> final(self).equality@ == old(self).equality@,
            !old(self).equality@.contains(column) ==> final(self).equality@
                == old(self).equality@.push(column),
            final(self).equality@.contains(column),
            forall|c: Column|
                #[trigger] final(self).equality@.contains(c) <==> (old(self).equality@.contains(c)
                    || c == column),
    {
        let mut i: usize = 0;
        while i < self.equality.len()
            invariant
                0 <= i <= self.equality.len(),
                forall|j: int| 0 <= j < i ==> self.equality@[j] != column,
            decreases self.equality.len() - i,
        {
            if self.equality[i] == column {
                proof {
                    assert(self.equality@[i as int] == column);
                }
                return;
            }
            i = i + 1;
        }
        let ghost prev = self.equality@;
        self.equality.push(column);
        proof {
            assert(self.equality@[prev.len() as int] == column);
            assert forall|c: Column| #[trigger] self.equality@.contains(c) implies (prev.contains(
                c) || c == column) by {
                let k = choose|k: int| 0 <= k < self.equality@.len() && self.equality@[k] == c;
                if k < prev.len() {
                    assert(prev[k] == c);
                }
            }
            assert forall|c: Column| #[trigger] prev.contains(c) implies self.equality@.contains(
                c) by {
                let k = choose|k: int| 0 <= k < prev.len() && prev[k] == c;
                assert(self.equality@[k] == c);
            }
        }
    }

    pub fn create_gate(&mut self, gate: Gate)
        ensures
            final(self).num_advice == old(self).num_advice,
            final(self).num_instance == old(self).num_instance,
            final(self).num_selectors == old(self).num_selectors,
            final(self).equality@ == old(self).equality@,
            final(self).gates@ == old(self).gates@.push(gate),
    {
        self.gates.push(gate);
    }
}

} // verus!
