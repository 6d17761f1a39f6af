//! A small PLONK-style arithmetization of a Fibonacci addition chain over the
//! base field of the Pallas curve: a constraint table with one `add` gate, a
//! chip that fills the witness rows and wires them with copy constraints, an
//! assembler that builds the whole trace, and a checker for the result.
pub mod checker;
pub mod chip;
pub mod circuit;
pub mod field;
pub mod table;

pub use checker::{verify, Failure, Verdict};
pub use chip::{AssignedCell, Cell, Error, FiboChip, FiboConfig, Layouter, Row};
pub use circuit::MyCircuit;
pub use field::Felt;
pub use table::{Column, ColumnKind, ConstraintSystem, Gate, Selector};
