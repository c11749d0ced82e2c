//! The aligned-row space a file's diff is laid out in: each row pairs an old-side and a
//! new-side cell, each either a real 1-based line or a filler.
use vstd::prelude::*;

verus! {

/// One side of an aligned row: a 1-based line number, or filler where that side has no line.
#[derive(Debug, Clone, Copy, PartialEq, Eq, Structural)]
pub enum Row {
    Line(usize),
    Filler,
}

/// How one side of an aligned row renders.
#[derive(Debug, Clone, Copy, PartialEq, Eq, Structural)]
pub enum CellKind {
    Context,
    Del,
    Add,
    Filler,
}

/// One row of a file's pre-collapse aligned layout: its old and new cells and their kinds.
#[derive(Debug, Clone, Copy, PartialEq, Eq, Structural)]
pub struct AlignedRow {
    pub old: Row,
    pub new: Row,
    pub old_kind: CellKind,
    pub new_kind: CellKind,
}

} // verus!
