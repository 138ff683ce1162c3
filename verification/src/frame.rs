//! Two neighbouring rows of a trace segment, as constraints are evaluated on.

use crate::field::Felt;
use vstd::prelude::*;

verus! {

/// A row of a trace segment and the row after it.
pub struct EvaluationFrame {
    pub current: Vec<Felt>,
    pub next: Vec<Felt>,
}

/// A row of `width` zeros.
pub fn zero_row(width: usize) -> (row: Vec<Felt>)
    ensures
        row@.len() == width,
        forall|c: int| 0 <= c < width ==> (#[trigger] row@[c])@ == 0,
{
    let mut row: Vec<Felt> = Vec::new();
    for c in 0..width
        invariant
            row@.len() == c,
            forall|j: int| 0 <= j < c ==> (#[trigger] row@[j])@ == 0,
    {
        row.push(Felt::zero());
    }
    row
}

impl EvaluationFrame {
    /// A frame of two all-zero rows with the given number of columns.
    pub fn new(num_columns: usize) -> (frame: EvaluationFrame)
        ensures
            frame.current@.len() == num_columns,
            frame.next@.len() == num_columns,
            forall|c: int| 0 <= c < num_columns ==> (#[trigger] frame.current@[c])@ == 0,
            forall|c: int| 0 <= c < num_columns ==> (#[trigger] frame.next@[c])@ == 0,
    {
        EvaluationFrame { current: zero_row(num_columns), next: zero_row(num_columns) }
    }

    /// The frame of the two given rows.
    pub fn from_rows(current: Vec<Felt>, next: Vec<Felt>) -> (frame: EvaluationFrame)
        ensures
            frame.current == current,
            frame.next == next,
    {
        EvaluationFrame { current, next }
    }

    /// The current row.
    pub fn current(&self) -> (row: &[Felt])
        ensures
            row@ == self.current@,
    {
        self.current.as_slice()
    }

    /// The row after the current one.
    pub fn next(&self) -> (row: &[Felt])
        ensures
            row@ == self.next@,
    {
        self.next.as_slice()
    }
}

} // verus!
