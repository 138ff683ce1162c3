//! A column-major matrix of field elements, kept in the engine's matrix.
//!
//! The engine's matrix has at least two rows. What it holds is stated through
//! `matrix_columns`, and the methods on `Matrix` are verified against what
//! the engine's accessors are taken to do with it. A matrix of a single row
//! keeps that row itself.

use crate::field::{Felt, MODULUS};
use vstd::arithmetic::power2::is_pow2;
use vstd::prelude::*;
use winterfell::math::fields::f62::BaseElement;
use winterfell::math::StarkField;
use winterfell::matrix::ColMatrix;

verus! {

/// The engine's matrix of field elements, stored column by column.
#[verifier::external_body]
pub struct EngineMatrix {
    inner: ColMatrix<BaseElement>,
}

/// The columns of the engine's matrix, each cell as its canonical
/// representative.
pub uninterp spec fn matrix_columns(m: EngineMatrix) -> Seq<Seq<u64>>;

/// Every column has `rows` cells.
pub open spec fn rectangular(columns: Seq<Seq<u64>>, rows: nat) -> bool {
    forall|c: int| 0 <= c < columns.len() ==> (#[trigger] columns[c]).len() == rows
}

/// Every cell is a canonical representative.
pub open spec fn reduced(columns: Seq<Seq<u64>>) -> bool {
    forall|c: int, r: int|
        0 <= c < columns.len() && 0 <= r < columns[c].len() ==> #[trigger] columns[c][r] < MODULUS
}

/// The columns after row `row_idx` took the leading values of `row`, one for
/// each column as far as `row` reaches.
pub open spec fn with_row(columns: Seq<Seq<u64>>, row_idx: int, row: Seq<u64>) -> Seq<Seq<u64>> {
    Seq::new(
        columns.len(),
        |c: int|
            if c < row.len() {
                columns[c].update(row_idx, row[c])
            } else {
                columns[c]
            },
    )
}

/// The target after it took row `row_idx` of the columns, one value for each
/// entry as far as the columns reach.
pub open spec fn row_read_into(columns: Seq<Seq<u64>>, row_idx: int, target: Seq<u64>) -> Seq<u64> {
    Seq::new(
        target.len(),
        |c: int|
            if c < columns.len() {
                columns[c][row_idx]
            } else {
                target[c]
            },
    )
}

/// The views of the inner vectors, in order.
pub open spec fn views_of(columns: Seq<Vec<u64>>) -> Seq<Seq<u64>> {
    Seq::new(columns.len(), |c: int| columns[c]@)
}

/// `ColMatrix::new` on columns of canonical representatives: a matrix that
/// holds exactly these columns. The engine refuses no column set that is
/// non-empty and rectangular with a power-of-two number of rows above one.
#[verifier::external_body]
fn matrix_new(columns: Vec<Vec<u64>>) -> (m: EngineMatrix)
    requires
        columns@.len() > 0,
        columns@[0]@.len() > 1,
        is_pow2(columns@[0]@.len() as int),
        rectangular(views_of(columns@), columns@[0]@.len() as nat),
        reduced(views_of(columns@)),
    ensures
        matrix_columns(m) == views_of(columns@),
{
    let converted: Vec<Vec<BaseElement>> = columns
        .into_iter()
        .map(|column| column.into_iter().map(BaseElement::new).collect())
        .collect();
    EngineMatrix { inner: ColMatrix::new(converted) }
}

/// `ColMatrix::num_cols`: the number of columns.
#[verifier::external_body]
fn matrix_num_cols(m: &EngineMatrix) -> (n: usize)
    ensures
        n == matrix_columns(*m).len(),
{
    m.inner.num_cols()
}

/// `ColMatrix::num_rows`: the length of the first column.
#[verifier::external_body]
fn matrix_num_rows(m: &EngineMatrix) -> (n: usize)
    requires
        matrix_columns(*m).len() > 0,
    ensures
        n == matrix_columns(*m)[0].len(),
{
    m.inner.num_rows()
}

/// `ColMatrix::get`, read back as a canonical integer: the cell at the given
/// column and row.
#[verifier::external_body]
fn matrix_get(m: &EngineMatrix, col_idx: usize, row_idx: usize) -> (value: u64)
    requires
        col_idx < matrix_columns(*m).len(),
        row_idx < matrix_columns(*m)[col_idx as int].len(),
    ensures
        value == matrix_columns(*m)[col_idx as int][row_idx as int],
{
    m.inner.get(col_idx, row_idx).as_int()
}

/// `ColMatrix::read_row_into` on a buffer of canonical representatives: the
/// engine walks columns and buffer together, so the buffer takes the row's
/// value of each column it has an entry for and keeps its other entries.
#[verifier::external_body]
fn matrix_read_row_into(m: &EngineMatrix, row_idx: usize, target: &mut Vec<u64>)
    requires
        forall|c: int|
            0 <= c < matrix_columns(*m).len() ==> row_idx < (#[trigger] matrix_columns(*m)[c]).len(),
        forall|c: int| 0 <= c < old(target)@.len() ==> #[trigger] old(target)@[c] < MODULUS,
    ensures
        final(target)@ == row_read_into(matrix_columns(*m), row_idx as int, old(target)@),
{
    let mut buffer: Vec<BaseElement> = target.iter().map(|v| BaseElement::new(*v)).collect();
    m.inner.read_row_into(row_idx, &mut buffer);
    for (slot, element) in target.iter_mut().zip(buffer.iter()) {
        *slot = element.as_int();
    }
}

/// `ColMatrix::update_row` on a row of canonical representatives: the engine
/// walks columns and row together, so each column that the row has a value
/// for takes it at `row_idx`, and the other columns stay as they are.
#[verifier::external_body]
fn matrix_update_row(m: &mut EngineMatrix, row_idx: usize, row: &Vec<u64>)
    requires
        forall|c: int|
            0 <= c < matrix_columns(*old(m)).len() ==> row_idx < (#[trigger] matrix_columns(
                *old(m),
            )[c]).len(),
        forall|c: int| 0 <= c < row@.len() ==> #[trigger] row@[c] < MODULUS,
    ensures
        matrix_columns(*final(m)) == with_row(matrix_columns(*old(m)), row_idx as int, row@),
{
    let converted: Vec<BaseElement> = row.iter().map(|v| BaseElement::new(*v)).collect();
    m.inner.update_row(row_idx, &converted);
}

/// The canonical representatives of a slice of elements.
pub open spec fn ints_of(elements: Seq<Felt>) -> Seq<u64> {
    Seq::new(elements.len(), |i: int| elements[i]@ as u64)
}

/// One column for each value of a row, holding that value alone.
pub open spec fn columns_of_row(row: Seq<u64>) -> Seq<Seq<u64>> {
    Seq::new(row.len(), |c: int| seq![row[c]])
}

/// Copies the canonical representatives out of a slice of elements.
fn to_ints(elements: &[Felt]) -> (ints: Vec<u64>)
    ensures
        ints@.len() == elements@.len(),
        forall|i: int| 0 <= i < ints@.len() ==> #[trigger] ints@[i] == elements@[i]@,
        forall|i: int| 0 <= i < ints@.len() ==> #[trigger] ints@[i] < MODULUS,
        ints@ == ints_of(elements@),
{
    let mut ints: Vec<u64> = Vec::new();
    let n = elements.len();
    for i in 0..n
        invariant
            n == elements@.len(),
            ints@.len() == i,
            forall|j: int| 0 <= j < i ==> #[trigger] ints@[j] == elements@[j]@,
            forall|j: int| 0 <= j < i ==> #[trigger] ints@[j] < MODULUS,
    {
        ints.push(elements[i].as_int());
    }
    assert(ints@ =~= ints_of(elements@));
    ints
}

/// Where the cells of a matrix are kept.
enum Storage {
    /// In the engine's matrix, which has two rows or more.
    Engine(EngineMatrix),
    /// The one row of a single-row matrix, a canonical representative a column.
    SingleRow(Vec<u64>),
}

/// A matrix of field elements with a power-of-two number of rows.
pub struct Matrix {
    storage: Storage,
}

impl View for Matrix {
    type V = Seq<Seq<u64>>;

    /// The columns, each cell as its canonical representative.
    closed spec fn view(&self) -> Seq<Seq<u64>> {
        match self.storage {
            Storage::Engine(m) => matrix_columns(m),
            Storage::SingleRow(row) => columns_of_row(row@),
        }
    }
}

impl Matrix {
    /// What every matrix made here is: at least one column, all columns of one
    /// length, that length a power of two, every cell reduced.
    pub open spec fn wf(&self) -> bool {
        &&& self@.len() > 0
        &&& is_pow2(self@[0].len() as int)
        &&& rectangular(self@, self@[0].len())
        &&& reduced(self@)
    }

    /// The number of rows.
    pub open spec fn rows(&self) -> nat {
        self@[0].len()
    }

    /// A matrix has at least one row.
    pub proof fn lemma_has_rows(&self)
        requires
            self.wf(),
        ensures
            self.rows() >= 1,
    {
        reveal(is_pow2);
    }

    /// A matrix with `num_cols` columns of `num_rows` zeros.
    pub fn zeroed(num_cols: usize, num_rows: usize) -> (m: Matrix)
        requires
            num_cols > 0,
            is_pow2(num_rows as int),
        ensures
            m.wf(),
            m@.len() == num_cols,
            m.rows() == num_rows,
            forall|c: int, r: int| 0 <= c < num_cols && 0 <= r < num_rows ==> #[trigger] m@[c][r] == 0,
    {
        proof {
            reveal(is_pow2);
        }
        if num_rows == 1 {
            let mut row: Vec<u64> = Vec::new();
            for c in 0..num_cols
                invariant
                    row@.len() == c,
                    forall|j: int| 0 <= j < c ==> #[trigger] row@[j] == 0,
            {
                row.push(0);
            }
            return Matrix { storage: Storage::SingleRow(row) };
        }
        let mut columns: Vec<Vec<u64>> = Vec::new();
        for c in 0..num_cols
            invariant
                columns@.len() == c,
                forall|j: int| 0 <= j < c ==> (#[trigger] columns@[j])@ == Seq::new(
                    num_rows as nat,
                    |r: int| 0u64,
                ),
        {
            let mut column: Vec<u64> = Vec::new();
            for r in 0..num_rows
                invariant
                    column@.len() == r,
                    forall|k: int| 0 <= k < r ==> #[trigger] column@[k] == 0,
            {
                column.push(0);
            }
            assert(column@ =~= Seq::new(num_rows as nat, |r: int| 0u64));
            columns.push(column);
        }
        assert(views_of(columns@)[0] == columns@[0]@);
        Matrix { storage: Storage::Engine(matrix_new(columns)) }
    }

    /// A matrix of one column that holds the given elements.
    pub fn from_column(column: &Vec<Felt>) -> (m: Matrix)
        requires
            is_pow2(column@.len() as int),
        ensures
            m.wf(),
            m@.len() == 1,
            m.rows() == column@.len(),
            forall|r: int| 0 <= r < column@.len() ==> #[trigger] m@[0][r] == column@[r]@,
    {
        proof {
            reveal(is_pow2);
        }
        let ints = to_ints(column.as_slice());
        if ints.len() == 1 {
            return Matrix { storage: Storage::SingleRow(ints) };
        }
        let mut columns: Vec<Vec<u64>> = Vec::new();
        columns.push(ints);
        assert(views_of(columns@)[0] == columns@[0]@);
        Matrix { storage: Storage::Engine(matrix_new(columns)) }
    }

    /// The number of columns.
    pub fn num_cols(&self) -> (n: usize)
        ensures
            n == self@.len(),
    {
        match &self.storage {
            Storage::Engine(m) => matrix_num_cols(m),
            Storage::SingleRow(row) => row.len(),
        }
    }

    /// The number of rows.
    pub fn num_rows(&self) -> (n: usize)
        requires
            self.wf(),
        ensures
            n == self.rows(),
    {
        match &self.storage {
            Storage::Engine(m) => matrix_num_rows(m),
            Storage::SingleRow(_) => 1,
        }
    }

    /// The cell at the given column and row.
    pub fn get(&self, col_idx: usize, row_idx: usize) -> (value: Felt)
        requires
            self.wf(),
            col_idx < self@.len(),
            row_idx < self.rows(),
        ensures
            value@ == self@[col_idx as int][row_idx as int],
    {
        let raw = match &self.storage {
            Storage::Engine(m) => matrix_get(m, col_idx, row_idx),
            Storage::SingleRow(row) => row[col_idx],
        };
        Felt::new(raw)
    }

    /// Copies the given row into `target`: `target` takes the row's value of
    /// each column it has an entry for, and keeps its other entries.
    pub fn read_row_into(&self, row_idx: usize, target: &mut [Felt])
        requires
            self.wf(),
            row_idx < self.rows(),
        ensures
            final(target)@.len() == old(target)@.len(),
            forall|c: int|
                0 <= c < final(target)@.len() && c < self@.len()
                    ==> (#[trigger] final(target)@[c])@ == self@[c][row_idx as int],
            forall|c: int|
                0 <= c < final(target)@.len() && c >= self@.len() ==> #[trigger] final(target)@[c]
                    == old(target)@[c],
    {
        let ghost before = target@;
        let mut raw = to_ints(target);
        let ghost kept = raw@;
        match &self.storage {
            Storage::Engine(m) => {
                matrix_read_row_into(m, row_idx, &mut raw);
            },
            Storage::SingleRow(row) => {
                let shared = if row.len() < raw.len() {
                    row.len()
                } else {
                    raw.len()
                };
                for c in 0..shared
                    invariant
                        shared <= row@.len(),
                        shared <= raw@.len(),
                        raw@.len() == kept.len(),
                        forall|j: int| 0 <= j < c ==> #[trigger] raw@[j] == row@[j],
                        forall|j: int| c <= j < raw@.len() ==> #[trigger] raw@[j] == kept[j],
                {
                    raw.set(c, row[c]);
                }
                assert(raw@ =~= row_read_into(self@, row_idx as int, kept));
            },
        }
        let n = target.len();
        for c in 0..n
            invariant
                self.wf(),
                kept == ints_of(before),
                forall|j: int| 0 <= j < n ==> #[trigger] kept[j] == before[j]@ && kept[j] < MODULUS,
                row_idx < self.rows(),
                n == before.len(),
                target@.len() == n,
                raw@ == row_read_into(self@, row_idx as int, ints_of(before)),
                forall|j: int| 0 <= j < c && j < self@.len() ==> (#[trigger] target@[j])@ == self@[j][row_idx as int],
                forall|j: int| 0 <= j < c && j >= self@.len() ==> #[trigger] target@[j] == before[j],
                forall|j: int| c <= j < n ==> #[trigger] target@[j] == before[j],
        {
            let value = Felt::new(raw[c]);
            proof {
                if c >= self@.len() {
                    Felt::lemma_view_injective(value, before[c as int]);
                }
            }
            target[c] = value;
        }
    }

    /// Writes `row` into the given row: each column that `row` has a value for
    /// takes it, and the other columns stay as they are.
    pub fn update_row(&mut self, row_idx: usize, row: &[Felt])
        requires
            old(self).wf(),
            row_idx < old(self).rows(),
        ensures
            final(self).wf(),
            final(self)@ == with_row(old(self)@, row_idx as int, ints_of(row@)),
            final(self)@.len() == old(self)@.len(),
            final(self).rows() == old(self).rows(),
    {
        let raw = to_ints(row);
        match &mut self.storage {
            Storage::Engine(m) => {
                matrix_update_row(m, row_idx, &raw);
            },
            Storage::SingleRow(cells) => {
                let ghost before = cells@;
                let shared = if cells.len() < raw.len() {
                    cells.len()
                } else {
                    raw.len()
                };
                for c in 0..shared
                    invariant
                        shared <= cells@.len(),
                        shared <= raw@.len(),
                        cells@.len() == before.len(),
                        forall|j: int| 0 <= j < c ==> #[trigger] cells@[j] == raw@[j],
                        forall|j: int| c <= j < cells@.len() ==> #[trigger] cells@[j] == before[j],
                {
                    cells.set(c, raw[c]);
                }
                assert(columns_of_row(cells@) =~~= with_row(
                    columns_of_row(before),
                    row_idx as int,
                    raw@,
                ));
            },
        }
    }

    /// A copy of the given column.
    pub fn column(&self, col_idx: usize) -> (column: Vec<Felt>)
        requires
            self.wf(),
            col_idx < self@.len(),
        ensures
            column@.len() == self.rows(),
            forall|r: int| 0 <= r < column@.len() ==> (#[trigger] column@[r])@ == self@[col_idx as int][r],
    {
        let n = self.num_rows();
        let mut column: Vec<Felt> = Vec::new();
        for r in 0..n
            invariant
                self.wf(),
                col_idx < self@.len(),
                n == self.rows(),
                column@.len() == r,
                forall|k: int| 0 <= k < r ==> (#[trigger] column@[k])@ == self@[col_idx as int][k],
        {
            column.push(self.get(col_idx, r));
        }
        column
    }
}

} // verus!
