//! The execution trace: main columns of field elements, filled row by row,
//! from which the auxiliary running-product column is built.

use crate::field::{has_inverse, is_inverse, Felt, MODULUS, TWO_ADICITY};
use crate::frame::{zero_row, EvaluationFrame};
use crate::matrix::{ints_of, with_row, Matrix};
use crate::running_product::{
    aux_value, fingerprints, lemma_permutation_closes, pole_free, ratio, zero_denominator,
};
use vstd::arithmetic::power2::{is_pow2, lemma2_to64_rest, pow2};
use vstd::prelude::*;

verus! {

/// The largest number of columns of a trace, over all its segments.
pub const MAX_TRACE_WIDTH: usize = 255;

/// The largest number of bytes of trace metadata.
pub const MAX_META_LENGTH: usize = 65535;

/// The number of columns of the auxiliary segment.
pub const AUX_SEGMENT_WIDTH: usize = 1;

/// The number of random elements that the auxiliary segment is built from.
pub const AUX_RAND_ELEMENTS: usize = 1;

/// The largest number of rows of a trace, `2^TWO_ADICITY`.
pub const MAX_TRACE_LENGTH: u64 = 0x8000000000;

/// How the columns of a trace are arranged into segments.
#[derive(Clone, Copy, Debug, PartialEq, Eq, Structural)]
pub struct TraceLayout {
    pub main_segment_width: usize,
    pub aux_segment_width: usize,
    pub aux_segment_rands: usize,
}

/// What a trace is, short of its cells: layout, number of rows and metadata.
pub struct TraceInfo {
    pub layout: TraceLayout,
    pub length: usize,
    pub meta: Vec<u8>,
}

impl TraceInfo {
    /// The info describes a trace that can be allocated, with one auxiliary
    /// column built from one random element.
    pub open spec fn wf(&self) -> bool {
        &&& valid_shape(self.layout.main_segment_width as nat, self.length as nat, self.meta@.len())
        &&& self.layout.aux_segment_width == AUX_SEGMENT_WIDTH
        &&& self.layout.aux_segment_rands == AUX_RAND_ELEMENTS
    }

    /// The number of columns over all segments.
    pub open spec fn total_width(&self) -> nat {
        (self.layout.main_segment_width + self.layout.aux_segment_width) as nat
    }

    /// The number of columns over all segments.
    pub fn width(&self) -> (width: usize)
        requires
            self.wf(),
        ensures
            width == self.total_width(),
    {
        self.layout.main_segment_width + self.layout.aux_segment_width
    }

    /// The number of rows.
    pub fn length(&self) -> (length: usize)
        ensures
            length == self.length,
    {
        self.length
    }
}

/// Why a trace of some shape cannot be allocated.
#[derive(Clone, Copy, Debug, PartialEq, Eq, Structural)]
pub enum ShapeError {
    /// The trace has no column.
    ZeroWidth,
    /// With the auxiliary column the trace has more than `MAX_TRACE_WIDTH` columns.
    WidthTooLarge,
    /// The number of rows is not a power of two.
    LengthNotPowerOfTwo,
    /// The number of rows is above `2^TWO_ADICITY`.
    LengthTooLarge,
    /// The metadata has more than `MAX_META_LENGTH` bytes.
    MetaTooLong,
}

/// The first reason, in the order of the checks, why a trace of `width` main
/// columns and `length` rows with `meta_length` bytes of metadata cannot be
/// allocated; `None` where it can.
pub open spec fn shape_error(width: nat, length: nat, meta_length: nat) -> Option<ShapeError> {
    if width == 0 {
        Some(ShapeError::ZeroWidth)
    } else if width + AUX_SEGMENT_WIDTH > MAX_TRACE_WIDTH {
        Some(ShapeError::WidthTooLarge)
    } else if !is_pow2(length as int) {
        Some(ShapeError::LengthNotPowerOfTwo)
    } else if length > pow2(TWO_ADICITY as nat) {
        Some(ShapeError::LengthTooLarge)
    } else if meta_length > MAX_META_LENGTH {
        Some(ShapeError::MetaTooLong)
    } else {
        None
    }
}

/// A trace of this shape can be allocated.
pub open spec fn valid_shape(width: nat, length: nat, meta_length: nat) -> bool {
    shape_error(width, length, meta_length) is None
}

/// A shape can be allocated exactly when it is within every limit: at least
/// one main column, with the auxiliary column no more than `MAX_TRACE_WIDTH`
/// columns, a power-of-two number of rows up to `2^TWO_ADICITY`, and no more
/// than `MAX_META_LENGTH` bytes of metadata. One row is a power of two.
pub proof fn lemma_valid_shape(width: nat, length: nat, meta_length: nat)
    ensures
        valid_shape(width, length, meta_length) <==> {
            &&& 0 < width
            &&& width + AUX_SEGMENT_WIDTH <= MAX_TRACE_WIDTH
            &&& is_pow2(length as int)
            &&& length <= pow2(TWO_ADICITY as nat)
            &&& meta_length <= MAX_META_LENGTH
        },
        valid_shape(width, 1, meta_length) <==> {
            &&& 0 < width
            &&& width + AUX_SEGMENT_WIDTH <= MAX_TRACE_WIDTH
            &&& meta_length <= MAX_META_LENGTH
        },
{
    reveal(is_pow2);
    lemma2_to64_rest();
}

/// Whether `n` is a power of two.
pub fn is_power_of_two(n: usize) -> (r: bool)
    ensures
        r == is_pow2(n as int),
{
    if n == 0 {
        proof {
            reveal(is_pow2);
        }
        return false;
    }
    let mut m = n;
    while m % 2 == 0
        invariant
            m > 0,
            is_pow2(m as int) == is_pow2(n as int),
        decreases m,
    {
        proof {
            reveal(is_pow2);
        }
        m = m / 2;
    }
    proof {
        reveal(is_pow2);
    }
    m == 1
}

/// Checks the shape of a trace before it is allocated.
pub fn check_shape(width: usize, length: usize, meta_length: usize) -> (r: Result<(), ShapeError>)
    ensures
        r is Ok <==> valid_shape(width as nat, length as nat, meta_length as nat),
        r matches Err(e) ==> shape_error(width as nat, length as nat, meta_length as nat) == Some(e),
{
    proof {
        lemma2_to64_rest();
    }
    if width == 0 {
        Err(ShapeError::ZeroWidth)
    } else if width > MAX_TRACE_WIDTH - AUX_SEGMENT_WIDTH {
        Err(ShapeError::WidthTooLarge)
    } else if !is_power_of_two(length) {
        Err(ShapeError::LengthNotPowerOfTwo)
    } else if length as u64 > MAX_TRACE_LENGTH {
        Err(ShapeError::LengthTooLarge)
    } else if meta_length > MAX_META_LENGTH {
        Err(ShapeError::MetaTooLong)
    } else {
        Ok(())
    }
}

/// The row after `row` in a trace of `rows` rows: the next one, and row 0
/// after the last.
pub open spec fn next_row(row: int, rows: int) -> int {
    (row + 1) % rows
}

/// `state` is a row of `width` zeros.
pub open spec fn is_zero_row(state: Seq<Felt>, width: nat) -> bool {
    state.len() == width && forall|col: int| 0 <= col < width ==> (#[trigger] state[col])@ == 0
}

/// An execution trace with its main segment, its layout and its metadata.
pub struct PermutationTraceTable {
    layout: TraceLayout,
    trace: Matrix,
    meta: Vec<u8>,
    written: Vec<bool>,
}

impl PermutationTraceTable {
    /// The number of main columns.
    pub closed spec fn main_width(&self) -> nat {
        self.layout.main_segment_width as nat
    }

    /// The number of rows.
    pub closed spec fn rows(&self) -> nat {
        self.trace.rows()
    }

    /// The metadata bytes.
    pub closed spec fn meta_bytes(&self) -> Seq<u8> {
        self.meta@
    }

    /// The layout of the trace.
    pub closed spec fn layout_spec(&self) -> TraceLayout {
        self.layout
    }

    /// The main column `col`, each cell as its canonical representative.
    pub closed spec fn column(&self, col: int) -> Seq<nat> {
        Seq::new(self.trace.rows(), |row: int| self.trace@[col][row] as nat)
    }

    /// Row `row` has been written in full since the table was allocated.
    pub closed spec fn is_written(&self, row: int) -> bool {
        0 <= row < self.written@.len() && self.written@[row]
    }

    /// Every row has been written.
    pub open spec fn is_filled(&self) -> bool {
        forall|row: int| 0 <= row < self.rows() ==> self.is_written(row)
    }

    /// The invariant of the table: the shape is one that can be allocated, the
    /// layout has one auxiliary column built from one random element, and the
    /// storage has that shape.
    pub closed spec fn wf(&self) -> bool {
        &&& self.trace.wf()
        &&& self.trace@.len() == self.layout.main_segment_width
        &&& self.layout.aux_segment_width == AUX_SEGMENT_WIDTH
        &&& self.layout.aux_segment_rands == AUX_RAND_ELEMENTS
        &&& self.written@.len() == self.trace.rows()
        &&& valid_shape(self.main_width(), self.rows(), self.meta@.len())
    }

    /// What the invariant says of the shape.
    pub proof fn lemma_shape(&self)
        requires
            self.wf(),
        ensures
            valid_shape(self.main_width(), self.rows(), self.meta_bytes().len()),
            0 < self.main_width() < MAX_TRACE_WIDTH,
            is_pow2(self.rows() as int),
            1 <= self.rows() <= MAX_TRACE_LENGTH,
            self.meta_bytes().len() <= MAX_META_LENGTH,
            self.layout_spec() == (TraceLayout {
                main_segment_width: self.main_width() as usize,
                aux_segment_width: AUX_SEGMENT_WIDTH,
                aux_segment_rands: AUX_RAND_ELEMENTS,
            }),
            forall|col: int| 0 <= col < self.main_width() ==> (#[trigger] self.column(col)).len() == self.rows(),
            forall|col: int, row: int|
                0 <= col < self.main_width() && 0 <= row < self.rows() ==> #[trigger] self.column(col)[row] < MODULUS,
    {
        lemma2_to64_rest();
        self.trace.lemma_has_rows();
    }

    /// A trace of the given shape without metadata; no row is written yet.
    pub fn new(width: usize, length: usize) -> (table: PermutationTraceTable)
        requires
            valid_shape(width as nat, length as nat, 0),
        ensures
            table.wf(),
            table.main_width() == width,
            table.rows() == length,
            table.meta_bytes().len() == 0,
            table.layout_spec() == (TraceLayout {
                main_segment_width: width,
                aux_segment_width: AUX_SEGMENT_WIDTH,
                aux_segment_rands: AUX_RAND_ELEMENTS,
            }),
            forall|row: int| !table.is_written(row),
    {
        Self::with_meta(width, length, Vec::new())
    }

    /// A trace of the given shape with metadata; no row is written yet.
    pub fn with_meta(width: usize, length: usize, meta: Vec<u8>) -> (table: PermutationTraceTable)
        requires
            valid_shape(width as nat, length as nat, meta@.len()),
        ensures
            table.wf(),
            table.main_width() == width,
            table.rows() == length,
            table.meta_bytes() == meta@,
            table.layout_spec() == (TraceLayout {
                main_segment_width: width,
                aux_segment_width: AUX_SEGMENT_WIDTH,
                aux_segment_rands: AUX_RAND_ELEMENTS,
            }),
            forall|row: int| !table.is_written(row),
    {
        let trace = Matrix::zeroed(width, length);
        let mut written: Vec<bool> = Vec::new();
        for row in 0..length
            invariant
                written@.len() == row,
                forall|r: int| 0 <= r < row ==> !(#[trigger] written@[r]),
        {
            written.push(false);
        }
        PermutationTraceTable {
            layout: TraceLayout {
                main_segment_width: width,
                aux_segment_width: AUX_SEGMENT_WIDTH,
                aux_segment_rands: AUX_RAND_ELEMENTS,
            },
            trace,
            meta,
            written,
        }
    }

    /// The number of main columns.
    pub fn width(&self) -> (width: usize)
        requires
            self.wf(),
        ensures
            width == self.main_width(),
    {
        self.layout.main_segment_width
    }

    /// The number of rows.
    pub fn length(&self) -> (length: usize)
        requires
            self.wf(),
        ensures
            length == self.rows(),
    {
        self.trace.num_rows()
    }

    /// The layout of the trace.
    pub fn layout(&self) -> (layout: &TraceLayout)
        ensures
            *layout == self.layout_spec(),
    {
        &self.layout
    }

    /// The metadata of the trace.
    pub fn meta(&self) -> (meta: &[u8])
        ensures
            meta@ == self.meta_bytes(),
    {
        self.meta.as_slice()
    }

    /// Layout, number of rows and metadata of the trace.
    pub fn get_info(&self) -> (info: TraceInfo)
        requires
            self.wf(),
        ensures
            info.wf(),
            info.layout == self.layout_spec(),
            info.length == self.rows(),
            info.meta@ == self.meta_bytes(),
    {
        TraceInfo { layout: self.layout, length: self.length(), meta: self.meta.clone() }
    }

    /// The main segment.
    pub fn main_segment(&self) -> (segment: &Matrix)
        requires
            self.wf(),
        ensures
            segment.wf(),
            segment@.len() == self.main_width(),
            segment.rows() == self.rows(),
            forall|col: int, row: int|
                0 <= col < self.main_width() && 0 <= row < self.rows() ==> #[trigger] segment@[col][row]
                    == self.column(col)[row],
    {
        &self.trace
    }

    /// Whether the given row has been written in full.
    pub fn is_row_written(&self, step: usize) -> (r: bool)
        ensures
            r == self.is_written(step as int),
    {
        step < self.written.len() && self.written[step]
    }

    /// Whether every row has been written in full.
    pub fn is_fully_written(&self) -> (r: bool)
        requires
            self.wf(),
        ensures
            r == self.is_filled(),
    {
        let n = self.written.len();
        for row in 0..n
            invariant
                n == self.written@.len(),
                n == self.rows(),
                forall|r: int| 0 <= r < row ==> self.is_written(r),
        {
            if !self.written[row] {
                assert(!self.is_written(row as int));
                return false;
            }
        }
        true
    }

    /// Writes `state` into row `step`: each main column that `state` has a
    /// value for takes it, and the other columns stay as they are. A row
    /// counts as written once a single call has given every main column a value.
    pub fn update_row(&mut self, step: usize, state: &[Felt])
        requires
            old(self).wf(),
            step < old(self).rows(),
        ensures
            final(self).wf(),
            final(self).main_width() == old(self).main_width(),
            final(self).rows() == old(self).rows(),
            final(self).meta_bytes() == old(self).meta_bytes(),
            final(self).layout_spec() == old(self).layout_spec(),
            forall|col: int|
                0 <= col < old(self).main_width() ==> #[trigger] final(self).column(col) == (if col
                    < state@.len() {
                    old(self).column(col).update(step as int, state@[col]@)
                } else {
                    old(self).column(col)
                }),
            forall|row: int|
                final(self).is_written(row) == (old(self).is_written(row) || (row == step
                    && state@.len() >= old(self).main_width())),
    {
        let ghost before = self.trace@;
        self.trace.update_row(step, state);
        if state.len() >= self.layout.main_segment_width {
            self.written.set(step, true);
        }
        proof {
            let after = self.trace@;
            assert(after == with_row(before, step as int, ints_of(state@)));
            assert forall|col: int| 0 <= col < old(self).main_width() implies #[trigger] self.column(
                col,
            ) == (if col < state@.len() {
                old(self).column(col).update(step as int, state@[col]@)
            } else {
                old(self).column(col)
            }) by {
                assert(before[col].len() == before[0].len());
                if col < state@.len() {
                    state@[col].lemma_view_fits();
                    assert(after[col] == before[col].update(step as int, ints_of(state@)[col]));
                    assert(self.column(col) =~= old(self).column(col).update(
                        step as int,
                        state@[col]@,
                    ));
                } else {
                    assert(after[col] == before[col]);
                    assert(self.column(col) =~= old(self).column(col));
                }
            }
        }
    }

    /// The cell of the given main column in the given row.
    pub fn get(&self, column: usize, step: usize) -> (value: Felt)
        requires
            self.wf(),
            column < self.main_width(),
            step < self.rows(),
            self.is_written(step as int),
        ensures
            value@ == self.column(column as int)[step as int],
    {
        self.trace.get(column, step)
    }

    /// Copies the given row into `target`: `target` takes the row's value of
    /// each main column it has an entry for, and keeps its other entries.
    pub fn read_row_into(&self, step: usize, target: &mut [Felt])
        requires
            self.wf(),
            step < self.rows(),
            self.is_written(step as int),
        ensures
            final(target)@.len() == old(target)@.len(),
            forall|col: int|
                0 <= col < final(target)@.len() && col < self.main_width()
                    ==> (#[trigger] final(target)@[col])@ == self.column(col)[step as int],
            forall|col: int|
                0 <= col < final(target)@.len() && col >= self.main_width()
                    ==> #[trigger] final(target)@[col] == old(target)@[col],
    {
        self.trace.read_row_into(step, target);
    }

    /// Reads the frame of the main segment at the given row: the row itself
    /// and the row after it, which for the last row is row 0.
    pub fn read_main_frame(&self, row_idx: usize, frame: &mut EvaluationFrame)
        requires
            self.wf(),
            row_idx < self.rows(),
            self.is_written(row_idx as int),
            self.is_written(next_row(row_idx as int, self.rows() as int)),
        ensures
            final(frame).current@.len() == old(frame).current@.len(),
            final(frame).next@.len() == old(frame).next@.len(),
            forall|col: int|
                0 <= col < final(frame).current@.len() && col < self.main_width()
                    ==> (#[trigger] final(frame).current@[col])@ == self.column(col)[row_idx as int],
            forall|col: int|
                0 <= col < final(frame).current@.len() && col >= self.main_width()
                    ==> #[trigger] final(frame).current@[col] == old(frame).current@[col],
            forall|col: int|
                0 <= col < final(frame).next@.len() && col < self.main_width()
                    ==> (#[trigger] final(frame).next@[col])@ == self.column(col)[next_row(
                    row_idx as int,
                    self.rows() as int,
                )],
            forall|col: int|
                0 <= col < final(frame).next@.len() && col >= self.main_width()
                    ==> #[trigger] final(frame).next@[col] == old(frame).next@[col],
    {
        proof {
            self.lemma_shape();
        }
        let length = self.length();
        let next_row_idx = (row_idx + 1) % length;
        self.read_row_into(row_idx, frame.current.as_mut_slice());
        self.read_row_into(next_row_idx, frame.next.as_mut_slice());
    }

    /// Row `row` of the main segment holds the given state, one value in each
    /// main column.
    pub open spec fn holds_row(&self, row: int, state: Seq<Felt>) -> bool {
        &&& state.len() == self.main_width()
        &&& forall|col: int|
            0 <= col < self.main_width() ==> #[trigger] self.column(col)[row] == state[col]@
    }

    /// Fills every row in one sequential pass over a single state buffer.
    /// `init` gets the buffer filled with zeros and turns it into the state of
    /// row 0; `update` gets an index `i` and the buffer holding the state of
    /// row `i`, and turns it into the state of row `i + 1`. Each state is
    /// copied into its row as it comes. The buffer is a slice, so neither step
    /// can change its length; their contracts have to say so.
    ///
    /// The contract names the buffer as `init` got it (`first`) and as
    /// `update` got it for each index (`steps`): what a step made of the
    /// buffer is what stands in the row it was for.
    pub fn fill<I, U>(&mut self, init: I, update: U) where
        I: Fn(&mut [Felt]),
        U: Fn(usize, &mut [Felt]),

        requires
            old(self).wf(),
            forall|state: &mut [Felt]|
                is_zero_row(state@, old(self).main_width()) ==> call_requires(init, (state,)),
            forall|state: &mut [Felt]|
                is_zero_row(state@, old(self).main_width()) && call_ensures(init, (state,), ())
                    ==> final(state)@.len() == old(self).main_width(),
            forall|i: usize, state: &mut [Felt]|
                i + 1 < old(self).rows() && state@.len() == old(self).main_width() ==> call_requires(
                    update,
                    (i, state),
                ),
            forall|i: usize, state: &mut [Felt]|
                i + 1 < old(self).rows() && state@.len() == old(self).main_width() && call_ensures(
                    update,
                    (i, state),
                    (),
                ) ==> final(state)@.len() == old(self).main_width(),
        ensures
            final(self).wf(),
            final(self).main_width() == old(self).main_width(),
            final(self).rows() == old(self).rows(),
            final(self).meta_bytes() == old(self).meta_bytes(),
            final(self).layout_spec() == old(self).layout_spec(),
            final(self).is_filled(),
            exists|first: &mut [Felt], steps: Seq<&mut [Felt]>|
                #![trigger call_ensures(init, (first,), ()), steps.len()]
                {
                    &&& is_zero_row(first@, old(self).main_width())
                    &&& call_ensures(init, (first,), ())
                    &&& final(self).holds_row(0, final(first)@)
                    &&& steps.len() == old(self).rows() - 1
                    &&& forall|i: int|
                        #![trigger steps[i]]
                        0 <= i < steps.len() ==> {
                            &&& final(self).holds_row(i, steps[i]@)
                            &&& call_ensures(update, (i as usize, steps[i]), ())
                            &&& final(self).holds_row(i + 1, final(steps[i])@)
                        }
                },
    {
        proof {
            self.lemma_shape();
        }
        let width = self.width();
        let length = self.length();
        let mut state = zero_row(width);
        init(state.as_mut_slice());
        self.update_row(0, state.as_slice());
        assert(Seq::<&mut [Felt]>::empty().len() == 0);
        for i in 0..(length - 1)
            invariant
                self.wf(),
                self.main_width() == old(self).main_width(),
                self.rows() == old(self).rows(),
                self.meta_bytes() == old(self).meta_bytes(),
                self.layout_spec() == old(self).layout_spec(),
                width == self.main_width(),
                length == self.rows(),
                length >= 1,
                state@.len() == width,
                self.holds_row(i as int, state@),
                forall|row: int| 0 <= row <= i ==> self.is_written(row),
                exists|first: &mut [Felt], steps: Seq<&mut [Felt]>|
                    #![trigger call_ensures(init, (first,), ()), steps.len()]
                    {
                        &&& is_zero_row(first@, width as nat)
                        &&& call_ensures(init, (first,), ())
                        &&& self.holds_row(0, final(first)@)
                        &&& steps.len() == i
                        &&& forall|k: int|
                            #![trigger steps[k]]
                            0 <= k < steps.len() ==> {
                                &&& self.holds_row(k, steps[k]@)
                                &&& call_ensures(update, (k as usize, steps[k]), ())
                                &&& self.holds_row(k + 1, final(steps[k])@)
                            }
                    },
                forall|i: usize, state: &mut [Felt]|
                    i + 1 < length && state@.len() == width ==> call_requires(update, (i, state)),
                forall|i: usize, state: &mut [Felt]|
                    i + 1 < length && state@.len() == width && call_ensures(update, (i, state), ())
                        ==> final(state)@.len() == width,
        {
            let ghost before = *self;
            let ghost given = state@;
            update(i, state.as_mut_slice());
            self.update_row(i + 1, state.as_slice());
            proof {
                let (first, earlier) = choose|first: &mut [Felt], steps: Seq<&mut [Felt]>|
                    #![trigger call_ensures(init, (first,), ()), steps.len()]
                    {
                        &&& is_zero_row(first@, width as nat)
                        &&& call_ensures(init, (first,), ())
                        &&& before.holds_row(0, final(first)@)
                        &&& steps.len() == i
                        &&& forall|k: int|
                            #![trigger steps[k]]
                            0 <= k < steps.len() ==> {
                                &&& before.holds_row(k, steps[k]@)
                                &&& call_ensures(update, (k as usize, steps[k]), ())
                                &&& before.holds_row(k + 1, final(steps[k])@)
                            }
                    };
                let step = choose|step: &mut [Felt]|
                    step@ == given && final(step)@ == state@ && #[trigger] call_ensures(
                        update,
                        (i, step),
                        (),
                    );
                let steps = earlier.push(step);
                assert forall|row: int, held: Seq<Felt>|
                    0 <= row <= i && before.holds_row(row, held) implies self.holds_row(
                    row,
                    held,
                ) by {
                    assert forall|col: int| 0 <= col < self.main_width() implies #[trigger] self.column(
                        col,
                    )[row] == held[col]@ by {
                        assert(before.column(col)[row] == held[col]@);
                    }
                }
                assert forall|k: int| #![trigger steps[k]] 0 <= k < steps.len() implies {
                    &&& self.holds_row(k, steps[k]@)
                    &&& call_ensures(update, (k as usize, steps[k]), ())
                    &&& self.holds_row(k + 1, final(steps[k])@)
                } by {
                    if k < i {
                        assert(steps[k] == earlier[k]);
                        assert(before.holds_row(k, earlier[k]@));
                        assert(before.holds_row(k + 1, final(earlier[k])@));
                    } else {
                        assert(k as usize == i);
                        assert(steps[k] == step);
                        assert(before.holds_row(i as int, given));
                    }
                }
                assert(call_ensures(init, (first,), ()) && steps.len() == i + 1);
            }
        }
    }

    /// The first row whose denominator `column 1 + challenge` is zero, if
    /// there is one: the auxiliary segment cannot be built under such a
    /// challenge.
    pub fn find_pole(&self, challenge: Felt) -> (pole: Option<usize>)
        requires
            self.wf(),
            self.main_width() >= 2,
            self.is_filled(),
        ensures
            match pole {
                Some(row) => {
                    &&& row < self.rows()
                    &&& zero_denominator(self.column(1), challenge@, row as int)
                    &&& forall|k: int| 0 <= k < row ==> !zero_denominator(self.column(1), challenge@, k)
                },
                None => forall|k: int|
                    0 <= k < self.rows() ==> !zero_denominator(self.column(1), challenge@, k),
            },
    {
        let length = self.length();
        for row in 0..length
            invariant
                self.wf(),
                self.main_width() >= 2,
                self.is_filled(),
                length == self.rows(),
                forall|k: int| 0 <= k < row ==> !zero_denominator(self.column(1), challenge@, k),
        {
            let denominator = self.get(1, row).add(challenge);
            if denominator.as_int() == 0 {
                return Some(row);
            }
        }
        None
    }

    /// Builds the auxiliary segment from the one random element of the
    /// engine, which must have been drawn after the main segment was
    /// committed. The segment has one column: row 0 holds the ratio
    /// `(column 0 + challenge) / (column 1 + challenge)` of row 0, and every
    /// later row the value of the row before times the row's own ratio. Every
    /// denominator has been inverted on the way, so no row is a pole. Where
    /// column 1 holds the values of column 0 in some other order, the last row
    /// holds one. Nothing is built where an auxiliary segment exists already.
    pub fn build_aux_segment(&mut self, aux_segments: &[Matrix], rand_elements: &[Felt]) -> (segment:
        Option<Matrix>)
        requires
            old(self).wf(),
            aux_segments@.len() == 0 ==> {
                &&& old(self).main_width() >= 2
                &&& rand_elements@.len() >= 1
                &&& old(self).is_filled()
                &&& forall|row: int|
                    0 <= row < old(self).rows() ==> !zero_denominator(
                        old(self).column(1),
                        rand_elements@[0]@,
                        row,
                    )
            },
        ensures
            *final(self) == *old(self),
            segment is Some <==> aux_segments@.len() == 0,
            segment matches Some(aux) ==> {
                &&& aux.wf()
                &&& aux@.len() == 1
                &&& aux.rows() == old(self).rows()
                &&& forall|row: int|
                    0 <= row < old(self).rows() ==> #[trigger] aux@[0][row] == aux_value(
                        old(self).column(0),
                        old(self).column(1),
                        rand_elements@[0]@,
                        row,
                    )
                &&& pole_free(old(self).column(1), rand_elements@[0]@)
                &&& old(self).column(0).to_multiset() == old(self).column(1).to_multiset()
                    ==> aux@[0][old(self).rows() - 1] == 1
            },
    {
        if aux_segments.len() != 0 {
            return None;
        }
        let length = self.length();
        let challenge = rand_elements[0];
        let ghost left = self.column(0);
        let ghost right = self.column(1);
        proof {
            self.lemma_shape();
        }
        let mut current_row = zero_row(self.width());
        let mut aux_column = zero_row(length);
        self.read_row_into(0, current_row.as_mut_slice());
        let first_denominator = current_row[1].add(challenge);
        let first_inverse = first_denominator.inv();
        aux_column.set(0, current_row[0].add(challenge).mul(first_inverse));
        proof {
            assert(!zero_denominator(right, challenge@, 0));
            assert(is_inverse(first_denominator@, first_inverse@));
            assert(fingerprints(right, challenge@)[0] == first_denominator@);
        }
        for index in 1..length
            invariant
                self.wf(),
                *self == *old(self),
                self.main_width() >= 2,
                self.is_filled(),
                length == self.rows(),
                left == self.column(0),
                right == self.column(1),
                left.len() == length,
                right.len() == length,
                current_row@.len() == self.main_width(),
                aux_column@.len() == length,
                forall|row: int|
                    0 <= row < length ==> !zero_denominator(right, challenge@, row),
                forall|row: int|
                    0 <= row < index ==> (#[trigger] aux_column@[row])@ == aux_value(
                        left,
                        right,
                        challenge@,
                        row,
                    ),
                forall|row: int|
                    0 <= row < index ==> has_inverse(#[trigger] fingerprints(right, challenge@)[row]),
        {
            self.read_row_into(index, current_row.as_mut_slice());
            let numerator = current_row[0].add(challenge);
            let denominator = current_row[1].add(challenge);
            let inverse = denominator.inv();
            let this_aux = numerator.mul(inverse);
            let previous = aux_column[index - 1];
            aux_column.set(index, previous.mul(this_aux));
            proof {
                assert(!zero_denominator(right, challenge@, index as int));
                assert(is_inverse(denominator@, inverse@));
                assert(fingerprints(right, challenge@)[index as int] == denominator@);
                assert(this_aux@ == ratio(left[index as int], right[index as int], challenge@));
            }
        }
        let segment = Matrix::from_column(&aux_column);
        proof {
            assert(pole_free(right, challenge@));
            if left.to_multiset() == right.to_multiset() {
                lemma_permutation_closes(left, right, challenge@);
            }
        }
        Some(segment)
    }
}

} // verus!
