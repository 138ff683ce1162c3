//! The prover's side of the argument: laying two sequences out as a trace and
//! reading the public input off it.

use crate::field::{Felt, TWO_ADICITY};
use crate::running_product::lemma_map_rearranged;
use crate::trace_table::{
    check_shape, is_power_of_two, is_zero_row, shape_error, PermutationTraceTable, ShapeError,
};
use core::marker::PhantomData;
use vstd::arithmetic::power2::{is_pow2, lemma2_to64_rest, pow2};
use vstd::prelude::*;
use winterfell::ProofOptions;

verus! {

/// Why two sequences cannot be laid out as a trace.
#[derive(Clone, Copy, Debug, PartialEq, Eq, Structural)]
pub enum BuildError {
    /// The length of the first sequence is not a power of two.
    LengthNotPowerOfTwo,
    /// The two sequences differ in length.
    LengthMismatch,
    /// No trace of two columns and that many rows can be allocated.
    Shape(ShapeError),
}

/// The first reason, in the order of the checks, why sequences of these
/// lengths cannot be laid out as a trace; `None` where they can.
pub open spec fn build_error(sequence_length: nat, permuted_length: nat) -> Option<BuildError> {
    if !is_pow2(sequence_length as int) {
        Some(BuildError::LengthNotPowerOfTwo)
    } else if sequence_length != permuted_length {
        Some(BuildError::LengthMismatch)
    } else {
        match shape_error(2, sequence_length, 0) {
            Some(e) => Some(BuildError::Shape(e)),
            None => None,
        }
    }
}

/// The values of a sequence as residues of the field.
pub open spec fn residues(sequence: Seq<u32>) -> Seq<nat> {
    Seq::new(sequence.len(), |i: int| sequence[i] as nat)
}

/// Two sequences that hold the same values in some order still do so as
/// sequences of residues.
pub proof fn lemma_residues_rearranged(a: Seq<u32>, b: Seq<u32>)
    requires
        a.to_multiset() == b.to_multiset(),
    ensures
        residues(a).to_multiset() == residues(b).to_multiset(),
{
    let residue = |value: u32| value as nat;
    lemma_map_rearranged(a, b, residue);
    assert(residues(a) =~= a.map_values(residue));
    assert(residues(b) =~= b.map_values(residue));
}

/// Sequences can be laid out as a trace exactly when the length of the first
/// is a power of two, no more than `2^TWO_ADICITY`, and the second has the
/// same length. One value each is enough.
pub proof fn lemma_build_admits(sequence_length: nat, permuted_length: nat)
    ensures
        build_error(sequence_length, permuted_length) is None <==> {
            &&& is_pow2(sequence_length as int)
            &&& sequence_length == permuted_length
            &&& sequence_length <= pow2(TWO_ADICITY as nat)
        },
        build_error(1, 1) is None,
{
    reveal(is_pow2);
    lemma2_to64_rest();
}

/// No trace is built from a sequence whose length is not a power of two,
/// whatever the length of the other sequence.
pub proof fn lemma_build_needs_power_of_two(sequence_length: nat, permuted_length: nat)
    requires
        !is_pow2(sequence_length as int),
    ensures
        build_error(sequence_length, permuted_length) == Some(BuildError::LengthNotPowerOfTwo),
{
}

/// No trace is built from two sequences of different lengths, whichever is
/// the longer.
pub proof fn lemma_build_needs_equal_lengths(sequence_length: nat, permuted_length: nat)
    requires
        sequence_length != permuted_length,
    ensures
        build_error(sequence_length, permuted_length) is Some,
        is_pow2(sequence_length as int) ==> build_error(sequence_length, permuted_length) == Some(
            BuildError::LengthMismatch,
        ),
{
}

/// `trace` is the trace of the two sequences: two main columns, one row for
/// each position, row `i` holding `sequence[i]` and `permuted_sequence[i]`,
/// every row written, no metadata. Where the two sequences hold the same
/// values, so do the two columns.
pub open spec fn is_trace_of(
    trace: PermutationTraceTable,
    sequence: Seq<u32>,
    permuted_sequence: Seq<u32>,
) -> bool {
    &&& trace.wf()
    &&& trace.main_width() == 2
    &&& trace.rows() == sequence.len()
    &&& trace.meta_bytes().len() == 0
    &&& trace.is_filled()
    &&& trace.column(0) == residues(sequence)
    &&& trace.column(1) == residues(permuted_sequence)
    &&& sequence.to_multiset() == permuted_sequence.to_multiset() ==> trace.column(0).to_multiset()
        == trace.column(1).to_multiset()
}

/// Checks the lengths of two sequences before a trace is built from them.
pub fn check_sequences(sequence_length: usize, permuted_length: usize) -> (r: Result<
    (),
    BuildError,
>)
    ensures
        r is Ok <==> build_error(sequence_length as nat, permuted_length as nat) is None,
        r matches Err(e) ==> build_error(sequence_length as nat, permuted_length as nat) == Some(e),
{
    if !is_power_of_two(sequence_length) {
        Err(BuildError::LengthNotPowerOfTwo)
    } else if sequence_length != permuted_length {
        Err(BuildError::LengthMismatch)
    } else {
        match check_shape(2, sequence_length, 0) {
            Ok(()) => Ok(()),
            Err(e) => Err(BuildError::Shape(e)),
        }
    }
}

/// The prover of permutation claims; `H` names the hash function that the
/// engine commits with.
pub struct PermutationProver<H> {
    options: ProofOptions,
    _hasher: PhantomData<H>,
}

impl<H> PermutationProver<H> {
    /// The proof parameters that the prover was made with.
    pub closed spec fn options_spec(&self) -> ProofOptions {
        self.options
    }

    /// A prover with the given proof parameters.
    pub fn new(options: ProofOptions) -> (prover: Self)
        ensures
            prover.options_spec() == options,
    {
        Self { options, _hasher: PhantomData }
    }

    /// The proof parameters that the prover was made with.
    pub fn options(&self) -> (options: &ProofOptions)
        ensures
            *options == self.options_spec(),
    {
        &self.options
    }

    /// Lays the two sequences out as the two main columns of a trace, row `i`
    /// holding `sequence[i]` and `permuted_sequence[i]`.
    pub fn build_trace(&self, sequence: Vec<u32>, permuted_sequence: Vec<u32>) -> (trace:
        PermutationTraceTable)
        requires
            build_error(sequence@.len(), permuted_sequence@.len()) is None,
        ensures
            is_trace_of(trace, sequence@, permuted_sequence@),
    {
        let length = sequence.len();
        proof {
            reveal(is_pow2);
        }
        assert(length >= 1);
        let mut trace = PermutationTraceTable::new(2, length);
        let init = |state: &mut [Felt]|
            requires
                old(state)@.len() == 2,
            ensures
                final(state)@.len() == 2,
                final(state)@[0]@ == sequence@[0],
                final(state)@[1]@ == permuted_sequence@[0],
            {
                state[0] = Felt::new(sequence[0] as u64);
                state[1] = Felt::new(permuted_sequence[0] as u64);
            };
        let update = |index: usize, state: &mut [Felt]|
            requires
                index + 1 < length,
                old(state)@.len() == 2,
            ensures
                final(state)@.len() == 2,
                final(state)@[0]@ == sequence@[index + 1],
                final(state)@[1]@ == permuted_sequence@[index + 1],
            {
                state[0] = Felt::new(sequence[index + 1] as u64);
                state[1] = Felt::new(permuted_sequence[index + 1] as u64);
            };
        trace.fill(init, update);
        proof {
            trace.lemma_shape();
            let (first, steps) = choose|first: &mut [Felt], steps: Seq<&mut [Felt]>|
                #![trigger call_ensures(init, (first,), ()), steps.len()]
                {
                    &&& is_zero_row(first@, 2)
                    &&& call_ensures(init, (first,), ())
                    &&& trace.holds_row(0, final(first)@)
                    &&& steps.len() == length - 1
                    &&& forall|i: int|
                        #![trigger steps[i]]
                        0 <= i < steps.len() ==> {
                            &&& trace.holds_row(i, steps[i]@)
                            &&& call_ensures(update, (i as usize, steps[i]), ())
                            &&& trace.holds_row(i + 1, final(steps[i])@)
                        }
                };
            assert forall|row: int| 0 <= row < length implies trace.column(0)[row] == residues(
                sequence@,
            )[row] && trace.column(1)[row] == residues(permuted_sequence@)[row] by {
                if row > 0 {
                    let step = steps[row - 1];
                    assert(call_ensures(update, ((row - 1) as usize, step), ()));
                    assert(trace.holds_row(row, final(step)@));
                }
            }
            assert(trace.column(0) =~= residues(sequence@));
            assert(trace.column(1) =~= residues(permuted_sequence@));
            if sequence@.to_multiset() == permuted_sequence@.to_multiset() {
                lemma_residues_rearranged(sequence@, permuted_sequence@);
            }
        }
        trace
    }

    /// Builds the trace of the two sequences where one can be built, and says
    /// why not where none can: no trace comes back for a length that is not a
    /// power of two, for two different lengths, or for more rows than a trace
    /// can have.
    pub fn try_build_trace(&self, sequence: Vec<u32>, permuted_sequence: Vec<u32>) -> (r: Result<
        PermutationTraceTable,
        BuildError,
    >)
        ensures
            r is Ok <==> build_error(sequence@.len(), permuted_sequence@.len()) is None,
            r matches Ok(trace) ==> is_trace_of(trace, sequence@, permuted_sequence@),
            r matches Err(e) ==> build_error(sequence@.len(), permuted_sequence@.len()) == Some(e),
    {
        match check_sequences(sequence.len(), permuted_sequence.len()) {
            Ok(()) => Ok(self.build_trace(sequence, permuted_sequence)),
            Err(e) => Err(e),
        }
    }

    /// The public input of a trace: the value of main column 0 in the last row.
    pub fn get_pub_inputs(&self, trace: &PermutationTraceTable) -> (value: Felt)
        requires
            trace.wf(),
            trace.is_written(trace.rows() - 1),
        ensures
            value@ == trace.column(0)[trace.rows() - 1],
    {
        proof {
            trace.lemma_shape();
        }
        let last_step = trace.length() - 1;
        trace.get(0, last_step)
    }
}

} // verus!
