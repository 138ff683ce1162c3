//! The constraint system of the permutation argument: the declared degrees,
//! the two transition constraints and the two boundary assertions.

use crate::field::{
    field_add, field_inv, field_mul, field_sub, lemma_field_mul_associative, lemma_field_mul_one,
    lemma_field_sub_zero, Felt, MODULUS,
};
use crate::frame::EvaluationFrame;
use crate::running_product::{aux_value, lemma_permutation_closes, pole_free, ratio};
use crate::trace_table::TraceInfo;
use vstd::arithmetic::power2::is_pow2;
use vstd::prelude::*;
use winterfell::ProofOptions;

verus! {

/// The number of main columns: one for the sequence, one for its claimed
/// permutation.
pub const TRACE_WIDTH: usize = 2;

/// The declared degree of the main transition constraint.
pub const MAIN_CONSTRAINT_DEGREE: usize = 1;

/// The declared degree of the auxiliary transition constraint.
pub const AUX_CONSTRAINT_DEGREE: usize = 3;

/// The engine's proof parameters; they are handed on as they come.
#[verifier::external_type_specification]
#[verifier::external_body]
pub struct ExProofOptions(ProofOptions);

/// A required value of one cell of a trace segment.
#[derive(Clone, Copy, Debug, PartialEq, Eq, Structural)]
pub struct Assertion {
    pub column: usize,
    pub step: usize,
    pub value: Felt,
}

impl Assertion {
    /// The assertion that the cell at `column` and `step` holds `value`.
    pub fn single(column: usize, step: usize, value: Felt) -> (assertion: Assertion)
        ensures
            assertion == (Assertion { column, step, value }),
    {
        Assertion { column, step, value }
    }
}

/// The random elements drawn for the auxiliary segments, one list a segment.
pub struct AuxTraceRandElements {
    pub segments: Vec<Vec<Felt>>,
}

impl AuxTraceRandElements {
    /// No random elements yet.
    pub fn new() -> (elements: AuxTraceRandElements)
        ensures
            elements.segments@.len() == 0,
    {
        AuxTraceRandElements { segments: Vec::new() }
    }

    /// The random elements of the given auxiliary segment.
    pub fn get_segment_elements(&self, aux_segment_idx: usize) -> (elements: &[Felt])
        requires
            aux_segment_idx < self.segments@.len(),
        ensures
            elements@ == self.segments@[aux_segment_idx as int]@,
    {
        self.segments[aux_segment_idx].as_slice()
    }

    /// Adds the random elements of one more auxiliary segment.
    pub fn add_segment_elements(&mut self, rand_elements: Vec<Felt>)
        ensures
            final(self).segments@ == old(self).segments@.push(rand_elements),
    {
        self.segments.push(rand_elements);
    }
}

/// The parameters of one instance of the constraint system.
pub struct AirContext {
    pub options: ProofOptions,
    pub trace_info: TraceInfo,
    pub main_transition_constraint_degrees: Vec<usize>,
    pub aux_transition_constraint_degrees: Vec<usize>,
    pub num_main_assertions: usize,
    pub num_aux_assertions: usize,
}

impl AirContext {
    /// The number of rows of the trace.
    pub fn trace_len(&self) -> (length: usize)
        ensures
            length == self.trace_info.length,
    {
        self.trace_info.length
    }
}

/// The value of the auxiliary transition constraint on one pair of rows:
/// `aux_next - aux_current * (main_next_0 + challenge) / (main_next_1 + challenge)`.
pub open spec fn aux_constraint(
    aux_current: nat,
    aux_next: nat,
    main_next_0: nat,
    main_next_1: nat,
    challenge: nat,
) -> nat {
    field_sub(
        aux_next,
        field_mul(
            field_mul(aux_current, field_add(main_next_0, challenge)),
            field_inv(field_add(main_next_1, challenge)),
        ),
    )
}

/// The auxiliary constraint vanishes exactly where the next auxiliary value
/// is the current one times the fingerprint ratio of the next main row.
pub proof fn lemma_aux_constraint_is_recurrence(
    aux_current: nat,
    aux_next: nat,
    main_next_0: nat,
    main_next_1: nat,
    challenge: nat,
)
    requires
        aux_next < MODULUS,
    ensures
        aux_constraint(aux_current, aux_next, main_next_0, main_next_1, challenge) == 0
            <==> aux_next == field_mul(aux_current, ratio(main_next_0, main_next_1, challenge)),
{
    let numerator = field_add(main_next_0, challenge);
    let inverse = field_inv(field_add(main_next_1, challenge));
    lemma_field_mul_associative(aux_current, numerator, inverse);
    lemma_field_sub_zero(aux_next, field_mul(aux_current, field_mul(numerator, inverse)));
}

/// Along a trace the auxiliary constraint holds from every row to the next:
/// the auxiliary column is built by the recurrence that the constraint states.
pub proof fn lemma_aux_constraint_holds_along_trace(
    left: Seq<nat>,
    right: Seq<nat>,
    challenge: nat,
    row: int,
)
    requires
        left.len() == right.len(),
        0 <= row < left.len() - 1,
    ensures
        aux_constraint(
            aux_value(left, right, challenge, row),
            aux_value(left, right, challenge, row + 1),
            left[row + 1],
            right[row + 1],
            challenge,
        ) == 0,
{
    lemma_aux_constraint_is_recurrence(
        aux_value(left, right, challenge, row),
        aux_value(left, right, challenge, row + 1),
        left[row + 1],
        right[row + 1],
        challenge,
    );
}

/// On a permutation the auxiliary constraint also holds from the last row
/// around to row 0: the column closes to one, and one times the ratio of row 0
/// is the value of row 0.
pub proof fn lemma_aux_constraint_holds_around(left: Seq<nat>, right: Seq<nat>, challenge: nat)
    requires
        left.len() > 0,
        left.to_multiset() == right.to_multiset(),
        pole_free(right, challenge),
    ensures
        aux_constraint(
            aux_value(left, right, challenge, left.len() - 1),
            aux_value(left, right, challenge, 0),
            left[0],
            right[0],
            challenge,
        ) == 0,
{
    lemma_permutation_closes(left, right, challenge);
    let first = ratio(left[0], right[0], challenge);
    lemma_field_mul_one(first);
    lemma_aux_constraint_is_recurrence(1, first, left[0], right[0], challenge);
}

/// The constraint system of one permutation claim.
pub struct PermutationAir {
    context: AirContext,
    result: Felt,
}

impl PermutationAir {
    /// The parameters of this instance.
    pub closed spec fn context_spec(&self) -> AirContext {
        self.context
    }

    /// The public input: the claimed value of main column 0 in the last row.
    pub closed spec fn public_input(&self) -> Felt {
        self.result
    }

    /// The number of rows of the trace.
    pub open spec fn trace_rows(&self) -> nat {
        self.context_spec().trace_info.length as nat
    }

    /// The instance is for a trace of two main columns and one auxiliary
    /// column, with one constraint of each kind at its declared degree and one
    /// assertion on each segment.
    pub open spec fn wf(&self) -> bool {
        let context = self.context_spec();
        &&& context.trace_info.wf()
        &&& context.trace_info.layout.main_segment_width == TRACE_WIDTH
        &&& context.main_transition_constraint_degrees@ == seq![MAIN_CONSTRAINT_DEGREE]
        &&& context.aux_transition_constraint_degrees@ == seq![AUX_CONSTRAINT_DEGREE]
        &&& context.num_main_assertions == 1
        &&& context.num_aux_assertions == 1
    }

    /// The constraint system for a trace of the given info and a claimed
    /// public input.
    pub fn new(trace_info: TraceInfo, pub_inputs: Felt, options: ProofOptions) -> (air: PermutationAir)
        requires
            trace_info.wf(),
            trace_info.total_width() == TRACE_WIDTH + 1,
        ensures
            air.wf(),
            air.context_spec().trace_info == trace_info,
            air.context_spec().options == options,
            air.public_input() == pub_inputs,
    {
        let mut main_degrees: Vec<usize> = Vec::new();
        main_degrees.push(MAIN_CONSTRAINT_DEGREE);
        let mut aux_degrees: Vec<usize> = Vec::new();
        aux_degrees.push(AUX_CONSTRAINT_DEGREE);
        PermutationAir {
            context: AirContext {
                options,
                trace_info,
                main_transition_constraint_degrees: main_degrees,
                aux_transition_constraint_degrees: aux_degrees,
                num_main_assertions: 1,
                num_aux_assertions: 1,
            },
            result: pub_inputs,
        }
    }

    /// The parameters of this instance.
    pub fn context(&self) -> (context: &AirContext)
        ensures
            *context == self.context_spec(),
    {
        &self.context
    }

    /// The number of rows of the trace.
    pub fn trace_length(&self) -> (length: usize)
        ensures
            length == self.trace_rows(),
    {
        self.context.trace_len()
    }

    /// Evaluates the main transition constraint: it is zero on every frame.
    /// The main segment holds unconstrained data; what ties its two columns
    /// together is the auxiliary segment alone.
    pub fn evaluate_transition(
        &self,
        frame: &EvaluationFrame,
        _periodic_values: &[Felt],
        result: &mut [Felt],
    )
        requires
            old(result)@.len() >= 1,
        ensures
            final(result)@.len() == old(result)@.len(),
            final(result)@[0]@ == 0,
            forall|i: int| 1 <= i < final(result)@.len() ==> final(result)@[i] == old(result)@[i],
    {
        result[0] = Felt::zero();
    }

    /// The assertion on the main segment: column 0 holds the public input in
    /// the last row.
    pub fn get_assertions(&self) -> (assertions: Vec<Assertion>)
        requires
            self.wf(),
        ensures
            assertions@ == seq![
                (Assertion {
                    column: 0,
                    step: (self.trace_rows() - 1) as usize,
                    value: self.public_input(),
                }),
            ],
    {
        proof {
            reveal(is_pow2);
        }
        let last_step = self.trace_length() - 1;
        let mut assertions: Vec<Assertion> = Vec::new();
        assertions.push(Assertion::single(0, last_step, self.result));
        assertions
    }

    /// Evaluates the auxiliary transition constraint on a pair of rows:
    /// `aux_next - aux_current * (main_next[0] + c) / (main_next[1] + c)`,
    /// where `c` is the first random element of the auxiliary segment.
    pub fn evaluate_aux_transition(
        &self,
        main_frame: &EvaluationFrame,
        aux_frame: &EvaluationFrame,
        _periodic_values: &[Felt],
        aux_rand_elements: &AuxTraceRandElements,
        result: &mut [Felt],
    )
        requires
            main_frame.next@.len() >= 2,
            aux_frame.current@.len() >= 1,
            aux_frame.next@.len() >= 1,
            aux_rand_elements.segments@.len() >= 1,
            aux_rand_elements.segments@[0]@.len() >= 1,
            old(result)@.len() >= 1,
        ensures
            final(result)@.len() == old(result)@.len(),
            final(result)@[0]@ == aux_constraint(
                aux_frame.current@[0]@,
                aux_frame.next@[0]@,
                main_frame.next@[0]@,
                main_frame.next@[1]@,
                aux_rand_elements.segments@[0]@[0]@,
            ),
            forall|i: int| 1 <= i < final(result)@.len() ==> final(result)@[i] == old(result)@[i],
    {
        let main_next = main_frame.next();
        let aux_current = aux_frame.current();
        let aux_next = aux_frame.next();
        let random_elements = aux_rand_elements.get_segment_elements(0);
        let numerator = main_next[0].add(random_elements[0]);
        let denominator = main_next[1].add(random_elements[0]);
        result[0] = aux_next[0].sub(aux_current[0].mul(numerator).mul(denominator.inv()));
    }

    /// The assertion on the auxiliary segment: its column holds one in the
    /// last row, which is what certifies that the two main columns hold the
    /// same values.
    pub fn get_aux_assertions(&self, _aux_rand_elements: &AuxTraceRandElements) -> (assertions: Vec<
        Assertion,
    >)
        requires
            self.wf(),
        ensures
            assertions@.len() == 1,
            assertions@[0].column == 0,
            assertions@[0].step == self.trace_rows() - 1,
            assertions@[0].value@ == 1,
    {
        proof {
            reveal(is_pow2);
        }
        let last_step = self.trace_length() - 1;
        let mut assertions: Vec<Assertion> = Vec::new();
        assertions.push(Assertion::single(0, last_step, Felt::one()));
        assertions
    }
}

} // verus!
