use permutation_stark::field::{Felt, MODULUS};
use permutation_stark::frame::EvaluationFrame;
use permutation_stark::matrix::Matrix;
use permutation_stark::trace_table::{
    check_shape, is_power_of_two, PermutationTraceTable, ShapeError, TraceLayout,
    MAX_META_LENGTH, MAX_TRACE_LENGTH, MAX_TRACE_WIDTH,
};

const S: [u64; 8] = [4, 9, 10, 12, 456, 68, 1, 11];
const T: [u64; 8] = [10, 12, 456, 68, 1, 11, 4, 9];

fn table_of(left: &[u64], right: &[u64]) -> PermutationTraceTable {
    let mut table = PermutationTraceTable::new(2, left.len());
    for i in 0..left.len() {
        table.update_row(i, &[Felt::new(left[i]), Felt::new(right[i])]);
    }
    table
}

fn aux_of(table: &mut PermutationTraceTable, challenge: u64) -> Vec<u64> {
    let challenge = Felt::new(challenge);
    assert_eq!(table.find_pole(challenge), None);
    let aux = table.build_aux_segment(&[], &[challenge]).unwrap();
    assert_eq!(aux.num_cols(), 1);
    aux.column(0).iter().map(|v| v.as_int()).collect()
}

#[test]
fn power_of_two_test_is_exact_on_small_numbers() {
    let powers = [1usize, 2, 4, 8, 16, 32, 64, 128, 256, 512, 1024, 2048];
    for n in 0..2050usize {
        assert_eq!(is_power_of_two(n), powers.contains(&n));
        assert_eq!(is_power_of_two(n), n.is_power_of_two());
    }
    assert!(is_power_of_two(1 << 20));
    assert!(!is_power_of_two((1 << 20) + 1));
    assert!(!is_power_of_two(usize::MAX));
}

#[test]
fn allocate_accepts_the_usual_shape() {
    assert_eq!(check_shape(2, 8, 0), Ok(()));
    assert_eq!(check_shape(1, 2, MAX_META_LENGTH), Ok(()));
    assert_eq!(check_shape(MAX_TRACE_WIDTH - 1, 2, 0), Ok(()));
}

#[test]
fn allocate_fails_for_width_zero() {
    assert_eq!(check_shape(0, 8, 0), Err(ShapeError::ZeroWidth));
}

#[test]
fn allocate_fails_for_width_above_the_maximum() {
    assert_eq!(check_shape(MAX_TRACE_WIDTH, 8, 0), Err(ShapeError::WidthTooLarge));
    assert_eq!(check_shape(MAX_TRACE_WIDTH + 1, 8, 0), Err(ShapeError::WidthTooLarge));
    assert_eq!(check_shape(usize::MAX, 8, 0), Err(ShapeError::WidthTooLarge));
}

#[test]
fn allocate_fails_for_length_not_a_power_of_two() {
    assert_eq!(check_shape(2, 7, 0), Err(ShapeError::LengthNotPowerOfTwo));
    assert_eq!(check_shape(2, 0, 0), Err(ShapeError::LengthNotPowerOfTwo));
    assert_eq!(check_shape(2, 12, 0), Err(ShapeError::LengthNotPowerOfTwo));
}

#[test]
fn allocate_fails_for_length_beyond_the_field_depth() {
    let largest = MAX_TRACE_LENGTH as usize;
    assert_eq!(largest, 1usize << 39);
    assert_eq!(check_shape(2, largest, 0), Ok(()));
    assert_eq!(check_shape(2, largest * 2, 0), Err(ShapeError::LengthTooLarge));
}

#[test]
fn allocate_fails_for_oversized_metadata() {
    assert_eq!(check_shape(2, 8, MAX_META_LENGTH + 1), Err(ShapeError::MetaTooLong));
}

#[test]
fn allocate_accepts_a_single_row() {
    assert_eq!(check_shape(2, 1, 0), Ok(()));
    assert_eq!(check_shape(1, 1, MAX_META_LENGTH), Ok(()));
    let table = PermutationTraceTable::with_meta(2, 1, vec![9]);
    assert_eq!(table.width(), 2);
    assert_eq!(table.length(), 1);
    assert_eq!(table.meta(), &[9u8][..]);
    assert!(!table.is_row_written(0));
    assert_eq!(
        *table.layout(),
        TraceLayout { main_segment_width: 2, aux_segment_width: 1, aux_segment_rands: 1 }
    );
}

#[test]
fn fill_on_a_single_row_writes_row_zero_and_never_calls_update() {
    let mut table = PermutationTraceTable::new(2, 1);
    table.fill(
        |state: &mut [Felt]| {
            state[0] = Felt::new(7);
            state[1] = Felt::new(9);
        },
        |_index: usize, _state: &mut [Felt]| panic!("a single row has no next row"),
    );
    assert!(table.is_fully_written());
    assert_eq!(table.get(0, 0), Felt::new(7));
    assert_eq!(table.get(1, 0), Felt::new(9));
}

#[test]
fn single_row_reads_back_and_wraps_to_itself() {
    let mut table = PermutationTraceTable::new(2, 1);
    table.update_row(0, &[Felt::new(5), Felt::new(6)]);
    let mut target = [Felt::zero(), Felt::zero(), Felt::new(3)];
    table.read_row_into(0, &mut target);
    assert_eq!(target, [Felt::new(5), Felt::new(6), Felt::new(3)]);
    let mut frame = EvaluationFrame::new(2);
    table.read_main_frame(0, &mut frame);
    assert_eq!(frame.current(), &[Felt::new(5), Felt::new(6)][..]);
    assert_eq!(frame.next(), &[Felt::new(5), Felt::new(6)][..]);
    assert_eq!(table.main_segment().num_rows(), 1);
    assert_eq!(table.main_segment().column(1), vec![Felt::new(6)]);
}

#[test]
fn single_row_aux_segment_is_the_ratio_of_that_row() {
    let mut table = table_of(&[5], &[6]);
    // (5 + 1) / (6 + 1)
    assert_eq!(aux_of(&mut table, 1), vec![3952821424741754004]);
    assert_eq!(table.find_pole(Felt::new(MODULUS - 6)), Some(0));
    let mut same = table_of(&[7], &[7]);
    for challenge in [0u64, 1, 99, MODULUS - 1] {
        assert_eq!(aux_of(&mut same, challenge), vec![1]);
    }
}

#[test]
fn shape_checks_come_in_order() {
    assert_eq!(check_shape(0, 7, MAX_META_LENGTH + 1), Err(ShapeError::ZeroWidth));
    assert_eq!(check_shape(300, 7, MAX_META_LENGTH + 1), Err(ShapeError::WidthTooLarge));
    assert_eq!(check_shape(2, 7, MAX_META_LENGTH + 1), Err(ShapeError::LengthNotPowerOfTwo));
    assert_eq!(check_shape(2, 1, MAX_META_LENGTH + 1), Err(ShapeError::MetaTooLong));
    assert_eq!(check_shape(2, usize::MAX, MAX_META_LENGTH + 1), Err(ShapeError::LengthNotPowerOfTwo));
    assert_eq!(check_shape(2, 1 << 40, MAX_META_LENGTH + 1), Err(ShapeError::LengthTooLarge));
}

#[test]
fn new_table_has_its_shape_and_no_written_row() {
    let table = PermutationTraceTable::new(2, 8);
    assert_eq!(table.width(), 2);
    assert_eq!(table.length(), 8);
    assert_eq!(table.meta().len(), 0);
    assert_eq!(
        *table.layout(),
        TraceLayout { main_segment_width: 2, aux_segment_width: 1, aux_segment_rands: 1 }
    );
    for row in 0..8 {
        assert!(!table.is_row_written(row));
    }
    assert!(!table.is_row_written(8));
    assert!(!table.is_fully_written());
}

#[test]
fn with_meta_keeps_the_metadata() {
    let table = PermutationTraceTable::with_meta(3, 4, vec![1, 2, 3]);
    assert_eq!(table.width(), 3);
    assert_eq!(table.length(), 4);
    assert_eq!(table.meta(), &[1u8, 2, 3][..]);
    let info = table.get_info();
    assert_eq!(info.width(), 4);
    assert_eq!(info.length(), 4);
    assert_eq!(info.meta, vec![1, 2, 3]);
}

#[test]
fn update_row_then_get_reads_the_row_back() {
    let mut table = PermutationTraceTable::new(2, 4);
    table.update_row(2, &[Felt::new(5), Felt::new(MODULUS + 6)]);
    assert!(table.is_row_written(2));
    assert!(!table.is_row_written(1));
    assert_eq!(table.get(0, 2).as_int(), 5);
    assert_eq!(table.get(1, 2).as_int(), 6);
    let mut target = [Felt::zero(), Felt::zero(), Felt::new(99)];
    table.read_row_into(2, &mut target);
    assert_eq!(target, [Felt::new(5), Felt::new(6), Felt::new(99)]);
}

#[test]
fn a_short_row_does_not_count_as_written() {
    let mut table = PermutationTraceTable::new(2, 4);
    table.update_row(0, &[Felt::new(5)]);
    assert!(!table.is_row_written(0));
    table.update_row(0, &[Felt::new(7), Felt::new(8)]);
    assert!(table.is_row_written(0));
    table.update_row(0, &[Felt::new(9)]);
    assert!(table.is_row_written(0));
    assert_eq!(table.get(0, 0).as_int(), 9);
    assert_eq!(table.get(1, 0).as_int(), 8);
}

#[test]
fn fill_populates_every_row_from_init_and_update() {
    let mut table = PermutationTraceTable::new(2, 8);
    table.fill(
        |state: &mut [Felt]| {
            assert_eq!(state, &[Felt::zero(), Felt::zero()][..]);
            state[0] = Felt::new(1);
            state[1] = Felt::new(100);
        },
        |index: usize, state: &mut [Felt]| {
            state[0] = state[0].add(state[0]);
            state[1] = state[1].add(Felt::new(index as u64));
        },
    );
    assert!(table.is_fully_written());
    let mut left = 1u64;
    let mut right = 100u64;
    for row in 0..8 {
        assert_eq!(table.get(0, row).as_int(), left);
        assert_eq!(table.get(1, row).as_int(), right);
        left *= 2;
        right += row as u64;
    }
}

#[test]
fn fill_calls_update_with_each_index_once_in_order() {
    let seen = std::cell::RefCell::new(Vec::new());
    let mut table = PermutationTraceTable::new(1, 4);
    table.fill(
        |state: &mut [Felt]| state[0] = Felt::new(7),
        |index: usize, state: &mut [Felt]| {
            assert_eq!(state.len(), 1);
            seen.borrow_mut().push(index);
        },
    );
    assert_eq!(*seen.borrow(), vec![0, 1, 2]);
    for row in 0..4 {
        assert_eq!(table.get(0, row).as_int(), 7);
    }
}

#[test]
fn fill_overwrites_rows_written_before() {
    let mut table = PermutationTraceTable::new(2, 2);
    table.update_row(1, &[Felt::new(5), Felt::new(6)]);
    table.fill(
        |state: &mut [Felt]| state[1] = Felt::new(9),
        |_index: usize, state: &mut [Felt]| state[0] = Felt::new(3),
    );
    assert_eq!((table.get(0, 0).as_int(), table.get(1, 0).as_int()), (0, 9));
    assert_eq!((table.get(0, 1).as_int(), table.get(1, 1).as_int()), (3, 9));
}

#[test]
fn main_frame_wraps_from_the_last_row_to_row_zero() {
    let table = table_of(&S, &T);
    let mut frame = EvaluationFrame::new(2);
    table.read_main_frame(3, &mut frame);
    assert_eq!(frame.current(), &[Felt::new(12), Felt::new(68)][..]);
    assert_eq!(frame.next(), &[Felt::new(456), Felt::new(1)][..]);
    table.read_main_frame(7, &mut frame);
    assert_eq!(frame.current(), &[Felt::new(11), Felt::new(9)][..]);
    assert_eq!(frame.next(), &[Felt::new(4), Felt::new(10)][..]);
}

#[test]
fn main_segment_hands_out_the_columns() {
    let table = table_of(&S, &T);
    let segment: &Matrix = table.main_segment();
    assert_eq!(segment.num_cols(), 2);
    assert_eq!(segment.num_rows(), 8);
    let left: Vec<u64> = segment.column(0).iter().map(|v| v.as_int()).collect();
    let right: Vec<u64> = segment.column(1).iter().map(|v| v.as_int()).collect();
    assert_eq!(left, S.to_vec());
    assert_eq!(right, T.to_vec());
}

#[test]
fn aux_segment_is_the_running_product_of_the_ratios() {
    let mut table = table_of(&S, &T);
    assert_eq!(
        aux_of(&mut table, 1),
        vec![
            2096193179787293790,
            902975523600680402,
            1828038522888060785,
            4287686601941094552,
            2071889490746281688,
            2690114580727027032,
            3843020829610038615,
            1
        ]
    );
    assert_eq!(
        aux_of(&mut table, 123456789),
        vec![
            3776999226136025415,
            4404493985783347569,
            4263150316540499167,
            3788423255348300343,
            1235507510706499992,
            2497857833620569456,
            1913957876911764585,
            1
        ]
    );
}

#[test]
fn aux_segment_follows_the_recurrence() {
    let mut table = table_of(&S, &T);
    let c = Felt::new(987654321);
    let aux = aux_of(&mut table, 987654321);
    let mut expected = Felt::one();
    for row in 0..8 {
        let ratio = Felt::new(S[row]).add(c).mul(Felt::new(T[row]).add(c).inv());
        expected = expected.mul(ratio);
        assert_eq!(aux[row], expected.as_int());
    }
}

#[test]
fn aux_segment_closes_to_one_on_the_rotated_sequence() {
    let mut table = table_of(&S, &T);
    let mut challenge: u64 = 1;
    for _ in 0..100 {
        challenge = challenge.wrapping_mul(6364136223846793005).wrapping_add(1442695040888963407);
        if table.find_pole(Felt::new(challenge)).is_some() {
            continue;
        }
        let aux = aux_of(&mut table, challenge);
        assert_eq!(aux[7], 1);
    }
}

#[test]
fn aux_segment_closes_to_one_on_any_rearrangement() {
    let left: Vec<u64> = (0..16).map(|i| (i * i + 3) % 23).collect();
    let mut right = left.clone();
    right.reverse();
    right.swap(2, 11);
    right.swap(0, 5);
    let mut table = table_of(&left, &right);
    for challenge in [2u64, 3, 1000, MODULUS - 1000, 1 << 61] {
        if table.find_pole(Felt::new(challenge)).is_some() {
            continue;
        }
        assert_eq!(aux_of(&mut table, challenge)[15], 1);
    }
}

#[test]
fn aux_segment_does_not_close_where_a_value_differs() {
    let mut changed = T;
    changed[3] = 69;
    let mut table = table_of(&S, &changed);
    let mut challenge: u64 = 7;
    let mut closed = 0;
    let mut tried = 0;
    for _ in 0..500 {
        challenge = challenge.wrapping_mul(6364136223846793005).wrapping_add(1442695040888963407);
        if table.find_pole(Felt::new(challenge)).is_some() {
            continue;
        }
        tried += 1;
        if aux_of(&mut table, challenge)[7] == 1 {
            closed += 1;
        }
    }
    assert!(tried >= 490);
    assert_eq!(closed, 0);
}

#[test]
fn aux_segment_does_not_close_where_a_count_differs() {
    let left = [5u64, 5, 6, 7];
    let right = [5u64, 6, 6, 7];
    let mut table = table_of(&left, &right);
    for challenge in 1..200u64 {
        if table.find_pole(Felt::new(challenge)).is_some() {
            continue;
        }
        assert_ne!(aux_of(&mut table, challenge)[3], 1);
    }
}

#[test]
fn aux_segment_is_built_only_once() {
    let mut table = table_of(&S, &T);
    let challenge = [Felt::new(42)];
    let first = table.build_aux_segment(&[], &challenge).unwrap();
    assert_eq!(first.num_rows(), 8);
    let again = table.build_aux_segment(&[first], &challenge);
    assert!(again.is_none());
}

#[test]
fn building_the_aux_segment_leaves_the_main_segment() {
    let mut table = table_of(&S, &T);
    let _ = aux_of(&mut table, 5);
    for row in 0..8 {
        assert_eq!(table.get(0, row).as_int(), S[row]);
        assert_eq!(table.get(1, row).as_int(), T[row]);
    }
    assert!(table.is_fully_written());
}

#[test]
fn find_pole_names_the_first_row_with_a_zero_denominator() {
    let table = table_of(&S, &T);
    assert_eq!(table.find_pole(Felt::new(MODULUS - 10)), Some(0));
    assert_eq!(table.find_pole(Felt::new(MODULUS - 68)), Some(3));
    assert_eq!(table.find_pole(Felt::new(MODULUS - 9)), Some(7));
    assert_eq!(table.find_pole(Felt::new(MODULUS - 5)), None);
    assert_eq!(table.find_pole(Felt::new(0)), None);
    let with_zero = table_of(&[1, 0], &[0, 1]);
    assert_eq!(with_zero.find_pole(Felt::new(0)), Some(0));
}
