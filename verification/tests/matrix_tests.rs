use permutation_stark::field::Felt;
use permutation_stark::matrix::Matrix;

fn felts(values: &[u64]) -> Vec<Felt> {
    values.iter().map(|v| Felt::new(*v)).collect()
}

fn ints(values: &[Felt]) -> Vec<u64> {
    values.iter().map(|v| v.as_int()).collect()
}

#[test]
fn zeroed_matrix_has_the_shape_and_holds_zeros() {
    let m = Matrix::zeroed(3, 4);
    assert_eq!(m.num_cols(), 3);
    assert_eq!(m.num_rows(), 4);
    for c in 0..3 {
        for r in 0..4 {
            assert_eq!(m.get(c, r), Felt::zero());
        }
    }
}

#[test]
fn single_row_matrix_behaves_as_any_other() {
    let mut m = Matrix::zeroed(3, 1);
    assert_eq!(m.num_cols(), 3);
    assert_eq!(m.num_rows(), 1);
    assert_eq!(ints(&m.column(2)), vec![0]);
    m.update_row(0, &felts(&[1, 2, 3]));
    m.update_row(0, &felts(&[9]));
    assert_eq!((m.get(0, 0).as_int(), m.get(1, 0).as_int(), m.get(2, 0).as_int()), (9, 2, 3));
    m.update_row(0, &felts(&[4, 5, 6, 7]));
    let mut long = felts(&[1, 1, 1, 1]);
    m.read_row_into(0, &mut long);
    assert_eq!(ints(&long), vec![4, 5, 6, 1]);
    let mut short = felts(&[8, 8]);
    m.read_row_into(0, &mut short);
    assert_eq!(ints(&short), vec![4, 5]);
    let one = Matrix::from_column(&felts(&[42]));
    assert_eq!((one.num_cols(), one.num_rows()), (1, 1));
    assert_eq!(one.get(0, 0).as_int(), 42);
}

#[test]
fn from_column_holds_the_column() {
    let column = felts(&[5, 6, 7, 8]);
    let m = Matrix::from_column(&column);
    assert_eq!(m.num_cols(), 1);
    assert_eq!(m.num_rows(), 4);
    assert_eq!(ints(&m.column(0)), vec![5, 6, 7, 8]);
    assert_eq!(m.get(0, 2).as_int(), 7);
}

#[test]
fn update_row_writes_one_value_a_column() {
    let mut m = Matrix::zeroed(2, 4);
    m.update_row(1, &felts(&[10, 20]));
    m.update_row(3, &felts(&[30, 40]));
    assert_eq!(ints(&m.column(0)), vec![0, 10, 0, 30]);
    assert_eq!(ints(&m.column(1)), vec![0, 20, 0, 40]);
}

#[test]
fn update_row_with_a_short_row_leaves_the_other_columns() {
    let mut m = Matrix::zeroed(3, 2);
    m.update_row(0, &felts(&[1, 2, 3]));
    m.update_row(0, &felts(&[9]));
    assert_eq!(m.get(0, 0).as_int(), 9);
    assert_eq!(m.get(1, 0).as_int(), 2);
    assert_eq!(m.get(2, 0).as_int(), 3);
}

#[test]
fn update_row_with_a_long_row_ignores_the_rest() {
    let mut m = Matrix::zeroed(2, 2);
    m.update_row(1, &felts(&[1, 2, 3, 4]));
    assert_eq!(m.num_cols(), 2);
    assert_eq!(m.get(0, 1).as_int(), 1);
    assert_eq!(m.get(1, 1).as_int(), 2);
}

#[test]
fn read_row_into_fills_as_far_as_the_columns_reach() {
    let mut m = Matrix::zeroed(2, 2);
    m.update_row(1, &felts(&[7, 8]));
    let mut exact = felts(&[0, 0]);
    m.read_row_into(1, &mut exact);
    assert_eq!(ints(&exact), vec![7, 8]);
    let mut long = felts(&[1, 1, 1, 1]);
    m.read_row_into(1, &mut long);
    assert_eq!(ints(&long), vec![7, 8, 1, 1]);
    let mut short = felts(&[5]);
    m.read_row_into(1, &mut short);
    assert_eq!(ints(&short), vec![7]);
}
