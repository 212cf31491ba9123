use sparse_matrix::bn256::Scalar;
use sparse_matrix::sparse::{RowData, SparseMatrix};

fn elements(xs: &[u64]) -> Vec<Scalar> {
    xs.iter().map(|x| Scalar::from_u64(*x)).collect()
}

fn sample() -> SparseMatrix<Scalar> {
    SparseMatrix {
        data: elements(&[2, 3, 5, 7]),
        indices: vec![0, 1, 2, 0],
        indptr: vec![0, 2, 2, 3, 4],
        cols: 3,
    }
}

#[test]
fn clone_equals_its_source() {
    let m = sample();
    let copy = m.clone();
    assert_eq!(copy, m);
    assert_eq!(copy.data, elements(&[2, 3, 5, 7]));
    assert_eq!(copy.indices, vec![0, 1, 2, 0]);
    assert_eq!(copy.indptr, vec![0, 2, 2, 3, 4]);
    assert_eq!(copy.cols, 3);
}

#[test]
fn clone_of_a_large_matrix_equals_its_source() {
    let n = 100_000;
    let m = SparseMatrix {
        data: (0..n as u64).map(Scalar::from_u64).collect(),
        indices: (0..n).collect(),
        indptr: (0..=n).collect(),
        cols: n,
    };
    assert_eq!(m.clone(), m);
}

#[test]
fn changing_the_clone_leaves_its_source() {
    let m = sample();
    let mut copy = m.clone();
    copy.data[0] = Scalar::from_u64(99);
    copy.indices[1] = 2;
    copy.indptr.push(4);
    copy.cols = 8;
    assert_eq!(m, sample());
    assert_ne!(copy, m);
    let v = elements(&[1, 1, 1]);
    assert_eq!(m.multiply_vec(&v), elements(&[5, 0, 5, 7]));
}

#[test]
fn row_access_pairs_values_with_columns() {
    let m = sample();
    let row = m.get_row_unchecked(&[0, 2]);
    assert_eq!(row, vec![(&Scalar::from_u64(2), &0), (&Scalar::from_u64(3), &1)]);
    assert_eq!(m.get_row_unchecked(&[2, 2]), vec![]);
    assert_eq!(m.get_row_unchecked(&[3, 4]), vec![(&Scalar::from_u64(7), &0)]);
    assert_eq!(m.get_row_unchecked(&[1, 4]).len(), 3);
}

#[test]
fn row_data_keeps_its_pair() {
    let row = RowData::new([2, 3]);
    assert_eq!(row.as_ptrs(), &[2, 3]);
    let m = sample();
    assert_eq!(m.get_row_unchecked(row.as_ptrs()), vec![(&Scalar::from_u64(5), &2)]);
    assert_eq!(row.clone().as_ptrs(), &[2, 3]);
}

#[test]
fn well_formed_matrices_pass_the_test() {
    assert!(sample().is_well_formed());
    let empty: SparseMatrix<Scalar> = SparseMatrix {
        data: vec![],
        indices: vec![],
        indptr: vec![0],
        cols: 0,
    };
    assert!(empty.is_well_formed());
}

#[test]
fn missing_row_boundaries_are_not_well_formed() {
    let mut m = sample();
    m.data.clear();
    m.indices.clear();
    m.indptr.clear();
    assert!(!m.is_well_formed());
}

#[test]
fn boundaries_not_starting_at_zero_are_not_well_formed() {
    let mut m = sample();
    m.indptr[0] = 1;
    assert!(!m.is_well_formed());
}

#[test]
fn decreasing_boundaries_are_not_well_formed() {
    let mut m = sample();
    m.indptr = vec![0, 3, 2, 3, 4];
    assert!(!m.is_well_formed());
}

#[test]
fn boundaries_not_ending_at_the_data_are_not_well_formed() {
    let mut m = sample();
    m.indptr = vec![0, 2, 2, 3, 3];
    assert!(!m.is_well_formed());
    m.indptr = vec![0, 2, 2, 3, 5];
    assert!(!m.is_well_formed());
}

#[test]
fn unpaired_values_and_columns_are_not_well_formed() {
    let mut m = sample();
    m.indices.pop();
    assert!(!m.is_well_formed());
}

#[test]
fn column_outside_the_matrix_is_not_well_formed() {
    let mut m = sample();
    m.indices[2] = 3;
    assert!(!m.is_well_formed());
    m.cols = 4;
    assert!(m.is_well_formed());
}
