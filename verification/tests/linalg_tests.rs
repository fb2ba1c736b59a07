//! Tests of the linear algebra operations.

use mylittlemodel::linalg::{MatrixWrapper, VectorWrapper};
use mylittlemodel::scalar::Scalar;

fn fx(v: i64) -> Scalar {
    Scalar::from_int(v)
}

fn col_of(vals: &[i64]) -> Vec<Scalar> {
    vals.iter().map(|&v| Scalar::from_int(v)).collect()
}

fn mat_from_cols(rows: usize, cols: &[&[i64]]) -> MatrixWrapper {
    let cols_vec: Vec<Vec<Scalar>> = cols.iter().map(|c| col_of(c)).collect();
    MatrixWrapper::from_cols(rows, &cols_vec).unwrap()
}

fn vec_of(vals: &[i64]) -> VectorWrapper {
    VectorWrapper::from_arr(col_of(vals))
}

#[test]
fn transpose_twice() {
    let m = mat_from_cols(4, &[&[1, 2, 3, 4], &[5, 6, 7, 8], &[9, 10, 11, 12]]);
    let mt = m.T();
    let mtt = mt.T();
    assert!(m.equals(&mtt));
}

#[test]
fn matrix_add_multiply_scalar() {
    let m = MatrixWrapper::identity(3);
    let m2 = m.add_scalar(fx(1)).scalar_mul(fx(5)).scalar_mul(fx(2)).add_scalar(fx(3));
    let expected = mat_from_cols(3, &[&[23, 13, 13], &[13, 23, 13], &[13, 13, 23]]);
    assert!(m2.equals(&expected));
}

#[test]
fn matrix_multiplication() {
    let m1 = mat_from_cols(2, &[&[1, 2], &[3, 4], &[5, 6]]);
    let m2 = mat_from_cols(3, &[&[1, 2, 3], &[4, 5, 6]]);
    let expected = mat_from_cols(2, &[&[22, 28], &[49, 64]]);
    assert!(m1.mul(&m2).equals(&expected));
}

#[test]
fn matrix_vector_multiplication() {
    let m = mat_from_cols(2, &[&[1, 2], &[3, 4], &[5, 6]]);
    let v = vec_of(&[1, 0, 2]);
    let expected = vec_of(&[11, 14]);
    assert!(m.mul_vec(&v).equals(&expected));
}

#[test]
fn vector_indexing() {
    let v = VectorWrapper::zero(5).add_scalar(fx(5));
    for i in 0..5 {
        assert_eq!(v.index(i).to_micros(), 5_000_000);
    }
}

#[test]
fn vector_mut_indexing() {
    let mut v = vec_of(&[0, 0, 0, 0, 0]);
    for i in 0..5 {
        v.set_index(i, fx(5 - i as i64));
    }
    for i in 0..5 {
        assert_eq!(v.index(i).to_micros(), (5 - i as i64) * 1_000_000);
    }
}

#[test]
fn vector_times_transpose() {
    let v = vec_of(&[1, 2, 3, 4, 5]);
    let u = vec_of(&[1, 0, 2]);
    let expected = mat_from_cols(
        5,
        &[&[1, 2, 3, 4, 5], &[0, 0, 0, 0, 0], &[2, 4, 6, 8, 10]],
    );
    assert!(v.outer(&u).equals(&expected));
}

#[test]
fn matrix_from_cols_multiply() {
    let m1 = mat_from_cols(2, &[&[1, 2], &[3, 4], &[5, 6]]);
    let m2 = mat_from_cols(3, &[&[1, 2, 3], &[4, 5, 6]]);
    let expected = mat_from_cols(2, &[&[22, 28], &[49, 64]]);
    assert!(m1.mul(&m2).equals(&expected));
}

#[test]
fn dense_matrix_wrapper_multiply() {
    let m1 = MatrixWrapper::from_arr(2, 3, col_of(&[1, 2, 3, 4, 5, 6]));
    let m2 = MatrixWrapper::from_arr(3, 2, col_of(&[1, 2, 3, 4, 5, 6]));
    let expected = MatrixWrapper::from_arr(2, 2, col_of(&[22, 28, 49, 64]));
    assert!(m1.mul(&m2).equals(&expected));
}

#[test]
fn dense_matrix_multiply() {
    let m1 = mat_from_cols(2, &[&[1, 2], &[3, 4], &[5, 6]]);
    let m2 = mat_from_cols(3, &[&[1, 2, 3], &[4, 5, 6]]);
    let expected = mat_from_cols(2, &[&[22, 28], &[49, 64]]);
    assert!(m1.mul(&m2).equals(&expected));
}

#[test]
fn dense_matrix_scalar_add_multiply() {
    let m = mat_from_cols(2, &[&[1, 2], &[3, 4], &[5, 6]]);
    let r = m.add_scalar(fx(5)).scalar_mul(fx(2));
    let expected = mat_from_cols(2, &[&[12, 14], &[16, 18], &[20, 22]]);
    assert!(r.equals(&expected));
}

#[test]
fn transpose_keeps_every_storage_variant() {
    let dense = mat_from_cols(2, &[&[1, 2], &[3, 4]]);
    assert!(dense.T().T().equals(&dense));

    let constant = MatrixWrapper::constant(2, 3, fx(7));
    assert!(constant.T().T().equals(&constant));

    let diag = MatrixWrapper::diag(&vec_of(&[1, 2, 3]));
    assert!(diag.T().T().equals(&diag));
    assert!(diag.T().equals(&diag));

    let identity = MatrixWrapper::identity(3);
    assert!(identity.T().T().equals(&identity));

    let zero = MatrixWrapper::zero(3, 2);
    assert!(zero.T().T().equals(&zero));

    let sparse =
        MatrixWrapper::sparse_from(2, 3, vec![0, 3, 5], col_of(&[9, 8, 7])).unwrap();
    let st = sparse.T();
    assert!(matches!(st, MatrixWrapper::Sparse(_)));
    assert_eq!(st.at(0, 0).to_micros(), 9_000_000);
    assert_eq!(st.at(1, 1).to_micros(), 8_000_000);
    assert_eq!(st.at(2, 1).to_micros(), 7_000_000);
    assert!(st.T().equals(&sparse));
}
