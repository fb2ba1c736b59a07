//! Tests of the variant dispatch: which storage representation each
//! operation picks, that compact representations read correctly, and
//! that variants denoting the same value behave identically.

use mylittlemodel::linalg::{MatrixWrapper, VectorWrapper};
use mylittlemodel::scalar::Scalar;

fn fi(v: i64) -> Scalar {
    Scalar::from_int(v)
}

fn scalars(vals: &[i64]) -> Vec<Scalar> {
    vals.iter().map(|&v| Scalar::from_int(v)).collect()
}

fn dvec(vals: &[i64]) -> VectorWrapper {
    VectorWrapper::from_arr(scalars(vals))
}

fn dmat_cols(rows: usize, cols: &[&[i64]]) -> MatrixWrapper {
    let cols_vec: Vec<Vec<Scalar>> = cols.iter().map(|c| scalars(c)).collect();
    MatrixWrapper::from_cols(rows, &cols_vec).unwrap()
}

#[test]
fn zero_matrix_absorbs_multiplication() {
    let z = MatrixWrapper::zero(2, 3);
    let m = dmat_cols(3, &[&[1, 2, 3], &[4, 5, 6]]);
    let r = z.mul(&m);
    assert!(matches!(r, MatrixWrapper::Zero(_)));
    for i in 0..2 {
        for j in 0..2 {
            assert_eq!(r.at(i, j).to_micros(), 0);
        }
    }
    let r2 = m.mul(&MatrixWrapper::zero(2, 4));
    assert!(matches!(r2, MatrixWrapper::Zero(_)));
}

#[test]
fn identity_multiplication_keeps_operand_representation() {
    let sp = MatrixWrapper::sparse_from(3, 3, vec![1, 4], scalars(&[5, 6])).unwrap();
    let r = MatrixWrapper::identity(3).mul(&sp);
    assert!(matches!(r, MatrixWrapper::Sparse(_)));
    assert!(r.equals(&sp));

    let d = dmat_cols(2, &[&[1, 2], &[3, 4], &[5, 6]]);
    let r2 = d.mul(&MatrixWrapper::identity(3));
    assert!(matches!(r2, MatrixWrapper::Dense(_)));
    assert!(r2.equals(&d));
}

#[test]
fn diagonal_times_diagonal_stays_diagonal() {
    let d1 = MatrixWrapper::diag(&dvec(&[2, 3, 4]));
    let d2 = MatrixWrapper::diag(&dvec(&[5, 6, 7]));
    let r = d1.mul(&d2);
    assert!(matches!(r, MatrixWrapper::Diagonal(_)));
    assert_eq!(r.at(0, 0).to_micros(), 10_000_000);
    assert_eq!(r.at(1, 1).to_micros(), 18_000_000);
    assert_eq!(r.at(2, 2).to_micros(), 28_000_000);
    assert_eq!(r.at(0, 2).to_micros(), 0);
}

#[test]
fn matrix_addition_dispatch_table() {
    let z = MatrixWrapper::zero(2, 2);
    let c = MatrixWrapper::constant(2, 2, fi(3));
    let d = dmat_cols(2, &[&[1, 2], &[3, 4]]);
    let i = MatrixWrapper::identity(2);
    let dg = MatrixWrapper::diag(&dvec(&[5, 6]));

    assert!(matches!(z.add(&c), MatrixWrapper::Constant(_)));
    assert!(matches!(c.add(&z), MatrixWrapper::Constant(_)));
    assert!(matches!(c.add(&c), MatrixWrapper::Constant(_)));
    assert!(matches!(dg.add(&i), MatrixWrapper::Diagonal(_)));
    assert!(matches!(i.add(&i), MatrixWrapper::Diagonal(_)));
    assert!(matches!(c.add(&d), MatrixWrapper::Dense(_)));
    assert!(matches!(i.sub(&i), MatrixWrapper::Zero(_)));
    assert!(matches!(z.sub(&i), MatrixWrapper::Diagonal(_)));

    let di = dg.add(&i);
    assert_eq!(di.at(0, 0).to_micros(), 6_000_000);
    assert_eq!(di.at(1, 1).to_micros(), 7_000_000);
    assert_eq!(di.at(0, 1).to_micros(), 0);
}

#[test]
fn vector_dispatch_table() {
    let z = VectorWrapper::zero(3);
    let c = VectorWrapper::constant(3, fi(2));
    let oh = VectorWrapper::onehot(3, 1);
    let d = dvec(&[1, 2, 3]);

    assert!(matches!(z.add(&oh), VectorWrapper::OneHot(_)));
    assert!(matches!(oh.add(&z), VectorWrapper::OneHot(_)));
    assert!(matches!(c.add(&c), VectorWrapper::Constant(_)));
    assert!(matches!(c.add(&d), VectorWrapper::Dense(_)));
    assert!(matches!(oh.scalar_mul(fi(4)), VectorWrapper::Sparse(_)));
    assert!(matches!(z.scalar_mul(fi(4)), VectorWrapper::Zero(_)));
    assert!(matches!(z.add_scalar(fi(4)), VectorWrapper::Constant(_)));
    assert!(matches!(oh.neg(), VectorWrapper::Sparse(_)));

    let s = oh.scalar_mul(fi(4));
    assert_eq!(s.index(0).to_micros(), 0);
    assert_eq!(s.index(1).to_micros(), 4_000_000);
    assert_eq!(s.index(2).to_micros(), 0);
}

#[test]
fn onehot_and_constant_reads() {
    let oh = VectorWrapper::onehot(4, 2);
    assert_eq!(oh.index(0).to_micros(), 0);
    assert_eq!(oh.index(2).to_micros(), 1_000_000);
    let c = VectorWrapper::constant(3, fi(9));
    for i in 0..3 {
        assert_eq!(c.index(i).to_micros(), 9_000_000);
    }
}

#[test]
fn sparse_vector_construction_and_reads() {
    let sv = VectorWrapper::sparse_from(5, vec![1, 3], scalars(&[10, 20])).unwrap();
    let expect = [0i64, 10, 0, 20, 0];
    for i in 0..5 {
        assert_eq!(sv.index(i).to_micros(), expect[i] * 1_000_000);
    }

    // An unsorted index list is rejected.
    assert!(VectorWrapper::sparse_from(5, vec![3, 1], scalars(&[10, 20])).is_none());
    // An index at or past the dimension is rejected.
    assert!(VectorWrapper::sparse_from(5, vec![1, 5], scalars(&[10, 20])).is_none());
    // Mismatched list lengths are rejected.
    assert!(VectorWrapper::sparse_from(5, vec![1], scalars(&[10, 20])).is_none());
    // A duplicated index is rejected.
    assert!(VectorWrapper::sparse_from(5, vec![1, 1], scalars(&[10, 20])).is_none());
}

#[test]
fn sparse_matrix_construction_and_reads() {
    // Flat positions are column-major: position 3 of a 2x3 matrix is
    // row 1 of column 1.
    let sm = MatrixWrapper::sparse_from(2, 3, vec![0, 3], scalars(&[7, 8])).unwrap();
    assert_eq!(sm.at(0, 0).to_micros(), 7_000_000);
    assert_eq!(sm.at(1, 1).to_micros(), 8_000_000);
    assert_eq!(sm.at(0, 1).to_micros(), 0);
    assert_eq!(sm.at(1, 2).to_micros(), 0);
    assert!(MatrixWrapper::sparse_from(2, 3, vec![6], scalars(&[7])).is_none());
    assert!(MatrixWrapper::sparse_from(2, 3, vec![3, 0], scalars(&[7, 8])).is_none());
}

#[test]
fn representation_transparency() {
    // A diagonal matrix and the dense matrix with the same entries
    // denote the same value: every read and every operation against a
    // third tensor must produce numerically identical results.
    let diag = MatrixWrapper::diag(&dvec(&[1, 2, 3]));
    let dense = dmat_cols(3, &[&[1, 0, 0], &[0, 2, 0], &[0, 0, 3]]);
    for i in 0..3 {
        for j in 0..3 {
            assert_eq!(diag.at(i, j).to_micros(), dense.at(i, j).to_micros());
        }
    }
    let third = dmat_cols(3, &[&[1, 2, 3], &[4, 5, 6], &[7, 8, 9]]);
    let p1 = diag.mul(&third);
    let p2 = dense.mul(&third);
    for i in 0..3 {
        for j in 0..3 {
            assert_eq!(p1.at(i, j).to_micros(), p2.at(i, j).to_micros());
        }
    }
    let s1 = diag.add(&third);
    let s2 = dense.add(&third);
    for i in 0..3 {
        for j in 0..3 {
            assert_eq!(s1.at(i, j).to_micros(), s2.at(i, j).to_micros());
        }
    }
    let v = dvec(&[2, 4, 6]);
    let mv1 = diag.mul_vec(&v);
    let mv2 = dense.mul_vec(&v);
    for i in 0..3 {
        assert_eq!(mv1.index(i).to_micros(), mv2.index(i).to_micros());
    }

    // The same holds of vectors: a one-hot vector against its dense
    // expansion.
    let oh = VectorWrapper::onehot(3, 1);
    let ohd = dvec(&[0, 1, 0]);
    for i in 0..3 {
        assert_eq!(oh.index(i).to_micros(), ohd.index(i).to_micros());
    }
    assert_eq!(
        oh.dot(&dvec(&[5, 6, 7])).to_micros(),
        ohd.dot(&dvec(&[5, 6, 7])).to_micros()
    );
}

#[test]
fn vector_ops_exact_values() {
    let a = dvec(&[1, 2, 3]);
    let b = dvec(&[4, 5, 6]);
    assert_eq!(a.dot(&b).to_micros(), 32_000_000);
    assert_eq!(a.sum().to_micros(), 6_000_000);
    assert_eq!(a.sum_of_squares().to_micros(), 14_000_000);
    let e = a.extend(Scalar::from_int(9));
    assert_eq!(e.len(), 4);
    assert_eq!(e.index(3).to_micros(), 9_000_000);
    let oh = VectorWrapper::onehot(2, 0);
    let ohe = oh.extend(Scalar::from_int(7));
    assert!(matches!(ohe, VectorWrapper::Sparse(_)));
    assert_eq!(ohe.index(0).to_micros(), 1_000_000);
    assert_eq!(ohe.index(1).to_micros(), 0);
    assert_eq!(ohe.index(2).to_micros(), 7_000_000);
}

#[test]
fn equality_requires_same_variant() {
    // Equality is defined only within one storage variant: a constant
    // matrix and its dense expansion hold the same value but do not
    // compare equal.
    let c = MatrixWrapper::constant(2, 2, fi(3));
    let d = dmat_cols(2, &[&[3, 3], &[3, 3]]);
    assert!(!c.equals(&d));
    assert!(c.equals(&c));
    assert!(d.equals(&d));
    let v1 = VectorWrapper::constant(2, fi(3));
    let v2 = dvec(&[3, 3]);
    assert!(!v1.equals(&v2));
    assert!(v1.equals(&v1));

    let mut acc = VectorWrapper::zero(2);
    acc.add_assign(&v2);
    assert!(matches!(acc, VectorWrapper::Dense(_)));
    assert!(acc.equals(&v2));
}
