//! The matrix side of the tensor engine: one logical matrix type,
//! [`MatrixWrapper`], behind which six storage variants stand.
//!
//! The mathematical model of a matrix is a `Seq<Seq<int>>` of rows of
//! micro counts.  Dense and sparse storage carry an element order, so
//! transposition relabels the storage instead of moving it; diagonal,
//! identity, constant and zero storage keep only what the variant needs.
//! Binary operations dispatch on the pair of variants and pick a compact
//! result representation where one exists, falling back to dense storage
//! everywhere else.

use crate::linalg::vector::{
    copy_indices, copy_scalars, scalars_view, scalars_wf, sparse_at, sparse_indices_wf,
    DenseVector, VectorKind, VectorWrapper,
};
use crate::linalg::{
    grid_bounded, grid_col, is_grid, madd, madd_scalar, mat_mul, mat_vec_mul, mneg, mscale, msub,
    msub_scalar, outer_product, sdot, transpose_view, vec_bounded,
};
use crate::scalar::{fx_add, fx_mul, fx_neg, fx_sub, Scalar, RAW_LIMIT, SCALE};
use vstd::prelude::*;

verus! {

/// The order in which dense or sparse storage lays out its elements:
/// column by column, or row by row after a transposition.
#[derive(Clone, Copy, Debug, PartialEq, Eq, Structural)]
pub enum Order {
    Columns,
    Rows,
}

/// The position of entry `(r, c)` of a `rows` x `cols` matrix inside a
/// flat buffer laid out in the given order.
pub open spec fn flat_index(order: Order, rows: int, cols: int, r: int, c: int) -> int {
    match order {
        Order::Columns => c * rows + r,
        Order::Rows => r * cols + c,
    }
}

/// A flat position stays inside the buffer.
pub proof fn lemma_flat_index_bounds(order: Order, rows: int, cols: int, r: int, c: int)
    requires
        0 <= r < rows,
        0 <= c < cols,
    ensures
        0 <= flat_index(order, rows, cols, r, c) < rows * cols,
{
    match order {
        Order::Columns => {
            assert(0 <= c * rows + r < rows * cols) by (nonlinear_arith)
                requires
                    0 <= r < rows,
                    0 <= c < cols,
            ;
        },
        Order::Rows => {
            assert(0 <= r * cols + c < rows * cols) by (nonlinear_arith)
                requires
                    0 <= r < rows,
                    0 <= c < cols,
            ;
        },
    }
}

/// Constant storage: every entry equals one scalar.
#[derive(Clone, Debug)]
pub struct ConstantMatrix {
    pub rows: usize,
    pub cols: usize,
    pub value: Scalar,
}

/// Dense storage: a flat buffer of `rows * cols` scalars in the given order.
#[derive(Clone, Debug)]
pub struct DenseMatrix {
    pub rows: usize,
    pub cols: usize,
    pub elems: Vec<Scalar>,
    pub order: Order,
}

/// Diagonal storage: only the main diagonal of a square matrix;
/// off-diagonal entries are defined to be zero.
#[derive(Clone, Debug)]
pub struct DiagonalMatrix {
    pub diag: DenseVector,
}

/// Identity storage: two sentinel scalars answer every lookup of a
/// square identity matrix.
#[derive(Clone, Debug)]
pub struct IdentityMatrix {
    pub dim: usize,
    pub zero: Scalar,
    pub one: Scalar,
}

/// Sparse storage: strictly increasing flat positions (in the given
/// order) with their values; unlisted entries read as the zero sentinel.
#[derive(Clone, Debug)]
pub struct SparseMatrix {
    pub rows: usize,
    pub cols: usize,
    pub indices: Vec<usize>,
    pub values: Vec<Scalar>,
    pub order: Order,
    pub zero: Scalar,
}

/// Zero storage: the all-zero matrix in constant space.
#[derive(Clone, Debug)]
pub struct ZeroMatrix {
    pub rows: usize,
    pub cols: usize,
    pub zero: Scalar,
}

/// One logical matrix value, in one of six interchangeable representations.
#[derive(Clone, Debug)]
pub enum MatrixWrapper {
    Constant(ConstantMatrix),
    Dense(DenseMatrix),
    Diagonal(DiagonalMatrix),
    Identity(IdentityMatrix),
    Sparse(SparseMatrix),
    Zero(ZeroMatrix),
}

/// The storage variant a matrix value currently uses.
#[derive(Clone, Copy, Debug, PartialEq, Eq, Structural)]
pub enum MatrixKind {
    Constant,
    Dense,
    Diagonal,
    Identity,
    Sparse,
    Zero,
}

impl View for MatrixWrapper {
    type V = Seq<Seq<int>>;

    /// The mathematical model: rows of micro counts.
    open spec fn view(&self) -> Seq<Seq<int>> {
        match self {
            MatrixWrapper::Constant(m) => Seq::new(
                m.rows as nat,
                |r: int| Seq::new(m.cols as nat, |c: int| m.value@),
            ),
            MatrixWrapper::Dense(m) => Seq::new(
                m.rows as nat,
                |r: int|
                    Seq::new(
                        m.cols as nat,
                        |c: int|
                            scalars_view(m.elems@)[flat_index(
                                m.order,
                                m.rows as int,
                                m.cols as int,
                                r,
                                c,
                            )],
                    ),
            ),
            MatrixWrapper::Diagonal(m) => Seq::new(
                m.diag.view_spec().len(),
                |r: int|
                    Seq::new(
                        m.diag.view_spec().len(),
                        |c: int| if r == c {
                            m.diag.view_spec()[r]
                        } else {
                            0
                        },
                    ),
            ),
            MatrixWrapper::Identity(m) => Seq::new(
                m.dim as nat,
                |r: int| Seq::new(m.dim as nat, |c: int| if r == c {
                    SCALE as int
                } else {
                    0
                }),
            ),
            MatrixWrapper::Sparse(m) => Seq::new(
                m.rows as nat,
                |r: int|
                    Seq::new(
                        m.cols as nat,
                        |c: int|
                            sparse_at(
                                m.indices@,
                                scalars_view(m.values@),
                                flat_index(m.order, m.rows as int, m.cols as int, r, c),
                            ),
                    ),
            ),
            MatrixWrapper::Zero(m) => Seq::new(
                m.rows as nat,
                |r: int| Seq::new(m.cols as nat, |c: int| 0),
            ),
        }
    }
}

impl MatrixWrapper {
    /// The storage variant in use.
    pub open spec fn kind(self) -> MatrixKind {
        match self {
            MatrixWrapper::Constant(_) => MatrixKind::Constant,
            MatrixWrapper::Dense(_) => MatrixKind::Dense,
            MatrixWrapper::Diagonal(_) => MatrixKind::Diagonal,
            MatrixWrapper::Identity(_) => MatrixKind::Identity,
            MatrixWrapper::Sparse(_) => MatrixKind::Sparse,
            MatrixWrapper::Zero(_) => MatrixKind::Zero,
        }
    }

    /// The number of rows of the logical matrix.
    pub open spec fn spec_rows(self) -> int {
        match self {
            MatrixWrapper::Constant(m) => m.rows as int,
            MatrixWrapper::Dense(m) => m.rows as int,
            MatrixWrapper::Diagonal(m) => m.diag.view_spec().len() as int,
            MatrixWrapper::Identity(m) => m.dim as int,
            MatrixWrapper::Sparse(m) => m.rows as int,
            MatrixWrapper::Zero(m) => m.rows as int,
        }
    }

    /// The number of columns of the logical matrix.
    pub open spec fn spec_cols(self) -> int {
        match self {
            MatrixWrapper::Constant(m) => m.cols as int,
            MatrixWrapper::Dense(m) => m.cols as int,
            MatrixWrapper::Diagonal(m) => m.diag.view_spec().len() as int,
            MatrixWrapper::Identity(m) => m.dim as int,
            MatrixWrapper::Sparse(m) => m.cols as int,
            MatrixWrapper::Zero(m) => m.cols as int,
        }
    }

    /// Well-formedness of the representation invariants of each variant.
    pub open spec fn wf(self) -> bool {
        self.spec_rows() * self.spec_cols() <= usize::MAX as int && match self {
            MatrixWrapper::Constant(m) => m.value.wf(),
            MatrixWrapper::Dense(m) => m.elems@.len() == m.rows as int * m.cols as int
                && scalars_wf(m.elems@),
            MatrixWrapper::Diagonal(m) => m.diag.wf(),
            MatrixWrapper::Identity(m) => m.zero@ == 0 && m.one@ == SCALE as int,
            MatrixWrapper::Sparse(m) => m.indices.len() == m.values.len() && sparse_indices_wf(
                m.indices@,
                m.rows as int * m.cols as int,
            ) && scalars_wf(m.values@) && m.zero@ == 0,
            MatrixWrapper::Zero(m) => m.zero@ == 0,
        }
    }

    /// The number of rows.
    pub fn rows(&self) -> (r: usize)
        ensures
            r as int == self.spec_rows(),
    {
        match self {
            MatrixWrapper::Constant(m) => m.rows,
            MatrixWrapper::Dense(m) => m.rows,
            MatrixWrapper::Diagonal(m) => m.diag.elems.len(),
            MatrixWrapper::Identity(m) => m.dim,
            MatrixWrapper::Sparse(m) => m.rows,
            MatrixWrapper::Zero(m) => m.rows,
        }
    }

    /// The number of columns.
    pub fn cols(&self) -> (r: usize)
        ensures
            r as int == self.spec_cols(),
    {
        match self {
            MatrixWrapper::Constant(m) => m.cols,
            MatrixWrapper::Dense(m) => m.cols,
            MatrixWrapper::Diagonal(m) => m.diag.elems.len(),
            MatrixWrapper::Identity(m) => m.dim,
            MatrixWrapper::Sparse(m) => m.cols,
            MatrixWrapper::Zero(m) => m.cols,
        }
    }

    /// Read entry `(r, c)`; every variant answers with the
    /// mathematically correct value, stored explicitly or not.
    pub fn at(&self, r: usize, c: usize) -> (x: Scalar)
        requires
            self.wf(),
            (r as int) < self.spec_rows(),
            (c as int) < self.spec_cols(),
        ensures
            x.wf(),
            x@ == self@[r as int][c as int],
    {
        match self {
            MatrixWrapper::Constant(m) => m.value,
            MatrixWrapper::Dense(m) => {
                proof {
                    lemma_flat_index_bounds(
                        m.order,
                        m.rows as int,
                        m.cols as int,
                        r as int,
                        c as int,
                    );
                }
                let i: usize = match m.order {
                    Order::Columns => c * m.rows + r,
                    Order::Rows => r * m.cols + c,
                };
                m.elems[i]
            },
            MatrixWrapper::Diagonal(m) => {
                if r == c {
                    m.diag.elems[r]
                } else {
                    Scalar::zero()
                }
            },
            MatrixWrapper::Identity(m) => {
                if r == c {
                    m.one
                } else {
                    m.zero
                }
            },
            MatrixWrapper::Sparse(m) => {
                proof {
                    lemma_flat_index_bounds(
                        m.order,
                        m.rows as int,
                        m.cols as int,
                        r as int,
                        c as int,
                    );
                }
                let i: usize = match m.order {
                    Order::Columns => c * m.rows + r,
                    Order::Rows => r * m.cols + c,
                };
                crate::linalg::vector::sparse_lookup(&m.indices, &m.values, m.zero, i)
            },
            MatrixWrapper::Zero(m) => m.zero,
        }
    }

    /// An identical matrix in the same representation.
    pub fn duplicate(&self) -> (r: MatrixWrapper)
        requires
            self.wf(),
        ensures
            r.wf(),
            r@ == self@,
            r.kind() == self.kind(),
            r.spec_rows() == self.spec_rows(),
            r.spec_cols() == self.spec_cols(),
    {
        match self {
            MatrixWrapper::Constant(m) => MatrixWrapper::Constant(
                ConstantMatrix { rows: m.rows, cols: m.cols, value: m.value },
            ),
            MatrixWrapper::Dense(m) => MatrixWrapper::Dense(
                DenseMatrix {
                    rows: m.rows,
                    cols: m.cols,
                    elems: copy_scalars(&m.elems),
                    order: m.order,
                },
            ),
            MatrixWrapper::Diagonal(m) => MatrixWrapper::Diagonal(
                DiagonalMatrix { diag: DenseVector { elems: copy_scalars(&m.diag.elems) } },
            ),
            MatrixWrapper::Identity(m) => MatrixWrapper::Identity(
                IdentityMatrix { dim: m.dim, zero: m.zero, one: m.one },
            ),
            MatrixWrapper::Sparse(m) => MatrixWrapper::Sparse(
                SparseMatrix {
                    rows: m.rows,
                    cols: m.cols,
                    indices: copy_indices(&m.indices),
                    values: copy_scalars(&m.values),
                    order: m.order,
                    zero: m.zero,
                },
            ),
            MatrixWrapper::Zero(m) => MatrixWrapper::Zero(
                ZeroMatrix { rows: m.rows, cols: m.cols, zero: m.zero },
            ),
        }
    }

    /// The matrix whose every entry is `value`.
    pub fn constant(rows: usize, cols: usize, value: Scalar) -> (r: MatrixWrapper)
        requires
            value.wf(),
            rows as int * cols as int <= usize::MAX as int,
        ensures
            r.wf(),
            r.kind() == MatrixKind::Constant,
            r.spec_rows() == rows as int,
            r.spec_cols() == cols as int,
            is_grid(r@, rows as int, cols as int),
            forall|i: int, j: int| 0 <= i < rows && 0 <= j < cols ==> #[trigger] r@[i][j] == value@,
    {
        MatrixWrapper::Constant(ConstantMatrix { rows, cols, value })
    }

    /// The all-zero matrix in constant space.
    pub fn zero(rows: usize, cols: usize) -> (r: MatrixWrapper)
        requires
            rows as int * cols as int <= usize::MAX as int,
        ensures
            r.wf(),
            r.kind() == MatrixKind::Zero,
            r.spec_rows() == rows as int,
            r.spec_cols() == cols as int,
            is_grid(r@, rows as int, cols as int),
            forall|i: int, j: int| 0 <= i < rows && 0 <= j < cols ==> #[trigger] r@[i][j] == 0,
    {
        MatrixWrapper::Zero(ZeroMatrix { rows, cols, zero: Scalar::zero() })
    }

    /// The empty sparse matrix: every entry reads as zero.
    pub fn sparse(rows: usize, cols: usize) -> (r: MatrixWrapper)
        requires
            rows as int * cols as int <= usize::MAX as int,
        ensures
            r.wf(),
            r.kind() == MatrixKind::Sparse,
            r.spec_rows() == rows as int,
            r.spec_cols() == cols as int,
            is_grid(r@, rows as int, cols as int),
            forall|i: int, j: int| 0 <= i < rows && 0 <= j < cols ==> #[trigger] r@[i][j] == 0,
    {
        let r = MatrixWrapper::Sparse(
            SparseMatrix {
                rows,
                cols,
                indices: Vec::new(),
                values: Vec::new(),
                order: Order::Columns,
                zero: Scalar::zero(),
            },
        );
        proof {
            assert forall|i: int, j: int| 0 <= i < rows && 0 <= j < cols implies #[trigger] r@[i][j]
                == 0 by {
                crate::linalg::vector::lemma_sparse_at_missing(
                    Seq::<usize>::empty(),
                    Seq::<int>::empty(),
                    flat_index(Order::Columns, rows as int, cols as int, i, j),
                );
            }
        }
        r
    }

    /// A sparse matrix from a flat position/value list laid out column
    /// by column.  Succeeds exactly when the positions are strictly
    /// increasing and inside the matrix, the two lists are equally long,
    /// and every value avoids the one unrepresentable micro count.
    pub fn sparse_from(rows: usize, cols: usize, indices: Vec<usize>, values: Vec<Scalar>) -> (r:
        Option<MatrixWrapper>)
        requires
            rows as int * cols as int <= usize::MAX as int,
        ensures
            r is Some <==> (indices@.len() == values@.len() && sparse_indices_wf(
                indices@,
                rows as int * cols as int,
            ) && scalars_wf(values@)),
            r matches Some(m) ==> m.wf() && m.kind() == MatrixKind::Sparse && m.spec_rows()
                == rows as int && m.spec_cols() == cols as int && m@ == Seq::new(
                rows as nat,
                |i: int|
                    Seq::new(
                        cols as nat,
                        |j: int|
                            sparse_at(
                                indices@,
                                scalars_view(values@),
                                flat_index(Order::Columns, rows as int, cols as int, i, j),
                            ),
                    ),
            ),
    {
        let bound: usize = rows * cols;
        if indices.len() != values.len() {
            return None;
        }
        for k in 0..indices.len()
            invariant
                indices@.len() == values@.len(),
                bound as int == rows as int * cols as int,
                forall|j: int| 0 <= j < k ==> (#[trigger] indices@[j]) < bound,
                forall|j: int| 0 < j < k ==> indices@[j - 1] < #[trigger] indices@[j],
                forall|j: int| 0 <= j < k ==> (#[trigger] values@[j]).wf(),
        {
            if indices[k] >= bound {
                return None;
            }
            if k > 0 && indices[k - 1] >= indices[k] {
                return None;
            }
            if values[k].raw == i64::MIN {
                return None;
            }
        }
        proof {
            assert forall|a: int, b: int| 0 <= a < b < indices@.len() implies (
            #[trigger] indices@[a]) < (#[trigger] indices@[b]) by {
                crate::linalg::vector::lemma_adjacent_implies_sorted(indices@, a, b);
            }
        }
        Some(
            MatrixWrapper::Sparse(
                SparseMatrix {
                    rows,
                    cols,
                    indices,
                    values,
                    order: Order::Columns,
                    zero: Scalar::zero(),
                },
            ),
        )
    }

    /// A square matrix whose main diagonal is the given dense vector and
    /// whose other entries are zero.
    pub fn diagonal(v: DenseVector) -> (r: MatrixWrapper)
        requires
            v.wf(),
            v.view_spec().len() * v.view_spec().len() <= usize::MAX as int,
        ensures
            r.wf(),
            r.kind() == MatrixKind::Diagonal,
            r.spec_rows() == v.view_spec().len(),
            r.spec_cols() == v.view_spec().len(),
            forall|i: int, j: int|
                0 <= i < v.view_spec().len() && 0 <= j < v.view_spec().len()
                    ==> #[trigger] r@[i][j] == (if i == j {
                    v.view_spec()[i]
                } else {
                    0
                }),
    {
        MatrixWrapper::Diagonal(DiagonalMatrix { diag: v })
    }

    /// A square matrix whose main diagonal holds the coordinates of the
    /// given vector, whatever its storage variant.
    pub fn diag(v: &VectorWrapper) -> (r: MatrixWrapper)
        requires
            v.wf(),
            v@.len() * v@.len() <= usize::MAX as int,
        ensures
            r.wf(),
            r.kind() == MatrixKind::Diagonal,
            r.spec_rows() == v@.len(),
            r.spec_cols() == v@.len(),
            forall|i: int, j: int|
                0 <= i < v@.len() && 0 <= j < v@.len() ==> #[trigger] r@[i][j] == (if i == j {
                    v@[i]
                } else {
                    0
                }),
    {
        MatrixWrapper::Diagonal(DiagonalMatrix { diag: v.to_dense() })
    }

    /// The identity matrix, kept as two sentinel scalars.
    pub fn identity(dim: usize) -> (r: MatrixWrapper)
        requires
            dim as int * dim as int <= usize::MAX as int,
        ensures
            r.wf(),
            r.kind() == MatrixKind::Identity,
            r.spec_rows() == dim as int,
            r.spec_cols() == dim as int,
            forall|i: int, j: int|
                0 <= i < dim && 0 <= j < dim ==> #[trigger] r@[i][j] == (if i == j {
                    SCALE as int
                } else {
                    0
                }),
    {
        MatrixWrapper::Identity(IdentityMatrix { dim, zero: Scalar::zero(), one: Scalar::one() })
    }

    /// A dense matrix from a flat buffer laid out column by column.
    pub fn from_arr(rows: usize, cols: usize, elems: Vec<Scalar>) -> (r: MatrixWrapper)
        requires
            scalars_wf(elems@),
            elems@.len() == rows as int * cols as int,
        ensures
            r.wf(),
            r.kind() == MatrixKind::Dense,
            r.spec_rows() == rows as int,
            r.spec_cols() == cols as int,
            forall|i: int, j: int|
                0 <= i < rows && 0 <= j < cols ==> #[trigger] r@[i][j] == scalars_view(
                    elems@,
                )[j * rows as int + i],
    {
        let n = elems.len();
        let r = MatrixWrapper::Dense(DenseMatrix { rows, cols, elems, order: Order::Columns });
        proof {
            assert(n as int == rows as int * cols as int);
            assert forall|i: int, j: int| 0 <= i < rows && 0 <= j < cols implies #[trigger] r@[i][j]
                == scalars_view(elems@)[j * rows as int + i] by {
                lemma_flat_index_bounds(Order::Columns, rows as int, cols as int, i, j);
            }
        }
        r
    }

    /// A dense matrix from a list of columns, each of length `rows`.
    /// Succeeds exactly when every column has the stated length and the
    /// matrix is allocatable; every scalar must be well formed.
    pub fn from_cols(rows: usize, cols: &Vec<Vec<Scalar>>) -> (r: Option<MatrixWrapper>)
        ensures
            r is Some <==> ((forall|j: int|
                0 <= j < cols@.len() ==> (#[trigger] cols@[j])@.len() == rows && scalars_wf(
                    cols@[j]@,
                )) && rows as int * cols@.len() <= usize::MAX as int),
            r matches Some(m) ==> m.wf() && m.kind() == MatrixKind::Dense && m.spec_rows()
                == rows as int && m.spec_cols() == cols@.len() && (forall|i: int, j: int|
                0 <= i < rows && 0 <= j < cols@.len() ==> #[trigger] m@[i][j] == cols@[j]@[i]@),
    {
        let ncols = cols.len();
        proof {
            assert((rows as int) * (ncols as int) < 340282366920938463463374607431768211455int)
                by (nonlinear_arith)
                requires
                    0 <= rows as int <= 18446744073709551615int,
                    0 <= ncols as int <= 18446744073709551615int,
            ;
        }
        let total: u128 = (rows as u128) * (ncols as u128);
        if total > usize::MAX as u128 {
            return None;
        }
        proof {
            assert(0int * (rows as int) == 0) by (nonlinear_arith);
        }
        let mut elems: Vec<Scalar> = Vec::new();
        for c in 0..ncols
            invariant
                ncols == cols@.len(),
                rows as int * cols@.len() <= usize::MAX as int,
                forall|j: int|
                    0 <= j < c ==> (#[trigger] cols@[j])@.len() == rows && scalars_wf(cols@[j]@),
                elems@.len() == c as int * rows as int,
                forall|k: int|
                    0 <= k < elems@.len() ==> (#[trigger] elems@[k]).wf() && elems@[k] == cols@[k
                        / (rows as int)]@[k % (rows as int)],
        {
            let col = &cols[c];
            if col.len() != rows {
                return None;
            }
            for i in 0..rows
                invariant
                    ncols == cols@.len(),
                    rows as int * cols@.len() <= usize::MAX as int,
                    c < ncols,
                    cols@[c as int]@.len() == rows,
                    forall|j: int|
                        0 <= j < c ==> (#[trigger] cols@[j])@.len() == rows && scalars_wf(
                            cols@[j]@,
                        ),
                    elems@.len() == c as int * rows as int + i as int,
                    forall|k: int|
                        0 <= k < elems@.len() ==> (#[trigger] elems@[k]).wf() && elems@[k]
                            == cols@[k / (rows as int)]@[k % (rows as int)],
            {
                let x = cols[c][i];
                if x.raw == i64::MIN {
                    return None;
                }
                proof {
                    vstd::arithmetic::div_mod::lemma_fundamental_div_mod_converse(
                        c as int * rows as int + i as int,
                        rows as int,
                        c as int,
                        i as int,
                    );
                }
                elems.push(x);
            }
            proof {
                assert((c as int + 1) * rows as int == c as int * rows as int + rows as int)
                    by (nonlinear_arith);
                assert(scalars_wf(cols@[c as int]@)) by {
                    assert forall|i: int| 0 <= i < rows implies (
                    #[trigger] cols@[c as int]@[i]).wf() by {
                        let k = c as int * rows as int + i;
                        vstd::arithmetic::div_mod::lemma_fundamental_div_mod_converse(
                            k,
                            rows as int,
                            c as int,
                            i,
                        );
                        assert(elems@[k] == cols@[c as int]@[i]);
                    }
                }
            }
        }
        proof {
            assert(rows as int * cols@.len() == cols@.len() * rows as int) by (nonlinear_arith);
        }
        let r = MatrixWrapper::Dense(
            DenseMatrix { rows, cols: ncols, elems, order: Order::Columns },
        );
        proof {
            assert forall|i: int, j: int| 0 <= i < rows && 0 <= j < ncols implies #[trigger] r@[i][j]
                == cols@[j]@[i]@ by {
                lemma_flat_index_bounds(Order::Columns, rows as int, ncols as int, i, j);
                vstd::arithmetic::div_mod::lemma_fundamental_div_mod_converse(
                    j * rows as int + i,
                    rows as int,
                    j,
                    i,
                );
            }
        }
        Some(r)
    }

    /// The transposed matrix: a structural operation on every variant,
    /// which keeps the storage variant and relabels or swaps what the
    /// variant stores.
    #[allow(non_snake_case)]
    pub fn T(&self) -> (r: MatrixWrapper)
        requires
            self.wf(),
        ensures
            r.wf(),
            r@ == transpose_view(self@, self.spec_cols()),
            r.kind() == self.kind(),
            r.spec_rows() == self.spec_cols(),
            r.spec_cols() == self.spec_rows(),
    {
        let r = match self {
            MatrixWrapper::Constant(m) => MatrixWrapper::Constant(
                ConstantMatrix { rows: m.cols, cols: m.rows, value: m.value },
            ),
            MatrixWrapper::Dense(m) => {
                let order = match m.order {
                    Order::Columns => Order::Rows,
                    Order::Rows => Order::Columns,
                };
                MatrixWrapper::Dense(
                    DenseMatrix {
                        rows: m.cols,
                        cols: m.rows,
                        elems: copy_scalars(&m.elems),
                        order,
                    },
                )
            },
            MatrixWrapper::Diagonal(m) => MatrixWrapper::Diagonal(
                DiagonalMatrix { diag: DenseVector { elems: copy_scalars(&m.diag.elems) } },
            ),
            MatrixWrapper::Identity(m) => MatrixWrapper::Identity(
                IdentityMatrix { dim: m.dim, zero: m.zero, one: m.one },
            ),
            MatrixWrapper::Sparse(m) => {
                let order = match m.order {
                    Order::Columns => Order::Rows,
                    Order::Rows => Order::Columns,
                };
                MatrixWrapper::Sparse(
                    SparseMatrix {
                        rows: m.cols,
                        cols: m.rows,
                        indices: copy_indices(&m.indices),
                        values: copy_scalars(&m.values),
                        order,
                        zero: m.zero,
                    },
                )
            },
            MatrixWrapper::Zero(m) => MatrixWrapper::Zero(
                ZeroMatrix { rows: m.cols, cols: m.rows, zero: m.zero },
            ),
        };
        proof {
            assert(self.spec_rows() * self.spec_cols() == self.spec_cols() * self.spec_rows())
                by (nonlinear_arith);
            assert(r@ =~~= transpose_view(self@, self.spec_cols()));
        }
        r
    }
}

/// Transpose involution: transposing any matrix model twice gives the
/// model back.  Together with `T`'s contract — the storage variant is
/// preserved and the dimensions swap — transposing a matrix value twice
/// yields a matrix equal to the original in variant, dimensions and
/// every entry.
pub proof fn lemma_transpose_involution(m: MatrixWrapper)
    ensures
        transpose_view(transpose_view(m@, m.spec_cols()), m.spec_rows()) == m@,
{
    lemma_mat_grid(m);
    assert(transpose_view(transpose_view(m@, m.spec_cols()), m.spec_rows()) =~~= m@);
}

/// Representation transparency for matrices: two matrices that denote
/// the same logical model — whatever their storage variants — are
/// numerically indistinguishable.  Index reads agree because `at`'s
/// contract answers from the model alone; every operation agrees
/// because each operation's contract fixes the result's model as a
/// function of the operands' models, and those functions, applied to
/// equal models, give equal results, as stated here against an
/// arbitrary third operand `b`, vector `v` and scalar `c`.
pub proof fn lemma_representation_transparency(
    a1: MatrixWrapper,
    a2: MatrixWrapper,
    b: MatrixWrapper,
    v: Seq<int>,
    c: int,
    k: int,
)
    requires
        a1@ == a2@,
    ensures
        madd(a1@, b@) == madd(a2@, b@),
        madd(b@, a1@) == madd(b@, a2@),
        msub(a1@, b@) == msub(a2@, b@),
        msub(b@, a1@) == msub(b@, a2@),
        mat_mul(a1@, b@, b.spec_cols()) == mat_mul(a2@, b@, b.spec_cols()),
        mat_mul(b@, a1@, k) == mat_mul(b@, a2@, k),
        mat_vec_mul(a1@, v) == mat_vec_mul(a2@, v),
        mscale(c, a1@) == mscale(c, a2@),
        madd_scalar(a1@, c) == madd_scalar(a2@, c),
        msub_scalar(a1@, c) == msub_scalar(a2@, c),
        mneg(a1@) == mneg(a2@),
        transpose_view(a1@, k) == transpose_view(a2@, k),
{
}

/// Every matrix model is a proper grid of its declared dimensions.
pub proof fn lemma_mat_grid(m: MatrixWrapper)
    ensures
        is_grid(m@, m.spec_rows(), m.spec_cols()),
{
}

/// A well-formed matrix's model is bounded entry by entry.
pub proof fn lemma_mat_wf_bounded(m: MatrixWrapper)
    requires
        m.wf(),
    ensures
        grid_bounded(m@),
{
    match m {
        MatrixWrapper::Dense(d) => {
            assert forall|r: int| 0 <= r < m@.len() implies vec_bounded(#[trigger] m@[r]) by {
                assert forall|c: int|
                    0 <= c < m@[r].len() implies -(RAW_LIMIT as int) <= #[trigger] m@[r][c]
                    <= RAW_LIMIT as int by {
                    lemma_flat_index_bounds(d.order, d.rows as int, d.cols as int, r, c);
                }
            }
        },
        MatrixWrapper::Sparse(s) => {
            assert forall|r: int| 0 <= r < m@.len() implies vec_bounded(#[trigger] m@[r]) by {
                assert forall|c: int|
                    0 <= c < m@[r].len() implies -(RAW_LIMIT as int) <= #[trigger] m@[r][c]
                    <= RAW_LIMIT as int by {
                    crate::linalg::vector::lemma_sparse_at_bounded(
                        s.indices@,
                        s.values@,
                        flat_index(s.order, s.rows as int, s.cols as int, r, c),
                    );
                }
            }
        },
        _ => {},
    }
}

/// Build the dense element-wise combination of two matrices of equal
/// dimensions: `0` adds, `1` subtracts.
fn build_mat_binop(a: &MatrixWrapper, b: &MatrixWrapper, op: u8) -> (r: MatrixWrapper)
    requires
        a.wf(),
        b.wf(),
        a.spec_rows() == b.spec_rows(),
        a.spec_cols() == b.spec_cols(),
        op == 0 || op == 1,
    ensures
        r.wf(),
        r.kind() == MatrixKind::Dense,
        r.spec_rows() == a.spec_rows(),
        r.spec_cols() == a.spec_cols(),
        op == 0 ==> r@ == madd(a@, b@),
        op == 1 ==> r@ == msub(a@, b@),
{
    let rows = a.rows();
    let cols = a.cols();
    let mut elems: Vec<Scalar> = Vec::new();
    for c in 0..cols
        invariant
            a.wf(),
            b.wf(),
            a.spec_rows() == b.spec_rows(),
            a.spec_cols() == b.spec_cols(),
            op == 0 || op == 1,
            rows as int == a.spec_rows(),
            cols as int == a.spec_cols(),
            elems@.len() == c as int * rows as int,
            forall|k: int|
                0 <= k < elems@.len() ==> (#[trigger] elems@[k]).wf() && elems@[k]@ == (if op == 0 {
                    fx_add(a@[k % (rows as int)][k / (rows as int)], b@[k % (rows as int)][k / (
                    rows as int)])
                } else {
                    fx_sub(a@[k % (rows as int)][k / (rows as int)], b@[k % (rows as int)][k / (
                    rows as int)])
                }),
    {
        for r in 0..rows
            invariant
                a.wf(),
                b.wf(),
                a.spec_rows() == b.spec_rows(),
                a.spec_cols() == b.spec_cols(),
                op == 0 || op == 1,
                rows as int == a.spec_rows(),
                cols as int == a.spec_cols(),
                c < cols,
                elems@.len() == c as int * rows as int + r as int,
                forall|k: int|
                    0 <= k < elems@.len() ==> (#[trigger] elems@[k]).wf() && elems@[k]@ == (if op
                        == 0 {
                        fx_add(a@[k % (rows as int)][k / (rows as int)], b@[k % (rows as int)][k / (
                        rows as int)])
                    } else {
                        fx_sub(a@[k % (rows as int)][k / (rows as int)], b@[k % (rows as int)][k / (
                        rows as int)])
                    }),
        {
            let x = a.at(r, c);
            let y = b.at(r, c);
            let z = if op == 0 {
                x.add(y)
            } else {
                x.sub(y)
            };
            proof {
                vstd::arithmetic::div_mod::lemma_fundamental_div_mod_converse(
                    c as int * rows as int + r as int,
                    rows as int,
                    c as int,
                    r as int,
                );
            }
            elems.push(z);
        }
        proof {
            assert((c as int + 1) * rows as int == c as int * rows as int + rows as int)
                by (nonlinear_arith);
        }
    }
    let r = MatrixWrapper::Dense(DenseMatrix { rows, cols, elems, order: Order::Columns });
    proof {
        assert(rows as int * cols as int == cols as int * rows as int) by (nonlinear_arith);
        assert forall|i: int, j: int| 0 <= i < rows && 0 <= j < cols implies #[trigger] r@[i][j]
            == (if op == 0 {
            fx_add(a@[i][j], b@[i][j])
        } else {
            fx_sub(a@[i][j], b@[i][j])
        }) by {
            lemma_flat_index_bounds(Order::Columns, rows as int, cols as int, i, j);
            vstd::arithmetic::div_mod::lemma_fundamental_div_mod_converse(
                j * rows as int + i,
                rows as int,
                j,
                i,
            );
        }
        if op == 0 {
            assert(r@ =~~= madd(a@, b@));
        } else {
            assert(r@ =~~= msub(a@, b@));
        }
    }
    r
}

/// Build the dense image of one matrix under a scalar operation:
/// `0` adds `c` to every entry, `1` subtracts `c`, `2` scales by `c` on
/// the left, `3` negates (ignoring `c`).
fn build_mat_scalar_op(a: &MatrixWrapper, cs: Scalar, op: u8) -> (r: MatrixWrapper)
    requires
        a.wf(),
        cs.wf(),
        op == 0 || op == 1 || op == 2 || op == 3,
    ensures
        r.wf(),
        r.kind() == MatrixKind::Dense,
        r.spec_rows() == a.spec_rows(),
        r.spec_cols() == a.spec_cols(),
        op == 0 ==> r@ == madd_scalar(a@, cs@),
        op == 1 ==> r@ == msub_scalar(a@, cs@),
        op == 2 ==> r@ == mscale(cs@, a@),
        op == 3 ==> r@ == mneg(a@),
{
    let rows = a.rows();
    let cols = a.cols();
    let mut elems: Vec<Scalar> = Vec::new();
    for c in 0..cols
        invariant
            a.wf(),
            cs.wf(),
            op == 0 || op == 1 || op == 2 || op == 3,
            rows as int == a.spec_rows(),
            cols as int == a.spec_cols(),
            elems@.len() == c as int * rows as int,
            forall|k: int|
                0 <= k < elems@.len() ==> (#[trigger] elems@[k]).wf() && elems@[k]@ == (if op == 0 {
                    fx_add(a@[k % (rows as int)][k / (rows as int)], cs@)
                } else if op == 1 {
                    fx_sub(a@[k % (rows as int)][k / (rows as int)], cs@)
                } else if op == 2 {
                    fx_mul(cs@, a@[k % (rows as int)][k / (rows as int)])
                } else {
                    fx_neg(a@[k % (rows as int)][k / (rows as int)])
                }),
    {
        for r in 0..rows
            invariant
                a.wf(),
                cs.wf(),
                op == 0 || op == 1 || op == 2 || op == 3,
                rows as int == a.spec_rows(),
                cols as int == a.spec_cols(),
                c < cols,
                elems@.len() == c as int * rows as int + r as int,
                forall|k: int|
                    0 <= k < elems@.len() ==> (#[trigger] elems@[k]).wf() && elems@[k]@ == (if op
                        == 0 {
                        fx_add(a@[k % (rows as int)][k / (rows as int)], cs@)
                    } else if op == 1 {
                        fx_sub(a@[k % (rows as int)][k / (rows as int)], cs@)
                    } else if op == 2 {
                        fx_mul(cs@, a@[k % (rows as int)][k / (rows as int)])
                    } else {
                        fx_neg(a@[k % (rows as int)][k / (rows as int)])
                    }),
        {
            let x = a.at(r, c);
            let z = if op == 0 {
                x.add(cs)
            } else if op == 1 {
                x.sub(cs)
            } else if op == 2 {
                cs.mul(x)
            } else {
                x.neg()
            };
            proof {
                vstd::arithmetic::div_mod::lemma_fundamental_div_mod_converse(
                    c as int * rows as int + r as int,
                    rows as int,
                    c as int,
                    r as int,
                );
            }
            elems.push(z);
        }
        proof {
            assert((c as int + 1) * rows as int == c as int * rows as int + rows as int)
                by (nonlinear_arith);
        }
    }
    let r = MatrixWrapper::Dense(DenseMatrix { rows, cols, elems, order: Order::Columns });
    proof {
        assert(rows as int * cols as int == cols as int * rows as int) by (nonlinear_arith);
        assert forall|i: int, j: int| 0 <= i < rows && 0 <= j < cols implies #[trigger] r@[i][j]
            == (if op == 0 {
            fx_add(a@[i][j], cs@)
        } else if op == 1 {
            fx_sub(a@[i][j], cs@)
        } else if op == 2 {
            fx_mul(cs@, a@[i][j])
        } else {
            fx_neg(a@[i][j])
        }) by {
            lemma_flat_index_bounds(Order::Columns, rows as int, cols as int, i, j);
            vstd::arithmetic::div_mod::lemma_fundamental_div_mod_converse(
                j * rows as int + i,
                rows as int,
                j,
                i,
            );
        }
        if op == 0 {
            assert(r@ =~~= madd_scalar(a@, cs@));
        } else if op == 1 {
            assert(r@ =~~= msub_scalar(a@, cs@));
        } else if op == 2 {
            assert(r@ =~~= mscale(cs@, a@));
        } else {
            assert(r@ =~~= mneg(a@));
        }
    }
    r
}

/// Whether a matrix variant is diagonal-shaped: its off-diagonal
/// entries are zero by construction.
pub open spec fn diagonal_shaped(a: MatrixKind) -> bool {
    a == MatrixKind::Diagonal || a == MatrixKind::Identity
}

/// Result variant of adding two matrices: zero is the additive identity
/// and hands back the other operand's variant, two constants stay
/// constant, two diagonal-shaped operands stay diagonal, and every
/// other combination densifies.
pub open spec fn mat_add_kind(a: MatrixKind, b: MatrixKind) -> MatrixKind {
    if a == MatrixKind::Zero {
        b
    } else if b == MatrixKind::Zero {
        a
    } else if a == MatrixKind::Constant && b == MatrixKind::Constant {
        MatrixKind::Constant
    } else if diagonal_shaped(a) && diagonal_shaped(b) {
        MatrixKind::Diagonal
    } else {
        MatrixKind::Dense
    }
}

/// Result variant of negation: compact variants stay compact; the
/// identity becomes diagonal, since its stored unit is fixed.
pub open spec fn mat_neg_kind(a: MatrixKind) -> MatrixKind {
    match a {
        MatrixKind::Constant => MatrixKind::Constant,
        MatrixKind::Dense => MatrixKind::Dense,
        MatrixKind::Diagonal => MatrixKind::Diagonal,
        MatrixKind::Identity => MatrixKind::Diagonal,
        MatrixKind::Sparse => MatrixKind::Sparse,
        MatrixKind::Zero => MatrixKind::Zero,
    }
}

/// Result variant of subtraction: mirrors addition, negating where the
/// left operand is zero; the identity minus itself collapses to zero.
pub open spec fn mat_sub_kind(a: MatrixKind, b: MatrixKind) -> MatrixKind {
    if b == MatrixKind::Zero {
        a
    } else if a == MatrixKind::Zero {
        mat_neg_kind(b)
    } else if a == MatrixKind::Identity && b == MatrixKind::Identity {
        MatrixKind::Zero
    } else if a == MatrixKind::Constant && b == MatrixKind::Constant {
        MatrixKind::Constant
    } else if diagonal_shaped(a) && diagonal_shaped(b) {
        MatrixKind::Diagonal
    } else {
        MatrixKind::Dense
    }
}

/// Result variant of scaling by a scalar: the same table as negation.
pub open spec fn mat_scale_kind(a: MatrixKind) -> MatrixKind {
    mat_neg_kind(a)
}

/// Result variant of shifting every entry by a scalar: zero becomes
/// constant, constant stays constant, everything else densifies.
pub open spec fn mat_add_scalar_kind(a: MatrixKind) -> MatrixKind {
    match a {
        MatrixKind::Constant => MatrixKind::Constant,
        MatrixKind::Zero => MatrixKind::Constant,
        _ => MatrixKind::Dense,
    }
}

/// The main diagonal of a diagonal or identity matrix, densely stored.
fn diag_of(m: &MatrixWrapper) -> (r: DenseVector)
    requires
        m.wf(),
        m.kind() == MatrixKind::Diagonal || m.kind() == MatrixKind::Identity,
    ensures
        r.wf(),
        r.view_spec().len() == m.spec_rows(),
        forall|i: int| 0 <= i < m.spec_rows() ==> #[trigger] r.view_spec()[i] == m@[i][i],
{
    match m {
        MatrixWrapper::Diagonal(d) => DenseVector { elems: copy_scalars(&d.diag.elems) },
        _ => {
            let dim = m.rows();
            let mut elems: Vec<Scalar> = Vec::new();
            for i in 0..dim
                invariant
                    m.wf(),
                    m.kind() == MatrixKind::Diagonal || m.kind() == MatrixKind::Identity,
                    dim as int == m.spec_rows(),
                    elems@.len() == i,
                    forall|j: int|
                        0 <= j < i ==> (#[trigger] elems@[j]).wf() && elems@[j]@ == m@[j][j],
            {
                elems.push(m.at(i, i));
            }
            DenseVector { elems }
        },
    }
}

/// Combine two equally long dense diagonals element by element:
/// `0` adds, `1` subtracts.
fn combine_diags(da: &DenseVector, db: &DenseVector, op: u8) -> (r: DenseVector)
    requires
        da.wf(),
        db.wf(),
        da.view_spec().len() == db.view_spec().len(),
        op == 0 || op == 1,
    ensures
        r.wf(),
        r.view_spec().len() == da.view_spec().len(),
        forall|i: int|
            0 <= i < da.view_spec().len() ==> #[trigger] r.view_spec()[i] == (if op == 0 {
                fx_add(da.view_spec()[i], db.view_spec()[i])
            } else {
                fx_sub(da.view_spec()[i], db.view_spec()[i])
            }),
{
    let n = da.elems.len();
    let mut elems: Vec<Scalar> = Vec::new();
    for i in 0..n
        invariant
            da.wf(),
            db.wf(),
            da.view_spec().len() == db.view_spec().len(),
            op == 0 || op == 1,
            n == da.view_spec().len(),
            elems@.len() == i,
            forall|j: int|
                0 <= j < i ==> (#[trigger] elems@[j]).wf() && elems@[j]@ == (if op == 0 {
                    fx_add(da.view_spec()[j], db.view_spec()[j])
                } else {
                    fx_sub(da.view_spec()[j], db.view_spec()[j])
                }),
    {
        let x = da.elems[i];
        let y = db.elems[i];
        let z = if op == 0 {
            x.add(y)
        } else {
            x.sub(y)
        };
        elems.push(z);
    }
    DenseVector { elems }
}

impl MatrixWrapper {
    /// Element-wise saturating addition, dispatched on the two storage
    /// variants; see [`mat_add_kind`] for the representation of the result.
    pub fn add(&self, rhs: &MatrixWrapper) -> (r: MatrixWrapper)
        requires
            self.wf(),
            rhs.wf(),
            self.spec_rows() == rhs.spec_rows(),
            self.spec_cols() == rhs.spec_cols(),
        ensures
            r.wf(),
            r@ == madd(self@, rhs@),
            r.kind() == mat_add_kind(self.kind(), rhs.kind()),
            r.spec_rows() == self.spec_rows(),
            r.spec_cols() == self.spec_cols(),
    {
        match (self, rhs) {
            (MatrixWrapper::Zero(_), _) => {
                let r = rhs.duplicate();
                proof {
                    lemma_mat_wf_bounded(*rhs);
                    assert forall|i: int| 0 <= i < self@.len() implies #[trigger] madd(
                        self@,
                        rhs@,
                    )[i] =~= rhs@[i] by {
                        assert(vec_bounded(rhs@[i]));
                    }
                    assert(r@ =~~= madd(self@, rhs@));
                }
                r
            },
            (_, MatrixWrapper::Zero(_)) => {
                let r = self.duplicate();
                proof {
                    lemma_mat_wf_bounded(*self);
                    assert forall|i: int| 0 <= i < self@.len() implies #[trigger] madd(
                        self@,
                        rhs@,
                    )[i] =~= self@[i] by {
                        assert(vec_bounded(self@[i]));
                    }
                    assert(r@ =~~= madd(self@, rhs@));
                }
                r
            },
            (MatrixWrapper::Constant(m1), MatrixWrapper::Constant(m2)) => {
                let r = MatrixWrapper::Constant(
                    ConstantMatrix {
                        rows: m1.rows,
                        cols: m1.cols,
                        value: m1.value.add(m2.value),
                    },
                );
                proof {
                    assert(r@ =~~= madd(self@, rhs@));
                }
                r
            },
            (
                MatrixWrapper::Diagonal(_) | MatrixWrapper::Identity(_),
                MatrixWrapper::Diagonal(_) | MatrixWrapper::Identity(_),
            ) => {
                let da = diag_of(self);
                let db = diag_of(rhs);
                let r = MatrixWrapper::Diagonal(DiagonalMatrix { diag: combine_diags(&da, &db, 0) });
                proof {
                    assert(r@ =~~= madd(self@, rhs@));
                }
                r
            },
            _ => build_mat_binop(self, rhs, 0),
        }
    }

    /// Element-wise saturating subtraction; see [`mat_sub_kind`].
    pub fn sub(&self, rhs: &MatrixWrapper) -> (r: MatrixWrapper)
        requires
            self.wf(),
            rhs.wf(),
            self.spec_rows() == rhs.spec_rows(),
            self.spec_cols() == rhs.spec_cols(),
        ensures
            r.wf(),
            r@ == msub(self@, rhs@),
            r.kind() == mat_sub_kind(self.kind(), rhs.kind()),
            r.spec_rows() == self.spec_rows(),
            r.spec_cols() == self.spec_cols(),
    {
        match (self, rhs) {
            (_, MatrixWrapper::Zero(_)) => {
                let r = self.duplicate();
                proof {
                    lemma_mat_wf_bounded(*self);
                    assert forall|i: int| 0 <= i < self@.len() implies #[trigger] msub(
                        self@,
                        rhs@,
                    )[i] =~= self@[i] by {
                        assert(vec_bounded(self@[i]));
                    }
                    assert(r@ =~~= msub(self@, rhs@));
                }
                r
            },
            (MatrixWrapper::Zero(_), _) => {
                let r = rhs.neg();
                proof {
                    lemma_mat_wf_bounded(*rhs);
                    assert forall|i: int| 0 <= i < self@.len() implies #[trigger] msub(
                        self@,
                        rhs@,
                    )[i] =~= mneg(rhs@)[i] by {
                        assert(vec_bounded(rhs@[i]));
                    }
                    assert(r@ =~~= msub(self@, rhs@));
                }
                r
            },
            (MatrixWrapper::Identity(m1), MatrixWrapper::Identity(_)) => {
                let r = MatrixWrapper::Zero(
                    ZeroMatrix { rows: m1.dim, cols: m1.dim, zero: Scalar::zero() },
                );
                proof {
                    assert(r@ =~~= msub(self@, rhs@));
                }
                r
            },
            (MatrixWrapper::Constant(m1), MatrixWrapper::Constant(m2)) => {
                let r = MatrixWrapper::Constant(
                    ConstantMatrix {
                        rows: m1.rows,
                        cols: m1.cols,
                        value: m1.value.sub(m2.value),
                    },
                );
                proof {
                    assert(r@ =~~= msub(self@, rhs@));
                }
                r
            },
            (
                MatrixWrapper::Diagonal(_) | MatrixWrapper::Identity(_),
                MatrixWrapper::Diagonal(_) | MatrixWrapper::Identity(_),
            ) => {
                let da = diag_of(self);
                let db = diag_of(rhs);
                let r = MatrixWrapper::Diagonal(DiagonalMatrix { diag: combine_diags(&da, &db, 1) });
                proof {
                    assert(r@ =~~= msub(self@, rhs@));
                }
                r
            },
            _ => build_mat_binop(self, rhs, 1),
        }
    }

    /// Element-wise negation; see [`mat_neg_kind`].
    pub fn neg(&self) -> (r: MatrixWrapper)
        requires
            self.wf(),
        ensures
            r.wf(),
            r@ == mneg(self@),
            r.kind() == mat_neg_kind(self.kind()),
            r.spec_rows() == self.spec_rows(),
            r.spec_cols() == self.spec_cols(),
    {
        match self {
            MatrixWrapper::Constant(m) => {
                let r = MatrixWrapper::Constant(
                    ConstantMatrix { rows: m.rows, cols: m.cols, value: m.value.neg() },
                );
                proof {
                    assert(r@ =~~= mneg(self@));
                }
                r
            },
            MatrixWrapper::Dense(_) => build_mat_scalar_op(self, Scalar::zero(), 3),
            MatrixWrapper::Diagonal(m) => {
                let n = m.diag.elems.len();
                let mut elems: Vec<Scalar> = Vec::new();
                for i in 0..n
                    invariant
                        self.wf(),
                        self.kind() == MatrixKind::Diagonal,
                        n == self.spec_rows(),
                        elems@.len() == i,
                        forall|j: int|
                            0 <= j < i ==> (#[trigger] elems@[j]).wf() && elems@[j]@ == fx_neg(
                                self@[j][j],
                            ),
                {
                    elems.push(self.at(i, i).neg());
                }
                let r = MatrixWrapper::Diagonal(DiagonalMatrix { diag: DenseVector { elems } });
                proof {
                    assert(r@ =~~= mneg(self@));
                }
                r
            },
            MatrixWrapper::Identity(m) => {
                let n = m.dim;
                let mut elems: Vec<Scalar> = Vec::new();
                for i in 0..n
                    invariant
                        elems@.len() == i,
                        forall|j: int|
                            0 <= j < i ==> (#[trigger] elems@[j]).wf() && elems@[j]@ == -(
                            SCALE as int),
                {
                    elems.push(Scalar::from_micros(-SCALE));
                }
                let r = MatrixWrapper::Diagonal(DiagonalMatrix { diag: DenseVector { elems } });
                proof {
                    assert(r@ =~~= mneg(self@));
                }
                r
            },
            MatrixWrapper::Sparse(m) => {
                let n = m.values.len();
                let mut values: Vec<Scalar> = Vec::new();
                for k in 0..n
                    invariant
                        scalars_wf(m.values@),
                        n == m.values@.len(),
                        values@.len() == k,
                        forall|j: int|
                            0 <= j < k ==> (#[trigger] values@[j]).wf() && values@[j]@ == fx_neg(
                                m.values@[j]@,
                            ),
                {
                    values.push(m.values[k].neg());
                }
                let r = MatrixWrapper::Sparse(
                    SparseMatrix {
                        rows: m.rows,
                        cols: m.cols,
                        indices: copy_indices(&m.indices),
                        values,
                        order: m.order,
                        zero: m.zero,
                    },
                );
                proof {
                    assert forall|i: int, j: int|
                        0 <= i < self@.len() && 0 <= j < self@[i].len() implies #[trigger] r@[i][j]
                        == fx_neg(self@[i][j]) by {
                        crate::linalg::vector::lemma_sparse_at_neg(
                            m.indices@,
                            scalars_view(m.values@),
                            scalars_view(values@),
                            flat_index(m.order, m.rows as int, m.cols as int, i, j),
                        );
                    }
                    assert(r@ =~~= mneg(self@));
                }
                r
            },
            MatrixWrapper::Zero(_) => {
                let r = self.duplicate();
                proof {
                    assert(r@ =~~= mneg(self@));
                }
                r
            },
        }
    }

    /// Every entry scaled by `c` on the left; see [`mat_scale_kind`].
    pub fn scalar_mul(&self, c: Scalar) -> (r: MatrixWrapper)
        requires
            self.wf(),
            c.wf(),
        ensures
            r.wf(),
            r@ == mscale(c@, self@),
            r.kind() == mat_scale_kind(self.kind()),
            r.spec_rows() == self.spec_rows(),
            r.spec_cols() == self.spec_cols(),
    {
        match self {
            MatrixWrapper::Constant(m) => {
                let r = MatrixWrapper::Constant(
                    ConstantMatrix { rows: m.rows, cols: m.cols, value: c.mul(m.value) },
                );
                proof {
                    assert(r@ =~~= mscale(c@, self@));
                }
                r
            },
            MatrixWrapper::Dense(_) => build_mat_scalar_op(self, c, 2),
            MatrixWrapper::Diagonal(m) => {
                let n = m.diag.elems.len();
                let mut elems: Vec<Scalar> = Vec::new();
                for i in 0..n
                    invariant
                        self.wf(),
                        c.wf(),
                        self.kind() == MatrixKind::Diagonal,
                        n == self.spec_rows(),
                        elems@.len() == i,
                        forall|j: int|
                            0 <= j < i ==> (#[trigger] elems@[j]).wf() && elems@[j]@ == fx_mul(
                                c@,
                                self@[j][j],
                            ),
                {
                    elems.push(c.mul(self.at(i, i)));
                }
                let r = MatrixWrapper::Diagonal(DiagonalMatrix { diag: DenseVector { elems } });
                proof {
                    crate::linalg::lemma_fx_mul_zero(c@);
                    assert(r@ =~~= mscale(c@, self@));
                }
                r
            },
            MatrixWrapper::Identity(m) => {
                let n = m.dim;
                let mut elems: Vec<Scalar> = Vec::new();
                for i in 0..n
                    invariant
                        c.wf(),
                        elems@.len() == i,
                        forall|j: int|
                            0 <= j < i ==> (#[trigger] elems@[j]).wf() && elems@[j]@ == c@,
                {
                    elems.push(c);
                }
                let r = MatrixWrapper::Diagonal(DiagonalMatrix { diag: DenseVector { elems } });
                proof {
                    crate::linalg::lemma_fx_mul_one_right(c@);
                    crate::linalg::lemma_fx_mul_zero(c@);
                    assert(r@ =~~= mscale(c@, self@));
                }
                r
            },
            MatrixWrapper::Sparse(m) => {
                let n = m.values.len();
                let mut values: Vec<Scalar> = Vec::new();
                for k in 0..n
                    invariant
                        scalars_wf(m.values@),
                        c.wf(),
                        n == m.values@.len(),
                        values@.len() == k,
                        forall|j: int|
                            0 <= j < k ==> (#[trigger] values@[j]).wf() && values@[j]@ == fx_mul(
                                c@,
                                m.values@[j]@,
                            ),
                {
                    values.push(c.mul(m.values[k]));
                }
                let r = MatrixWrapper::Sparse(
                    SparseMatrix {
                        rows: m.rows,
                        cols: m.cols,
                        indices: copy_indices(&m.indices),
                        values,
                        order: m.order,
                        zero: m.zero,
                    },
                );
                proof {
                    assert forall|i: int, j: int|
                        0 <= i < self@.len() && 0 <= j < self@[i].len() implies #[trigger] r@[i][j]
                        == fx_mul(c@, self@[i][j]) by {
                        crate::linalg::vector::lemma_sparse_at_scale(
                            m.indices@,
                            scalars_view(m.values@),
                            scalars_view(values@),
                            c@,
                            flat_index(m.order, m.rows as int, m.cols as int, i, j),
                        );
                    }
                    assert(r@ =~~= mscale(c@, self@));
                }
                r
            },
            MatrixWrapper::Zero(_) => {
                let r = self.duplicate();
                proof {
                    crate::linalg::lemma_fx_mul_zero(c@);
                    assert(r@ =~~= mscale(c@, self@));
                }
                r
            },
        }
    }

    /// Every entry shifted by `c`; see [`mat_add_scalar_kind`].
    pub fn add_scalar(&self, c: Scalar) -> (r: MatrixWrapper)
        requires
            self.wf(),
            c.wf(),
        ensures
            r.wf(),
            r@ == madd_scalar(self@, c@),
            r.kind() == mat_add_scalar_kind(self.kind()),
            r.spec_rows() == self.spec_rows(),
            r.spec_cols() == self.spec_cols(),
    {
        match self {
            MatrixWrapper::Constant(m) => {
                let r = MatrixWrapper::Constant(
                    ConstantMatrix { rows: m.rows, cols: m.cols, value: m.value.add(c) },
                );
                proof {
                    assert(r@ =~~= madd_scalar(self@, c@));
                }
                r
            },
            MatrixWrapper::Zero(m) => {
                let r = MatrixWrapper::Constant(
                    ConstantMatrix { rows: m.rows, cols: m.cols, value: c },
                );
                proof {
                    assert(r@ =~~= madd_scalar(self@, c@));
                }
                r
            },
            _ => build_mat_scalar_op(self, c, 0),
        }
    }

    /// The dot product of row `r` of `self` with column `c` of `rhs`,
    /// folded in index order.
    fn row_dot_col(&self, rhs: &MatrixWrapper, r: usize, c: usize) -> (x: Scalar)
        requires
            self.wf(),
            rhs.wf(),
            self.spec_cols() == rhs.spec_rows(),
            (r as int) < self.spec_rows(),
            (c as int) < rhs.spec_cols(),
        ensures
            x.wf(),
            x@ == sdot(self@[r as int], grid_col(rhs@, c as int)),
    {
        let inner = self.cols();
        let mut acc = Scalar::zero();
        for k in 0..inner
            invariant
                self.wf(),
                rhs.wf(),
                self.spec_cols() == rhs.spec_rows(),
                (r as int) < self.spec_rows(),
                (c as int) < rhs.spec_cols(),
                inner as int == self.spec_cols(),
                acc.wf(),
                acc@ == crate::linalg::dot_prefix(
                    self@[r as int],
                    grid_col(rhs@, c as int),
                    k as int,
                ),
        {
            acc = acc.add(self.at(r, k).mul(rhs.at(k, c)));
        }
        acc
    }

    /// Every entry lowered by `c`; see [`mat_add_scalar_kind`].
    pub fn sub_scalar(&self, c: Scalar) -> (r: MatrixWrapper)
        requires
            self.wf(),
            c.wf(),
        ensures
            r.wf(),
            r@ == msub_scalar(self@, c@),
            r.kind() == mat_add_scalar_kind(self.kind()),
            r.spec_rows() == self.spec_rows(),
            r.spec_cols() == self.spec_cols(),
    {
        match self {
            MatrixWrapper::Constant(m) => {
                let r = MatrixWrapper::Constant(
                    ConstantMatrix { rows: m.rows, cols: m.cols, value: m.value.sub(c) },
                );
                proof {
                    assert(r@ =~~= msub_scalar(self@, c@));
                }
                r
            },
            MatrixWrapper::Zero(m) => {
                let r = MatrixWrapper::Constant(
                    ConstantMatrix { rows: m.rows, cols: m.cols, value: c.neg() },
                );
                proof {
                    assert(r@ =~~= msub_scalar(self@, c@));
                }
                r
            },
            _ => build_mat_scalar_op(self, c, 1),
        }
    }

    /// Matrix multiplication, dispatched on the two storage variants;
    /// see [`mat_mul_kind`] for the representation of the result.
    pub fn mul(&self, rhs: &MatrixWrapper) -> (r: MatrixWrapper)
        requires
            self.wf(),
            rhs.wf(),
            self.spec_cols() == rhs.spec_rows(),
            self.spec_rows() * rhs.spec_cols() <= usize::MAX as int,
        ensures
            r.wf(),
            r@ == mat_mul(self@, rhs@, rhs.spec_cols()),
            r.kind() == mat_mul_kind(self.kind(), rhs.kind()),
            r.spec_rows() == self.spec_rows(),
            r.spec_cols() == rhs.spec_cols(),
    {
        let rows = self.rows();
        let inner = self.cols();
        let cols = rhs.cols();
        match (self, rhs) {
            (MatrixWrapper::Zero(_), _) => {
                let r = MatrixWrapper::Zero(ZeroMatrix { rows, cols, zero: Scalar::zero() });
                proof {
                    assert forall|i: int, j: int|
                        0 <= i < rows && 0 <= j < cols implies sdot(self@[i], grid_col(rhs@, j))
                        == 0 by {
                        crate::linalg::lemma_dot_prefix_zero_left(
                            self@[i],
                            grid_col(rhs@, j),
                            inner as int,
                        );
                    }
                    assert(r@ =~~= mat_mul(self@, rhs@, rhs.spec_cols()));
                }
                r
            },
            (_, MatrixWrapper::Zero(_)) => {
                let r = MatrixWrapper::Zero(ZeroMatrix { rows, cols, zero: Scalar::zero() });
                proof {
                    assert forall|i: int, j: int|
                        0 <= i < rows && 0 <= j < cols implies sdot(self@[i], grid_col(rhs@, j))
                        == 0 by {
                        assert(forall|k: int|
                            0 <= k < inner as int ==> #[trigger] grid_col(rhs@, j)[k] == 0);
                        crate::linalg::lemma_dot_prefix_zero_right(
                            self@[i],
                            grid_col(rhs@, j),
                            inner as int,
                        );
                    }
                    assert(r@ =~~= mat_mul(self@, rhs@, rhs.spec_cols()));
                }
                r
            },
            (MatrixWrapper::Identity(_), _) => {
                let r = rhs.duplicate();
                proof {
                    lemma_mat_wf_bounded(*rhs);
                    assert forall|i: int, j: int|
                        0 <= i < rows && 0 <= j < cols implies sdot(self@[i], grid_col(rhs@, j))
                        == rhs@[i][j] by {
                        assert(vec_bounded(rhs@[i]));
                        assert(grid_col(rhs@, j)[i] == rhs@[i][j]);
                        crate::linalg::lemma_dot_identity_row(
                            self@[i],
                            grid_col(rhs@, j),
                            inner as int,
                            i,
                        );
                    }
                    assert(r@ =~~= mat_mul(self@, rhs@, rhs.spec_cols()));
                }
                r
            },
            (_, MatrixWrapper::Identity(_)) => {
                let r = self.duplicate();
                proof {
                    lemma_mat_wf_bounded(*self);
                    assert forall|i: int, j: int|
                        0 <= i < rows && 0 <= j < cols implies sdot(self@[i], grid_col(rhs@, j))
                        == self@[i][j] by {
                        assert(vec_bounded(self@[i]));
                        assert(forall|k: int|
                            0 <= k < inner as int && k != j ==> #[trigger] grid_col(rhs@, j)[k]
                                == 0);
                        crate::linalg::lemma_dot_prefix_onehot_right(
                            self@[i],
                            grid_col(rhs@, j),
                            inner as int,
                            j,
                        );
                        crate::linalg::lemma_fx_mul_one_right(self@[i][j]);
                    }
                    assert(r@ =~~= mat_mul(self@, rhs@, rhs.spec_cols()));
                }
                r
            },
            (MatrixWrapper::Constant(m1), MatrixWrapper::Constant(m2)) => {
                let ghost ca = Seq::new(inner as nat, |k: int| m1.value@);
                let ghost cb = Seq::new(inner as nat, |k: int| m2.value@);
                let mut acc = Scalar::zero();
                for k in 0..inner
                    invariant
                        m1.value.wf(),
                        m2.value.wf(),
                        ca == Seq::new(inner as nat, |k2: int| m1.value@),
                        cb == Seq::new(inner as nat, |k2: int| m2.value@),
                        acc.wf(),
                        acc@ == crate::linalg::dot_prefix(ca, cb, k as int),
                {
                    acc = acc.add(m1.value.mul(m2.value));
                }
                let r = MatrixWrapper::Constant(ConstantMatrix { rows, cols, value: acc });
                proof {
                    assert forall|i: int, j: int|
                        0 <= i < rows && 0 <= j < cols implies sdot(self@[i], grid_col(rhs@, j))
                        == acc@ by {
                        crate::linalg::lemma_dot_prefix_congruence(
                            self@[i],
                            grid_col(rhs@, j),
                            ca,
                            cb,
                            inner as int,
                        );
                    }
                    assert(r@ =~~= mat_mul(self@, rhs@, rhs.spec_cols()));
                }
                r
            },
            (MatrixWrapper::Diagonal(_), MatrixWrapper::Diagonal(_)) => {
                let mut elems: Vec<Scalar> = Vec::new();
                for i in 0..rows
                    invariant
                        self.wf(),
                        rhs.wf(),
                        self.kind() == MatrixKind::Diagonal,
                        rhs.kind() == MatrixKind::Diagonal,
                        self.spec_cols() == rhs.spec_rows(),
                        rows as int == self.spec_rows(),
                        rows as int == self.spec_cols(),
                        elems@.len() == i,
                        forall|j: int|
                            0 <= j < i ==> (#[trigger] elems@[j]).wf() && elems@[j]@ == fx_mul(
                                self@[j][j],
                                rhs@[j][j],
                            ),
                {
                    elems.push(self.at(i, i).mul(rhs.at(i, i)));
                }
                let r = MatrixWrapper::Diagonal(DiagonalMatrix { diag: DenseVector { elems } });
                proof {
                    assert forall|i: int, j: int|
                        0 <= i < rows && 0 <= j < cols implies sdot(self@[i], grid_col(rhs@, j))
                        == (if i == j {
                        fx_mul(self@[i][i], rhs@[i][i])
                    } else {
                        0
                    }) by {
                        assert(grid_col(rhs@, j)[i] == rhs@[i][j]);
                        crate::linalg::lemma_dot_prefix_onehot_left(
                            self@[i],
                            grid_col(rhs@, j),
                            rows as int,
                            i,
                        );
                        if i != j {
                            crate::linalg::lemma_fx_mul_zero(self@[i][i]);
                        }
                    }
                    assert(r@ =~~= mat_mul(self@, rhs@, rhs.spec_cols()));
                }
                r
            },
            _ => {
                proof {
                    assert(rows as int == self.spec_rows());
                    assert(cols as int == rhs.spec_cols());
                    assert(rows as int * cols as int <= usize::MAX as int);
                    assert(0int * (rows as int) == 0) by (nonlinear_arith);
                }
                let mut elems: Vec<Scalar> = Vec::new();
                for c in 0..cols
                    invariant
                        self.wf(),
                        rhs.wf(),
                        self.spec_cols() == rhs.spec_rows(),
                        rows as int == self.spec_rows(),
                        cols as int == rhs.spec_cols(),
                        rows as int * cols as int <= usize::MAX as int,
                        elems@.len() == c as int * rows as int,
                        forall|k: int|
                            0 <= k < elems@.len() ==> (#[trigger] elems@[k]).wf() && elems@[k]@
                                == sdot(
                                self@[k % (rows as int)],
                                grid_col(rhs@, k / (rows as int)),
                            ),
                {
                    for r in 0..rows
                        invariant
                            self.wf(),
                            rhs.wf(),
                            self.spec_cols() == rhs.spec_rows(),
                            rows as int == self.spec_rows(),
                            cols as int == rhs.spec_cols(),
                            rows as int * cols as int <= usize::MAX as int,
                            c < cols,
                            elems@.len() == c as int * rows as int + r as int,
                            forall|k: int|
                                0 <= k < elems@.len() ==> (#[trigger] elems@[k]).wf() && elems@[k]@
                                    == sdot(
                                    self@[k % (rows as int)],
                                    grid_col(rhs@, k / (rows as int)),
                                ),
                    {
                        let x = self.row_dot_col(rhs, r, c);
                        proof {
                            vstd::arithmetic::div_mod::lemma_fundamental_div_mod_converse(
                                c as int * rows as int + r as int,
                                rows as int,
                                c as int,
                                r as int,
                            );
                        }
                        elems.push(x);
                    }
                    proof {
                        assert((c as int + 1) * rows as int == c as int * rows as int
                            + rows as int) by (nonlinear_arith);
                    }
                }
                proof {
                    assert(rows as int * cols as int == cols as int * rows as int)
                        by (nonlinear_arith);
                }
                let r = MatrixWrapper::Dense(
                    DenseMatrix { rows, cols, elems, order: Order::Columns },
                );
                proof {
                    assert forall|i: int, j: int|
                        0 <= i < rows && 0 <= j < cols implies #[trigger] r@[i][j] == sdot(
                        self@[i],
                        grid_col(rhs@, j),
                    ) by {
                        lemma_flat_index_bounds(Order::Columns, rows as int, cols as int, i, j);
                        vstd::arithmetic::div_mod::lemma_fundamental_div_mod_converse(
                            j * rows as int + i,
                            rows as int,
                            j,
                            i,
                        );
                    }
                    assert(r@ =~~= mat_mul(self@, rhs@, rhs.spec_cols()));
                }
                r
            },
        }
    }

    /// The dot product of row `r` of `self` with a vector.
    fn row_dot_vec(&self, v: &VectorWrapper, r: usize) -> (x: Scalar)
        requires
            self.wf(),
            v.wf(),
            self.spec_cols() == v@.len(),
            (r as int) < self.spec_rows(),
        ensures
            x.wf(),
            x@ == sdot(self@[r as int], v@),
    {
        let inner = self.cols();
        let mut acc = Scalar::zero();
        for k in 0..inner
            invariant
                self.wf(),
                v.wf(),
                self.spec_cols() == v@.len(),
                (r as int) < self.spec_rows(),
                inner as int == self.spec_cols(),
                acc.wf(),
                acc@ == crate::linalg::dot_prefix(self@[r as int], v@, k as int),
        {
            acc = acc.add(self.at(r, k).mul(v.index(k)));
        }
        acc
    }

    /// Matrix-vector multiplication, dispatched on the two storage
    /// variants; see [`mat_vec_kind`] for the representation of the result.
    pub fn mul_vec(&self, v: &VectorWrapper) -> (r: VectorWrapper)
        requires
            self.wf(),
            v.wf(),
            self.spec_cols() == v@.len(),
        ensures
            r.wf(),
            r@ == mat_vec_mul(self@, v@),
            r.kind() == mat_vec_kind(self.kind(), v.kind()),
            r@.len() == self.spec_rows(),
    {
        let rows = self.rows();
        let inner = self.cols();
        match (self, v) {
            (MatrixWrapper::Zero(_), _) => {
                let r = VectorWrapper::zero(rows);
                proof {
                    assert forall|i: int| 0 <= i < rows implies sdot(self@[i], v@) == 0 by {
                        crate::linalg::lemma_dot_prefix_zero_left(self@[i], v@, inner as int);
                    }
                    assert(r@ =~= mat_vec_mul(self@, v@));
                }
                r
            },
            (_, VectorWrapper::Zero(_)) => {
                let r = VectorWrapper::zero(rows);
                proof {
                    assert forall|i: int| 0 <= i < rows implies sdot(self@[i], v@) == 0 by {
                        crate::linalg::lemma_dot_prefix_zero_right(self@[i], v@, inner as int);
                    }
                    assert(r@ =~= mat_vec_mul(self@, v@));
                }
                r
            },
            (MatrixWrapper::Identity(_), _) => {
                let r = v.duplicate();
                proof {
                    crate::linalg::vector::lemma_vec_wf_bounded(*v);
                    assert forall|i: int| 0 <= i < rows implies sdot(self@[i], v@) == v@[i] by {
                        crate::linalg::lemma_dot_identity_row(self@[i], v@, inner as int, i);
                    }
                    assert(r@ =~= mat_vec_mul(self@, v@));
                }
                r
            },
            (MatrixWrapper::Constant(m), _) => {
                let ghost ca = Seq::new(inner as nat, |k: int| m.value@);
                let mut acc = Scalar::zero();
                for k in 0..inner
                    invariant
                        m.value.wf(),
                        v.wf(),
                        inner as int == v@.len(),
                        ca == Seq::new(inner as nat, |k2: int| m.value@),
                        acc.wf(),
                        acc@ == crate::linalg::dot_prefix(ca, v@, k as int),
                {
                    acc = acc.add(m.value.mul(v.index(k)));
                }
                let r = VectorWrapper::constant(rows, acc);
                proof {
                    assert forall|i: int| 0 <= i < rows implies sdot(self@[i], v@) == acc@ by {
                        crate::linalg::lemma_dot_prefix_congruence(
                            self@[i],
                            v@,
                            ca,
                            v@,
                            inner as int,
                        );
                    }
                    assert(r@ =~= mat_vec_mul(self@, v@));
                }
                r
            },
            _ => {
                let mut elems: Vec<Scalar> = Vec::new();
                for i in 0..rows
                    invariant
                        self.wf(),
                        v.wf(),
                        self.spec_cols() == v@.len(),
                        rows as int == self.spec_rows(),
                        elems@.len() == i,
                        forall|j: int|
                            0 <= j < i ==> (#[trigger] elems@[j]).wf() && elems@[j]@ == sdot(
                                self@[j],
                                v@,
                            ),
                {
                    elems.push(self.row_dot_vec(v, i));
                }
                let r = VectorWrapper::Dense(DenseVector { elems });
                proof {
                    assert(r@ =~= mat_vec_mul(self@, v@));
                }
                r
            },
        }
    }

    /// Whether two matrices use the same storage variant, the same
    /// dimensions and the same logical value.
    pub fn equals(&self, other: &MatrixWrapper) -> (r: bool)
        requires
            self.wf(),
            other.wf(),
        ensures
            r == (self.kind() == other.kind() && self.spec_rows() == other.spec_rows()
                && self.spec_cols() == other.spec_cols() && self@ == other@),
    {
        let kind_same: bool = match (self, other) {
            (MatrixWrapper::Constant(_), MatrixWrapper::Constant(_)) => true,
            (MatrixWrapper::Dense(_), MatrixWrapper::Dense(_)) => true,
            (MatrixWrapper::Diagonal(_), MatrixWrapper::Diagonal(_)) => true,
            (MatrixWrapper::Identity(_), MatrixWrapper::Identity(_)) => true,
            (MatrixWrapper::Sparse(_), MatrixWrapper::Sparse(_)) => true,
            (MatrixWrapper::Zero(_), MatrixWrapper::Zero(_)) => true,
            _ => false,
        };
        if !kind_same {
            return false;
        }
        let rows = self.rows();
        let cols = self.cols();
        if rows != other.rows() || cols != other.cols() {
            return false;
        }
        for i in 0..rows
            invariant
                self.wf(),
                other.wf(),
                rows as int == self.spec_rows(),
                cols as int == self.spec_cols(),
                rows as int == other.spec_rows(),
                cols as int == other.spec_cols(),
                forall|i2: int, j2: int|
                    0 <= i2 < i && 0 <= j2 < cols ==> #[trigger] self@[i2][j2] == other@[i2][j2],
        {
            for j in 0..cols
                invariant
                    self.wf(),
                    other.wf(),
                    rows as int == self.spec_rows(),
                    cols as int == self.spec_cols(),
                    rows as int == other.spec_rows(),
                    cols as int == other.spec_cols(),
                    i < rows,
                    forall|i2: int, j2: int|
                        0 <= i2 < i && 0 <= j2 < cols ==> #[trigger] self@[i2][j2]
                            == other@[i2][j2],
                    forall|j2: int|
                        0 <= j2 < j ==> #[trigger] self@[i as int][j2] == other@[i as int][j2],
            {
                if self.at(i, j).to_micros() != other.at(i, j).to_micros() {
                    return false;
                }
            }
        }
        proof {
            assert forall|i: int| 0 <= i < rows implies #[trigger] self@[i] =~= other@[i] by {}
            assert(self@ =~~= other@);
        }
        true
    }
}

/// Result variant of matrix multiplication: zero annihilates, the
/// identity hands back the other operand's variant unchanged, two
/// constants stay constant, two diagonals stay diagonal, and every
/// other combination densifies.
pub open spec fn mat_mul_kind(a: MatrixKind, b: MatrixKind) -> MatrixKind {
    if a == MatrixKind::Zero || b == MatrixKind::Zero {
        MatrixKind::Zero
    } else if a == MatrixKind::Identity {
        b
    } else if b == MatrixKind::Identity {
        a
    } else if a == MatrixKind::Constant && b == MatrixKind::Constant {
        MatrixKind::Constant
    } else if a == MatrixKind::Diagonal && b == MatrixKind::Diagonal {
        MatrixKind::Diagonal
    } else {
        MatrixKind::Dense
    }
}

/// Result variant of matrix-vector multiplication: zero annihilates,
/// the identity hands the vector back unchanged, a constant matrix
/// yields a constant vector, and everything else densifies.
pub open spec fn mat_vec_kind(a: MatrixKind, b: VectorKind) -> VectorKind {
    if a == MatrixKind::Zero || b == VectorKind::Zero {
        VectorKind::Zero
    } else if a == MatrixKind::Identity {
        b
    } else if a == MatrixKind::Constant {
        VectorKind::Constant
    } else {
        VectorKind::Dense
    }
}

impl VectorWrapper {
    /// The outer product `self ⊗ rhs`: a dense matrix whose entry
    /// `(r, c)` is `self[r] * rhs[c]`.
    pub fn outer(&self, rhs: &VectorWrapper) -> (r: MatrixWrapper)
        requires
            self.wf(),
            rhs.wf(),
            self@.len() * rhs@.len() <= usize::MAX as int,
        ensures
            r.wf(),
            r@ == outer_product(self@, rhs@),
            r.kind() == MatrixKind::Dense,
            r.spec_rows() == self@.len(),
            r.spec_cols() == rhs@.len(),
    {
        let rows = self.len();
        let cols = rhs.len();
        let mut elems: Vec<Scalar> = Vec::new();
        for c in 0..cols
            invariant
                self.wf(),
                rhs.wf(),
                rows as int == self@.len(),
                cols as int == rhs@.len(),
                rows as int * cols as int <= usize::MAX as int,
                elems@.len() == c as int * rows as int,
                forall|k: int|
                    0 <= k < elems@.len() ==> (#[trigger] elems@[k]).wf() && elems@[k]@ == fx_mul(
                        self@[k % (rows as int)],
                        rhs@[k / (rows as int)],
                    ),
        {
            for r in 0..rows
                invariant
                    self.wf(),
                    rhs.wf(),
                    rows as int == self@.len(),
                    cols as int == rhs@.len(),
                    rows as int * cols as int <= usize::MAX as int,
                    c < cols,
                    elems@.len() == c as int * rows as int + r as int,
                    forall|k: int|
                        0 <= k < elems@.len() ==> (#[trigger] elems@[k]).wf() && elems@[k]@
                            == fx_mul(self@[k % (rows as int)], rhs@[k / (rows as int)]),
            {
                let x = self.index(r).mul(rhs.index(c));
                proof {
                    vstd::arithmetic::div_mod::lemma_fundamental_div_mod_converse(
                        c as int * rows as int + r as int,
                        rows as int,
                        c as int,
                        r as int,
                    );
                }
                elems.push(x);
            }
            proof {
                assert((c as int + 1) * rows as int == c as int * rows as int + rows as int)
                    by (nonlinear_arith);
            }
        }
        proof {
            assert(rows as int * cols as int == cols as int * rows as int) by (nonlinear_arith);
        }
        let r = MatrixWrapper::Dense(DenseMatrix { rows, cols, elems, order: Order::Columns });
        proof {
            assert forall|i: int, j: int| 0 <= i < rows && 0 <= j < cols implies #[trigger] r@[i][j]
                == fx_mul(self@[i], rhs@[j]) by {
                lemma_flat_index_bounds(Order::Columns, rows as int, cols as int, i, j);
                vstd::arithmetic::div_mod::lemma_fundamental_div_mod_converse(
                    j * rows as int + i,
                    rows as int,
                    j,
                    i,
                );
            }
            assert(r@ =~~= outer_product(self@, rhs@));
        }
        r
    }
}

} // verus!
