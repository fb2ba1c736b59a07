//! Weight and bias initializers: all-zero tensors, or tensors drawn
//! uniformly from a caller-given half-open range of micro counts.
//!
//! The default range for a fan-in of `n` is `[-1/sqrt(n), 1/sqrt(n))`,
//! computed here with a verified integer square root.  The sampling
//! itself is the library's one reliance on an outside crate.

use crate::linalg::matrix::{DenseMatrix, MatrixKind, MatrixWrapper, Order};
use crate::linalg::vector::{DenseVector, VectorKind, VectorWrapper};
use crate::scalar::{Scalar, SCALE};
use vstd::prelude::*;

verus! {

/// Relies on `rand::Rng::gen_range` over an `i64` range: it returns a
/// sample uniformly distributed in `[lo, hi)`, and panics on an empty
/// range, which the precondition rules out.  Nothing more than the
/// range can be promised of a random draw.
#[verifier::external_body]
fn sample_raw_uniform(lo: i64, hi: i64) -> (r: i64)
    requires
        lo < hi,
    ensures
        lo <= r < hi,
{
    rand::Rng::gen_range(&mut rand::thread_rng(), lo..hi)
}

/// The integer square root: the unique `r` with `r*r <= x < (r+1)*(r+1)`.
pub fn isqrt(x: u64) -> (r: u64)
    ensures
        r * r <= x,
        x < (r + 1) * (r + 1),
{
    let mut lo: u64 = 0;
    let mut hi: u64 = 4_294_967_296;
    while lo + 1 < hi
        invariant
            lo < hi <= 4_294_967_296,
            (lo as int) * (lo as int) <= x as int,
            (x as int) < (hi as int) * (hi as int),
        decreases hi - lo,
    {
        let mid = lo + (hi - lo) / 2;
        proof {
            assert((mid as int) * (mid as int) < 18446744073709551616) by (nonlinear_arith)
                requires
                    0 <= (mid as int) < 4_294_967_296,
            ;
        }
        if mid * mid <= x {
            lo = mid;
        } else {
            hi = mid;
        }
    }
    proof {
        assert((x as int) < ((lo + 1) as int) * ((lo + 1) as int));
    }
    lo
}

/// A bias-vector initializer: zeros, or independent uniform draws from
/// `[lo, hi)` micros.
pub enum Biases {
    Zeros { dim: usize },
    UniformlyRandom { dim: usize, lo: Scalar, hi: Scalar },
}

/// A weight-matrix initializer: zeros, or independent uniform draws
/// from `[lo, hi)` micros, for an `out`-by-`in` weight matrix.
pub enum Weights {
    Zeros { rows: usize, cols: usize },
    UniformlyRandom { rows: usize, cols: usize, lo: Scalar, hi: Scalar },
}

/// The largest fan-in the default initializer range accepts: above it
/// `1/sqrt(n)` would round to zero micros and the range would be empty.
pub const MAX_DEFAULT_FAN_IN: u64 = 1_000_000_000_000;

impl Biases {
    /// The dimension of the vector this initializer builds.
    pub open spec fn spec_dim(self) -> int {
        match self {
            Biases::Zeros { dim } => dim as int,
            Biases::UniformlyRandom { dim, .. } => dim as int,
        }
    }

    /// Well-formedness: a random range must be representable and non-empty.
    pub open spec fn wf(self) -> bool {
        match self {
            Biases::Zeros { .. } => true,
            Biases::UniformlyRandom { lo, hi, .. } => lo.wf() && hi.wf() && lo@ < hi@,
        }
    }

    /// The all-zero initializer.
    pub fn zeros(dim: usize) -> (r: Biases)
        ensures
            r.wf(),
            r == (Biases::Zeros { dim }),
    {
        Biases::Zeros { dim }
    }

    /// Uniform draws from `[lo, hi)` micros.
    pub fn uniformly_random(dim: usize, lo: Scalar, hi: Scalar) -> (r: Biases)
        requires
            lo.wf(),
            hi.wf(),
            lo@ < hi@,
        ensures
            r.wf(),
            r == (Biases::UniformlyRandom { dim, lo, hi }),
    {
        Biases::UniformlyRandom { dim, lo, hi }
    }

    /// The default initializer for a vector of dimension `dim`: uniform
    /// draws from `[-b, b)`, where `b` is `1/sqrt(dim)` rounded down to
    /// whole micros.
    pub fn default_init(dim: usize) -> (r: Biases)
        requires
            1 <= dim as int,
            dim as u64 <= MAX_DEFAULT_FAN_IN,
        ensures
            r.wf(),
            r matches Biases::UniformlyRandom { dim: d, lo, hi } ==> d == dim && 1 <= hi@ && lo@
                == -hi@ && hi@ * hi@ <= (SCALE as int) * (SCALE as int) / (dim as int) < (hi@ + 1)
                * (hi@ + 1),
            r is UniformlyRandom,
    {
        let b = default_bound_micros(dim);
        Biases::UniformlyRandom { dim, lo: Scalar::from_micros(-b), hi: Scalar::from_micros(b) }
    }

    /// The vector this initializer describes: all zeros, or one fresh
    /// uniform draw per coordinate.  Of random draws nothing but the
    /// range can be stated; two calls may differ.
    pub fn realize(self) -> (r: VectorWrapper)
        requires
            self.wf(),
        ensures
            r.wf(),
            r@.len() == self.spec_dim(),
            self is Zeros ==> r.kind() == VectorKind::Zero && (forall|i: int|
                0 <= i < r@.len() ==> r@[i] == 0),
            self matches Biases::UniformlyRandom { lo, hi, .. } ==> r.kind() == VectorKind::Dense
                && (forall|i: int| 0 <= i < r@.len() ==> lo@ <= #[trigger] r@[i] < hi@),
    {
        match self {
            Biases::Zeros { dim } => VectorWrapper::zero(dim),
            Biases::UniformlyRandom { dim, lo, hi } => {
                let mut elems: Vec<Scalar> = Vec::new();
                for i in 0..dim
                    invariant
                        lo.wf(),
                        hi.wf(),
                        lo@ < hi@,
                        elems@.len() == i,
                        forall|j: int|
                            0 <= j < i ==> (#[trigger] elems@[j]).wf() && lo@ <= elems@[j]@ < hi@,
                {
                    let x = sample_raw_uniform(lo.to_micros(), hi.to_micros());
                    elems.push(Scalar::from_micros(x));
                }
                VectorWrapper::Dense(DenseVector { elems })
            },
        }
    }
}

/// `1/sqrt(dim)` in whole micros, rounded down: the default half-width
/// of the initializer range for a fan-in of `dim`.
fn default_bound_micros(dim: usize) -> (b: i64)
    requires
        1 <= dim as int,
        dim as u64 <= MAX_DEFAULT_FAN_IN,
    ensures
        1 <= b as int <= SCALE as int,
        (b as int) * (b as int) <= (SCALE as int) * (SCALE as int) / (dim as int) < ((b as int)
            + 1) * ((b as int) + 1),
{
    let q: u64 = (SCALE as u64 * SCALE as u64) / (dim as u64);
    let b = isqrt(q);
    proof {
        assert(1 <= q) by (nonlinear_arith)
            requires
                1 <= dim as u64 <= MAX_DEFAULT_FAN_IN,
                q == (1_000_000_000_000u64 / (dim as u64)),
        ;
        assert(b as int >= 1) by (nonlinear_arith)
            requires
                (b as int) * (b as int) <= q as int,
                (q as int) < ((b as int) + 1) * ((b as int) + 1),
                1 <= q as int,
        ;
        assert(b as int <= SCALE as int) by (nonlinear_arith)
            requires
                (b as int) * (b as int) <= q as int,
                q as int <= 1_000_000_000_000,
        ;
    }
    b as i64
}

impl Weights {
    /// The row count (fan-out) of the matrix this initializer builds.
    pub open spec fn spec_rows(self) -> int {
        match self {
            Weights::Zeros { rows, .. } => rows as int,
            Weights::UniformlyRandom { rows, .. } => rows as int,
        }
    }

    /// The column count (fan-in) of the matrix this initializer builds.
    pub open spec fn spec_cols(self) -> int {
        match self {
            Weights::Zeros { cols, .. } => cols as int,
            Weights::UniformlyRandom { cols, .. } => cols as int,
        }
    }

    /// Well-formedness: the matrix must be allocatable and a random
    /// range representable and non-empty.
    pub open spec fn wf(self) -> bool {
        self.spec_rows() * self.spec_cols() <= usize::MAX as int && match self {
            Weights::Zeros { .. } => true,
            Weights::UniformlyRandom { lo, hi, .. } => lo.wf() && hi.wf() && lo@ < hi@,
        }
    }

    /// The all-zero initializer.
    pub fn zeros(rows: usize, cols: usize) -> (r: Weights)
        requires
            rows as int * cols as int <= usize::MAX as int,
        ensures
            r.wf(),
            r == (Weights::Zeros { rows, cols }),
    {
        Weights::Zeros { rows, cols }
    }

    /// Uniform draws from `[lo, hi)` micros.
    pub fn uniformly_random(rows: usize, cols: usize, lo: Scalar, hi: Scalar) -> (r: Weights)
        requires
            rows as int * cols as int <= usize::MAX as int,
            lo.wf(),
            hi.wf(),
            lo@ < hi@,
        ensures
            r.wf(),
            r == (Weights::UniformlyRandom { rows, cols, lo, hi }),
    {
        Weights::UniformlyRandom { rows, cols, lo, hi }
    }

    /// The default initializer for an `rows`-by-`cols` weight matrix:
    /// uniform draws from `[-b, b)`, where `b` is `1/sqrt(cols)` (the
    /// fan-in) rounded down to whole micros.
    pub fn default_init(rows: usize, cols: usize) -> (r: Weights)
        requires
            rows as int * cols as int <= usize::MAX as int,
            1 <= cols as int,
            cols as u64 <= MAX_DEFAULT_FAN_IN,
        ensures
            r.wf(),
            r matches Weights::UniformlyRandom { rows: rr, cols: cc, lo, hi } ==> rr == rows && cc
                == cols && 1 <= hi@ && lo@ == -hi@ && hi@ * hi@ <= (SCALE as int) * (SCALE as int)
                / (cols as int) < (hi@ + 1) * (hi@ + 1),
            r is UniformlyRandom,
    {
        let b = default_bound_micros(cols);
        Weights::UniformlyRandom {
            rows,
            cols,
            lo: Scalar::from_micros(-b),
            hi: Scalar::from_micros(b),
        }
    }

    /// The matrix this initializer describes: all zeros, or one fresh
    /// uniform draw per entry.  Of random draws nothing but the range
    /// can be stated; two calls may differ.
    pub fn realize(self) -> (r: MatrixWrapper)
        requires
            self.wf(),
        ensures
            r.wf(),
            r.spec_rows() == self.spec_rows(),
            r.spec_cols() == self.spec_cols(),
            self is Zeros ==> r.kind() == MatrixKind::Zero && (forall|i: int, j: int|
                0 <= i < r.spec_rows() && 0 <= j < r.spec_cols() ==> #[trigger] r@[i][j] == 0),
            self matches Weights::UniformlyRandom { lo, hi, .. } ==> r.kind() == MatrixKind::Dense
                && (forall|i: int, j: int|
                0 <= i < r.spec_rows() && 0 <= j < r.spec_cols() ==> lo@ <= #[trigger] r@[i][j]
                    < hi@),
    {
        match self {
            Weights::Zeros { rows, cols } => MatrixWrapper::zero(rows, cols),
            Weights::UniformlyRandom { rows, cols, lo, hi } => {
                let total: usize = rows * cols;
                let mut elems: Vec<Scalar> = Vec::new();
                for k in 0..total
                    invariant
                        lo.wf(),
                        hi.wf(),
                        lo@ < hi@,
                        elems@.len() == k,
                        forall|j: int|
                            0 <= j < k ==> (#[trigger] elems@[j]).wf() && lo@ <= elems@[j]@ < hi@,
                {
                    let x = sample_raw_uniform(lo.to_micros(), hi.to_micros());
                    elems.push(Scalar::from_micros(x));
                }
                let r = MatrixWrapper::Dense(
                    DenseMatrix { rows, cols, elems, order: Order::Columns },
                );
                proof {
                    assert forall|i: int, j: int|
                        0 <= i < r.spec_rows() && 0 <= j < r.spec_cols() implies lo@
                        <= #[trigger] r@[i][j] < hi@ by {
                        crate::linalg::matrix::lemma_flat_index_bounds(
                            Order::Columns,
                            rows as int,
                            cols as int,
                            i,
                            j,
                        );
                    }
                }
                r
            },
        }
    }
}

} // verus!
