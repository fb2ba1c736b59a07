//! Linear algebra over fixed-point scalars.
//!
//! The mathematical model: a vector is a `Seq<int>` of micro counts, a
//! matrix is a `Seq<Seq<int>>` of rows.  This module defines the spec-level
//! operations every storage variant is measured against — element-wise
//! combination, dot products folded in index order, matrix products,
//! outer products and transposition — together with the lemmas about them
//! that the variant dispatch relies on (a zero row annihilates a dot
//! product, a one-hot row selects one term, and so on).

pub mod matrix;
pub mod vector;

pub use matrix::MatrixWrapper;
pub use vector::VectorWrapper;

use crate::scalar::{fx_add, fx_mul, fx_neg, fx_sub, RAW_LIMIT};
use vstd::prelude::*;

verus! {

/// Whether every micro count of a vector model is representable.
pub open spec fn vec_bounded(a: Seq<int>) -> bool {
    forall|i: int| 0 <= i < a.len() ==> -(RAW_LIMIT as int) <= #[trigger] a[i] <= RAW_LIMIT as int
}

/// Whether a matrix model is a proper `rows` x `cols` grid.
pub open spec fn is_grid(m: Seq<Seq<int>>, rows: int, cols: int) -> bool {
    m.len() == rows && forall|r: int| 0 <= r < rows ==> (#[trigger] m[r]).len() == cols
}

/// Whether every micro count of a matrix model is representable.
pub open spec fn grid_bounded(m: Seq<Seq<int>>) -> bool {
    forall|r: int| 0 <= r < m.len() ==> vec_bounded(#[trigger] m[r])
}

/// Element-wise saturating addition of two vector models.
pub open spec fn vadd(a: Seq<int>, b: Seq<int>) -> Seq<int> {
    Seq::new(a.len(), |i: int| fx_add(a[i], b[i]))
}

/// Element-wise saturating subtraction of two vector models.
pub open spec fn vsub(a: Seq<int>, b: Seq<int>) -> Seq<int> {
    Seq::new(a.len(), |i: int| fx_sub(a[i], b[i]))
}

/// Element-wise negation of a vector model.
pub open spec fn vneg(a: Seq<int>) -> Seq<int> {
    Seq::new(a.len(), |i: int| fx_neg(a[i]))
}

/// Every element shifted by the scalar `c`.
pub open spec fn vadd_scalar(a: Seq<int>, c: int) -> Seq<int> {
    Seq::new(a.len(), |i: int| fx_add(a[i], c))
}

/// Every element lowered by the scalar `c`.
pub open spec fn vsub_scalar(a: Seq<int>, c: int) -> Seq<int> {
    Seq::new(a.len(), |i: int| fx_sub(a[i], c))
}

/// Every element scaled by the scalar `c`.
pub open spec fn vscale(c: int, a: Seq<int>) -> Seq<int> {
    Seq::new(a.len(), |i: int| fx_mul(c, a[i]))
}

/// The dot product of the first `n` coordinates, accumulated in index
/// order starting from zero — exactly the order the executable loops use.
pub open spec fn dot_prefix(a: Seq<int>, b: Seq<int>, n: int) -> int
    decreases n,
{
    if n <= 0 {
        0
    } else {
        fx_add(dot_prefix(a, b, n - 1), fx_mul(a[n - 1], b[n - 1]))
    }
}

/// The full dot product of two equally long vector models.
pub open spec fn sdot(a: Seq<int>, b: Seq<int>) -> int {
    dot_prefix(a, b, a.len() as int)
}

/// The sum of the first `n` elements, accumulated in index order.
pub open spec fn sum_prefix(a: Seq<int>, n: int) -> int
    decreases n,
{
    if n <= 0 {
        0
    } else {
        fx_add(sum_prefix(a, n - 1), a[n - 1])
    }
}

/// The sum of all elements of a vector model.
pub open spec fn ssum(a: Seq<int>) -> int {
    sum_prefix(a, a.len() as int)
}

/// The sum of squares of the first `n` elements, in index order.
pub open spec fn sumsq_prefix(a: Seq<int>, n: int) -> int
    decreases n,
{
    if n <= 0 {
        0
    } else {
        fx_add(sumsq_prefix(a, n - 1), fx_mul(a[n - 1], a[n - 1]))
    }
}

/// The sum of squares of all elements (the squared 2-norm).
pub open spec fn ssumsq(a: Seq<int>) -> int {
    sumsq_prefix(a, a.len() as int)
}

/// Column `c` of a matrix model, read top to bottom.
pub open spec fn grid_col(m: Seq<Seq<int>>, c: int) -> Seq<int> {
    Seq::new(m.len(), |r: int| m[r][c])
}

/// Element-wise saturating addition of two matrix models.
pub open spec fn madd(a: Seq<Seq<int>>, b: Seq<Seq<int>>) -> Seq<Seq<int>> {
    Seq::new(a.len(), |r: int| Seq::new(a[r].len(), |c: int| fx_add(a[r][c], b[r][c])))
}

/// Element-wise saturating subtraction of two matrix models.
pub open spec fn msub(a: Seq<Seq<int>>, b: Seq<Seq<int>>) -> Seq<Seq<int>> {
    Seq::new(a.len(), |r: int| Seq::new(a[r].len(), |c: int| fx_sub(a[r][c], b[r][c])))
}

/// Element-wise negation of a matrix model.
pub open spec fn mneg(a: Seq<Seq<int>>) -> Seq<Seq<int>> {
    Seq::new(a.len(), |r: int| Seq::new(a[r].len(), |c: int| fx_neg(a[r][c])))
}

/// Every entry shifted by the scalar `c`.
pub open spec fn madd_scalar(a: Seq<Seq<int>>, c: int) -> Seq<Seq<int>> {
    Seq::new(a.len(), |r: int| Seq::new(a[r].len(), |j: int| fx_add(a[r][j], c)))
}

/// Every entry lowered by the scalar `c`.
pub open spec fn msub_scalar(a: Seq<Seq<int>>, c: int) -> Seq<Seq<int>> {
    Seq::new(a.len(), |r: int| Seq::new(a[r].len(), |j: int| fx_sub(a[r][j], c)))
}

/// Every entry scaled by the scalar `c`.
pub open spec fn mscale(c: int, a: Seq<Seq<int>>) -> Seq<Seq<int>> {
    Seq::new(a.len(), |r: int| Seq::new(a[r].len(), |j: int| fx_mul(c, a[r][j])))
}

/// The matrix product of `a` with `b`, whose column count is `b_cols`:
/// entry `(r, c)` is the dot product of row `r` of `a` with column `c`
/// of `b`, folded in index order.
pub open spec fn mat_mul(a: Seq<Seq<int>>, b: Seq<Seq<int>>, b_cols: int) -> Seq<Seq<int>> {
    Seq::new(a.len(), |r: int| Seq::new(b_cols as nat, |c: int| sdot(a[r], grid_col(b, c))))
}

/// The matrix-vector product: entry `r` is the dot product of row `r`
/// with the vector.
pub open spec fn mat_vec_mul(m: Seq<Seq<int>>, v: Seq<int>) -> Seq<int> {
    Seq::new(m.len(), |r: int| sdot(m[r], v))
}

/// The outer product of two vector models: entry `(r, c)` is `u[r] * v[c]`.
pub open spec fn outer_product(u: Seq<int>, v: Seq<int>) -> Seq<Seq<int>> {
    Seq::new(u.len(), |r: int| Seq::new(v.len(), |c: int| fx_mul(u[r], v[c])))
}

/// The transposed model of a matrix with `cols` columns.
pub open spec fn transpose_view(m: Seq<Seq<int>>, cols: int) -> Seq<Seq<int>> {
    Seq::new(cols as nat, |r: int| Seq::new(m.len(), |c: int| m[c][r]))
}

/// A dot-product fold whose left entries are all zero stays zero.
pub proof fn lemma_dot_prefix_zero_left(a: Seq<int>, b: Seq<int>, n: int)
    requires
        forall|k: int| 0 <= k < n ==> #[trigger] a[k] == 0,
    ensures
        dot_prefix(a, b, n) == 0,
    decreases n,
{
    if n > 0 {
        lemma_dot_prefix_zero_left(a, b, n - 1);
    }
}

/// A dot-product fold whose right entries are all zero stays zero.
pub proof fn lemma_dot_prefix_zero_right(a: Seq<int>, b: Seq<int>, n: int)
    requires
        forall|k: int| 0 <= k < n ==> #[trigger] b[k] == 0,
    ensures
        dot_prefix(a, b, n) == 0,
    decreases n,
{
    if n > 0 {
        lemma_dot_prefix_zero_right(a, b, n - 1);
    }
}

/// A dot product against a row that is zero everywhere except position
/// `p` reduces to the single product at `p`.
pub proof fn lemma_dot_prefix_onehot_left(a: Seq<int>, b: Seq<int>, n: int, p: int)
    requires
        0 <= p < n,
        forall|k: int| 0 <= k < n && k != p ==> #[trigger] a[k] == 0,
    ensures
        dot_prefix(a, b, n) == fx_mul(a[p], b[p]),
    decreases n,
{
    if n - 1 == p {
        lemma_dot_prefix_zero_left(a, b, n - 1);
    } else {
        lemma_dot_prefix_onehot_left(a, b, n - 1, p);
    }
}

/// Multiplying by one logical unit gives the other factor back.
pub proof fn lemma_fx_mul_one(x: int)
    requires
        -(RAW_LIMIT as int) <= x <= RAW_LIMIT as int,
    ensures
        fx_mul(crate::scalar::SCALE as int, x) == x,
{
    let s = crate::scalar::SCALE as int;
    assert(s * x == x * s) by (nonlinear_arith);
    if x >= 0 {
        assert((x * s) / s == x) by (nonlinear_arith)
            requires
                s > 0,
                x >= 0,
        ;
    } else {
        assert((-(x * s)) == (-x) * s) by (nonlinear_arith);
        assert(((-x) * s) / s == -x) by (nonlinear_arith)
            requires
                s > 0,
                -x >= 0,
        ;
    }
}

/// Fixed-point multiplication is symmetric in its factors.
pub proof fn lemma_fx_mul_comm(a: int, b: int)
    ensures
        fx_mul(a, b) == fx_mul(b, a),
{
    assert(a * b == b * a) by (nonlinear_arith);
}

/// Multiplying by one logical unit on the right gives the other factor back.
pub proof fn lemma_fx_mul_one_right(x: int)
    requires
        -(RAW_LIMIT as int) <= x <= RAW_LIMIT as int,
    ensures
        fx_mul(x, crate::scalar::SCALE as int) == x,
{
    lemma_fx_mul_comm(x, crate::scalar::SCALE as int);
    lemma_fx_mul_one(x);
}

/// Multiplying by zero gives zero.
pub proof fn lemma_fx_mul_zero(x: int)
    ensures
        fx_mul(0, x) == 0,
        fx_mul(x, 0) == 0,
{
    assert(0 * x == 0) by (nonlinear_arith);
    assert(x * 0 == 0) by (nonlinear_arith);
}

/// A dot product against a column that is zero everywhere except
/// position `p` reduces to the single product at `p`.
pub proof fn lemma_dot_prefix_onehot_right(a: Seq<int>, b: Seq<int>, n: int, p: int)
    requires
        0 <= p < n,
        forall|k: int| 0 <= k < n && k != p ==> #[trigger] b[k] == 0,
    ensures
        dot_prefix(a, b, n) == fx_mul(a[p], b[p]),
    decreases n,
{
    if n - 1 == p {
        lemma_dot_prefix_zero_right(a, b, n - 1);
    } else {
        lemma_dot_prefix_onehot_right(a, b, n - 1, p);
        assert(fx_mul(a[n - 1], b[n - 1]) == 0) by {
            assert(a[n - 1] * 0 == 0) by (nonlinear_arith);
        }
    }
}

/// Dot-product folds agree on prefixes that agree pointwise.
pub proof fn lemma_dot_prefix_congruence(a1: Seq<int>, b1: Seq<int>, a2: Seq<int>, b2: Seq<int>, n: int)
    requires
        forall|k: int| 0 <= k < n ==> #[trigger] a1[k] == a2[k],
        forall|k: int| 0 <= k < n ==> #[trigger] b1[k] == b2[k],
    ensures
        dot_prefix(a1, b1, n) == dot_prefix(a2, b2, n),
    decreases n,
{
    if n > 0 {
        lemma_dot_prefix_congruence(a1, b1, a2, b2, n - 1);
    }
}

/// A row of the identity model dotted with any bounded column selects
/// the matching coordinate of the column.
pub proof fn lemma_dot_identity_row(row: Seq<int>, b: Seq<int>, n: int, p: int)
    requires
        0 <= p < n,
        row[p] == crate::scalar::SCALE as int,
        forall|k: int| 0 <= k < n && k != p ==> #[trigger] row[k] == 0,
        -(RAW_LIMIT as int) <= b[p] <= RAW_LIMIT as int,
    ensures
        dot_prefix(row, b, n) == b[p],
{
    lemma_dot_prefix_onehot_left(row, b, n, p);
    lemma_fx_mul_one(b[p]);
}

} // verus!
