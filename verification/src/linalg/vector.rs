//! The vector side of the tensor engine: one logical vector type,
//! [`VectorWrapper`], behind which several storage variants stand.
//!
//! Every variant presents the same read interface and the same
//! mathematical model, a `Seq<int>` of micro counts; binary operations
//! dispatch on the pair of variants and pick a compact representation
//! that can hold the exact result, falling back to dense storage
//! everywhere else.

use crate::linalg::{
    dot_prefix, sdot, ssum, ssumsq, sum_prefix, sumsq_prefix, vadd, vadd_scalar, vec_bounded,
    vneg, vscale, vsub, vsub_scalar,
};
use crate::scalar::{fx_add, fx_mul, fx_neg, fx_sub, Scalar, RAW_LIMIT, SCALE};
use vstd::prelude::*;

verus! {

/// The micro counts held by a sequence of scalars.
pub open spec fn scalars_view(v: Seq<Scalar>) -> Seq<int> {
    v.map_values(|s: Scalar| s@)
}

/// Whether every scalar of a sequence is well formed.
pub open spec fn scalars_wf(v: Seq<Scalar>) -> bool {
    forall|i: int| 0 <= i < v.len() ==> (#[trigger] v[i]).wf()
}

/// Dense storage: one scalar per coordinate.
#[derive(Clone, Debug)]
pub struct DenseVector {
    pub elems: Vec<Scalar>,
}

/// Constant storage: every coordinate equals one scalar.
#[derive(Clone, Debug)]
pub struct ConstantVector {
    pub dim: usize,
    pub value: Scalar,
}

/// One-hot storage: a single coordinate holds one logical unit; the two
/// sentinel scalars are the answers for off-index and on-index reads.
#[derive(Clone, Debug)]
pub struct OneHotVector {
    pub dim: usize,
    pub zero: Scalar,
    pub one: Scalar,
    pub index: usize,
}

/// Sparse storage: a strictly increasing list of indices with their
/// values; every unlisted coordinate reads as the zero sentinel.
#[derive(Clone, Debug)]
pub struct SparseVector {
    pub dim: usize,
    pub indices: Vec<usize>,
    pub values: Vec<Scalar>,
    pub zero: Scalar,
}

/// Zero storage: the all-zero vector in constant space.
#[derive(Clone, Debug)]
pub struct ZeroVector {
    pub dim: usize,
    pub zero: Scalar,
}

/// The value a sparse index list holds at coordinate `i` (zero when unlisted).
pub open spec fn sparse_at(idx: Seq<usize>, vals: Seq<int>, i: int) -> int
    decreases idx.len(),
{
    if idx.len() == 0 {
        0
    } else if idx[0] as int == i {
        vals[0]
    } else {
        sparse_at(idx.drop_first(), vals.drop_first(), i)
    }
}

/// Whether a sparse index list is strictly increasing and below `dim`.
pub open spec fn sparse_indices_wf(idx: Seq<usize>, dim: int) -> bool {
    (forall|i: int| 0 <= i < idx.len() ==> (#[trigger] idx[i]) < dim) && (forall|i: int, j: int|
        0 <= i < j < idx.len() ==> (#[trigger] idx[i]) < (#[trigger] idx[j]))
}

impl DenseVector {
    /// Well-formedness: all stored scalars are representable.
    pub open spec fn wf(self) -> bool {
        scalars_wf(self.elems@)
    }

    /// The micro counts of this vector.
    pub open spec fn view_spec(self) -> Seq<int> {
        scalars_view(self.elems@)
    }

    /// The number of coordinates.
    pub fn len(&self) -> (r: usize)
        ensures
            r == self.view_spec().len(),
    {
        self.elems.len()
    }
}

/// One logical vector value, in one of five interchangeable representations.
#[derive(Clone, Debug)]
pub enum VectorWrapper {
    Constant(ConstantVector),
    Dense(DenseVector),
    OneHot(OneHotVector),
    Sparse(SparseVector),
    Zero(ZeroVector),
}

/// The storage variant a vector value currently uses.
#[derive(Clone, Copy, Debug, PartialEq, Eq, Structural)]
pub enum VectorKind {
    Constant,
    Dense,
    OneHot,
    Sparse,
    Zero,
}

impl View for VectorWrapper {
    type V = Seq<int>;

    /// The mathematical model: the micro count of every coordinate.
    open spec fn view(&self) -> Seq<int> {
        match self {
            VectorWrapper::Constant(v) => Seq::new(v.dim as nat, |i: int| v.value@),
            VectorWrapper::Dense(v) => v.view_spec(),
            VectorWrapper::OneHot(v) => Seq::new(
                v.dim as nat,
                |i: int| if i == v.index as int {
                    SCALE as int
                } else {
                    0
                },
            ),
            VectorWrapper::Sparse(v) => Seq::new(
                v.dim as nat,
                |i: int| sparse_at(v.indices@, scalars_view(v.values@), i),
            ),
            VectorWrapper::Zero(v) => Seq::new(v.dim as nat, |i: int| 0),
        }
    }
}

impl VectorWrapper {
    /// The storage variant in use.
    pub open spec fn kind(self) -> VectorKind {
        match self {
            VectorWrapper::Constant(_) => VectorKind::Constant,
            VectorWrapper::Dense(_) => VectorKind::Dense,
            VectorWrapper::OneHot(_) => VectorKind::OneHot,
            VectorWrapper::Sparse(_) => VectorKind::Sparse,
            VectorWrapper::Zero(_) => VectorKind::Zero,
        }
    }

    /// Well-formedness of the representation invariants of each variant.
    pub open spec fn wf(self) -> bool {
        match self {
            VectorWrapper::Constant(v) => v.value.wf(),
            VectorWrapper::Dense(v) => v.wf(),
            VectorWrapper::OneHot(v) => v.index < v.dim && v.zero@ == 0 && v.one@ == SCALE as int,
            VectorWrapper::Sparse(v) => v.indices.len() == v.values.len() && sparse_indices_wf(
                v.indices@,
                v.dim as int,
            ) && scalars_wf(v.values@) && v.zero@ == 0,
            VectorWrapper::Zero(v) => v.zero@ == 0,
        }
    }
}

/// The value a sparse list holds at any coordinate stays representable
/// when the stored scalars are well formed.
pub(crate) proof fn lemma_sparse_at_bounded(idx: Seq<usize>, vals: Seq<Scalar>, i: int)
    requires
        idx.len() == vals.len(),
        scalars_wf(vals),
    ensures
        -(RAW_LIMIT as int) <= sparse_at(idx, scalars_view(vals), i) <= RAW_LIMIT as int,
    decreases idx.len(),
{
    if idx.len() > 0 && idx[0] as int != i {
        assert(scalars_view(vals).drop_first() =~= scalars_view(vals.drop_first()));
        lemma_sparse_at_bounded(idx.drop_first(), vals.drop_first(), i);
    }
}

/// Skipping a prefix of non-matching indices does not change a sparse read.
proof fn lemma_sparse_at_skip(idx: Seq<usize>, vals: Seq<int>, i: int, k: int)
    requires
        idx.len() == vals.len(),
        0 <= k <= idx.len(),
        forall|j: int| 0 <= j < k ==> (#[trigger] idx[j]) as int != i,
    ensures
        sparse_at(idx, vals, i) == sparse_at(idx.skip(k), vals.skip(k), i),
    decreases k,
{
    if k > 0 {
        lemma_sparse_at_skip(idx.drop_first(), vals.drop_first(), i, k - 1);
        assert(idx.drop_first().skip(k - 1) =~= idx.skip(k));
        assert(vals.drop_first().skip(k - 1) =~= vals.skip(k));
    } else {
        assert(idx.skip(0) =~= idx);
        assert(vals.skip(0) =~= vals);
    }
}

/// A coordinate listed by no index reads as zero.
pub(crate) proof fn lemma_sparse_at_missing(idx: Seq<usize>, vals: Seq<int>, i: int)
    requires
        idx.len() == vals.len(),
        forall|j: int| 0 <= j < idx.len() ==> (#[trigger] idx[j]) as int != i,
    ensures
        sparse_at(idx, vals, i) == 0,
    decreases idx.len(),
{
    if idx.len() > 0 {
        lemma_sparse_at_missing(idx.drop_first(), vals.drop_first(), i);
    }
}

/// Mapping every stored value maps every read, provided the map sends
/// zero to zero; stated here for scaling by a fixed factor.
pub(crate) proof fn lemma_sparse_at_scale(idx: Seq<usize>, vals: Seq<int>, scaled: Seq<int>, c: int, i: int)
    requires
        idx.len() == vals.len(),
        scaled.len() == vals.len(),
        forall|j: int| 0 <= j < vals.len() ==> #[trigger] scaled[j] == fx_mul(c, vals[j]),
    ensures
        sparse_at(idx, scaled, i) == fx_mul(c, sparse_at(idx, vals, i)),
    decreases idx.len(),
{
    crate::linalg::lemma_fx_mul_zero(c);
    if idx.len() > 0 && idx[0] as int != i {
        lemma_sparse_at_scale(idx.drop_first(), vals.drop_first(), scaled.drop_first(), c, i);
    }
}

/// Negating every stored value negates every read.
pub(crate) proof fn lemma_sparse_at_neg(idx: Seq<usize>, vals: Seq<int>, negated: Seq<int>, i: int)
    requires
        idx.len() == vals.len(),
        negated.len() == vals.len(),
        forall|j: int| 0 <= j < vals.len() ==> #[trigger] negated[j] == fx_neg(vals[j]),
    ensures
        sparse_at(idx, negated, i) == fx_neg(sparse_at(idx, vals, i)),
    decreases idx.len(),
{
    if idx.len() > 0 && idx[0] as int != i {
        lemma_sparse_at_neg(idx.drop_first(), vals.drop_first(), negated.drop_first(), i);
    }
}

/// Appending an entry past every listed index leaves smaller coordinates
/// unchanged and gives the appended coordinate the appended value.
pub(crate) proof fn lemma_sparse_at_push(idx: Seq<usize>, vals: Seq<int>, d: usize, x: int, i: int)
    requires
        idx.len() == vals.len(),
        forall|j: int| 0 <= j < idx.len() ==> (#[trigger] idx[j]) < d,
    ensures
        i == d as int ==> sparse_at(idx.push(d), vals.push(x), i) == x,
        i != d as int ==> sparse_at(idx.push(d), vals.push(x), i) == sparse_at(idx, vals, i),
    decreases idx.len(),
{
    if idx.len() == 0 {
        assert(idx.push(d)[0] == d);
        if i != d as int {
            assert(idx.push(d).drop_first() =~= Seq::<usize>::empty());
            assert(vals.push(x).drop_first() =~= Seq::<int>::empty());
            assert(sparse_at(idx.push(d), vals.push(x), i) == sparse_at(
                idx.push(d).drop_first(),
                vals.push(x).drop_first(),
                i,
            ));
            assert(sparse_at(idx.push(d).drop_first(), vals.push(x).drop_first(), i) == 0);
            assert(sparse_at(idx, vals, i) == 0);
        }
    } else {
        assert(idx.push(d)[0] == idx[0]);
        if idx[0] as int != i {
            assert(idx.push(d).drop_first() =~= idx.drop_first().push(d));
            assert(vals.push(x).drop_first() =~= vals.drop_first().push(x));
            assert(forall|j: int|
                0 <= j < idx.drop_first().len() ==> (#[trigger] idx.drop_first()[j]) < d);
            lemma_sparse_at_push(idx.drop_first(), vals.drop_first(), d, x, i);
            assert(sparse_at(idx.push(d), vals.push(x), i) == sparse_at(
                idx.push(d).drop_first(),
                vals.push(x).drop_first(),
                i,
            ));
            assert(sparse_at(idx, vals, i) == sparse_at(idx.drop_first(), vals.drop_first(), i));
        } else {
            assert(vals.push(x)[0] == vals[0]);
            assert(sparse_at(idx.push(d), vals.push(x), i) == vals[0]);
            assert(sparse_at(idx, vals, i) == vals[0]);
        }
    }
}

/// A well-formed vector's model is bounded coordinate by coordinate.
pub proof fn lemma_vec_wf_bounded(v: VectorWrapper)
    requires
        v.wf(),
    ensures
        vec_bounded(v@),
{
    match v {
        VectorWrapper::Sparse(s) => {
            assert forall|i: int| 0 <= i < v@.len() implies -(RAW_LIMIT as int) <= #[trigger] v@[i]
                <= RAW_LIMIT as int by {
                lemma_sparse_at_bounded(s.indices@, s.values@, i);
            }
        },
        _ => {},
    }
}

/// Copy a buffer of scalars element by element.
pub(crate) fn copy_scalars(v: &Vec<Scalar>) -> (r: Vec<Scalar>)
    ensures
        r@ == v@,
{
    let mut out: Vec<Scalar> = Vec::new();
    for i in 0..v.len()
        invariant
            out@.len() == i,
            forall|j: int| 0 <= j < i ==> #[trigger] out@[j] == v@[j],
    {
        out.push(v[i]);
    }
    proof {
        assert(out@ =~= v@);
    }
    out
}

/// Copy a buffer of indices element by element.
pub(crate) fn copy_indices(v: &Vec<usize>) -> (r: Vec<usize>)
    ensures
        r@ == v@,
{
    let mut out: Vec<usize> = Vec::new();
    for i in 0..v.len()
        invariant
            out@.len() == i,
            forall|j: int| 0 <= j < i ==> #[trigger] out@[j] == v@[j],
    {
        out.push(v[i]);
    }
    proof {
        assert(out@ =~= v@);
    }
    out
}

/// Scan a sparse index list for coordinate `i`: the listed value where
/// one is listed, the zero sentinel otherwise.
pub(crate) fn sparse_lookup(indices: &Vec<usize>, values: &Vec<Scalar>, zero: Scalar, i: usize) -> (r:
    Scalar)
    requires
        indices@.len() == values@.len(),
        scalars_wf(values@),
        zero@ == 0,
    ensures
        r.wf(),
        r@ == sparse_at(indices@, scalars_view(values@), i as int),
{
    let ghost model = scalars_view(values@);
    let n = indices.len();
    for k in 0..n
        invariant
            n == indices@.len(),
            indices@.len() == values@.len(),
            scalars_wf(values@),
            model == scalars_view(values@),
            forall|j: int| 0 <= j < k ==> (#[trigger] indices@[j]) as int != i as int,
    {
        if indices[k] == i {
            proof {
                lemma_sparse_at_skip(indices@, model, i as int, k as int);
                assert(indices@.skip(k as int)[0] == indices@[k as int]);
                assert(model.skip(k as int)[0] == model[k as int]);
            }
            return values[k];
        }
    }
    proof {
        lemma_sparse_at_missing(indices@, model, i as int);
    }
    zero
}

impl VectorWrapper {
    /// The number of coordinates of this vector.
    pub fn len(&self) -> (r: usize)
        ensures
            r == self@.len(),
    {
        match self {
            VectorWrapper::Constant(v) => v.dim,
            VectorWrapper::Dense(v) => v.elems.len(),
            VectorWrapper::OneHot(v) => v.dim,
            VectorWrapper::Sparse(v) => v.dim,
            VectorWrapper::Zero(v) => v.dim,
        }
    }

    /// Read coordinate `i`; every variant answers with the
    /// mathematically correct value, stored explicitly or not.
    pub fn index(&self, i: usize) -> (r: Scalar)
        requires
            self.wf(),
            i < self@.len(),
        ensures
            r.wf(),
            r@ == self@[i as int],
    {
        match self {
            VectorWrapper::Constant(v) => v.value,
            VectorWrapper::Dense(v) => v.elems[i],
            VectorWrapper::OneHot(v) => {
                if i == v.index {
                    v.one
                } else {
                    v.zero
                }
            },
            VectorWrapper::Sparse(v) => sparse_lookup(&v.indices, &v.values, v.zero, i),
            VectorWrapper::Zero(v) => v.zero,
        }
    }

    /// An identical vector in the same representation.
    pub fn duplicate(&self) -> (r: VectorWrapper)
        requires
            self.wf(),
        ensures
            r.wf(),
            r@ == self@,
            r.kind() == self.kind(),
    {
        match self {
            VectorWrapper::Constant(v) => VectorWrapper::Constant(
                ConstantVector { dim: v.dim, value: v.value },
            ),
            VectorWrapper::Dense(v) => VectorWrapper::Dense(
                DenseVector { elems: copy_scalars(&v.elems) },
            ),
            VectorWrapper::OneHot(v) => VectorWrapper::OneHot(
                OneHotVector { dim: v.dim, zero: v.zero, one: v.one, index: v.index },
            ),
            VectorWrapper::Sparse(v) => VectorWrapper::Sparse(
                SparseVector {
                    dim: v.dim,
                    indices: copy_indices(&v.indices),
                    values: copy_scalars(&v.values),
                    zero: v.zero,
                },
            ),
            VectorWrapper::Zero(v) => VectorWrapper::Zero(ZeroVector { dim: v.dim, zero: v.zero }),
        }
    }

    /// A dense vector holding the given scalars.
    pub fn from_arr(elems: Vec<Scalar>) -> (r: VectorWrapper)
        requires
            scalars_wf(elems@),
        ensures
            r.wf(),
            r@ == scalars_view(elems@),
            r.kind() == VectorKind::Dense,
    {
        VectorWrapper::Dense(DenseVector { elems })
    }

    /// The vector whose every coordinate is `value`.
    pub fn constant(dim: usize, value: Scalar) -> (r: VectorWrapper)
        requires
            value.wf(),
        ensures
            r.wf(),
            r@.len() == dim,
            forall|i: int| 0 <= i < dim ==> r@[i] == value@,
            r.kind() == VectorKind::Constant,
    {
        VectorWrapper::Constant(ConstantVector { dim, value })
    }

    /// The all-zero vector in constant space.
    pub fn zero(dim: usize) -> (r: VectorWrapper)
        ensures
            r.wf(),
            r@.len() == dim,
            forall|i: int| 0 <= i < dim ==> r@[i] == 0,
            r.kind() == VectorKind::Zero,
    {
        VectorWrapper::Zero(ZeroVector { dim, zero: Scalar::zero() })
    }

    /// The vector holding one logical unit at `index` and zero elsewhere.
    pub fn onehot(dim: usize, index: usize) -> (r: VectorWrapper)
        requires
            index < dim,
        ensures
            r.wf(),
            r@.len() == dim,
            r@[index as int] == SCALE as int,
            forall|i: int| 0 <= i < dim && i != index ==> r@[i] == 0,
            r.kind() == VectorKind::OneHot,
    {
        VectorWrapper::OneHot(
            OneHotVector { dim, zero: Scalar::zero(), one: Scalar::one(), index },
        )
    }

    /// The empty sparse vector: every coordinate reads as zero.
    pub fn sparse(dim: usize) -> (r: VectorWrapper)
        ensures
            r.wf(),
            r@.len() == dim,
            forall|i: int| 0 <= i < dim ==> r@[i] == 0,
            r.kind() == VectorKind::Sparse,
    {
        let r = VectorWrapper::Sparse(
            SparseVector { dim, indices: Vec::new(), values: Vec::new(), zero: Scalar::zero() },
        );
        proof {
            assert forall|i: int| 0 <= i < dim implies r@[i] == 0 by {
                lemma_sparse_at_missing(Seq::<usize>::empty(), Seq::<int>::empty(), i);
            }
        }
        r
    }

    /// A sparse vector from an index/value list.  Succeeds exactly when
    /// the indices are strictly increasing and below `dim`, the two
    /// lists are equally long, and every value avoids the one
    /// unrepresentable micro count.
    pub fn sparse_from(dim: usize, indices: Vec<usize>, values: Vec<Scalar>) -> (r: Option<
        VectorWrapper,
    >)
        ensures
            r is Some <==> (indices@.len() == values@.len() && sparse_indices_wf(
                indices@,
                dim as int,
            ) && scalars_wf(values@)),
            r matches Some(v) ==> v.wf() && v.kind() == VectorKind::Sparse && v@ == Seq::new(
                dim as nat,
                |i: int| sparse_at(indices@, scalars_view(values@), i),
            ),
    {
        if indices.len() != values.len() {
            return None;
        }
        for k in 0..indices.len()
            invariant
                indices@.len() == values@.len(),
                forall|j: int| 0 <= j < k ==> (#[trigger] indices@[j]) < dim,
                forall|j: int| 0 < j < k ==> indices@[j - 1] < #[trigger] indices@[j],
                forall|j: int| 0 <= j < k ==> (#[trigger] values@[j]).wf(),
        {
            if indices[k] >= dim {
                return None;
            }
            if k > 0 && indices[k - 1] >= indices[k] {
                return None;
            }
            if values[k].raw == i64::MIN {
                return None;
            }
        }
        proof {
            assert forall|a: int, b: int| 0 <= a < b < indices@.len() implies (
            #[trigger] indices@[a]) < (#[trigger] indices@[b]) by {
                lemma_adjacent_implies_sorted(indices@, a, b);
            }
        }
        Some(
            VectorWrapper::Sparse(SparseVector { dim, indices, values, zero: Scalar::zero() }),
        )
    }
}

/// Result variant of adding two vectors: zero is the additive identity
/// and hands back the other operand's variant, two constants stay
/// constant, and every other combination densifies.
pub open spec fn add_kind(a: VectorKind, b: VectorKind) -> VectorKind {
    if a == VectorKind::Zero {
        b
    } else if b == VectorKind::Zero {
        a
    } else if a == VectorKind::Constant && b == VectorKind::Constant {
        VectorKind::Constant
    } else {
        VectorKind::Dense
    }
}

/// Result variant of negation: compact variants stay compact; a one-hot
/// vector becomes a one-entry sparse vector, since its stored unit is fixed.
pub open spec fn neg_kind(a: VectorKind) -> VectorKind {
    match a {
        VectorKind::Constant => VectorKind::Constant,
        VectorKind::Dense => VectorKind::Dense,
        VectorKind::OneHot => VectorKind::Sparse,
        VectorKind::Sparse => VectorKind::Sparse,
        VectorKind::Zero => VectorKind::Zero,
    }
}

/// Result variant of subtraction: mirrors addition, negating where the
/// left operand is zero.
pub open spec fn sub_kind(a: VectorKind, b: VectorKind) -> VectorKind {
    if b == VectorKind::Zero {
        a
    } else if a == VectorKind::Zero {
        neg_kind(b)
    } else if a == VectorKind::Constant && b == VectorKind::Constant {
        VectorKind::Constant
    } else {
        VectorKind::Dense
    }
}

/// Result variant of scaling by a scalar: the same table as negation.
pub open spec fn scale_kind(a: VectorKind) -> VectorKind {
    neg_kind(a)
}

/// Result variant of adding a scalar to every coordinate: zero becomes
/// constant, constant stays constant, everything else densifies.
pub open spec fn add_scalar_kind(a: VectorKind) -> VectorKind {
    match a {
        VectorKind::Constant => VectorKind::Constant,
        VectorKind::Zero => VectorKind::Constant,
        _ => VectorKind::Dense,
    }
}

/// Result variant of appending one coordinate.
pub open spec fn extend_kind(a: VectorKind) -> VectorKind {
    match a {
        VectorKind::Constant => VectorKind::Dense,
        VectorKind::Dense => VectorKind::Dense,
        VectorKind::OneHot => VectorKind::Sparse,
        VectorKind::Sparse => VectorKind::Sparse,
        VectorKind::Zero => VectorKind::Sparse,
    }
}

/// Build the dense element-wise sum of two vectors.
fn build_vadd(a: &VectorWrapper, b: &VectorWrapper) -> (r: DenseVector)
    requires
        a.wf(),
        b.wf(),
        a@.len() == b@.len(),
    ensures
        r.wf(),
        r.view_spec() == vadd(a@, b@),
{
    let d = a.len();
    let mut elems: Vec<Scalar> = Vec::new();
    for i in 0..d
        invariant
            a.wf(),
            b.wf(),
            a@.len() == b@.len(),
            d == a@.len(),
            elems@.len() == i,
            forall|j: int|
                0 <= j < i ==> (#[trigger] elems@[j]).wf() && elems@[j]@ == fx_add(a@[j], b@[j]),
    {
        elems.push(a.index(i).add(b.index(i)));
    }
    proof {
        assert(scalars_view(elems@) =~= vadd(a@, b@));
    }
    DenseVector { elems }
}

/// Build the dense element-wise difference of two vectors.
fn build_vsub(a: &VectorWrapper, b: &VectorWrapper) -> (r: DenseVector)
    requires
        a.wf(),
        b.wf(),
        a@.len() == b@.len(),
    ensures
        r.wf(),
        r.view_spec() == vsub(a@, b@),
{
    let d = a.len();
    let mut elems: Vec<Scalar> = Vec::new();
    for i in 0..d
        invariant
            a.wf(),
            b.wf(),
            a@.len() == b@.len(),
            d == a@.len(),
            elems@.len() == i,
            forall|j: int|
                0 <= j < i ==> (#[trigger] elems@[j]).wf() && elems@[j]@ == fx_sub(a@[j], b@[j]),
    {
        elems.push(a.index(i).sub(b.index(i)));
    }
    proof {
        assert(scalars_view(elems@) =~= vsub(a@, b@));
    }
    DenseVector { elems }
}

/// Build a dense vector by combining every coordinate with a fixed
/// scalar: `0` adds, `1` subtracts, `2` multiplies on the left.
fn build_scalar_op(a: &VectorWrapper, c: Scalar, op: u8) -> (r: DenseVector)
    requires
        a.wf(),
        c.wf(),
        op == 0 || op == 1 || op == 2,
    ensures
        r.wf(),
        op == 0 ==> r.view_spec() == vadd_scalar(a@, c@),
        op == 1 ==> r.view_spec() == vsub_scalar(a@, c@),
        op == 2 ==> r.view_spec() == vscale(c@, a@),
{
    let d = a.len();
    let mut elems: Vec<Scalar> = Vec::new();
    for i in 0..d
        invariant
            a.wf(),
            c.wf(),
            op == 0 || op == 1 || op == 2,
            d == a@.len(),
            elems@.len() == i,
            forall|j: int|
                0 <= j < i ==> (#[trigger] elems@[j]).wf() && elems@[j]@ == (if op == 0 {
                    fx_add(a@[j], c@)
                } else if op == 1 {
                    fx_sub(a@[j], c@)
                } else {
                    fx_mul(c@, a@[j])
                }),
    {
        let x = a.index(i);
        let y = if op == 0 {
            x.add(c)
        } else if op == 1 {
            x.sub(c)
        } else {
            c.mul(x)
        };
        elems.push(y);
    }
    proof {
        if op == 0 {
            assert(scalars_view(elems@) =~= vadd_scalar(a@, c@));
        } else if op == 1 {
            assert(scalars_view(elems@) =~= vsub_scalar(a@, c@));
        } else {
            assert(scalars_view(elems@) =~= vscale(c@, a@));
        }
    }
    DenseVector { elems }
}

impl VectorWrapper {
    /// Element-wise saturating addition, dispatched on the two storage
    /// variants; see [`add_kind`] for the representation of the result.
    pub fn add(&self, rhs: &VectorWrapper) -> (r: VectorWrapper)
        requires
            self.wf(),
            rhs.wf(),
            self@.len() == rhs@.len(),
        ensures
            r.wf(),
            r@ == vadd(self@, rhs@),
            r.kind() == add_kind(self.kind(), rhs.kind()),
    {
        match (self, rhs) {
            (VectorWrapper::Zero(_), _) => {
                let r = rhs.duplicate();
                proof {
                    lemma_vec_wf_bounded(*rhs);
                    assert(vadd(self@, rhs@) =~= rhs@);
                }
                r
            },
            (_, VectorWrapper::Zero(_)) => {
                let r = self.duplicate();
                proof {
                    lemma_vec_wf_bounded(*self);
                    assert(vadd(self@, rhs@) =~= self@);
                }
                r
            },
            (VectorWrapper::Constant(v1), VectorWrapper::Constant(v2)) => {
                let r = VectorWrapper::Constant(
                    ConstantVector { dim: v1.dim, value: v1.value.add(v2.value) },
                );
                proof {
                    assert(r@ =~= vadd(self@, rhs@));
                }
                r
            },
            _ => {
                let r = VectorWrapper::Dense(build_vadd(self, rhs));
                r
            },
        }
    }

    /// In-place element-wise saturating addition: the vector takes the
    /// value and representation that [`VectorWrapper::add`] would give.
    pub fn add_assign(&mut self, rhs: &VectorWrapper)
        requires
            old(self).wf(),
            rhs.wf(),
            old(self)@.len() == rhs@.len(),
        ensures
            final(self).wf(),
            final(self)@ == vadd(old(self)@, rhs@),
            final(self).kind() == add_kind(old(self).kind(), rhs.kind()),
    {
        let r = self.add(rhs);
        *self = r;
    }

    /// Element-wise saturating subtraction; see [`sub_kind`].
    pub fn sub(&self, rhs: &VectorWrapper) -> (r: VectorWrapper)
        requires
            self.wf(),
            rhs.wf(),
            self@.len() == rhs@.len(),
        ensures
            r.wf(),
            r@ == vsub(self@, rhs@),
            r.kind() == sub_kind(self.kind(), rhs.kind()),
    {
        match (self, rhs) {
            (_, VectorWrapper::Zero(_)) => {
                let r = self.duplicate();
                proof {
                    lemma_vec_wf_bounded(*self);
                    assert(vsub(self@, rhs@) =~= self@);
                }
                r
            },
            (VectorWrapper::Zero(_), _) => {
                let r = rhs.neg();
                proof {
                    lemma_vec_wf_bounded(*rhs);
                    assert(vsub(self@, rhs@) =~= vneg(rhs@));
                }
                r
            },
            (VectorWrapper::Constant(v1), VectorWrapper::Constant(v2)) => {
                let r = VectorWrapper::Constant(
                    ConstantVector { dim: v1.dim, value: v1.value.sub(v2.value) },
                );
                proof {
                    assert(r@ =~= vsub(self@, rhs@));
                }
                r
            },
            _ => {
                let r = VectorWrapper::Dense(build_vsub(self, rhs));
                r
            },
        }
    }

    /// Element-wise negation; see [`neg_kind`].
    pub fn neg(&self) -> (r: VectorWrapper)
        requires
            self.wf(),
        ensures
            r.wf(),
            r@ == vneg(self@),
            r.kind() == neg_kind(self.kind()),
    {
        match self {
            VectorWrapper::Constant(v) => {
                let r = VectorWrapper::Constant(
                    ConstantVector { dim: v.dim, value: v.value.neg() },
                );
                proof {
                    assert(r@ =~= vneg(self@));
                }
                r
            },
            VectorWrapper::Dense(_) => {
                let d = self.len();
                let mut elems: Vec<Scalar> = Vec::new();
                for i in 0..d
                    invariant
                        self.wf(),
                        d == self@.len(),
                        elems@.len() == i,
                        forall|j: int|
                            0 <= j < i ==> (#[trigger] elems@[j]).wf() && elems@[j]@ == fx_neg(
                                self@[j],
                            ),
                {
                    elems.push(self.index(i).neg());
                }
                proof {
                    assert(scalars_view(elems@) =~= vneg(self@));
                }
                VectorWrapper::Dense(DenseVector { elems })
            },
            VectorWrapper::OneHot(v) => {
                let mut indices: Vec<usize> = Vec::new();
                let mut values: Vec<Scalar> = Vec::new();
                indices.push(v.index);
                values.push(Scalar::from_micros(-SCALE));
                let r = VectorWrapper::Sparse(
                    SparseVector { dim: v.dim, indices, values, zero: v.zero },
                );
                proof {
                    assert forall|i: int| 0 <= i < v.dim as int implies r@[i] == vneg(self@)[i] by {
                        if i != v.index as int {
                            lemma_sparse_at_missing(indices@, scalars_view(values@), i);
                        }
                    }
                    assert(r@ =~= vneg(self@));
                }
                r
            },
            VectorWrapper::Sparse(v) => {
                let mut values: Vec<Scalar> = Vec::new();
                let n = v.values.len();
                for k in 0..n
                    invariant
                        scalars_wf(v.values@),
                        n == v.values@.len(),
                        values@.len() == k,
                        forall|j: int|
                            0 <= j < k ==> (#[trigger] values@[j]).wf() && values@[j]@ == fx_neg(
                                v.values@[j]@,
                            ),
                {
                    values.push(v.values[k].neg());
                }
                let r = VectorWrapper::Sparse(
                    SparseVector {
                        dim: v.dim,
                        indices: copy_indices(&v.indices),
                        values,
                        zero: v.zero,
                    },
                );
                proof {
                    assert forall|i: int| 0 <= i < v.dim as int implies r@[i] == vneg(self@)[i] by {
                        lemma_sparse_at_neg(
                            v.indices@,
                            scalars_view(v.values@),
                            scalars_view(values@),
                            i,
                        );
                    }
                    assert(r@ =~= vneg(self@));
                }
                r
            },
            VectorWrapper::Zero(_) => {
                let r = self.duplicate();
                proof {
                    assert(r@ =~= vneg(self@));
                }
                r
            },
        }
    }

    /// Every coordinate scaled by `c` on the left; see [`scale_kind`].
    pub fn scalar_mul(&self, c: Scalar) -> (r: VectorWrapper)
        requires
            self.wf(),
            c.wf(),
        ensures
            r.wf(),
            r@ == vscale(c@, self@),
            r.kind() == scale_kind(self.kind()),
    {
        match self {
            VectorWrapper::Constant(v) => {
                let r = VectorWrapper::Constant(
                    ConstantVector { dim: v.dim, value: c.mul(v.value) },
                );
                proof {
                    assert(r@ =~= vscale(c@, self@));
                }
                r
            },
            VectorWrapper::Dense(_) => {
                let r = VectorWrapper::Dense(build_scalar_op(self, c, 2));
                r
            },
            VectorWrapper::OneHot(v) => {
                let mut indices: Vec<usize> = Vec::new();
                let mut values: Vec<Scalar> = Vec::new();
                indices.push(v.index);
                values.push(c);
                let r = VectorWrapper::Sparse(
                    SparseVector { dim: v.dim, indices, values, zero: v.zero },
                );
                proof {
                    crate::linalg::lemma_fx_mul_one_right(c@);
                    assert forall|i: int| 0 <= i < v.dim as int implies r@[i] == vscale(c@, self@)[i]
                    by {
                        crate::linalg::lemma_fx_mul_zero(c@);
                        if i != v.index as int {
                            lemma_sparse_at_missing(indices@, scalars_view(values@), i);
                        }
                    }
                    assert(r@ =~= vscale(c@, self@));
                }
                r
            },
            VectorWrapper::Sparse(v) => {
                let mut values: Vec<Scalar> = Vec::new();
                let n = v.values.len();
                for k in 0..n
                    invariant
                        scalars_wf(v.values@),
                        c.wf(),
                        n == v.values@.len(),
                        values@.len() == k,
                        forall|j: int|
                            0 <= j < k ==> (#[trigger] values@[j]).wf() && values@[j]@ == fx_mul(
                                c@,
                                v.values@[j]@,
                            ),
                {
                    values.push(c.mul(v.values[k]));
                }
                let r = VectorWrapper::Sparse(
                    SparseVector {
                        dim: v.dim,
                        indices: copy_indices(&v.indices),
                        values,
                        zero: v.zero,
                    },
                );
                proof {
                    assert forall|i: int| 0 <= i < v.dim as int implies r@[i] == vscale(c@, self@)[i]
                    by {
                        lemma_sparse_at_scale(
                            v.indices@,
                            scalars_view(v.values@),
                            scalars_view(values@),
                            c@,
                            i,
                        );
                    }
                    assert(r@ =~= vscale(c@, self@));
                }
                r
            },
            VectorWrapper::Zero(_) => {
                let r = self.duplicate();
                proof {
                    crate::linalg::lemma_fx_mul_zero(c@);
                    assert(r@ =~= vscale(c@, self@));
                }
                r
            },
        }
    }

    /// Every coordinate shifted by `c`; see [`add_scalar_kind`].
    pub fn add_scalar(&self, c: Scalar) -> (r: VectorWrapper)
        requires
            self.wf(),
            c.wf(),
        ensures
            r.wf(),
            r@ == vadd_scalar(self@, c@),
            r.kind() == add_scalar_kind(self.kind()),
    {
        match self {
            VectorWrapper::Constant(v) => {
                let r = VectorWrapper::Constant(
                    ConstantVector { dim: v.dim, value: v.value.add(c) },
                );
                proof {
                    assert(r@ =~= vadd_scalar(self@, c@));
                }
                r
            },
            VectorWrapper::Zero(v) => {
                let r = VectorWrapper::Constant(ConstantVector { dim: v.dim, value: c });
                proof {
                    assert(r@ =~= vadd_scalar(self@, c@));
                }
                r
            },
            _ => {
                let r = VectorWrapper::Dense(build_scalar_op(self, c, 0));
                r
            },
        }
    }

    /// Every coordinate lowered by `c`; see [`add_scalar_kind`].
    pub fn sub_scalar(&self, c: Scalar) -> (r: VectorWrapper)
        requires
            self.wf(),
            c.wf(),
        ensures
            r.wf(),
            r@ == vsub_scalar(self@, c@),
            r.kind() == add_scalar_kind(self.kind()),
    {
        match self {
            VectorWrapper::Constant(v) => {
                let r = VectorWrapper::Constant(
                    ConstantVector { dim: v.dim, value: v.value.sub(c) },
                );
                proof {
                    assert(r@ =~= vsub_scalar(self@, c@));
                }
                r
            },
            VectorWrapper::Zero(v) => {
                let r = VectorWrapper::Constant(ConstantVector { dim: v.dim, value: c.neg() });
                proof {
                    assert(r@ =~= vsub_scalar(self@, c@));
                }
                r
            },
            _ => {
                let r = VectorWrapper::Dense(build_scalar_op(self, c, 1));
                r
            },
        }
    }

    /// The dot product, folded in index order — the same order for
    /// every pair of storage variants.
    pub fn dot(&self, rhs: &VectorWrapper) -> (r: Scalar)
        requires
            self.wf(),
            rhs.wf(),
            self@.len() == rhs@.len(),
        ensures
            r.wf(),
            r@ == sdot(self@, rhs@),
    {
        let d = self.len();
        let mut acc = Scalar::zero();
        for i in 0..d
            invariant
                self.wf(),
                rhs.wf(),
                self@.len() == rhs@.len(),
                d == self@.len(),
                acc.wf(),
                acc@ == dot_prefix(self@, rhs@, i as int),
        {
            acc = acc.add(self.index(i).mul(rhs.index(i)));
        }
        acc
    }

    /// The sum of all coordinates, folded in index order.
    pub fn sum(&self) -> (r: Scalar)
        requires
            self.wf(),
        ensures
            r.wf(),
            r@ == ssum(self@),
    {
        let d = self.len();
        let mut acc = Scalar::zero();
        for i in 0..d
            invariant
                self.wf(),
                d == self@.len(),
                acc.wf(),
                acc@ == sum_prefix(self@, i as int),
        {
            acc = acc.add(self.index(i));
        }
        acc
    }

    /// The squared 2-norm: the sum of squared coordinates, in index order.
    pub fn sum_of_squares(&self) -> (r: Scalar)
        requires
            self.wf(),
        ensures
            r.wf(),
            r@ == ssumsq(self@),
    {
        let d = self.len();
        let mut acc = Scalar::zero();
        for i in 0..d
            invariant
                self.wf(),
                d == self@.len(),
                acc.wf(),
                acc@ == sumsq_prefix(self@, i as int),
        {
            let x = self.index(i);
            acc = acc.add(x.mul(x));
        }
        acc
    }

    /// The same logical vector in dense storage.
    pub fn to_dense(&self) -> (r: DenseVector)
        requires
            self.wf(),
        ensures
            r.wf(),
            r.view_spec() == self@,
    {
        let d = self.len();
        let mut elems: Vec<Scalar> = Vec::new();
        for i in 0..d
            invariant
                self.wf(),
                d == self@.len(),
                elems@.len() == i,
                forall|j: int|
                    0 <= j < i ==> (#[trigger] elems@[j]).wf() && elems@[j]@ == self@[j],
        {
            elems.push(self.index(i));
        }
        proof {
            assert(scalars_view(elems@) =~= self@);
        }
        DenseVector { elems }
    }

    /// The vector with `extra` appended as a final coordinate; see
    /// [`extend_kind`].
    pub fn extend(&self, extra: Scalar) -> (r: VectorWrapper)
        requires
            self.wf(),
            extra.wf(),
            self@.len() < usize::MAX,
        ensures
            r.wf(),
            r@ == self@.push(extra@),
            r.kind() == extend_kind(self.kind()),
    {
        match self {
            VectorWrapper::Constant(_) | VectorWrapper::Dense(_) => {
                let mut dv = self.to_dense();
                dv.elems.push(extra);
                let r = VectorWrapper::Dense(dv);
                proof {
                    assert(r@ =~= self@.push(extra@));
                }
                r
            },
            VectorWrapper::OneHot(v) => {
                let mut indices: Vec<usize> = Vec::new();
                let mut values: Vec<Scalar> = Vec::new();
                indices.push(v.index);
                values.push(v.one);
                let ghost idx1 = indices@;
                let ghost vals1 = scalars_view(values@);
                indices.push(v.dim);
                values.push(extra);
                let r = VectorWrapper::Sparse(
                    SparseVector { dim: v.dim + 1, indices, values, zero: v.zero },
                );
                proof {
                    assert(indices@ =~= idx1.push(v.dim));
                    assert(scalars_view(values@) =~= vals1.push(extra@));
                    assert forall|i: int| 0 <= i < v.dim + 1 implies r@[i] == self@.push(extra@)[i]
                    by {
                        lemma_sparse_at_push(idx1, vals1, v.dim, extra@, i);
                        if i != v.dim as int && i != v.index as int {
                            lemma_sparse_at_missing(idx1, vals1, i);
                        }
                        assert(self@.push(extra@)[i] == (if i == v.dim as int {
                            extra@
                        } else {
                            self@[i]
                        }));
                    }
                    assert(r@ =~= self@.push(extra@));
                }
                r
            },
            VectorWrapper::Sparse(v) => {
                let mut indices = copy_indices(&v.indices);
                let mut values = copy_scalars(&v.values);
                let ghost idx1 = indices@;
                let ghost vals1 = scalars_view(values@);
                indices.push(v.dim);
                values.push(extra);
                let r = VectorWrapper::Sparse(
                    SparseVector { dim: v.dim + 1, indices, values, zero: v.zero },
                );
                proof {
                    assert(indices@ =~= idx1.push(v.dim));
                    assert(scalars_view(values@) =~= vals1.push(extra@));
                    assert forall|i: int| 0 <= i < v.dim + 1 implies r@[i] == self@.push(extra@)[i]
                    by {
                        lemma_sparse_at_push(idx1, vals1, v.dim, extra@, i);
                    }
                    assert(r@ =~= self@.push(extra@));
                }
                r
            },
            VectorWrapper::Zero(v) => {
                let mut indices: Vec<usize> = Vec::new();
                let mut values: Vec<Scalar> = Vec::new();
                indices.push(v.dim);
                values.push(extra);
                let r = VectorWrapper::Sparse(
                    SparseVector { dim: v.dim + 1, indices, values, zero: v.zero },
                );
                proof {
                    assert forall|i: int| 0 <= i < v.dim + 1 implies r@[i] == self@.push(extra@)[i]
                    by {
                        if i != v.dim as int {
                            lemma_sparse_at_missing(indices@, scalars_view(values@), i);
                        }
                    }
                    assert(r@ =~= self@.push(extra@));
                }
                r
            },
        }
    }

    /// Overwrite one coordinate in place.  Only dense storage supports
    /// element writes; the compact variants have no cell to write to.
    pub fn set_index(&mut self, i: usize, x: Scalar)
        requires
            old(self).wf(),
            old(self).kind() == VectorKind::Dense,
            i < old(self)@.len(),
            x.wf(),
        ensures
            final(self).wf(),
            final(self).kind() == VectorKind::Dense,
            final(self)@ == old(self)@.update(i as int, x@),
    {
        match self {
            VectorWrapper::Dense(v) => {
                v.elems.set(i, x);
                proof {
                    assert(scalars_view(v.elems@) =~= old(self)@.update(i as int, x@));
                }
            },
            // The precondition restricts the receiver to dense storage.
            _ => {},
        }
    }

    /// Whether two vectors use the same storage variant and hold the
    /// same logical value.
    pub fn equals(&self, other: &VectorWrapper) -> (r: bool)
        requires
            self.wf(),
            other.wf(),
        ensures
            r == (self.kind() == other.kind() && self@ == other@),
    {
        let kind_same: bool = match (self, other) {
            (VectorWrapper::Constant(_), VectorWrapper::Constant(_)) => true,
            (VectorWrapper::Dense(_), VectorWrapper::Dense(_)) => true,
            (VectorWrapper::OneHot(_), VectorWrapper::OneHot(_)) => true,
            (VectorWrapper::Sparse(_), VectorWrapper::Sparse(_)) => true,
            (VectorWrapper::Zero(_), VectorWrapper::Zero(_)) => true,
            _ => false,
        };
        if !kind_same {
            return false;
        }
        let d = self.len();
        if d != other.len() {
            return false;
        }
        for i in 0..d
            invariant
                self.wf(),
                other.wf(),
                d == self@.len(),
                d == other@.len(),
                forall|j: int| 0 <= j < i ==> self@[j] == other@[j],
        {
            if self.index(i).to_micros() != other.index(i).to_micros() {
                return false;
            }
        }
        proof {
            assert(self@ =~= other@);
        }
        true
    }
}

/// Representation transparency for vectors: two vectors that denote
/// the same logical model — whatever their storage variants — are
/// numerically indistinguishable.  Index reads agree because `index`'s
/// contract answers from the model alone; every operation agrees
/// because each operation's contract fixes the result's model as a
/// function of the operands' models, and those functions, applied to
/// equal models, give equal results, as stated here against an
/// arbitrary third vector `w` and scalar `c`.
pub proof fn lemma_representation_transparency(
    v1: VectorWrapper,
    v2: VectorWrapper,
    w: VectorWrapper,
    c: int,
)
    requires
        v1@ == v2@,
    ensures
        vadd(v1@, w@) == vadd(v2@, w@),
        vadd(w@, v1@) == vadd(w@, v2@),
        vsub(v1@, w@) == vsub(v2@, w@),
        vsub(w@, v1@) == vsub(w@, v2@),
        sdot(v1@, w@) == sdot(v2@, w@),
        sdot(w@, v1@) == sdot(w@, v2@),
        vscale(c, v1@) == vscale(c, v2@),
        vadd_scalar(v1@, c) == vadd_scalar(v2@, c),
        vsub_scalar(v1@, c) == vsub_scalar(v2@, c),
        vneg(v1@) == vneg(v2@),
        ssum(v1@) == ssum(v2@),
        ssumsq(v1@) == ssumsq(v2@),
        crate::linalg::outer_product(v1@, w@) == crate::linalg::outer_product(v2@, w@),
        crate::linalg::outer_product(w@, v1@) == crate::linalg::outer_product(w@, v2@),
{
}

/// Pairwise increase between neighbours implies increase between any two
/// positions.
pub(crate) proof fn lemma_adjacent_implies_sorted(idx: Seq<usize>, a: int, b: int)
    requires
        forall|j: int| 0 < j < idx.len() ==> idx[j - 1] < #[trigger] idx[j],
        0 <= a < b < idx.len(),
    ensures
        idx[a] < idx[b],
    decreases b - a,
{
    if a + 1 < b {
        lemma_adjacent_implies_sorted(idx, a + 1, b);
    }
}

} // verus!
