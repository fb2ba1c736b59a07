//! Pluggable loss functions: a scalar loss with a reported error
//! vector, and the gradient of the loss with respect to the network's
//! output, each stated exactly over micro counts.

use crate::linalg::vector::{scalars_view, DenseVector, VectorWrapper};
use crate::linalg::{ssum, ssumsq, vscale, vsub};
use crate::scalar::{fx_add, fx_div, fx_mul, fx_sub, tdiv, Scalar, SCALE};
use vstd::prelude::*;

verus! {

/// A loss on (target, output) pairs of equally long vectors.
/// `spec_loss`, `spec_errors` and `spec_dl_da` are the mathematical
/// statements both executable methods are held to.
pub trait LossFunction: Sized + Copy {
    /// Representation invariant of the loss's own parameters.
    spec fn wf(self) -> bool;

    /// The scalar loss, in micros.
    spec fn spec_loss(self, target: Seq<int>, output: Seq<int>) -> int;

    /// The error vector reported alongside the loss.
    spec fn spec_errors(self, target: Seq<int>, output: Seq<int>) -> Seq<int>;

    /// The gradient of the loss with respect to the output.
    spec fn spec_dl_da(self, target: Seq<int>, output: Seq<int>) -> Seq<int>;

    /// The loss and the error vector for one (target, output) pair.
    fn loss(&self, target: &VectorWrapper, output: &VectorWrapper) -> (r: (Scalar, VectorWrapper))
        requires
            self.wf(),
            target.wf(),
            output.wf(),
            target@.len() == output@.len(),
        ensures
            r.0.wf(),
            r.0@ == self.spec_loss(target@, output@),
            r.1.wf(),
            r.1@ == self.spec_errors(target@, output@),
            r.1@.len() == target@.len(),
    ;

    /// The gradient of the loss with respect to the output.
    fn dl_da(&self, target: &VectorWrapper, output: &VectorWrapper) -> (r: VectorWrapper)
        requires
            self.wf(),
            target.wf(),
            output.wf(),
            target@.len() == output@.len(),
        ensures
            r.wf(),
            r@ == self.spec_dl_da(target@, output@),
            r@.len() == target@.len(),
    ;
}

/// Mean-squared-error loss: the loss is the sum of squared
/// coordinate differences, the errors are the differences themselves,
/// and the gradient is minus two times the differences.
#[derive(Clone, Copy)]
pub struct MeanSquaredErrorLoss;

impl LossFunction for MeanSquaredErrorLoss {
    open spec fn wf(self) -> bool {
        true
    }

    open spec fn spec_loss(self, target: Seq<int>, output: Seq<int>) -> int {
        ssumsq(vsub(target, output))
    }

    open spec fn spec_errors(self, target: Seq<int>, output: Seq<int>) -> Seq<int> {
        vsub(target, output)
    }

    open spec fn spec_dl_da(self, target: Seq<int>, output: Seq<int>) -> Seq<int> {
        vscale(-2 * SCALE as int, vsub(target, output))
    }

    fn loss(&self, target: &VectorWrapper, output: &VectorWrapper) -> (r: (Scalar, VectorWrapper)) {
        let errors = target.sub(output);
        let l = errors.sum_of_squares();
        (l, errors)
    }

    fn dl_da(&self, target: &VectorWrapper, output: &VectorWrapper) -> (r: VectorWrapper) {
        let errors = target.sub(output);
        errors.scalar_mul(Scalar::from_int(-2))
    }
}

/// Euler's number in micros, rounded down.
pub const E_MICROS: i64 = 2_718_281;

/// The reciprocal of Euler's number in micros, rounded down.
pub const E_INV_MICROS: i64 = 367_879;

/// How far (in micros) the exponential's argument is clamped: beyond
/// about 29 logical units the result would leave the representable range.
pub const EXP_CLAMP_MICROS: i64 = 29_000_000;

/// The Taylor-series tail of the fixed-point exponential on a
/// fractional argument `t` in `[0, SCALE)`, evaluated by Horner's rule
/// from term `k` upward: `1 + t/k * (1 + t/(k+1) * (...))`, with twelve
/// terms in all.
pub open spec fn exp_series(t: int, k: int) -> int
    decreases 13 - k,
{
    if k > 12 || k < 1 {
        SCALE as int
    } else {
        fx_add(SCALE as int, tdiv(fx_mul(t, exp_series(t, k + 1)), k))
    }
}

/// `base` raised to the `n`-th power by repeated fixed-point
/// multiplication, starting from one logical unit.
pub open spec fn fx_pow(base: int, n: nat) -> int
    decreases n,
{
    if n == 0 {
        SCALE as int
    } else {
        fx_mul(fx_pow(base, (n - 1) as nat), base)
    }
}

/// The fixed-point exponential: the argument is clamped to
/// `[-29, 29]` logical units and split into whole units and a
/// fractional remainder; the whole part is handled by repeated
/// multiplication with `e` (or `1/e`), the remainder by the Taylor
/// series, and the result is floored at one micro so it is always
/// strictly positive, as the mathematical exponential is.
pub open spec fn spec_exp(x: int) -> int {
    let xc = if x > EXP_CLAMP_MICROS as int {
        EXP_CLAMP_MICROS as int
    } else if x < -(EXP_CLAMP_MICROS as int) {
        -(EXP_CLAMP_MICROS as int)
    } else {
        x
    };
    let q = xc / (SCALE as int);
    let rem = xc % (SCALE as int);
    let frac = exp_series(rem, 1);
    let p = if q >= 0 {
        fx_pow(E_MICROS as int, q as nat)
    } else {
        fx_pow(E_INV_MICROS as int, (-q) as nat)
    };
    let v = fx_mul(p, frac);
    if v < 1 {
        1
    } else {
        v
    }
}

/// One range-reduction descent step of the fixed-point logarithm:
/// while the mantissa is at least `e`, divide it by `e` (by
/// multiplying with `1/e`) and raise the exponent, for at most `fuel`
/// steps.
pub open spec fn ln_reduce_down(m: int, k: int, fuel: nat) -> (int, int)
    decreases fuel,
{
    if fuel == 0 {
        (m, k)
    } else if m >= E_MICROS as int {
        ln_reduce_down(fx_mul(m, E_INV_MICROS as int), k + 1, (fuel - 1) as nat)
    } else {
        (m, k)
    }
}

/// One range-reduction ascent step of the fixed-point logarithm:
/// while the mantissa is below one unit, multiply it by `e` and lower
/// the exponent, for at most `fuel` steps.
pub open spec fn ln_reduce_up(m: int, k: int, fuel: nat) -> (int, int)
    decreases fuel,
{
    if fuel == 0 {
        (m, k)
    } else if m < SCALE as int {
        ln_reduce_up(fx_mul(m, E_MICROS as int), k - 1, (fuel - 1) as nat)
    } else {
        (m, k)
    }
}

/// The `i`-th odd power of `z` used by the logarithm's series:
/// `z, z^3, z^5, ...`, each step multiplying by `z` squared.
pub open spec fn ln_term(z: int, i: nat) -> int
    decreases i,
{
    if i == 0 {
        z
    } else {
        fx_mul(ln_term(z, (i - 1) as nat), fx_mul(z, z))
    }
}

/// The partial sum of the logarithm's series,
/// `z/1 + z^3/3 + ... `, over the first `i` odd terms.
pub open spec fn ln_acc(z: int, i: nat) -> int
    decreases i,
{
    if i == 0 {
        0
    } else {
        fx_add(ln_acc(z, (i - 1) as nat), tdiv(ln_term(z, (i - 1) as nat), 2 * (i - 1) + 1))
    }
}

/// The fixed-point natural logarithm: range-reduce the argument into
/// `[1, e)` by powers of `e`, then evaluate
/// `ln(m) = 2 * (z + z^3/3 + z^5/5 + ...)` with `z = (m-1)/(m+1)`,
/// over eight odd terms.
pub open spec fn spec_ln(y: int) -> int {
    let d = ln_reduce_down(y, 0, 44);
    let u = ln_reduce_up(d.0, d.1, 20);
    let z = fx_div(fx_sub(u.0, SCALE as int), fx_add(u.0, SCALE as int));
    let s = ln_acc(z, 8);
    fx_add(u.1 * (SCALE as int), fx_add(s, s))
}

/// Division of a scalar by a small positive integer, truncating toward
/// zero.
fn div_trunc(a: Scalar, k: u64) -> (r: Scalar)
    requires
        a.wf(),
        1 <= k,
        k <= 1000,
    ensures
        r.wf(),
        r@ == tdiv(a@, k as int),
{
    if a.raw >= 0 {
        Scalar { raw: ((a.raw as u64) / k) as i64 }
    } else {
        Scalar { raw: -((((-a.raw) as u64) / k) as i64) }
    }
}

/// The fixed-point exponential; see [`spec_exp`].
fn exp_fx(x: Scalar) -> (r: Scalar)
    requires
        x.wf(),
    ensures
        r.wf(),
        r@ == spec_exp(x@),
        r@ >= 1,
{
    let xc: i64 = if x.raw > EXP_CLAMP_MICROS {
        EXP_CLAMP_MICROS
    } else if x.raw < -EXP_CLAMP_MICROS {
        -EXP_CLAMP_MICROS
    } else {
        x.raw
    };
    let q: i64;
    let rem: i64;
    if xc >= 0 {
        let u = xc as u64;
        q = (u / 1_000_000) as i64;
        rem = (u % 1_000_000) as i64;
    } else {
        let u = (-xc) as u64;
        let qm = u / 1_000_000;
        let rm = u % 1_000_000;
        if rm == 0 {
            q = -(qm as i64);
            rem = 0;
        } else {
            q = -(qm as i64) - 1;
            rem = (1_000_000 - rm) as i64;
        }
    }
    proof {
        vstd::arithmetic::div_mod::lemma_fundamental_div_mod_converse(
            xc as int,
            SCALE as int,
            q as int,
            rem as int,
        );
    }
    let t = Scalar::from_micros(rem);
    let mut acc = Scalar::one();
    let mut j: u64 = 0;
    while j < 12
        invariant
            t.wf(),
            t@ == rem as int,
            j <= 12,
            acc.wf(),
            acc@ == exp_series(t@, 13 - j as int),
        decreases 12 - j,
    {
        let k: u64 = 12 - j;
        acc = Scalar::one().add(div_trunc(t.mul(acc), k));
        j = j + 1;
    }
    let base: Scalar;
    let n: u64;
    if q >= 0 {
        base = Scalar::from_micros(E_MICROS);
        n = q as u64;
    } else {
        base = Scalar::from_micros(E_INV_MICROS);
        n = (-q) as u64;
    }
    let mut p = Scalar::one();
    let mut i: u64 = 0;
    while i < n
        invariant
            base.wf(),
            i <= n,
            p.wf(),
            p@ == fx_pow(base@, i as nat),
        decreases n - i,
    {
        p = p.mul(base);
        i = i + 1;
    }
    let v = p.mul(acc);
    if v.raw < 1 {
        Scalar { raw: 1 }
    } else {
        v
    }
}

/// The fixed-point natural logarithm; see [`spec_ln`].
fn ln_fx(y: Scalar) -> (r: Scalar)
    requires
        y.wf(),
    ensures
        r.wf(),
        r@ == spec_ln(y@),
{
    let einv = Scalar::from_micros(E_INV_MICROS);
    let e = Scalar::from_micros(E_MICROS);
    let mut m = y;
    let mut k: i64 = 0;
    let mut i: u64 = 0;
    while i < 44
        invariant
            einv@ == E_INV_MICROS as int,
            e@ == E_MICROS as int,
            i <= 44,
            0 <= k <= i,
            m.wf(),
            ln_reduce_down(y@, 0, 44) == ln_reduce_down(m@, k as int, (44 - i) as nat),
        decreases 44 - i,
    {
        if m.raw >= E_MICROS {
            m = m.mul(einv);
            k = k + 1;
        }
        i = i + 1;
    }
    let ghost d = ln_reduce_down(y@, 0, 44);
    let mut i2: u64 = 0;
    while i2 < 20
        invariant
            einv@ == E_INV_MICROS as int,
            e@ == E_MICROS as int,
            i2 <= 20,
            k as int <= 44,
            k as int >= -(i2 as int),
            m.wf(),
            d == ln_reduce_down(y@, 0, 44),
            ln_reduce_up(d.0, d.1, 20) == ln_reduce_up(m@, k as int, (20 - i2) as nat),
        decreases 20 - i2,
    {
        if m.raw < SCALE {
            m = m.mul(e);
            k = k - 1;
        }
        i2 = i2 + 1;
    }
    let z = m.sub(Scalar::one()).div(m.add(Scalar::one()));
    let zsq = z.mul(z);
    let mut term = z;
    let mut acc = Scalar::zero();
    let mut i3: u64 = 0;
    while i3 < 8
        invariant
            z.wf(),
            zsq.wf(),
            zsq@ == fx_mul(z@, z@),
            i3 <= 8,
            term.wf(),
            term@ == ln_term(z@, i3 as nat),
            acc.wf(),
            acc@ == ln_acc(z@, i3 as nat),
        decreases 8 - i3,
    {
        acc = acc.add(div_trunc(term, 2 * i3 + 1));
        term = term.mul(zsq);
        i3 = i3 + 1;
    }
    Scalar::from_micros(k * 1_000_000).add(acc.add(acc))
}

/// The running sum, in index order, of the exponentials of the first
/// `n` coordinates.
pub open spec fn sum_exp_prefix(output: Seq<int>, n: int) -> int
    decreases n,
{
    if n <= 0 {
        0
    } else {
        fx_add(sum_exp_prefix(output, n - 1), spec_exp(output[n - 1]))
    }
}

/// The sum of the exponentials of all coordinates.
pub open spec fn spec_sum_exp(output: Seq<int>) -> int {
    sum_exp_prefix(output, output.len() as int)
}

/// The running cross-entropy sum: each target coordinate weighs the
/// difference between the logarithm of the exponential sum and the
/// produced coordinate, since
/// `-t * ln(exp(q) / sum) == t * (ln(sum) - q)`.
pub open spec fn entropy_prefix(target: Seq<int>, output: Seq<int>, lnsum: int, n: int) -> int
    decreases n,
{
    if n <= 0 {
        0
    } else {
        fx_add(
            entropy_prefix(target, output, lnsum, n - 1),
            fx_mul(target[n - 1], fx_sub(lnsum, output[n - 1])),
        )
    }
}

/// Softmax cross-entropy loss: the loss is
/// `-sum of target_i * ln(softmax(output)_i)`, and the gradient is
/// `exp(output_i) * (sum of targets / sum of exponentials) - target_i`,
/// which reduces to `softmax(output) - target` when the targets sum to
/// one.  The reported error vector is zero, as this loss defines no
/// per-coordinate error.  All exponentials and logarithms are the
/// fixed-point approximations [`spec_exp`] and [`spec_ln`].
#[derive(Clone, Copy)]
pub struct SoftmaxCrossEntropyLoss;

impl LossFunction for SoftmaxCrossEntropyLoss {
    open spec fn wf(self) -> bool {
        true
    }

    open spec fn spec_loss(self, target: Seq<int>, output: Seq<int>) -> int {
        entropy_prefix(target, output, spec_ln(spec_sum_exp(output)), target.len() as int)
    }

    open spec fn spec_errors(self, target: Seq<int>, output: Seq<int>) -> Seq<int> {
        Seq::new(target.len(), |i: int| 0)
    }

    open spec fn spec_dl_da(self, target: Seq<int>, output: Seq<int>) -> Seq<int> {
        let ratio = fx_div(crate::linalg::ssum(target), spec_sum_exp(output));
        Seq::new(target.len(), |i: int| fx_sub(fx_mul(spec_exp(output[i]), ratio), target[i]))
    }

    fn loss(&self, target: &VectorWrapper, output: &VectorWrapper) -> (r: (Scalar, VectorWrapper)) {
        let d = output.len();
        let mut se = Scalar::zero();
        for i in 0..d
            invariant
                output.wf(),
                d == output@.len(),
                se.wf(),
                se@ == sum_exp_prefix(output@, i as int),
        {
            se = se.add(exp_fx(output.index(i)));
        }
        let lnsum = ln_fx(se);
        let mut ent = Scalar::zero();
        for i in 0..d
            invariant
                target.wf(),
                output.wf(),
                d == output@.len(),
                d == target@.len(),
                lnsum.wf(),
                lnsum@ == spec_ln(spec_sum_exp(output@)),
                ent.wf(),
                ent@ == entropy_prefix(target@, output@, lnsum@, i as int),
        {
            ent = ent.add(target.index(i).mul(lnsum.sub(output.index(i))));
        }
        let errors = VectorWrapper::zero(d);
        proof {
            assert(errors@ =~= self.spec_errors(target@, output@));
        }
        (ent, errors)
    }

    fn dl_da(&self, target: &VectorWrapper, output: &VectorWrapper) -> (r: VectorWrapper) {
        let d = output.len();
        let mut se = Scalar::zero();
        for i in 0..d
            invariant
                output.wf(),
                d == output@.len(),
                se.wf(),
                se@ == sum_exp_prefix(output@, i as int),
        {
            se = se.add(exp_fx(output.index(i)));
        }
        let sp = target.sum();
        let ratio = sp.div(se);
        let mut elems: Vec<Scalar> = Vec::new();
        for i in 0..d
            invariant
                target.wf(),
                output.wf(),
                d == output@.len(),
                d == target@.len(),
                ratio.wf(),
                ratio@ == fx_div(ssum(target@), spec_sum_exp(output@)),
                elems@.len() == i,
                forall|j: int|
                    0 <= j < i ==> (#[trigger] elems@[j]).wf() && elems@[j]@ == fx_sub(
                        fx_mul(spec_exp(output@[j]), fx_div(ssum(target@), spec_sum_exp(output@))),
                        target@[j],
                    ),
        {
            elems.push(exp_fx(output.index(i)).mul(ratio).sub(target.index(i)));
        }
        let r = VectorWrapper::Dense(DenseVector { elems });
        proof {
            assert(r@ =~= self.spec_dl_da(target@, output@));
        }
        r
    }
}

} // verus!
