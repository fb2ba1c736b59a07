//! One fully connected layer: an affine transform followed by a
//! pluggable nonlinearity, holding its own weights, biases and
//! per-pass caches, with forward, backward and update steps.

use crate::linalg::matrix::MatrixWrapper;
use crate::linalg::vector::VectorWrapper;
use crate::linalg::{mat_vec_mul, mscale, msub, outer_product, transpose_view, vadd, vscale, vsub};
use crate::model::activation::{map_df_view, map_f_view, ActivationFunction};
use crate::model::weights::{Biases, Weights};
use crate::scalar::{fx_mul, Scalar};
use vstd::prelude::*;

verus! {

/// A fully connected layer: weight matrix `w` (out-by-in), bias vector
/// `b`, and the caches written by one training step — the linear
/// output `n`, the nonlinear output `a`, the sensitivity `s` (the
/// derivative of the loss in the linear output), and `wts`, the
/// sensitivity pulled back through the transposed weights for the
/// preceding layer.
pub struct FullyConnectedLayer<A: ActivationFunction> {
    pub w: MatrixWrapper,
    pub b: VectorWrapper,
    pub n: VectorWrapper,
    pub a: VectorWrapper,
    pub s: VectorWrapper,
    pub wts: VectorWrapper,
    pub activation_function: A,
}

impl<A: ActivationFunction> FullyConnectedLayer<A> {
    /// The fan-in of this layer.
    pub open spec fn in_dim(self) -> int {
        self.w.spec_cols()
    }

    /// The fan-out of this layer.
    pub open spec fn out_dim(self) -> int {
        self.w.spec_rows()
    }

    /// Well-formedness: every tensor is well formed, the cache
    /// dimensions agree with the weight matrix, and the square of the
    /// fan-out is addressable (the backward step builds a
    /// fan-out-by-fan-out diagonal matrix).
    pub open spec fn wf(self) -> bool {
        &&& self.w.wf()
        &&& self.b.wf()
        &&& self.n.wf()
        &&& self.a.wf()
        &&& self.s.wf()
        &&& self.wts.wf()
        &&& self.activation_function.wf()
        &&& self.b@.len() == self.out_dim()
        &&& self.n@.len() == self.out_dim()
        &&& self.a@.len() == self.out_dim()
        &&& self.s@.len() == self.out_dim()
        &&& self.wts@.len() == self.in_dim()
        &&& self.out_dim() * self.out_dim() <= usize::MAX as int
    }

    /// A fresh layer from initializers: weights and biases as the
    /// initializers describe them, caches zeroed.
    pub fn with(weights: Weights, biases: Biases, activation_function: A) -> (r:
        FullyConnectedLayer<A>)
        requires
            weights.wf(),
            biases.wf(),
            biases.spec_dim() == weights.spec_rows(),
            weights.spec_rows() * weights.spec_rows() <= usize::MAX as int,
            activation_function.wf(),
        ensures
            r.wf(),
            r.in_dim() == weights.spec_cols(),
            r.out_dim() == weights.spec_rows(),
            r.activation_function == activation_function,
            weights is Zeros ==> forall|i: int, j: int|
                0 <= i < r.out_dim() && 0 <= j < r.in_dim() ==> #[trigger] r.w@[i][j] == 0,
            weights matches Weights::UniformlyRandom { lo, hi, .. } ==> forall|i: int, j: int|
                0 <= i < r.out_dim() && 0 <= j < r.in_dim() ==> lo@ <= #[trigger] r.w@[i][j] < hi@,
            biases is Zeros ==> forall|i: int| 0 <= i < r.out_dim() ==> #[trigger] r.b@[i] == 0,
            biases matches Biases::UniformlyRandom { lo, hi, .. } ==> forall|i: int|
                0 <= i < r.out_dim() ==> lo@ <= #[trigger] r.b@[i] < hi@,
            forall|i: int| 0 <= i < r.out_dim() ==> #[trigger] r.n@[i] == 0 && r.a@[i] == 0
                && r.s@[i] == 0,
            forall|i: int| 0 <= i < r.in_dim() ==> #[trigger] r.wts@[i] == 0,
    {
        let w = weights.realize();
        let b = biases.realize();
        let out = w.rows();
        let inn = w.cols();
        FullyConnectedLayer {
            w,
            b,
            n: VectorWrapper::zero(out),
            a: VectorWrapper::zero(out),
            s: VectorWrapper::zero(out),
            wts: VectorWrapper::zero(inn),
            activation_function,
        }
    }

    /// Forward pass: `n` becomes `w * input + b`, and `a` becomes the
    /// activation applied to `n` element by element.  Weights, biases,
    /// sensitivities and the pulled-back term are untouched.
    pub fn forward(&mut self, input_src: &VectorWrapper)
        requires
            old(self).wf(),
            input_src.wf(),
            input_src@.len() == old(self).in_dim(),
        ensures
            final(self).wf(),
            final(self).n@ == vadd(mat_vec_mul(old(self).w@, input_src@), old(self).b@),
            final(self).a@ == map_f_view(old(self).activation_function, final(self).n@),
            final(self).w == old(self).w,
            final(self).b == old(self).b,
            final(self).s == old(self).s,
            final(self).wts == old(self).wts,
            final(self).activation_function == old(self).activation_function,
            final(self).in_dim() == old(self).in_dim(),
            final(self).out_dim() == old(self).out_dim(),
    {
        let lin = self.w.mul_vec(input_src);
        self.n = lin.add(&self.b);
        self.a = self.n.map(&self.activation_function);
    }

    /// Backward pass: `s` becomes the activation's derivative at the
    /// cached linear output, applied as a diagonal scaling of the term
    /// propagated from the downstream layer; `wts` becomes `w^T * s`
    /// for the preceding layer.  Weights, biases and the forward
    /// caches are untouched.
    pub fn backward(&mut self, upstream_wts: &VectorWrapper)
        requires
            old(self).wf(),
            upstream_wts.wf(),
            upstream_wts@.len() == old(self).out_dim(),
        ensures
            final(self).wf(),
            final(self).s@ == Seq::new(
                old(self).out_dim() as nat,
                |i: int|
                    fx_mul(
                        old(self).activation_function.spec_df(old(self).n@[i]),
                        upstream_wts@[i],
                    ),
            ),
            final(self).wts@ == mat_vec_mul(
                transpose_view(old(self).w@, old(self).in_dim()),
                final(self).s@,
            ),
            final(self).w == old(self).w,
            final(self).b == old(self).b,
            final(self).n == old(self).n,
            final(self).a == old(self).a,
            final(self).activation_function == old(self).activation_function,
            final(self).in_dim() == old(self).in_dim(),
            final(self).out_dim() == old(self).out_dim(),
    {
        let dfn = self.n.map_deriv(&self.activation_function);
        let scaling = MatrixWrapper::diag(&dfn);
        let s = scaling.mul_vec(upstream_wts);
        proof {
            crate::linalg::vector::lemma_vec_wf_bounded(*upstream_wts);
            assert forall|i: int| 0 <= i < old(self).out_dim() implies crate::linalg::sdot(
                scaling@[i],
                upstream_wts@,
            ) == fx_mul(
                old(self).activation_function.spec_df(old(self).n@[i]),
                upstream_wts@[i],
            ) by {
                crate::linalg::lemma_dot_prefix_onehot_left(
                    scaling@[i],
                    upstream_wts@,
                    old(self).out_dim(),
                    i,
                );
            }
            assert(s@ =~= Seq::new(
                old(self).out_dim() as nat,
                |i: int|
                    fx_mul(
                        old(self).activation_function.spec_df(old(self).n@[i]),
                        upstream_wts@[i],
                    ),
            ));
        }
        self.s = s;
        let wt = self.w.T();
        self.wts = wt.mul_vec(&self.s);
    }

    /// Update step of stochastic gradient descent: the weight gradient
    /// is the outer product of the sensitivity with the previous
    /// layer's activation, the bias gradient is the sensitivity, and
    /// both parameters step against their gradient scaled by the
    /// learning rate.  The caches are untouched.
    pub fn update_params(&mut self, learning_rate: Scalar, a_prev: &VectorWrapper)
        requires
            old(self).wf(),
            learning_rate.wf(),
            a_prev.wf(),
            a_prev@.len() == old(self).in_dim(),
        ensures
            final(self).wf(),
            final(self).w@ == msub(
                old(self).w@,
                mscale(learning_rate@, outer_product(old(self).s@, a_prev@)),
            ),
            final(self).b@ == vsub(old(self).b@, vscale(learning_rate@, old(self).s@)),
            final(self).n == old(self).n,
            final(self).a == old(self).a,
            final(self).s == old(self).s,
            final(self).wts == old(self).wts,
            final(self).activation_function == old(self).activation_function,
            final(self).in_dim() == old(self).in_dim(),
            final(self).out_dim() == old(self).out_dim(),
    {
        let dldw = self.s.outer(a_prev);
        let step_w = dldw.scalar_mul(learning_rate);
        self.w = self.w.sub(&step_w);
        let step_b = self.s.scalar_mul(learning_rate);
        self.b = self.b.sub(&step_b);
    }

    /// The nonlinear output cached by the last forward pass.
    pub fn nonlinear_output(&self) -> (r: &VectorWrapper)
        ensures
            *r == self.a,
    {
        &self.a
    }

    /// The linear output cached by the last forward pass.
    pub fn linear_output(&self) -> (r: &VectorWrapper)
        ensures
            *r == self.n,
    {
        &self.n
    }

    /// Install the sensitivity directly — used by the terminal layer
    /// of a chain, whose sensitivity comes from the loss gradient —
    /// and pull it back through the transposed weights.
    pub fn set_sensitivities(&mut self, s: VectorWrapper)
        requires
            old(self).wf(),
            s.wf(),
            s@.len() == old(self).out_dim(),
        ensures
            final(self).wf(),
            final(self).s == s,
            final(self).wts@ == mat_vec_mul(transpose_view(old(self).w@, old(self).in_dim()), s@),
            final(self).w == old(self).w,
            final(self).b == old(self).b,
            final(self).n == old(self).n,
            final(self).a == old(self).a,
            final(self).activation_function == old(self).activation_function,
            final(self).in_dim() == old(self).in_dim(),
            final(self).out_dim() == old(self).out_dim(),
    {
        let wt = self.w.T();
        self.wts = wt.mul_vec(&s);
        self.s = s;
    }

    /// The sensitivity pulled back for the preceding layer.
    pub fn get_sensitivities(&self) -> (r: &VectorWrapper)
        ensures
            *r == self.wts,
    {
        &self.wts
    }
}

} // verus!
