//! Composition of layers into a trainable chain.
//!
//! A chain of three fully connected layers with compatible adjacent
//! dimensions performs one end-to-end training step: forward pass,
//! loss evaluation, backward error-sensitivity propagation, and
//! gradient-descent parameter update.  The whole step is pinned down by
//! [`chain_step`]: every weight, bias and cache of the stepped chain is
//! stated exactly as a function of the chain before the step.

pub mod connected;

use crate::layer::connected::FullyConnectedLayer;
use crate::linalg::matrix::MatrixWrapper;
use crate::linalg::vector::VectorWrapper;
use crate::linalg::{
    mat_vec_mul, mscale, msub, outer_product, transpose_view, vadd, vscale, vsub,
};
use crate::model::activation::{map_f_view, ActivationFunction};
use crate::model::loss::LossFunction;
use crate::model::ModelOutput;
use crate::scalar::{fx_mul, Scalar};
use vstd::prelude::*;

verus! {

/// The linear output of one layer on a given input.
pub open spec fn layer_n<A: ActivationFunction>(l: FullyConnectedLayer<A>, input: Seq<int>) -> Seq<
    int,
> {
    vadd(mat_vec_mul(l.w@, input), l.b@)
}

/// The nonlinear output of one layer on a given input.
pub open spec fn layer_a<A: ActivationFunction>(l: FullyConnectedLayer<A>, input: Seq<int>) -> Seq<
    int,
> {
    map_f_view(l.activation_function, layer_n(l, input))
}

/// An ordered composition of three fully connected layers with
/// compatible adjacent dimensions.
pub struct LayerChain<A0: ActivationFunction, A1: ActivationFunction, A2: ActivationFunction> {
    pub l0: FullyConnectedLayer<A0>,
    pub l1: FullyConnectedLayer<A1>,
    pub l2: FullyConnectedLayer<A2>,
}

impl<A0: ActivationFunction, A1: ActivationFunction, A2: ActivationFunction> LayerChain<
    A0,
    A1,
    A2,
> {
    /// Well-formedness: each layer is well formed and adjacent
    /// dimensions agree.
    pub open spec fn wf(self) -> bool {
        &&& self.l0.wf()
        &&& self.l1.wf()
        &&& self.l2.wf()
        &&& self.l0.out_dim() == self.l1.in_dim()
        &&& self.l1.out_dim() == self.l2.in_dim()
    }

    /// The chain's input dimension.
    pub open spec fn in_dim(self) -> int {
        self.l0.in_dim()
    }

    /// The chain's output dimension.
    pub open spec fn out_dim(self) -> int {
        self.l2.out_dim()
    }

    /// Forward pass, layer by layer: linear and nonlinear outputs.
    pub open spec fn fwd_n0(self, input: Seq<int>) -> Seq<int> {
        layer_n(self.l0, input)
    }

    /// The first layer's nonlinear output on `input`.
    pub open spec fn fwd_a0(self, input: Seq<int>) -> Seq<int> {
        layer_a(self.l0, input)
    }

    /// The second layer's linear output on `input`.
    pub open spec fn fwd_n1(self, input: Seq<int>) -> Seq<int> {
        layer_n(self.l1, self.fwd_a0(input))
    }

    /// The second layer's nonlinear output on `input`.
    pub open spec fn fwd_a1(self, input: Seq<int>) -> Seq<int> {
        layer_a(self.l1, self.fwd_a0(input))
    }

    /// The terminal layer's linear output on `input`.
    pub open spec fn fwd_n2(self, input: Seq<int>) -> Seq<int> {
        layer_n(self.l2, self.fwd_a1(input))
    }

    /// The terminal layer's nonlinear output on `input`: the network's
    /// output.
    pub open spec fn fwd_a2(self, input: Seq<int>) -> Seq<int> {
        layer_a(self.l2, self.fwd_a1(input))
    }

    /// The terminal sensitivity: the activation derivative at the
    /// terminal linear output, applied as a diagonal scaling of the
    /// loss gradient.
    pub open spec fn bp_s2<LF: LossFunction>(self, lf: LF, input: Seq<int>, target: Seq<int>) -> Seq<
        int,
    > {
        Seq::new(
            self.l2.out_dim() as nat,
            |i: int|
                fx_mul(
                    self.l2.activation_function.spec_df(self.fwd_n2(input)[i]),
                    lf.spec_dl_da(target, self.fwd_a2(input))[i],
                ),
        )
    }

    /// The terminal sensitivity pulled back through the terminal
    /// layer's transposed weights.
    pub open spec fn bp_wts2<LF: LossFunction>(
        self,
        lf: LF,
        input: Seq<int>,
        target: Seq<int>,
    ) -> Seq<int> {
        mat_vec_mul(transpose_view(self.l2.w@, self.l2.in_dim()), self.bp_s2(lf, input, target))
    }

    /// The middle layer's sensitivity.
    pub open spec fn bp_s1<LF: LossFunction>(self, lf: LF, input: Seq<int>, target: Seq<int>) -> Seq<
        int,
    > {
        Seq::new(
            self.l1.out_dim() as nat,
            |i: int|
                fx_mul(
                    self.l1.activation_function.spec_df(self.fwd_n1(input)[i]),
                    self.bp_wts2(lf, input, target)[i],
                ),
        )
    }

    /// The middle layer's sensitivity pulled back through its
    /// transposed weights.
    pub open spec fn bp_wts1<LF: LossFunction>(
        self,
        lf: LF,
        input: Seq<int>,
        target: Seq<int>,
    ) -> Seq<int> {
        mat_vec_mul(transpose_view(self.l1.w@, self.l1.in_dim()), self.bp_s1(lf, input, target))
    }

    /// The first layer's sensitivity.
    pub open spec fn bp_s0<LF: LossFunction>(self, lf: LF, input: Seq<int>, target: Seq<int>) -> Seq<
        int,
    > {
        Seq::new(
            self.l0.out_dim() as nat,
            |i: int|
                fx_mul(
                    self.l0.activation_function.spec_df(self.fwd_n0(input)[i]),
                    self.bp_wts1(lf, input, target)[i],
                ),
        )
    }

    /// The first layer's sensitivity pulled back through its
    /// transposed weights.
    pub open spec fn bp_wts0<LF: LossFunction>(
        self,
        lf: LF,
        input: Seq<int>,
        target: Seq<int>,
    ) -> Seq<int> {
        mat_vec_mul(transpose_view(self.l0.w@, self.l0.in_dim()), self.bp_s0(lf, input, target))
    }
}

/// What one training step does to a chain: every weight matrix steps
/// against the outer product of its layer's sensitivity with the
/// activation fed into that layer, every bias against the sensitivity,
/// and every cache holds exactly the forward and backward quantities of
/// the step, all scaled by the learning rate `lr` in micros.
pub open spec fn chain_step<
    A0: ActivationFunction,
    A1: ActivationFunction,
    A2: ActivationFunction,
    LF: LossFunction,
>(
    pre: LayerChain<A0, A1, A2>,
    post: LayerChain<A0, A1, A2>,
    lf: LF,
    input: Seq<int>,
    target: Seq<int>,
    lr: int,
) -> bool {
    &&& post.l0.w@ == msub(
        pre.l0.w@,
        mscale(lr, outer_product(pre.bp_s0(lf, input, target), input)),
    )
    &&& post.l0.b@ == vsub(pre.l0.b@, vscale(lr, pre.bp_s0(lf, input, target)))
    &&& post.l0.n@ == pre.fwd_n0(input)
    &&& post.l0.a@ == pre.fwd_a0(input)
    &&& post.l0.s@ == pre.bp_s0(lf, input, target)
    &&& post.l0.wts@ == pre.bp_wts0(lf, input, target)
    &&& post.l0.activation_function == pre.l0.activation_function
    &&& post.l1.w@ == msub(
        pre.l1.w@,
        mscale(lr, outer_product(pre.bp_s1(lf, input, target), pre.fwd_a0(input))),
    )
    &&& post.l1.b@ == vsub(pre.l1.b@, vscale(lr, pre.bp_s1(lf, input, target)))
    &&& post.l1.n@ == pre.fwd_n1(input)
    &&& post.l1.a@ == pre.fwd_a1(input)
    &&& post.l1.s@ == pre.bp_s1(lf, input, target)
    &&& post.l1.wts@ == pre.bp_wts1(lf, input, target)
    &&& post.l1.activation_function == pre.l1.activation_function
    &&& post.l2.w@ == msub(
        pre.l2.w@,
        mscale(lr, outer_product(pre.bp_s2(lf, input, target), pre.fwd_a1(input))),
    )
    &&& post.l2.b@ == vsub(pre.l2.b@, vscale(lr, pre.bp_s2(lf, input, target)))
    &&& post.l2.n@ == pre.fwd_n2(input)
    &&& post.l2.a@ == pre.fwd_a2(input)
    &&& post.l2.s@ == pre.bp_s2(lf, input, target)
    &&& post.l2.wts@ == pre.bp_wts2(lf, input, target)
    &&& post.l2.activation_function == pre.l2.activation_function
}

impl<A0: ActivationFunction, A1: ActivationFunction, A2: ActivationFunction> LayerChain<
    A0,
    A1,
    A2,
> {
    /// One end-to-end training step on a single (input, target) pair:
    /// forward pass, loss evaluation, backward pass, parameter update.
    /// [`chain_step`] pins down the stepped chain; the returned
    /// [`ModelOutput`] reports the loss, the error vector and the
    /// network's output, all for the chain as it was before the update.
    pub fn train_single<LF: LossFunction>(
        &mut self,
        input_pair: (&VectorWrapper, &VectorWrapper),
        loss_function: LF,
        learning_rate: Scalar,
    ) -> (r: ModelOutput)
        requires
            old(self).wf(),
            loss_function.wf(),
            learning_rate.wf(),
            input_pair.0.wf(),
            input_pair.1.wf(),
            input_pair.0@.len() == old(self).in_dim(),
            input_pair.1@.len() == old(self).out_dim(),
        ensures
            final(self).wf(),
            final(self).in_dim() == old(self).in_dim(),
            final(self).out_dim() == old(self).out_dim(),
            chain_step(
                *old(self),
                *final(self),
                loss_function,
                input_pair.0@,
                input_pair.1@,
                learning_rate@,
            ),
            r.loss.wf(),
            r.loss@ == loss_function.spec_loss(input_pair.1@, old(self).fwd_a2(input_pair.0@)),
            r.errors.wf(),
            r.errors@ == loss_function.spec_errors(input_pair.1@, old(self).fwd_a2(input_pair.0@)),
            r.output.wf(),
            r.output@ == old(self).fwd_a2(input_pair.0@),
    {
        let (item, target) = input_pair;
        let ghost pre = *self;

        self.l0.forward(item);
        let a0 = self.l0.nonlinear_output();
        self.l1.forward(a0);
        let a1 = self.l1.nonlinear_output();
        self.l2.forward(a1);

        let model_output = self.l2.nonlinear_output().duplicate();
        let (loss, errors) = loss_function.loss(target, &model_output);

        let dfn = self.l2.linear_output().map_deriv(&self.l2.activation_function);
        let da_dn = MatrixWrapper::diag(&dfn);
        let dl_da = loss_function.dl_da(target, &model_output);
        let s_last = da_dn.mul_vec(&dl_da);
        proof {
            crate::linalg::vector::lemma_vec_wf_bounded(dl_da);
            assert forall|i: int| 0 <= i < pre.l2.out_dim() implies crate::linalg::sdot(
                da_dn@[i],
                dl_da@,
            ) == fx_mul(
                pre.l2.activation_function.spec_df(pre.fwd_n2(item@)[i]),
                lf_dl_da_at(loss_function, target@, pre.fwd_a2(item@), i),
            ) by {
                crate::linalg::lemma_dot_prefix_onehot_left(
                    da_dn@[i],
                    dl_da@,
                    pre.l2.out_dim(),
                    i,
                );
            }
            assert(s_last@ =~= pre.bp_s2(loss_function, item@, target@));
        }
        self.l2.set_sensitivities(s_last);
        let w2 = self.l2.get_sensitivities();
        self.l1.backward(w2);
        proof {
            assert(self.l1.s@ =~= pre.bp_s1(loss_function, item@, target@));
        }
        let w1 = self.l1.get_sensitivities();
        self.l0.backward(w1);
        proof {
            assert(self.l0.s@ =~= pre.bp_s0(loss_function, item@, target@));
        }

        self.l0.update_params(learning_rate, item);
        let a0_post = self.l0.nonlinear_output();
        self.l1.update_params(learning_rate, a0_post);
        let a1_post = self.l1.nonlinear_output();
        self.l2.update_params(learning_rate, a1_post);

        ModelOutput { loss, errors, output: model_output }
    }
}

/// Coordinate `i` of a loss gradient, named for readability in proofs.
pub open spec fn lf_dl_da_at<LF: LossFunction>(
    lf: LF,
    target: Seq<int>,
    output: Seq<int>,
    i: int,
) -> int {
    lf.spec_dl_da(target, output)[i]
}

} // verus!
