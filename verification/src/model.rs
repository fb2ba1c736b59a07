//! The trained model: a three-layer chain paired with a loss function,
//! together with the caches of the last training step.

pub mod activation;
pub mod loss;
pub mod weights;

use crate::layer::{chain_step, LayerChain};
use crate::linalg::vector::VectorWrapper;
use crate::model::activation::ActivationFunction;
use crate::model::loss::LossFunction;
use crate::scalar::Scalar;
use vstd::prelude::*;

verus! {

/// The learning rate one model step uses, in micros: one hundredth of
/// a logical unit.
pub const DEFAULT_LEARNING_RATE_MICROS: i64 = 10_000;

/// What one training step reports: the scalar loss, the error vector,
/// and the network's output, all for the model as it stood before the
/// parameter update.
pub struct ModelOutput {
    pub loss: Scalar,
    pub errors: VectorWrapper,
    pub output: VectorWrapper,
}

/// A model: a chain of three layers, a loss function, and the cached
/// input, output, errors and loss of the last training step.
pub struct Model<
    A0: ActivationFunction,
    A1: ActivationFunction,
    A2: ActivationFunction,
    LF: LossFunction,
> {
    pub layers: LayerChain<A0, A1, A2>,
    pub last_input: VectorWrapper,
    pub last_output: VectorWrapper,
    pub errors: VectorWrapper,
    pub loss: Scalar,
    pub loss_function: LF,
}

impl<
    A0: ActivationFunction,
    A1: ActivationFunction,
    A2: ActivationFunction,
    LF: LossFunction,
> Model<A0, A1, A2, LF> {
    /// Well-formedness: the chain, the loss and all caches are well formed.
    pub open spec fn wf(self) -> bool {
        &&& self.layers.wf()
        &&& self.loss_function.wf()
        &&& self.last_input.wf()
        &&& self.last_output.wf()
        &&& self.errors.wf()
        &&& self.loss.wf()
    }

    /// A fresh model over a chain and a loss, with zeroed caches.
    pub fn new(layers: LayerChain<A0, A1, A2>, loss_function: LF) -> (r: Model<A0, A1, A2, LF>)
        requires
            layers.wf(),
            loss_function.wf(),
        ensures
            r.wf(),
            r.layers == layers,
            r.loss_function == loss_function,
            r.loss@ == 0,
            r.last_input@.len() == layers.in_dim(),
            r.last_output@.len() == layers.out_dim(),
            r.errors@.len() == layers.out_dim(),
    {
        let in_dim = layers.l0.w.cols();
        let out_dim = layers.l2.w.rows();
        Model {
            layers,
            last_input: VectorWrapper::zero(in_dim),
            last_output: VectorWrapper::zero(out_dim),
            errors: VectorWrapper::zero(out_dim),
            loss: Scalar::zero(),
            loss_function,
        }
    }

    /// One training step on a single (input, target) pair with the
    /// default learning rate: the chain steps as [`chain_step`] states,
    /// and the model's caches record the step's input, output, errors
    /// and loss.
    pub fn run_once(&mut self, input: &VectorWrapper, target: &VectorWrapper)
        requires
            old(self).wf(),
            input.wf(),
            target.wf(),
            input@.len() == old(self).layers.in_dim(),
            target@.len() == old(self).layers.out_dim(),
        ensures
            final(self).wf(),
            chain_step(
                old(self).layers,
                final(self).layers,
                old(self).loss_function,
                input@,
                target@,
                DEFAULT_LEARNING_RATE_MICROS as int,
            ),
            final(self).loss@ == old(self).loss_function.spec_loss(
                target@,
                old(self).layers.fwd_a2(input@),
            ),
            final(self).errors@ == old(self).loss_function.spec_errors(
                target@,
                old(self).layers.fwd_a2(input@),
            ),
            final(self).last_output@ == old(self).layers.fwd_a2(input@),
            final(self).last_input@ == input@,
            final(self).loss_function == old(self).loss_function,
            final(self).layers.in_dim() == old(self).layers.in_dim(),
            final(self).layers.out_dim() == old(self).layers.out_dim(),
    {
        let lf = self.loss_function;
        let lr = Scalar::from_micros(DEFAULT_LEARNING_RATE_MICROS);
        let out = self.layers.train_single((input, target), lf, lr);
        self.last_input = input.duplicate();
        self.last_output = out.output;
        self.loss = out.loss;
        self.errors = out.errors;
    }

    /// One training step on a single (input, target) pair; the same
    /// step as [`Model::run_once`].
    pub fn train_single(&mut self, input: &VectorWrapper, target: &VectorWrapper)
        requires
            old(self).wf(),
            input.wf(),
            target.wf(),
            input@.len() == old(self).layers.in_dim(),
            target@.len() == old(self).layers.out_dim(),
        ensures
            final(self).wf(),
            chain_step(
                old(self).layers,
                final(self).layers,
                old(self).loss_function,
                input@,
                target@,
                DEFAULT_LEARNING_RATE_MICROS as int,
            ),
            final(self).loss@ == old(self).loss_function.spec_loss(
                target@,
                old(self).layers.fwd_a2(input@),
            ),
            final(self).errors@ == old(self).loss_function.spec_errors(
                target@,
                old(self).layers.fwd_a2(input@),
            ),
            final(self).last_output@ == old(self).layers.fwd_a2(input@),
            final(self).last_input@ == input@,
            final(self).loss_function == old(self).loss_function,
            final(self).layers.in_dim() == old(self).layers.in_dim(),
            final(self).layers.out_dim() == old(self).layers.out_dim(),
    {
        self.run_once(input, target);
    }
}

} // verus!
