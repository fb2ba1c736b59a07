//! Pluggable scalar nonlinearities: a value function and its
//! derivative, both stated exactly over micro counts.
//!
//! The elementwise `map` of a vector under an activation lives here
//! too: it is variant-aware in the sense that any storage variant can
//! be mapped, and the result densifies, since the mapped function need
//! not preserve zero.

use crate::linalg::vector::{scalars_view, DenseVector, VectorKind, VectorWrapper};
use crate::scalar::{fx_mul, Scalar, SCALE};
use vstd::prelude::*;

verus! {

/// A scalar-to-scalar nonlinearity together with its derivative.
/// `spec_f` and `spec_df` are the mathematical statements both
/// executable methods are held to, micro count in, micro count out.
pub trait ActivationFunction: Sized {
    /// Representation invariant of the activation's own parameters.
    spec fn wf(self) -> bool;

    /// The value of the nonlinearity at `x` micros.
    spec fn spec_f(self, x: int) -> int;

    /// The derivative of the nonlinearity at `x` micros.
    spec fn spec_df(self, x: int) -> int;

    /// Apply the nonlinearity to one scalar.
    fn f(&self, x: Scalar) -> (r: Scalar)
        requires
            self.wf(),
            x.wf(),
        ensures
            r.wf(),
            r@ == self.spec_f(x@),
    ;

    /// Apply the nonlinearity's derivative to one scalar.
    fn df(&self, x: Scalar) -> (r: Scalar)
        requires
            self.wf(),
            x.wf(),
        ensures
            r.wf(),
            r@ == self.spec_df(x@),
    ;
}

/// The image of a vector model under an activation's value function.
pub open spec fn map_f_view<A: ActivationFunction>(act: A, v: Seq<int>) -> Seq<int> {
    Seq::new(v.len(), |i: int| act.spec_f(v[i]))
}

/// The image of a vector model under an activation's derivative.
pub open spec fn map_df_view<A: ActivationFunction>(act: A, v: Seq<int>) -> Seq<int> {
    Seq::new(v.len(), |i: int| act.spec_df(v[i]))
}

impl VectorWrapper {
    /// Apply an activation's value function to every coordinate.  The
    /// result is dense whatever the operand's variant: the function
    /// need not send zero to zero, so no compact variant can hold it.
    pub fn map<A: ActivationFunction>(&self, act: &A) -> (r: VectorWrapper)
        requires
            self.wf(),
            act.wf(),
        ensures
            r.wf(),
            r@ == map_f_view(*act, self@),
            r.kind() == VectorKind::Dense,
    {
        let d = self.len();
        let mut elems: Vec<Scalar> = Vec::new();
        for i in 0..d
            invariant
                self.wf(),
                act.wf(),
                d == self@.len(),
                elems@.len() == i,
                forall|j: int|
                    0 <= j < i ==> (#[trigger] elems@[j]).wf() && elems@[j]@ == act.spec_f(
                        self@[j],
                    ),
        {
            elems.push(act.f(self.index(i)));
        }
        proof {
            assert(scalars_view(elems@) =~= map_f_view(*act, self@));
        }
        VectorWrapper::Dense(DenseVector { elems })
    }

    /// Apply an activation's derivative to every coordinate; densifies
    /// like [`VectorWrapper::map`].
    pub fn map_deriv<A: ActivationFunction>(&self, act: &A) -> (r: VectorWrapper)
        requires
            self.wf(),
            act.wf(),
        ensures
            r.wf(),
            r@ == map_df_view(*act, self@),
            r.kind() == VectorKind::Dense,
    {
        let d = self.len();
        let mut elems: Vec<Scalar> = Vec::new();
        for i in 0..d
            invariant
                self.wf(),
                act.wf(),
                d == self@.len(),
                elems@.len() == i,
                forall|j: int|
                    0 <= j < i ==> (#[trigger] elems@[j]).wf() && elems@[j]@ == act.spec_df(
                        self@[j],
                    ),
        {
            elems.push(act.df(self.index(i)));
        }
        proof {
            assert(scalars_view(elems@) =~= map_df_view(*act, self@));
        }
        VectorWrapper::Dense(DenseVector { elems })
    }
}

/// The piecewise-linear identity: value `x`, derivative one.
pub struct Identity {}

impl ActivationFunction for Identity {
    open spec fn wf(self) -> bool {
        true
    }

    open spec fn spec_f(self, x: int) -> int {
        x
    }

    open spec fn spec_df(self, x: int) -> int {
        SCALE as int
    }

    fn f(&self, x: Scalar) -> (r: Scalar) {
        x
    }

    fn df(&self, x: Scalar) -> (r: Scalar) {
        Scalar::one()
    }
}

/// The leaky rectifier: slope `slope_gte0` for non-negative inputs and
/// slope `slope_lt0` for negative ones; the derivative is the
/// corresponding slope.
pub struct LeakyReLU {
    pub slope_lt0: Scalar,
    pub slope_gte0: Scalar,
}

impl ActivationFunction for LeakyReLU {
    open spec fn wf(self) -> bool {
        self.slope_lt0.wf() && self.slope_gte0.wf()
    }

    open spec fn spec_f(self, x: int) -> int {
        if x < 0 {
            fx_mul(self.slope_lt0@, x)
        } else {
            fx_mul(self.slope_gte0@, x)
        }
    }

    open spec fn spec_df(self, x: int) -> int {
        if x < 0 {
            self.slope_lt0@
        } else {
            self.slope_gte0@
        }
    }

    fn f(&self, x: Scalar) -> (r: Scalar) {
        if x.is_negative() {
            self.slope_lt0.mul(x)
        } else {
            self.slope_gte0.mul(x)
        }
    }

    fn df(&self, x: Scalar) -> (r: Scalar) {
        if x.is_negative() {
            self.slope_lt0
        } else {
            self.slope_gte0
        }
    }
}

/// The rectifier: slope `slope_gte0` for non-negative inputs, zero
/// below; the derivative is the corresponding slope.
pub struct ReLU {
    pub slope_gte0: Scalar,
}

impl ActivationFunction for ReLU {
    open spec fn wf(self) -> bool {
        self.slope_gte0.wf()
    }

    open spec fn spec_f(self, x: int) -> int {
        if x < 0 {
            0
        } else {
            fx_mul(self.slope_gte0@, x)
        }
    }

    open spec fn spec_df(self, x: int) -> int {
        if x < 0 {
            0
        } else {
            self.slope_gte0@
        }
    }

    fn f(&self, x: Scalar) -> (r: Scalar) {
        if x.is_negative() {
            Scalar::zero()
        } else {
            self.slope_gte0.mul(x)
        }
    }

    fn df(&self, x: Scalar) -> (r: Scalar) {
        if x.is_negative() {
            Scalar::zero()
        } else {
            self.slope_gte0
        }
    }
}

} // verus!
