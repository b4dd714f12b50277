use vstd::prelude::*;

use crate::ratio::Ratio;

verus! {

/// Stateless holder of the exact scalar operations of the engine.
///
/// The transcendental activations (sigmoid, tanh, softmax) and the
/// logarithmic losses have no exact finite representation and belong to the
/// floating-point engine; the piecewise-linear ones are exact on rationals
/// and are defined here.
pub struct MLOps;

impl MLOps {
    /// `relu(z) = max(0, z)`, exact on rationals.
    pub fn relu(&self, z: Ratio) -> (r: Ratio)
        requires
            z.wf(),
        ensures
            r.wf(),
            z.num >= 0 ==> r == z,
            z.num < 0 ==> r == (Ratio { num: 0, den: 1 }),
    {
        if z.num >= 0 {
            z
        } else {
            Ratio { num: 0, den: 1 }
        }
    }

    /// `relu'(z) = 1` when `z >= 0`, else `0`.
    pub fn relu_derivative(&self, z: Ratio) -> (r: Ratio)
        requires
            z.wf(),
        ensures
            r.wf(),
            z.num >= 0 ==> r == (Ratio { num: 1, den: 1 }),
            z.num < 0 ==> r == (Ratio { num: 0, den: 1 }),
    {
        if z.num >= 0 {
            Ratio { num: 1, den: 1 }
        } else {
            Ratio { num: 0, den: 1 }
        }
    }
}

} // verus!
