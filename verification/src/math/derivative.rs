//! Differentiation as an operation on values.

use vstd::prelude::*;

verus! {

/// A value that has a derivative.
pub trait Differentiable {
    /// The type of the derivative.
    type Output;

    /// The derivative of the value.
    fn derivative(&self) -> Self::Output;
}

} // verus!
