//! Small arithmetic for the statistics of timing runs.

use vstd::prelude::*;
use vstd::std_specs::ops::MulSpec;

verus! {

/// The square of `x`, for any type that can be multiplied by itself.
pub fn square<T: core::ops::Mul<T> + Copy>(x: T) -> (r: <T as core::ops::Mul<T>>::Output)
    requires
        x.mul_req(x),
    ensures
        T::obeys_mul_spec() ==> r == x.mul_spec(x),
{
    x * x
}

} // verus!
