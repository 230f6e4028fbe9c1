//! A cost and a gradient that compute nothing, for exercising a solver's
//! calling convention apart from any arithmetic.

use crate::grid::Error;
use vstd::prelude::*;

verus! {

/// Accepts any input and succeeds, leaving `cost` as the caller set it.
pub fn void_cost(u: &[i64], scale: i64, cost: &mut i128) -> (r: Result<(), Error>)
    ensures
        r == Ok::<(), Error>(()),
        *final(cost) == *old(cost),
{
    Ok(())
}

/// Accepts any input and any buffer and succeeds, leaving `grad` as the
/// caller set it.
pub fn void_gradient(u: &[i64], scale: i64, grad: &mut [i128]) -> (r: Result<(), Error>)
    ensures
        r == Ok::<(), Error>(()),
        final(grad)@ == old(grad)@,
{
    Ok(())
}

} // verus!
