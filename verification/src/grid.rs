//! Points on a rational grid, the range in which they can be evaluated
//! exactly, and the errors shared by all benchmarks.

use vstd::prelude::*;

verus! {

/// Largest magnitude of a numerator, and largest scale, that the quadratic
/// benchmarks and the affine gradient map accept: ten to the seventeenth.
pub const QUADRATIC_LIMIT: i64 = 100_000_000_000_000_000;

/// Largest magnitude of a numerator, and largest scale, that the valley-shaped
/// family accepts: ten to the seventh.
pub const ROSENBROCK_LIMIT: i64 = 10_000_000;

/// Why an evaluator refused its arguments.
#[derive(Debug, Clone, Copy, PartialEq, Eq, Structural)]
pub enum Error {
    /// The input, or the output buffer, has `actual` entries where the
    /// benchmark has `expected` variables.
    DimensionMismatch { expected: usize, actual: usize },
    /// The scale is not positive, or the scale or a numerator is larger in
    /// magnitude than the benchmark's limit.
    OutOfRange,
}

/// `v` is at most `limit` in magnitude.
pub open spec fn within(v: i64, limit: i64) -> bool {
    -limit <= v <= limit
}

/// The numerators `u` over `scale` form a point that can be evaluated exactly:
/// the scale is positive, and neither it nor a numerator exceeds `limit`.
pub open spec fn on_grid(u: Seq<i64>, scale: i64, limit: i64) -> bool {
    &&& 1 <= scale <= limit
    &&& forall|i: int| 0 <= i < u.len() ==> within(#[trigger] u[i], limit)
}

/// What an evaluator of a benchmark with `dimension` variables answers to the
/// input `u` over `scale` before it computes anything: a wrong length is
/// reported first, then a point off the grid.
pub open spec fn point_status(u: Seq<i64>, scale: i64, dimension: usize, limit: i64) -> Result<
    (),
    Error,
> {
    if u.len() != dimension {
        Err(Error::DimensionMismatch { expected: dimension, actual: u.len() as usize })
    } else if !on_grid(u, scale, limit) {
        Err(Error::OutOfRange)
    } else {
        Ok(())
    }
}

/// What a gradient evaluator answers to the input `u` over `scale` and an
/// output buffer of `out_len` entries: a wrong input length is reported first,
/// then a wrong buffer length, then a point off the grid.
pub open spec fn buffer_status(
    u: Seq<i64>,
    scale: i64,
    out_len: nat,
    dimension: usize,
    limit: i64,
) -> Result<(), Error> {
    if u.len() != dimension {
        Err(Error::DimensionMismatch { expected: dimension, actual: u.len() as usize })
    } else if out_len != dimension {
        Err(Error::DimensionMismatch { expected: dimension, actual: out_len as usize })
    } else if !on_grid(u, scale, limit) {
        Err(Error::OutOfRange)
    } else {
        Ok(())
    }
}

/// The buffer holds exactly the integers `values`, entry by entry.
pub open spec fn holds(buffer: Seq<i128>, values: Seq<int>) -> bool {
    &&& buffer.len() == values.len()
    &&& forall|i: int| 0 <= i < buffer.len() ==> (#[trigger] buffer[i]) as int == values[i]
}

/// Accepts a length that is the benchmark's dimension and reports any other.
pub fn check_dimension(expected: usize, actual: usize) -> (r: Result<(), Error>)
    ensures
        r == (if actual == expected {
            Ok::<(), Error>(())
        } else {
            Err(Error::DimensionMismatch { expected, actual })
        }),
{
    if actual == expected {
        Ok(())
    } else {
        Err(Error::DimensionMismatch { expected, actual })
    }
}

/// Tells whether the numerators `u` over `scale` lie on the grid bounded by
/// `limit`.
pub fn check_range(u: &[i64], scale: i64, limit: i64) -> (r: bool)
    ensures
        r == on_grid(u@, scale, limit),
{
    if scale < 1 || scale > limit {
        return false;
    }
    let mut i: usize = 0;
    while i < u.len()
        invariant
            1 <= limit,
            i <= u@.len(),
            forall|j: int| 0 <= j < i ==> within(#[trigger] u@[j], limit),
        decreases u@.len() - i,
    {
        let v: i64 = u[i];
        if v < -limit || v > limit {
            return false;
        }
        i += 1;
    }
    true
}

/// Checks an input against a benchmark's dimension and range, in that order.
pub fn check_point(u: &[i64], scale: i64, dimension: usize, limit: i64) -> (r: Result<(), Error>)
    ensures
        r == point_status(u@, scale, dimension, limit),
{
    if u.len() != dimension {
        return Err(Error::DimensionMismatch { expected: dimension, actual: u.len() });
    }
    if !check_range(u, scale, limit) {
        return Err(Error::OutOfRange);
    }
    Ok(())
}

/// Checks an input and an output buffer's length against a benchmark's
/// dimension and range: input length, buffer length, range, in that order.
pub fn check_buffers(u: &[i64], scale: i64, out_len: usize, dimension: usize, limit: i64) -> (r:
    Result<(), Error>)
    ensures
        r == buffer_status(u@, scale, out_len as nat, dimension, limit),
{
    if u.len() != dimension {
        return Err(Error::DimensionMismatch { expected: dimension, actual: u.len() });
    }
    if out_len != dimension {
        return Err(Error::DimensionMismatch { expected: dimension, actual: out_len });
    }
    if !check_range(u, scale, limit) {
        return Err(Error::OutOfRange);
    }
    Ok(())
}

} // verus!
