//! The strictly convex quadratic in two variables
//! `f(x) = (x0^2 + 2 x1^2 + 2 x0 x1) / 2 + x0 - x1 + 3`.

use crate::algebra::{
    dot, is_zero, lemma_dot_two, lemma_expand_product, lemma_negate_product,
    lemma_product_bound, lemma_scale_product, lemma_square_positive, lemma_zero_product,
};
use crate::grid::{
    buffer_status, check_buffers, check_point, holds, point_status, Error, QUADRATIC_LIMIT,
};
use vstd::prelude::*;

verus! {

/// Number of variables of the quadratic benchmark.
pub const QUADRATIC_DIMENSION: usize = 2;

/// Scale of the numerators of `SOLUTION_A`: ten to the fourteenth.
pub const SOLUTION_A_SCALE: i64 = 100_000_000_000_000;

/// The recorded solution of the benchmark over the disc of radius one fifth
/// about the origin, to fourteen decimals, as numerators over
/// `SOLUTION_A_SCALE`. The cost's minimiser over the whole plane, `(-3, 2)`,
/// lies outside that disc.
pub const SOLUTION_A: [i64; 2] = [-14_895_971_825_577, 13_345_786_727_339];

/// Numerator of the cost at `(x0 / d, x1 / d)` over the denominator `2 d^2`.
pub open spec fn cost_numerator(x0: int, x1: int, d: int) -> int {
    (x0 * x0) + 2 * (x1 * x1) + 2 * (x0 * x1) + 2 * (d * x0) - 2 * (d * x1) + 6 * (d * d)
}

/// Numerators of the gradient at `(x0 / d, x1 / d)` over the denominator `d`:
/// the gradient is `(x0 + x1 + 1, x0 + 2 x1 - 1)`.
pub open spec fn gradient_numerators(x0: int, x1: int, d: int) -> Seq<int> {
    seq![x0 + x1 + d, x0 + 2 * x1 - d]
}

/// The Hessian `[[1, 1], [1, 2]]` applied to the vector `h`.
pub open spec fn hessian_times(h0: int, h1: int) -> Seq<int> {
    seq![h0 + h1, h0 + 2 * h1]
}

/// The Hessian's quadratic form at `h`.
pub open spec fn curvature(h0: int, h1: int) -> int {
    (h0 * h0) + 2 * (h0 * h1) + 2 * (h1 * h1)
}

/// Writes into `cost` the numerator of the cost at the point `u` over `scale`;
/// the denominator is twice the square of `scale`.
pub fn my_cost(u: &[i64], scale: i64, cost: &mut i128) -> (r: Result<(), Error>)
    ensures
        r == point_status(u@, scale, QUADRATIC_DIMENSION, QUADRATIC_LIMIT),
        r is Ok ==> *final(cost) == cost_numerator(u@[0] as int, u@[1] as int, scale as int),
        r is Err ==> *final(cost) == *old(cost),
{
    match check_point(u, scale, QUADRATIC_DIMENSION, QUADRATIC_LIMIT) {
        Err(e) => {
            return Err(e);
        },
        Ok(()) => {},
    }
    let x0: i128 = u[0] as i128;
    let x1: i128 = u[1] as i128;
    let d: i128 = scale as i128;
    proof {
        let l: int = QUADRATIC_LIMIT as int;
        lemma_product_bound(x0 as int, x0 as int, l, l);
        lemma_product_bound(x1 as int, x1 as int, l, l);
        lemma_product_bound(x0 as int, x1 as int, l, l);
        lemma_product_bound(d as int, x0 as int, l, l);
        lemma_product_bound(d as int, x1 as int, l, l);
        lemma_product_bound(d as int, d as int, l, l);
    }
    let squares: i128 = (x0 * x0) + 2 * (x1 * x1) + 2 * (x0 * x1);
    let linear: i128 = 2 * (d * x0) - 2 * (d * x1);
    *cost = squares + linear + 6 * (d * d);
    Ok(())
}

/// Writes into `grad` the numerators of the gradient at the point `u` over
/// `scale`; the denominator is `scale`.
pub fn my_gradient(u: &[i64], scale: i64, grad: &mut [i128]) -> (r: Result<(), Error>)
    ensures
        r == buffer_status(
            u@,
            scale,
            old(grad)@.len(),
            QUADRATIC_DIMENSION,
            QUADRATIC_LIMIT,
        ),
        r is Ok ==> holds(
            final(grad)@,
            gradient_numerators(u@[0] as int, u@[1] as int, scale as int),
        ),
        r is Err ==> final(grad)@ == old(grad)@,
{
    match check_buffers(u, scale, grad.len(), QUADRATIC_DIMENSION, QUADRATIC_LIMIT) {
        Err(e) => {
            return Err(e);
        },
        Ok(()) => {},
    }
    let x0: i128 = u[0] as i128;
    let x1: i128 = u[1] as i128;
    let d: i128 = scale as i128;
    grad[0] = x0 + x1 + d;
    grad[1] = x0 + 2 * x1 - d;
    Ok(())
}

/// The Hessian's quadratic form is the Hessian applied to `h`, times `h`.
pub proof fn lemma_curvature(h0: int, h1: int)
    ensures
        dot(hessian_times(h0, h1), seq![h0, h1]) == curvature(h0, h1),
{
    lemma_dot_two(hessian_times(h0, h1), seq![h0, h1]);
    lemma_expand_product(h0, h1, h0, 0);
    lemma_expand_product(h0, 2 * h1, h1, 0);
    lemma_scale_product(2, h1, h1);
}

/// The gradient is the derivative of the cost: the cost's increment over a
/// step `h` is the gradient times the step plus half the Hessian's quadratic
/// form, with nothing left over.
pub proof fn lemma_gradient_is_derivative(x0: int, x1: int, h0: int, h1: int, d: int)
    ensures
        cost_numerator(x0 + h0, x1 + h1, d) - cost_numerator(x0, x1, d) == 2 * dot(
            gradient_numerators(x0, x1, d),
            seq![h0, h1],
        ) + curvature(h0, h1),
{
    lemma_dot_two(gradient_numerators(x0, x1, d), seq![h0, h1]);
    lemma_expand_product(x0, h0, x0, h0);
    lemma_expand_product(x1, h1, x1, h1);
    lemma_expand_product(x0, h0, x1, h1);
    lemma_expand_product(d, 0, x0, h0);
    lemma_expand_product(d, 0, x1, h1);
    lemma_expand_product(x0 + x1, d, h0, 0);
    lemma_expand_product(x0, x1, h0, 0);
    lemma_expand_product(x0 + 2 * x1, -d, h1, 0);
    lemma_expand_product(x0, 2 * x1, h1, 0);
    lemma_scale_product(2, x1, h1);
    lemma_scale_product(-1, d, h1);
}

/// Central differences of the cost give the gradient without error: the
/// cost's difference between `x + h` and `x - h` is twice the step `2 h` times
/// the gradient.
pub proof fn lemma_central_difference(x0: int, x1: int, h0: int, h1: int, d: int)
    ensures
        cost_numerator(x0 + h0, x1 + h1, d) - cost_numerator(x0 - h0, x1 - h1, d) == 4 * dot(
            gradient_numerators(x0, x1, d),
            seq![h0, h1],
        ),
{
    lemma_gradient_is_derivative(x0, x1, h0, h1, d);
    lemma_gradient_is_derivative(x0, x1, -h0, -h1, d);
    let g = gradient_numerators(x0, x1, d);
    lemma_dot_two(g, seq![h0, h1]);
    lemma_dot_two(g, seq![-h0, -h1]);
    lemma_negate_product(g[0], h0);
    lemma_negate_product(g[1], h1);
    lemma_negate_product(h0, h0);
    lemma_negate_product(h0, h1);
    lemma_negate_product(h1, h1);
    assert(x0 + -h0 == x0 - h0);
    assert(x1 + -h1 == x1 - h1);
}

/// The gradient's difference between two points is the Hessian applied to
/// their difference: the Hessian is constant.
pub proof fn lemma_gradient_difference(x0: int, x1: int, h0: int, h1: int, d: int)
    ensures
        forall|i: int|
            0 <= i < 2 ==> gradient_numerators(x0 + h0, x1 + h1, d)[i] - gradient_numerators(
                x0,
                x1,
                d,
            )[i] == hessian_times(h0, h1)[i],
{
}

/// The Hessian is symmetric.
pub proof fn lemma_hessian_symmetric(h0: int, h1: int, k0: int, k1: int)
    ensures
        dot(hessian_times(h0, h1), seq![k0, k1]) == dot(hessian_times(k0, k1), seq![h0, h1]),
{
    lemma_dot_two(hessian_times(h0, h1), seq![k0, k1]);
    lemma_dot_two(hessian_times(k0, k1), seq![h0, h1]);
    lemma_expand_product(h0, h1, k0, 0);
    lemma_expand_product(h0, 2 * h1, k1, 0);
    lemma_expand_product(k0, k1, h0, 0);
    lemma_expand_product(k0, 2 * k1, h1, 0);
    lemma_scale_product(2, h1, k1);
    lemma_scale_product(2, k1, h1);
}

/// The Hessian is positive definite: its quadratic form is positive on every
/// vector but zero. With its symmetry this makes the cost strictly convex.
pub proof fn lemma_hessian_positive_definite(h0: int, h1: int)
    requires
        h0 != 0 || h1 != 0,
    ensures
        dot(hessian_times(h0, h1), seq![h0, h1]) > 0,
{
    lemma_curvature(h0, h1);
    lemma_expand_product(h0, h1, h0, h1);
    lemma_square_positive(h0 + h1);
    lemma_square_positive(h1);
    assert(curvature(h0, h1) == (h0 + h1) * (h0 + h1) + h1 * h1);
}

/// The gradient vanishes at the point `(-3, 2)` and nowhere else.
pub proof fn lemma_stationary_point(x0: int, x1: int, d: int)
    ensures
        is_zero(gradient_numerators(x0, x1, d)) <==> (x0 == -3 * d && x1 == 2 * d),
{
    let g = gradient_numerators(x0, x1, d);
    assert(is_zero(g) ==> g[0] == 0 && g[1] == 0);
}

/// The stationary point is the global minimiser, where the cost is one half,
/// and the cost is larger at every other point.
pub proof fn lemma_global_minimum(x0: int, x1: int, d: int)
    ensures
        cost_numerator(-3 * d, 2 * d, d) == d * d,
        cost_numerator(x0, x1, d) >= d * d,
        cost_numerator(x0, x1, d) == d * d ==> (x0 == -3 * d && x1 == 2 * d),
{
    let h0 = x0 + 3 * d;
    let h1 = x1 - 2 * d;
    let g = gradient_numerators(-3 * d, 2 * d, d);
    lemma_gradient_is_derivative(-3 * d, 2 * d, h0, h1, d);
    lemma_dot_two(g, seq![h0, h1]);
    lemma_zero_product(g[0], h0);
    lemma_zero_product(g[1], h1);
    assert(-3 * d + h0 == x0);
    assert(2 * d + h1 == x1);
    if h0 != 0 || h1 != 0 {
        lemma_hessian_positive_definite(h0, h1);
        lemma_curvature(h0, h1);
    } else {
        lemma_zero_product(h0, h0);
        lemma_zero_product(h0, h1);
        lemma_zero_product(h1, h1);
    }
    lemma_scale_product(-3, d, -3 * d);
    lemma_scale_product(-3, d, d);
    lemma_scale_product(2, d, 2 * d);
    lemma_scale_product(2, d, d);
    lemma_scale_product(-3, d, 2 * d);
}

/// The recorded solution lies on the circle of radius one fifth, and the
/// gradient there points to the centre, both to thirteen decimals: it meets
/// the first-order conditions of the minimum over that disc. The gradient
/// does not vanish there.
pub proof fn lemma_recorded_solution()
    ensures
        ({
            let x0 = SOLUTION_A@[0] as int;
            let x1 = SOLUTION_A@[1] as int;
            let d = SOLUTION_A_SCALE as int;
            let g = gradient_numerators(x0, x1, d);
            &&& -10 * d <= 25 * (x0 * x0 + x1 * x1) - d * d <= 10 * d
            &&& g[0] * x0 + g[1] * x1 < 0
            &&& -10 * d <= g[0] * x1 - g[1] * x0 <= 10 * d
            &&& !is_zero(g)
        }),
{
    let x0 = SOLUTION_A@[0] as int;
    let x1 = SOLUTION_A@[1] as int;
    let d = SOLUTION_A_SCALE as int;
    let g = gradient_numerators(x0, x1, d);
    assert(x0 == -14_895_971_825_577);
    assert(x1 == 13_345_786_727_339);
    assert(g[0] == 98_449_814_901_762);
    assert(g[1] == -88_204_398_370_899);
}

} // verus!
