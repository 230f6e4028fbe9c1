//! The ill-conditioned convex quadratic in three variables
//! `f(x) = 2 x0^2 + 5.5 x1^2 + 500.5 x2^2 + 5 x0 x1 + 25 x0 x2 + 5 x1 x2
//! + x0 + x1 + x2`, whose Hessian has eigenvalues three orders of magnitude
//! apart.

use crate::algebra::{
    dot, is_zero, lemma_dot_three, lemma_expand_product, lemma_form_three_times,
    lemma_negate_product, lemma_product_bound, lemma_scale_product, lemma_square_of_form,
    lemma_square_positive, lemma_zero_product,
};
use crate::grid::{
    buffer_status, check_buffers, check_point, holds, point_status, Error, QUADRATIC_LIMIT,
};
use vstd::prelude::*;

verus! {

/// Number of variables of the ill-conditioned quadratic benchmark.
pub const HARD_QUADRATIC_DIMENSION: usize = 3;

/// The least whole Lipschitz modulus of the gradient: the Hessian's largest
/// eigenvalue lies between `1001` and this.
pub const HARD_QUADRATIC_LIPSCHITZ: i64 = 1002;

/// Scale of the numerators of `SOLUTION_HARD`: ten to the fifteenth.
pub const SOLUTION_HARD_SCALE: i64 = 1_000_000_000_000_000;

/// The recorded solution of the benchmark over the ball of radius one
/// twentieth about the origin, to fifteen decimals, as numerators over
/// `SOLUTION_HARD_SCALE`. The cost's minimiser over the whole space lies
/// outside that ball.
pub const SOLUTION_HARD: [i64; 3] = [-41_123_164_672_281, -28_440_417_469_206, 167_276_757_790];

/// Numerator of the cost at `(x0 / d, x1 / d, x2 / d)` over the denominator
/// `2 d^2`.
pub open spec fn cost_numerator(x0: int, x1: int, x2: int, d: int) -> int {
    4 * (x0 * x0) + 11 * (x1 * x1) + 1001 * (x2 * x2) + 10 * (x0 * x1) + 50 * (x0 * x2) + 10 * (x1
        * x2) + 2 * (d * x0) + 2 * (d * x1) + 2 * (d * x2)
}

/// Numerators of the gradient at `(x0 / d, x1 / d, x2 / d)` over the
/// denominator `d`: the gradient is the Hessian times `x` plus `(1, 1, 1)`.
pub open spec fn gradient_numerators(x0: int, x1: int, x2: int, d: int) -> Seq<int> {
    seq![
        4 * x0 + 5 * x1 + 25 * x2 + d,
        5 * x0 + 11 * x1 + 5 * x2 + d,
        25 * x0 + 5 * x1 + 1001 * x2 + d,
    ]
}

/// The Hessian `[[4, 5, 25], [5, 11, 5], [25, 5, 1001]]` applied to the
/// vector `h`.
pub open spec fn hessian_times(h0: int, h1: int, h2: int) -> Seq<int> {
    seq![4 * h0 + 5 * h1 + 25 * h2, 5 * h0 + 11 * h1 + 5 * h2, 25 * h0 + 5 * h1 + 1001 * h2]
}

/// The Hessian's quadratic form at `h`.
pub open spec fn curvature(h0: int, h1: int, h2: int) -> int {
    4 * (h0 * h0) + 11 * (h1 * h1) + 1001 * (h2 * h2) + 10 * (h0 * h1) + 50 * (h0 * h2) + 10 * (h1
        * h2)
}

/// Writes into `cost` the numerator of the cost at the point `u` over `scale`;
/// the denominator is twice the square of `scale`.
pub fn hard_quadratic_cost(u: &[i64], scale: i64, cost: &mut i128) -> (r: Result<(), Error>)
    ensures
        r == point_status(u@, scale, HARD_QUADRATIC_DIMENSION, QUADRATIC_LIMIT),
        r is Ok ==> *final(cost) == cost_numerator(
            u@[0] as int,
            u@[1] as int,
            u@[2] as int,
            scale as int,
        ),
        r is Err ==> *final(cost) == *old(cost),
{
    match check_point(u, scale, HARD_QUADRATIC_DIMENSION, QUADRATIC_LIMIT) {
        Err(e) => {
            return Err(e);
        },
        Ok(()) => {},
    }
    let x0: i128 = u[0] as i128;
    let x1: i128 = u[1] as i128;
    let x2: i128 = u[2] as i128;
    let d: i128 = scale as i128;
    proof {
        let l: int = QUADRATIC_LIMIT as int;
        lemma_product_bound(x0 as int, x0 as int, l, l);
        lemma_product_bound(x1 as int, x1 as int, l, l);
        lemma_product_bound(x2 as int, x2 as int, l, l);
        lemma_product_bound(x0 as int, x1 as int, l, l);
        lemma_product_bound(x0 as int, x2 as int, l, l);
        lemma_product_bound(x1 as int, x2 as int, l, l);
        lemma_product_bound(d as int, x0 as int, l, l);
        lemma_product_bound(d as int, x1 as int, l, l);
        lemma_product_bound(d as int, x2 as int, l, l);
    }
    let squares: i128 = 4 * (x0 * x0) + 11 * (x1 * x1) + 1001 * (x2 * x2);
    let mixed: i128 = 10 * (x0 * x1) + 50 * (x0 * x2) + 10 * (x1 * x2);
    let linear: i128 = 2 * (d * x0) + 2 * (d * x1) + 2 * (d * x2);
    *cost = squares + mixed + linear;
    Ok(())
}

/// Writes into `grad` the numerators of the gradient at the point `u` over
/// `scale`; the denominator is `scale`.
pub fn hard_quadratic_gradient(u: &[i64], scale: i64, grad: &mut [i128]) -> (r: Result<(), Error>)
    ensures
        r == buffer_status(
            u@,
            scale,
            old(grad)@.len(),
            HARD_QUADRATIC_DIMENSION,
            QUADRATIC_LIMIT,
        ),
        r is Ok ==> holds(
            final(grad)@,
            gradient_numerators(u@[0] as int, u@[1] as int, u@[2] as int, scale as int),
        ),
        r is Err ==> final(grad)@ == old(grad)@,
{
    match check_buffers(u, scale, grad.len(), HARD_QUADRATIC_DIMENSION, QUADRATIC_LIMIT) {
        Err(e) => {
            return Err(e);
        },
        Ok(()) => {},
    }
    let x0: i128 = u[0] as i128;
    let x1: i128 = u[1] as i128;
    let x2: i128 = u[2] as i128;
    let d: i128 = scale as i128;
    grad[0] = 4 * x0 + 5 * x1 + 25 * x2 + d;
    grad[1] = 5 * x0 + 11 * x1 + 5 * x2 + d;
    grad[2] = 25 * x0 + 5 * x1 + 1001 * x2 + d;
    Ok(())
}

/// The Hessian's quadratic form is the Hessian applied to `h`, times `h`.
pub proof fn lemma_curvature(h0: int, h1: int, h2: int)
    ensures
        dot(hessian_times(h0, h1, h2), seq![h0, h1, h2]) == curvature(h0, h1, h2),
{
    lemma_dot_three(hessian_times(h0, h1, h2), seq![h0, h1, h2]);
    lemma_form_three_times(4, h0, 5, h1, 25, h2, 0, h0);
    lemma_form_three_times(5, h0, 11, h1, 5, h2, 0, h1);
    lemma_form_three_times(25, h0, 5, h1, 1001, h2, 0, h2);
    lemma_scale_product(1, h0, h1);
    lemma_scale_product(1, h0, h2);
    lemma_scale_product(1, h1, h2);
}

/// The gradient is the derivative of the cost: the cost's increment over a
/// step `h` is the gradient times the step plus half the Hessian's quadratic
/// form, with nothing left over.
pub proof fn lemma_gradient_is_derivative(
    x0: int,
    x1: int,
    x2: int,
    h0: int,
    h1: int,
    h2: int,
    d: int,
)
    ensures
        cost_numerator(x0 + h0, x1 + h1, x2 + h2, d) - cost_numerator(x0, x1, x2, d) == 2 * dot(
            gradient_numerators(x0, x1, x2, d),
            seq![h0, h1, h2],
        ) + curvature(h0, h1, h2),
{
    lemma_dot_three(gradient_numerators(x0, x1, x2, d), seq![h0, h1, h2]);
    lemma_form_three_times(4, x0, 5, x1, 25, x2, d, h0);
    lemma_form_three_times(5, x0, 11, x1, 5, x2, d, h1);
    lemma_form_three_times(25, x0, 5, x1, 1001, x2, d, h2);
    lemma_expand_product(x0, h0, x0, h0);
    lemma_expand_product(x1, h1, x1, h1);
    lemma_expand_product(x2, h2, x2, h2);
    lemma_expand_product(x0, h0, x1, h1);
    lemma_expand_product(x0, h0, x2, h2);
    lemma_expand_product(x1, h1, x2, h2);
    lemma_expand_product(d, 0, x0, h0);
    lemma_expand_product(d, 0, x1, h1);
    lemma_expand_product(d, 0, x2, h2);
}

/// Central differences of the cost give the gradient without error: the
/// cost's difference between `x + h` and `x - h` is twice the step `2 h` times
/// the gradient.
pub proof fn lemma_central_difference(
    x0: int,
    x1: int,
    x2: int,
    h0: int,
    h1: int,
    h2: int,
    d: int,
)
    ensures
        cost_numerator(x0 + h0, x1 + h1, x2 + h2, d) - cost_numerator(x0 - h0, x1 - h1, x2 - h2, d)
            == 4 * dot(gradient_numerators(x0, x1, x2, d), seq![h0, h1, h2]),
{
    lemma_gradient_is_derivative(x0, x1, x2, h0, h1, h2, d);
    lemma_gradient_is_derivative(x0, x1, x2, -h0, -h1, -h2, d);
    let g = gradient_numerators(x0, x1, x2, d);
    lemma_dot_three(g, seq![h0, h1, h2]);
    lemma_dot_three(g, seq![-h0, -h1, -h2]);
    lemma_negate_product(g[0], h0);
    lemma_negate_product(g[1], h1);
    lemma_negate_product(g[2], h2);
    lemma_negate_product(h0, h0);
    lemma_negate_product(h1, h1);
    lemma_negate_product(h2, h2);
    lemma_negate_product(h0, h1);
    lemma_negate_product(h0, h2);
    lemma_negate_product(h1, h2);
    assert(x0 + -h0 == x0 - h0);
    assert(x1 + -h1 == x1 - h1);
    assert(x2 + -h2 == x2 - h2);
}

/// The gradient's difference between two points is the Hessian applied to
/// their difference: the Hessian is constant.
pub proof fn lemma_gradient_difference(
    x0: int,
    x1: int,
    x2: int,
    h0: int,
    h1: int,
    h2: int,
    d: int,
)
    ensures
        forall|i: int|
            0 <= i < 3 ==> gradient_numerators(x0 + h0, x1 + h1, x2 + h2, d)[i]
                - gradient_numerators(x0, x1, x2, d)[i] == hessian_times(h0, h1, h2)[i],
{
}

/// The Hessian is symmetric.
pub proof fn lemma_hessian_symmetric(h0: int, h1: int, h2: int, k0: int, k1: int, k2: int)
    ensures
        dot(hessian_times(h0, h1, h2), seq![k0, k1, k2]) == dot(
            hessian_times(k0, k1, k2),
            seq![h0, h1, h2],
        ),
{
    lemma_dot_three(hessian_times(h0, h1, h2), seq![k0, k1, k2]);
    lemma_dot_three(hessian_times(k0, k1, k2), seq![h0, h1, h2]);
    lemma_form_three_times(4, h0, 5, h1, 25, h2, 0, k0);
    lemma_form_three_times(5, h0, 11, h1, 5, h2, 0, k1);
    lemma_form_three_times(25, h0, 5, h1, 1001, h2, 0, k2);
    lemma_form_three_times(4, k0, 5, k1, 25, k2, 0, h0);
    lemma_form_three_times(5, k0, 11, k1, 5, k2, 0, h1);
    lemma_form_three_times(25, k0, 5, k1, 1001, k2, 0, h2);
    lemma_scale_product(1, h0, k0);
    lemma_scale_product(1, h0, k1);
    lemma_scale_product(1, h0, k2);
    lemma_scale_product(1, h1, k0);
    lemma_scale_product(1, h1, k1);
    lemma_scale_product(1, h1, k2);
    lemma_scale_product(1, h2, k0);
    lemma_scale_product(1, h2, k1);
    lemma_scale_product(1, h2, k2);
}

/// The Hessian is positive definite: its quadratic form is positive on every
/// vector but zero. With its symmetry this makes the cost strictly convex.
///
/// Nineteen times four times the form is a sum of three squares,
/// `19 (4 h0 + 5 h1 + 25 h2)^2 + (19 h1 - 105 h2)^2 + 53176 h2^2`.
pub proof fn lemma_hessian_positive_definite(h0: int, h1: int, h2: int)
    requires
        h0 != 0 || h1 != 0 || h2 != 0,
    ensures
        dot(hessian_times(h0, h1, h2), seq![h0, h1, h2]) > 0,
{
    lemma_curvature(h0, h1, h2);
    let s = 4 * h0 + 5 * h1 + 25 * h2;
    let t = 19 * h1 - 105 * h2;
    lemma_form_three_times(4, h0, 5, h1, 25, h2, 0, s);
    lemma_scale_product(1, h0, s);
    lemma_scale_product(1, h1, s);
    lemma_scale_product(1, h2, s);
    lemma_form_three_times(4, h0, 5, h1, 25, h2, 0, h0);
    lemma_form_three_times(4, h0, 5, h1, 25, h2, 0, h1);
    lemma_form_three_times(4, h0, 5, h1, 25, h2, 0, h2);
    lemma_form_three_times(19, h1, -105, h2, 0, 0, 0, t);
    lemma_scale_product(1, h1, t);
    lemma_scale_product(1, h2, t);
    lemma_form_three_times(19, h1, -105, h2, 0, 0, 0, h1);
    lemma_form_three_times(19, h1, -105, h2, 0, 0, 0, h2);
    lemma_scale_product(1, h0, h1);
    lemma_scale_product(1, h0, h2);
    lemma_scale_product(1, h1, h2);
    assert(76 * curvature(h0, h1, h2) == 19 * (s * s) + t * t + 53176 * (h2 * h2));
    lemma_square_positive(s);
    lemma_square_positive(t);
    lemma_square_positive(h2);
}

/// The gradient vanishes at the point `(-2928, 698, 63) / 6647` and nowhere
/// else.
pub proof fn lemma_stationary_point(x0: int, x1: int, x2: int, d: int)
    ensures
        is_zero(gradient_numerators(x0, x1, x2, d)) <==> (6647 * x0 == -2928 * d && 6647 * x1
            == 698 * d && 6647 * x2 == 63 * d),
{
    let g = gradient_numerators(x0, x1, x2, d);
    assert(is_zero(g) ==> g[0] == 0 && g[1] == 0 && g[2] == 0);
}

/// A stationary point `s` is the global minimiser: the cost there is half the
/// sum of its coordinates, and the cost is larger at every other point.
pub proof fn lemma_global_minimum(
    x0: int,
    x1: int,
    x2: int,
    s0: int,
    s1: int,
    s2: int,
    d: int,
)
    requires
        is_zero(gradient_numerators(s0, s1, s2, d)),
    ensures
        cost_numerator(s0, s1, s2, d) == d * (s0 + s1 + s2),
        cost_numerator(x0, x1, x2, d) >= cost_numerator(s0, s1, s2, d),
        cost_numerator(x0, x1, x2, d) == cost_numerator(s0, s1, s2, d) ==> (x0 == s0 && x1 == s1
            && x2 == s2),
{
    let g = gradient_numerators(s0, s1, s2, d);
    assert(g[0] == 0 && g[1] == 0 && g[2] == 0);
    let h0 = x0 - s0;
    let h1 = x1 - s1;
    let h2 = x2 - s2;
    lemma_gradient_is_derivative(s0, s1, s2, h0, h1, h2, d);
    lemma_dot_three(g, seq![h0, h1, h2]);
    lemma_zero_product(g[0], h0);
    lemma_zero_product(g[1], h1);
    lemma_zero_product(g[2], h2);
    assert(s0 + h0 == x0 && s1 + h1 == x1 && s2 + h2 == x2);
    if h0 != 0 || h1 != 0 || h2 != 0 {
        lemma_hessian_positive_definite(h0, h1, h2);
        lemma_curvature(h0, h1, h2);
    } else {
        lemma_zero_product(h0, h0);
    }
    // Twice the cost is the gradient times the point plus the linear term.
    lemma_dot_three(g, seq![s0, s1, s2]);
    lemma_zero_product(g[0], s0);
    lemma_zero_product(g[1], s1);
    lemma_zero_product(g[2], s2);
    lemma_form_three_times(4, s0, 5, s1, 25, s2, d, s0);
    lemma_form_three_times(5, s0, 11, s1, 5, s2, d, s1);
    lemma_form_three_times(25, s0, 5, s1, 1001, s2, d, s2);
    lemma_scale_product(1, s0, s1);
    lemma_scale_product(1, s0, s2);
    lemma_scale_product(1, s1, s2);
    lemma_expand_product(d, 0, s0 + s1, s2);
    lemma_expand_product(d, 0, s0, s1);
}

/// What the Lipschitz bound leaves over at the step `h`: the quadratic form of
/// `1002^2` times the identity less the square of the Hessian.
pub open spec fn lipschitz_slack(h0: int, h1: int, h2: int) -> int {
    1003338 * (h0 * h0) + 1003833 * (h1 * h1) + 1353 * (h2 * h2) - 400 * (h0 * h1) - 50300 * (h0
        * h2) - 10370 * (h1 * h2)
}

/// The slack is never negative: times two positive numbers it is a sum of
/// three squares.
pub proof fn lemma_lipschitz_slack(h0: int, h1: int, h2: int)
    ensures
        lipschitz_slack(h0, h1, h2) >= 0,
{
    let slack = lipschitz_slack(h0, h1, h2);
    let s = 1003338 * h0 + (-200) * h1 + (-25150) * h2;
    let t = 1007183754554 * h1 + (-5207337530) * h2 + 0 * h0;
    lemma_square_of_form(1003338, h0, -200, h1, -25150, h2);
    assert(1003338 * slack == s * s + 1007183754554 * (h1 * h1) - 10414675060 * (h1 * h2)
        + 724993814 * (h2 * h2));
    lemma_square_of_form(1007183754554, h1, -5207337530, h2, 0, h0);
    assert(1007183754554 * (1003338 * slack) == 1007183754554 * (s * s) + t * t
        + 703085627461597828056 * (h2 * h2));
    lemma_square_positive(s);
    lemma_square_positive(t);
    lemma_square_positive(h2);
}

/// The gradient is Lipschitz with the modulus `HARD_QUADRATIC_LIPSCHITZ`: the
/// squared distance of the gradients at two points is at most the square of
/// the modulus times the squared distance of the points.
pub proof fn lemma_lipschitz(x0: int, x1: int, x2: int, h0: int, h1: int, h2: int, d: int)
    ensures
        ({
            let step = hessian_times(h0, h1, h2);
            &&& forall|i: int|
                0 <= i < 3 ==> gradient_numerators(x0 + h0, x1 + h1, x2 + h2, d)[i]
                    - gradient_numerators(x0, x1, x2, d)[i] == step[i]
            &&& dot(step, step) <= (HARD_QUADRATIC_LIPSCHITZ * HARD_QUADRATIC_LIPSCHITZ) * dot(
                seq![h0, h1, h2],
                seq![h0, h1, h2],
            )
        }),
{
    let step = hessian_times(h0, h1, h2);
    let h = seq![h0, h1, h2];
    lemma_dot_three(step, step);
    lemma_dot_three(h, h);
    lemma_square_of_form(4, h0, 5, h1, 25, h2);
    lemma_square_of_form(5, h0, 11, h1, 5, h2);
    lemma_square_of_form(25, h0, 5, h1, 1001, h2);
    assert(1004004 * dot(h, h) - dot(step, step) == lipschitz_slack(h0, h1, h2));
    lemma_lipschitz_slack(h0, h1, h2);
}

/// No smaller whole number is a Lipschitz modulus of the gradient: along the
/// third axis the gradients move apart by more than `1001` times the step.
pub proof fn lemma_lipschitz_is_least(h2: int)
    requires
        h2 != 0,
    ensures
        ({
            let step = hessian_times(0, 0, h2);
            dot(step, step) > (1001 * 1001) * dot(seq![0, 0, h2], seq![0, 0, h2])
        }),
{
    let step = hessian_times(0, 0, h2);
    let h = seq![0, 0, h2];
    lemma_dot_three(step, step);
    lemma_dot_three(h, h);
    assert(step[0] == 25 * h2 && step[1] == 5 * h2 && step[2] == 1001 * h2);
    lemma_scale_product(25, h2, 25 * h2);
    lemma_scale_product(25, h2, h2);
    lemma_scale_product(5, h2, 5 * h2);
    lemma_scale_product(5, h2, h2);
    lemma_scale_product(1001, h2, 1001 * h2);
    lemma_scale_product(1001, h2, h2);
    lemma_zero_product(0, 0);
    lemma_square_positive(h2);
    assert(dot(h, h) == h2 * h2);
    assert(step[0] * step[0] == 625 * (h2 * h2));
    assert(step[1] * step[1] == 25 * (h2 * h2));
    assert(step[2] * step[2] == 1002001 * (h2 * h2));
    assert(dot(step, step) == 1002651 * (h2 * h2));
}

/// The recorded solution lies on the sphere of radius one twentieth, and the
/// gradient there points to the centre, both to thirteen decimals: it meets
/// the first-order conditions of the minimum over that ball. The gradient
/// does not vanish there.
pub proof fn lemma_recorded_solution()
    ensures
        ({
            let x0 = SOLUTION_HARD@[0] as int;
            let x1 = SOLUTION_HARD@[1] as int;
            let x2 = SOLUTION_HARD@[2] as int;
            let d = SOLUTION_HARD_SCALE as int;
            let g = gradient_numerators(x0, x1, x2, d);
            &&& -20 * d <= 400 * (x0 * x0 + x1 * x1 + x2 * x2) - d * d <= 20 * d
            &&& g[0] * x0 + g[1] * x1 + g[2] * x2 < 0
            &&& -10 * d <= g[0] * x1 - g[1] * x0 <= 10 * d
            &&& -10 * d <= g[0] * x2 - g[2] * x0 <= 10 * d
            &&& -10 * d <= g[1] * x2 - g[2] * x1 <= 10 * d
            &&& !is_zero(g)
        }),
{
    let x0 = SOLUTION_HARD@[0] as int;
    let x1 = SOLUTION_HARD@[1] as int;
    let x2 = SOLUTION_HARD@[2] as int;
    let d = SOLUTION_HARD_SCALE as int;
    let g = gradient_numerators(x0, x1, x2, d);
    assert(x0 == -41_123_164_672_281);
    assert(x1 == -28_440_417_469_206);
    assert(x2 == 167_276_757_790);
    assert(g[0] == 697_487_172_909_596);
    assert(g[1] == 482_375_968_266_279);
    assert(g[2] == -2_837_169_605_265);
}

} // verus!
