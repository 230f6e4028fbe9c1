//! The valley-shaped family `f(x) = (a - x0)^2 + b (x1 - x0^2)^2` in two
//! variables, with its two parameters `a` and `b`: not convex, and with a
//! narrow curved valley that leads to its minimiser `(a, a^2)`.
//!
//! The parameters are numerators over the same scale as the point.

use crate::algebra::{
    dot, is_zero, lemma_dot_two, lemma_expand_product, lemma_form_three_times,
    lemma_form_two_times, lemma_negate_product, lemma_product_bound, lemma_product_nonnegative,
    lemma_scale_product, lemma_square_positive, lemma_three_factors, lemma_zero_product,
};
use crate::grid::{
    buffer_status, check_buffers, check_point, holds, point_status, within, Error,
    ROSENBROCK_LIMIT,
};
use vstd::prelude::*;

verus! {

/// Number of variables of every member of the family.
pub const ROSENBROCK_DIMENSION: usize = 2;

/// The third power of `d`.
pub open spec fn cube(d: int) -> int {
    d * (d * d)
}

/// Numerator of `x1 - x0^2` at `(x0 / d, x1 / d)` over the denominator `d^2`:
/// how far the point lies above the valley's floor.
pub open spec fn valley(x0: int, x1: int, d: int) -> int {
    x1 * d - x0 * x0
}

/// Numerator of the cost at `(x0 / d, x1 / d)` for the parameters `a / d` and
/// `b / d`, over the denominator `d^5`.
pub open spec fn cost_numerator(a: int, b: int, x0: int, x1: int, d: int) -> int {
    ((a - x0) * (a - x0)) * cube(d) + b * (valley(x0, x1, d) * valley(x0, x1, d))
}

/// Numerators of the gradient at `(x0 / d, x1 / d)` for the parameters `a / d`
/// and `b / d`, over the denominator `d^4`: the gradient is
/// `(2 x0 - 2 a - 4 b x0 (x1 - x0^2), 2 b (x1 - x0^2))`.
pub open spec fn gradient_numerators(a: int, b: int, x0: int, x1: int, d: int) -> Seq<int> {
    seq![
        2 * ((x0 - a) * cube(d)) - 4 * (b * (x0 * valley(x0, x1, d))),
        2 * (b * (valley(x0, x1, d) * d)),
    ]
}

/// What the cost's increment over a step `h` holds beyond the gradient times
/// the step. It is of second order: with `e = d h1 - (2 x0 + h0) h0`, which
/// is a multiple of the step, it is `h0^2 (d^3 - 2 b w) + b e^2`, where `w` is
/// the height above the valley's floor.
pub open spec fn remainder(a: int, b: int, x0: int, x1: int, h0: int, h1: int, d: int) -> int {
    let e = h1 * d - (2 * x0 + h0) * h0;
    (h0 * h0) * (cube(d) - 2 * (b * valley(x0, x1, d))) + b * (e * e)
}

/// What the family's evaluators answer to the parameters `a` and `b` and the
/// input `u` over `scale` before they compute anything: a wrong length is
/// reported first, then a point or a parameter off the grid.
pub open spec fn cost_status(a: i64, b: i64, u: Seq<i64>, scale: i64) -> Result<(), Error> {
    match point_status(u, scale, ROSENBROCK_DIMENSION, ROSENBROCK_LIMIT) {
        Err(e) => Err(e),
        Ok(()) => if within(a, ROSENBROCK_LIMIT) && within(b, ROSENBROCK_LIMIT) {
            Ok(())
        } else {
            Err(Error::OutOfRange)
        },
    }
}

/// The same for the gradient, with an output buffer of `out_len` entries: a
/// wrong input length is reported first, then a wrong buffer length, then a
/// point or a parameter off the grid.
pub open spec fn gradient_status(a: i64, b: i64, u: Seq<i64>, scale: i64, out_len: nat) -> Result<
    (),
    Error,
> {
    match buffer_status(u, scale, out_len, ROSENBROCK_DIMENSION, ROSENBROCK_LIMIT) {
        Err(e) => Err(e),
        Ok(()) => if within(a, ROSENBROCK_LIMIT) && within(b, ROSENBROCK_LIMIT) {
            Ok(())
        } else {
            Err(Error::OutOfRange)
        },
    }
}

/// Returns the numerator of the cost at the point `u` over `scale` for the
/// parameters `a` and `b` over `scale`; the denominator is the fifth power of
/// `scale`.
pub fn rosenbrock_cost(a: i64, b: i64, u: &[i64], scale: i64) -> (r: Result<i128, Error>)
    ensures
        match r {
            Ok(c) => cost_status(a, b, u@, scale) is Ok && c == cost_numerator(
                a as int,
                b as int,
                u@[0] as int,
                u@[1] as int,
                scale as int,
            ),
            Err(e) => cost_status(a, b, u@, scale) == Err::<(), Error>(e),
        },
{
    match check_point(u, scale, ROSENBROCK_DIMENSION, ROSENBROCK_LIMIT) {
        Err(e) => {
            return Err(e);
        },
        Ok(()) => {},
    }
    if a < -ROSENBROCK_LIMIT || a > ROSENBROCK_LIMIT || b < -ROSENBROCK_LIMIT || b
        > ROSENBROCK_LIMIT {
        return Err(Error::OutOfRange);
    }
    let x0: i128 = u[0] as i128;
    let x1: i128 = u[1] as i128;
    let d: i128 = scale as i128;
    let p: i128 = a as i128 - x0;
    let l: Ghost<int> = Ghost(ROSENBROCK_LIMIT as int);
    proof {
        lemma_product_bound(d as int, d as int, l@, l@);
        lemma_product_bound(d as int, d * d, l@, l@ * l@);
        lemma_product_bound(x1 as int, d as int, l@, l@);
        lemma_product_bound(x0 as int, x0 as int, l@, l@);
        lemma_product_bound(p as int, p as int, 2 * l@, 2 * l@);
    }
    let d3: i128 = d * (d * d);
    let w: i128 = x1 * d - x0 * x0;
    proof {
        lemma_product_bound(p * p, d3 as int, 4 * (l@ * l@), l@ * (l@ * l@));
        lemma_product_bound(w as int, w as int, 2 * (l@ * l@), 2 * (l@ * l@));
        lemma_product_bound(b as int, w * w, l@, 4 * (l@ * l@ * l@ * l@));
    }
    Ok((p * p) * d3 + (b as i128) * (w * w))
}

/// Writes into `grad` the numerators of the gradient at the point `u` over
/// `scale` for the parameters `a` and `b` over `scale`; the denominator is the
/// fourth power of `scale`.
pub fn rosenbrock_grad(a: i64, b: i64, u: &[i64], scale: i64, grad: &mut [i128]) -> (r: Result<
    (),
    Error,
>)
    ensures
        r == gradient_status(a, b, u@, scale, old(grad)@.len()),
        r is Ok ==> holds(
            final(grad)@,
            gradient_numerators(a as int, b as int, u@[0] as int, u@[1] as int, scale as int),
        ),
        r is Err ==> final(grad)@ == old(grad)@,
{
    match check_buffers(u, scale, grad.len(), ROSENBROCK_DIMENSION, ROSENBROCK_LIMIT) {
        Err(e) => {
            return Err(e);
        },
        Ok(()) => {},
    }
    if a < -ROSENBROCK_LIMIT || a > ROSENBROCK_LIMIT || b < -ROSENBROCK_LIMIT || b
        > ROSENBROCK_LIMIT {
        return Err(Error::OutOfRange);
    }
    let x0: i128 = u[0] as i128;
    let x1: i128 = u[1] as i128;
    let d: i128 = scale as i128;
    let q: i128 = x0 - a as i128;
    let bb: i128 = b as i128;
    let l: Ghost<int> = Ghost(ROSENBROCK_LIMIT as int);
    proof {
        lemma_product_bound(d as int, d as int, l@, l@);
        lemma_product_bound(d as int, d * d, l@, l@ * l@);
        lemma_product_bound(x1 as int, d as int, l@, l@);
        lemma_product_bound(x0 as int, x0 as int, l@, l@);
    }
    let d3: i128 = d * (d * d);
    let w: i128 = x1 * d - x0 * x0;
    proof {
        lemma_product_bound(q as int, d3 as int, 2 * l@, l@ * (l@ * l@));
        lemma_product_bound(x0 as int, w as int, l@, 2 * (l@ * l@));
        lemma_product_bound(bb as int, x0 * w, l@, l@ * (2 * (l@ * l@)));
        lemma_product_bound(w as int, d as int, 2 * (l@ * l@), l@);
        lemma_product_bound(bb as int, w * d, l@, (2 * (l@ * l@)) * l@);
    }
    grad[0] = 2 * (q * d3) - 4 * (bb * (x0 * w));
    grad[1] = 2 * (bb * (w * d));
    Ok(())
}

/// The gradient is the derivative of the cost: the cost's increment over a
/// step `h` is the gradient times the step plus a remainder of second order in
/// the step. The step is counted in numerators, so that the product of the
/// gradient's denominator and the step's is the cost's.
pub proof fn lemma_gradient_is_derivative(
    a: int,
    b: int,
    x0: int,
    x1: int,
    h0: int,
    h1: int,
    d: int,
)
    ensures
        cost_numerator(a, b, x0 + h0, x1 + h1, d) - cost_numerator(a, b, x0, x1, d) == dot(
            gradient_numerators(a, b, x0, x1, d),
            seq![h0, h1],
        ) + remainder(a, b, x0, x1, h0, h1, d),
{
    let c = cube(d);
    let w = valley(x0, x1, d);
    let v = valley(x0 + h0, x1 + h1, d);
    let p = a - x0;
    let e = h1 * d - (2 * x0 + h0) * h0;
    let g = gradient_numerators(a, b, x0, x1, d);
    lemma_dot_two(g, seq![h0, h1]);

    // The first term: the square of the distance to `a`, times the cube.
    assert(a - (x0 + h0) == p + (-h0));
    lemma_expand_product(p, -h0, p, -h0);
    lemma_negate_product(p, h0);
    lemma_negate_product(h0, p);
    lemma_negate_product(h0, h0);
    assert((p + (-h0)) * (p + (-h0)) == 1 * (p * p) + (-2) * (p * h0) + 1 * (h0 * h0));
    lemma_form_three_times(1, p * p, -2, p * h0, 1, h0 * h0, 0, c);
    assert(((a - (x0 + h0)) * (a - (x0 + h0))) * c - (p * p) * c == (h0 * h0) * c - 2 * ((p * h0)
        * c));

    // The height above the valley's floor moves by `e`.
    lemma_expand_product(x1, h1, d, 0);
    lemma_expand_product(x0, h0, x0, h0);
    lemma_form_two_times(2, x0, 1, h0, 0, h0);
    assert(v == w + e);
    lemma_expand_product(w, e, w, e);
    assert(v * v == 1 * (w * w) + 2 * (w * e) + 1 * (e * e));
    lemma_form_three_times(1, w * w, 2, w * e, 1, e * e, 0, b);
    lemma_scale_product(1, b, w * w);
    lemma_scale_product(1, b, w * e);
    lemma_scale_product(1, b, e * e);
    lemma_scale_product(1, b, v * v);
    assert(b * (v * v) - b * (w * w) == 2 * (b * (w * e)) + b * (e * e));

    // The part of `b w e` that is linear in the step is the gradient's.
    lemma_form_two_times(1, h1 * d, -1, (2 * x0 + h0) * h0, 0, w);
    lemma_scale_product(1, w, e);
    lemma_scale_product(1, w, h1 * d);
    lemma_scale_product(1, w, (2 * x0 + h0) * h0);
    assert(w * e == w * (h1 * d) - w * ((2 * x0 + h0) * h0));
    assert((2 * x0 + h0) * h0 == 2 * (x0 * h0) + h0 * h0);
    lemma_form_two_times(2, x0 * h0, 1, h0 * h0, 0, w);
    lemma_scale_product(1, w, 2 * (x0 * h0) + h0 * h0);
    lemma_scale_product(1, w, x0 * h0);
    lemma_scale_product(1, w, h0 * h0);
    assert(w * e == w * (h1 * d) - 2 * (w * (x0 * h0)) - w * (h0 * h0));
    lemma_form_three_times(1, w * (h1 * d), -2, w * (x0 * h0), -1, w * (h0 * h0), 0, b);
    lemma_scale_product(1, b, w * (h1 * d));
    lemma_scale_product(1, b, w * (x0 * h0));
    lemma_scale_product(1, b, w * (h0 * h0));
    assert(b * (w * e) == b * (w * (h1 * d)) - 2 * (b * (w * (x0 * h0))) - b * (w * (h0 * h0)));

    // The gradient times the step.
    lemma_form_two_times(2, (x0 - a) * c, -4, b * (x0 * w), 0, h0);
    assert(g[0] * h0 == 2 * (((x0 - a) * c) * h0) - 4 * ((b * (x0 * w)) * h0));
    lemma_scale_product(2, b * (w * d), h1);
    assert(g[1] * h1 == 2 * ((b * (w * d)) * h1));

    // Each product of the gradient's is one of the increment's, regrouped.
    assert(x0 - a == -p);
    lemma_negate_product(p, c);
    lemma_negate_product(p * c, h0);
    lemma_three_factors(p, h0, c);
    assert(((x0 - a) * c) * h0 == -((p * h0) * c));
    lemma_three_factors(x0, w, h0);
    lemma_three_factors(b, x0 * w, h0);
    assert((b * (x0 * w)) * h0 == b * (w * (x0 * h0)));
    lemma_three_factors(w, d, h1);
    lemma_scale_product(1, d, h1);
    lemma_three_factors(b, w * d, h1);
    assert((b * (w * d)) * h1 == b * (w * (h1 * d)));

    // What is left is the remainder.
    lemma_form_two_times(1, c, -2, b * w, 0, h0 * h0);
    lemma_scale_product(1, h0 * h0, c - 2 * (b * w));
    lemma_scale_product(1, h0 * h0, c);
    lemma_three_factors(b, w, h0 * h0);
    assert((h0 * h0) * (c - 2 * (b * w)) == (h0 * h0) * c - 2 * (b * (w * (h0 * h0))));
}

/// Where `b` is not negative the cost is nowhere negative, and it is zero at
/// the point `(a, a^2)`, where the gradient vanishes with it: that point is a
/// global minimiser.
pub proof fn lemma_global_minimum(a: int, b: int, x0: int, x1: int, m1: int, d: int)
    requires
        d > 0,
        b >= 0,
        m1 * d == a * a,
    ensures
        cost_numerator(a, b, x0, x1, d) >= 0,
        cost_numerator(a, b, a, m1, d) == 0,
        is_zero(gradient_numerators(a, b, a, m1, d)),
{
    let c = cube(d);
    lemma_product_nonnegative(d, d);
    lemma_product_nonnegative(d, d * d);
    let p = a - x0;
    let w = valley(x0, x1, d);
    lemma_square_positive(p);
    lemma_square_positive(w);
    lemma_product_nonnegative(p * p, c);
    lemma_product_nonnegative(b, w * w);
    let z = valley(a, m1, d);
    assert(z == 0);
    lemma_zero_product(a - a, a - a);
    lemma_zero_product((a - a) * (a - a), c);
    lemma_zero_product(z, z);
    lemma_zero_product(b, z * z);
    lemma_zero_product(a - a, c);
    lemma_zero_product(a, z);
    lemma_zero_product(b, a * z);
    lemma_zero_product(z, d);
    lemma_zero_product(b, z * d);
}

/// Where `b` is positive the cost is zero at the point `(a, a^2)` alone: the
/// global minimiser is unique.
pub proof fn lemma_minimiser_is_unique(a: int, b: int, x0: int, x1: int, d: int)
    requires
        d > 0,
        b > 0,
        cost_numerator(a, b, x0, x1, d) == 0,
    ensures
        x0 == a,
        x1 * d == a * a,
{
    let c = cube(d);
    lemma_product_nonnegative(d, d);
    lemma_product_nonnegative(d, d * d);
    let p = a - x0;
    let w = valley(x0, x1, d);
    lemma_square_positive(p);
    lemma_square_positive(w);
    lemma_product_nonnegative(p * p, c);
    lemma_product_nonnegative(b, w * w);
}

/// The cost is not convex: where `b (2 x1 d - t^2)` exceeds `d^3`, the cost
/// at `(0, x1)` lies above the mean of the costs at `(-t, x1)` and `(t, x1)`,
/// whose midpoint it is.
pub proof fn lemma_not_convex(a: int, b: int, x1: int, t: int, d: int)
    requires
        t != 0,
        b * (2 * (x1 * d) - t * t) > cube(d),
    ensures
        2 * cost_numerator(a, b, 0, x1, d) > cost_numerator(a, b, t, x1, d) + cost_numerator(
            a,
            b,
            -t,
            x1,
            d,
        ),
{
    let c = cube(d);
    let g = gradient_numerators(a, b, 0, x1, d);
    let w = valley(0, x1, d);
    lemma_gradient_is_derivative(a, b, 0, x1, t, 0, d);
    lemma_gradient_is_derivative(a, b, 0, x1, -t, 0, d);
    lemma_dot_two(g, seq![t, 0]);
    lemma_dot_two(g, seq![-t, 0]);
    lemma_negate_product(g[0], t);
    lemma_zero_product(g[1], 0);
    // Both remainders are `t^2 (d^3 - 2 b w + b t^2)`.
    lemma_negate_product(t, t);
    lemma_zero_product(0, d);
    lemma_zero_product(0, 0);
    let s = t * t;
    assert(w == x1 * d);
    assert((2 * 0 + t) * t == s);
    assert((2 * 0 + -t) * -t == s);
    assert(0 * d - (2 * 0 + t) * t == -s);
    assert(0 * d - (2 * 0 + -t) * -t == -s);
    lemma_negate_product(s, s);
    let r = s * (c - 2 * (b * w)) + b * (s * s);
    assert(remainder(a, b, 0, x1, t, 0, d) == r);
    assert(remainder(a, b, 0, x1, -t, 0, d) == r);
    // And that is negative under the hypothesis.
    lemma_three_factors(b, s, s);
    lemma_form_three_times(1, c, -2, b * w, 1, b * s, 0, s);
    lemma_scale_product(1, s, c - 2 * (b * w));
    lemma_form_two_times(1, c, -2, b * w, 0, s);
    assert(r == (c - 2 * (b * w) + b * s) * s);
    lemma_form_two_times(2, w, -1, s, 0, b);
    lemma_scale_product(1, b, 2 * w - s);
    lemma_scale_product(1, b, w);
    lemma_scale_product(1, b, s);
    assert(b * (2 * w - s) == 2 * (b * w) - b * s);
    lemma_square_positive(t);
    let k = 2 * (b * w) - b * s - c;
    lemma_product_nonnegative(k, s);
    lemma_negate_product(k, s);
    assert(c - 2 * (b * w) + b * s == -k);
}

} // verus!
