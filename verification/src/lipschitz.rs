//! The affine map `g(u) = (3 u0, 2 u1, 4.5)`: a gradient with no cost behind
//! it, whose Jacobian `diag(3, 2, 0)` and Lipschitz constant `3` are known.

use crate::algebra::{
    dot, lemma_dot_three, lemma_scale_product, lemma_square_positive, lemma_zero_product,
};
use crate::grid::{buffer_status, check_buffers, holds, Error, QUADRATIC_LIMIT};
use vstd::prelude::*;

verus! {

/// Number of variables, and of entries of the value, of the affine map.
pub const LIPSCHITZ_DIMENSION: usize = 3;

/// Numerators of the map's value at `(u0 / d, u1 / d, u2 / d)` over the
/// denominator `2 d`; the third variable has no part in it.
pub open spec fn value_numerators(u0: int, u1: int, d: int) -> Seq<int> {
    seq![6 * u0, 4 * u1, 9 * d]
}

/// The difference of two vectors of three entries.
pub open spec fn difference(a: Seq<int>, b: Seq<int>) -> Seq<int> {
    seq![a[0] - b[0], a[1] - b[1], a[2] - b[2]]
}

/// Writes into `g` the numerators of the map's value at the point `u` over
/// `scale`; the denominator is twice `scale`.
pub fn lipschitz_mock(u: &[i64], scale: i64, g: &mut [i128]) -> (r: Result<(), Error>)
    ensures
        r == buffer_status(u@, scale, old(g)@.len(), LIPSCHITZ_DIMENSION, QUADRATIC_LIMIT),
        r is Ok ==> holds(final(g)@, value_numerators(u@[0] as int, u@[1] as int, scale as int)),
        r is Err ==> final(g)@ == old(g)@,
{
    match check_buffers(u, scale, g.len(), LIPSCHITZ_DIMENSION, QUADRATIC_LIMIT) {
        Err(e) => {
            return Err(e);
        },
        Ok(()) => {},
    }
    let u0: i128 = u[0] as i128;
    let u1: i128 = u[1] as i128;
    let d: i128 = scale as i128;
    g[0] = 6 * u0;
    g[1] = 4 * u1;
    g[2] = 9 * d;
    Ok(())
}

/// The map's increment over a step `h` is `diag(3, 2, 0)` times the step,
/// wherever it is taken: the constant third entry drops out.
pub proof fn lemma_jacobian(u0: int, u1: int, h0: int, h1: int, d: int)
    ensures
        difference(value_numerators(u0 + h0, u1 + h1, d), value_numerators(u0, u1, d)) =~= seq![
            6 * h0,
            4 * h1,
            0,
        ],
{
}

/// The map is Lipschitz with constant `3`: the squared distance of two values
/// is at most nine times the squared distance of the two points. Over the
/// doubled denominator of the values the factor is thirty-six.
pub proof fn lemma_lipschitz(u: Seq<int>, v: Seq<int>, d: int)
    requires
        u.len() == 3,
        v.len() == 3,
    ensures
        ({
            let step = difference(value_numerators(u[0], u[1], d), value_numerators(v[0], v[1], d));
            dot(step, step) <= 36 * dot(difference(u, v), difference(u, v))
        }),
{
    let step = difference(value_numerators(u[0], u[1], d), value_numerators(v[0], v[1], d));
    let h = difference(u, v);
    lemma_dot_three(step, step);
    lemma_dot_three(h, h);
    assert(step[0] == 6 * h[0] && step[1] == 4 * h[1] && step[2] == 0);
    lemma_scale_product(6, h[0], 6 * h[0]);
    lemma_scale_product(6, h[0], h[0]);
    lemma_scale_product(4, h[1], 4 * h[1]);
    lemma_scale_product(4, h[1], h[1]);
    lemma_square_positive(h[1]);
    lemma_square_positive(h[2]);
    lemma_zero_product(step[2], step[2]);
}

/// The constant `3` cannot be lowered: two points that differ in the first
/// variable alone have values exactly three times as far apart.
pub proof fn lemma_lipschitz_is_attained(u: Seq<int>, v: Seq<int>, d: int)
    requires
        u.len() == 3,
        v.len() == 3,
        u[1] == v[1],
        u[2] == v[2],
    ensures
        ({
            let step = difference(value_numerators(u[0], u[1], d), value_numerators(v[0], v[1], d));
            dot(step, step) == 36 * dot(difference(u, v), difference(u, v))
        }),
{
    let step = difference(value_numerators(u[0], u[1], d), value_numerators(v[0], v[1], d));
    let h = difference(u, v);
    lemma_dot_three(step, step);
    lemma_dot_three(h, h);
    assert(step[0] == 6 * h[0] && step[1] == 0 && step[2] == 0);
    assert(h[1] == 0 && h[2] == 0);
    lemma_scale_product(6, h[0], 6 * h[0]);
    lemma_scale_product(6, h[0], h[0]);
    lemma_zero_product(step[1], step[1]);
    lemma_zero_product(step[2], step[2]);
    lemma_zero_product(h[1], h[1]);
    lemma_zero_product(h[2], h[2]);
}

} // verus!
