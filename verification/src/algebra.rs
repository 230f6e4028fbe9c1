//! Integer vectors in specifications, and the identities of integer
//! arithmetic on which the proofs about the benchmarks rest.

use vstd::prelude::*;

verus! {

/// The scalar product of two integer vectors of one length.
pub open spec fn dot(a: Seq<int>, b: Seq<int>) -> int
    decreases a.len(),
{
    if a.len() == 0 {
        0
    } else {
        dot(a.drop_last(), b.drop_last()) + a.last() * b.last()
    }
}

/// Every entry of `v` is zero.
pub open spec fn is_zero(v: Seq<int>) -> bool {
    forall|i: int| 0 <= i < v.len() ==> #[trigger] v[i] == 0
}

/// The scalar product of two vectors of two entries, written out.
pub proof fn lemma_dot_two(a: Seq<int>, b: Seq<int>)
    requires
        a.len() == 2,
        b.len() == 2,
    ensures
        dot(a, b) == a[0] * b[0] + a[1] * b[1],
{
    reveal_with_fuel(dot, 3);
    assert(a.drop_last().drop_last().len() == 0);
}

/// The scalar product of two vectors of three entries, written out.
pub proof fn lemma_dot_three(a: Seq<int>, b: Seq<int>)
    requires
        a.len() == 3,
        b.len() == 3,
    ensures
        dot(a, b) == a[0] * b[0] + a[1] * b[1] + a[2] * b[2],
{
    reveal_with_fuel(dot, 4);
    assert(a.drop_last().drop_last().drop_last().len() == 0);
}

/// A product is bounded by the product of the bounds of its factors.
pub proof fn lemma_product_bound(a: int, b: int, bound_a: int, bound_b: int)
    requires
        -bound_a <= a <= bound_a,
        -bound_b <= b <= bound_b,
    ensures
        -(bound_a * bound_b) <= a * b <= bound_a * bound_b,
{
    assert(-(bound_a * bound_b) <= a * b <= bound_a * bound_b) by (nonlinear_arith)
        requires
            -bound_a <= a <= bound_a,
            -bound_b <= b <= bound_b,
    ;
}

/// The product of two sums is the sum of the four products of their terms,
/// and each of those products may be read in either order.
pub proof fn lemma_expand_product(a: int, h: int, b: int, k: int)
    ensures
        (a + h) * (b + k) == a * b + a * k + h * b + h * k,
        a * b == b * a,
        a * k == k * a,
        h * b == b * h,
        h * k == k * h,
{
    assert((a + h) * (b + k) == a * b + a * k + h * b + h * k) by (nonlinear_arith);
    assert(a * b == b * a) by (nonlinear_arith);
    assert(a * k == k * a) by (nonlinear_arith);
    assert(h * b == b * h) by (nonlinear_arith);
    assert(h * k == k * h) by (nonlinear_arith);
}

/// A constant factor moves out of a product, from either side.
pub proof fn lemma_scale_product(c: int, a: int, b: int)
    ensures
        (c * a) * b == c * (a * b),
        a * (c * b) == c * (a * b),
        a * b == b * a,
{
    assert((c * a) * b == c * (a * b)) by (nonlinear_arith);
    assert(a * (c * b) == c * (a * b)) by (nonlinear_arith);
    assert(a * b == b * a) by (nonlinear_arith);
}

/// A linear form of two variables times `k`, term by term.
pub proof fn lemma_form_two_times(a: int, x: int, b: int, y: int, c: int, k: int)
    ensures
        (a * x + b * y + c) * k == a * (x * k) + b * (y * k) + c * k,
{
    assert((a * x + b * y + c) * k == a * (x * k) + b * (y * k) + c * k) by (nonlinear_arith);
}

/// A linear form of three variables times `k`, term by term.
pub proof fn lemma_form_three_times(a: int, x: int, b: int, y: int, c: int, z: int, e: int, k: int)
    ensures
        (a * x + b * y + c * z + e) * k == a * (x * k) + b * (y * k) + c * (z * k) + e * k,
{
    lemma_form_two_times(a, x, b, y, c * z + e, k);
    assert((c * z + e) * k == c * (z * k) + e * k) by (nonlinear_arith);
}

/// Changing the sign of a factor changes the sign of the product.
pub proof fn lemma_negate_product(a: int, b: int)
    ensures
        (-a) * (-b) == a * b,
        (-a) * b == -(a * b),
        a * (-b) == -(a * b),
{
    assert((-a) * (-b) == a * b) by (nonlinear_arith);
    assert((-a) * b == -(a * b)) by (nonlinear_arith);
    assert(a * (-b) == -(a * b)) by (nonlinear_arith);
}

/// A product with a zero factor is zero.
pub proof fn lemma_zero_product(a: int, b: int)
    requires
        a == 0 || b == 0,
    ensures
        a * b == 0,
{
    assert(a * b == 0) by (nonlinear_arith)
        requires
            a == 0 || b == 0,
    ;
}

/// Three factors may be multiplied in any grouping and order.
pub proof fn lemma_three_factors(a: int, b: int, c: int)
    ensures
        (a * b) * c == a * (b * c),
        (a * b) * c == (a * c) * b,
        (a * b) * c == b * (a * c),
        (a * b) * c == c * (a * b),
        (a * b) * c == (b * a) * c,
{
    assert((a * b) * c == a * (b * c)) by (nonlinear_arith);
    assert((a * b) * c == (a * c) * b) by (nonlinear_arith);
    assert((a * b) * c == b * (a * c)) by (nonlinear_arith);
    assert((a * b) * c == c * (a * b)) by (nonlinear_arith);
    assert((a * b) * c == (b * a) * c) by (nonlinear_arith);
}

/// A product of two numbers that are not negative is not negative, and it is
/// positive where both are.
pub proof fn lemma_product_nonnegative(a: int, b: int)
    requires
        a >= 0,
        b >= 0,
    ensures
        a * b >= 0,
        a > 0 && b > 0 ==> a * b > 0,
{
    assert(a * b >= 0) by (nonlinear_arith)
        requires
            a >= 0,
            b >= 0,
    ;
    assert(a > 0 && b > 0 ==> a * b > 0) by (nonlinear_arith);
}

/// The square of the linear form `s = p a + q b + r c`, in two steps: as a
/// linear form in the products of `s` with the variables, and each of those
/// as a linear form in the products of two variables.
pub proof fn lemma_square_of_form(p: int, a: int, q: int, b: int, r: int, c: int)
    ensures
        ({
            let s = p * a + q * b + r * c;
            &&& s * s == p * (a * s) + q * (b * s) + r * (c * s)
            &&& a * s == p * (a * a) + q * (a * b) + r * (a * c)
            &&& b * s == p * (a * b) + q * (b * b) + r * (b * c)
            &&& c * s == p * (a * c) + q * (b * c) + r * (c * c)
        }),
{
    let s = p * a + q * b + r * c;
    lemma_form_three_times(p, a, q, b, r, c, 0, s);
    lemma_scale_product(1, a, s);
    lemma_scale_product(1, b, s);
    lemma_scale_product(1, c, s);
    lemma_form_three_times(p, a, q, b, r, c, 0, a);
    lemma_form_three_times(p, a, q, b, r, c, 0, b);
    lemma_form_three_times(p, a, q, b, r, c, 0, c);
    lemma_scale_product(1, a, b);
    lemma_scale_product(1, a, c);
    lemma_scale_product(1, b, c);
}

/// A square is never negative, and is zero only for zero.
pub proof fn lemma_square_positive(a: int)
    ensures
        a * a >= 0,
        a != 0 ==> a * a > 0,
{
    assert(a * a >= 0) by (nonlinear_arith);
    assert(a != 0 ==> a * a > 0) by (nonlinear_arith);
}

} // verus!
