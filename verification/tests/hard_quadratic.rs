use mocks::{
    hard_quadratic_cost, hard_quadratic_gradient, Error, HARD_QUADRATIC_DIMENSION,
    HARD_QUADRATIC_LIPSCHITZ, QUADRATIC_LIMIT, SOLUTION_HARD, SOLUTION_HARD_SCALE,
};

fn nearly_equal(expected: f64, actual: f64, rel_tol: f64, abs_tol: f64) -> bool {
    if expected == actual {
        return true;
    }
    let diff = (expected - actual).abs();
    let largest = expected.abs().max(actual.abs());
    diff <= abs_tol || diff <= rel_tol * largest
}

fn assert_nearly_equal(expected: f64, actual: f64, rel_tol: f64, abs_tol: f64, what: &str) {
    assert!(
        nearly_equal(expected, actual, rel_tol, abs_tol),
        "{}: expected {}, got {}",
        what,
        expected,
        actual
    );
}

fn assert_nearly_equal_array(expected: &[f64], actual: &[f64], rel_tol: f64, abs_tol: f64, what: &str) {
    assert_eq!(expected.len(), actual.len(), "{}", what);
    for i in 0..expected.len() {
        assert_nearly_equal(expected[i], actual[i], rel_tol, abs_tol, what);
    }
}

fn cost_at(u: &[i64], scale: i64) -> i128 {
    let mut cost = 0;
    assert_eq!(Ok(()), hard_quadratic_cost(u, scale, &mut cost));
    cost
}

fn gradient_at(u: &[i64], scale: i64) -> [i128; 3] {
    let mut grad = [0; 3];
    assert_eq!(Ok(()), hard_quadratic_gradient(u, scale, &mut grad));
    grad
}

#[test]
fn t_mock_hard() {
    // The point (1.5, 2.6, -3.7) in tenths.
    let x = [15, 26, -37];
    let scale = 10;
    let mut df = [0; 3];
    let mut cost = 0;
    assert_eq!(Ok(()), hard_quadratic_cost(&x, scale, &mut cost));

    let cost_value = cost as f64 / (2.0 * (scale * scale) as f64);
    assert_nearly_equal(6726.575, cost_value, 1e-8, 1e-10, "cost");

    assert_eq!(Ok(()), hard_quadratic_gradient(&x, scale, &mut df));
    let grad_value = [
        df[0] as f64 / scale as f64,
        df[1] as f64 / scale as f64,
        df[2] as f64 / scale as f64,
    ];
    assert_nearly_equal_array(&[-72.5, 18.6, -3652.2], &grad_value, 1e-6, 1e-6, "grad");
}

#[test]
fn hard_quadratic_exact_numerators() {
    assert_eq!(1_345_315, cost_at(&[15, 26, -37], 10));
    assert_eq!([-725, 186, -36_522], gradient_at(&[15, 26, -37], 10));
    assert_eq!(0, cost_at(&[0, 0, 0], 1));
    assert_eq!([1, 1, 1], gradient_at(&[0, 0, 0], 1));
    // 2 f(1, 0, 0) = 4 + 2, 2 f(0, 1, 0) = 11 + 2, 2 f(0, 0, 1) = 1001 + 2.
    assert_eq!(6, cost_at(&[1, 0, 0], 1));
    assert_eq!(13, cost_at(&[0, 1, 0], 1));
    assert_eq!(1003, cost_at(&[0, 0, 1], 1));
    assert_eq!([5, 6, 26], gradient_at(&[1, 0, 0], 1));
    assert_eq!([6, 12, 6], gradient_at(&[0, 1, 0], 1));
    assert_eq!([26, 6, 1002], gradient_at(&[0, 0, 1], 1));
}

#[test]
fn hard_quadratic_value_does_not_depend_on_the_scale() {
    // (1.5, 2.6, -3.7) in tenths and in thousandths.
    let coarse = cost_at(&[15, 26, -37], 10);
    let fine = cost_at(&[1500, 2600, -3700], 1000);
    assert_eq!(coarse * 10_000, fine);
    let g_coarse = gradient_at(&[15, 26, -37], 10);
    let g_fine = gradient_at(&[1500, 2600, -3700], 1000);
    for i in 0..3 {
        assert_eq!(g_coarse[i] * 100, g_fine[i]);
    }
}

#[test]
fn hard_quadratic_gradient_vanishes_at_the_minimiser() {
    let minimiser = [-2928, 698, 63];
    assert_eq!([0, 0, 0], gradient_at(&minimiser, 6647));
    // The cost there is half the sum of the coordinates.
    let lowest = cost_at(&minimiser, 6647);
    assert_eq!(6647 * (-2928 + 698 + 63), lowest);
    // Every neighbour on the grid costs more.
    for step in [[1, 0, 0], [-1, 0, 0], [0, 1, 0], [0, -1, 0], [0, 0, 1], [0, 0, -1], [3, -2, 1]] {
        let near = [minimiser[0] + step[0], minimiser[1] + step[1], minimiser[2] + step[2]];
        assert!(cost_at(&near, 6647) > lowest);
    }
    assert_nearly_equal(-0.163006, lowest as f64 / (2.0 * 6647.0 * 6647.0), 1e-5, 1e-6, "lowest cost");
}

#[test]
fn hard_quadratic_central_differences_are_the_gradient() {
    let points: [[i64; 3]; 4] = [[15, 26, -37], [0, 0, 0], [-400, 3, 77], [123_456, -654_321, 99]];
    let scale = 1000;
    for x in points {
        let g = gradient_at(&x, scale);
        for i in 0..3 {
            for h in [1i64, 7, 250] {
                let mut ahead = x;
                let mut behind = x;
                ahead[i] += h;
                behind[i] -= h;
                let difference = cost_at(&ahead, scale) - cost_at(&behind, scale);
                assert_eq!(4 * g[i] * h as i128, difference);
            }
        }
    }
}

#[test]
fn hard_quadratic_hessian_by_differences_is_symmetric_positive_definite() {
    let x = [15, 26, -37];
    let base = gradient_at(&x, 10);
    let mut hessian = [[0i128; 3]; 3];
    for j in 0..3 {
        let mut moved = x;
        moved[j] += 1;
        let g = gradient_at(&moved, 10);
        for i in 0..3 {
            hessian[i][j] = g[i] - base[i];
        }
    }
    assert_eq!([[4, 5, 25], [5, 11, 5], [25, 5, 1001]], hessian);
    for i in 0..3 {
        for j in 0..3 {
            assert_eq!(hessian[i][j], hessian[j][i]);
        }
    }
    // Sylvester's criterion: the leading minors are positive.
    let h = hessian;
    let minor_1 = h[0][0];
    let minor_2 = h[0][0] * h[1][1] - h[0][1] * h[1][0];
    let minor_3 = h[0][0] * (h[1][1] * h[2][2] - h[1][2] * h[2][1])
        - h[0][1] * (h[1][0] * h[2][2] - h[1][2] * h[2][0])
        + h[0][2] * (h[1][0] * h[2][1] - h[1][1] * h[2][0]);
    assert_eq!(4, minor_1);
    assert_eq!(19, minor_2);
    assert_eq!(13_294, minor_3);
}

#[test]
fn hard_quadratic_lipschitz_modulus_bounds_the_gradient() {
    assert_eq!(1002, HARD_QUADRATIC_LIPSCHITZ);
    let modulus = HARD_QUADRATIC_LIPSCHITZ as i128;
    let x = [15, 26, -37];
    let base = gradient_at(&x, 10);
    for step in [[1i64, 0, 0], [0, 1, 0], [0, 0, 1], [1, 1, 40], [-3, 2, 5], [25, 5, 1001]] {
        let moved = [x[0] + step[0], x[1] + step[1], x[2] + step[2]];
        let g = gradient_at(&moved, 10);
        let mut moved_by = 0i128;
        let mut stepped = 0i128;
        for i in 0..3 {
            moved_by += (g[i] - base[i]) * (g[i] - base[i]);
            stepped += (step[i] as i128) * (step[i] as i128);
        }
        assert!(moved_by <= modulus * modulus * stepped);
    }
    // Along the third axis the gradient moves by more than 1001 times the step.
    let g = gradient_at(&[15, 26, -36], 10);
    let mut moved_by = 0i128;
    for i in 0..3 {
        moved_by += (g[i] - base[i]) * (g[i] - base[i]);
    }
    assert_eq!(1_002_651, moved_by);
    assert!(moved_by > 1001 * 1001);
}

#[test]
fn hard_quadratic_recorded_solution() {
    assert_eq!(1_000_000_000_000_000, SOLUTION_HARD_SCALE);
    assert_eq!([-41_123_164_672_281, -28_440_417_469_206, 167_276_757_790], SOLUTION_HARD);
    let scale = SOLUTION_HARD_SCALE as f64;
    let recorded = [-0.041123164672281, -0.028440417469206, 0.000167276757790];
    for i in 0..3 {
        assert_nearly_equal(recorded[i], SOLUTION_HARD[i] as f64 / scale, 1e-14, 1e-16, "solution");
    }
    let g = gradient_at(&SOLUTION_HARD, SOLUTION_HARD_SCALE);
    assert_eq!([697_487_172_909_596, 482_375_968_266_279, -2_837_169_605_265], g);
    // It lies on the sphere of radius 0.05, where the gradient points inwards.
    let mut norm_squared = 0i128;
    let mut inwards = 0i128;
    for i in 0..3 {
        norm_squared += (SOLUTION_HARD[i] as i128) * (SOLUTION_HARD[i] as i128);
        inwards += g[i] * SOLUTION_HARD[i] as i128;
    }
    assert_nearly_equal(0.0025, norm_squared as f64 / (scale * scale), 1e-12, 1e-14, "radius");
    assert!(inwards < 0);
    let ratio_0 = g[0] as f64 / SOLUTION_HARD[0] as f64;
    let ratio_1 = g[1] as f64 / SOLUTION_HARD[1] as f64;
    let ratio_2 = g[2] as f64 / SOLUTION_HARD[2] as f64;
    assert_nearly_equal(ratio_0, ratio_1, 1e-9, 1e-9, "multiplier");
    assert_nearly_equal(ratio_0, ratio_2, 1e-9, 1e-9, "multiplier");
    assert_nearly_equal(
        -0.05589931687960018,
        cost_at(&SOLUTION_HARD, SOLUTION_HARD_SCALE) as f64 / (2.0 * scale * scale),
        1e-12,
        1e-14,
        "cost",
    );
}

#[test]
fn hard_quadratic_is_deterministic() {
    let x = [123_456_789, -987_654_321, 555];
    assert_eq!(cost_at(&x, 1_000_000), cost_at(&x, 1_000_000));
    assert_eq!(gradient_at(&x, 1_000_000), gradient_at(&x, 1_000_000));
}

#[test]
fn hard_quadratic_rejects_a_wrong_input_length() {
    assert_eq!(3, HARD_QUADRATIC_DIMENSION);
    let mut cost = 17;
    let mut grad = [1, 2, 3];
    for len in [0usize, 1, 2, 4, 9] {
        let u = vec![1i64; len];
        let expected = Err(Error::DimensionMismatch { expected: 3, actual: len });
        assert_eq!(expected, hard_quadratic_cost(&u, 1, &mut cost));
        assert_eq!(expected, hard_quadratic_gradient(&u, 1, &mut grad));
        assert_eq!(17, cost);
        assert_eq!([1, 2, 3], grad);
    }
}

#[test]
fn hard_quadratic_rejects_a_wrong_buffer_length() {
    let u = [1, 2, 3];
    for len in [0usize, 1, 2, 4] {
        let mut grad = vec![5i128; len];
        assert_eq!(
            Err(Error::DimensionMismatch { expected: 3, actual: len }),
            hard_quadratic_gradient(&u, 1, &mut grad)
        );
        assert_eq!(vec![5i128; len], grad);
    }
    // A wrong input length is reported before a wrong buffer length.
    let mut short = [0i128; 2];
    assert_eq!(
        Err(Error::DimensionMismatch { expected: 3, actual: 4 }),
        hard_quadratic_gradient(&[1, 2, 3, 4], 1, &mut short)
    );
    // And a wrong buffer length before a point off the grid.
    assert_eq!(
        Err(Error::DimensionMismatch { expected: 3, actual: 2 }),
        hard_quadratic_gradient(&[1, 2, 3], 0, &mut short)
    );
}

#[test]
fn hard_quadratic_range() {
    let limit = QUADRATIC_LIMIT;
    assert_eq!(100_000_000_000_000_000, limit);
    let mut cost = 3;
    let mut grad = [7, 8, 9];
    for scale in [0, -1, i64::MIN, limit + 1, i64::MAX] {
        assert_eq!(Err(Error::OutOfRange), hard_quadratic_cost(&[1, 2, 3], scale, &mut cost));
        assert_eq!(Err(Error::OutOfRange), hard_quadratic_gradient(&[1, 2, 3], scale, &mut grad));
    }
    for bad in [limit + 1, -limit - 1, i64::MAX, i64::MIN] {
        for i in 0..3 {
            let mut u = [0i64; 3];
            u[i] = bad;
            assert_eq!(Err(Error::OutOfRange), hard_quadratic_cost(&u, 1, &mut cost));
            assert_eq!(Err(Error::OutOfRange), hard_quadratic_gradient(&u, 1, &mut grad));
        }
    }
    assert_eq!(3, cost);
    assert_eq!([7, 8, 9], grad);
    // The corners of the grid are evaluated exactly.
    let l = limit as i128;
    assert_eq!(1092 * l * l, cost_at(&[limit, limit, limit], limit));
    assert_eq!([35 * l, 22 * l, 1032 * l], gradient_at(&[limit, limit, limit], limit));
    assert_eq!(1080 * l * l, cost_at(&[-limit, -limit, -limit], limit));
    assert_eq!([-33 * l, -20 * l, -1030 * l], gradient_at(&[-limit, -limit, -limit], limit));
}
