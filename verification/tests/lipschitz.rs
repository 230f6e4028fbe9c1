use mocks::{lipschitz_mock, Error, LIPSCHITZ_DIMENSION, QUADRATIC_LIMIT};

fn value_at(u: &[i64], scale: i64) -> [i128; 3] {
    let mut g = [0; 3];
    assert_eq!(Ok(()), lipschitz_mock(u, scale, &mut g));
    g
}

#[test]
fn lipschitz_mock_values() {
    // g(1.5, 2.5, 7) = (4.5, 5, 4.5), in halves over the doubled scale 4.
    let g = value_at(&[3, 5, 14], 2);
    assert_eq!([18, 20, 18], g);
    let values = [g[0] as f64 / 4.0, g[1] as f64 / 4.0, g[2] as f64 / 4.0];
    assert_eq!([4.5, 5.0, 4.5], values);
    assert_eq!([0, 0, 9], value_at(&[0, 0, 0], 1));
    assert_eq!([-6, 8, 9], value_at(&[-1, 2, 1000], 1));
}

#[test]
fn lipschitz_mock_ignores_the_third_variable() {
    for third in [-5i64, 0, 1, 99_999] {
        assert_eq!([60, 80, 45], value_at(&[10, 20, third], 5));
    }
}

#[test]
fn lipschitz_mock_jacobian_and_modulus() {
    let scale = 10;
    let u = [12i64, -7, 3];
    let base = value_at(&u, scale);
    let mut jacobian = [[0i128; 3]; 3];
    for j in 0..3 {
        let mut moved = u;
        moved[j] += 1;
        let g = value_at(&moved, scale);
        for i in 0..3 {
            jacobian[i][j] = g[i] - base[i];
        }
    }
    // diag(3, 2, 0) over the doubled denominator.
    assert_eq!([[6, 0, 0], [0, 4, 0], [0, 0, 0]], jacobian);
    for step in [[1i64, 0, 0], [0, 1, 0], [0, 0, 1], [3, -4, 5], [-100, 100, 1]] {
        let moved = [u[0] + step[0], u[1] + step[1], u[2] + step[2]];
        let g = value_at(&moved, scale);
        let mut moved_by = 0i128;
        let mut stepped = 0i128;
        for i in 0..3 {
            moved_by += (g[i] - base[i]) * (g[i] - base[i]);
            stepped += (step[i] as i128) * (step[i] as i128);
        }
        assert!(moved_by <= 36 * stepped);
        if step[1] == 0 && step[2] == 0 {
            assert_eq!(36 * stepped, moved_by);
        }
    }
}

#[test]
fn lipschitz_mock_is_deterministic() {
    assert_eq!(value_at(&[5, 6, 7], 3), value_at(&[5, 6, 7], 3));
}

#[test]
fn lipschitz_mock_rejects_wrong_lengths() {
    assert_eq!(3, LIPSCHITZ_DIMENSION);
    let mut g = [1, 2, 3];
    for len in [0usize, 1, 2, 4] {
        let u = vec![1i64; len];
        assert_eq!(
            Err(Error::DimensionMismatch { expected: 3, actual: len }),
            lipschitz_mock(&u, 1, &mut g)
        );
        assert_eq!([1, 2, 3], g);
        let mut out = vec![9i128; len];
        assert_eq!(
            Err(Error::DimensionMismatch { expected: 3, actual: len }),
            lipschitz_mock(&[1, 2, 3], 1, &mut out)
        );
        assert_eq!(vec![9i128; len], out);
    }
}

#[test]
fn lipschitz_mock_range() {
    let limit = QUADRATIC_LIMIT;
    let mut g = [1, 2, 3];
    for scale in [0, -3, limit + 1] {
        assert_eq!(Err(Error::OutOfRange), lipschitz_mock(&[1, 2, 3], scale, &mut g));
    }
    for i in 0..3 {
        let mut u = [0i64; 3];
        u[i] = limit + 1;
        assert_eq!(Err(Error::OutOfRange), lipschitz_mock(&u, 1, &mut g));
        u[i] = -limit - 1;
        assert_eq!(Err(Error::OutOfRange), lipschitz_mock(&u, 1, &mut g));
    }
    assert_eq!([1, 2, 3], g);
    let l = limit as i128;
    assert_eq!([6 * l, -4 * l, 9 * l], value_at(&[limit, -limit, limit], limit));
}
