//! Benchmark objective functions for testing optimisation solvers, evaluated
//! in exact arithmetic.
//!
//! A point is a list of integer numerators over one positive `scale`: the
//! numerators `[15, 26, -37]` over the scale `10` stand for the point
//! `(1.5, 2.6, -3.7)`. Every evaluator returns the exact numerator of its
//! value over a denominator that its documentation names, so that the
//! gradient of each benchmark is the derivative of its cost as a proved
//! identity and not up to rounding.

pub mod algebra;
pub mod grid;
pub mod hard_quadratic;
pub mod lipschitz;
pub mod quadratic;
pub mod rosenbrock;
pub mod void;

pub use grid::{check_buffers, check_dimension, check_point, check_range, Error};
pub use grid::{QUADRATIC_LIMIT, ROSENBROCK_LIMIT};
pub use hard_quadratic::{
    hard_quadratic_cost, hard_quadratic_gradient, HARD_QUADRATIC_DIMENSION,
    HARD_QUADRATIC_LIPSCHITZ, SOLUTION_HARD, SOLUTION_HARD_SCALE,
};
pub use quadratic::{my_cost, my_gradient, QUADRATIC_DIMENSION, SOLUTION_A, SOLUTION_A_SCALE};
pub use lipschitz::{lipschitz_mock, LIPSCHITZ_DIMENSION};
pub use void::{void_cost, void_gradient};
pub use rosenbrock::{rosenbrock_cost, rosenbrock_grad, ROSENBROCK_DIMENSION};
