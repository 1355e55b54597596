use fenris::element::ElementShape;
use fenris::error::estimate_element_L2_error_squared;
use fenris::geometry::{map_reference_coords, Element};
use fenris::operators::{
    accumulate_contractions_into, EllipticContraction, EllipticEnergy, EllipticOperator,
    LaplaceOperator,
};
use fenris::quadrature;
use fenris::rational::{MatR, RVec, Rational};

fn rvec(nums: &[i128], den: i128) -> RVec {
    RVec::new(nums.to_vec(), den)
}

/// The end-to-end scenario: a 4-node quadrilateral carrying an
/// exactly-bilinear nodal field reproduces its analytically known squared L2
/// error against a higher-order reference field, exactly (the integrand has
/// degree at most five per variable, within the quadrature's strength).
#[test]
fn quad4_bilinear_function_exact_error() {
    let quad = Element::from_shape_and_coords(
        ElementShape::Quad4d2,
        vec![vec![-1, 2, 4, -2], vec![-1, -2, 1, 3]],
        1,
    );
    // u_exact(x, y) = 5 x y + 3 x - 2 y - 5; the nodal weights interpolate it.
    let u_exact = |xn: i128, yn: i128, den: i128| -> (i128, i128) {
        (5 * xn * yn + 3 * xn * den - 2 * yn * den - 5 * den * den, den * den)
    };
    let u_h: Vec<i128> = vec![
        u_exact(-1, -1, 1).0,
        u_exact(2, -2, 1).0,
        u_exact(4, 1, 1).0,
        u_exact(-2, 3, 1).0,
    ];
    let u_h = rvec(&u_h, 1);

    let rule = quadrature::quadrilateral(5).unwrap();
    // Evaluate the reference field exactly at the physical image of each
    // quadrature point. All images share one denominator.
    let nq = rule.num_points();
    let mut u_nums: Vec<i128> = Vec::new();
    let mut u_den: i128 = 1;
    for q in 0..nq {
        let xi = rvec(&[rule.points[2 * q], rule.points[2 * q + 1]], rule.pden);
        let x = map_reference_coords(&quad, &xi);
        let (un, ud) = u_exact(x.nums[0], x.nums[1], x.den);
        u_nums.push(un);
        u_den = ud;
    }
    let u = rvec(&u_nums, u_den);

    let error_squared = estimate_element_L2_error_squared(&quad, &u, &u_h, &rule);
    // The squared L2 error of the interpolant, known in closed form.
    assert!(error_squared.eq_rat(&Rational::new(9955, 12)));
}

/// An inexact field gives a strictly positive squared error.
#[test]
fn quad4_non_representable_function_positive_error() {
    let quad = Element::from_shape_and_coords(
        ElementShape::Quad4d2,
        vec![vec![-1, 1, 1, -1], vec![-1, -1, 1, 1]],
        1,
    );
    // Reference field x^2 with zero nodal weights: the error is the L2 norm
    // of x^2 itself.
    let u_h = rvec(&[0, 0, 0, 0], 1);
    let rule = quadrature::quadrilateral(5).unwrap();
    let nq = rule.num_points();
    let mut u_nums: Vec<i128> = Vec::new();
    let mut u_den: i128 = 1;
    for q in 0..nq {
        let xi = rvec(&[rule.points[2 * q], rule.points[2 * q + 1]], rule.pden);
        let x = map_reference_coords(&quad, &xi);
        u_nums.push(x.nums[0] * x.nums[0]);
        u_den = x.den * x.den;
    }
    let u = rvec(&u_nums, u_den);
    let error_squared = estimate_element_L2_error_squared(&quad, &u, &u_h, &rule);
    // integral of x^4 over [-1,1]^2 = 4/5.
    assert!(error_squared.eq_rat(&Rational::new(4, 5)));
}

#[test]
fn quadrature_weights_sum_to_reference_measure() {
    let q = quadrature::quadrilateral(5).unwrap();
    let s: i128 = q.weights.iter().sum();
    assert_eq!(s, 4 * q.wden);

    let t = quadrature::triangle(2).unwrap();
    let s: i128 = t.weights.iter().sum();
    assert_eq!(s, 2 * t.wden);

    let h = quadrature::hexahedron(3).unwrap();
    let s: i128 = h.weights.iter().sum();
    assert_eq!(s, 8 * h.wden);

    let tet = quadrature::tetrahedron(2).unwrap();
    let s: i128 = tet.weights.iter().sum();
    assert_eq!(3 * s, 4 * tet.wden);
}

/// The "strength not available" signal comes exactly above the table.
#[test]
fn quadrature_strength_not_available() {
    assert!(quadrature::quadrilateral(6).is_err());
    assert!(quadrature::quadrilateral(5).is_ok());
    assert!(quadrature::triangle(3).is_err());
    assert!(quadrature::triangle(2).is_ok());
    assert!(quadrature::hexahedron(4).is_err());
    assert!(quadrature::tetrahedron(11).is_err());
}

/// Batched contraction accumulation equals adding each individually scaled
/// single-pair contraction into its block.
#[test]
fn batched_contraction_matches_single_pairs() {
    let op = LaplaceOperator;
    // Gradient of a scalar field in two dimensions (contents are irrelevant
    // for the Laplace contraction, which is the direction inner product).
    let gradient = MatR { nums: vec![3, -2], den: 4, nrows: 2, ncols: 1 };
    // Two stacked directions in a, three in b.
    let a = rvec(&[1, 2, -3, 4], 5);
    let b = rvec(&[5, -6, 7, 8, 0, 2], 3);
    let alpha = Rational::new(2, 7);
    let mut output = MatR { nums: vec![10, 20, 30, 40, 50, 60], den: 7 * (5 * 3), nrows: 2, ncols: 3 };
    let before = output.nums.clone();
    accumulate_contractions_into(&op, &mut output, &alpha, &gradient, &a, &b, &());

    for bi in 0..2usize {
        for bj in 0..3usize {
            // Single-pair contraction: dot(a_I, b_J) over (5 * 3).
            let dot = a.nums[2 * bi] * b.nums[2 * bj] + a.nums[2 * bi + 1] * b.nums[2 * bj + 1];
            let expected = before[bj * 2 + bi] + alpha.num * dot;
            assert_eq!(output.nums[bj * 2 + bi], expected, "block ({}, {})", bi, bj);
        }
    }
    assert_eq!(output.den, 7 * 15);
}

/// The Laplace operator family: the elliptic term is the gradient itself, the
/// contraction of unit directions is their inner product, and the energy is
/// half the squared gradient norm.
#[test]
fn laplace_operator_values() {
    let op = LaplaceOperator;
    let gradient = MatR { nums: vec![3, -4], den: 2, nrows: 2, ncols: 1 };
    let term = op.compute_elliptic_term(&gradient, &());
    assert_eq!(term.nums, vec![3, -4]);
    assert_eq!(term.den, 2);

    let a = rvec(&[1, 0], 1);
    let b = rvec(&[0, 1], 1);
    let c = op.contract(&gradient, &a, &b, &());
    assert_eq!(c.nums, vec![0]);
    let c2 = op.contract(&gradient, &a, &a, &());
    assert_eq!(c2.nums, vec![1]);
    assert_eq!(c2.den, 1);

    // Energy: (9/4 + 16/4) / 2 = 25/8.
    let e = op.compute_energy(&gradient, &());
    assert!(e.eq_rat(&Rational::new(25, 8)));
}
