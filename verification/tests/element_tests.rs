use fenris::element::{evaluate_basis, evaluate_gradients, reference_node, ElementShape};
use fenris::geometry::{det2, diameter_squared, map_reference_coords, reference_jacobian, Element};
use fenris::rational::{RVec, Rational};

fn rvec(nums: &[i128], den: i128) -> RVec {
    RVec::new(nums.to_vec(), den)
}

fn element(shape: ElementShape, xs: &[i128], ys: &[i128], den: i128) -> Element {
    Element::from_shape_and_coords(shape, vec![xs.to_vec(), ys.to_vec()], den)
}

fn element3(shape: ElementShape, xs: &[i128], ys: &[i128], zs: &[i128], den: i128) -> Element {
    Element::from_shape_and_coords(shape, vec![xs.to_vec(), ys.to_vec(), zs.to_vec()], den)
}

/// Basis values at every reference node form the identity: one at the node's
/// own index, zero elsewhere, exactly.
fn check_lagrange(shape: ElementShape) {
    let n = shape.num_nodes();
    for j in 0..n {
        let xi = reference_node(shape, j);
        let phi = evaluate_basis(shape, &xi);
        for i in 0..n {
            let expected = if i == j { phi.den } else { 0 };
            assert_eq!(phi.nums[i], expected, "shape {:?}, node {}, basis {}", shape, j, i);
        }
    }
}

#[test]
fn tri3d2_lagrange_property() {
    check_lagrange(ElementShape::Tri3d2);
}

#[test]
fn tri6d2_lagrange_property() {
    check_lagrange(ElementShape::Tri6d2);
}

#[test]
fn quad9_lagrange_property() {
    check_lagrange(ElementShape::Quad9d2);
}

#[test]
fn tet4_lagrange_property() {
    check_lagrange(ElementShape::Tet4);
}

#[test]
fn hex8_lagrange_property() {
    check_lagrange(ElementShape::Hex8);
}

#[test]
fn quad4_lagrange_property() {
    check_lagrange(ElementShape::Quad4d2);
}

#[test]
fn segment_lagrange_property() {
    check_lagrange(ElementShape::Segment2d2);
}

/// Partition of unity at an interior point with an awkward denominator: the
/// basis numerators sum exactly to the shared denominator, and the gradient
/// numerators sum to zero in each direction.
fn check_partition(shape: ElementShape, xi: &RVec) {
    let phi = evaluate_basis(shape, xi);
    let sum: i128 = phi.nums.iter().sum();
    assert_eq!(sum, phi.den, "partition of unity fails for {:?}", shape);
    let grads = evaluate_gradients(shape, xi);
    let r = shape.reference_dim();
    let n = shape.num_nodes();
    for k in 0..r {
        let mut sum: i128 = 0;
        for i in 0..n {
            sum += grads.nums[i * r + k];
        }
        assert_eq!(sum, 0, "gradient sum fails for {:?} direction {}", shape, k);
    }
}

#[test]
fn partition_of_unity_all_shapes() {
    check_partition(ElementShape::Segment2d2, &rvec(&[3], 7));
    check_partition(ElementShape::Tri3d2, &rvec(&[-2, -3], 7));
    check_partition(ElementShape::Tri6d2, &rvec(&[-2, -3], 7));
    check_partition(ElementShape::Quad4d2, &rvec(&[2, -5], 7));
    check_partition(ElementShape::Quad9d2, &rvec(&[2, -5], 7));
    check_partition(ElementShape::Tet4, &rvec(&[-3, -4, -5], 7));
    check_partition(ElementShape::Hex8, &rvec(&[3, -4, 5], 7));
}

#[test]
fn map_reference_coords_quad2d() {
    let quad = element(ElementShape::Quad4d2, &[5, 10, 11, 6], &[3, 4, 6, 4], 1);

    let x0 = map_reference_coords(&quad, &rvec(&[-1, -1], 1));
    assert_eq!(x0.nums[0], 5 * x0.den);
    assert_eq!(x0.nums[1], 3 * x0.den);

    let x1 = map_reference_coords(&quad, &rvec(&[1, -1], 1));
    assert_eq!(x1.nums[0], 10 * x1.den);
    assert_eq!(x1.nums[1], 4 * x1.den);

    let x2 = map_reference_coords(&quad, &rvec(&[1, 1], 1));
    assert_eq!(x2.nums[0], 11 * x2.den);
    assert_eq!(x2.nums[1], 6 * x2.den);

    let x3 = map_reference_coords(&quad, &rvec(&[-1, 1], 1));
    assert_eq!(x3.nums[0], 6 * x3.den);
    assert_eq!(x3.nums[1], 4 * x3.den);
}

#[test]
fn map_reference_coords_edge2d() {
    let edge = element(ElementShape::Segment2d2, &[5, 10], &[3, 4], 1);

    let x0 = map_reference_coords(&edge, &rvec(&[-1], 1));
    assert_eq!(x0.nums[0], 5 * x0.den);
    assert_eq!(x0.nums[1], 3 * x0.den);

    let x1 = map_reference_coords(&edge, &rvec(&[1], 1));
    assert_eq!(x1.nums[0], 10 * x1.den);
    assert_eq!(x1.nums[1], 4 * x1.den);

    // Midpoint: (a + b) / 2 = (15/2, 7/2).
    let x2 = map_reference_coords(&edge, &rvec(&[0], 1));
    let x2x = x2.entry_rat(0);
    let x2y = x2.entry_rat(1);
    assert!(x2x.eq_rat(&Rational::new(15, 2)));
    assert!(x2y.eq_rat(&Rational::new(7, 2)));

    // Quarter point t = 1/2: 0.25 a + 0.75 b = (35/4, 15/4).
    let x3 = map_reference_coords(&edge, &rvec(&[1], 2));
    assert!(x3.entry_rat(0).eq_rat(&Rational::new(35, 4)));
    assert!(x3.entry_rat(1).eq_rat(&Rational::new(15, 4)));
}

/// The Jacobian equals the central finite-difference quotient of the map,
/// exactly: for the multilinear and quadratic bases, the central difference
/// of a polynomial of degree at most two in each variable reproduces the
/// derivative with no truncation error.
#[test]
fn jacobian_matches_central_difference_quad4() {
    let quad = element(ElementShape::Quad4d2, &[-1, 2, 4, -2], &[-1, -2, 1, 3], 1);
    // Base point (1/2, -1/3) and step 1/5 in each direction, over a common
    // denominator of 30.
    let xi = [15i128, -10];
    let den = 30i128;
    let h = 6i128;  // 1/5 over 30
    let j = reference_jacobian(&quad, &rvec(&xi, den));
    for k in 0..2usize {
        let mut plus = xi;
        plus[k] += h;
        let mut minus = xi;
        minus[k] -= h;
        let xp = map_reference_coords(&quad, &rvec(&plus, den));
        let xm = map_reference_coords(&quad, &rvec(&minus, den));
        for l in 0..2usize {
            // (map(xi + h e_k) - map(xi - h e_k)) / (2 h) == J[l][k]
            let diff_num = xp.nums[l] - xm.nums[l];
            let diff = Rational::new(diff_num, xp.den);
            let jlk = j.entry_rat(l, k);
            let two_h_jlk = Rational::new(2 * h * jlk.num, den * jlk.den);
            assert!(diff.eq_rat(&two_h_jlk), "direction {}, coordinate {}", k, l);
        }
    }
}

/// For a counterclockwise triangle the Jacobian determinant is nonnegative
/// (and constant over the domain).
#[test]
fn tri3_jacobian_determinant_nonnegative() {
    let tri = element(ElementShape::Tri3d2, &[1, 2, -1], &[0, 1, 2], 1);
    for pt in [[-1i128, -1], [1, -1], [-1, 1], [0, 0], [-1, 0]] {
        let j = reference_jacobian(&tri, &rvec(&pt, 1));
        let det = det2(&j);
        assert!(det.num > 0);
    }
}

/// For a convex counterclockwise quadrilateral the Jacobian determinant is
/// nonnegative throughout the reference domain (sampled over a grid).
#[test]
fn quad4_jacobian_determinant_nonnegative() {
    let quad = element(ElementShape::Quad4d2, &[5, 10, 11, 6], &[3, 4, 6, 4], 1);
    for xn in -4i128..=4 {
        for yn in -4i128..=4 {
            let j = reference_jacobian(&quad, &rvec(&[xn, yn], 4));
            let det = det2(&j);
            assert!(det.num > 0, "determinant sign at ({}/4, {}/4)", xn, yn);
        }
    }
}

#[test]
fn diameter_squared_quad() {
    let quad = element(ElementShape::Quad4d2, &[5, 10, 11, 6], &[3, 4, 6, 4], 1);
    let d2 = diameter_squared(&quad);
    // Largest inter-vertex distance: (5,3) to (11,6), squared 36 + 9 = 45.
    assert!(d2.eq_rat(&Rational::new(45, 1)));
}
