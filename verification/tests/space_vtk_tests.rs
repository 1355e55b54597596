use fenris::closest::{closest_point_segment, closest_point_tri3, ClosestPoint};
use fenris::element::ElementShape;
use fenris::geometry::{map_reference_coords, Element};
use fenris::rational::{RVec, Rational};
use fenris::space::{
    element_bounds, BoundsForElementInSpace, ElementInSpace, FiniteElementConnectivity,
    FiniteElementSpace, GeometricFiniteElementSpace, Mesh,
};
use fenris::quadrature;
use fenris::vtk::{
    element_point_cloud, vtk_cell_buffers, vtk_point_buffer, CellKind, Hex20Connectivity,
    Hex27Connectivity, Quad4d2Connectivity, Tet10Connectivity, Tri3d2Connectivity,
    VtkCellConnectivity,
};
use fenris::Symmetry;

fn rvec(nums: &[i128], den: i128) -> RVec {
    RVec::new(nums.to_vec(), den)
}

fn two_triangle_mesh() -> Mesh {
    // Unit square split along the diagonal, scaled by 1/2.
    Mesh {
        shape: ElementShape::Tri3d2,
        coords: vec![vec![0, 2, 2, 0], vec![0, 0, 2, 2]],
        vden: 2,
        connectivity: vec![vec![0, 1, 2], vec![0, 2, 3]],
    }
}

#[test]
fn mesh_connectivity_queries() {
    let mesh = two_triangle_mesh();
    assert_eq!(mesh.num_elements(), 2);
    assert_eq!(mesh.num_nodes(), 4);
    assert_eq!(mesh.element_node_count(1), 3);
    let mut nodes: Vec<usize> = Vec::new();
    mesh.populate_element_nodes(&mut nodes, 1);
    assert_eq!(nodes, vec![0, 2, 3]);
}

#[test]
fn element_in_space_maps_like_the_gathered_element() {
    let mesh = two_triangle_mesh();
    let view = ElementInSpace::from_space_and_element_index(&mesh, 0);
    assert_eq!(view.num_nodes(), 3);
    let xi = rvec(&[-1, -1], 1);
    let x = view.map_reference_coords(&xi);
    // Node 0 of element 0 is the vertex (0, 0).
    assert_eq!(x.nums[0], 0);
    assert_eq!(x.nums[1], 0);

    let el = mesh.geometry_for_element(0);
    let x2 = map_reference_coords(&el, &rvec(&[1, -1], 1));
    // Vertex (1, 0): numerators over den.
    assert!(x2.entry_rat(0).eq_rat(&Rational::new(1, 1)));
    assert!(x2.entry_rat(1).eq_rat(&Rational::new(0, 1)));
}

#[test]
fn mesh_bounds_cover_all_vertices() {
    let mesh = two_triangle_mesh();
    let all = mesh.bounds_for_all_elements();
    assert_eq!(all.len(), 2);
    // First triangle spans x in [0, 1], y in [0, 1] (denominator 2).
    assert_eq!(all[0].min.nums, vec![0, 0]);
    assert_eq!(all[0].max.nums, vec![2, 2]);
    assert_eq!(all[0].min.den, 2);

    let el = mesh.geometry_for_element(1);
    let b = element_bounds(&el);
    assert_eq!(b.min.nums, vec![0, 0]);
    assert_eq!(b.max.nums, vec![2, 2]);
}

#[test]
fn closest_point_segment_round_trip() {
    // Segment from (5, 3) to (10, 4).
    let edge = Element::from_shape_and_coords(
        ElementShape::Segment2d2,
        vec![vec![5, 10], vec![3, 4]],
        1,
    );
    // x is the image of t = 1/3; projecting it back returns t exactly and
    // the image of the result is x itself.
    let x = map_reference_coords(&edge, &rvec(&[1], 3));
    let x = rvec(&[x.nums[0], x.nums[1]], x.den);
    let r = closest_point_segment(&edge, &x);
    assert!(matches!(r, ClosestPoint::InElement(_)));
    let t = r.point();
    let back = map_reference_coords(&edge, t);
    assert!(back.entry_rat(0).eq_rat(&x.entry_rat(0)));
    assert!(back.entry_rat(1).eq_rat(&x.entry_rat(1)));
}

#[test]
fn closest_point_segment_normal_displacement() {
    // Segment from (0, 0) to (10, 0); its outward normal is the y axis. A
    // point displaced from the image of t = -1/2 along the normal projects
    // back to that same boundary point.
    let edge = Element::from_shape_and_coords(
        ElementShape::Segment2d2,
        vec![vec![0, 10], vec![0, 0]],
        1,
    );
    let foot = map_reference_coords(&edge, &rvec(&[-1], 2));
    let x = rvec(&[foot.nums[0], foot.nums[1] + 3 * foot.den], foot.den);
    let r = closest_point_segment(&edge, &x);
    assert!(matches!(r, ClosestPoint::InElement(_)));
    let back = map_reference_coords(&edge, r.point());
    assert!(back.entry_rat(0).eq_rat(&foot.entry_rat(0)));
    assert!(back.entry_rat(1).eq_rat(&foot.entry_rat(1)));
}

#[test]
fn closest_point_segment_clamps_and_degenerates() {
    let edge = Element::from_shape_and_coords(
        ElementShape::Segment2d2,
        vec![vec![0, 10], vec![0, 0]],
        1,
    );
    // Far beyond the second endpoint: clamped to t = 1.
    let r = closest_point_segment(&edge, &rvec(&[25, 4], 1));
    assert!(matches!(r, ClosestPoint::ClosestPoint(_)));
    let back = map_reference_coords(&edge, r.point());
    assert!(back.entry_rat(0).eq_rat(&Rational::new(10, 1)));
    // Before the first endpoint: clamped to t = -1.
    let r = closest_point_segment(&edge, &rvec(&[-7, 1], 1));
    assert!(matches!(r, ClosestPoint::ClosestPoint(_)));
    let back = map_reference_coords(&edge, r.point());
    assert!(back.entry_rat(0).eq_rat(&Rational::new(0, 1)));

    // Collapsed to a point: any query projects to that point.
    let dot = Element::from_shape_and_coords(
        ElementShape::Segment2d2,
        vec![vec![3, 3], vec![3, 3]],
        1,
    );
    let r = closest_point_segment(&dot, &rvec(&[2, 2], 1));
    assert!(matches!(r, ClosestPoint::ClosestPoint(_)));
    let back = map_reference_coords(&dot, r.point());
    assert!(back.entry_rat(0).eq_rat(&Rational::new(3, 1)));
    assert!(back.entry_rat(1).eq_rat(&Rational::new(3, 1)));
}

#[test]
fn vtk_connectivity_permutations() {
    let tet10 = Tet10Connectivity((0..10usize).collect());
    let mut buf: Vec<usize> = Vec::new();
    tet10.write_vtk_connectivity(&mut buf);
    assert_eq!(buf, vec![0, 1, 2, 3, 4, 5, 6, 7, 9, 8]);
    assert!(matches!(tet10.cell_type(), CellKind::QuadraticTetra));

    let hex20 = Hex20Connectivity((0..20usize).collect());
    hex20.write_vtk_connectivity(&mut buf);
    assert_eq!(
        buf,
        vec![0, 1, 2, 3, 4, 5, 6, 7, 8, 11, 13, 9, 16, 18, 19, 17, 10, 12, 14, 15],
    );
    assert!(matches!(hex20.cell_type(), CellKind::QuadraticHexahedron));

    // The 27-node hexahedron is written as a 20-node one.
    let hex27 = Hex27Connectivity((10..37usize).collect());
    assert_eq!(hex27.num_nodes(), 20);
    hex27.write_vtk_connectivity(&mut buf);
    assert_eq!(
        buf,
        vec![10, 11, 12, 13, 14, 15, 16, 17, 18, 21, 23, 19, 26, 28, 29, 27, 20, 22, 24, 25],
    );
}

#[test]
fn vtk_buffers_layout() {
    // Two-dimensional coordinates are padded with a zero third component.
    let points = vtk_point_buffer(&vec![vec![1, 2], vec![3, 4]]);
    assert_eq!(points, vec![1, 3, 0, 2, 4, 0]);

    let cells = vec![
        Tri3d2Connectivity(vec![0, 1, 2]),
        Tri3d2Connectivity(vec![0, 2, 3]),
    ];
    let (vertices, kinds) = vtk_cell_buffers(&cells);
    assert_eq!(vertices, vec![3, 0, 1, 2, 3, 0, 2, 3]);
    assert_eq!(kinds.len(), 2);
    assert!(matches!(kinds[0], CellKind::Triangle));

    let quads = vec![Quad4d2Connectivity(vec![4, 5, 6, 7])];
    let (vertices, kinds) = vtk_cell_buffers(&quads);
    assert_eq!(vertices, vec![4, 4, 5, 6, 7]);
    assert!(matches!(kinds[0], CellKind::Quad));
}

#[test]
fn symmetry_is_a_plain_tag() {
    let s = Symmetry::Symmetric;
    assert!(s == Symmetry::Symmetric);
    assert!(Symmetry::NonSymmetric != Symmetry::Symmetric);
}

fn tri3(xs: [i128; 3], ys: [i128; 3], den: i128) -> Element {
    Element::from_shape_and_coords(ElementShape::Tri3d2, vec![xs.to_vec(), ys.to_vec()], den)
}

fn assert_maps_to(el: &Element, r: &ClosestPoint, expected_x: Rational, expected_y: Rational) {
    let back = map_reference_coords(el, r.point());
    assert!(back.entry_rat(0).eq_rat(&expected_x));
    assert!(back.entry_rat(1).eq_rat(&expected_y));
}

#[test]
fn tri3d2_closest_point_is_a_vertex() {
    let element = tri3([1, 2, -1], [0, 1, 2], 1);

    let r = closest_point_tri3(&element, &rvec(&[5, 2], 1));
    assert!(matches!(r, ClosestPoint::ClosestPoint(_)));
    // Reference coordinates of the second vertex.
    assert!(r.point().entry_rat(0).eq_rat(&Rational::new(1, 1)));
    assert!(r.point().entry_rat(1).eq_rat(&Rational::new(-1, 1)));

    let r = closest_point_tri3(&element, &rvec(&[2, -1], 1));
    assert!(matches!(r, ClosestPoint::ClosestPoint(_)));
    assert!(r.point().entry_rat(0).eq_rat(&Rational::new(-1, 1)));
    assert!(r.point().entry_rat(1).eq_rat(&Rational::new(-1, 1)));

    let r = closest_point_tri3(&element, &rvec(&[-3, 2], 1));
    assert!(matches!(r, ClosestPoint::ClosestPoint(_)));
    assert!(r.point().entry_rat(0).eq_rat(&Rational::new(-1, 1)));
    assert!(r.point().entry_rat(1).eq_rat(&Rational::new(1, 1)));
}

#[test]
fn tri3d2_closest_point_interior_point() {
    let element = tri3([1, 2, -1], [0, 1, 2], 1);
    // The image of the interior reference point (-1/2, -1/2).
    let x = map_reference_coords(&element, &rvec(&[-1, -1], 2));
    let x = rvec(&[x.nums[0], x.nums[1]], x.den);
    let r = closest_point_tri3(&element, &x);
    assert!(matches!(r, ClosestPoint::InElement(_)));
    assert_maps_to(&element, &r, x.entry_rat(0), x.entry_rat(1));
}

#[test]
fn tri3d2_closest_point_degenerate_elements() {
    // Degenerate to a single point: every query projects to that point.
    let element = tri3([3, 3, 3], [3, 3, 3], 1);
    let r = closest_point_tri3(&element, &rvec(&[2, 2], 1));
    assert_maps_to(&element, &r, Rational::new(3, 1), Rational::new(3, 1));

    // Degenerate to a line: queries project to the nearest point on it.
    let element = tri3([10, 20, 5], [10, 10, 10], 10);
    let r = closest_point_tri3(&element, &rvec(&[13, 15], 10));
    assert_maps_to(&element, &r, Rational::new(13, 10), Rational::new(1, 1));
}

#[test]
fn tri3d2_closest_point_boundary_points() {
    // Map points from the boundary of the reference element to physical
    // space over a uniform triangulation of the unit square, then check that
    // the closest point has the same reference coordinates.
    let res = 10i128;
    let boundary_points: [(i128, i128, i128); 6] =
        [(-1, -1, 1), (1, -1, 1), (-1, 1, 1), (-2, 1, 2), (1, -2, 2), (0, 0, 1)];
    for cx in 0..res {
        for cy in 0..res {
            // Two triangles per grid cell.
            let (x0, y0, x1, y1) = (cx, cy, cx + 1, cy + 1);
            let cells = [
                ([x0, x1, x1], [y0, y0, y1]),
                ([x0, x1, x0], [y0, y1, y1]),
            ];
            for (xs, ys) in cells {
                let element = tri3(xs, ys, res);
                for (xin, yin, d) in boundary_points {
                    let xi = rvec(&[xin, yin], d);
                    let x = map_reference_coords(&element, &xi);
                    let x = rvec(&[x.nums[0], x.nums[1]], x.den);
                    let r = closest_point_tri3(&element, &x);
                    assert!(
                        r.point().entry_rat(0).eq_rat(&xi.entry_rat(0)),
                        "cell ({}, {})",
                        cx,
                        cy,
                    );
                    assert!(r.point().entry_rat(1).eq_rat(&xi.entry_rat(1)));
                }
            }
        }
    }
}

#[test]
fn element_point_cloud_exact_weights() {
    // A triangle of area 2: the constant Jacobian determinant is 4, so with
    // the centroid rule (weight 2) the single physical weight is exactly 8...
    // scaled by the reference measure mapping: w_phys = w * |det J|.
    let element = tri3([0, 2, 0], [0, 0, 2], 1);
    let rule = quadrature::triangle(1).unwrap();
    let (points, weights) = element_point_cloud(&element, &rule);
    assert_eq!(points.len(), 1);
    assert_eq!(weights.len(), 1);
    // Centroid of the physical triangle: (2/3, 2/3).
    assert!(points[0].entry_rat(0).eq_rat(&Rational::new(2, 3)));
    assert!(points[0].entry_rat(1).eq_rat(&Rational::new(2, 3)));
    // |det J| = 1 (edge vectors (2,0) and (0,2), halved twice by the
    // reference scaling), times the weight 2.
    assert!(weights[0].eq_rat(&Rational::new(2, 1)));

    // The weights of all points of a rule sum to the element's area times
    // the reference-to-physical scale: total measure = area of the triangle.
    let rule = quadrature::triangle(2).unwrap();
    let (_, weights) = element_point_cloud(&element, &rule);
    let mut total = (0i128, 1i128);
    for w in &weights {
        total = (total.0 * w.den + w.num * total.1, total.1 * w.den);
    }
    assert_eq!(total.0 * 1, 2 * total.1);
}

#[test]
fn quadrature_tables_are_pinned() {
    let q = quadrature::quadrilateral(1).unwrap();
    assert_eq!(q.weights, vec![4]);
    assert_eq!(q.points, vec![0, 0]);
    let q = quadrature::quadrilateral(2).unwrap();
    assert_eq!(q.weights.len(), 9);
    assert_eq!(q.wden, 9);
    let t = quadrature::triangle(1).unwrap();
    assert_eq!(t.weights, vec![2]);
    assert_eq!(t.pden, 3);
}

#[test]
fn diameter_squared_through_the_space() {
    let mesh = two_triangle_mesh();
    let view = ElementInSpace::from_space_and_element_index(&mesh, 0);
    let d2 = view.diameter_squared();
    // Element 0 spans (0,0), (1,0), (1,1): largest squared distance 2.
    assert!(d2.eq_rat(&Rational::new(2, 1)));
}
