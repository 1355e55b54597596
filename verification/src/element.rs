//! Reference element shapes, basis function evaluation, and the isoparametric
//! geometric map.
//!
//! Each shape's basis functions are closed-form polynomials over the reference
//! domain. A reference point is an [`RVec`] whose entries share one
//! denominator `d`; each shape's basis values are returned as numerators over
//! the shape-specific denominator [`basis_den`], so the values of all basis
//! functions at one point share a denominator by construction. The Lagrange
//! property and the partition of unity are proved exactly in
//! [`crate::element_laws`].

use vstd::prelude::*;
use crate::rational::{iabs, dot_prefix, MatR, RVec, Rational, mat_num};

verus! {

/// Bound on the numerators and denominator of a reference point accepted by
/// the evaluation routines (a machine limit: all intermediate products of the
/// polynomial evaluation must fit in an `i128`).
pub const REF_POINT_LIMIT: i128 = 1048576;

/// Bound on the numerators and denominator of element vertex coordinates
/// accepted by the geometric map (a machine limit, as above).
pub const VERTEX_LIMIT: i128 = 1048576;

/// The family of reference element shapes.
///
/// The tag encodes node count, reference dimension and geometry dimension:
/// for instance `Tri3d2` is the 3-node triangle embedded in two-dimensional
/// physical space.
#[derive(Copy, Clone, PartialEq, Eq, Structural, Debug)]
pub enum ElementShape {
    Segment2d2,
    Tri3d2,
    Tri6d2,
    Quad4d2,
    Quad9d2,
    Tet4,
    Hex8,
}

impl ElementShape {
    /// Number of nodes (equal to the number of basis functions).
    pub open spec fn num_nodes_spec(self) -> nat {
        match self {
            ElementShape::Segment2d2 => 2,
            ElementShape::Tri3d2 => 3,
            ElementShape::Tri6d2 => 6,
            ElementShape::Quad4d2 => 4,
            ElementShape::Quad9d2 => 9,
            ElementShape::Tet4 => 4,
            ElementShape::Hex8 => 8,
        }
    }

    /// Dimension of the reference domain.
    pub open spec fn reference_dim_spec(self) -> nat {
        match self {
            ElementShape::Segment2d2 => 1,
            ElementShape::Tri3d2 => 2,
            ElementShape::Tri6d2 => 2,
            ElementShape::Quad4d2 => 2,
            ElementShape::Quad9d2 => 2,
            ElementShape::Tet4 => 3,
            ElementShape::Hex8 => 3,
        }
    }

    /// Dimension of the physical space the element is embedded in.
    pub open spec fn geometry_dim_spec(self) -> nat {
        match self {
            ElementShape::Segment2d2 => 2,
            ElementShape::Tri3d2 => 2,
            ElementShape::Tri6d2 => 2,
            ElementShape::Quad4d2 => 2,
            ElementShape::Quad9d2 => 2,
            ElementShape::Tet4 => 3,
            ElementShape::Hex8 => 3,
        }
    }

    /// Polynomial degree of the basis.
    pub open spec fn degree_spec(self) -> nat {
        match self {
            ElementShape::Segment2d2 => 1,
            ElementShape::Tri3d2 => 1,
            ElementShape::Tri6d2 => 2,
            ElementShape::Quad4d2 => 1,
            ElementShape::Quad9d2 => 2,
            ElementShape::Tet4 => 1,
            ElementShape::Hex8 => 1,
        }
    }

    pub fn num_nodes(self) -> (n: usize)
        ensures
            n == self.num_nodes_spec(),
    {
        match self {
            ElementShape::Segment2d2 => 2,
            ElementShape::Tri3d2 => 3,
            ElementShape::Tri6d2 => 6,
            ElementShape::Quad4d2 => 4,
            ElementShape::Quad9d2 => 9,
            ElementShape::Tet4 => 4,
            ElementShape::Hex8 => 8,
        }
    }

    pub fn reference_dim(self) -> (n: usize)
        ensures
            n == self.reference_dim_spec(),
    {
        match self {
            ElementShape::Segment2d2 => 1,
            ElementShape::Tri3d2 => 2,
            ElementShape::Tri6d2 => 2,
            ElementShape::Quad4d2 => 2,
            ElementShape::Quad9d2 => 2,
            ElementShape::Tet4 => 3,
            ElementShape::Hex8 => 3,
        }
    }

    pub fn geometry_dim(self) -> (n: usize)
        ensures
            n == self.geometry_dim_spec(),
    {
        match self {
            ElementShape::Segment2d2 => 2,
            ElementShape::Tri3d2 => 2,
            ElementShape::Tri6d2 => 2,
            ElementShape::Quad4d2 => 2,
            ElementShape::Quad9d2 => 2,
            ElementShape::Tet4 => 3,
            ElementShape::Hex8 => 3,
        }
    }

    pub fn degree(self) -> (n: usize)
        ensures
            n == self.degree_spec(),
    {
        match self {
            ElementShape::Segment2d2 => 1,
            ElementShape::Tri3d2 => 1,
            ElementShape::Tri6d2 => 2,
            ElementShape::Quad4d2 => 1,
            ElementShape::Quad9d2 => 2,
            ElementShape::Tet4 => 1,
            ElementShape::Hex8 => 1,
        }
    }
}

// Reference node coordinates. Every node of every shape here has coordinates
// in {-1, 0, 1}, so the node table is integer-valued (denominator 1).

/// Coordinate `k` of reference node `i` of `shape` (denominator 1).
pub open spec fn node_coord(shape: ElementShape, i: int, k: int) -> int {
    match shape {
        ElementShape::Segment2d2 => if i == 0 {
            -1
        } else {
            1
        },
        ElementShape::Tri3d2 => tri3_node(i, k),
        ElementShape::Tri6d2 => if i < 3 {
            tri3_node(i, k)
        } else if i == 3 {
            if k == 0 { 0 } else { -1 }
        } else if i == 4 {
            0
        } else {
            if k == 0 { -1 } else { 0 }
        },
        ElementShape::Quad4d2 => quad_corner(i, k),
        ElementShape::Quad9d2 => if i < 4 {
            quad_corner(i, k)
        } else if i == 4 {
            if k == 0 { 0 } else { -1 }
        } else if i == 5 {
            if k == 0 { 1 } else { 0 }
        } else if i == 6 {
            if k == 0 { 0 } else { 1 }
        } else if i == 7 {
            if k == 0 { -1 } else { 0 }
        } else {
            0
        },
        ElementShape::Tet4 => if i == 0 {
            -1
        } else if i == 1 {
            if k == 0 { 1 } else { -1 }
        } else if i == 2 {
            if k == 1 { 1 } else { -1 }
        } else {
            if k == 2 { 1 } else { -1 }
        },
        ElementShape::Hex8 => if k == 2 {
            if i < 4 { -1 } else { 1 }
        } else {
            quad_corner(if i < 4 { i } else { i - 4 }, k)
        },
    }
}

/// Corner `i` of the reference triangle.
pub open spec fn tri3_node(i: int, k: int) -> int {
    if i == 0 {
        -1
    } else if i == 1 {
        if k == 0 { 1 } else { -1 }
    } else {
        if k == 0 { -1 } else { 1 }
    }
}

/// Corner `i` of the reference square, in counterclockwise order.
pub open spec fn quad_corner(i: int, k: int) -> int {
    if i == 0 {
        -1
    } else if i == 1 {
        if k == 0 { 1 } else { -1 }
    } else if i == 2 {
        1
    } else {
        if k == 0 { -1 } else { 1 }
    }
}

/// The reference coordinates of node `j` of `shape` as an integer point
/// (denominator 1).
pub open spec fn node_point(shape: ElementShape, j: int) -> Seq<int> {
    Seq::new(shape.reference_dim_spec(), |k: int| node_coord(shape, j, k))
}

/// The reference coordinates of node `i` of `shape`, as an exact point with
/// denominator 1.
pub fn reference_node(shape: ElementShape, i: usize) -> (r: RVec)
    requires
        i < shape.num_nodes_spec(),
    ensures
        r.wf(),
        r.den == 1,
        r.len() == shape.reference_dim_spec(),
        forall|k: int| 0 <= k < r.len() ==> r.entry(k) == node_coord(shape, i as int, k),
        r.bounded(REF_POINT_LIMIT as int),
{
    let mut nums: Vec<i128> = Vec::new();
    match shape {
        ElementShape::Segment2d2 => {
            if i == 0 {
                nums.push(-1);
            } else {
                nums.push(1);
            }
        },
        ElementShape::Tri3d2 => {
            if i == 0 {
                nums.push(-1);
                nums.push(-1);
            } else if i == 1 {
                nums.push(1);
                nums.push(-1);
            } else {
                nums.push(-1);
                nums.push(1);
            }
        },
        ElementShape::Tri6d2 => {
            if i == 0 {
                nums.push(-1);
                nums.push(-1);
            } else if i == 1 {
                nums.push(1);
                nums.push(-1);
            } else if i == 2 {
                nums.push(-1);
                nums.push(1);
            } else if i == 3 {
                nums.push(0);
                nums.push(-1);
            } else if i == 4 {
                nums.push(0);
                nums.push(0);
            } else {
                nums.push(-1);
                nums.push(0);
            }
        },
        ElementShape::Quad4d2 => {
            if i == 0 {
                nums.push(-1);
                nums.push(-1);
            } else if i == 1 {
                nums.push(1);
                nums.push(-1);
            } else if i == 2 {
                nums.push(1);
                nums.push(1);
            } else {
                nums.push(-1);
                nums.push(1);
            }
        },
        ElementShape::Quad9d2 => {
            if i == 0 {
                nums.push(-1);
                nums.push(-1);
            } else if i == 1 {
                nums.push(1);
                nums.push(-1);
            } else if i == 2 {
                nums.push(1);
                nums.push(1);
            } else if i == 3 {
                nums.push(-1);
                nums.push(1);
            } else if i == 4 {
                nums.push(0);
                nums.push(-1);
            } else if i == 5 {
                nums.push(1);
                nums.push(0);
            } else if i == 6 {
                nums.push(0);
                nums.push(1);
            } else if i == 7 {
                nums.push(-1);
                nums.push(0);
            } else {
                nums.push(0);
                nums.push(0);
            }
        },
        ElementShape::Tet4 => {
            if i == 0 {
                nums.push(-1);
                nums.push(-1);
                nums.push(-1);
            } else if i == 1 {
                nums.push(1);
                nums.push(-1);
                nums.push(-1);
            } else if i == 2 {
                nums.push(-1);
                nums.push(1);
                nums.push(-1);
            } else {
                nums.push(-1);
                nums.push(-1);
                nums.push(1);
            }
        },
        ElementShape::Hex8 => {
            if i == 0 {
                nums.push(-1);
                nums.push(-1);
                nums.push(-1);
            } else if i == 1 {
                nums.push(1);
                nums.push(-1);
                nums.push(-1);
            } else if i == 2 {
                nums.push(1);
                nums.push(1);
                nums.push(-1);
            } else if i == 3 {
                nums.push(-1);
                nums.push(1);
                nums.push(-1);
            } else if i == 4 {
                nums.push(-1);
                nums.push(-1);
                nums.push(1);
            } else if i == 5 {
                nums.push(1);
                nums.push(-1);
                nums.push(1);
            } else if i == 6 {
                nums.push(1);
                nums.push(1);
                nums.push(1);
            } else {
                nums.push(-1);
                nums.push(1);
                nums.push(1);
            }
        },
    }
    RVec { nums, den: 1 }
}

// Basis polynomials. For a reference point with numerators `xi` over
// denominator `d`, basis function `i` of `shape` has the exact value
// `basis_num(shape, i, xi, d) / basis_den(shape, d)`.

/// Common denominator of all basis values of `shape` at a point with
/// denominator `d`.
pub open spec fn basis_den(shape: ElementShape, d: int) -> int {
    match shape {
        ElementShape::Segment2d2 => 2 * d,
        ElementShape::Tri3d2 => 2 * d,
        ElementShape::Tri6d2 => 2 * (d * d),
        ElementShape::Quad4d2 => 4 * (d * d),
        ElementShape::Quad9d2 => 4 * ((d * d) * (d * d)),
        ElementShape::Tet4 => 2 * d,
        ElementShape::Hex8 => 8 * ((d * d) * d),
    }
}

/// Numerator of the scaled barycentric coordinate `i` of the reference
/// triangle: `lambda_i = tri_bary_num(i, x, y, d) / (2 d)`.
pub open spec fn tri_bary_num(i: int, x: int, y: int, d: int) -> int {
    if i == 0 {
        -(x + y)
    } else if i == 1 {
        d + x
    } else {
        d + y
    }
}

/// Numerator of the one-dimensional quadratic Lagrange polynomial at node
/// position `p` (-1, 0 or 1), over the denominator `2 d^2`.
pub open spec fn quadratic_1d_num(p: int, t: int, d: int) -> int {
    if p == -1 {
        t * (t - d)
    } else if p == 0 {
        2 * (d * d - t * t)
    } else {
        t * (t + d)
    }
}

/// Numerator of basis function `i` of `shape` at the point `xi / d`, over the
/// denominator `basis_den(shape, d)`.
pub open spec fn basis_num(shape: ElementShape, i: int, xi: Seq<int>, d: int) -> int {
    match shape {
        ElementShape::Segment2d2 => if i == 0 {
            d - xi[0]
        } else {
            d + xi[0]
        },
        ElementShape::Tri3d2 => tri_bary_num(i, xi[0], xi[1], d),
        ElementShape::Tri6d2 => {
            let a0 = tri_bary_num(0, xi[0], xi[1], d);
            let a1 = tri_bary_num(1, xi[0], xi[1], d);
            let a2 = tri_bary_num(2, xi[0], xi[1], d);
            if i == 0 {
                a0 * (a0 - d)
            } else if i == 1 {
                a1 * (a1 - d)
            } else if i == 2 {
                a2 * (a2 - d)
            } else if i == 3 {
                2 * (a0 * a1)
            } else if i == 4 {
                2 * (a1 * a2)
            } else {
                2 * (a2 * a0)
            }
        },
        ElementShape::Quad4d2 => (d + node_coord(shape, i, 0) * xi[0]) * (d + node_coord(
            shape,
            i,
            1,
        ) * xi[1]),
        ElementShape::Quad9d2 => quadratic_1d_num(node_coord(shape, i, 0), xi[0], d)
            * quadratic_1d_num(node_coord(shape, i, 1), xi[1], d),
        ElementShape::Tet4 => if i == 0 {
            -(xi[0] + xi[1] + xi[2] + d)
        } else if i == 1 {
            d + xi[0]
        } else if i == 2 {
            d + xi[1]
        } else {
            d + xi[2]
        },
        ElementShape::Hex8 => (d + node_coord(shape, i, 0) * xi[0]) * (d + node_coord(shape, i, 1)
            * xi[1]) * (d + node_coord(shape, i, 2) * xi[2]),
    }
}

/// Bound on the numerators and denominator of a reference point accepted by
/// the evaluation routines for a given shape (a machine limit: all
/// intermediate products of the polynomial evaluation must fit in an `i128`).
/// The affine shapes evaluate without products of point coordinates, so they
/// accept much larger points - in particular the exact coordinates returned
/// by the closest-point projectors.
pub open spec fn ref_point_limit(shape: ElementShape) -> int {
    match shape {
        ElementShape::Segment2d2 => 0x200000000000,
        ElementShape::Tri3d2 => 0x200000000000,
        ElementShape::Tet4 => 0x200000000000,
        ElementShape::Tri6d2 => REF_POINT_LIMIT as int,
        ElementShape::Quad4d2 => REF_POINT_LIMIT as int,
        ElementShape::Quad9d2 => REF_POINT_LIMIT as int,
        ElementShape::Hex8 => REF_POINT_LIMIT as int,
    }
}

/// The reference point `xi` is admissible for evaluation: well formed, of the
/// shape's reference dimension, and within the shape's machine bound.
pub open spec fn eval_point_ok(shape: ElementShape, xi: RVec) -> bool {
    &&& xi.wf()
    &&& xi.len() == shape.reference_dim_spec()
    &&& xi.bounded(ref_point_limit(shape))
}

/// Bound satisfied by all basis numerators and the basis denominator for an
/// admissible point (used to discharge overflow obligations downstream).
pub open spec fn basis_value_bound() -> int {
    0x40000000000000000000000  // 2^90
}

/// The numerators of `v` as mathematical integers.
pub open spec fn ints(v: RVec) -> Seq<int> {
    v.nums@.map(|i: int, x: i128| x as int)
}

/// `|x * y| <= bx * by` when `|x| <= bx` and `|y| <= by`.
pub proof fn mul_bound(x: int, y: int, bx: int, by: int)
    by (nonlinear_arith)
    requires
        iabs(x) <= bx,
        iabs(y) <= by,
    ensures
        iabs(x * y) <= bx * by,
        -(bx * by) <= x * y <= bx * by,
{
}

/// `|x * y * z| <= bx * by * bz` for factor bounds `bx, by, bz`.
pub proof fn mul3_bound(x: int, y: int, z: int, bx: int, by: int, bz: int)
    by (nonlinear_arith)
    requires
        iabs(x) <= bx,
        iabs(y) <= by,
        iabs(z) <= bz,
    ensures
        iabs(x * y * z) <= bx * by * bz,
        -(bx * by * bz) <= x * y * z <= bx * by * bz,
{
}

/// Positivity of products of positives.
pub proof fn mul_pos(x: int, y: int)
    by (nonlinear_arith)
    requires
        x > 0,
        y > 0,
    ensures
        x * y > 0,
{
}

/// Evaluate all basis functions of `shape` at the reference point `xi`.
///
/// The result is the row of exact basis values: entry `i` is
/// `basis_num(shape, i, ints(xi), d) / basis_den(shape, d)`, where `d` is
/// the denominator of `xi`. The basis polynomials are globally defined, so
/// points outside the reference domain are still evaluable.
#[verifier::rlimit(100)]
pub fn evaluate_basis(shape: ElementShape, xi: &RVec) -> (r: RVec)
    requires
        eval_point_ok(shape, *xi),
    ensures
        r.wf(),
        r.len() == shape.num_nodes_spec(),
        r.den == basis_den(shape, xi.den as int),
        forall|i: int|
            0 <= i < r.len() ==> r.entry(i) == basis_num(shape, i, ints(*xi), xi.den as int),
        r.bounded(basis_value_bound()),
{
    let d = xi.den;
    let ghost di = d as int;
    let ghost l = REF_POINT_LIMIT as int;
    match shape {
        ElementShape::Segment2d2 => {
            let t = xi.nums[0];
            let mut nums: Vec<i128> = Vec::new();
            nums.push(d - t);
            nums.push(d + t);
            proof {
                assert forall|i: int|
                    0 <= i < nums@.len() implies nums@[i] as int == basis_num(
                    shape,
                    i,
                    ints(*xi),
                    xi.den as int,
                ) by {
                    if i == 0 {
                    } else {
                    }
                }
            }
            RVec { nums, den: 2 * d }
        },
        ElementShape::Tri3d2 => {
            let x = xi.nums[0];
            let y = xi.nums[1];
            let mut nums: Vec<i128> = Vec::new();
            nums.push(-(x + y));
            nums.push(d + x);
            nums.push(d + y);
            proof {
                assert forall|i: int|
                    0 <= i < nums@.len() implies nums@[i] as int == basis_num(
                    shape,
                    i,
                    ints(*xi),
                    xi.den as int,
                ) by {
                    if i == 0 {
                    } else if i == 1 {
                    } else {
                    }
                }
            }
            RVec { nums, den: 2 * d }
        },
        ElementShape::Tet4 => {
            let x = xi.nums[0];
            let y = xi.nums[1];
            let z = xi.nums[2];
            let mut nums: Vec<i128> = Vec::new();
            nums.push(-(x + y + z + d));
            nums.push(d + x);
            nums.push(d + y);
            nums.push(d + z);
            proof {
                assert forall|i: int|
                    0 <= i < nums@.len() implies nums@[i] as int == basis_num(
                    shape,
                    i,
                    ints(*xi),
                    xi.den as int,
                ) by {
                    if i == 0 {
                    } else if i == 1 {
                    } else if i == 2 {
                    } else {
                    }
                }
            }
            RVec { nums, den: 2 * d }
        },
        ElementShape::Quad4d2 => {
            let x = xi.nums[0];
            let y = xi.nums[1];
            let xm = d - x;
            let xp = d + x;
            let ym = d - y;
            let yp = d + y;
            proof {
                mul_bound(xm as int, ym as int, 2 * l, 2 * l);
                mul_bound(xp as int, ym as int, 2 * l, 2 * l);
                mul_bound(xp as int, yp as int, 2 * l, 2 * l);
                mul_bound(xm as int, yp as int, 2 * l, 2 * l);
                mul_bound(di, di, l, l);
                mul_pos(di, di);
            }
            let mut nums: Vec<i128> = Vec::new();
            nums.push(xm * ym);
            nums.push(xp * ym);
            nums.push(xp * yp);
            nums.push(xm * yp);
            proof {
                assert forall|i: int|
                    0 <= i < nums@.len() implies nums@[i] as int == basis_num(
                    shape,
                    i,
                    ints(*xi),
                    xi.den as int,
                ) by {
                    if i == 0 {
                    } else if i == 1 {
                    } else if i == 2 {
                    } else {
                    }
                }
            }
            RVec { nums, den: 4 * (d * d) }
        },
        ElementShape::Hex8 => {
            let x = xi.nums[0];
            let y = xi.nums[1];
            let z = xi.nums[2];
            let xm = d - x;
            let xp = d + x;
            let ym = d - y;
            let yp = d + y;
            let zm = d - z;
            let zp = d + z;
            proof {
                mul_bound(xm as int, ym as int, 2 * l, 2 * l);
                mul_bound(xp as int, ym as int, 2 * l, 2 * l);
                mul_bound(xp as int, yp as int, 2 * l, 2 * l);
                mul_bound(xm as int, yp as int, 2 * l, 2 * l);
                mul_bound(di, di, l, l);
            }
            let pmm = xm * ym;
            let ppm = xp * ym;
            let ppp = xp * yp;
            let pmp = xm * yp;
            let dd = d * d;
            proof {
                mul_bound(pmm as int, zm as int, 4 * l * l, 2 * l);
                mul_bound(ppm as int, zm as int, 4 * l * l, 2 * l);
                mul_bound(ppp as int, zm as int, 4 * l * l, 2 * l);
                mul_bound(pmp as int, zm as int, 4 * l * l, 2 * l);
                mul_bound(pmm as int, zp as int, 4 * l * l, 2 * l);
                mul_bound(ppm as int, zp as int, 4 * l * l, 2 * l);
                mul_bound(ppp as int, zp as int, 4 * l * l, 2 * l);
                mul_bound(pmp as int, zp as int, 4 * l * l, 2 * l);
                mul_bound(dd as int, di, l * l, l);
                mul_pos(di, di);
                mul_pos(di * di, di);
            }
            let mut nums: Vec<i128> = Vec::new();
            nums.push(pmm * zm);
            nums.push(ppm * zm);
            nums.push(ppp * zm);
            nums.push(pmp * zm);
            nums.push(pmm * zp);
            nums.push(ppm * zp);
            nums.push(ppp * zp);
            nums.push(pmp * zp);
            proof {
                assert forall|i: int|
                    0 <= i < nums@.len() implies nums@[i] as int == basis_num(
                    shape,
                    i,
                    ints(*xi),
                    xi.den as int,
                ) by {
                    if i == 0 {
                        assert(node_coord(shape, 0, 0) == -1);
                        assert(node_coord(shape, 0, 1) == -1);
                        assert(node_coord(shape, 0, 2) == -1);
                        assert(nums@[0] == pmm * zm);
                        assert(pmm as int == xm as int * ym as int);
                        assert(xm as int == di + node_coord(shape, 0, 0) * ints(*xi)[0]);
                        assert(ym as int == di + node_coord(shape, 0, 1) * ints(*xi)[1]);
                        assert(zm as int == di + node_coord(shape, 0, 2) * ints(*xi)[2]);
                    } else if i == 1 {
                    } else if i == 2 {
                    } else if i == 3 {
                    } else if i == 4 {
                    } else if i == 5 {
                    } else if i == 6 {
                    } else {
                    }
                }
            }
            RVec { nums, den: 8 * (dd * d) }
        },
        ElementShape::Tri6d2 => {
            let x = xi.nums[0];
            let y = xi.nums[1];
            let a0 = -(x + y);
            let a1 = d + x;
            let a2 = d + y;
            proof {
                mul_bound(a0 as int, a0 as int - di, 2 * l, 3 * l);
                mul_bound(a1 as int, a1 as int - di, 2 * l, 3 * l);
                mul_bound(a2 as int, a2 as int - di, 2 * l, 3 * l);
                mul_bound(a0 as int, a1 as int, 2 * l, 2 * l);
                mul_bound(a1 as int, a2 as int, 2 * l, 2 * l);
                mul_bound(a2 as int, a0 as int, 2 * l, 2 * l);
                mul_bound(di, di, l, l);
                mul_pos(di, di);
            }
            let mut nums: Vec<i128> = Vec::new();
            nums.push(a0 * (a0 - d));
            nums.push(a1 * (a1 - d));
            nums.push(a2 * (a2 - d));
            nums.push(2 * (a0 * a1));
            nums.push(2 * (a1 * a2));
            nums.push(2 * (a2 * a0));
            proof {
                assert forall|i: int|
                    0 <= i < nums@.len() implies nums@[i] as int == basis_num(
                    shape,
                    i,
                    ints(*xi),
                    xi.den as int,
                ) by {
                    if i == 0 {
                    } else if i == 1 {
                    } else if i == 2 {
                    } else if i == 3 {
                    } else if i == 4 {
                    } else {
                    }
                }
            }
            RVec { nums, den: 2 * (d * d) }
        },
        ElementShape::Quad9d2 => {
            let x = xi.nums[0];
            let y = xi.nums[1];
            proof {
                mul_bound(x as int, x as int - di, l, 2 * l);
                mul_bound(x as int, x as int + di, l, 2 * l);
                mul_bound(y as int, y as int - di, l, 2 * l);
                mul_bound(y as int, y as int + di, l, 2 * l);
                mul_bound(di, di, l, l);
                mul_bound(x as int, x as int, l, l);
                mul_bound(y as int, y as int, l, l);
            }
            let fmx = x * (x - d);
            let fzx = 2 * (d * d - x * x);
            let fpx = x * (x + d);
            let fmy = y * (y - d);
            let fzy = 2 * (d * d - y * y);
            let fpy = y * (y + d);
            let ghost b1: int = 4 * l * l;
            proof {
                mul_bound(fmx as int, fmy as int, b1, b1);
                mul_bound(fpx as int, fmy as int, b1, b1);
                mul_bound(fpx as int, fpy as int, b1, b1);
                mul_bound(fmx as int, fpy as int, b1, b1);
                mul_bound(fzx as int, fmy as int, b1, b1);
                mul_bound(fpx as int, fzy as int, b1, b1);
                mul_bound(fzx as int, fpy as int, b1, b1);
                mul_bound(fmx as int, fzy as int, b1, b1);
                mul_bound(fzx as int, fzy as int, b1, b1);
                mul_bound(di * di, di * di, l * l, l * l);
                mul_pos(di, di);
                mul_pos(di * di, di * di);
            }
            let dd = d * d;
            let mut nums: Vec<i128> = Vec::new();
            nums.push(fmx * fmy);
            nums.push(fpx * fmy);
            nums.push(fpx * fpy);
            nums.push(fmx * fpy);
            nums.push(fzx * fmy);
            nums.push(fpx * fzy);
            nums.push(fzx * fpy);
            nums.push(fmx * fzy);
            nums.push(fzx * fzy);
            proof {
                assert forall|i: int|
                    0 <= i < nums@.len() implies nums@[i] as int == basis_num(
                    shape,
                    i,
                    ints(*xi),
                    xi.den as int,
                ) by {
                    if i == 0 {
                    } else if i == 1 {
                    } else if i == 2 {
                    } else if i == 3 {
                    } else if i == 4 {
                    } else if i == 5 {
                    } else if i == 6 {
                    } else if i == 7 {
                    } else {
                    }
                }
            }
            RVec { nums, den: 4 * (dd * dd) }
        },
    }
}

// Basis gradients. For a reference point with numerators `xi` over
// denominator `d`, the derivative of basis function `i` with respect to
// reference coordinate `k` has the exact value
// `grad_num(shape, i, k, xi, d) / grad_den(shape, d)`.

/// Common denominator of all basis gradient entries of `shape` at a point
/// with denominator `d`.
pub open spec fn grad_den(shape: ElementShape, d: int) -> int {
    match shape {
        ElementShape::Segment2d2 => 2,
        ElementShape::Tri3d2 => 2,
        ElementShape::Tri6d2 => 2 * d,
        ElementShape::Quad4d2 => 4 * d,
        ElementShape::Quad9d2 => 4 * ((d * d) * d),
        ElementShape::Tet4 => 2,
        ElementShape::Hex8 => 8 * (d * d),
    }
}

/// Apply a node sign (`-1`, `0` or `1`) to a value without a product.
pub open spec fn sgn_apply(s: int, v: int) -> int {
    if s < 0 {
        -v
    } else if s == 0 {
        0
    } else {
        v
    }
}

/// Numerator of the derivative of the one-dimensional quadratic Lagrange
/// polynomial at node position `p`, over the denominator `2 d`.
pub open spec fn quadratic_1d_deriv_num(p: int, t: int, d: int) -> int {
    if p == -1 {
        2 * t - d
    } else if p == 0 {
        -(4 * t)
    } else {
        2 * t + d
    }
}

/// Numerator of the derivative of basis function `i` of `shape` with respect
/// to reference coordinate `k`, over the denominator `grad_den(shape, d)`.
pub open spec fn grad_num(shape: ElementShape, i: int, k: int, xi: Seq<int>, d: int) -> int {
    match shape {
        ElementShape::Segment2d2 => if i == 0 {
            -1
        } else {
            1
        },
        ElementShape::Tri3d2 => if i == 0 {
            -1
        } else if i == 1 {
            if k == 0 { 1 } else { 0 }
        } else {
            if k == 0 { 0 } else { 1 }
        },
        ElementShape::Tet4 => if i == 0 {
            -1
        } else if i == 1 {
            if k == 0 { 1 } else { 0 }
        } else if i == 2 {
            if k == 1 { 1 } else { 0 }
        } else {
            if k == 2 { 1 } else { 0 }
        },
        ElementShape::Quad4d2 => if k == 0 {
            sgn_apply(node_coord(shape, i, 0), d + sgn_apply(node_coord(shape, i, 1), xi[1]))
        } else {
            sgn_apply(node_coord(shape, i, 1), d + sgn_apply(node_coord(shape, i, 0), xi[0]))
        },
        ElementShape::Hex8 => if k == 0 {
            sgn_apply(
                node_coord(shape, i, 0),
                (d + sgn_apply(node_coord(shape, i, 1), xi[1])) * (d + sgn_apply(
                    node_coord(shape, i, 2),
                    xi[2],
                )),
            )
        } else if k == 1 {
            sgn_apply(
                node_coord(shape, i, 1),
                (d + sgn_apply(node_coord(shape, i, 0), xi[0])) * (d + sgn_apply(
                    node_coord(shape, i, 2),
                    xi[2],
                )),
            )
        } else {
            sgn_apply(
                node_coord(shape, i, 2),
                (d + sgn_apply(node_coord(shape, i, 0), xi[0])) * (d + sgn_apply(
                    node_coord(shape, i, 1),
                    xi[1],
                )),
            )
        },
        ElementShape::Tri6d2 => {
            let a0 = tri_bary_num(0, xi[0], xi[1], d);
            let a1 = tri_bary_num(1, xi[0], xi[1], d);
            let a2 = tri_bary_num(2, xi[0], xi[1], d);
            if i == 0 {
                d - 2 * a0
            } else if i == 1 {
                if k == 0 { 2 * a1 - d } else { 0 }
            } else if i == 2 {
                if k == 0 { 0 } else { 2 * a2 - d }
            } else if i == 3 {
                if k == 0 { 2 * (a0 - a1) } else { -(2 * a1) }
            } else if i == 4 {
                if k == 0 { 2 * a2 } else { 2 * a1 }
            } else {
                if k == 0 { -(2 * a2) } else { 2 * (a0 - a2) }
            }
        },
        ElementShape::Quad9d2 => if k == 0 {
            quadratic_1d_deriv_num(node_coord(shape, i, 0), xi[0], d) * quadratic_1d_num(
                node_coord(shape, i, 1),
                xi[1],
                d,
            )
        } else {
            quadratic_1d_num(node_coord(shape, i, 0), xi[0], d) * quadratic_1d_deriv_num(
                node_coord(shape, i, 1),
                xi[1],
                d,
            )
        },
    }
}

/// Evaluate the gradients of all basis functions of `shape` at `xi`.
///
/// The result is the `reference_dim x num_nodes` matrix whose column `i` is
/// the gradient of basis function `i`: entry `(k, i)` is
/// `grad_num(shape, i, k, ints(xi), d) / grad_den(shape, d)`.
#[verifier::rlimit(100)]
pub fn evaluate_gradients(shape: ElementShape, xi: &RVec) -> (r: MatR)
    requires
        eval_point_ok(shape, *xi),
    ensures
        r.wf(),
        r.nrows == shape.reference_dim_spec(),
        r.ncols == shape.num_nodes_spec(),
        r.den == grad_den(shape, xi.den as int),
        forall|i: int, k: int|
            0 <= i < r.ncols && 0 <= k < r.nrows ==> #[trigger] mat_num(r, k, i) == grad_num(
                shape,
                i,
                k,
                ints(*xi),
                xi.den as int,
            ),
        r.bounded(basis_value_bound()),
{
    let d = xi.den;
    let ghost di = d as int;
    let ghost l = REF_POINT_LIMIT as int;
    match shape {
        ElementShape::Segment2d2 => {
            let mut nums: Vec<i128> = Vec::new();
            nums.push(-1);
            nums.push(1);
            let r = MatR { nums, den: 2, nrows: 1, ncols: 2 };
            proof {
                assert forall|i: int, k: int|
                    0 <= i < r.ncols && 0 <= k < r.nrows implies #[trigger] mat_num(r, k, i)
                    == grad_num(shape, i, k, ints(*xi), di) by {
                    if i == 0 {
                    } else {
                    }
                }
            }
            r
        },
        ElementShape::Tri3d2 => {
            let mut nums: Vec<i128> = Vec::new();
            nums.push(-1);
            nums.push(-1);
            nums.push(1);
            nums.push(0);
            nums.push(0);
            nums.push(1);
            let r = MatR { nums, den: 2, nrows: 2, ncols: 3 };
            proof {
                assert forall|i: int, k: int|
                    0 <= i < r.ncols && 0 <= k < r.nrows implies #[trigger] mat_num(r, k, i)
                    == grad_num(shape, i, k, ints(*xi), di) by {
                    assert(r.nums@.len() == 6);
                    if i == 0 {
                    } else if i == 1 {
                    } else {
                    }
                }
            }
            r
        },
        ElementShape::Tet4 => {
            let mut nums: Vec<i128> = Vec::new();
            nums.push(-1);
            nums.push(-1);
            nums.push(-1);
            nums.push(1);
            nums.push(0);
            nums.push(0);
            nums.push(0);
            nums.push(1);
            nums.push(0);
            nums.push(0);
            nums.push(0);
            nums.push(1);
            let r = MatR { nums, den: 2, nrows: 3, ncols: 4 };
            proof {
                assert forall|i: int, k: int|
                    0 <= i < r.ncols && 0 <= k < r.nrows implies #[trigger] mat_num(r, k, i)
                    == grad_num(shape, i, k, ints(*xi), di) by {
                    assert(r.nums@.len() == 12);
                    if i == 0 {
                    } else if i == 1 {
                    } else if i == 2 {
                    } else {
                    }
                }
            }
            r
        },
        ElementShape::Quad4d2 => {
            let x = xi.nums[0];
            let y = xi.nums[1];
            let xm = d - x;
            let xp = d + x;
            let ym = d - y;
            let yp = d + y;
            let mut nums: Vec<i128> = Vec::new();
            nums.push(-ym);
            nums.push(-xm);
            nums.push(ym);
            nums.push(-xp);
            nums.push(yp);
            nums.push(xp);
            nums.push(-yp);
            nums.push(xm);
            let r = MatR { nums, den: 4 * d, nrows: 2, ncols: 4 };
            proof {
                assert forall|i: int, k: int|
                    0 <= i < r.ncols && 0 <= k < r.nrows implies #[trigger] mat_num(r, k, i)
                    == grad_num(shape, i, k, ints(*xi), di) by {
                    assert(r.nums@.len() == 8);
                    if i == 0 {
                        assert(node_coord(shape, 0, 0) == -1);
                        assert(node_coord(shape, 0, 1) == -1);
                        if k == 0 {
                        } else {
                        }
                    } else if i == 1 {
                        assert(node_coord(shape, 1, 0) == 1);
                        assert(node_coord(shape, 1, 1) == -1);
                        if k == 0 {
                        } else {
                        }
                    } else if i == 2 {
                        assert(node_coord(shape, 2, 0) == 1);
                        assert(node_coord(shape, 2, 1) == 1);
                        if k == 0 {
                        } else {
                        }
                    } else {
                        assert(node_coord(shape, 3, 0) == -1);
                        assert(node_coord(shape, 3, 1) == 1);
                        if k == 0 {
                        } else {
                        }
                    }
                }
            }
            r
        },
        ElementShape::Hex8 => {
            let x = xi.nums[0];
            let y = xi.nums[1];
            let z = xi.nums[2];
            let xm = d - x;
            let xp = d + x;
            let ym = d - y;
            let yp = d + y;
            let zm = d - z;
            let zp = d + z;
            proof {
                mul_bound(ym as int, zm as int, 2 * l, 2 * l);
                mul_bound(yp as int, zm as int, 2 * l, 2 * l);
                mul_bound(ym as int, zp as int, 2 * l, 2 * l);
                mul_bound(yp as int, zp as int, 2 * l, 2 * l);
                mul_bound(xm as int, zm as int, 2 * l, 2 * l);
                mul_bound(xp as int, zm as int, 2 * l, 2 * l);
                mul_bound(xm as int, zp as int, 2 * l, 2 * l);
                mul_bound(xp as int, zp as int, 2 * l, 2 * l);
                mul_bound(xm as int, ym as int, 2 * l, 2 * l);
                mul_bound(xp as int, ym as int, 2 * l, 2 * l);
                mul_bound(xp as int, yp as int, 2 * l, 2 * l);
                mul_bound(xm as int, yp as int, 2 * l, 2 * l);
                mul_bound(di, di, l, l);
                mul_pos(di, di);
            }
            let yzmm = ym * zm;
            let yzpm = yp * zm;
            let yzmp = ym * zp;
            let yzpp = yp * zp;
            let xzmm = xm * zm;
            let xzpm = xp * zm;
            let xzmp = xm * zp;
            let xzpp = xp * zp;
            let xymm = xm * ym;
            let xypm = xp * ym;
            let xypp = xp * yp;
            let xymp = xm * yp;
            let mut nums: Vec<i128> = Vec::new();
            nums.push(-yzmm);
            nums.push(-xzmm);
            nums.push(-xymm);
            nums.push(yzmm);
            nums.push(-xzpm);
            nums.push(-xypm);
            nums.push(yzpm);
            nums.push(xzpm);
            nums.push(-xypp);
            nums.push(-yzpm);
            nums.push(xzmm);
            nums.push(-xymp);
            nums.push(-yzmp);
            nums.push(-xzmp);
            nums.push(xymm);
            nums.push(yzmp);
            nums.push(-xzpp);
            nums.push(xypm);
            nums.push(yzpp);
            nums.push(xzpp);
            nums.push(xypp);
            nums.push(-yzpp);
            nums.push(xzmp);
            nums.push(xymp);
            let r = MatR { nums, den: 8 * (d * d), nrows: 3, ncols: 8 };
            proof {
                assert forall|i: int, k: int|
                    0 <= i < r.ncols && 0 <= k < r.nrows implies #[trigger] mat_num(r, k, i)
                    == grad_num(shape, i, k, ints(*xi), di) by {
                    assert(r.nums@.len() == 24);
                    if i == 0 {
                        assert(node_coord(shape, 0, 0) == -1);
                        assert(node_coord(shape, 0, 1) == -1);
                        assert(node_coord(shape, 0, 2) == -1);
                        if k == 0 {
                        } else if k == 1 {
                        } else {
                        }
                    } else if i == 1 {
                        assert(node_coord(shape, 1, 0) == 1);
                        assert(node_coord(shape, 1, 1) == -1);
                        assert(node_coord(shape, 1, 2) == -1);
                        if k == 0 {
                        } else if k == 1 {
                        } else {
                        }
                    } else if i == 2 {
                        assert(node_coord(shape, 2, 0) == 1);
                        assert(node_coord(shape, 2, 1) == 1);
                        assert(node_coord(shape, 2, 2) == -1);
                        if k == 0 {
                        } else if k == 1 {
                        } else {
                        }
                    } else if i == 3 {
                        assert(node_coord(shape, 3, 0) == -1);
                        assert(node_coord(shape, 3, 1) == 1);
                        assert(node_coord(shape, 3, 2) == -1);
                        if k == 0 {
                        } else if k == 1 {
                        } else {
                        }
                    } else if i == 4 {
                        assert(node_coord(shape, 4, 0) == -1);
                        assert(node_coord(shape, 4, 1) == -1);
                        assert(node_coord(shape, 4, 2) == 1);
                        if k == 0 {
                        } else if k == 1 {
                        } else {
                        }
                    } else if i == 5 {
                        assert(node_coord(shape, 5, 0) == 1);
                        assert(node_coord(shape, 5, 1) == -1);
                        assert(node_coord(shape, 5, 2) == 1);
                        if k == 0 {
                        } else if k == 1 {
                        } else {
                        }
                    } else if i == 6 {
                        assert(node_coord(shape, 6, 0) == 1);
                        assert(node_coord(shape, 6, 1) == 1);
                        assert(node_coord(shape, 6, 2) == 1);
                        if k == 0 {
                        } else if k == 1 {
                        } else {
                        }
                    } else {
                        assert(node_coord(shape, 7, 0) == -1);
                        assert(node_coord(shape, 7, 1) == 1);
                        assert(node_coord(shape, 7, 2) == 1);
                        if k == 0 {
                        } else if k == 1 {
                        } else {
                        }
                    }
                }
            }
            r
        },
        ElementShape::Tri6d2 => {
            let x = xi.nums[0];
            let y = xi.nums[1];
            let a0 = -(x + y);
            let a1 = d + x;
            let a2 = d + y;
            let mut nums: Vec<i128> = Vec::new();
            nums.push(d - 2 * a0);
            nums.push(d - 2 * a0);
            nums.push(2 * a1 - d);
            nums.push(0);
            nums.push(0);
            nums.push(2 * a2 - d);
            nums.push(2 * (a0 - a1));
            nums.push(-(2 * a1));
            nums.push(2 * a2);
            nums.push(2 * a1);
            nums.push(-(2 * a2));
            nums.push(2 * (a0 - a2));
            let r = MatR { nums, den: 2 * d, nrows: 2, ncols: 6 };
            proof {
                assert forall|i: int, k: int|
                    0 <= i < r.ncols && 0 <= k < r.nrows implies #[trigger] mat_num(r, k, i)
                    == grad_num(shape, i, k, ints(*xi), di) by {
                    assert(r.nums@.len() == 12);
                    if i == 0 {
                        if k == 0 {
                        } else {
                        }
                    } else if i == 1 {
                        if k == 0 {
                        } else {
                        }
                    } else if i == 2 {
                        if k == 0 {
                        } else {
                        }
                    } else if i == 3 {
                        if k == 0 {
                        } else {
                        }
                    } else if i == 4 {
                        if k == 0 {
                        } else {
                        }
                    } else {
                        if k == 0 {
                        } else {
                        }
                    }
                }
            }
            r
        },
        ElementShape::Quad9d2 => {
            let x = xi.nums[0];
            let y = xi.nums[1];
            proof {
                mul_bound(x as int, x as int - di, l, 2 * l);
                mul_bound(x as int, x as int + di, l, 2 * l);
                mul_bound(y as int, y as int - di, l, 2 * l);
                mul_bound(y as int, y as int + di, l, 2 * l);
                mul_bound(di, di, l, l);
                mul_bound(x as int, x as int, l, l);
                mul_bound(y as int, y as int, l, l);
                mul_pos(di, di);
                mul_pos(di * di, di);
            }
            let fmx = x * (x - d);
            let fzx = 2 * (d * d - x * x);
            let fpx = x * (x + d);
            let fmy = y * (y - d);
            let fzy = 2 * (d * d - y * y);
            let fpy = y * (y + d);
            let dmx = 2 * x - d;
            let dzx = -(4 * x);
            let dpx = 2 * x + d;
            let dmy = 2 * y - d;
            let dzy = -(4 * y);
            let dpy = 2 * y + d;
            let ghost bf: int = 4 * l * l;
            let ghost bd: int = 4 * l;
            proof {
                mul_bound(dmx as int, fmy as int, bd, bf);
                mul_bound(dpx as int, fmy as int, bd, bf);
                mul_bound(dpx as int, fpy as int, bd, bf);
                mul_bound(dmx as int, fpy as int, bd, bf);
                mul_bound(dzx as int, fmy as int, bd, bf);
                mul_bound(dpx as int, fzy as int, bd, bf);
                mul_bound(dzx as int, fpy as int, bd, bf);
                mul_bound(dmx as int, fzy as int, bd, bf);
                mul_bound(dzx as int, fzy as int, bd, bf);
                mul_bound(fmx as int, dmy as int, bf, bd);
                mul_bound(fpx as int, dmy as int, bf, bd);
                mul_bound(fpx as int, dpy as int, bf, bd);
                mul_bound(fmx as int, dpy as int, bf, bd);
                mul_bound(fzx as int, dmy as int, bf, bd);
                mul_bound(fpx as int, dzy as int, bf, bd);
                mul_bound(fzx as int, dpy as int, bf, bd);
                mul_bound(fmx as int, dzy as int, bf, bd);
                mul_bound(fzx as int, dzy as int, bf, bd);
                mul_bound(di * di, di, l * l, l);
            }
            let mut nums: Vec<i128> = Vec::new();
            nums.push(dmx * fmy);
            nums.push(fmx * dmy);
            nums.push(dpx * fmy);
            nums.push(fpx * dmy);
            nums.push(dpx * fpy);
            nums.push(fpx * dpy);
            nums.push(dmx * fpy);
            nums.push(fmx * dpy);
            nums.push(dzx * fmy);
            nums.push(fzx * dmy);
            nums.push(dpx * fzy);
            nums.push(fpx * dzy);
            nums.push(dzx * fpy);
            nums.push(fzx * dpy);
            nums.push(dmx * fzy);
            nums.push(fmx * dzy);
            nums.push(dzx * fzy);
            nums.push(fzx * dzy);
            let r = MatR { nums, den: 4 * (d * d * d), nrows: 2, ncols: 9 };
            proof {
                assert forall|i: int, k: int|
                    0 <= i < r.ncols && 0 <= k < r.nrows implies #[trigger] mat_num(r, k, i)
                    == grad_num(shape, i, k, ints(*xi), di) by {
                    assert(r.nums@.len() == 18);
                    if i == 0 {
                        assert(node_coord(shape, 0, 0) == -1);
                        assert(node_coord(shape, 0, 1) == -1);
                        if k == 0 {
                        } else {
                        }
                    } else if i == 1 {
                        assert(node_coord(shape, 1, 0) == 1);
                        assert(node_coord(shape, 1, 1) == -1);
                        if k == 0 {
                        } else {
                        }
                    } else if i == 2 {
                        assert(node_coord(shape, 2, 0) == 1);
                        assert(node_coord(shape, 2, 1) == 1);
                        if k == 0 {
                        } else {
                        }
                    } else if i == 3 {
                        assert(node_coord(shape, 3, 0) == -1);
                        assert(node_coord(shape, 3, 1) == 1);
                        if k == 0 {
                        } else {
                        }
                    } else if i == 4 {
                        assert(node_coord(shape, 4, 0) == 0);
                        assert(node_coord(shape, 4, 1) == -1);
                        if k == 0 {
                        } else {
                        }
                    } else if i == 5 {
                        assert(node_coord(shape, 5, 0) == 1);
                        assert(node_coord(shape, 5, 1) == 0);
                        if k == 0 {
                        } else {
                        }
                    } else if i == 6 {
                        assert(node_coord(shape, 6, 0) == 0);
                        assert(node_coord(shape, 6, 1) == 1);
                        if k == 0 {
                        } else {
                        }
                    } else if i == 7 {
                        assert(node_coord(shape, 7, 0) == -1);
                        assert(node_coord(shape, 7, 1) == 0);
                        if k == 0 {
                        } else {
                        }
                    } else {
                        assert(node_coord(shape, 8, 0) == 0);
                        assert(node_coord(shape, 8, 1) == 0);
                        if k == 0 {
                        } else {
                        }
                    }
                }
            }
            r
        },
    }
}

/// Exact evaluation of [`basis_den`] for a given point denominator.
pub fn basis_den_exec(shape: ElementShape, d: i128) -> (r: i128)
    requires
        0 < d <= REF_POINT_LIMIT,
    ensures
        r as int == basis_den(shape, d as int),
        r > 0,
{
    proof {
        mul_pos(d as int, d as int);
        mul_bound(d as int, d as int, REF_POINT_LIMIT as int, REF_POINT_LIMIT as int);
        mul_pos(d as int * d as int, d as int);
        mul_bound(d as int * d as int, d as int, REF_POINT_LIMIT as int * REF_POINT_LIMIT as int,
            REF_POINT_LIMIT as int);
        mul_pos(d as int * d as int, d as int * d as int);
        mul_bound(d as int * d as int, d as int * d as int, REF_POINT_LIMIT as int
            * REF_POINT_LIMIT as int, REF_POINT_LIMIT as int * REF_POINT_LIMIT as int);
    }
    match shape {
        ElementShape::Segment2d2 => 2 * d,
        ElementShape::Tri3d2 => 2 * d,
        ElementShape::Tri6d2 => 2 * (d * d),
        ElementShape::Quad4d2 => 4 * (d * d),
        ElementShape::Quad9d2 => 4 * ((d * d) * (d * d)),
        ElementShape::Tet4 => 2 * d,
        ElementShape::Hex8 => 8 * ((d * d) * d),
    }
}

/// Exact evaluation of [`grad_den`] for a given point denominator.
pub fn grad_den_exec(shape: ElementShape, d: i128) -> (r: i128)
    requires
        0 < d <= REF_POINT_LIMIT,
    ensures
        r as int == grad_den(shape, d as int),
        r > 0,
{
    proof {
        mul_pos(d as int, d as int);
        mul_bound(d as int, d as int, REF_POINT_LIMIT as int, REF_POINT_LIMIT as int);
        mul_pos(d as int * d as int, d as int);
        mul_bound(d as int * d as int, d as int, REF_POINT_LIMIT as int * REF_POINT_LIMIT as int,
            REF_POINT_LIMIT as int);
    }
    match shape {
        ElementShape::Segment2d2 => 2,
        ElementShape::Tri3d2 => 2,
        ElementShape::Tri6d2 => 2 * d,
        ElementShape::Quad4d2 => 4 * d,
        ElementShape::Quad9d2 => 4 * ((d * d) * d),
        ElementShape::Tet4 => 2,
        ElementShape::Hex8 => 8 * (d * d),
    }
}

/// At a reference point with small coordinates and denominator at most 2, all
/// basis numerators are small, and so is the basis denominator.
pub proof fn lemma_basis_num_small(shape: ElementShape, i: int, xi: Seq<int>, d: int)
    requires
        xi.len() == shape.reference_dim_spec(),
        forall|t: int| 0 <= t < xi.len() ==> iabs(#[trigger] xi[t]) <= d,
        0 < d <= 2,
        0 <= i < shape.num_nodes_spec(),
    ensures
        iabs(basis_num(shape, i, xi, d)) <= 64,
        0 < basis_den(shape, d) <= 64,
{
    match shape {
        ElementShape::Segment2d2 => {
            assert(iabs(xi[0]) <= d);
        },
        ElementShape::Tri3d2 => {
            assert(iabs(xi[0]) <= d && iabs(xi[1]) <= d);
        },
        ElementShape::Tet4 => {
            assert(iabs(xi[0]) <= d && iabs(xi[1]) <= d && iabs(xi[2]) <= d);
        },
        ElementShape::Quad4d2 => {
            assert(iabs(basis_num(shape, i, xi, d)) <= 64 && 0 < basis_den(shape, d) <= 64)
                by (nonlinear_arith)
                requires
                    shape == ElementShape::Quad4d2,
                    iabs(xi[0]) <= d,
                    iabs(xi[1]) <= d,
                    0 < d <= 2,
                    0 <= i < 4,
            ;
        },
        ElementShape::Hex8 => {
            assert(iabs(basis_num(shape, i, xi, d)) <= 64 && 0 < basis_den(shape, d) <= 64)
                by (nonlinear_arith)
                requires
                    shape == ElementShape::Hex8,
                    iabs(xi[0]) <= d,
                    iabs(xi[1]) <= d,
                    iabs(xi[2]) <= d,
                    0 < d <= 2,
                    0 <= i < 8,
            ;
        },
        ElementShape::Tri6d2 => {
            assert(iabs(basis_num(shape, i, xi, d)) <= 64 && 0 < basis_den(shape, d) <= 64)
                by (nonlinear_arith)
                requires
                    shape == ElementShape::Tri6d2,
                    iabs(xi[0]) <= d,
                    iabs(xi[1]) <= d,
                    0 < d <= 2,
                    0 <= i < 6,
            ;
        },
        ElementShape::Quad9d2 => {
            assert(iabs(basis_num(shape, i, xi, d)) <= 64 && 0 < basis_den(shape, d) <= 64)
                by (nonlinear_arith)
                requires
                    shape == ElementShape::Quad9d2,
                    iabs(xi[0]) <= d,
                    iabs(xi[1]) <= d,
                    0 < d <= 2,
                    0 <= i < 9,
            ;
        },
    }
}

/// At a reference point with small coordinates and denominator at most 2, all
/// gradient numerators are small, and so is the gradient denominator.
pub proof fn lemma_grad_num_small(shape: ElementShape, i: int, k: int, xi: Seq<int>, d: int)
    requires
        xi.len() == shape.reference_dim_spec(),
        forall|t: int| 0 <= t < xi.len() ==> iabs(#[trigger] xi[t]) <= d,
        0 < d <= 2,
        0 <= i < shape.num_nodes_spec(),
        0 <= k < shape.reference_dim_spec(),
    ensures
        iabs(grad_num(shape, i, k, xi, d)) <= 64,
        0 < grad_den(shape, d) <= 32,
{
    match shape {
        ElementShape::Segment2d2 => {
        },
        ElementShape::Tri3d2 => {
        },
        ElementShape::Tet4 => {
        },
        ElementShape::Quad4d2 => {
            assert(iabs(grad_num(shape, i, k, xi, d)) <= 64 && 0 < grad_den(shape, d) <= 32)
                by (nonlinear_arith)
                requires
                    shape == ElementShape::Quad4d2,
                    iabs(xi[0]) <= d,
                    iabs(xi[1]) <= d,
                    0 < d <= 2,
                    0 <= i < 4,
                    0 <= k < 2,
            ;
        },
        ElementShape::Hex8 => {
            assert(iabs(grad_num(shape, i, k, xi, d)) <= 64 && 0 < grad_den(shape, d) <= 32)
                by (nonlinear_arith)
                requires
                    shape == ElementShape::Hex8,
                    iabs(xi[0]) <= d,
                    iabs(xi[1]) <= d,
                    iabs(xi[2]) <= d,
                    0 < d <= 2,
                    0 <= i < 8,
                    0 <= k < 3,
            ;
        },
        ElementShape::Tri6d2 => {
            assert(iabs(grad_num(shape, i, k, xi, d)) <= 64 && 0 < grad_den(shape, d) <= 32)
                by (nonlinear_arith)
                requires
                    shape == ElementShape::Tri6d2,
                    iabs(xi[0]) <= d,
                    iabs(xi[1]) <= d,
                    0 < d <= 2,
                    0 <= i < 6,
                    0 <= k < 2,
            ;
        },
        ElementShape::Quad9d2 => {
            assert(iabs(grad_num(shape, i, k, xi, d)) <= 64 && 0 < grad_den(shape, d) <= 32)
                by (nonlinear_arith)
                requires
                    shape == ElementShape::Quad9d2,
                    iabs(xi[0]) <= d,
                    iabs(xi[1]) <= d,
                    0 < d <= 2,
                    0 <= i < 9,
                    0 <= k < 2,
            ;
        },
    }
}

/// For point denominators up to 2, the basis and gradient denominators of
/// every shape are small and positive.
pub proof fn lemma_dens_small(shape: ElementShape, d: int)
    requires
        0 < d <= 2,
    ensures
        0 < basis_den(shape, d) <= 64,
        0 < grad_den(shape, d) <= 32,
{
    assert(0 < basis_den(shape, d) <= 64 && 0 < grad_den(shape, d) <= 32) by (nonlinear_arith)
        requires
            0 < d <= 2,
            basis_den(shape, d) == basis_den(shape, d),
            grad_den(shape, d) == grad_den(shape, d),
    ;
}

} // verus!
