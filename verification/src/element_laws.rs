//! The algebraic laws of the basis functions, proved exactly.
//!
//! These are the library-wide invariants of the basis polynomials: the
//! Lagrange (Kronecker delta) property at the reference nodes, the partition
//! of unity over the whole reference domain, and the vanishing of the summed
//! basis gradients. Because all arithmetic is exact, each law is an identity
//! over the integers, with no tolerance.

use vstd::prelude::*;
use crate::rational::{sum_prefix};
use crate::element::{
    ElementShape, basis_den, basis_num, grad_den, grad_num, node_point, node_coord,
};

verus! {

/// The row of basis-value numerators of `shape` at the point `xi / d`.
pub open spec fn basis_num_row(shape: ElementShape, xi: Seq<int>, d: int) -> Seq<int> {
    Seq::new(shape.num_nodes_spec(), |i: int| basis_num(shape, i, xi, d))
}

/// The row of basis-gradient numerators of `shape` in reference direction `k`
/// at the point `xi / d`.
pub open spec fn grad_num_row(shape: ElementShape, k: int, xi: Seq<int>, d: int) -> Seq<int> {
    Seq::new(shape.num_nodes_spec(), |i: int| grad_num(shape, i, k, xi, d))
}

proof fn lagrange_segment2d2(i: int, j: int)
    requires
        0 <= i < 2,
        0 <= j < 2,
    ensures
        basis_num(ElementShape::Segment2d2, i, node_point(ElementShape::Segment2d2, j), 1) == if i == j {
            basis_den(ElementShape::Segment2d2, 1)
        } else {
            0
        },
{
    let xi = node_point(ElementShape::Segment2d2, j);
    if i == 0 {
        if j == 0 {
        } else {
        }
    } else {
        if j == 0 {
        } else {
        }
    }
}

proof fn lagrange_tri3d2(i: int, j: int)
    requires
        0 <= i < 3,
        0 <= j < 3,
    ensures
        basis_num(ElementShape::Tri3d2, i, node_point(ElementShape::Tri3d2, j), 1) == if i == j {
            basis_den(ElementShape::Tri3d2, 1)
        } else {
            0
        },
{
    let xi = node_point(ElementShape::Tri3d2, j);
    if i == 0 {
        if j == 0 {
        } else if j == 1 {
        } else {
        }
    } else if i == 1 {
        if j == 0 {
        } else if j == 1 {
        } else {
        }
    } else {
        if j == 0 {
        } else if j == 1 {
        } else {
        }
    }
}

proof fn lagrange_tri6d2(i: int, j: int)
    requires
        0 <= i < 6,
        0 <= j < 6,
    ensures
        basis_num(ElementShape::Tri6d2, i, node_point(ElementShape::Tri6d2, j), 1) == if i == j {
            basis_den(ElementShape::Tri6d2, 1)
        } else {
            0
        },
{
    let xi = node_point(ElementShape::Tri6d2, j);
    if i == 0 {
        if j == 0 {
            assert(xi[0] == -1 && xi[1] == -1);
            assert(basis_num(ElementShape::Tri6d2, i, xi, 1) == 2) by (nonlinear_arith)
                requires
                    i == 0,
                    xi[0] == -1,
                    xi[1] == -1,
            ;
        } else if j == 1 {
            assert(xi[0] == 1 && xi[1] == -1);
            assert(basis_num(ElementShape::Tri6d2, i, xi, 1) == 0) by (nonlinear_arith)
                requires
                    i == 0,
                    xi[0] == 1,
                    xi[1] == -1,
            ;
        } else if j == 2 {
            assert(xi[0] == -1 && xi[1] == 1);
            assert(basis_num(ElementShape::Tri6d2, i, xi, 1) == 0) by (nonlinear_arith)
                requires
                    i == 0,
                    xi[0] == -1,
                    xi[1] == 1,
            ;
        } else if j == 3 {
            assert(xi[0] == 0 && xi[1] == -1);
            assert(basis_num(ElementShape::Tri6d2, i, xi, 1) == 0) by (nonlinear_arith)
                requires
                    i == 0,
                    xi[0] == 0,
                    xi[1] == -1,
            ;
        } else if j == 4 {
            assert(xi[0] == 0 && xi[1] == 0);
            assert(basis_num(ElementShape::Tri6d2, i, xi, 1) == 0) by (nonlinear_arith)
                requires
                    i == 0,
                    xi[0] == 0,
                    xi[1] == 0,
            ;
        } else {
            assert(xi[0] == -1 && xi[1] == 0);
            assert(basis_num(ElementShape::Tri6d2, i, xi, 1) == 0) by (nonlinear_arith)
                requires
                    i == 0,
                    xi[0] == -1,
                    xi[1] == 0,
            ;
        }
    } else if i == 1 {
        if j == 0 {
            assert(xi[0] == -1 && xi[1] == -1);
            assert(basis_num(ElementShape::Tri6d2, i, xi, 1) == 0) by (nonlinear_arith)
                requires
                    i == 1,
                    xi[0] == -1,
                    xi[1] == -1,
            ;
        } else if j == 1 {
            assert(xi[0] == 1 && xi[1] == -1);
            assert(basis_num(ElementShape::Tri6d2, i, xi, 1) == 2) by (nonlinear_arith)
                requires
                    i == 1,
                    xi[0] == 1,
                    xi[1] == -1,
            ;
        } else if j == 2 {
            assert(xi[0] == -1 && xi[1] == 1);
            assert(basis_num(ElementShape::Tri6d2, i, xi, 1) == 0) by (nonlinear_arith)
                requires
                    i == 1,
                    xi[0] == -1,
                    xi[1] == 1,
            ;
        } else if j == 3 {
            assert(xi[0] == 0 && xi[1] == -1);
            assert(basis_num(ElementShape::Tri6d2, i, xi, 1) == 0) by (nonlinear_arith)
                requires
                    i == 1,
                    xi[0] == 0,
                    xi[1] == -1,
            ;
        } else if j == 4 {
            assert(xi[0] == 0 && xi[1] == 0);
            assert(basis_num(ElementShape::Tri6d2, i, xi, 1) == 0) by (nonlinear_arith)
                requires
                    i == 1,
                    xi[0] == 0,
                    xi[1] == 0,
            ;
        } else {
            assert(xi[0] == -1 && xi[1] == 0);
            assert(basis_num(ElementShape::Tri6d2, i, xi, 1) == 0) by (nonlinear_arith)
                requires
                    i == 1,
                    xi[0] == -1,
                    xi[1] == 0,
            ;
        }
    } else if i == 2 {
        if j == 0 {
            assert(xi[0] == -1 && xi[1] == -1);
            assert(basis_num(ElementShape::Tri6d2, i, xi, 1) == 0) by (nonlinear_arith)
                requires
                    i == 2,
                    xi[0] == -1,
                    xi[1] == -1,
            ;
        } else if j == 1 {
            assert(xi[0] == 1 && xi[1] == -1);
            assert(basis_num(ElementShape::Tri6d2, i, xi, 1) == 0) by (nonlinear_arith)
                requires
                    i == 2,
                    xi[0] == 1,
                    xi[1] == -1,
            ;
        } else if j == 2 {
            assert(xi[0] == -1 && xi[1] == 1);
            assert(basis_num(ElementShape::Tri6d2, i, xi, 1) == 2) by (nonlinear_arith)
                requires
                    i == 2,
                    xi[0] == -1,
                    xi[1] == 1,
            ;
        } else if j == 3 {
            assert(xi[0] == 0 && xi[1] == -1);
            assert(basis_num(ElementShape::Tri6d2, i, xi, 1) == 0) by (nonlinear_arith)
                requires
                    i == 2,
                    xi[0] == 0,
                    xi[1] == -1,
            ;
        } else if j == 4 {
            assert(xi[0] == 0 && xi[1] == 0);
            assert(basis_num(ElementShape::Tri6d2, i, xi, 1) == 0) by (nonlinear_arith)
                requires
                    i == 2,
                    xi[0] == 0,
                    xi[1] == 0,
            ;
        } else {
            assert(xi[0] == -1 && xi[1] == 0);
            assert(basis_num(ElementShape::Tri6d2, i, xi, 1) == 0) by (nonlinear_arith)
                requires
                    i == 2,
                    xi[0] == -1,
                    xi[1] == 0,
            ;
        }
    } else if i == 3 {
        if j == 0 {
            assert(xi[0] == -1 && xi[1] == -1);
            assert(basis_num(ElementShape::Tri6d2, i, xi, 1) == 0) by (nonlinear_arith)
                requires
                    i == 3,
                    xi[0] == -1,
                    xi[1] == -1,
            ;
        } else if j == 1 {
            assert(xi[0] == 1 && xi[1] == -1);
            assert(basis_num(ElementShape::Tri6d2, i, xi, 1) == 0) by (nonlinear_arith)
                requires
                    i == 3,
                    xi[0] == 1,
                    xi[1] == -1,
            ;
        } else if j == 2 {
            assert(xi[0] == -1 && xi[1] == 1);
            assert(basis_num(ElementShape::Tri6d2, i, xi, 1) == 0) by (nonlinear_arith)
                requires
                    i == 3,
                    xi[0] == -1,
                    xi[1] == 1,
            ;
        } else if j == 3 {
            assert(xi[0] == 0 && xi[1] == -1);
            assert(basis_num(ElementShape::Tri6d2, i, xi, 1) == 2) by (nonlinear_arith)
                requires
                    i == 3,
                    xi[0] == 0,
                    xi[1] == -1,
            ;
        } else if j == 4 {
            assert(xi[0] == 0 && xi[1] == 0);
            assert(basis_num(ElementShape::Tri6d2, i, xi, 1) == 0) by (nonlinear_arith)
                requires
                    i == 3,
                    xi[0] == 0,
                    xi[1] == 0,
            ;
        } else {
            assert(xi[0] == -1 && xi[1] == 0);
            assert(basis_num(ElementShape::Tri6d2, i, xi, 1) == 0) by (nonlinear_arith)
                requires
                    i == 3,
                    xi[0] == -1,
                    xi[1] == 0,
            ;
        }
    } else if i == 4 {
        if j == 0 {
            assert(xi[0] == -1 && xi[1] == -1);
            assert(basis_num(ElementShape::Tri6d2, i, xi, 1) == 0) by (nonlinear_arith)
                requires
                    i == 4,
                    xi[0] == -1,
                    xi[1] == -1,
            ;
        } else if j == 1 {
            assert(xi[0] == 1 && xi[1] == -1);
            assert(basis_num(ElementShape::Tri6d2, i, xi, 1) == 0) by (nonlinear_arith)
                requires
                    i == 4,
                    xi[0] == 1,
                    xi[1] == -1,
            ;
        } else if j == 2 {
            assert(xi[0] == -1 && xi[1] == 1);
            assert(basis_num(ElementShape::Tri6d2, i, xi, 1) == 0) by (nonlinear_arith)
                requires
                    i == 4,
                    xi[0] == -1,
                    xi[1] == 1,
            ;
        } else if j == 3 {
            assert(xi[0] == 0 && xi[1] == -1);
            assert(basis_num(ElementShape::Tri6d2, i, xi, 1) == 0) by (nonlinear_arith)
                requires
                    i == 4,
                    xi[0] == 0,
                    xi[1] == -1,
            ;
        } else if j == 4 {
            assert(xi[0] == 0 && xi[1] == 0);
            assert(basis_num(ElementShape::Tri6d2, i, xi, 1) == 2) by (nonlinear_arith)
                requires
                    i == 4,
                    xi[0] == 0,
                    xi[1] == 0,
            ;
        } else {
            assert(xi[0] == -1 && xi[1] == 0);
            assert(basis_num(ElementShape::Tri6d2, i, xi, 1) == 0) by (nonlinear_arith)
                requires
                    i == 4,
                    xi[0] == -1,
                    xi[1] == 0,
            ;
        }
    } else {
        if j == 0 {
            assert(xi[0] == -1 && xi[1] == -1);
            assert(basis_num(ElementShape::Tri6d2, i, xi, 1) == 0) by (nonlinear_arith)
                requires
                    i == 5,
                    xi[0] == -1,
                    xi[1] == -1,
            ;
        } else if j == 1 {
            assert(xi[0] == 1 && xi[1] == -1);
            assert(basis_num(ElementShape::Tri6d2, i, xi, 1) == 0) by (nonlinear_arith)
                requires
                    i == 5,
                    xi[0] == 1,
                    xi[1] == -1,
            ;
        } else if j == 2 {
            assert(xi[0] == -1 && xi[1] == 1);
            assert(basis_num(ElementShape::Tri6d2, i, xi, 1) == 0) by (nonlinear_arith)
                requires
                    i == 5,
                    xi[0] == -1,
                    xi[1] == 1,
            ;
        } else if j == 3 {
            assert(xi[0] == 0 && xi[1] == -1);
            assert(basis_num(ElementShape::Tri6d2, i, xi, 1) == 0) by (nonlinear_arith)
                requires
                    i == 5,
                    xi[0] == 0,
                    xi[1] == -1,
            ;
        } else if j == 4 {
            assert(xi[0] == 0 && xi[1] == 0);
            assert(basis_num(ElementShape::Tri6d2, i, xi, 1) == 0) by (nonlinear_arith)
                requires
                    i == 5,
                    xi[0] == 0,
                    xi[1] == 0,
            ;
        } else {
            assert(xi[0] == -1 && xi[1] == 0);
            assert(basis_num(ElementShape::Tri6d2, i, xi, 1) == 2) by (nonlinear_arith)
                requires
                    i == 5,
                    xi[0] == -1,
                    xi[1] == 0,
            ;
        }
    }
}

proof fn lagrange_quad4d2(i: int, j: int)
    requires
        0 <= i < 4,
        0 <= j < 4,
    ensures
        basis_num(ElementShape::Quad4d2, i, node_point(ElementShape::Quad4d2, j), 1) == if i == j {
            basis_den(ElementShape::Quad4d2, 1)
        } else {
            0
        },
{
    let xi = node_point(ElementShape::Quad4d2, j);
    if i == 0 {
        if j == 0 {
            assert(xi[0] == -1 && xi[1] == -1);
            assert(basis_num(ElementShape::Quad4d2, i, xi, 1) == 4) by (nonlinear_arith)
                requires
                    i == 0,
                    xi[0] == -1,
                    xi[1] == -1,
            ;
        } else if j == 1 {
            assert(xi[0] == 1 && xi[1] == -1);
            assert(basis_num(ElementShape::Quad4d2, i, xi, 1) == 0) by (nonlinear_arith)
                requires
                    i == 0,
                    xi[0] == 1,
                    xi[1] == -1,
            ;
        } else if j == 2 {
            assert(xi[0] == 1 && xi[1] == 1);
            assert(basis_num(ElementShape::Quad4d2, i, xi, 1) == 0) by (nonlinear_arith)
                requires
                    i == 0,
                    xi[0] == 1,
                    xi[1] == 1,
            ;
        } else {
            assert(xi[0] == -1 && xi[1] == 1);
            assert(basis_num(ElementShape::Quad4d2, i, xi, 1) == 0) by (nonlinear_arith)
                requires
                    i == 0,
                    xi[0] == -1,
                    xi[1] == 1,
            ;
        }
    } else if i == 1 {
        if j == 0 {
            assert(xi[0] == -1 && xi[1] == -1);
            assert(basis_num(ElementShape::Quad4d2, i, xi, 1) == 0) by (nonlinear_arith)
                requires
                    i == 1,
                    xi[0] == -1,
                    xi[1] == -1,
            ;
        } else if j == 1 {
            assert(xi[0] == 1 && xi[1] == -1);
            assert(basis_num(ElementShape::Quad4d2, i, xi, 1) == 4) by (nonlinear_arith)
                requires
                    i == 1,
                    xi[0] == 1,
                    xi[1] == -1,
            ;
        } else if j == 2 {
            assert(xi[0] == 1 && xi[1] == 1);
            assert(basis_num(ElementShape::Quad4d2, i, xi, 1) == 0) by (nonlinear_arith)
                requires
                    i == 1,
                    xi[0] == 1,
                    xi[1] == 1,
            ;
        } else {
            assert(xi[0] == -1 && xi[1] == 1);
            assert(basis_num(ElementShape::Quad4d2, i, xi, 1) == 0) by (nonlinear_arith)
                requires
                    i == 1,
                    xi[0] == -1,
                    xi[1] == 1,
            ;
        }
    } else if i == 2 {
        if j == 0 {
            assert(xi[0] == -1 && xi[1] == -1);
            assert(basis_num(ElementShape::Quad4d2, i, xi, 1) == 0) by (nonlinear_arith)
                requires
                    i == 2,
                    xi[0] == -1,
                    xi[1] == -1,
            ;
        } else if j == 1 {
            assert(xi[0] == 1 && xi[1] == -1);
            assert(basis_num(ElementShape::Quad4d2, i, xi, 1) == 0) by (nonlinear_arith)
                requires
                    i == 2,
                    xi[0] == 1,
                    xi[1] == -1,
            ;
        } else if j == 2 {
            assert(xi[0] == 1 && xi[1] == 1);
            assert(basis_num(ElementShape::Quad4d2, i, xi, 1) == 4) by (nonlinear_arith)
                requires
                    i == 2,
                    xi[0] == 1,
                    xi[1] == 1,
            ;
        } else {
            assert(xi[0] == -1 && xi[1] == 1);
            assert(basis_num(ElementShape::Quad4d2, i, xi, 1) == 0) by (nonlinear_arith)
                requires
                    i == 2,
                    xi[0] == -1,
                    xi[1] == 1,
            ;
        }
    } else {
        if j == 0 {
            assert(xi[0] == -1 && xi[1] == -1);
            assert(basis_num(ElementShape::Quad4d2, i, xi, 1) == 0) by (nonlinear_arith)
                requires
                    i == 3,
                    xi[0] == -1,
                    xi[1] == -1,
            ;
        } else if j == 1 {
            assert(xi[0] == 1 && xi[1] == -1);
            assert(basis_num(ElementShape::Quad4d2, i, xi, 1) == 0) by (nonlinear_arith)
                requires
                    i == 3,
                    xi[0] == 1,
                    xi[1] == -1,
            ;
        } else if j == 2 {
            assert(xi[0] == 1 && xi[1] == 1);
            assert(basis_num(ElementShape::Quad4d2, i, xi, 1) == 0) by (nonlinear_arith)
                requires
                    i == 3,
                    xi[0] == 1,
                    xi[1] == 1,
            ;
        } else {
            assert(xi[0] == -1 && xi[1] == 1);
            assert(basis_num(ElementShape::Quad4d2, i, xi, 1) == 4) by (nonlinear_arith)
                requires
                    i == 3,
                    xi[0] == -1,
                    xi[1] == 1,
            ;
        }
    }
}

proof fn lagrange_quad9d2(i: int, j: int)
    requires
        0 <= i < 9,
        0 <= j < 9,
    ensures
        basis_num(ElementShape::Quad9d2, i, node_point(ElementShape::Quad9d2, j), 1) == if i == j {
            basis_den(ElementShape::Quad9d2, 1)
        } else {
            0
        },
{
    let xi = node_point(ElementShape::Quad9d2, j);
    if i == 0 {
        if j == 0 {
            assert(xi[0] == -1 && xi[1] == -1);
            assert(basis_num(ElementShape::Quad9d2, i, xi, 1) == 4) by (nonlinear_arith)
                requires
                    i == 0,
                    xi[0] == -1,
                    xi[1] == -1,
            ;
        } else if j == 1 {
            assert(xi[0] == 1 && xi[1] == -1);
            assert(basis_num(ElementShape::Quad9d2, i, xi, 1) == 0) by (nonlinear_arith)
                requires
                    i == 0,
                    xi[0] == 1,
                    xi[1] == -1,
            ;
        } else if j == 2 {
            assert(xi[0] == 1 && xi[1] == 1);
            assert(basis_num(ElementShape::Quad9d2, i, xi, 1) == 0) by (nonlinear_arith)
                requires
                    i == 0,
                    xi[0] == 1,
                    xi[1] == 1,
            ;
        } else if j == 3 {
            assert(xi[0] == -1 && xi[1] == 1);
            assert(basis_num(ElementShape::Quad9d2, i, xi, 1) == 0) by (nonlinear_arith)
                requires
                    i == 0,
                    xi[0] == -1,
                    xi[1] == 1,
            ;
        } else if j == 4 {
            assert(xi[0] == 0 && xi[1] == -1);
            assert(basis_num(ElementShape::Quad9d2, i, xi, 1) == 0) by (nonlinear_arith)
                requires
                    i == 0,
                    xi[0] == 0,
                    xi[1] == -1,
            ;
        } else if j == 5 {
            assert(xi[0] == 1 && xi[1] == 0);
            assert(basis_num(ElementShape::Quad9d2, i, xi, 1) == 0) by (nonlinear_arith)
                requires
                    i == 0,
                    xi[0] == 1,
                    xi[1] == 0,
            ;
        } else if j == 6 {
            assert(xi[0] == 0 && xi[1] == 1);
            assert(basis_num(ElementShape::Quad9d2, i, xi, 1) == 0) by (nonlinear_arith)
                requires
                    i == 0,
                    xi[0] == 0,
                    xi[1] == 1,
            ;
        } else if j == 7 {
            assert(xi[0] == -1 && xi[1] == 0);
            assert(basis_num(ElementShape::Quad9d2, i, xi, 1) == 0) by (nonlinear_arith)
                requires
                    i == 0,
                    xi[0] == -1,
                    xi[1] == 0,
            ;
        } else {
            assert(xi[0] == 0 && xi[1] == 0);
            assert(basis_num(ElementShape::Quad9d2, i, xi, 1) == 0) by (nonlinear_arith)
                requires
                    i == 0,
                    xi[0] == 0,
                    xi[1] == 0,
            ;
        }
    } else if i == 1 {
        if j == 0 {
            assert(xi[0] == -1 && xi[1] == -1);
            assert(basis_num(ElementShape::Quad9d2, i, xi, 1) == 0) by (nonlinear_arith)
                requires
                    i == 1,
                    xi[0] == -1,
                    xi[1] == -1,
            ;
        } else if j == 1 {
            assert(xi[0] == 1 && xi[1] == -1);
            assert(basis_num(ElementShape::Quad9d2, i, xi, 1) == 4) by (nonlinear_arith)
                requires
                    i == 1,
                    xi[0] == 1,
                    xi[1] == -1,
            ;
        } else if j == 2 {
            assert(xi[0] == 1 && xi[1] == 1);
            assert(basis_num(ElementShape::Quad9d2, i, xi, 1) == 0) by (nonlinear_arith)
                requires
                    i == 1,
                    xi[0] == 1,
                    xi[1] == 1,
            ;
        } else if j == 3 {
            assert(xi[0] == -1 && xi[1] == 1);
            assert(basis_num(ElementShape::Quad9d2, i, xi, 1) == 0) by (nonlinear_arith)
                requires
                    i == 1,
                    xi[0] == -1,
                    xi[1] == 1,
            ;
        } else if j == 4 {
            assert(xi[0] == 0 && xi[1] == -1);
            assert(basis_num(ElementShape::Quad9d2, i, xi, 1) == 0) by (nonlinear_arith)
                requires
                    i == 1,
                    xi[0] == 0,
                    xi[1] == -1,
            ;
        } else if j == 5 {
            assert(xi[0] == 1 && xi[1] == 0);
            assert(basis_num(ElementShape::Quad9d2, i, xi, 1) == 0) by (nonlinear_arith)
                requires
                    i == 1,
                    xi[0] == 1,
                    xi[1] == 0,
            ;
        } else if j == 6 {
            assert(xi[0] == 0 && xi[1] == 1);
            assert(basis_num(ElementShape::Quad9d2, i, xi, 1) == 0) by (nonlinear_arith)
                requires
                    i == 1,
                    xi[0] == 0,
                    xi[1] == 1,
            ;
        } else if j == 7 {
            assert(xi[0] == -1 && xi[1] == 0);
            assert(basis_num(ElementShape::Quad9d2, i, xi, 1) == 0) by (nonlinear_arith)
                requires
                    i == 1,
                    xi[0] == -1,
                    xi[1] == 0,
            ;
        } else {
            assert(xi[0] == 0 && xi[1] == 0);
            assert(basis_num(ElementShape::Quad9d2, i, xi, 1) == 0) by (nonlinear_arith)
                requires
                    i == 1,
                    xi[0] == 0,
                    xi[1] == 0,
            ;
        }
    } else if i == 2 {
        if j == 0 {
            assert(xi[0] == -1 && xi[1] == -1);
            assert(basis_num(ElementShape::Quad9d2, i, xi, 1) == 0) by (nonlinear_arith)
                requires
                    i == 2,
                    xi[0] == -1,
                    xi[1] == -1,
            ;
        } else if j == 1 {
            assert(xi[0] == 1 && xi[1] == -1);
            assert(basis_num(ElementShape::Quad9d2, i, xi, 1) == 0) by (nonlinear_arith)
                requires
                    i == 2,
                    xi[0] == 1,
                    xi[1] == -1,
            ;
        } else if j == 2 {
            assert(xi[0] == 1 && xi[1] == 1);
            assert(basis_num(ElementShape::Quad9d2, i, xi, 1) == 4) by (nonlinear_arith)
                requires
                    i == 2,
                    xi[0] == 1,
                    xi[1] == 1,
            ;
        } else if j == 3 {
            assert(xi[0] == -1 && xi[1] == 1);
            assert(basis_num(ElementShape::Quad9d2, i, xi, 1) == 0) by (nonlinear_arith)
                requires
                    i == 2,
                    xi[0] == -1,
                    xi[1] == 1,
            ;
        } else if j == 4 {
            assert(xi[0] == 0 && xi[1] == -1);
            assert(basis_num(ElementShape::Quad9d2, i, xi, 1) == 0) by (nonlinear_arith)
                requires
                    i == 2,
                    xi[0] == 0,
                    xi[1] == -1,
            ;
        } else if j == 5 {
            assert(xi[0] == 1 && xi[1] == 0);
            assert(basis_num(ElementShape::Quad9d2, i, xi, 1) == 0) by (nonlinear_arith)
                requires
                    i == 2,
                    xi[0] == 1,
                    xi[1] == 0,
            ;
        } else if j == 6 {
            assert(xi[0] == 0 && xi[1] == 1);
            assert(basis_num(ElementShape::Quad9d2, i, xi, 1) == 0) by (nonlinear_arith)
                requires
                    i == 2,
                    xi[0] == 0,
                    xi[1] == 1,
            ;
        } else if j == 7 {
            assert(xi[0] == -1 && xi[1] == 0);
            assert(basis_num(ElementShape::Quad9d2, i, xi, 1) == 0) by (nonlinear_arith)
                requires
                    i == 2,
                    xi[0] == -1,
                    xi[1] == 0,
            ;
        } else {
            assert(xi[0] == 0 && xi[1] == 0);
            assert(basis_num(ElementShape::Quad9d2, i, xi, 1) == 0) by (nonlinear_arith)
                requires
                    i == 2,
                    xi[0] == 0,
                    xi[1] == 0,
            ;
        }
    } else if i == 3 {
        if j == 0 {
            assert(xi[0] == -1 && xi[1] == -1);
            assert(basis_num(ElementShape::Quad9d2, i, xi, 1) == 0) by (nonlinear_arith)
                requires
                    i == 3,
                    xi[0] == -1,
                    xi[1] == -1,
            ;
        } else if j == 1 {
            assert(xi[0] == 1 && xi[1] == -1);
            assert(basis_num(ElementShape::Quad9d2, i, xi, 1) == 0) by (nonlinear_arith)
                requires
                    i == 3,
                    xi[0] == 1,
                    xi[1] == -1,
            ;
        } else if j == 2 {
            assert(xi[0] == 1 && xi[1] == 1);
            assert(basis_num(ElementShape::Quad9d2, i, xi, 1) == 0) by (nonlinear_arith)
                requires
                    i == 3,
                    xi[0] == 1,
                    xi[1] == 1,
            ;
        } else if j == 3 {
            assert(xi[0] == -1 && xi[1] == 1);
            assert(basis_num(ElementShape::Quad9d2, i, xi, 1) == 4) by (nonlinear_arith)
                requires
                    i == 3,
                    xi[0] == -1,
                    xi[1] == 1,
            ;
        } else if j == 4 {
            assert(xi[0] == 0 && xi[1] == -1);
            assert(basis_num(ElementShape::Quad9d2, i, xi, 1) == 0) by (nonlinear_arith)
                requires
                    i == 3,
                    xi[0] == 0,
                    xi[1] == -1,
            ;
        } else if j == 5 {
            assert(xi[0] == 1 && xi[1] == 0);
            assert(basis_num(ElementShape::Quad9d2, i, xi, 1) == 0) by (nonlinear_arith)
                requires
                    i == 3,
                    xi[0] == 1,
                    xi[1] == 0,
            ;
        } else if j == 6 {
            assert(xi[0] == 0 && xi[1] == 1);
            assert(basis_num(ElementShape::Quad9d2, i, xi, 1) == 0) by (nonlinear_arith)
                requires
                    i == 3,
                    xi[0] == 0,
                    xi[1] == 1,
            ;
        } else if j == 7 {
            assert(xi[0] == -1 && xi[1] == 0);
            assert(basis_num(ElementShape::Quad9d2, i, xi, 1) == 0) by (nonlinear_arith)
                requires
                    i == 3,
                    xi[0] == -1,
                    xi[1] == 0,
            ;
        } else {
            assert(xi[0] == 0 && xi[1] == 0);
            assert(basis_num(ElementShape::Quad9d2, i, xi, 1) == 0) by (nonlinear_arith)
                requires
                    i == 3,
                    xi[0] == 0,
                    xi[1] == 0,
            ;
        }
    } else if i == 4 {
        if j == 0 {
            assert(xi[0] == -1 && xi[1] == -1);
            assert(basis_num(ElementShape::Quad9d2, i, xi, 1) == 0) by (nonlinear_arith)
                requires
                    i == 4,
                    xi[0] == -1,
                    xi[1] == -1,
            ;
        } else if j == 1 {
            assert(xi[0] == 1 && xi[1] == -1);
            assert(basis_num(ElementShape::Quad9d2, i, xi, 1) == 0) by (nonlinear_arith)
                requires
                    i == 4,
                    xi[0] == 1,
                    xi[1] == -1,
            ;
        } else if j == 2 {
            assert(xi[0] == 1 && xi[1] == 1);
            assert(basis_num(ElementShape::Quad9d2, i, xi, 1) == 0) by (nonlinear_arith)
                requires
                    i == 4,
                    xi[0] == 1,
                    xi[1] == 1,
            ;
        } else if j == 3 {
            assert(xi[0] == -1 && xi[1] == 1);
            assert(basis_num(ElementShape::Quad9d2, i, xi, 1) == 0) by (nonlinear_arith)
                requires
                    i == 4,
                    xi[0] == -1,
                    xi[1] == 1,
            ;
        } else if j == 4 {
            assert(xi[0] == 0 && xi[1] == -1);
            assert(basis_num(ElementShape::Quad9d2, i, xi, 1) == 4) by (nonlinear_arith)
                requires
                    i == 4,
                    xi[0] == 0,
                    xi[1] == -1,
            ;
        } else if j == 5 {
            assert(xi[0] == 1 && xi[1] == 0);
            assert(basis_num(ElementShape::Quad9d2, i, xi, 1) == 0) by (nonlinear_arith)
                requires
                    i == 4,
                    xi[0] == 1,
                    xi[1] == 0,
            ;
        } else if j == 6 {
            assert(xi[0] == 0 && xi[1] == 1);
            assert(basis_num(ElementShape::Quad9d2, i, xi, 1) == 0) by (nonlinear_arith)
                requires
                    i == 4,
                    xi[0] == 0,
                    xi[1] == 1,
            ;
        } else if j == 7 {
            assert(xi[0] == -1 && xi[1] == 0);
            assert(basis_num(ElementShape::Quad9d2, i, xi, 1) == 0) by (nonlinear_arith)
                requires
                    i == 4,
                    xi[0] == -1,
                    xi[1] == 0,
            ;
        } else {
            assert(xi[0] == 0 && xi[1] == 0);
            assert(basis_num(ElementShape::Quad9d2, i, xi, 1) == 0) by (nonlinear_arith)
                requires
                    i == 4,
                    xi[0] == 0,
                    xi[1] == 0,
            ;
        }
    } else if i == 5 {
        if j == 0 {
            assert(xi[0] == -1 && xi[1] == -1);
            assert(basis_num(ElementShape::Quad9d2, i, xi, 1) == 0) by (nonlinear_arith)
                requires
                    i == 5,
                    xi[0] == -1,
                    xi[1] == -1,
            ;
        } else if j == 1 {
            assert(xi[0] == 1 && xi[1] == -1);
            assert(basis_num(ElementShape::Quad9d2, i, xi, 1) == 0) by (nonlinear_arith)
                requires
                    i == 5,
                    xi[0] == 1,
                    xi[1] == -1,
            ;
        } else if j == 2 {
            assert(xi[0] == 1 && xi[1] == 1);
            assert(basis_num(ElementShape::Quad9d2, i, xi, 1) == 0) by (nonlinear_arith)
                requires
                    i == 5,
                    xi[0] == 1,
                    xi[1] == 1,
            ;
        } else if j == 3 {
            assert(xi[0] == -1 && xi[1] == 1);
            assert(basis_num(ElementShape::Quad9d2, i, xi, 1) == 0) by (nonlinear_arith)
                requires
                    i == 5,
                    xi[0] == -1,
                    xi[1] == 1,
            ;
        } else if j == 4 {
            assert(xi[0] == 0 && xi[1] == -1);
            assert(basis_num(ElementShape::Quad9d2, i, xi, 1) == 0) by (nonlinear_arith)
                requires
                    i == 5,
                    xi[0] == 0,
                    xi[1] == -1,
            ;
        } else if j == 5 {
            assert(xi[0] == 1 && xi[1] == 0);
            assert(basis_num(ElementShape::Quad9d2, i, xi, 1) == 4) by (nonlinear_arith)
                requires
                    i == 5,
                    xi[0] == 1,
                    xi[1] == 0,
            ;
        } else if j == 6 {
            assert(xi[0] == 0 && xi[1] == 1);
            assert(basis_num(ElementShape::Quad9d2, i, xi, 1) == 0) by (nonlinear_arith)
                requires
                    i == 5,
                    xi[0] == 0,
                    xi[1] == 1,
            ;
        } else if j == 7 {
            assert(xi[0] == -1 && xi[1] == 0);
            assert(basis_num(ElementShape::Quad9d2, i, xi, 1) == 0) by (nonlinear_arith)
                requires
                    i == 5,
                    xi[0] == -1,
                    xi[1] == 0,
            ;
        } else {
            assert(xi[0] == 0 && xi[1] == 0);
            assert(basis_num(ElementShape::Quad9d2, i, xi, 1) == 0) by (nonlinear_arith)
                requires
                    i == 5,
                    xi[0] == 0,
                    xi[1] == 0,
            ;
        }
    } else if i == 6 {
        if j == 0 {
            assert(xi[0] == -1 && xi[1] == -1);
            assert(basis_num(ElementShape::Quad9d2, i, xi, 1) == 0) by (nonlinear_arith)
                requires
                    i == 6,
                    xi[0] == -1,
                    xi[1] == -1,
            ;
        } else if j == 1 {
            assert(xi[0] == 1 && xi[1] == -1);
            assert(basis_num(ElementShape::Quad9d2, i, xi, 1) == 0) by (nonlinear_arith)
                requires
                    i == 6,
                    xi[0] == 1,
                    xi[1] == -1,
            ;
        } else if j == 2 {
            assert(xi[0] == 1 && xi[1] == 1);
            assert(basis_num(ElementShape::Quad9d2, i, xi, 1) == 0) by (nonlinear_arith)
                requires
                    i == 6,
                    xi[0] == 1,
                    xi[1] == 1,
            ;
        } else if j == 3 {
            assert(xi[0] == -1 && xi[1] == 1);
            assert(basis_num(ElementShape::Quad9d2, i, xi, 1) == 0) by (nonlinear_arith)
                requires
                    i == 6,
                    xi[0] == -1,
                    xi[1] == 1,
            ;
        } else if j == 4 {
            assert(xi[0] == 0 && xi[1] == -1);
            assert(basis_num(ElementShape::Quad9d2, i, xi, 1) == 0) by (nonlinear_arith)
                requires
                    i == 6,
                    xi[0] == 0,
                    xi[1] == -1,
            ;
        } else if j == 5 {
            assert(xi[0] == 1 && xi[1] == 0);
            assert(basis_num(ElementShape::Quad9d2, i, xi, 1) == 0) by (nonlinear_arith)
                requires
                    i == 6,
                    xi[0] == 1,
                    xi[1] == 0,
            ;
        } else if j == 6 {
            assert(xi[0] == 0 && xi[1] == 1);
            assert(basis_num(ElementShape::Quad9d2, i, xi, 1) == 4) by (nonlinear_arith)
                requires
                    i == 6,
                    xi[0] == 0,
                    xi[1] == 1,
            ;
        } else if j == 7 {
            assert(xi[0] == -1 && xi[1] == 0);
            assert(basis_num(ElementShape::Quad9d2, i, xi, 1) == 0) by (nonlinear_arith)
                requires
                    i == 6,
                    xi[0] == -1,
                    xi[1] == 0,
            ;
        } else {
            assert(xi[0] == 0 && xi[1] == 0);
            assert(basis_num(ElementShape::Quad9d2, i, xi, 1) == 0) by (nonlinear_arith)
                requires
                    i == 6,
                    xi[0] == 0,
                    xi[1] == 0,
            ;
        }
    } else if i == 7 {
        if j == 0 {
            assert(xi[0] == -1 && xi[1] == -1);
            assert(basis_num(ElementShape::Quad9d2, i, xi, 1) == 0) by (nonlinear_arith)
                requires
                    i == 7,
                    xi[0] == -1,
                    xi[1] == -1,
            ;
        } else if j == 1 {
            assert(xi[0] == 1 && xi[1] == -1);
            assert(basis_num(ElementShape::Quad9d2, i, xi, 1) == 0) by (nonlinear_arith)
                requires
                    i == 7,
                    xi[0] == 1,
                    xi[1] == -1,
            ;
        } else if j == 2 {
            assert(xi[0] == 1 && xi[1] == 1);
            assert(basis_num(ElementShape::Quad9d2, i, xi, 1) == 0) by (nonlinear_arith)
                requires
                    i == 7,
                    xi[0] == 1,
                    xi[1] == 1,
            ;
        } else if j == 3 {
            assert(xi[0] == -1 && xi[1] == 1);
            assert(basis_num(ElementShape::Quad9d2, i, xi, 1) == 0) by (nonlinear_arith)
                requires
                    i == 7,
                    xi[0] == -1,
                    xi[1] == 1,
            ;
        } else if j == 4 {
            assert(xi[0] == 0 && xi[1] == -1);
            assert(basis_num(ElementShape::Quad9d2, i, xi, 1) == 0) by (nonlinear_arith)
                requires
                    i == 7,
                    xi[0] == 0,
                    xi[1] == -1,
            ;
        } else if j == 5 {
            assert(xi[0] == 1 && xi[1] == 0);
            assert(basis_num(ElementShape::Quad9d2, i, xi, 1) == 0) by (nonlinear_arith)
                requires
                    i == 7,
                    xi[0] == 1,
                    xi[1] == 0,
            ;
        } else if j == 6 {
            assert(xi[0] == 0 && xi[1] == 1);
            assert(basis_num(ElementShape::Quad9d2, i, xi, 1) == 0) by (nonlinear_arith)
                requires
                    i == 7,
                    xi[0] == 0,
                    xi[1] == 1,
            ;
        } else if j == 7 {
            assert(xi[0] == -1 && xi[1] == 0);
            assert(basis_num(ElementShape::Quad9d2, i, xi, 1) == 4) by (nonlinear_arith)
                requires
                    i == 7,
                    xi[0] == -1,
                    xi[1] == 0,
            ;
        } else {
            assert(xi[0] == 0 && xi[1] == 0);
            assert(basis_num(ElementShape::Quad9d2, i, xi, 1) == 0) by (nonlinear_arith)
                requires
                    i == 7,
                    xi[0] == 0,
                    xi[1] == 0,
            ;
        }
    } else {
        if j == 0 {
            assert(xi[0] == -1 && xi[1] == -1);
            assert(basis_num(ElementShape::Quad9d2, i, xi, 1) == 0) by (nonlinear_arith)
                requires
                    i == 8,
                    xi[0] == -1,
                    xi[1] == -1,
            ;
        } else if j == 1 {
            assert(xi[0] == 1 && xi[1] == -1);
            assert(basis_num(ElementShape::Quad9d2, i, xi, 1) == 0) by (nonlinear_arith)
                requires
                    i == 8,
                    xi[0] == 1,
                    xi[1] == -1,
            ;
        } else if j == 2 {
            assert(xi[0] == 1 && xi[1] == 1);
            assert(basis_num(ElementShape::Quad9d2, i, xi, 1) == 0) by (nonlinear_arith)
                requires
                    i == 8,
                    xi[0] == 1,
                    xi[1] == 1,
            ;
        } else if j == 3 {
            assert(xi[0] == -1 && xi[1] == 1);
            assert(basis_num(ElementShape::Quad9d2, i, xi, 1) == 0) by (nonlinear_arith)
                requires
                    i == 8,
                    xi[0] == -1,
                    xi[1] == 1,
            ;
        } else if j == 4 {
            assert(xi[0] == 0 && xi[1] == -1);
            assert(basis_num(ElementShape::Quad9d2, i, xi, 1) == 0) by (nonlinear_arith)
                requires
                    i == 8,
                    xi[0] == 0,
                    xi[1] == -1,
            ;
        } else if j == 5 {
            assert(xi[0] == 1 && xi[1] == 0);
            assert(basis_num(ElementShape::Quad9d2, i, xi, 1) == 0) by (nonlinear_arith)
                requires
                    i == 8,
                    xi[0] == 1,
                    xi[1] == 0,
            ;
        } else if j == 6 {
            assert(xi[0] == 0 && xi[1] == 1);
            assert(basis_num(ElementShape::Quad9d2, i, xi, 1) == 0) by (nonlinear_arith)
                requires
                    i == 8,
                    xi[0] == 0,
                    xi[1] == 1,
            ;
        } else if j == 7 {
            assert(xi[0] == -1 && xi[1] == 0);
            assert(basis_num(ElementShape::Quad9d2, i, xi, 1) == 0) by (nonlinear_arith)
                requires
                    i == 8,
                    xi[0] == -1,
                    xi[1] == 0,
            ;
        } else {
            assert(xi[0] == 0 && xi[1] == 0);
            assert(basis_num(ElementShape::Quad9d2, i, xi, 1) == 4) by (nonlinear_arith)
                requires
                    i == 8,
                    xi[0] == 0,
                    xi[1] == 0,
            ;
        }
    }
}

proof fn lagrange_tet4(i: int, j: int)
    requires
        0 <= i < 4,
        0 <= j < 4,
    ensures
        basis_num(ElementShape::Tet4, i, node_point(ElementShape::Tet4, j), 1) == if i == j {
            basis_den(ElementShape::Tet4, 1)
        } else {
            0
        },
{
    let xi = node_point(ElementShape::Tet4, j);
    if i == 0 {
        if j == 0 {
        } else if j == 1 {
        } else if j == 2 {
        } else {
        }
    } else if i == 1 {
        if j == 0 {
        } else if j == 1 {
        } else if j == 2 {
        } else {
        }
    } else if i == 2 {
        if j == 0 {
        } else if j == 1 {
        } else if j == 2 {
        } else {
        }
    } else {
        if j == 0 {
        } else if j == 1 {
        } else if j == 2 {
        } else {
        }
    }
}

proof fn lagrange_hex8(i: int, j: int)
    requires
        0 <= i < 8,
        0 <= j < 8,
    ensures
        basis_num(ElementShape::Hex8, i, node_point(ElementShape::Hex8, j), 1) == if i == j {
            basis_den(ElementShape::Hex8, 1)
        } else {
            0
        },
{
    let xi = node_point(ElementShape::Hex8, j);
    if i == 0 {
        if j == 0 {
            assert(xi[0] == -1 && xi[1] == -1 && xi[2] == -1);
            assert(basis_num(ElementShape::Hex8, i, xi, 1) == 8) by (nonlinear_arith)
                requires
                    i == 0,
                    xi[0] == -1,
                    xi[1] == -1,
                    xi[2] == -1,
            ;
        } else if j == 1 {
            assert(xi[0] == 1 && xi[1] == -1 && xi[2] == -1);
            assert(basis_num(ElementShape::Hex8, i, xi, 1) == 0) by (nonlinear_arith)
                requires
                    i == 0,
                    xi[0] == 1,
                    xi[1] == -1,
                    xi[2] == -1,
            ;
        } else if j == 2 {
            assert(xi[0] == 1 && xi[1] == 1 && xi[2] == -1);
            assert(basis_num(ElementShape::Hex8, i, xi, 1) == 0) by (nonlinear_arith)
                requires
                    i == 0,
                    xi[0] == 1,
                    xi[1] == 1,
                    xi[2] == -1,
            ;
        } else if j == 3 {
            assert(xi[0] == -1 && xi[1] == 1 && xi[2] == -1);
            assert(basis_num(ElementShape::Hex8, i, xi, 1) == 0) by (nonlinear_arith)
                requires
                    i == 0,
                    xi[0] == -1,
                    xi[1] == 1,
                    xi[2] == -1,
            ;
        } else if j == 4 {
            assert(xi[0] == -1 && xi[1] == -1 && xi[2] == 1);
            assert(basis_num(ElementShape::Hex8, i, xi, 1) == 0) by (nonlinear_arith)
                requires
                    i == 0,
                    xi[0] == -1,
                    xi[1] == -1,
                    xi[2] == 1,
            ;
        } else if j == 5 {
            assert(xi[0] == 1 && xi[1] == -1 && xi[2] == 1);
            assert(basis_num(ElementShape::Hex8, i, xi, 1) == 0) by (nonlinear_arith)
                requires
                    i == 0,
                    xi[0] == 1,
                    xi[1] == -1,
                    xi[2] == 1,
            ;
        } else if j == 6 {
            assert(xi[0] == 1 && xi[1] == 1 && xi[2] == 1);
            assert(basis_num(ElementShape::Hex8, i, xi, 1) == 0) by (nonlinear_arith)
                requires
                    i == 0,
                    xi[0] == 1,
                    xi[1] == 1,
                    xi[2] == 1,
            ;
        } else {
            assert(xi[0] == -1 && xi[1] == 1 && xi[2] == 1);
            assert(basis_num(ElementShape::Hex8, i, xi, 1) == 0) by (nonlinear_arith)
                requires
                    i == 0,
                    xi[0] == -1,
                    xi[1] == 1,
                    xi[2] == 1,
            ;
        }
    } else if i == 1 {
        if j == 0 {
            assert(xi[0] == -1 && xi[1] == -1 && xi[2] == -1);
            assert(basis_num(ElementShape::Hex8, i, xi, 1) == 0) by (nonlinear_arith)
                requires
                    i == 1,
                    xi[0] == -1,
                    xi[1] == -1,
                    xi[2] == -1,
            ;
        } else if j == 1 {
            assert(xi[0] == 1 && xi[1] == -1 && xi[2] == -1);
            assert(basis_num(ElementShape::Hex8, i, xi, 1) == 8) by (nonlinear_arith)
                requires
                    i == 1,
                    xi[0] == 1,
                    xi[1] == -1,
                    xi[2] == -1,
            ;
        } else if j == 2 {
            assert(xi[0] == 1 && xi[1] == 1 && xi[2] == -1);
            assert(basis_num(ElementShape::Hex8, i, xi, 1) == 0) by (nonlinear_arith)
                requires
                    i == 1,
                    xi[0] == 1,
                    xi[1] == 1,
                    xi[2] == -1,
            ;
        } else if j == 3 {
            assert(xi[0] == -1 && xi[1] == 1 && xi[2] == -1);
            assert(basis_num(ElementShape::Hex8, i, xi, 1) == 0) by (nonlinear_arith)
                requires
                    i == 1,
                    xi[0] == -1,
                    xi[1] == 1,
                    xi[2] == -1,
            ;
        } else if j == 4 {
            assert(xi[0] == -1 && xi[1] == -1 && xi[2] == 1);
            assert(basis_num(ElementShape::Hex8, i, xi, 1) == 0) by (nonlinear_arith)
                requires
                    i == 1,
                    xi[0] == -1,
                    xi[1] == -1,
                    xi[2] == 1,
            ;
        } else if j == 5 {
            assert(xi[0] == 1 && xi[1] == -1 && xi[2] == 1);
            assert(basis_num(ElementShape::Hex8, i, xi, 1) == 0) by (nonlinear_arith)
                requires
                    i == 1,
                    xi[0] == 1,
                    xi[1] == -1,
                    xi[2] == 1,
            ;
        } else if j == 6 {
            assert(xi[0] == 1 && xi[1] == 1 && xi[2] == 1);
            assert(basis_num(ElementShape::Hex8, i, xi, 1) == 0) by (nonlinear_arith)
                requires
                    i == 1,
                    xi[0] == 1,
                    xi[1] == 1,
                    xi[2] == 1,
            ;
        } else {
            assert(xi[0] == -1 && xi[1] == 1 && xi[2] == 1);
            assert(basis_num(ElementShape::Hex8, i, xi, 1) == 0) by (nonlinear_arith)
                requires
                    i == 1,
                    xi[0] == -1,
                    xi[1] == 1,
                    xi[2] == 1,
            ;
        }
    } else if i == 2 {
        if j == 0 {
            assert(xi[0] == -1 && xi[1] == -1 && xi[2] == -1);
            assert(basis_num(ElementShape::Hex8, i, xi, 1) == 0) by (nonlinear_arith)
                requires
                    i == 2,
                    xi[0] == -1,
                    xi[1] == -1,
                    xi[2] == -1,
            ;
        } else if j == 1 {
            assert(xi[0] == 1 && xi[1] == -1 && xi[2] == -1);
            assert(basis_num(ElementShape::Hex8, i, xi, 1) == 0) by (nonlinear_arith)
                requires
                    i == 2,
                    xi[0] == 1,
                    xi[1] == -1,
                    xi[2] == -1,
            ;
        } else if j == 2 {
            assert(xi[0] == 1 && xi[1] == 1 && xi[2] == -1);
            assert(basis_num(ElementShape::Hex8, i, xi, 1) == 8) by (nonlinear_arith)
                requires
                    i == 2,
                    xi[0] == 1,
                    xi[1] == 1,
                    xi[2] == -1,
            ;
        } else if j == 3 {
            assert(xi[0] == -1 && xi[1] == 1 && xi[2] == -1);
            assert(basis_num(ElementShape::Hex8, i, xi, 1) == 0) by (nonlinear_arith)
                requires
                    i == 2,
                    xi[0] == -1,
                    xi[1] == 1,
                    xi[2] == -1,
            ;
        } else if j == 4 {
            assert(xi[0] == -1 && xi[1] == -1 && xi[2] == 1);
            assert(basis_num(ElementShape::Hex8, i, xi, 1) == 0) by (nonlinear_arith)
                requires
                    i == 2,
                    xi[0] == -1,
                    xi[1] == -1,
                    xi[2] == 1,
            ;
        } else if j == 5 {
            assert(xi[0] == 1 && xi[1] == -1 && xi[2] == 1);
            assert(basis_num(ElementShape::Hex8, i, xi, 1) == 0) by (nonlinear_arith)
                requires
                    i == 2,
                    xi[0] == 1,
                    xi[1] == -1,
                    xi[2] == 1,
            ;
        } else if j == 6 {
            assert(xi[0] == 1 && xi[1] == 1 && xi[2] == 1);
            assert(basis_num(ElementShape::Hex8, i, xi, 1) == 0) by (nonlinear_arith)
                requires
                    i == 2,
                    xi[0] == 1,
                    xi[1] == 1,
                    xi[2] == 1,
            ;
        } else {
            assert(xi[0] == -1 && xi[1] == 1 && xi[2] == 1);
            assert(basis_num(ElementShape::Hex8, i, xi, 1) == 0) by (nonlinear_arith)
                requires
                    i == 2,
                    xi[0] == -1,
                    xi[1] == 1,
                    xi[2] == 1,
            ;
        }
    } else if i == 3 {
        if j == 0 {
            assert(xi[0] == -1 && xi[1] == -1 && xi[2] == -1);
            assert(basis_num(ElementShape::Hex8, i, xi, 1) == 0) by (nonlinear_arith)
                requires
                    i == 3,
                    xi[0] == -1,
                    xi[1] == -1,
                    xi[2] == -1,
            ;
        } else if j == 1 {
            assert(xi[0] == 1 && xi[1] == -1 && xi[2] == -1);
            assert(basis_num(ElementShape::Hex8, i, xi, 1) == 0) by (nonlinear_arith)
                requires
                    i == 3,
                    xi[0] == 1,
                    xi[1] == -1,
                    xi[2] == -1,
            ;
        } else if j == 2 {
            assert(xi[0] == 1 && xi[1] == 1 && xi[2] == -1);
            assert(basis_num(ElementShape::Hex8, i, xi, 1) == 0) by (nonlinear_arith)
                requires
                    i == 3,
                    xi[0] == 1,
                    xi[1] == 1,
                    xi[2] == -1,
            ;
        } else if j == 3 {
            assert(xi[0] == -1 && xi[1] == 1 && xi[2] == -1);
            assert(basis_num(ElementShape::Hex8, i, xi, 1) == 8) by (nonlinear_arith)
                requires
                    i == 3,
                    xi[0] == -1,
                    xi[1] == 1,
                    xi[2] == -1,
            ;
        } else if j == 4 {
            assert(xi[0] == -1 && xi[1] == -1 && xi[2] == 1);
            assert(basis_num(ElementShape::Hex8, i, xi, 1) == 0) by (nonlinear_arith)
                requires
                    i == 3,
                    xi[0] == -1,
                    xi[1] == -1,
                    xi[2] == 1,
            ;
        } else if j == 5 {
            assert(xi[0] == 1 && xi[1] == -1 && xi[2] == 1);
            assert(basis_num(ElementShape::Hex8, i, xi, 1) == 0) by (nonlinear_arith)
                requires
                    i == 3,
                    xi[0] == 1,
                    xi[1] == -1,
                    xi[2] == 1,
            ;
        } else if j == 6 {
            assert(xi[0] == 1 && xi[1] == 1 && xi[2] == 1);
            assert(basis_num(ElementShape::Hex8, i, xi, 1) == 0) by (nonlinear_arith)
                requires
                    i == 3,
                    xi[0] == 1,
                    xi[1] == 1,
                    xi[2] == 1,
            ;
        } else {
            assert(xi[0] == -1 && xi[1] == 1 && xi[2] == 1);
            assert(basis_num(ElementShape::Hex8, i, xi, 1) == 0) by (nonlinear_arith)
                requires
                    i == 3,
                    xi[0] == -1,
                    xi[1] == 1,
                    xi[2] == 1,
            ;
        }
    } else if i == 4 {
        if j == 0 {
            assert(xi[0] == -1 && xi[1] == -1 && xi[2] == -1);
            assert(basis_num(ElementShape::Hex8, i, xi, 1) == 0) by (nonlinear_arith)
                requires
                    i == 4,
                    xi[0] == -1,
                    xi[1] == -1,
                    xi[2] == -1,
            ;
        } else if j == 1 {
            assert(xi[0] == 1 && xi[1] == -1 && xi[2] == -1);
            assert(basis_num(ElementShape::Hex8, i, xi, 1) == 0) by (nonlinear_arith)
                requires
                    i == 4,
                    xi[0] == 1,
                    xi[1] == -1,
                    xi[2] == -1,
            ;
        } else if j == 2 {
            assert(xi[0] == 1 && xi[1] == 1 && xi[2] == -1);
            assert(basis_num(ElementShape::Hex8, i, xi, 1) == 0) by (nonlinear_arith)
                requires
                    i == 4,
                    xi[0] == 1,
                    xi[1] == 1,
                    xi[2] == -1,
            ;
        } else if j == 3 {
            assert(xi[0] == -1 && xi[1] == 1 && xi[2] == -1);
            assert(basis_num(ElementShape::Hex8, i, xi, 1) == 0) by (nonlinear_arith)
                requires
                    i == 4,
                    xi[0] == -1,
                    xi[1] == 1,
                    xi[2] == -1,
            ;
        } else if j == 4 {
            assert(xi[0] == -1 && xi[1] == -1 && xi[2] == 1);
            assert(basis_num(ElementShape::Hex8, i, xi, 1) == 8) by (nonlinear_arith)
                requires
                    i == 4,
                    xi[0] == -1,
                    xi[1] == -1,
                    xi[2] == 1,
            ;
        } else if j == 5 {
            assert(xi[0] == 1 && xi[1] == -1 && xi[2] == 1);
            assert(basis_num(ElementShape::Hex8, i, xi, 1) == 0) by (nonlinear_arith)
                requires
                    i == 4,
                    xi[0] == 1,
                    xi[1] == -1,
                    xi[2] == 1,
            ;
        } else if j == 6 {
            assert(xi[0] == 1 && xi[1] == 1 && xi[2] == 1);
            assert(basis_num(ElementShape::Hex8, i, xi, 1) == 0) by (nonlinear_arith)
                requires
                    i == 4,
                    xi[0] == 1,
                    xi[1] == 1,
                    xi[2] == 1,
            ;
        } else {
            assert(xi[0] == -1 && xi[1] == 1 && xi[2] == 1);
            assert(basis_num(ElementShape::Hex8, i, xi, 1) == 0) by (nonlinear_arith)
                requires
                    i == 4,
                    xi[0] == -1,
                    xi[1] == 1,
                    xi[2] == 1,
            ;
        }
    } else if i == 5 {
        if j == 0 {
            assert(xi[0] == -1 && xi[1] == -1 && xi[2] == -1);
            assert(basis_num(ElementShape::Hex8, i, xi, 1) == 0) by (nonlinear_arith)
                requires
                    i == 5,
                    xi[0] == -1,
                    xi[1] == -1,
                    xi[2] == -1,
            ;
        } else if j == 1 {
            assert(xi[0] == 1 && xi[1] == -1 && xi[2] == -1);
            assert(basis_num(ElementShape::Hex8, i, xi, 1) == 0) by (nonlinear_arith)
                requires
                    i == 5,
                    xi[0] == 1,
                    xi[1] == -1,
                    xi[2] == -1,
            ;
        } else if j == 2 {
            assert(xi[0] == 1 && xi[1] == 1 && xi[2] == -1);
            assert(basis_num(ElementShape::Hex8, i, xi, 1) == 0) by (nonlinear_arith)
                requires
                    i == 5,
                    xi[0] == 1,
                    xi[1] == 1,
                    xi[2] == -1,
            ;
        } else if j == 3 {
            assert(xi[0] == -1 && xi[1] == 1 && xi[2] == -1);
            assert(basis_num(ElementShape::Hex8, i, xi, 1) == 0) by (nonlinear_arith)
                requires
                    i == 5,
                    xi[0] == -1,
                    xi[1] == 1,
                    xi[2] == -1,
            ;
        } else if j == 4 {
            assert(xi[0] == -1 && xi[1] == -1 && xi[2] == 1);
            assert(basis_num(ElementShape::Hex8, i, xi, 1) == 0) by (nonlinear_arith)
                requires
                    i == 5,
                    xi[0] == -1,
                    xi[1] == -1,
                    xi[2] == 1,
            ;
        } else if j == 5 {
            assert(xi[0] == 1 && xi[1] == -1 && xi[2] == 1);
            assert(basis_num(ElementShape::Hex8, i, xi, 1) == 8) by (nonlinear_arith)
                requires
                    i == 5,
                    xi[0] == 1,
                    xi[1] == -1,
                    xi[2] == 1,
            ;
        } else if j == 6 {
            assert(xi[0] == 1 && xi[1] == 1 && xi[2] == 1);
            assert(basis_num(ElementShape::Hex8, i, xi, 1) == 0) by (nonlinear_arith)
                requires
                    i == 5,
                    xi[0] == 1,
                    xi[1] == 1,
                    xi[2] == 1,
            ;
        } else {
            assert(xi[0] == -1 && xi[1] == 1 && xi[2] == 1);
            assert(basis_num(ElementShape::Hex8, i, xi, 1) == 0) by (nonlinear_arith)
                requires
                    i == 5,
                    xi[0] == -1,
                    xi[1] == 1,
                    xi[2] == 1,
            ;
        }
    } else if i == 6 {
        if j == 0 {
            assert(xi[0] == -1 && xi[1] == -1 && xi[2] == -1);
            assert(basis_num(ElementShape::Hex8, i, xi, 1) == 0) by (nonlinear_arith)
                requires
                    i == 6,
                    xi[0] == -1,
                    xi[1] == -1,
                    xi[2] == -1,
            ;
        } else if j == 1 {
            assert(xi[0] == 1 && xi[1] == -1 && xi[2] == -1);
            assert(basis_num(ElementShape::Hex8, i, xi, 1) == 0) by (nonlinear_arith)
                requires
                    i == 6,
                    xi[0] == 1,
                    xi[1] == -1,
                    xi[2] == -1,
            ;
        } else if j == 2 {
            assert(xi[0] == 1 && xi[1] == 1 && xi[2] == -1);
            assert(basis_num(ElementShape::Hex8, i, xi, 1) == 0) by (nonlinear_arith)
                requires
                    i == 6,
                    xi[0] == 1,
                    xi[1] == 1,
                    xi[2] == -1,
            ;
        } else if j == 3 {
            assert(xi[0] == -1 && xi[1] == 1 && xi[2] == -1);
            assert(basis_num(ElementShape::Hex8, i, xi, 1) == 0) by (nonlinear_arith)
                requires
                    i == 6,
                    xi[0] == -1,
                    xi[1] == 1,
                    xi[2] == -1,
            ;
        } else if j == 4 {
            assert(xi[0] == -1 && xi[1] == -1 && xi[2] == 1);
            assert(basis_num(ElementShape::Hex8, i, xi, 1) == 0) by (nonlinear_arith)
                requires
                    i == 6,
                    xi[0] == -1,
                    xi[1] == -1,
                    xi[2] == 1,
            ;
        } else if j == 5 {
            assert(xi[0] == 1 && xi[1] == -1 && xi[2] == 1);
            assert(basis_num(ElementShape::Hex8, i, xi, 1) == 0) by (nonlinear_arith)
                requires
                    i == 6,
                    xi[0] == 1,
                    xi[1] == -1,
                    xi[2] == 1,
            ;
        } else if j == 6 {
            assert(xi[0] == 1 && xi[1] == 1 && xi[2] == 1);
            assert(basis_num(ElementShape::Hex8, i, xi, 1) == 8) by (nonlinear_arith)
                requires
                    i == 6,
                    xi[0] == 1,
                    xi[1] == 1,
                    xi[2] == 1,
            ;
        } else {
            assert(xi[0] == -1 && xi[1] == 1 && xi[2] == 1);
            assert(basis_num(ElementShape::Hex8, i, xi, 1) == 0) by (nonlinear_arith)
                requires
                    i == 6,
                    xi[0] == -1,
                    xi[1] == 1,
                    xi[2] == 1,
            ;
        }
    } else {
        if j == 0 {
            assert(xi[0] == -1 && xi[1] == -1 && xi[2] == -1);
            assert(basis_num(ElementShape::Hex8, i, xi, 1) == 0) by (nonlinear_arith)
                requires
                    i == 7,
                    xi[0] == -1,
                    xi[1] == -1,
                    xi[2] == -1,
            ;
        } else if j == 1 {
            assert(xi[0] == 1 && xi[1] == -1 && xi[2] == -1);
            assert(basis_num(ElementShape::Hex8, i, xi, 1) == 0) by (nonlinear_arith)
                requires
                    i == 7,
                    xi[0] == 1,
                    xi[1] == -1,
                    xi[2] == -1,
            ;
        } else if j == 2 {
            assert(xi[0] == 1 && xi[1] == 1 && xi[2] == -1);
            assert(basis_num(ElementShape::Hex8, i, xi, 1) == 0) by (nonlinear_arith)
                requires
                    i == 7,
                    xi[0] == 1,
                    xi[1] == 1,
                    xi[2] == -1,
            ;
        } else if j == 3 {
            assert(xi[0] == -1 && xi[1] == 1 && xi[2] == -1);
            assert(basis_num(ElementShape::Hex8, i, xi, 1) == 0) by (nonlinear_arith)
                requires
                    i == 7,
                    xi[0] == -1,
                    xi[1] == 1,
                    xi[2] == -1,
            ;
        } else if j == 4 {
            assert(xi[0] == -1 && xi[1] == -1 && xi[2] == 1);
            assert(basis_num(ElementShape::Hex8, i, xi, 1) == 0) by (nonlinear_arith)
                requires
                    i == 7,
                    xi[0] == -1,
                    xi[1] == -1,
                    xi[2] == 1,
            ;
        } else if j == 5 {
            assert(xi[0] == 1 && xi[1] == -1 && xi[2] == 1);
            assert(basis_num(ElementShape::Hex8, i, xi, 1) == 0) by (nonlinear_arith)
                requires
                    i == 7,
                    xi[0] == 1,
                    xi[1] == -1,
                    xi[2] == 1,
            ;
        } else if j == 6 {
            assert(xi[0] == 1 && xi[1] == 1 && xi[2] == 1);
            assert(basis_num(ElementShape::Hex8, i, xi, 1) == 0) by (nonlinear_arith)
                requires
                    i == 7,
                    xi[0] == 1,
                    xi[1] == 1,
                    xi[2] == 1,
            ;
        } else {
            assert(xi[0] == -1 && xi[1] == 1 && xi[2] == 1);
            assert(basis_num(ElementShape::Hex8, i, xi, 1) == 8) by (nonlinear_arith)
                requires
                    i == 7,
                    xi[0] == -1,
                    xi[1] == 1,
                    xi[2] == 1,
            ;
        }
    }
}

/// Law (Lagrange property): basis function `i` of any shape evaluates to one
/// at reference node `i` and to zero at every other reference node, exactly.
pub proof fn lemma_lagrange_property(shape: ElementShape, i: int, j: int)
    requires
        0 <= i < shape.num_nodes_spec(),
        0 <= j < shape.num_nodes_spec(),
    ensures
        basis_num(shape, i, node_point(shape, j), 1) == if i == j {
            basis_den(shape, 1)
        } else {
            0
        },
{
    match shape {
        ElementShape::Segment2d2 => lagrange_segment2d2(i, j),
        ElementShape::Tri3d2 => lagrange_tri3d2(i, j),
        ElementShape::Tri6d2 => lagrange_tri6d2(i, j),
        ElementShape::Quad4d2 => lagrange_quad4d2(i, j),
        ElementShape::Quad9d2 => lagrange_quad9d2(i, j),
        ElementShape::Tet4 => lagrange_tet4(i, j),
        ElementShape::Hex8 => lagrange_hex8(i, j),
    }
}

/// Expansion of a product of two-term sums into its four summands.
proof fn lemma_expand_pair(xm: int, xp: int, ym: int, yp: int)
    by (nonlinear_arith)
    ensures
        (xm * ym) + (xp * ym) + (xp * yp) + (xm * yp) == (xm + xp) * (ym + yp),
{
}

/// Expansion of a triple product of two-term sums into its eight summands.
proof fn lemma_expand_triple(xm: int, xp: int, ym: int, yp: int, zm: int, zp: int)
    ensures
        ((xm * ym) * zm) + ((xp * ym) * zm) + ((xp * yp) * zm) + ((xm * yp) * zm) + ((xm * ym)
            * zp) + ((xp * ym) * zp) + ((xp * yp) * zp) + ((xm * yp) * zp) == ((xm + xp) * (ym
            + yp)) * (zm + zp),
{
    lemma_expand_pair(xm, xp, ym, yp);
    let s = (xm + xp) * (ym + yp);
    assert(((xm * ym) * zm) + ((xp * ym) * zm) + ((xp * yp) * zm) + ((xm * yp) * zm) == ((xm * ym)
        + (xp * ym) + (xp * yp) + (xm * yp)) * zm) by (nonlinear_arith);
    assert(((xm * ym) * zp) + ((xp * ym) * zp) + ((xp * yp) * zp) + ((xm * yp) * zp) == ((xm * ym)
        + (xp * ym) + (xp * yp) + (xm * yp)) * zp) by (nonlinear_arith);
    assert(s * zm + s * zp == s * (zm + zp)) by (nonlinear_arith);
    assert(((xm * ym) + (xp * ym) + (xp * yp) + (xm * yp)) * zm == s * zm) by (nonlinear_arith)
        requires
            (xm * ym) + (xp * ym) + (xp * yp) + (xm * yp) == s,
    ;
    assert(((xm * ym) + (xp * ym) + (xp * yp) + (xm * yp)) * zp == s * zp) by (nonlinear_arith)
        requires
            (xm * ym) + (xp * ym) + (xp * yp) + (xm * yp) == s,
    ;
}

/// Law (partition of unity): at every reference point, the basis values of a
/// shape sum to one, exactly: their numerators sum to the shared denominator.
pub proof fn lemma_partition_of_unity(shape: ElementShape, xi: Seq<int>, d: int)
    requires
        xi.len() == shape.reference_dim_spec(),
    ensures
        sum_prefix(basis_num_row(shape, xi, d), shape.num_nodes_spec() as int) == basis_den(
            shape,
            d,
        ),
{
    let row = basis_num_row(shape, xi, d);
    match shape {
        ElementShape::Segment2d2 => {
            assert(sum_prefix(row, 0) == 0);
            assert(sum_prefix(row, 1) == sum_prefix(row, 0) + row[0]);
            assert(sum_prefix(row, 2) == sum_prefix(row, 1) + row[1]);
            assert(row[0] == basis_num(shape, 0, xi, d));
            assert(row[1] == basis_num(shape, 1, xi, d));
            assert(basis_num(shape, 0, xi, d) + basis_num(shape, 1, xi, d) == basis_den(shape, d)) by (nonlinear_arith)
                requires
                    shape == ElementShape::Segment2d2,
            ;
        },
        ElementShape::Tri3d2 => {
            assert(sum_prefix(row, 0) == 0);
            assert(sum_prefix(row, 1) == sum_prefix(row, 0) + row[0]);
            assert(sum_prefix(row, 2) == sum_prefix(row, 1) + row[1]);
            assert(sum_prefix(row, 3) == sum_prefix(row, 2) + row[2]);
            assert(row[0] == basis_num(shape, 0, xi, d));
            assert(row[1] == basis_num(shape, 1, xi, d));
            assert(row[2] == basis_num(shape, 2, xi, d));
            assert(basis_num(shape, 0, xi, d) + basis_num(shape, 1, xi, d) + basis_num(shape, 2, xi, d) == basis_den(shape, d)) by (nonlinear_arith)
                requires
                    shape == ElementShape::Tri3d2,
            ;
        },
        ElementShape::Tri6d2 => {
            assert(sum_prefix(row, 0) == 0);
            assert(sum_prefix(row, 1) == sum_prefix(row, 0) + row[0]);
            assert(sum_prefix(row, 2) == sum_prefix(row, 1) + row[1]);
            assert(sum_prefix(row, 3) == sum_prefix(row, 2) + row[2]);
            assert(sum_prefix(row, 4) == sum_prefix(row, 3) + row[3]);
            assert(sum_prefix(row, 5) == sum_prefix(row, 4) + row[4]);
            assert(sum_prefix(row, 6) == sum_prefix(row, 5) + row[5]);
            assert(row[0] == basis_num(shape, 0, xi, d));
            assert(row[1] == basis_num(shape, 1, xi, d));
            assert(row[2] == basis_num(shape, 2, xi, d));
            assert(row[3] == basis_num(shape, 3, xi, d));
            assert(row[4] == basis_num(shape, 4, xi, d));
            assert(row[5] == basis_num(shape, 5, xi, d));
            assert(basis_num(shape, 0, xi, d) + basis_num(shape, 1, xi, d) + basis_num(shape, 2, xi, d) + basis_num(shape, 3, xi, d) + basis_num(shape, 4, xi, d) + basis_num(shape, 5, xi, d) == basis_den(shape, d)) by (nonlinear_arith)
                requires
                    shape == ElementShape::Tri6d2,
            ;
        },
        ElementShape::Quad4d2 => {
            assert(sum_prefix(row, 0) == 0);
            assert(sum_prefix(row, 1) == sum_prefix(row, 0) + row[0]);
            assert(sum_prefix(row, 2) == sum_prefix(row, 1) + row[1]);
            assert(sum_prefix(row, 3) == sum_prefix(row, 2) + row[2]);
            assert(sum_prefix(row, 4) == sum_prefix(row, 3) + row[3]);
            assert(row[0] == basis_num(shape, 0, xi, d));
            assert(row[1] == basis_num(shape, 1, xi, d));
            assert(row[2] == basis_num(shape, 2, xi, d));
            assert(row[3] == basis_num(shape, 3, xi, d));
            assert(basis_num(shape, 0, xi, d) + basis_num(shape, 1, xi, d) + basis_num(shape, 2, xi, d) + basis_num(shape, 3, xi, d) == basis_den(shape, d)) by (nonlinear_arith)
                requires
                    shape == ElementShape::Quad4d2,
            ;
        },
        ElementShape::Quad9d2 => {
            let x = xi[0];
            let y = xi[1];
            assert(sum_prefix(row, 1) == sum_prefix(row, 0) + row[0]);
            assert(sum_prefix(row, 2) == sum_prefix(row, 1) + row[1]);
            assert(sum_prefix(row, 3) == sum_prefix(row, 2) + row[2]);
            assert(sum_prefix(row, 4) == sum_prefix(row, 3) + row[3]);
            assert(sum_prefix(row, 5) == sum_prefix(row, 4) + row[4]);
            assert(sum_prefix(row, 6) == sum_prefix(row, 5) + row[5]);
            assert(sum_prefix(row, 7) == sum_prefix(row, 6) + row[6]);
            assert(sum_prefix(row, 8) == sum_prefix(row, 7) + row[7]);
            assert(sum_prefix(row, 9) == sum_prefix(row, 8) + row[8]);
            assert(sum_prefix(row, 0) == 0);
            assert(row[0] == ((x * (x - d)) * (y * (y - d)))) by (nonlinear_arith)
                requires
                    shape == ElementShape::Quad9d2,
                    row == basis_num_row(shape, xi, d),
                    x == xi[0],
                    y == xi[1],
            ;
            assert(row[1] == ((x * (x + d)) * (y * (y - d)))) by (nonlinear_arith)
                requires
                    shape == ElementShape::Quad9d2,
                    row == basis_num_row(shape, xi, d),
                    x == xi[0],
                    y == xi[1],
            ;
            assert(row[2] == ((x * (x + d)) * (y * (y + d)))) by (nonlinear_arith)
                requires
                    shape == ElementShape::Quad9d2,
                    row == basis_num_row(shape, xi, d),
                    x == xi[0],
                    y == xi[1],
            ;
            assert(row[3] == ((x * (x - d)) * (y * (y + d)))) by (nonlinear_arith)
                requires
                    shape == ElementShape::Quad9d2,
                    row == basis_num_row(shape, xi, d),
                    x == xi[0],
                    y == xi[1],
            ;
            assert(row[4] == ((2 * (d * d - x * x)) * (y * (y - d)))) by (nonlinear_arith)
                requires
                    shape == ElementShape::Quad9d2,
                    row == basis_num_row(shape, xi, d),
                    x == xi[0],
                    y == xi[1],
            ;
            assert(row[5] == ((x * (x + d)) * (2 * (d * d - y * y)))) by (nonlinear_arith)
                requires
                    shape == ElementShape::Quad9d2,
                    row == basis_num_row(shape, xi, d),
                    x == xi[0],
                    y == xi[1],
            ;
            assert(row[6] == ((2 * (d * d - x * x)) * (y * (y + d)))) by (nonlinear_arith)
                requires
                    shape == ElementShape::Quad9d2,
                    row == basis_num_row(shape, xi, d),
                    x == xi[0],
                    y == xi[1],
            ;
            assert(row[7] == ((x * (x - d)) * (2 * (d * d - y * y)))) by (nonlinear_arith)
                requires
                    shape == ElementShape::Quad9d2,
                    row == basis_num_row(shape, xi, d),
                    x == xi[0],
                    y == xi[1],
            ;
            assert(row[8] == ((2 * (d * d - x * x)) * (2 * (d * d - y * y)))) by (nonlinear_arith)
                requires
                    shape == ElementShape::Quad9d2,
                    row == basis_num_row(shape, xi, d),
                    x == xi[0],
                    y == xi[1],
            ;
            let fmx = x * (x - d);
            let fzx = 2 * (d * d - x * x);
            let fpx = x * (x + d);
            let fmy = y * (y - d);
            let fzy = 2 * (d * d - y * y);
            let fpy = y * (y + d);
            assert((fmx * fmy) + (fpx * fmy) + (fpx * fpy) + (fmx * fpy) + (fzx * fmy) + (fpx
                * fzy) + (fzx * fpy) + (fmx * fzy) + (fzx * fzy) == (fmx + fzx + fpx) * (fmy + fzy
                + fpy)) by (nonlinear_arith);
            assert(fmx + fzx + fpx == 2 * (d * d)) by (nonlinear_arith)
                requires
                    fmx == x * (x - d),
                    fzx == 2 * (d * d - x * x),
                    fpx == x * (x + d),
            ;
            assert(fmy + fzy + fpy == 2 * (d * d)) by (nonlinear_arith)
                requires
                    fmy == y * (y - d),
                    fzy == 2 * (d * d - y * y),
                    fpy == y * (y + d),
            ;
            assert((fmx + fzx + fpx) * (fmy + fzy + fpy) == 4 * ((d * d) * (d * d)))
                by (nonlinear_arith)
                requires
                    fmx + fzx + fpx == 2 * (d * d),
                    fmy + fzy + fpy == 2 * (d * d),
            ;
        },
        ElementShape::Tet4 => {
            assert(sum_prefix(row, 0) == 0);
            assert(sum_prefix(row, 1) == sum_prefix(row, 0) + row[0]);
            assert(sum_prefix(row, 2) == sum_prefix(row, 1) + row[1]);
            assert(sum_prefix(row, 3) == sum_prefix(row, 2) + row[2]);
            assert(sum_prefix(row, 4) == sum_prefix(row, 3) + row[3]);
            assert(row[0] == basis_num(shape, 0, xi, d));
            assert(row[1] == basis_num(shape, 1, xi, d));
            assert(row[2] == basis_num(shape, 2, xi, d));
            assert(row[3] == basis_num(shape, 3, xi, d));
            assert(basis_num(shape, 0, xi, d) + basis_num(shape, 1, xi, d) + basis_num(shape, 2, xi, d) + basis_num(shape, 3, xi, d) == basis_den(shape, d)) by (nonlinear_arith)
                requires
                    shape == ElementShape::Tet4,
            ;
        },
        ElementShape::Hex8 => {
            let x = xi[0];
            let y = xi[1];
            let z = xi[2];
            assert(sum_prefix(row, 1) == sum_prefix(row, 0) + row[0]);
            assert(sum_prefix(row, 2) == sum_prefix(row, 1) + row[1]);
            assert(sum_prefix(row, 3) == sum_prefix(row, 2) + row[2]);
            assert(sum_prefix(row, 4) == sum_prefix(row, 3) + row[3]);
            assert(sum_prefix(row, 5) == sum_prefix(row, 4) + row[4]);
            assert(sum_prefix(row, 6) == sum_prefix(row, 5) + row[5]);
            assert(sum_prefix(row, 7) == sum_prefix(row, 6) + row[6]);
            assert(sum_prefix(row, 8) == sum_prefix(row, 7) + row[7]);
            assert(sum_prefix(row, 0) == 0);
            assert(row[0] == (((d - x) * (d - y)) * (d - z))) by (nonlinear_arith)
                requires
                    shape == ElementShape::Hex8,
                    row == basis_num_row(shape, xi, d),
                    x == xi[0],
                    y == xi[1],
                    z == xi[2],
            ;
            assert(row[1] == (((d + x) * (d - y)) * (d - z))) by (nonlinear_arith)
                requires
                    shape == ElementShape::Hex8,
                    row == basis_num_row(shape, xi, d),
                    x == xi[0],
                    y == xi[1],
                    z == xi[2],
            ;
            assert(row[2] == (((d + x) * (d + y)) * (d - z))) by (nonlinear_arith)
                requires
                    shape == ElementShape::Hex8,
                    row == basis_num_row(shape, xi, d),
                    x == xi[0],
                    y == xi[1],
                    z == xi[2],
            ;
            assert(row[3] == (((d - x) * (d + y)) * (d - z))) by (nonlinear_arith)
                requires
                    shape == ElementShape::Hex8,
                    row == basis_num_row(shape, xi, d),
                    x == xi[0],
                    y == xi[1],
                    z == xi[2],
            ;
            assert(row[4] == (((d - x) * (d - y)) * (d + z))) by (nonlinear_arith)
                requires
                    shape == ElementShape::Hex8,
                    row == basis_num_row(shape, xi, d),
                    x == xi[0],
                    y == xi[1],
                    z == xi[2],
            ;
            assert(row[5] == (((d + x) * (d - y)) * (d + z))) by (nonlinear_arith)
                requires
                    shape == ElementShape::Hex8,
                    row == basis_num_row(shape, xi, d),
                    x == xi[0],
                    y == xi[1],
                    z == xi[2],
            ;
            assert(row[6] == (((d + x) * (d + y)) * (d + z))) by (nonlinear_arith)
                requires
                    shape == ElementShape::Hex8,
                    row == basis_num_row(shape, xi, d),
                    x == xi[0],
                    y == xi[1],
                    z == xi[2],
            ;
            assert(row[7] == (((d - x) * (d + y)) * (d + z))) by (nonlinear_arith)
                requires
                    shape == ElementShape::Hex8,
                    row == basis_num_row(shape, xi, d),
                    x == xi[0],
                    y == xi[1],
                    z == xi[2],
            ;
            let xm = d - x;
            let xp = d + x;
            let ym = d - y;
            let yp = d + y;
            let zm = d - z;
            let zp = d + z;
            lemma_expand_triple(xm, xp, ym, yp, zm, zp);
            assert(((xm + xp) * (ym + yp)) * (zm + zp) == 8 * ((d * d) * d)) by (nonlinear_arith)
                requires
                    xm + xp == 2 * d,
                    ym + yp == 2 * d,
                    zm + zp == 2 * d,
            ;
        },
    }
}

/// Law (partition of unity, gradients): at every reference point, the basis
/// gradients of a shape sum to the zero vector, exactly: in each reference
/// direction the gradient numerators sum to zero.
pub proof fn lemma_gradient_partition(shape: ElementShape, k: int, xi: Seq<int>, d: int)
    requires
        xi.len() == shape.reference_dim_spec(),
        0 <= k < shape.reference_dim_spec(),
    ensures
        sum_prefix(grad_num_row(shape, k, xi, d), shape.num_nodes_spec() as int) == 0,
{
    let row = grad_num_row(shape, k, xi, d);
    match shape {
        ElementShape::Segment2d2 => {
            assert(sum_prefix(row, 0) == 0);
            assert(sum_prefix(row, 1) == sum_prefix(row, 0) + row[0]);
            assert(sum_prefix(row, 2) == sum_prefix(row, 1) + row[1]);
            assert(row[0] == grad_num(shape, 0, k, xi, d));
            assert(row[1] == grad_num(shape, 1, k, xi, d));
            assert(grad_num(shape, 0, k, xi, d) + grad_num(shape, 1, k, xi, d) == 0) by (nonlinear_arith)
                requires
                    shape == ElementShape::Segment2d2,
                    0 <= k < 1,
            ;
        },
        ElementShape::Tri3d2 => {
            assert(sum_prefix(row, 0) == 0);
            assert(sum_prefix(row, 1) == sum_prefix(row, 0) + row[0]);
            assert(sum_prefix(row, 2) == sum_prefix(row, 1) + row[1]);
            assert(sum_prefix(row, 3) == sum_prefix(row, 2) + row[2]);
            assert(row[0] == grad_num(shape, 0, k, xi, d));
            assert(row[1] == grad_num(shape, 1, k, xi, d));
            assert(row[2] == grad_num(shape, 2, k, xi, d));
            assert(grad_num(shape, 0, k, xi, d) + grad_num(shape, 1, k, xi, d) + grad_num(shape, 2, k, xi, d) == 0) by (nonlinear_arith)
                requires
                    shape == ElementShape::Tri3d2,
                    0 <= k < 2,
            ;
        },
        ElementShape::Tri6d2 => {
            assert(sum_prefix(row, 0) == 0);
            assert(sum_prefix(row, 1) == sum_prefix(row, 0) + row[0]);
            assert(sum_prefix(row, 2) == sum_prefix(row, 1) + row[1]);
            assert(sum_prefix(row, 3) == sum_prefix(row, 2) + row[2]);
            assert(sum_prefix(row, 4) == sum_prefix(row, 3) + row[3]);
            assert(sum_prefix(row, 5) == sum_prefix(row, 4) + row[4]);
            assert(sum_prefix(row, 6) == sum_prefix(row, 5) + row[5]);
            assert(row[0] == grad_num(shape, 0, k, xi, d));
            assert(row[1] == grad_num(shape, 1, k, xi, d));
            assert(row[2] == grad_num(shape, 2, k, xi, d));
            assert(row[3] == grad_num(shape, 3, k, xi, d));
            assert(row[4] == grad_num(shape, 4, k, xi, d));
            assert(row[5] == grad_num(shape, 5, k, xi, d));
            assert(grad_num(shape, 0, k, xi, d) + grad_num(shape, 1, k, xi, d) + grad_num(shape, 2, k, xi, d) + grad_num(shape, 3, k, xi, d) + grad_num(shape, 4, k, xi, d) + grad_num(shape, 5, k, xi, d) == 0) by (nonlinear_arith)
                requires
                    shape == ElementShape::Tri6d2,
                    0 <= k < 2,
            ;
        },
        ElementShape::Quad4d2 => {
            assert(sum_prefix(row, 0) == 0);
            assert(sum_prefix(row, 1) == sum_prefix(row, 0) + row[0]);
            assert(sum_prefix(row, 2) == sum_prefix(row, 1) + row[1]);
            assert(sum_prefix(row, 3) == sum_prefix(row, 2) + row[2]);
            assert(sum_prefix(row, 4) == sum_prefix(row, 3) + row[3]);
            assert(row[0] == grad_num(shape, 0, k, xi, d));
            assert(row[1] == grad_num(shape, 1, k, xi, d));
            assert(row[2] == grad_num(shape, 2, k, xi, d));
            assert(row[3] == grad_num(shape, 3, k, xi, d));
            assert(grad_num(shape, 0, k, xi, d) + grad_num(shape, 1, k, xi, d) + grad_num(shape, 2, k, xi, d) + grad_num(shape, 3, k, xi, d) == 0) by (nonlinear_arith)
                requires
                    shape == ElementShape::Quad4d2,
                    0 <= k < 2,
            ;
        },
        ElementShape::Quad9d2 => {
            let x = xi[0];
            let y = xi[1];
            assert(sum_prefix(row, 1) == sum_prefix(row, 0) + row[0]);
            assert(sum_prefix(row, 2) == sum_prefix(row, 1) + row[1]);
            assert(sum_prefix(row, 3) == sum_prefix(row, 2) + row[2]);
            assert(sum_prefix(row, 4) == sum_prefix(row, 3) + row[3]);
            assert(sum_prefix(row, 5) == sum_prefix(row, 4) + row[4]);
            assert(sum_prefix(row, 6) == sum_prefix(row, 5) + row[5]);
            assert(sum_prefix(row, 7) == sum_prefix(row, 6) + row[6]);
            assert(sum_prefix(row, 8) == sum_prefix(row, 7) + row[7]);
            assert(sum_prefix(row, 9) == sum_prefix(row, 8) + row[8]);
            assert(sum_prefix(row, 0) == 0);
            if k == 0 {
                assert(row[0] == ((2 * x - d) * (y * (y - d)))) by (nonlinear_arith)
                    requires
                        shape == ElementShape::Quad9d2,
                        row == grad_num_row(shape, k, xi, d),
                        k == 0,
                        x == xi[0],
                        y == xi[1],
                ;
                assert(row[1] == ((2 * x + d) * (y * (y - d)))) by (nonlinear_arith)
                    requires
                        shape == ElementShape::Quad9d2,
                        row == grad_num_row(shape, k, xi, d),
                        k == 0,
                        x == xi[0],
                        y == xi[1],
                ;
                assert(row[2] == ((2 * x + d) * (y * (y + d)))) by (nonlinear_arith)
                    requires
                        shape == ElementShape::Quad9d2,
                        row == grad_num_row(shape, k, xi, d),
                        k == 0,
                        x == xi[0],
                        y == xi[1],
                ;
                assert(row[3] == ((2 * x - d) * (y * (y + d)))) by (nonlinear_arith)
                    requires
                        shape == ElementShape::Quad9d2,
                        row == grad_num_row(shape, k, xi, d),
                        k == 0,
                        x == xi[0],
                        y == xi[1],
                ;
                assert(row[4] == ((-(4 * x)) * (y * (y - d)))) by (nonlinear_arith)
                    requires
                        shape == ElementShape::Quad9d2,
                        row == grad_num_row(shape, k, xi, d),
                        k == 0,
                        x == xi[0],
                        y == xi[1],
                ;
                assert(row[5] == ((2 * x + d) * (2 * (d * d - y * y)))) by (nonlinear_arith)
                    requires
                        shape == ElementShape::Quad9d2,
                        row == grad_num_row(shape, k, xi, d),
                        k == 0,
                        x == xi[0],
                        y == xi[1],
                ;
                assert(row[6] == ((-(4 * x)) * (y * (y + d)))) by (nonlinear_arith)
                    requires
                        shape == ElementShape::Quad9d2,
                        row == grad_num_row(shape, k, xi, d),
                        k == 0,
                        x == xi[0],
                        y == xi[1],
                ;
                assert(row[7] == ((2 * x - d) * (2 * (d * d - y * y)))) by (nonlinear_arith)
                    requires
                        shape == ElementShape::Quad9d2,
                        row == grad_num_row(shape, k, xi, d),
                        k == 0,
                        x == xi[0],
                        y == xi[1],
                ;
                assert(row[8] == ((-(4 * x)) * (2 * (d * d - y * y)))) by (nonlinear_arith)
                    requires
                        shape == ElementShape::Quad9d2,
                        row == grad_num_row(shape, k, xi, d),
                        k == 0,
                        x == xi[0],
                        y == xi[1],
                ;
                assert(((2 * x - d) * (y * (y - d))) + ((2 * x + d) * (y * (y - d))) + ((2 * x + d) * (y * (y + d))) + ((2 * x - d) * (y * (y + d))) + ((-(4 * x)) * (y * (y - d))) + ((2 * x + d) * (2 * (d * d - y * y))) + ((-(4 * x)) * (y * (y + d))) + ((2 * x - d) * (2 * (d * d - y * y))) + ((-(4 * x)) * (2 * (d * d - y * y))) == 0) by (nonlinear_arith);
            } else {
                assert(row[0] == ((x * (x - d)) * (2 * y - d))) by (nonlinear_arith)
                    requires
                        shape == ElementShape::Quad9d2,
                        row == grad_num_row(shape, k, xi, d),
                        k == 1,
                        x == xi[0],
                        y == xi[1],
                ;
                assert(row[1] == ((x * (x + d)) * (2 * y - d))) by (nonlinear_arith)
                    requires
                        shape == ElementShape::Quad9d2,
                        row == grad_num_row(shape, k, xi, d),
                        k == 1,
                        x == xi[0],
                        y == xi[1],
                ;
                assert(row[2] == ((x * (x + d)) * (2 * y + d))) by (nonlinear_arith)
                    requires
                        shape == ElementShape::Quad9d2,
                        row == grad_num_row(shape, k, xi, d),
                        k == 1,
                        x == xi[0],
                        y == xi[1],
                ;
                assert(row[3] == ((x * (x - d)) * (2 * y + d))) by (nonlinear_arith)
                    requires
                        shape == ElementShape::Quad9d2,
                        row == grad_num_row(shape, k, xi, d),
                        k == 1,
                        x == xi[0],
                        y == xi[1],
                ;
                assert(row[4] == ((2 * (d * d - x * x)) * (2 * y - d))) by (nonlinear_arith)
                    requires
                        shape == ElementShape::Quad9d2,
                        row == grad_num_row(shape, k, xi, d),
                        k == 1,
                        x == xi[0],
                        y == xi[1],
                ;
                assert(row[5] == ((x * (x + d)) * (-(4 * y)))) by (nonlinear_arith)
                    requires
                        shape == ElementShape::Quad9d2,
                        row == grad_num_row(shape, k, xi, d),
                        k == 1,
                        x == xi[0],
                        y == xi[1],
                ;
                assert(row[6] == ((2 * (d * d - x * x)) * (2 * y + d))) by (nonlinear_arith)
                    requires
                        shape == ElementShape::Quad9d2,
                        row == grad_num_row(shape, k, xi, d),
                        k == 1,
                        x == xi[0],
                        y == xi[1],
                ;
                assert(row[7] == ((x * (x - d)) * (-(4 * y)))) by (nonlinear_arith)
                    requires
                        shape == ElementShape::Quad9d2,
                        row == grad_num_row(shape, k, xi, d),
                        k == 1,
                        x == xi[0],
                        y == xi[1],
                ;
                assert(row[8] == ((2 * (d * d - x * x)) * (-(4 * y)))) by (nonlinear_arith)
                    requires
                        shape == ElementShape::Quad9d2,
                        row == grad_num_row(shape, k, xi, d),
                        k == 1,
                        x == xi[0],
                        y == xi[1],
                ;
                assert(((x * (x - d)) * (2 * y - d)) + ((x * (x + d)) * (2 * y - d)) + ((x * (x + d)) * (2 * y + d)) + ((x * (x - d)) * (2 * y + d)) + ((2 * (d * d - x * x)) * (2 * y - d)) + ((x * (x + d)) * (-(4 * y))) + ((2 * (d * d - x * x)) * (2 * y + d)) + ((x * (x - d)) * (-(4 * y))) + ((2 * (d * d - x * x)) * (-(4 * y))) == 0) by (nonlinear_arith);
            }
        },
        ElementShape::Tet4 => {
            assert(sum_prefix(row, 0) == 0);
            assert(sum_prefix(row, 1) == sum_prefix(row, 0) + row[0]);
            assert(sum_prefix(row, 2) == sum_prefix(row, 1) + row[1]);
            assert(sum_prefix(row, 3) == sum_prefix(row, 2) + row[2]);
            assert(sum_prefix(row, 4) == sum_prefix(row, 3) + row[3]);
            assert(row[0] == grad_num(shape, 0, k, xi, d));
            assert(row[1] == grad_num(shape, 1, k, xi, d));
            assert(row[2] == grad_num(shape, 2, k, xi, d));
            assert(row[3] == grad_num(shape, 3, k, xi, d));
            assert(grad_num(shape, 0, k, xi, d) + grad_num(shape, 1, k, xi, d) + grad_num(shape, 2, k, xi, d) + grad_num(shape, 3, k, xi, d) == 0) by (nonlinear_arith)
                requires
                    shape == ElementShape::Tet4,
                    0 <= k < 3,
            ;
        },
        ElementShape::Hex8 => {
            assert(sum_prefix(row, 0) == 0);
            assert(sum_prefix(row, 1) == sum_prefix(row, 0) + row[0]);
            assert(sum_prefix(row, 2) == sum_prefix(row, 1) + row[1]);
            assert(sum_prefix(row, 3) == sum_prefix(row, 2) + row[2]);
            assert(sum_prefix(row, 4) == sum_prefix(row, 3) + row[3]);
            assert(sum_prefix(row, 5) == sum_prefix(row, 4) + row[4]);
            assert(sum_prefix(row, 6) == sum_prefix(row, 5) + row[5]);
            assert(sum_prefix(row, 7) == sum_prefix(row, 6) + row[6]);
            assert(sum_prefix(row, 8) == sum_prefix(row, 7) + row[7]);
            assert(row[0] == grad_num(shape, 0, k, xi, d));
            assert(row[1] == grad_num(shape, 1, k, xi, d));
            assert(row[2] == grad_num(shape, 2, k, xi, d));
            assert(row[3] == grad_num(shape, 3, k, xi, d));
            assert(row[4] == grad_num(shape, 4, k, xi, d));
            assert(row[5] == grad_num(shape, 5, k, xi, d));
            assert(row[6] == grad_num(shape, 6, k, xi, d));
            assert(row[7] == grad_num(shape, 7, k, xi, d));
            assert(grad_num(shape, 0, k, xi, d) + grad_num(shape, 1, k, xi, d) + grad_num(shape, 2, k, xi, d) + grad_num(shape, 3, k, xi, d) + grad_num(shape, 4, k, xi, d) + grad_num(shape, 5, k, xi, d) + grad_num(shape, 6, k, xi, d) + grad_num(shape, 7, k, xi, d) == 0) by (nonlinear_arith)
                requires
                    shape == ElementShape::Hex8,
                    0 <= k < 3,
            ;
        },
    }
}

/// The reference point `xi / d` shifted by `sign * (hn / hd)` in reference
/// direction `k`, written over the common denominator `d * hd`.
pub open spec fn shifted_point(xi: Seq<int>, d: int, k: int, hn: int, hd: int, sign: int) -> Seq<
    int,
> {
    Seq::new(
        xi.len(),
        |j: int|
            if j == k {
                xi[j] * hd + sign * (hn * d)
            } else {
                xi[j] * hd
            },
    )
}

/// Law (Jacobian consistency, linear triangle): the central difference of
/// each (affine) basis function equals its gradient exactly, for every
/// reference point and every rational step.
pub proof fn lemma_central_difference_tri3(xi: Seq<int>, d: int, k: int, hn: int, hd: int, i: int)
    requires
        xi.len() == 2,
        0 <= i < 3,
        0 <= k < 2,
    ensures
        basis_num(ElementShape::Tri3d2, i, shifted_point(xi, d, k, hn, hd, 1), d * hd) - basis_num(
            ElementShape::Tri3d2,
            i,
            shifted_point(xi, d, k, hn, hd, -1),
            d * hd,
        ) == 2 * ((hn * d) * grad_num(ElementShape::Tri3d2, i, k, xi, d)),
{
    let pp = shifted_point(xi, d, k, hn, hd, 1);
    let mm = shifted_point(xi, d, k, hn, hd, -1);
    if i == 0 {
        if k == 0 {
            assert(basis_num(ElementShape::Tri3d2, 0, pp, d * hd) - basis_num(
                ElementShape::Tri3d2,
                0,
                mm,
                d * hd,
            ) == 2 * ((hn * d) * grad_num(ElementShape::Tri3d2, 0, 0, xi, d)))
                by (nonlinear_arith)
                requires
                    pp[0] == xi[0] * hd + (if 0 == 0int { hn * d } else { 0 }),
                    pp[1] == xi[1] * hd + (if 0 == 1int { hn * d } else { 0 }),
                    mm[0] == xi[0] * hd - (if 0 == 0int { hn * d } else { 0 }),
                    mm[1] == xi[1] * hd - (if 0 == 1int { hn * d } else { 0 }),
            ;
        } else {
            assert(basis_num(ElementShape::Tri3d2, 0, pp, d * hd) - basis_num(
                ElementShape::Tri3d2,
                0,
                mm,
                d * hd,
            ) == 2 * ((hn * d) * grad_num(ElementShape::Tri3d2, 0, 1, xi, d)))
                by (nonlinear_arith)
                requires
                    pp[0] == xi[0] * hd + (if 1 == 0int { hn * d } else { 0 }),
                    pp[1] == xi[1] * hd + (if 1 == 1int { hn * d } else { 0 }),
                    mm[0] == xi[0] * hd - (if 1 == 0int { hn * d } else { 0 }),
                    mm[1] == xi[1] * hd - (if 1 == 1int { hn * d } else { 0 }),
            ;
        }
    } else if i == 1 {
        if k == 0 {
            assert(basis_num(ElementShape::Tri3d2, 1, pp, d * hd) - basis_num(
                ElementShape::Tri3d2,
                1,
                mm,
                d * hd,
            ) == 2 * ((hn * d) * grad_num(ElementShape::Tri3d2, 1, 0, xi, d)))
                by (nonlinear_arith)
                requires
                    pp[0] == xi[0] * hd + (if 0 == 0int { hn * d } else { 0 }),
                    pp[1] == xi[1] * hd + (if 0 == 1int { hn * d } else { 0 }),
                    mm[0] == xi[0] * hd - (if 0 == 0int { hn * d } else { 0 }),
                    mm[1] == xi[1] * hd - (if 0 == 1int { hn * d } else { 0 }),
            ;
        } else {
            assert(basis_num(ElementShape::Tri3d2, 1, pp, d * hd) - basis_num(
                ElementShape::Tri3d2,
                1,
                mm,
                d * hd,
            ) == 2 * ((hn * d) * grad_num(ElementShape::Tri3d2, 1, 1, xi, d)))
                by (nonlinear_arith)
                requires
                    pp[0] == xi[0] * hd + (if 1 == 0int { hn * d } else { 0 }),
                    pp[1] == xi[1] * hd + (if 1 == 1int { hn * d } else { 0 }),
                    mm[0] == xi[0] * hd - (if 1 == 0int { hn * d } else { 0 }),
                    mm[1] == xi[1] * hd - (if 1 == 1int { hn * d } else { 0 }),
            ;
        }
    } else {
        if k == 0 {
            assert(basis_num(ElementShape::Tri3d2, 2, pp, d * hd) - basis_num(
                ElementShape::Tri3d2,
                2,
                mm,
                d * hd,
            ) == 2 * ((hn * d) * grad_num(ElementShape::Tri3d2, 2, 0, xi, d)))
                by (nonlinear_arith)
                requires
                    pp[0] == xi[0] * hd + (if 0 == 0int { hn * d } else { 0 }),
                    pp[1] == xi[1] * hd + (if 0 == 1int { hn * d } else { 0 }),
                    mm[0] == xi[0] * hd - (if 0 == 0int { hn * d } else { 0 }),
                    mm[1] == xi[1] * hd - (if 0 == 1int { hn * d } else { 0 }),
            ;
        } else {
            assert(basis_num(ElementShape::Tri3d2, 2, pp, d * hd) - basis_num(
                ElementShape::Tri3d2,
                2,
                mm,
                d * hd,
            ) == 2 * ((hn * d) * grad_num(ElementShape::Tri3d2, 2, 1, xi, d)))
                by (nonlinear_arith)
                requires
                    pp[0] == xi[0] * hd + (if 1 == 0int { hn * d } else { 0 }),
                    pp[1] == xi[1] * hd + (if 1 == 1int { hn * d } else { 0 }),
                    mm[0] == xi[0] * hd - (if 1 == 0int { hn * d } else { 0 }),
                    mm[1] == xi[1] * hd - (if 1 == 1int { hn * d } else { 0 }),
            ;
        }
    }
}

/// Law (Jacobian consistency, bilinear quadrilateral): the central
/// finite-difference quotient of each basis function reproduces the basis
/// gradient exactly, for every reference point and every rational step. The
/// basis is at most linear in each variable, so the central difference has no
/// truncation error at all; by linearity of the geometric map in the basis,
/// the same holds of the map's Jacobian.
pub proof fn lemma_central_difference_quad4(
    xi: Seq<int>,
    d: int,
    k: int,
    hn: int,
    hd: int,
    i: int,
)
    requires
        xi.len() == 2,
        0 <= i < 4,
        0 <= k < 2,
    ensures
        basis_num(ElementShape::Quad4d2, i, shifted_point(xi, d, k, hn, hd, 1), d * hd)
            - basis_num(ElementShape::Quad4d2, i, shifted_point(xi, d, k, hn, hd, -1), d * hd) == 2
            * ((hn * (d * hd)) * grad_num(ElementShape::Quad4d2, i, k, xi, d)),
{
    let pp = shifted_point(xi, d, k, hn, hd, 1);
    let mm = shifted_point(xi, d, k, hn, hd, -1);
    let dh = d * hd;
    if i == 0 {
        if k == 0 {
            assert(basis_num(ElementShape::Quad4d2, 0, pp, d * hd) == (dh - pp[0]) * (dh - pp[1])
                && basis_num(ElementShape::Quad4d2, 0, mm, d * hd) == (dh - mm[0]) * (dh - mm[1]))
                by (nonlinear_arith)
                requires
                    pp.len() == 2,
                    mm.len() == 2,
                    dh == d * hd,
            ;
            assert((dh - pp[0]) * (dh - pp[1]) - (dh - mm[0]) * (dh - mm[1]) == ((dh - pp[0]) - (dh - mm[0])) * (dh - pp[1])) by (nonlinear_arith)
                requires
                    pp[1] == mm[1],
            ;
            assert((-(2 * (hn * d))) * (dh - pp[1]) == 2 * ((hn * (d * hd)) * (-(d - xi[1])))) by (nonlinear_arith)
                requires
                    pp[1] == xi[1] * hd,
                    dh == d * hd,
            ;
        } else {
            assert(basis_num(ElementShape::Quad4d2, 0, pp, d * hd) == (dh - pp[0]) * (dh - pp[1])
                && basis_num(ElementShape::Quad4d2, 0, mm, d * hd) == (dh - mm[0]) * (dh - mm[1]))
                by (nonlinear_arith)
                requires
                    pp.len() == 2,
                    mm.len() == 2,
                    dh == d * hd,
            ;
            assert((dh - pp[0]) * (dh - pp[1]) - (dh - mm[0]) * (dh - mm[1]) == (dh - pp[0]) * ((dh - pp[1]) - (dh - mm[1]))) by (nonlinear_arith)
                requires
                    pp[0] == mm[0],
            ;
            assert((dh - pp[0]) * (-(2 * (hn * d))) == 2 * ((hn * (d * hd)) * (-(d - xi[0])))) by (nonlinear_arith)
                requires
                    pp[0] == xi[0] * hd,
                    dh == d * hd,
            ;
        }
    } else if i == 1 {
        if k == 0 {
            assert(basis_num(ElementShape::Quad4d2, 1, pp, d * hd) == (dh + pp[0]) * (dh - pp[1])
                && basis_num(ElementShape::Quad4d2, 1, mm, d * hd) == (dh + mm[0]) * (dh - mm[1]))
                by (nonlinear_arith)
                requires
                    pp.len() == 2,
                    mm.len() == 2,
                    dh == d * hd,
            ;
            assert((dh + pp[0]) * (dh - pp[1]) - (dh + mm[0]) * (dh - mm[1]) == ((dh + pp[0]) - (dh + mm[0])) * (dh - pp[1])) by (nonlinear_arith)
                requires
                    pp[1] == mm[1],
            ;
            assert((2 * (hn * d)) * (dh - pp[1]) == 2 * ((hn * (d * hd)) * (d - xi[1]))) by (nonlinear_arith)
                requires
                    pp[1] == xi[1] * hd,
                    dh == d * hd,
            ;
        } else {
            assert(basis_num(ElementShape::Quad4d2, 1, pp, d * hd) == (dh + pp[0]) * (dh - pp[1])
                && basis_num(ElementShape::Quad4d2, 1, mm, d * hd) == (dh + mm[0]) * (dh - mm[1]))
                by (nonlinear_arith)
                requires
                    pp.len() == 2,
                    mm.len() == 2,
                    dh == d * hd,
            ;
            assert((dh + pp[0]) * (dh - pp[1]) - (dh + mm[0]) * (dh - mm[1]) == (dh + pp[0]) * ((dh - pp[1]) - (dh - mm[1]))) by (nonlinear_arith)
                requires
                    pp[0] == mm[0],
            ;
            assert((dh + pp[0]) * (-(2 * (hn * d))) == 2 * ((hn * (d * hd)) * (-(d + xi[0])))) by (nonlinear_arith)
                requires
                    pp[0] == xi[0] * hd,
                    dh == d * hd,
            ;
        }
    } else if i == 2 {
        if k == 0 {
            assert(basis_num(ElementShape::Quad4d2, 2, pp, d * hd) == (dh + pp[0]) * (dh + pp[1])
                && basis_num(ElementShape::Quad4d2, 2, mm, d * hd) == (dh + mm[0]) * (dh + mm[1]))
                by (nonlinear_arith)
                requires
                    pp.len() == 2,
                    mm.len() == 2,
                    dh == d * hd,
            ;
            assert((dh + pp[0]) * (dh + pp[1]) - (dh + mm[0]) * (dh + mm[1]) == ((dh + pp[0]) - (dh + mm[0])) * (dh + pp[1])) by (nonlinear_arith)
                requires
                    pp[1] == mm[1],
            ;
            assert((2 * (hn * d)) * (dh + pp[1]) == 2 * ((hn * (d * hd)) * (d + xi[1]))) by (nonlinear_arith)
                requires
                    pp[1] == xi[1] * hd,
                    dh == d * hd,
            ;
        } else {
            assert(basis_num(ElementShape::Quad4d2, 2, pp, d * hd) == (dh + pp[0]) * (dh + pp[1])
                && basis_num(ElementShape::Quad4d2, 2, mm, d * hd) == (dh + mm[0]) * (dh + mm[1]))
                by (nonlinear_arith)
                requires
                    pp.len() == 2,
                    mm.len() == 2,
                    dh == d * hd,
            ;
            assert((dh + pp[0]) * (dh + pp[1]) - (dh + mm[0]) * (dh + mm[1]) == (dh + pp[0]) * ((dh + pp[1]) - (dh + mm[1]))) by (nonlinear_arith)
                requires
                    pp[0] == mm[0],
            ;
            assert((dh + pp[0]) * (2 * (hn * d)) == 2 * ((hn * (d * hd)) * (d + xi[0]))) by (nonlinear_arith)
                requires
                    pp[0] == xi[0] * hd,
                    dh == d * hd,
            ;
        }
    } else {
        if k == 0 {
            assert(basis_num(ElementShape::Quad4d2, 3, pp, d * hd) == (dh - pp[0]) * (dh + pp[1])
                && basis_num(ElementShape::Quad4d2, 3, mm, d * hd) == (dh - mm[0]) * (dh + mm[1]))
                by (nonlinear_arith)
                requires
                    pp.len() == 2,
                    mm.len() == 2,
                    dh == d * hd,
            ;
            assert((dh - pp[0]) * (dh + pp[1]) - (dh - mm[0]) * (dh + mm[1]) == ((dh - pp[0]) - (dh - mm[0])) * (dh + pp[1])) by (nonlinear_arith)
                requires
                    pp[1] == mm[1],
            ;
            assert((-(2 * (hn * d))) * (dh + pp[1]) == 2 * ((hn * (d * hd)) * (-(d + xi[1])))) by (nonlinear_arith)
                requires
                    pp[1] == xi[1] * hd,
                    dh == d * hd,
            ;
        } else {
            assert(basis_num(ElementShape::Quad4d2, 3, pp, d * hd) == (dh - pp[0]) * (dh + pp[1])
                && basis_num(ElementShape::Quad4d2, 3, mm, d * hd) == (dh - mm[0]) * (dh + mm[1]))
                by (nonlinear_arith)
                requires
                    pp.len() == 2,
                    mm.len() == 2,
                    dh == d * hd,
            ;
            assert((dh - pp[0]) * (dh + pp[1]) - (dh - mm[0]) * (dh + mm[1]) == (dh - pp[0]) * ((dh + pp[1]) - (dh + mm[1]))) by (nonlinear_arith)
                requires
                    pp[0] == mm[0],
            ;
            assert((dh - pp[0]) * (2 * (hn * d)) == 2 * ((hn * (d * hd)) * (d - xi[0]))) by (nonlinear_arith)
                requires
                    pp[0] == xi[0] * hd,
                    dh == d * hd,
            ;
        }
    }
}

/// Law (Jacobian consistency, segments): the central difference of each
/// (affine) basis function equals its gradient exactly, for every reference
/// point and every rational step.
pub proof fn lemma_central_difference_segment(xi: Seq<int>, d: int, hn: int, hd: int, i: int)
    requires
        xi.len() == 1,
        0 <= i < 2,
    ensures
        basis_num(ElementShape::Segment2d2, i, shifted_point(xi, d, 0, hn, hd, 1), d * hd)
            - basis_num(ElementShape::Segment2d2, i, shifted_point(xi, d, 0, hn, hd, -1), d * hd)
            == 2 * ((hn * d) * grad_num(ElementShape::Segment2d2, i, 0, xi, d)),
{
    let pp = shifted_point(xi, d, 0, hn, hd, 1);
    let mm = shifted_point(xi, d, 0, hn, hd, -1);
    if i == 0 {
            assert(basis_num(ElementShape::Segment2d2, 0, pp, d * hd) - basis_num(
                ElementShape::Segment2d2,
                0,
                mm,
                d * hd,
            ) == 2 * ((hn * d) * grad_num(ElementShape::Segment2d2, 0, 0, xi, d)))
                by (nonlinear_arith)
                requires
                    pp[0] == xi[0] * hd + (if 0 == 0 { hn * d } else { 0 }),
                    mm[0] == xi[0] * hd - (if 0 == 0 { hn * d } else { 0 }),
            ;
    } else {
            assert(basis_num(ElementShape::Segment2d2, 1, pp, d * hd) - basis_num(
                ElementShape::Segment2d2,
                1,
                mm,
                d * hd,
            ) == 2 * ((hn * d) * grad_num(ElementShape::Segment2d2, 1, 0, xi, d)))
                by (nonlinear_arith)
                requires
                    pp[0] == xi[0] * hd + (if 0 == 0 { hn * d } else { 0 }),
                    mm[0] == xi[0] * hd - (if 0 == 0 { hn * d } else { 0 }),
            ;
    }
}

/// Law (Jacobian consistency, linear tetrahedra): the central difference of
/// each (affine) basis function equals its gradient exactly, for every
/// reference point and every rational step.
pub proof fn lemma_central_difference_tet4(xi: Seq<int>, d: int, k: int, hn: int, hd: int, i: int)
    requires
        xi.len() == 3,
        0 <= i < 4,
        0 <= k < 3,
    ensures
        basis_num(ElementShape::Tet4, i, shifted_point(xi, d, k, hn, hd, 1), d * hd) - basis_num(
            ElementShape::Tet4,
            i,
            shifted_point(xi, d, k, hn, hd, -1),
            d * hd,
        ) == 2 * ((hn * d) * grad_num(ElementShape::Tet4, i, k, xi, d)),
{
    let pp = shifted_point(xi, d, k, hn, hd, 1);
    let mm = shifted_point(xi, d, k, hn, hd, -1);
    if i == 0 {
        if k == 0 {
            assert(basis_num(ElementShape::Tet4, 0, pp, d * hd) - basis_num(
                ElementShape::Tet4,
                0,
                mm,
                d * hd,
            ) == 2 * ((hn * d) * grad_num(ElementShape::Tet4, 0, 0, xi, d)))
                by (nonlinear_arith)
                requires
                    pp[0] == xi[0] * hd + (if 0 == 0 { hn * d } else { 0 }),
                    pp[1] == xi[1] * hd + (if 1 == 0 { hn * d } else { 0 }),
                    pp[2] == xi[2] * hd + (if 2 == 0 { hn * d } else { 0 }),
                    mm[0] == xi[0] * hd - (if 0 == 0 { hn * d } else { 0 }),
                    mm[1] == xi[1] * hd - (if 1 == 0 { hn * d } else { 0 }),
                    mm[2] == xi[2] * hd - (if 2 == 0 { hn * d } else { 0 }),
            ;
        } else if k == 1 {
            assert(basis_num(ElementShape::Tet4, 0, pp, d * hd) - basis_num(
                ElementShape::Tet4,
                0,
                mm,
                d * hd,
            ) == 2 * ((hn * d) * grad_num(ElementShape::Tet4, 0, 1, xi, d)))
                by (nonlinear_arith)
                requires
                    pp[0] == xi[0] * hd + (if 0 == 1 { hn * d } else { 0 }),
                    pp[1] == xi[1] * hd + (if 1 == 1 { hn * d } else { 0 }),
                    pp[2] == xi[2] * hd + (if 2 == 1 { hn * d } else { 0 }),
                    mm[0] == xi[0] * hd - (if 0 == 1 { hn * d } else { 0 }),
                    mm[1] == xi[1] * hd - (if 1 == 1 { hn * d } else { 0 }),
                    mm[2] == xi[2] * hd - (if 2 == 1 { hn * d } else { 0 }),
            ;
        } else {
            assert(basis_num(ElementShape::Tet4, 0, pp, d * hd) - basis_num(
                ElementShape::Tet4,
                0,
                mm,
                d * hd,
            ) == 2 * ((hn * d) * grad_num(ElementShape::Tet4, 0, 2, xi, d)))
                by (nonlinear_arith)
                requires
                    pp[0] == xi[0] * hd + (if 0 == 2 { hn * d } else { 0 }),
                    pp[1] == xi[1] * hd + (if 1 == 2 { hn * d } else { 0 }),
                    pp[2] == xi[2] * hd + (if 2 == 2 { hn * d } else { 0 }),
                    mm[0] == xi[0] * hd - (if 0 == 2 { hn * d } else { 0 }),
                    mm[1] == xi[1] * hd - (if 1 == 2 { hn * d } else { 0 }),
                    mm[2] == xi[2] * hd - (if 2 == 2 { hn * d } else { 0 }),
            ;
        }
    } else if i == 1 {
        if k == 0 {
            assert(basis_num(ElementShape::Tet4, 1, pp, d * hd) - basis_num(
                ElementShape::Tet4,
                1,
                mm,
                d * hd,
            ) == 2 * ((hn * d) * grad_num(ElementShape::Tet4, 1, 0, xi, d)))
                by (nonlinear_arith)
                requires
                    pp[0] == xi[0] * hd + (if 0 == 0 { hn * d } else { 0 }),
                    pp[1] == xi[1] * hd + (if 1 == 0 { hn * d } else { 0 }),
                    pp[2] == xi[2] * hd + (if 2 == 0 { hn * d } else { 0 }),
                    mm[0] == xi[0] * hd - (if 0 == 0 { hn * d } else { 0 }),
                    mm[1] == xi[1] * hd - (if 1 == 0 { hn * d } else { 0 }),
                    mm[2] == xi[2] * hd - (if 2 == 0 { hn * d } else { 0 }),
            ;
        } else if k == 1 {
            assert(basis_num(ElementShape::Tet4, 1, pp, d * hd) - basis_num(
                ElementShape::Tet4,
                1,
                mm,
                d * hd,
            ) == 2 * ((hn * d) * grad_num(ElementShape::Tet4, 1, 1, xi, d)))
                by (nonlinear_arith)
                requires
                    pp[0] == xi[0] * hd + (if 0 == 1 { hn * d } else { 0 }),
                    pp[1] == xi[1] * hd + (if 1 == 1 { hn * d } else { 0 }),
                    pp[2] == xi[2] * hd + (if 2 == 1 { hn * d } else { 0 }),
                    mm[0] == xi[0] * hd - (if 0 == 1 { hn * d } else { 0 }),
                    mm[1] == xi[1] * hd - (if 1 == 1 { hn * d } else { 0 }),
                    mm[2] == xi[2] * hd - (if 2 == 1 { hn * d } else { 0 }),
            ;
        } else {
            assert(basis_num(ElementShape::Tet4, 1, pp, d * hd) - basis_num(
                ElementShape::Tet4,
                1,
                mm,
                d * hd,
            ) == 2 * ((hn * d) * grad_num(ElementShape::Tet4, 1, 2, xi, d)))
                by (nonlinear_arith)
                requires
                    pp[0] == xi[0] * hd + (if 0 == 2 { hn * d } else { 0 }),
                    pp[1] == xi[1] * hd + (if 1 == 2 { hn * d } else { 0 }),
                    pp[2] == xi[2] * hd + (if 2 == 2 { hn * d } else { 0 }),
                    mm[0] == xi[0] * hd - (if 0 == 2 { hn * d } else { 0 }),
                    mm[1] == xi[1] * hd - (if 1 == 2 { hn * d } else { 0 }),
                    mm[2] == xi[2] * hd - (if 2 == 2 { hn * d } else { 0 }),
            ;
        }
    } else if i == 2 {
        if k == 0 {
            assert(basis_num(ElementShape::Tet4, 2, pp, d * hd) - basis_num(
                ElementShape::Tet4,
                2,
                mm,
                d * hd,
            ) == 2 * ((hn * d) * grad_num(ElementShape::Tet4, 2, 0, xi, d)))
                by (nonlinear_arith)
                requires
                    pp[0] == xi[0] * hd + (if 0 == 0 { hn * d } else { 0 }),
                    pp[1] == xi[1] * hd + (if 1 == 0 { hn * d } else { 0 }),
                    pp[2] == xi[2] * hd + (if 2 == 0 { hn * d } else { 0 }),
                    mm[0] == xi[0] * hd - (if 0 == 0 { hn * d } else { 0 }),
                    mm[1] == xi[1] * hd - (if 1 == 0 { hn * d } else { 0 }),
                    mm[2] == xi[2] * hd - (if 2 == 0 { hn * d } else { 0 }),
            ;
        } else if k == 1 {
            assert(basis_num(ElementShape::Tet4, 2, pp, d * hd) - basis_num(
                ElementShape::Tet4,
                2,
                mm,
                d * hd,
            ) == 2 * ((hn * d) * grad_num(ElementShape::Tet4, 2, 1, xi, d)))
                by (nonlinear_arith)
                requires
                    pp[0] == xi[0] * hd + (if 0 == 1 { hn * d } else { 0 }),
                    pp[1] == xi[1] * hd + (if 1 == 1 { hn * d } else { 0 }),
                    pp[2] == xi[2] * hd + (if 2 == 1 { hn * d } else { 0 }),
                    mm[0] == xi[0] * hd - (if 0 == 1 { hn * d } else { 0 }),
                    mm[1] == xi[1] * hd - (if 1 == 1 { hn * d } else { 0 }),
                    mm[2] == xi[2] * hd - (if 2 == 1 { hn * d } else { 0 }),
            ;
        } else {
            assert(basis_num(ElementShape::Tet4, 2, pp, d * hd) - basis_num(
                ElementShape::Tet4,
                2,
                mm,
                d * hd,
            ) == 2 * ((hn * d) * grad_num(ElementShape::Tet4, 2, 2, xi, d)))
                by (nonlinear_arith)
                requires
                    pp[0] == xi[0] * hd + (if 0 == 2 { hn * d } else { 0 }),
                    pp[1] == xi[1] * hd + (if 1 == 2 { hn * d } else { 0 }),
                    pp[2] == xi[2] * hd + (if 2 == 2 { hn * d } else { 0 }),
                    mm[0] == xi[0] * hd - (if 0 == 2 { hn * d } else { 0 }),
                    mm[1] == xi[1] * hd - (if 1 == 2 { hn * d } else { 0 }),
                    mm[2] == xi[2] * hd - (if 2 == 2 { hn * d } else { 0 }),
            ;
        }
    } else {
        if k == 0 {
            assert(basis_num(ElementShape::Tet4, 3, pp, d * hd) - basis_num(
                ElementShape::Tet4,
                3,
                mm,
                d * hd,
            ) == 2 * ((hn * d) * grad_num(ElementShape::Tet4, 3, 0, xi, d)))
                by (nonlinear_arith)
                requires
                    pp[0] == xi[0] * hd + (if 0 == 0 { hn * d } else { 0 }),
                    pp[1] == xi[1] * hd + (if 1 == 0 { hn * d } else { 0 }),
                    pp[2] == xi[2] * hd + (if 2 == 0 { hn * d } else { 0 }),
                    mm[0] == xi[0] * hd - (if 0 == 0 { hn * d } else { 0 }),
                    mm[1] == xi[1] * hd - (if 1 == 0 { hn * d } else { 0 }),
                    mm[2] == xi[2] * hd - (if 2 == 0 { hn * d } else { 0 }),
            ;
        } else if k == 1 {
            assert(basis_num(ElementShape::Tet4, 3, pp, d * hd) - basis_num(
                ElementShape::Tet4,
                3,
                mm,
                d * hd,
            ) == 2 * ((hn * d) * grad_num(ElementShape::Tet4, 3, 1, xi, d)))
                by (nonlinear_arith)
                requires
                    pp[0] == xi[0] * hd + (if 0 == 1 { hn * d } else { 0 }),
                    pp[1] == xi[1] * hd + (if 1 == 1 { hn * d } else { 0 }),
                    pp[2] == xi[2] * hd + (if 2 == 1 { hn * d } else { 0 }),
                    mm[0] == xi[0] * hd - (if 0 == 1 { hn * d } else { 0 }),
                    mm[1] == xi[1] * hd - (if 1 == 1 { hn * d } else { 0 }),
                    mm[2] == xi[2] * hd - (if 2 == 1 { hn * d } else { 0 }),
            ;
        } else {
            assert(basis_num(ElementShape::Tet4, 3, pp, d * hd) - basis_num(
                ElementShape::Tet4,
                3,
                mm,
                d * hd,
            ) == 2 * ((hn * d) * grad_num(ElementShape::Tet4, 3, 2, xi, d)))
                by (nonlinear_arith)
                requires
                    pp[0] == xi[0] * hd + (if 0 == 2 { hn * d } else { 0 }),
                    pp[1] == xi[1] * hd + (if 1 == 2 { hn * d } else { 0 }),
                    pp[2] == xi[2] * hd + (if 2 == 2 { hn * d } else { 0 }),
                    mm[0] == xi[0] * hd - (if 0 == 2 { hn * d } else { 0 }),
                    mm[1] == xi[1] * hd - (if 1 == 2 { hn * d } else { 0 }),
                    mm[2] == xi[2] * hd - (if 2 == 2 { hn * d } else { 0 }),
            ;
        }
    }
}

} // verus!
