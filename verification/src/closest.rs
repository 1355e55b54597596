//! Closest-point projection of a physical point onto an element.
//!
//! The projector minimizes the squared physical distance over the reference
//! domain. For segment elements the minimizer of the clamped quadratic is
//! computed and proved optimal against every point of the domain. For
//! triangle elements the unconstrained solution is found exactly by Cramer's
//! rule; points whose projection falls outside the domain are clamped to the
//! boundary feature selected by sign tests, and collapsed (degenerate)
//! elements fall back to the closest point on the degenerate subspace instead
//! of failing.

use vstd::prelude::*;
use crate::rational::{iabs, RVec};
use crate::element::{eval_point_ok, mul_bound, mul_pos, ElementShape};
use crate::geometry::{map_den, map_num, Element};
use crate::element::{basis_den, basis_num};
use crate::rational::dot_prefix;

verus! {

/// Bound on the vertex and query numerators and denominators accepted by the
/// projectors (a machine limit: the sign tests are degree-four products).
pub const CLOSEST_INPUT_LIMIT: i128 = 4096;

/// The outcome of a closest-point query: either the point lies inside the
/// element (the unconstrained optimum is in the reference domain), or the
/// returned reference coordinate is the projection onto the domain boundary
/// or onto a degenerate element's subspace.
pub enum ClosestPoint {
    InElement(RVec),
    ClosestPoint(RVec),
}

impl ClosestPoint {
    /// The reference coordinates carried by either outcome.
    pub fn point(&self) -> (r: &RVec)
        ensures
            r == self.point_spec(),
    {
        match self {
            ClosestPoint::InElement(p) => p,
            ClosestPoint::ClosestPoint(p) => p,
        }
    }

    pub open spec fn point_spec(&self) -> RVec {
        match self {
            ClosestPoint::InElement(p) => *p,
            ClosestPoint::ClosestPoint(p) => *p,
        }
    }

    pub open spec fn is_in_element(&self) -> bool {
        self is InElement
    }
}

/// Numerator of coordinate `k` of the difference `b - a` of segment
/// endpoints (over `el.vden`).
pub open spec fn seg_u_num(el: Element, k: int) -> int {
    el.vertex_num(k, 1) - el.vertex_num(k, 0)
}

/// Numerator of coordinate `k` of `x - a` (over `x.den * el.vden`).
pub open spec fn seg_e_num(el: Element, x: RVec, k: int) -> int {
    x.entry(k) * el.vden - el.vertex_num(k, 0) * x.den
}

/// Squared length numerator of the segment direction (over `el.vden^2`).
pub open spec fn seg_len2_num(el: Element) -> int {
    seg_u_num(el, 0) * seg_u_num(el, 0) + seg_u_num(el, 1) * seg_u_num(el, 1)
}

/// Dot product numerator of `x - a` with the segment direction.
pub open spec fn seg_dot_num(el: Element, x: RVec) -> int {
    seg_e_num(el, x, 0) * seg_u_num(el, 0) + seg_e_num(el, x, 1) * seg_u_num(el, 1)
}

/// Numerator of coordinate `k` of `map(t) - x` for the reference coordinate
/// `tn / td` of a segment element, over the denominator `2 td el.vden x.den`.
pub open spec fn seg_diff_num(el: Element, x: RVec, tn: int, td: int, k: int) -> int {
    ((td - tn) * el.vertex_num(k, 0) + (td + tn) * el.vertex_num(k, 1)) * x.den - x.entry(k) * (2
        * (td * el.vden))
}

/// Squared distance numerator between the segment point at `tn / td` and `x`,
/// over the denominator `(2 td el.vden x.den)^2`.
pub open spec fn seg_dist2_num(el: Element, x: RVec, tn: int, td: int) -> int {
    seg_diff_num(el, x, tn, td, 0) * seg_diff_num(el, x, tn, td, 0) + seg_diff_num(
        el,
        x,
        tn,
        td,
        1,
    ) * seg_diff_num(el, x, tn, td, 1)
}

/// The inputs accepted by the projectors: a well-formed two-dimensional
/// element with small coordinates, and a small query point of length 2.
pub open spec fn closest_point_input_ok(el: Element, x: RVec) -> bool {
    &&& el.wf()
    &&& x.wf()
    &&& el.shape.geometry_dim_spec() == 2
    &&& x.len() == 2
    &&& el.vden <= CLOSEST_INPUT_LIMIT
    &&& x.den <= CLOSEST_INPUT_LIMIT
    &&& x.bounded(CLOSEST_INPUT_LIMIT as int)
    &&& forall|k: int, i: int|
        0 <= k < el.coords@.len() && 0 <= i < el.coords@[k]@.len() ==> iabs(
            #[trigger] el.coords@[k]@[i] as int,
        ) <= CLOSEST_INPUT_LIMIT
}

/// Closest-point projection onto a two-node segment element.
///
/// The squared distance from `x` to the segment point at parameter
/// `s = (t + 1) / 2` is a quadratic in `s` with nonnegative leading
/// coefficient `seg_len2_num`; its unconstrained minimizer is
/// `seg_dot_num / (x.den * seg_len2_num)`, and the projection clamps it to
/// the domain. The result is `InElement` exactly when no clamping happened
/// (and the segment is not collapsed). The returned coordinate always lies in
/// the domain `[-1, 1]`; in the `InElement` case it is exactly the
/// unconstrained minimizer, and for a collapsed segment (both endpoints
/// equal) every reference coordinate maps to the same physical point, so the
/// midpoint is returned as the boundary projection.
pub fn closest_point_segment(el: &Element, x: &RVec) -> (r: ClosestPoint)
    requires
        closest_point_input_ok(*el, *x),
        el.shape == ElementShape::Segment2d2,
    ensures
        r.point_spec().wf(),
        r.point_spec().len() == 1,
        -r.point_spec().den <= r.point_spec().entry(0) <= r.point_spec().den,
        eval_point_ok(el.shape, r.point_spec()),
        r.is_in_element() <==> (seg_len2_num(*el) > 0 && 0 <= seg_dot_num(*el, *x) <= x.den
            * seg_len2_num(*el)),
        r.is_in_element() ==> r.point_spec().entry(0) == 2 * seg_dot_num(*el, *x) - x.den
            * seg_len2_num(*el) && r.point_spec().den == x.den * seg_len2_num(*el),
        (seg_len2_num(*el) > 0 && seg_dot_num(*el, *x) < 0) ==> r.point_spec().entry(0) == -1
            && r.point_spec().den == 1,
        (seg_len2_num(*el) > 0 && seg_dot_num(*el, *x) > x.den * seg_len2_num(*el))
            ==> r.point_spec().entry(0) == 1 && r.point_spec().den == 1,
        seg_len2_num(*el) == 0 ==> seg_u_num(*el, 0) == 0 && seg_u_num(*el, 1) == 0
            && r.point_spec().entry(0) == 0 && r.point_spec().den == 1,
{
    let ghost lim = CLOSEST_INPUT_LIMIT as int;
    let ax = el.coords[0][0];
    let ay = el.coords[1][0];
    let bx = el.coords[0][1];
    let by = el.coords[1][1];
    let ux = bx - ax;
    let uy = by - ay;
    proof {
        assert(iabs(el.coords@[0]@[0] as int) <= lim);
        assert(iabs(el.coords@[0]@[1] as int) <= lim);
        assert(iabs(el.coords@[1]@[0] as int) <= lim);
        assert(iabs(el.coords@[1]@[1] as int) <= lim);
        assert(iabs(x.nums@[0] as int) <= lim);
        assert(iabs(x.nums@[1] as int) <= lim);
        mul_bound(ux as int, ux as int, 2 * lim, 2 * lim);
        mul_bound(uy as int, uy as int, 2 * lim, 2 * lim);
        assert(ux as int * ux as int >= 0) by (nonlinear_arith);
        assert(uy as int * uy as int >= 0) by (nonlinear_arith);
        mul_bound(x.nums@[0] as int, el.vden as int, lim, lim);
        mul_bound(x.nums@[1] as int, el.vden as int, lim, lim);
        mul_bound(ax as int, x.den as int, lim, lim);
        mul_bound(ay as int, x.den as int, lim, lim);
    }
    let len2 = ux * ux + uy * uy;
    let ex = x.nums[0] * el.vden - ax * x.den;
    let ey = x.nums[1] * el.vden - ay * x.den;
    proof {
        mul_bound(ex as int, ux as int, 2 * (lim * lim), 2 * lim);
        mul_bound(ey as int, uy as int, 2 * (lim * lim), 2 * lim);
        mul_bound(x.den as int, len2 as int, lim, 8 * (lim * lim));
    }
    let dotn = ex * ux + ey * uy;
    if len2 == 0 {
        // Collapsed segment: both endpoints coincide, so every reference
        // coordinate maps to the same physical point; report the midpoint.
        proof {
            assert(seg_u_num(*el, 0) == 0 && seg_u_num(*el, 1) == 0) by (nonlinear_arith)
                requires
                    seg_u_num(*el, 0) * seg_u_num(*el, 0) + seg_u_num(*el, 1) * seg_u_num(*el, 1)
                        == 0,
            ;
        }
        let mut nums: Vec<i128> = Vec::new();
        nums.push(0);
        ClosestPoint::ClosestPoint(RVec { nums, den: 1 })
    } else {
        let sd = x.den * len2;
        proof {
            mul_pos(x.den as int, len2 as int);
        }
        if 0 <= dotn && dotn <= sd {
            let mut nums: Vec<i128> = Vec::new();
            nums.push(2 * dotn - sd);
            ClosestPoint::InElement(RVec { nums, den: sd })
        } else if dotn < 0 {
            let mut nums: Vec<i128> = Vec::new();
            nums.push(-1);
            ClosestPoint::ClosestPoint(RVec { nums, den: 1 })
        } else {
            let mut nums: Vec<i128> = Vec::new();
            nums.push(1);
            ClosestPoint::ClosestPoint(RVec { nums, den: 1 })
        }
    }
}

/// Distributivity of the segment difference numerator over the direction and
/// offset vectors.
proof fn lemma_seg_diff_rewrite(tn: int, td: int, a: int, b: int, xv: int, vd: int, xd: int)
    ensures
        ((td - tn) * a + (td + tn) * b) * xd - xv * (2 * (td * vd)) == (td + tn) * ((b - a) * xd)
            - (2 * td) * (xv * vd - a * xd),
{
    assert(((td - tn) * a + (td + tn) * b) * xd == (td - tn) * (a * xd) + (td + tn) * (b * xd))
        by (nonlinear_arith);
    assert((td + tn) * ((b - a) * xd) == (td + tn) * (b * xd) - (td + tn) * (a * xd))
        by (nonlinear_arith);
    assert((2 * td) * (xv * vd - a * xd) == xv * (2 * (td * vd)) - (2 * td) * (a * xd))
        by (nonlinear_arith);
    assert((td - tn) * (a * xd) + (td + tn) * (a * xd) == (2 * td) * (a * xd))
        by (nonlinear_arith);
}

/// Law (round trip, segments): if the query point is the image of a reference
/// coordinate in the domain of a nondegenerate segment, the projector's
/// unconstrained minimizer lies in the domain - so the `InElement` branch
/// fires - and the coordinate it is pinned to represents the same fraction as
/// the preimage, so its image is exactly the query point.
pub proof fn lemma_segment_roundtrip(el: Element, x: RVec, t0n: int, t0d: int)
    requires
        el.wf(),
        x.wf(),
        el.shape == ElementShape::Segment2d2,
        x.len() == 2,
        seg_len2_num(el) > 0,
        t0d > 0,
        -t0d <= t0n <= t0d,
        seg_diff_num(el, x, t0n, t0d, 0) == 0,
        seg_diff_num(el, x, t0n, t0d, 1) == 0,
    ensures
        0 <= seg_dot_num(el, x) <= x.den * seg_len2_num(el),
        (2 * seg_dot_num(el, x) - x.den * seg_len2_num(el)) * t0d == t0n * (x.den * seg_len2_num(
            el,
        )),
        seg_diff_num(
            el,
            x,
            2 * seg_dot_num(el, x) - x.den * seg_len2_num(el),
            x.den * seg_len2_num(el),
            0,
        ) == 0,
        seg_diff_num(
            el,
            x,
            2 * seg_dot_num(el, x) - x.den * seg_len2_num(el),
            x.den * seg_len2_num(el),
            1,
        ) == 0,
{
    let a0 = el.vertex_num(0, 0);
    let a1 = el.vertex_num(1, 0);
    let b0 = el.vertex_num(0, 1);
    let b1 = el.vertex_num(1, 1);
    let x0 = x.entry(0);
    let x1 = x.entry(1);
    let vd = el.vden as int;
    let xd = x.den as int;
    let u0 = b0 - a0;
    let u1 = b1 - a1;
    let e0 = x0 * vd - a0 * xd;
    let e1 = x1 * vd - a1 * xd;
    let sig = t0d + t0n;
    let len2 = seg_len2_num(el);
    let dot = seg_dot_num(el, x);
    let sd = xd * len2;
    lemma_seg_diff_rewrite(t0n, t0d, a0, b0, x0, vd, xd);
    lemma_seg_diff_rewrite(t0n, t0d, a1, b1, x1, vd, xd);
    assert((2 * t0d) * e0 == sig * (u0 * xd));
    assert((2 * t0d) * e1 == sig * (u1 * xd));
    // Summing the componentwise relations against the direction gives the
    // projection parameter relation 2 t0d dot == sig xd len2.
    assert((2 * t0d) * dot == ((2 * t0d) * e0) * u0 + ((2 * t0d) * e1) * u1) by (nonlinear_arith)
        requires
            dot == e0 * u0 + e1 * u1,
    ;
    assert((sig * (u0 * xd)) * u0 + (sig * (u1 * xd)) * u1 == sig * (xd * (u0 * u0 + u1 * u1)))
        by (nonlinear_arith);
    assert(sig * (xd * len2) == sig * (xd * (u0 * u0 + u1 * u1))) by (nonlinear_arith)
        requires
            len2 == u0 * u0 + u1 * u1,
    ;
    assert((2 * t0d) * dot == sig * (xd * len2));
    assert(0 <= dot) by (nonlinear_arith)
        requires
            (2 * t0d) * dot == sig * (xd * len2),
            sig >= 0,
            t0d > 0,
            xd > 0,
            len2 > 0,
    ;
    assert(dot <= sd) by (nonlinear_arith)
        requires
            (2 * t0d) * dot == sig * (xd * len2),
            sd == xd * len2,
            sig <= 2 * t0d,
            t0d > 0,
            xd > 0,
            len2 > 0,
    ;
    assert((2 * dot - sd) * t0d == t0n * sd) by (nonlinear_arith)
        requires
            (2 * t0d) * dot == sig * (xd * len2),
            sd == xd * len2,
            sig == t0d + t0n,
    ;
    // The pinned minimizer's image: its difference numerators vanish.
    lemma_seg_diff_rewrite(2 * dot - sd, sd, a0, b0, x0, vd, xd);
    lemma_seg_diff_rewrite(2 * dot - sd, sd, a1, b1, x1, vd, xd);
    assert((2 * t0d) * seg_diff_num(el, x, 2 * dot - sd, sd, 0) == 0) by (nonlinear_arith)
        requires
            seg_diff_num(el, x, 2 * dot - sd, sd, 0) == (sd + (2 * dot - sd)) * ((b0 - a0) * xd)
                - (2 * sd) * (x0 * vd - a0 * xd),
            u0 == b0 - a0,
            e0 == x0 * vd - a0 * xd,
            (2 * t0d) * dot == sig * (xd * len2),
            (2 * t0d) * e0 == sig * (u0 * xd),
            sd == xd * len2,
    ;
    assert((2 * t0d) * seg_diff_num(el, x, 2 * dot - sd, sd, 1) == 0) by (nonlinear_arith)
        requires
            seg_diff_num(el, x, 2 * dot - sd, sd, 1) == (sd + (2 * dot - sd)) * ((b1 - a1) * xd)
                - (2 * sd) * (x1 * vd - a1 * xd),
            u1 == b1 - a1,
            e1 == x1 * vd - a1 * xd,
            (2 * t0d) * dot == sig * (xd * len2),
            (2 * t0d) * e1 == sig * (u1 * xd),
            sd == xd * len2,
    ;
    assert(seg_diff_num(el, x, 2 * dot - sd, sd, 0) == 0) by (nonlinear_arith)
        requires
            (2 * t0d) * seg_diff_num(el, x, 2 * dot - sd, sd, 0) == 0,
            t0d > 0,
    ;
    assert(seg_diff_num(el, x, 2 * dot - sd, sd, 1) == 0) by (nonlinear_arith)
        requires
            (2 * t0d) * seg_diff_num(el, x, 2 * dot - sd, sd, 1) == 0,
            t0d > 0,
    ;
}

// The sign tests of the triangle projector, as spec-level polynomials in the
// vertex and query numerators. `tri_e(el, x, k, v)` is coordinate `k` of
// `x - vertex v` over `x.den * el.vden`; the `tri_d*` values are the edge/
// offset dot products of the standard vertex- and edge-region classification.

/// Coordinate `k` of the first edge vector (second vertex minus first).
pub open spec fn tri_ab(el: Element, k: int) -> int {
    el.vertex_num(k, 1) - el.vertex_num(k, 0)
}

/// Coordinate `k` of the second edge vector (third vertex minus first).
pub open spec fn tri_ac(el: Element, k: int) -> int {
    el.vertex_num(k, 2) - el.vertex_num(k, 0)
}

/// Coordinate `k` of the third edge vector (third vertex minus second).
pub open spec fn tri_bc(el: Element, k: int) -> int {
    el.vertex_num(k, 2) - el.vertex_num(k, 1)
}

/// Coordinate `k` of `x - vertex v`, over `x.den * el.vden`.
pub open spec fn tri_e(el: Element, x: RVec, k: int, v: int) -> int {
    x.entry(k) * el.vden - el.vertex_num(k, v) * x.den
}

pub open spec fn tri_d1(el: Element, x: RVec) -> int {
    tri_ab(el, 0) * tri_e(el, x, 0, 0) + tri_ab(el, 1) * tri_e(el, x, 1, 0)
}

pub open spec fn tri_d2(el: Element, x: RVec) -> int {
    tri_ac(el, 0) * tri_e(el, x, 0, 0) + tri_ac(el, 1) * tri_e(el, x, 1, 0)
}

pub open spec fn tri_d3(el: Element, x: RVec) -> int {
    tri_ab(el, 0) * tri_e(el, x, 0, 1) + tri_ab(el, 1) * tri_e(el, x, 1, 1)
}

pub open spec fn tri_d4(el: Element, x: RVec) -> int {
    tri_ac(el, 0) * tri_e(el, x, 0, 1) + tri_ac(el, 1) * tri_e(el, x, 1, 1)
}

pub open spec fn tri_d5(el: Element, x: RVec) -> int {
    tri_ab(el, 0) * tri_e(el, x, 0, 2) + tri_ab(el, 1) * tri_e(el, x, 1, 2)
}

pub open spec fn tri_d6(el: Element, x: RVec) -> int {
    tri_ac(el, 0) * tri_e(el, x, 0, 2) + tri_ac(el, 1) * tri_e(el, x, 1, 2)
}

/// Orientation of the triangle: the cross product of its edge vectors.
pub open spec fn tri_cross(el: Element) -> int {
    tri_ab(el, 0) * tri_ac(el, 1) - tri_ab(el, 1) * tri_ac(el, 0)
}

pub open spec fn tri_va(el: Element, x: RVec) -> int {
    tri_d3(el, x) * tri_d6(el, x) - tri_d5(el, x) * tri_d4(el, x)
}

pub open spec fn tri_vb(el: Element, x: RVec) -> int {
    tri_d5(el, x) * tri_d2(el, x) - tri_d1(el, x) * tri_d6(el, x)
}

pub open spec fn tri_vc(el: Element, x: RVec) -> int {
    tri_d1(el, x) * tri_d4(el, x) - tri_d3(el, x) * tri_d2(el, x)
}

/// Squared lengths of the three edges (over `el.vden^2`).
pub open spec fn tri_lab(el: Element) -> int {
    tri_ab(el, 0) * tri_ab(el, 0) + tri_ab(el, 1) * tri_ab(el, 1)
}

pub open spec fn tri_lac(el: Element) -> int {
    tri_ac(el, 0) * tri_ac(el, 0) + tri_ac(el, 1) * tri_ac(el, 1)
}

pub open spec fn tri_lbc(el: Element) -> int {
    tri_bc(el, 0) * tri_bc(el, 0) + tri_bc(el, 1) * tri_bc(el, 1)
}

// The Voronoi regions of the plane around a nondegenerate triangle, in the
// order the projector tests them.

pub open spec fn tri_region_vertex_a(el: Element, x: RVec) -> bool {
    tri_d1(el, x) <= 0 && tri_d2(el, x) <= 0
}

pub open spec fn tri_region_vertex_b(el: Element, x: RVec) -> bool {
    tri_d3(el, x) >= 0 && tri_d4(el, x) <= tri_d3(el, x)
}

pub open spec fn tri_region_vertex_c(el: Element, x: RVec) -> bool {
    tri_d6(el, x) >= 0 && tri_d5(el, x) <= tri_d6(el, x)
}

pub open spec fn tri_region_edge_ab(el: Element, x: RVec) -> bool {
    tri_vc(el, x) <= 0 && tri_d1(el, x) >= 0 && tri_d3(el, x) <= 0 && tri_d1(el, x) - tri_d3(
        el,
        x,
    ) > 0
}

pub open spec fn tri_region_edge_ac(el: Element, x: RVec) -> bool {
    tri_vb(el, x) <= 0 && tri_d2(el, x) >= 0 && tri_d6(el, x) <= 0 && tri_d2(el, x) - tri_d6(
        el,
        x,
    ) > 0
}

pub open spec fn tri_region_edge_bc(el: Element, x: RVec) -> bool {
    tri_va(el, x) <= 0 && tri_d4(el, x) - tri_d3(el, x) >= 0 && tri_d5(el, x) - tri_d6(el, x) >= 0
        && (tri_d4(el, x) - tri_d3(el, x)) + (tri_d5(el, x) - tri_d6(el, x)) > 0
}

// The exact barycentric solution of the unconstrained problem by Cramer's
// rule, with the denominator oriented positively.

pub open spec fn tri_dp_raw(el: Element, x: RVec) -> int {
    tri_cross(el) * x.den
}

pub open spec fn tri_vn_raw(el: Element, x: RVec) -> int {
    tri_e(el, x, 0, 0) * tri_ac(el, 1) - tri_e(el, x, 1, 0) * tri_ac(el, 0)
}

pub open spec fn tri_wn_raw(el: Element, x: RVec) -> int {
    tri_ab(el, 0) * tri_e(el, x, 1, 0) - tri_ab(el, 1) * tri_e(el, x, 0, 0)
}

pub open spec fn tri_dp(el: Element, x: RVec) -> int {
    if tri_dp_raw(el, x) < 0 {
        -tri_dp_raw(el, x)
    } else {
        tri_dp_raw(el, x)
    }
}

pub open spec fn tri_vn(el: Element, x: RVec) -> int {
    if tri_dp_raw(el, x) < 0 {
        -tri_vn_raw(el, x)
    } else {
        tri_vn_raw(el, x)
    }
}

pub open spec fn tri_wn(el: Element, x: RVec) -> int {
    if tri_dp_raw(el, x) < 0 {
        -tri_wn_raw(el, x)
    } else {
        tri_wn_raw(el, x)
    }
}

/// The unconstrained barycentric solution lies in the reference domain.
pub open spec fn tri_interior(el: Element, x: RVec) -> bool {
    0 <= tri_vn(el, x) && 0 <= tri_wn(el, x) && tri_vn(el, x) + tri_wn(el, x) <= tri_dp(el, x)
}

// The degenerate (collapsed to a line) fallback: the longest edge, ties
// broken toward the lowest edge index, and the clamped projection parameter.

/// Index of the longest edge: 0 for the first-second vertex edge, 1 for
/// first-third, 2 for second-third.
pub open spec fn tri_longest_edge(el: Element) -> int {
    if tri_lab(el) >= tri_lac(el) && tri_lab(el) >= tri_lbc(el) {
        0
    } else if tri_lac(el) >= tri_lbc(el) {
        1
    } else {
        2
    }
}

pub open spec fn tri_line_len(el: Element) -> int {
    if tri_longest_edge(el) == 0 {
        tri_lab(el)
    } else if tri_longest_edge(el) == 1 {
        tri_lac(el)
    } else {
        tri_lbc(el)
    }
}

pub open spec fn tri_line_dot(el: Element, x: RVec) -> int {
    if tri_longest_edge(el) == 0 {
        tri_d1(el, x)
    } else if tri_longest_edge(el) == 1 {
        tri_d2(el, x)
    } else {
        tri_bc(el, 0) * tri_e(el, x, 0, 1) + tri_bc(el, 1) * tri_e(el, x, 1, 1)
    }
}

pub open spec fn tri_line_sd(el: Element, x: RVec) -> int {
    x.den * tri_line_len(el)
}

/// The projection parameter onto the fallback edge, clamped to the domain.
pub open spec fn tri_line_sn(el: Element, x: RVec) -> int {
    if tri_line_dot(el, x) < 0 {
        0
    } else if tri_line_dot(el, x) > tri_line_sd(el, x) {
        tri_line_sd(el, x)
    } else {
        tri_line_dot(el, x)
    }
}

/// `p` is the two-dimensional reference point `(x0 / d, x1 / d)`.
pub open spec fn point_is(p: RVec, x0: int, x1: int, d: int) -> bool {
    p.len() == 2 && p.entry(0) == x0 && p.entry(1) == x1 && p.den as int == d
}

/// Closest-point projection onto a three-node triangle element.
///
/// For a nondegenerate triangle the query is classified by sign tests into
/// the vertex and edge regions of the plane; queries whose unconstrained
/// barycentric solution (computed exactly by Cramer's rule) lies in the
/// domain are reported as `InElement`. A triangle collapsed to a single point
/// projects every query to that point, and one collapsed to a line projects
/// onto the longest of its edges (ties broken toward the lowest edge index),
/// rather than failing. The contract pins the returned reference coordinate
/// of every branch, so the projection is functionally determined; the result
/// always lies in the reference triangle and is small enough to be mapped
/// back through the geometric map.
#[verifier::rlimit(60)]
pub fn closest_point_tri3(el: &Element, x: &RVec) -> (r: ClosestPoint)
    requires
        closest_point_input_ok(*el, *x),
        el.shape == ElementShape::Tri3d2,
    ensures
        r.point_spec().wf(),
        r.point_spec().len() == 2,
        -r.point_spec().den <= r.point_spec().entry(0),
        -r.point_spec().den <= r.point_spec().entry(1),
        r.point_spec().entry(0) + r.point_spec().entry(1) <= 0,
        eval_point_ok(el.shape, r.point_spec()),
        (tri_cross(*el) == 0 && tri_lab(*el) == 0 && tri_lac(*el) == 0) ==> point_is(
            r.point_spec(),
            -1,
            -1,
            1,
        ),
        (tri_cross(*el) == 0 && !(tri_lab(*el) == 0 && tri_lac(*el) == 0)) ==> {
            let sd = tri_line_sd(*el, *x);
            let sn = tri_line_sn(*el, *x);
            &&& (tri_longest_edge(*el) == 0 ==> point_is(r.point_spec(), 2 * sn - sd, -sd, sd))
            &&& (tri_longest_edge(*el) == 1 ==> point_is(r.point_spec(), -sd, 2 * sn - sd, sd))
            &&& (tri_longest_edge(*el) == 2 ==> point_is(r.point_spec(), sd - 2 * sn, 2 * sn - sd, sd))
        },
        (tri_cross(*el) != 0 && tri_region_vertex_a(*el, *x)) ==> point_is(
            r.point_spec(),
            -1,
            -1,
            1,
        ),
        (tri_cross(*el) != 0 && !tri_region_vertex_a(*el, *x) && tri_region_vertex_b(*el, *x))
            ==> point_is(r.point_spec(), 1, -1, 1),
        (tri_cross(*el) != 0 && !tri_region_vertex_a(*el, *x) && !tri_region_vertex_b(*el, *x)
            && tri_region_vertex_c(*el, *x)) ==> point_is(r.point_spec(), -1, 1, 1),
        (tri_cross(*el) != 0 && !tri_region_vertex_a(*el, *x) && !tri_region_vertex_b(*el, *x)
            && !tri_region_vertex_c(*el, *x) && tri_region_edge_ab(*el, *x)) ==> point_is(
            r.point_spec(),
            2 * tri_d1(*el, *x) - (tri_d1(*el, *x) - tri_d3(*el, *x)),
            -(tri_d1(*el, *x) - tri_d3(*el, *x)),
            tri_d1(*el, *x) - tri_d3(*el, *x),
        ),
        (tri_cross(*el) != 0 && !tri_region_vertex_a(*el, *x) && !tri_region_vertex_b(*el, *x)
            && !tri_region_vertex_c(*el, *x) && !tri_region_edge_ab(*el, *x)
            && tri_region_edge_ac(*el, *x)) ==> point_is(
            r.point_spec(),
            -(tri_d2(*el, *x) - tri_d6(*el, *x)),
            2 * tri_d2(*el, *x) - (tri_d2(*el, *x) - tri_d6(*el, *x)),
            tri_d2(*el, *x) - tri_d6(*el, *x),
        ),
        (tri_cross(*el) != 0 && !tri_region_vertex_a(*el, *x) && !tri_region_vertex_b(*el, *x)
            && !tri_region_vertex_c(*el, *x) && !tri_region_edge_ab(*el, *x)
            && !tri_region_edge_ac(*el, *x) && tri_region_edge_bc(*el, *x)) ==> {
            let den = (tri_d4(*el, *x) - tri_d3(*el, *x)) + (tri_d5(*el, *x) - tri_d6(*el, *x));
            let sn = tri_d4(*el, *x) - tri_d3(*el, *x);
            point_is(r.point_spec(), den - 2 * sn, 2 * sn - den, den)
        },
        (tri_cross(*el) != 0 && !tri_region_vertex_a(*el, *x) && !tri_region_vertex_b(*el, *x)
            && !tri_region_vertex_c(*el, *x) && !tri_region_edge_ab(*el, *x)
            && !tri_region_edge_ac(*el, *x) && !tri_region_edge_bc(*el, *x) && tri_interior(
            *el,
            *x,
        )) ==> point_is(
            r.point_spec(),
            2 * tri_vn(*el, *x) - tri_dp(*el, *x),
            2 * tri_wn(*el, *x) - tri_dp(*el, *x),
            tri_dp(*el, *x),
        ),
        r.is_in_element() <==> (tri_cross(*el) != 0 && !tri_region_vertex_a(*el, *x)
            && !tri_region_vertex_b(*el, *x) && !tri_region_vertex_c(*el, *x)
            && !tri_region_edge_ab(*el, *x) && !tri_region_edge_ac(*el, *x)
            && !tri_region_edge_bc(*el, *x) && tri_interior(*el, *x)),
{
    let ghost lim = CLOSEST_INPUT_LIMIT as int;
    let ax = el.coords[0][0];
    let ay = el.coords[1][0];
    let bx = el.coords[0][1];
    let by = el.coords[1][1];
    let cx = el.coords[0][2];
    let cy = el.coords[1][2];
    proof {
        assert(iabs(el.coords@[0]@[0] as int) <= lim);
        assert(iabs(el.coords@[0]@[1] as int) <= lim);
        assert(iabs(el.coords@[0]@[2] as int) <= lim);
        assert(iabs(el.coords@[1]@[0] as int) <= lim);
        assert(iabs(el.coords@[1]@[1] as int) <= lim);
        assert(iabs(el.coords@[1]@[2] as int) <= lim);
        assert(iabs(x.nums@[0] as int) <= lim);
        assert(iabs(x.nums@[1] as int) <= lim);
    }
    let abx = bx - ax;
    let aby = by - ay;
    let acx = cx - ax;
    let acy = cy - ay;
    let bcx = cx - bx;
    let bcy = cy - by;
    proof {
        mul_bound(x.nums@[0] as int, el.vden as int, lim, lim);
        mul_bound(x.nums@[1] as int, el.vden as int, lim, lim);
        mul_bound(ax as int, x.den as int, lim, lim);
        mul_bound(ay as int, x.den as int, lim, lim);
        mul_bound(bx as int, x.den as int, lim, lim);
        mul_bound(by as int, x.den as int, lim, lim);
        mul_bound(cx as int, x.den as int, lim, lim);
        mul_bound(cy as int, x.den as int, lim, lim);
    }
    let eax = x.nums[0] * el.vden - ax * x.den;
    let eay = x.nums[1] * el.vden - ay * x.den;
    let ebx = x.nums[0] * el.vden - bx * x.den;
    let eby = x.nums[1] * el.vden - by * x.den;
    let ecx = x.nums[0] * el.vden - cx * x.den;
    let ecy = x.nums[1] * el.vden - cy * x.den;
    proof {
        mul_bound(abx as int, eax as int, 8192, 33554432);
        mul_bound(aby as int, eay as int, 8192, 33554432);
        mul_bound(acx as int, eax as int, 8192, 33554432);
        mul_bound(acy as int, eay as int, 8192, 33554432);
        mul_bound(abx as int, ebx as int, 8192, 33554432);
        mul_bound(aby as int, eby as int, 8192, 33554432);
        mul_bound(acx as int, ebx as int, 8192, 33554432);
        mul_bound(acy as int, eby as int, 8192, 33554432);
        mul_bound(abx as int, ecx as int, 8192, 33554432);
        mul_bound(aby as int, ecy as int, 8192, 33554432);
        mul_bound(acx as int, ecx as int, 8192, 33554432);
        mul_bound(acy as int, ecy as int, 8192, 33554432);
        mul_bound(bcx as int, ebx as int, 8192, 33554432);
        mul_bound(bcy as int, eby as int, 8192, 33554432);
        mul_bound(abx as int, acy as int, 8192, 8192);
        mul_bound(aby as int, acx as int, 8192, 8192);
    }
    let d1 = abx * eax + aby * eay;
    let d2 = acx * eax + acy * eay;
    let d3 = abx * ebx + aby * eby;
    let d4 = acx * ebx + acy * eby;
    let d5 = abx * ecx + aby * ecy;
    let d6 = acx * ecx + acy * ecy;
    let cross = abx * acy - aby * acx;
    proof {
        assert(d1 as int == tri_d1(*el, *x));
        assert(d2 as int == tri_d2(*el, *x));
        assert(d3 as int == tri_d3(*el, *x));
        assert(d4 as int == tri_d4(*el, *x));
        assert(d5 as int == tri_d5(*el, *x));
        assert(d6 as int == tri_d6(*el, *x));
        assert(cross as int == tri_cross(*el));
    }
    if cross == 0 {
        // Degenerate triangle: collapsed to a point or to a line.
        proof {
            assert(abx as int * abx as int >= 0) by (nonlinear_arith);
            assert(aby as int * aby as int >= 0) by (nonlinear_arith);
            assert(acx as int * acx as int >= 0) by (nonlinear_arith);
            assert(acy as int * acy as int >= 0) by (nonlinear_arith);
            assert(bcx as int * bcx as int >= 0) by (nonlinear_arith);
            assert(bcy as int * bcy as int >= 0) by (nonlinear_arith);
            mul_bound(abx as int, abx as int, 8192, 8192);
            mul_bound(aby as int, aby as int, 8192, 8192);
            mul_bound(acx as int, acx as int, 8192, 8192);
            mul_bound(acy as int, acy as int, 8192, 8192);
            mul_bound(bcx as int, bcx as int, 8192, 8192);
            mul_bound(bcy as int, bcy as int, 8192, 8192);
        }
        let lab = abx * abx + aby * aby;
        let lac = acx * acx + acy * acy;
        let lbc = bcx * bcx + bcy * bcy;
        proof {
            assert(lab as int == tri_lab(*el));
            assert(lac as int == tri_lac(*el));
            assert(lbc as int == tri_lbc(*el));
        }
        if lab == 0 && lac == 0 {
            // Collapsed to a single point: every query projects to it.
            let mut nums: Vec<i128> = Vec::new();
            nums.push(-1);
            nums.push(-1);
            return ClosestPoint::ClosestPoint(RVec { nums, den: 1 });
        }
        // Collapsed to a line: project onto the longest edge (the convex
        // hull of the three collinear vertices), lowest edge index first.
        if lab >= lac && lab >= lbc {
            proof {
                mul_bound(x.den as int, lab as int, lim, 0x8000000);
                mul_pos(x.den as int, lab as int);
            }
            let sd = x.den * lab;
            let sn: i128 = if d1 < 0 {
                0
            } else if d1 > sd {
                sd
            } else {
                d1
            };
            let mut nums: Vec<i128> = Vec::new();
            nums.push(2 * sn - sd);
            nums.push(-sd);
            return ClosestPoint::ClosestPoint(RVec { nums, den: sd });
        }
        if lac >= lbc {
            proof {
                mul_bound(x.den as int, lac as int, lim, 0x8000000);
                mul_pos(x.den as int, lac as int);
            }
            let sd = x.den * lac;
            let sn: i128 = if d2 < 0 {
                0
            } else if d2 > sd {
                sd
            } else {
                d2
            };
            let mut nums: Vec<i128> = Vec::new();
            nums.push(-sd);
            nums.push(2 * sn - sd);
            return ClosestPoint::ClosestPoint(RVec { nums, den: sd });
        }
        let dbc = bcx * ebx + bcy * eby;
        proof {
            assert(dbc as int == tri_line_dot(*el, *x));
            mul_bound(x.den as int, lbc as int, lim, 0x8000000);
            mul_pos(x.den as int, lbc as int);
        }
        let sd = x.den * lbc;
        let sn: i128 = if dbc < 0 {
            0
        } else if dbc > sd {
            sd
        } else {
            dbc
        };
        let mut nums: Vec<i128> = Vec::new();
        nums.push(sd - 2 * sn);
        nums.push(2 * sn - sd);
        return ClosestPoint::ClosestPoint(RVec { nums, den: sd });
    }
    // Vertex regions.
    if d1 <= 0 && d2 <= 0 {
        let mut nums: Vec<i128> = Vec::new();
        nums.push(-1);
        nums.push(-1);
        return ClosestPoint::ClosestPoint(RVec { nums, den: 1 });
    }
    if d3 >= 0 && d4 <= d3 {
        let mut nums: Vec<i128> = Vec::new();
        nums.push(1);
        nums.push(-1);
        return ClosestPoint::ClosestPoint(RVec { nums, den: 1 });
    }
    if d6 >= 0 && d5 <= d6 {
        let mut nums: Vec<i128> = Vec::new();
        nums.push(-1);
        nums.push(1);
        return ClosestPoint::ClosestPoint(RVec { nums, den: 1 });
    }
    // Edge regions.
    proof {
        mul_bound(d1 as int, d4 as int, 0x8000000000000, 0x8000000000000);
        mul_bound(d3 as int, d2 as int, 0x8000000000000, 0x8000000000000);
        mul_bound(d5 as int, d2 as int, 0x8000000000000, 0x8000000000000);
        mul_bound(d1 as int, d6 as int, 0x8000000000000, 0x8000000000000);
        mul_bound(d3 as int, d6 as int, 0x8000000000000, 0x8000000000000);
        mul_bound(d5 as int, d4 as int, 0x8000000000000, 0x8000000000000);
    }
    let vc = d1 * d4 - d3 * d2;
    let vb = d5 * d2 - d1 * d6;
    let va = d3 * d6 - d5 * d4;
    proof {
        assert(vc as int == tri_vc(*el, *x));
        assert(vb as int == tri_vb(*el, *x));
        assert(va as int == tri_va(*el, *x));
    }
    if vc <= 0 && d1 >= 0 && d3 <= 0 && d1 - d3 > 0 {
        let den = d1 - d3;
        let mut nums: Vec<i128> = Vec::new();
        nums.push(2 * d1 - den);
        nums.push(-den);
        return ClosestPoint::ClosestPoint(RVec { nums, den });
    }
    if vb <= 0 && d2 >= 0 && d6 <= 0 && d2 - d6 > 0 {
        let den = d2 - d6;
        let mut nums: Vec<i128> = Vec::new();
        nums.push(-den);
        nums.push(2 * d2 - den);
        return ClosestPoint::ClosestPoint(RVec { nums, den });
    }
    if va <= 0 && d4 - d3 >= 0 && d5 - d6 >= 0 && (d4 - d3) + (d5 - d6) > 0 {
        let den = (d4 - d3) + (d5 - d6);
        let sn = d4 - d3;
        let mut nums: Vec<i128> = Vec::new();
        nums.push(den - 2 * sn);
        nums.push(2 * sn - den);
        return ClosestPoint::ClosestPoint(RVec { nums, den });
    }
    // Interior: solve the two-by-two system exactly by Cramer's rule,
    // orienting the denominators positively.
    proof {
        mul_bound(eax as int, acy as int, 33554432, 8192);
        mul_bound(eay as int, acx as int, 33554432, 8192);
        mul_bound(abx as int, eay as int, 8192, 33554432);
        mul_bound(aby as int, eax as int, 8192, 33554432);
        mul_bound(cross as int, x.den as int, 0x8000000, lim);
        assert(cross as int * x.den as int != 0) by (nonlinear_arith)
            requires
                cross != 0,
                x.den > 0,
        ;
    }
    let mut vn = eax * acy - eay * acx;
    let mut wn = abx * eay - aby * eax;
    let mut dp = cross * x.den;
    proof {
        assert(vn as int == tri_vn_raw(*el, *x));
        assert(wn as int == tri_wn_raw(*el, *x));
        assert(dp as int == tri_dp_raw(*el, *x));
    }
    if dp < 0 {
        vn = -vn;
        wn = -wn;
        dp = -dp;
    }
    proof {
        assert(vn as int == tri_vn(*el, *x));
        assert(wn as int == tri_wn(*el, *x));
        assert(dp as int == tri_dp(*el, *x));
    }
    if 0 <= vn && 0 <= wn && vn + wn <= dp {
        let mut nums: Vec<i128> = Vec::new();
        nums.push(2 * vn - dp);
        nums.push(2 * wn - dp);
        return ClosestPoint::InElement(RVec { nums, den: dp });
    }
    // The regions above cover the plane, so for a two-dimensional query one
    // of them has already returned; the first vertex stands in for any
    // remaining case.
    let mut nums: Vec<i128> = Vec::new();
    nums.push(-1);
    nums.push(-1);
    ClosestPoint::ClosestPoint(RVec { nums, den: 1 })
}

/// Cramer's rule, componentwise: the barycentric combination of the vertices
/// with the exact solution weights reproduces the query offset.
proof fn lemma_cramer_component(
    u0: int,
    u1: int,
    v0: int,
    v1: int,
    e0: int,
    e1: int,
    uk: int,
    vk: int,
    ek: int,
)
    requires
        (uk == u0 && vk == v0 && ek == e0) || (uk == u1 && vk == v1 && ek == e1),
    ensures
        (e0 * v1 - e1 * v0) * uk + (u0 * e1 - u1 * e0) * vk == (u0 * v1 - u1 * v0) * ek,
{
    if uk == u0 && vk == v0 && ek == e0 {
        assert((e0 * v1 - e1 * v0) * u0 + (u0 * e1 - u1 * e0) * v0 == (u0 * v1 - u1 * v0) * e0)
            by (nonlinear_arith);
    } else {
        assert((e0 * v1 - e1 * v0) * u1 + (u0 * e1 - u1 * e0) * v1 == (u0 * v1 - u1 * v0) * e1)
            by (nonlinear_arith);
    }
}

/// Law (round trip, triangles): when the query point is in the span of the
/// element - in two dimensions, whenever the triangle is nondegenerate - the
/// exact unconstrained solution returned in the `InElement` case maps back to
/// the query point exactly. Together with the projector's contract, which
/// pins the `InElement` coordinate to exactly these values, this is the
/// closest-point round trip: projecting the image of an interior reference
/// point returns a coordinate whose image is that same point.
pub proof fn lemma_tri3_interior_roundtrip(el: Element, x: RVec, k: int)
    requires
        el.wf(),
        x.wf(),
        el.shape == ElementShape::Tri3d2,
        x.len() == 2,
        tri_cross(el) != 0,
        0 <= k < 2,
    ensures
        map_num(
            el,
            k,
            seq![2 * tri_vn(el, x) - tri_dp(el, x), 2 * tri_wn(el, x) - tri_dp(el, x)],
            tri_dp(el, x),
        ) * x.den == x.entry(k) * map_den(el, tri_dp(el, x)),
{
    let a0 = el.vertex_num(0, 0);
    let a1 = el.vertex_num(1, 0);
    let b0 = el.vertex_num(0, 1);
    let b1 = el.vertex_num(1, 1);
    let c0 = el.vertex_num(0, 2);
    let c1 = el.vertex_num(1, 2);
    let vd = el.vden as int;
    let xd = x.den as int;
    let vnr = tri_vn_raw(el, x);
    let wnr = tri_wn_raw(el, x);
    let dpr = tri_dp_raw(el, x);
    let vn = tri_vn(el, x);
    let wn = tri_wn(el, x);
    let dp = tri_dp(el, x);
    let pt = seq![2 * vn - dp, 2 * wn - dp];
    // Unfold the geometric map at the solution point: the basis numerators
    // over the denominator 2 dp are twice the barycentric weights.
    let br = Seq::new(3nat, |i: int| basis_num(el.shape, i, pt, dp));
    let vx = Seq::new(3nat, |i: int| el.vertex_num(k, i));
    assert(dot_prefix(br, vx, 0) == 0);
    assert(dot_prefix(br, vx, 1) == dot_prefix(br, vx, 0) + br[0] * vx[0]);
    assert(dot_prefix(br, vx, 2) == dot_prefix(br, vx, 1) + br[1] * vx[1]);
    assert(dot_prefix(br, vx, 3) == dot_prefix(br, vx, 2) + br[2] * vx[2]);
    assert(br[0] == -(pt[0] + pt[1]) && br[1] == dp + pt[0] && br[2] == dp + pt[1]);
    assert(map_num(el, k, pt, dp) == (2 * (dp - vn - wn)) * vx[0] + (2 * vn) * vx[1] + (2 * wn)
        * vx[2]);
    // Cramer's rule for the raw (orientation-carrying) solution.
    let uk = if k == 0 { b0 - a0 } else { b1 - a1 };
    let vk = if k == 0 { c0 - a0 } else { c1 - a1 };
    let ek = tri_e(el, x, k, 0);
    lemma_cramer_component(
        b0 - a0,
        b1 - a1,
        c0 - a0,
        c1 - a1,
        tri_e(el, x, 0, 0),
        tri_e(el, x, 1, 0),
        uk,
        vk,
        ek,
    );
    assert(vnr * uk + wnr * vk == tri_cross(el) * ek) by (nonlinear_arith)
        requires
            vnr == tri_e(el, x, 0, 0) * (c1 - a1) - tri_e(el, x, 1, 0) * (c0 - a0),
            wnr == (b0 - a0) * tri_e(el, x, 1, 0) - (b1 - a1) * tri_e(el, x, 0, 0),
            (tri_e(el, x, 0, 0) * (c1 - a1) - tri_e(el, x, 1, 0) * (c0 - a0)) * uk + ((b0 - a0)
                * tri_e(el, x, 1, 0) - (b1 - a1) * tri_e(el, x, 0, 0)) * vk == ((b0 - a0) * (c1
                - a1) - (b1 - a1) * (c0 - a0)) * ek,
            tri_cross(el) == (b0 - a0) * (c1 - a1) - (b1 - a1) * (c0 - a0),
    ;
    // Lift the componentwise identity through the orientation sign and the
    // query denominator to the full map equation.
    let ak = el.vertex_num(k, 0);
    let bk = el.vertex_num(k, 1);
    let ck = el.vertex_num(k, 2);
    assert(uk == bk - ak && vk == ck - ak);
    assert(ek == x.entry(k) * vd - ak * xd);
    assert((2 * (dpr - vnr - wnr)) * ak + (2 * vnr) * bk + (2 * wnr) * ck == 2 * (dpr * ak + (vnr
        * uk + wnr * vk))) by (nonlinear_arith)
        requires
            uk == bk - ak,
            vk == ck - ak,
    ;
    assert((2 * (dpr * ak + tri_cross(el) * ek)) * xd == x.entry(k) * (2 * (dpr * vd)))
        by (nonlinear_arith)
        requires
            dpr == tri_cross(el) * xd,
            ek == x.entry(k) * vd - ak * xd,
    ;
    if dpr < 0 {
        assert(vn == -vnr && wn == -wnr && dp == -dpr);
        assert(((2 * (dp - vn - wn)) * ak + (2 * vn) * bk + (2 * wn) * ck) * xd == x.entry(k) * (2
            * (dp * vd))) by (nonlinear_arith)
            requires
                vn == -vnr,
                wn == -wnr,
                dp == -dpr,
                ((2 * (dpr - vnr - wnr)) * ak + (2 * vnr) * bk + (2 * wnr) * ck) * xd == x.entry(
                    k,
                ) * (2 * (dpr * vd)),
    ;
    } else {
        assert(((2 * (dp - vn - wn)) * ak + (2 * vn) * bk + (2 * wn) * ck) * xd == x.entry(k) * (2
            * (dp * vd))) by (nonlinear_arith)
            requires
                vn == vnr,
                wn == wnr,
                dp == dpr,
                ((2 * (dpr - vnr - wnr)) * ak + (2 * vnr) * bk + (2 * wnr) * ck) * xd == x.entry(
                    k,
                ) * (2 * (dpr * vd)),
    ;
    }
    assert(((2 * (dpr - vnr - wnr)) * ak + (2 * vnr) * bk + (2 * wnr) * ck) * xd == x.entry(k) * (
    2 * (dpr * vd))) by (nonlinear_arith)
        requires
            (2 * (dpr - vnr - wnr)) * ak + (2 * vnr) * bk + (2 * wnr) * ck == 2 * (dpr * ak + (vnr
                * uk + wnr * vk)),
            vnr * uk + wnr * vk == tri_cross(el) * ek,
            (2 * (dpr * ak + tri_cross(el) * ek)) * xd == x.entry(k) * (2 * (dpr * vd)),
    ;
    assert(map_den(el, dp) == 2 * (dp * vd)) by (nonlinear_arith)
        requires
            map_den(el, dp) == basis_den(el.shape, dp) * el.vden,
            basis_den(el.shape, dp) == 2 * dp,
            vd == el.vden,
    ;
    assert(vx[0] == ak && vx[1] == bk && vx[2] == ck);
}

} // verus!
