//! Quadrature rules over the reference domains, with exact rational weights
//! and points.
//!
//! The core consumes precomputed weight/point tables indexed by element shape
//! and requested polynomial strength; a lookup fails with
//! [`StrengthNotAvailable`] exactly when no rule of at least the requested
//! strength exists in the table. Every rule's weights sum exactly to the
//! measure of its reference domain.

use vstd::prelude::*;
use crate::rational::{iabs, seq_ints, sum_prefix};

verus! {

/// Returned when no quadrature rule of at least the requested polynomial
/// strength is available for the shape family.
#[derive(Debug)]
pub struct StrengthNotAvailable;

/// A quadrature rule: `weights.len()` pairs of an exact weight
/// `weights[q] / wden` and an exact reference point whose coordinate `k` is
/// `points[q * dim + k] / pden`.
#[derive(Clone, Debug)]
pub struct QuadratureRule {
    pub weights: Vec<i128>,
    pub wden: i128,
    pub points: Vec<i128>,
    pub pden: i128,
    pub dim: usize,
}

/// Coordinates of quadrature point `q` as mathematical integers (over `pden`).
pub open spec fn rule_point(rule: QuadratureRule, q: int) -> Seq<int> {
    Seq::new(rule.dim as nat, |k: int| rule.points@[q * rule.dim + k] as int)
}

impl QuadratureRule {
    /// Structural invariant, with the machine bounds all table rules obey.
    pub open spec fn wf(self) -> bool {
        &&& 0 < self.wden <= 4096
        &&& 0 < self.pden <= 4
        &&& 1 <= self.dim <= 3
        &&& self.points@.len() == self.weights@.len() * self.dim
        &&& self.weights@.len() <= 32
        &&& forall|q: int|
            0 <= q < self.weights@.len() ==> iabs(#[trigger] self.weights@[q] as int) <= 4096
        &&& forall|j: int|
            0 <= j < self.points@.len() ==> iabs(#[trigger] self.points@[j] as int) <= self.pden
    }

    /// The number of quadrature points.
    pub fn num_points(&self) -> (n: usize)
        ensures
            n == self.weights@.len(),
    {
        self.weights.len()
    }
}

/// Exact weight sum of a rule: `measure_num / measure_den` is the measure of
/// the reference domain, and the weights sum to it.
pub open spec fn weights_sum_to(rule: QuadratureRule, measure_num: int, measure_den: int) -> bool {
    sum_prefix(seq_ints(rule.weights@), rule.weights@.len() as int) * measure_den == measure_num
        * rule.wden
}

/// The one-point rule on the reference square: the weight numerators.
pub open spec fn quadrilateral_midpoint_weights() -> Seq<i128> {
    seq![4i128]
}

/// The one-point rule on the reference square: the point numerators (coordinates interleaved).
pub open spec fn quadrilateral_midpoint_points() -> Seq<i128> {
    seq![0i128, 0i128]
}

/// The three-point-per-axis rule on the reference square: the weight numerators.
pub open spec fn quadrilateral_order3_weights() -> Seq<i128> {
    seq![1i128, 4i128, 1i128, 4i128, 16i128, 4i128, 1i128, 4i128, 1i128]
}

/// The three-point-per-axis rule on the reference square: the point numerators (coordinates interleaved).
pub open spec fn quadrilateral_order3_points() -> Seq<i128> {
    seq![-1i128, -1i128, 0i128, -1i128, 1i128, -1i128, -1i128, 0i128, 0i128, 0i128, 1i128, 0i128, -1i128, 1i128, 0i128, 1i128, 1i128, 1i128]
}

/// The five-point-per-axis rule on the reference square: the weight numerators.
pub open spec fn quadrilateral_order5_weights() -> Seq<i128> {
    seq![49i128, 224i128, 84i128, 224i128, 49i128, 224i128, 1024i128, 384i128, 1024i128, 224i128, 84i128, 384i128, 144i128, 384i128, 84i128, 224i128, 1024i128, 384i128, 1024i128, 224i128, 49i128, 224i128, 84i128, 224i128, 49i128]
}

/// The five-point-per-axis rule on the reference square: the point numerators (coordinates interleaved).
pub open spec fn quadrilateral_order5_points() -> Seq<i128> {
    seq![-2i128, -2i128, -1i128, -2i128, 0i128, -2i128, 1i128, -2i128, 2i128, -2i128, -2i128, -1i128, -1i128, -1i128, 0i128, -1i128, 1i128, -1i128, 2i128, -1i128, -2i128, 0i128, -1i128, 0i128, 0i128, 0i128, 1i128, 0i128, 2i128, 0i128, -2i128, 1i128, -1i128, 1i128, 0i128, 1i128, 1i128, 1i128, 2i128, 1i128, -2i128, 2i128, -1i128, 2i128, 0i128, 2i128, 1i128, 2i128, 2i128, 2i128]
}

/// The centroid rule on the reference triangle: the weight numerators.
pub open spec fn triangle_centroid_weights() -> Seq<i128> {
    seq![2i128]
}

/// The centroid rule on the reference triangle: the point numerators (coordinates interleaved).
pub open spec fn triangle_centroid_points() -> Seq<i128> {
    seq![-1i128, -1i128]
}

/// The edge-midpoint rule on the reference triangle: the weight numerators.
pub open spec fn triangle_midedge_weights() -> Seq<i128> {
    seq![2i128, 2i128, 2i128]
}

/// The edge-midpoint rule on the reference triangle: the point numerators (coordinates interleaved).
pub open spec fn triangle_midedge_points() -> Seq<i128> {
    seq![0i128, -1i128, -1i128, 0i128, 0i128, 0i128]
}

/// The one-point rule on the reference cube: the weight numerators.
pub open spec fn hexahedron_midpoint_weights() -> Seq<i128> {
    seq![8i128]
}

/// The one-point rule on the reference cube: the point numerators (coordinates interleaved).
pub open spec fn hexahedron_midpoint_points() -> Seq<i128> {
    seq![0i128, 0i128, 0i128]
}

/// The three-point-per-axis rule on the reference cube: the weight numerators.
pub open spec fn hexahedron_order3_weights() -> Seq<i128> {
    seq![1i128, 4i128, 1i128, 4i128, 16i128, 4i128, 1i128, 4i128, 1i128, 4i128, 16i128, 4i128, 16i128, 64i128, 16i128, 4i128, 16i128, 4i128, 1i128, 4i128, 1i128, 4i128, 16i128, 4i128, 1i128, 4i128, 1i128]
}

/// The three-point-per-axis rule on the reference cube: the point numerators (coordinates interleaved).
pub open spec fn hexahedron_order3_points() -> Seq<i128> {
    seq![-1i128, -1i128, -1i128, 0i128, -1i128, -1i128, 1i128, -1i128, -1i128, -1i128, 0i128, -1i128, 0i128, 0i128, -1i128, 1i128, 0i128, -1i128, -1i128, 1i128, -1i128, 0i128, 1i128, -1i128, 1i128, 1i128, -1i128, -1i128, -1i128, 0i128, 0i128, -1i128, 0i128, 1i128, -1i128, 0i128, -1i128, 0i128, 0i128, 0i128, 0i128, 0i128, 1i128, 0i128, 0i128, -1i128, 1i128, 0i128, 0i128, 1i128, 0i128, 1i128, 1i128, 0i128, -1i128, -1i128, 1i128, 0i128, -1i128, 1i128, 1i128, -1i128, 1i128, -1i128, 0i128, 1i128, 0i128, 0i128, 1i128, 1i128, 0i128, 1i128, -1i128, 1i128, 1i128, 0i128, 1i128, 1i128, 1i128, 1i128, 1i128]
}

/// The centroid rule on the reference tetrahedron: the weight numerators.
pub open spec fn tetrahedron_centroid_weights() -> Seq<i128> {
    seq![8i128]
}

/// The centroid rule on the reference tetrahedron: the point numerators (coordinates interleaved).
pub open spec fn tetrahedron_centroid_points() -> Seq<i128> {
    seq![-1i128, -1i128, -1i128]
}

/// The vertex-and-edge-midpoint rule on the reference tetrahedron: the weight numerators.
pub open spec fn tetrahedron_nodal_weights() -> Seq<i128> {
    seq![-1i128, -1i128, -1i128, -1i128, 4i128, 4i128, 4i128, 4i128, 4i128, 4i128]
}

/// The vertex-and-edge-midpoint rule on the reference tetrahedron: the point numerators (coordinates interleaved).
pub open spec fn tetrahedron_nodal_points() -> Seq<i128> {
    seq![-1i128, -1i128, -1i128, 1i128, -1i128, -1i128, -1i128, 1i128, -1i128, -1i128, -1i128, 1i128, 0i128, -1i128, -1i128, 0i128, 0i128, -1i128, -1i128, 0i128, -1i128, -1i128, -1i128, 0i128, 0i128, -1i128, 0i128, -1i128, 0i128, 0i128]
}

/// A rule of total order at least `strength` on the reference square
/// `[-1, 1]^2`, or [`StrengthNotAvailable`] for strengths above the table.
///
/// Available up to strength 5; the weights sum exactly to the reference
/// measure 4, and the returned rule is the fixed table entry of the branch
/// the requested strength falls in.
#[verifier::rlimit(60)]
pub fn quadrilateral(strength: usize) -> (r: Result<QuadratureRule, StrengthNotAvailable>)
    ensures
        strength <= 5 <==> r is Ok,
        r matches Ok(rule) ==> rule.wf() && rule.dim == 2 && weights_sum_to(rule, 4, 1),
        strength <= 1 ==> (r matches Ok(rule) ==> rule.weights@
            == quadrilateral_midpoint_weights() && rule.wden == 1 && rule.points@ == quadrilateral_midpoint_points()
            && rule.pden == 1),
        1 < strength <= 3 ==> (r matches Ok(rule) ==> rule.weights@
            == quadrilateral_order3_weights() && rule.wden == 9 && rule.points@ == quadrilateral_order3_points()
            && rule.pden == 1),
        3 < strength <= 5 ==> (r matches Ok(rule) ==> rule.weights@
            == quadrilateral_order5_weights() && rule.wden == 2025 && rule.points@ == quadrilateral_order5_points()
            && rule.pden == 2),
{
    if strength <= 1 {
        let mut weights: Vec<i128> = Vec::new();
        let mut points: Vec<i128> = Vec::new();
        weights.push(4);
        points.push(0);
        points.push(0);
        proof {
            assert(sum_prefix(seq_ints(weights@), 0) == 0);
            assert(sum_prefix(seq_ints(weights@), 1) == sum_prefix(seq_ints(weights@), 0) + seq_ints(weights@)[0]);
            assert(weights@ =~= quadrilateral_midpoint_weights());
            assert(points@ =~= quadrilateral_midpoint_points());
        }
        let rule = QuadratureRule { weights, wden: 1, points, pden: 1, dim: 2 };
        proof {
            assert(rule.points@.len() == rule.weights@.len() * rule.dim)
                by (nonlinear_arith)
                requires
                    rule.points@.len() == 2,
                    rule.weights@.len() == 1,
                    rule.dim == 2,
            ;
        }
        Ok(rule)
    } else if strength <= 3 {
        let mut weights: Vec<i128> = Vec::new();
        let mut points: Vec<i128> = Vec::new();
        weights.push(1);
        weights.push(4);
        weights.push(1);
        weights.push(4);
        weights.push(16);
        weights.push(4);
        weights.push(1);
        weights.push(4);
        weights.push(1);
        points.push(-1);
        points.push(-1);
        points.push(0);
        points.push(-1);
        points.push(1);
        points.push(-1);
        points.push(-1);
        points.push(0);
        points.push(0);
        points.push(0);
        points.push(1);
        points.push(0);
        points.push(-1);
        points.push(1);
        points.push(0);
        points.push(1);
        points.push(1);
        points.push(1);
        proof {
            assert(sum_prefix(seq_ints(weights@), 0) == 0);
            assert(sum_prefix(seq_ints(weights@), 1) == sum_prefix(seq_ints(weights@), 0) + seq_ints(weights@)[0]);
            assert(sum_prefix(seq_ints(weights@), 2) == sum_prefix(seq_ints(weights@), 1) + seq_ints(weights@)[1]);
            assert(sum_prefix(seq_ints(weights@), 3) == sum_prefix(seq_ints(weights@), 2) + seq_ints(weights@)[2]);
            assert(sum_prefix(seq_ints(weights@), 4) == sum_prefix(seq_ints(weights@), 3) + seq_ints(weights@)[3]);
            assert(sum_prefix(seq_ints(weights@), 5) == sum_prefix(seq_ints(weights@), 4) + seq_ints(weights@)[4]);
            assert(sum_prefix(seq_ints(weights@), 6) == sum_prefix(seq_ints(weights@), 5) + seq_ints(weights@)[5]);
            assert(sum_prefix(seq_ints(weights@), 7) == sum_prefix(seq_ints(weights@), 6) + seq_ints(weights@)[6]);
            assert(sum_prefix(seq_ints(weights@), 8) == sum_prefix(seq_ints(weights@), 7) + seq_ints(weights@)[7]);
            assert(sum_prefix(seq_ints(weights@), 9) == sum_prefix(seq_ints(weights@), 8) + seq_ints(weights@)[8]);
            assert(weights@ =~= quadrilateral_order3_weights());
            assert(points@ =~= quadrilateral_order3_points());
        }
        let rule = QuadratureRule { weights, wden: 9, points, pden: 1, dim: 2 };
        proof {
            assert(rule.points@.len() == rule.weights@.len() * rule.dim)
                by (nonlinear_arith)
                requires
                    rule.points@.len() == 18,
                    rule.weights@.len() == 9,
                    rule.dim == 2,
            ;
        }
        Ok(rule)
    } else if strength <= 5 {
        let mut weights: Vec<i128> = Vec::new();
        let mut points: Vec<i128> = Vec::new();
        weights.push(49);
        weights.push(224);
        weights.push(84);
        weights.push(224);
        weights.push(49);
        weights.push(224);
        weights.push(1024);
        weights.push(384);
        weights.push(1024);
        weights.push(224);
        weights.push(84);
        weights.push(384);
        weights.push(144);
        weights.push(384);
        weights.push(84);
        weights.push(224);
        weights.push(1024);
        weights.push(384);
        weights.push(1024);
        weights.push(224);
        weights.push(49);
        weights.push(224);
        weights.push(84);
        weights.push(224);
        weights.push(49);
        points.push(-2);
        points.push(-2);
        points.push(-1);
        points.push(-2);
        points.push(0);
        points.push(-2);
        points.push(1);
        points.push(-2);
        points.push(2);
        points.push(-2);
        points.push(-2);
        points.push(-1);
        points.push(-1);
        points.push(-1);
        points.push(0);
        points.push(-1);
        points.push(1);
        points.push(-1);
        points.push(2);
        points.push(-1);
        points.push(-2);
        points.push(0);
        points.push(-1);
        points.push(0);
        points.push(0);
        points.push(0);
        points.push(1);
        points.push(0);
        points.push(2);
        points.push(0);
        points.push(-2);
        points.push(1);
        points.push(-1);
        points.push(1);
        points.push(0);
        points.push(1);
        points.push(1);
        points.push(1);
        points.push(2);
        points.push(1);
        points.push(-2);
        points.push(2);
        points.push(-1);
        points.push(2);
        points.push(0);
        points.push(2);
        points.push(1);
        points.push(2);
        points.push(2);
        points.push(2);
        proof {
            assert(sum_prefix(seq_ints(weights@), 0) == 0);
            assert(sum_prefix(seq_ints(weights@), 1) == sum_prefix(seq_ints(weights@), 0) + seq_ints(weights@)[0]);
            assert(sum_prefix(seq_ints(weights@), 2) == sum_prefix(seq_ints(weights@), 1) + seq_ints(weights@)[1]);
            assert(sum_prefix(seq_ints(weights@), 3) == sum_prefix(seq_ints(weights@), 2) + seq_ints(weights@)[2]);
            assert(sum_prefix(seq_ints(weights@), 4) == sum_prefix(seq_ints(weights@), 3) + seq_ints(weights@)[3]);
            assert(sum_prefix(seq_ints(weights@), 5) == sum_prefix(seq_ints(weights@), 4) + seq_ints(weights@)[4]);
            assert(sum_prefix(seq_ints(weights@), 6) == sum_prefix(seq_ints(weights@), 5) + seq_ints(weights@)[5]);
            assert(sum_prefix(seq_ints(weights@), 7) == sum_prefix(seq_ints(weights@), 6) + seq_ints(weights@)[6]);
            assert(sum_prefix(seq_ints(weights@), 8) == sum_prefix(seq_ints(weights@), 7) + seq_ints(weights@)[7]);
            assert(sum_prefix(seq_ints(weights@), 9) == sum_prefix(seq_ints(weights@), 8) + seq_ints(weights@)[8]);
            assert(sum_prefix(seq_ints(weights@), 10) == sum_prefix(seq_ints(weights@), 9) + seq_ints(weights@)[9]);
            assert(sum_prefix(seq_ints(weights@), 11) == sum_prefix(seq_ints(weights@), 10) + seq_ints(weights@)[10]);
            assert(sum_prefix(seq_ints(weights@), 12) == sum_prefix(seq_ints(weights@), 11) + seq_ints(weights@)[11]);
            assert(sum_prefix(seq_ints(weights@), 13) == sum_prefix(seq_ints(weights@), 12) + seq_ints(weights@)[12]);
            assert(sum_prefix(seq_ints(weights@), 14) == sum_prefix(seq_ints(weights@), 13) + seq_ints(weights@)[13]);
            assert(sum_prefix(seq_ints(weights@), 15) == sum_prefix(seq_ints(weights@), 14) + seq_ints(weights@)[14]);
            assert(sum_prefix(seq_ints(weights@), 16) == sum_prefix(seq_ints(weights@), 15) + seq_ints(weights@)[15]);
            assert(sum_prefix(seq_ints(weights@), 17) == sum_prefix(seq_ints(weights@), 16) + seq_ints(weights@)[16]);
            assert(sum_prefix(seq_ints(weights@), 18) == sum_prefix(seq_ints(weights@), 17) + seq_ints(weights@)[17]);
            assert(sum_prefix(seq_ints(weights@), 19) == sum_prefix(seq_ints(weights@), 18) + seq_ints(weights@)[18]);
            assert(sum_prefix(seq_ints(weights@), 20) == sum_prefix(seq_ints(weights@), 19) + seq_ints(weights@)[19]);
            assert(sum_prefix(seq_ints(weights@), 21) == sum_prefix(seq_ints(weights@), 20) + seq_ints(weights@)[20]);
            assert(sum_prefix(seq_ints(weights@), 22) == sum_prefix(seq_ints(weights@), 21) + seq_ints(weights@)[21]);
            assert(sum_prefix(seq_ints(weights@), 23) == sum_prefix(seq_ints(weights@), 22) + seq_ints(weights@)[22]);
            assert(sum_prefix(seq_ints(weights@), 24) == sum_prefix(seq_ints(weights@), 23) + seq_ints(weights@)[23]);
            assert(sum_prefix(seq_ints(weights@), 25) == sum_prefix(seq_ints(weights@), 24) + seq_ints(weights@)[24]);
            assert(weights@ =~= quadrilateral_order5_weights());
            assert(points@ =~= quadrilateral_order5_points());
        }
        let rule = QuadratureRule { weights, wden: 2025, points, pden: 2, dim: 2 };
        proof {
            assert(rule.points@.len() == rule.weights@.len() * rule.dim)
                by (nonlinear_arith)
                requires
                    rule.points@.len() == 50,
                    rule.weights@.len() == 25,
                    rule.dim == 2,
            ;
        }
        Ok(rule)
    } else {
        Err(StrengthNotAvailable)
    }
}

/// A rule of total order at least `strength` on the reference triangle with
/// vertices (-1,-1), (1,-1), (-1,1), or [`StrengthNotAvailable`] above the
/// table.
///
/// Available up to strength 2; the weights sum exactly to the reference
/// measure 2, and the returned rule is the fixed table entry of the branch
/// the requested strength falls in.
pub fn triangle(strength: usize) -> (r: Result<QuadratureRule, StrengthNotAvailable>)
    ensures
        strength <= 2 <==> r is Ok,
        r matches Ok(rule) ==> rule.wf() && rule.dim == 2 && weights_sum_to(rule, 2, 1),
        strength <= 1 ==> (r matches Ok(rule) ==> rule.weights@
            == triangle_centroid_weights() && rule.wden == 1 && rule.points@ == triangle_centroid_points()
            && rule.pden == 3),
        1 < strength <= 2 ==> (r matches Ok(rule) ==> rule.weights@
            == triangle_midedge_weights() && rule.wden == 3 && rule.points@ == triangle_midedge_points()
            && rule.pden == 1),
{
    if strength <= 1 {
        let mut weights: Vec<i128> = Vec::new();
        let mut points: Vec<i128> = Vec::new();
        weights.push(2);
        points.push(-1);
        points.push(-1);
        proof {
            assert(sum_prefix(seq_ints(weights@), 0) == 0);
            assert(sum_prefix(seq_ints(weights@), 1) == sum_prefix(seq_ints(weights@), 0) + seq_ints(weights@)[0]);
            assert(weights@ =~= triangle_centroid_weights());
            assert(points@ =~= triangle_centroid_points());
        }
        let rule = QuadratureRule { weights, wden: 1, points, pden: 3, dim: 2 };
        proof {
            assert(rule.points@.len() == rule.weights@.len() * rule.dim)
                by (nonlinear_arith)
                requires
                    rule.points@.len() == 2,
                    rule.weights@.len() == 1,
                    rule.dim == 2,
            ;
        }
        Ok(rule)
    } else if strength <= 2 {
        let mut weights: Vec<i128> = Vec::new();
        let mut points: Vec<i128> = Vec::new();
        weights.push(2);
        weights.push(2);
        weights.push(2);
        points.push(0);
        points.push(-1);
        points.push(-1);
        points.push(0);
        points.push(0);
        points.push(0);
        proof {
            assert(sum_prefix(seq_ints(weights@), 0) == 0);
            assert(sum_prefix(seq_ints(weights@), 1) == sum_prefix(seq_ints(weights@), 0) + seq_ints(weights@)[0]);
            assert(sum_prefix(seq_ints(weights@), 2) == sum_prefix(seq_ints(weights@), 1) + seq_ints(weights@)[1]);
            assert(sum_prefix(seq_ints(weights@), 3) == sum_prefix(seq_ints(weights@), 2) + seq_ints(weights@)[2]);
            assert(weights@ =~= triangle_midedge_weights());
            assert(points@ =~= triangle_midedge_points());
        }
        let rule = QuadratureRule { weights, wden: 3, points, pden: 1, dim: 2 };
        proof {
            assert(rule.points@.len() == rule.weights@.len() * rule.dim)
                by (nonlinear_arith)
                requires
                    rule.points@.len() == 6,
                    rule.weights@.len() == 3,
                    rule.dim == 2,
            ;
        }
        Ok(rule)
    } else {
        Err(StrengthNotAvailable)
    }
}

/// A rule of total order at least `strength` on the reference cube
/// `[-1, 1]^3`, or [`StrengthNotAvailable`] above the table.
///
/// Available up to strength 3; the weights sum exactly to the reference
/// measure 8, and the returned rule is the fixed table entry of the branch
/// the requested strength falls in.
#[verifier::rlimit(60)]
pub fn hexahedron(strength: usize) -> (r: Result<QuadratureRule, StrengthNotAvailable>)
    ensures
        strength <= 3 <==> r is Ok,
        r matches Ok(rule) ==> rule.wf() && rule.dim == 3 && weights_sum_to(rule, 8, 1),
        strength <= 1 ==> (r matches Ok(rule) ==> rule.weights@
            == hexahedron_midpoint_weights() && rule.wden == 1 && rule.points@ == hexahedron_midpoint_points()
            && rule.pden == 1),
        1 < strength <= 3 ==> (r matches Ok(rule) ==> rule.weights@
            == hexahedron_order3_weights() && rule.wden == 27 && rule.points@ == hexahedron_order3_points()
            && rule.pden == 1),
{
    if strength <= 1 {
        let mut weights: Vec<i128> = Vec::new();
        let mut points: Vec<i128> = Vec::new();
        weights.push(8);
        points.push(0);
        points.push(0);
        points.push(0);
        proof {
            assert(sum_prefix(seq_ints(weights@), 0) == 0);
            assert(sum_prefix(seq_ints(weights@), 1) == sum_prefix(seq_ints(weights@), 0) + seq_ints(weights@)[0]);
            assert(weights@ =~= hexahedron_midpoint_weights());
            assert(points@ =~= hexahedron_midpoint_points());
        }
        let rule = QuadratureRule { weights, wden: 1, points, pden: 1, dim: 3 };
        proof {
            assert(rule.points@.len() == rule.weights@.len() * rule.dim)
                by (nonlinear_arith)
                requires
                    rule.points@.len() == 3,
                    rule.weights@.len() == 1,
                    rule.dim == 3,
            ;
        }
        Ok(rule)
    } else if strength <= 3 {
        let mut weights: Vec<i128> = Vec::new();
        let mut points: Vec<i128> = Vec::new();
        weights.push(1);
        weights.push(4);
        weights.push(1);
        weights.push(4);
        weights.push(16);
        weights.push(4);
        weights.push(1);
        weights.push(4);
        weights.push(1);
        weights.push(4);
        weights.push(16);
        weights.push(4);
        weights.push(16);
        weights.push(64);
        weights.push(16);
        weights.push(4);
        weights.push(16);
        weights.push(4);
        weights.push(1);
        weights.push(4);
        weights.push(1);
        weights.push(4);
        weights.push(16);
        weights.push(4);
        weights.push(1);
        weights.push(4);
        weights.push(1);
        points.push(-1);
        points.push(-1);
        points.push(-1);
        points.push(0);
        points.push(-1);
        points.push(-1);
        points.push(1);
        points.push(-1);
        points.push(-1);
        points.push(-1);
        points.push(0);
        points.push(-1);
        points.push(0);
        points.push(0);
        points.push(-1);
        points.push(1);
        points.push(0);
        points.push(-1);
        points.push(-1);
        points.push(1);
        points.push(-1);
        points.push(0);
        points.push(1);
        points.push(-1);
        points.push(1);
        points.push(1);
        points.push(-1);
        points.push(-1);
        points.push(-1);
        points.push(0);
        points.push(0);
        points.push(-1);
        points.push(0);
        points.push(1);
        points.push(-1);
        points.push(0);
        points.push(-1);
        points.push(0);
        points.push(0);
        points.push(0);
        points.push(0);
        points.push(0);
        points.push(1);
        points.push(0);
        points.push(0);
        points.push(-1);
        points.push(1);
        points.push(0);
        points.push(0);
        points.push(1);
        points.push(0);
        points.push(1);
        points.push(1);
        points.push(0);
        points.push(-1);
        points.push(-1);
        points.push(1);
        points.push(0);
        points.push(-1);
        points.push(1);
        points.push(1);
        points.push(-1);
        points.push(1);
        points.push(-1);
        points.push(0);
        points.push(1);
        points.push(0);
        points.push(0);
        points.push(1);
        points.push(1);
        points.push(0);
        points.push(1);
        points.push(-1);
        points.push(1);
        points.push(1);
        points.push(0);
        points.push(1);
        points.push(1);
        points.push(1);
        points.push(1);
        points.push(1);
        proof {
            assert(sum_prefix(seq_ints(weights@), 0) == 0);
            assert(sum_prefix(seq_ints(weights@), 1) == sum_prefix(seq_ints(weights@), 0) + seq_ints(weights@)[0]);
            assert(sum_prefix(seq_ints(weights@), 2) == sum_prefix(seq_ints(weights@), 1) + seq_ints(weights@)[1]);
            assert(sum_prefix(seq_ints(weights@), 3) == sum_prefix(seq_ints(weights@), 2) + seq_ints(weights@)[2]);
            assert(sum_prefix(seq_ints(weights@), 4) == sum_prefix(seq_ints(weights@), 3) + seq_ints(weights@)[3]);
            assert(sum_prefix(seq_ints(weights@), 5) == sum_prefix(seq_ints(weights@), 4) + seq_ints(weights@)[4]);
            assert(sum_prefix(seq_ints(weights@), 6) == sum_prefix(seq_ints(weights@), 5) + seq_ints(weights@)[5]);
            assert(sum_prefix(seq_ints(weights@), 7) == sum_prefix(seq_ints(weights@), 6) + seq_ints(weights@)[6]);
            assert(sum_prefix(seq_ints(weights@), 8) == sum_prefix(seq_ints(weights@), 7) + seq_ints(weights@)[7]);
            assert(sum_prefix(seq_ints(weights@), 9) == sum_prefix(seq_ints(weights@), 8) + seq_ints(weights@)[8]);
            assert(sum_prefix(seq_ints(weights@), 10) == sum_prefix(seq_ints(weights@), 9) + seq_ints(weights@)[9]);
            assert(sum_prefix(seq_ints(weights@), 11) == sum_prefix(seq_ints(weights@), 10) + seq_ints(weights@)[10]);
            assert(sum_prefix(seq_ints(weights@), 12) == sum_prefix(seq_ints(weights@), 11) + seq_ints(weights@)[11]);
            assert(sum_prefix(seq_ints(weights@), 13) == sum_prefix(seq_ints(weights@), 12) + seq_ints(weights@)[12]);
            assert(sum_prefix(seq_ints(weights@), 14) == sum_prefix(seq_ints(weights@), 13) + seq_ints(weights@)[13]);
            assert(sum_prefix(seq_ints(weights@), 15) == sum_prefix(seq_ints(weights@), 14) + seq_ints(weights@)[14]);
            assert(sum_prefix(seq_ints(weights@), 16) == sum_prefix(seq_ints(weights@), 15) + seq_ints(weights@)[15]);
            assert(sum_prefix(seq_ints(weights@), 17) == sum_prefix(seq_ints(weights@), 16) + seq_ints(weights@)[16]);
            assert(sum_prefix(seq_ints(weights@), 18) == sum_prefix(seq_ints(weights@), 17) + seq_ints(weights@)[17]);
            assert(sum_prefix(seq_ints(weights@), 19) == sum_prefix(seq_ints(weights@), 18) + seq_ints(weights@)[18]);
            assert(sum_prefix(seq_ints(weights@), 20) == sum_prefix(seq_ints(weights@), 19) + seq_ints(weights@)[19]);
            assert(sum_prefix(seq_ints(weights@), 21) == sum_prefix(seq_ints(weights@), 20) + seq_ints(weights@)[20]);
            assert(sum_prefix(seq_ints(weights@), 22) == sum_prefix(seq_ints(weights@), 21) + seq_ints(weights@)[21]);
            assert(sum_prefix(seq_ints(weights@), 23) == sum_prefix(seq_ints(weights@), 22) + seq_ints(weights@)[22]);
            assert(sum_prefix(seq_ints(weights@), 24) == sum_prefix(seq_ints(weights@), 23) + seq_ints(weights@)[23]);
            assert(sum_prefix(seq_ints(weights@), 25) == sum_prefix(seq_ints(weights@), 24) + seq_ints(weights@)[24]);
            assert(sum_prefix(seq_ints(weights@), 26) == sum_prefix(seq_ints(weights@), 25) + seq_ints(weights@)[25]);
            assert(sum_prefix(seq_ints(weights@), 27) == sum_prefix(seq_ints(weights@), 26) + seq_ints(weights@)[26]);
            assert(weights@ =~= hexahedron_order3_weights());
            assert(points@ =~= hexahedron_order3_points());
        }
        let rule = QuadratureRule { weights, wden: 27, points, pden: 1, dim: 3 };
        proof {
            assert(rule.points@.len() == rule.weights@.len() * rule.dim)
                by (nonlinear_arith)
                requires
                    rule.points@.len() == 81,
                    rule.weights@.len() == 27,
                    rule.dim == 3,
            ;
        }
        Ok(rule)
    } else {
        Err(StrengthNotAvailable)
    }
}

/// A rule of total order at least `strength` on the reference tetrahedron
/// with vertices (-1,-1,-1), (1,-1,-1), (-1,1,-1), (-1,-1,1), or
/// [`StrengthNotAvailable`] above the table.
///
/// Available up to strength 2; the weights sum exactly to the reference
/// measure 4/3 (the rule of strength 2 weights the vertices negatively and
/// the edge midpoints positively), and the returned rule is the fixed table
/// entry of the branch the requested strength falls in.
pub fn tetrahedron(strength: usize) -> (r: Result<QuadratureRule, StrengthNotAvailable>)
    ensures
        strength <= 2 <==> r is Ok,
        r matches Ok(rule) ==> rule.wf() && rule.dim == 3 && weights_sum_to(rule, 4, 3),
        strength <= 1 ==> (r matches Ok(rule) ==> rule.weights@
            == tetrahedron_centroid_weights() && rule.wden == 6 && rule.points@ == tetrahedron_centroid_points()
            && rule.pden == 2),
        1 < strength <= 2 ==> (r matches Ok(rule) ==> rule.weights@
            == tetrahedron_nodal_weights() && rule.wden == 15 && rule.points@ == tetrahedron_nodal_points()
            && rule.pden == 1),
{
    if strength <= 1 {
        let mut weights: Vec<i128> = Vec::new();
        let mut points: Vec<i128> = Vec::new();
        weights.push(8);
        points.push(-1);
        points.push(-1);
        points.push(-1);
        proof {
            assert(sum_prefix(seq_ints(weights@), 0) == 0);
            assert(sum_prefix(seq_ints(weights@), 1) == sum_prefix(seq_ints(weights@), 0) + seq_ints(weights@)[0]);
            assert(weights@ =~= tetrahedron_centroid_weights());
            assert(points@ =~= tetrahedron_centroid_points());
        }
        let rule = QuadratureRule { weights, wden: 6, points, pden: 2, dim: 3 };
        proof {
            assert(rule.points@.len() == rule.weights@.len() * rule.dim)
                by (nonlinear_arith)
                requires
                    rule.points@.len() == 3,
                    rule.weights@.len() == 1,
                    rule.dim == 3,
            ;
        }
        Ok(rule)
    } else if strength <= 2 {
        let mut weights: Vec<i128> = Vec::new();
        let mut points: Vec<i128> = Vec::new();
        weights.push(-1);
        weights.push(-1);
        weights.push(-1);
        weights.push(-1);
        weights.push(4);
        weights.push(4);
        weights.push(4);
        weights.push(4);
        weights.push(4);
        weights.push(4);
        points.push(-1);
        points.push(-1);
        points.push(-1);
        points.push(1);
        points.push(-1);
        points.push(-1);
        points.push(-1);
        points.push(1);
        points.push(-1);
        points.push(-1);
        points.push(-1);
        points.push(1);
        points.push(0);
        points.push(-1);
        points.push(-1);
        points.push(0);
        points.push(0);
        points.push(-1);
        points.push(-1);
        points.push(0);
        points.push(-1);
        points.push(-1);
        points.push(-1);
        points.push(0);
        points.push(0);
        points.push(-1);
        points.push(0);
        points.push(-1);
        points.push(0);
        points.push(0);
        proof {
            assert(sum_prefix(seq_ints(weights@), 0) == 0);
            assert(sum_prefix(seq_ints(weights@), 1) == sum_prefix(seq_ints(weights@), 0) + seq_ints(weights@)[0]);
            assert(sum_prefix(seq_ints(weights@), 2) == sum_prefix(seq_ints(weights@), 1) + seq_ints(weights@)[1]);
            assert(sum_prefix(seq_ints(weights@), 3) == sum_prefix(seq_ints(weights@), 2) + seq_ints(weights@)[2]);
            assert(sum_prefix(seq_ints(weights@), 4) == sum_prefix(seq_ints(weights@), 3) + seq_ints(weights@)[3]);
            assert(sum_prefix(seq_ints(weights@), 5) == sum_prefix(seq_ints(weights@), 4) + seq_ints(weights@)[4]);
            assert(sum_prefix(seq_ints(weights@), 6) == sum_prefix(seq_ints(weights@), 5) + seq_ints(weights@)[5]);
            assert(sum_prefix(seq_ints(weights@), 7) == sum_prefix(seq_ints(weights@), 6) + seq_ints(weights@)[6]);
            assert(sum_prefix(seq_ints(weights@), 8) == sum_prefix(seq_ints(weights@), 7) + seq_ints(weights@)[7]);
            assert(sum_prefix(seq_ints(weights@), 9) == sum_prefix(seq_ints(weights@), 8) + seq_ints(weights@)[8]);
            assert(sum_prefix(seq_ints(weights@), 10) == sum_prefix(seq_ints(weights@), 9) + seq_ints(weights@)[9]);
            assert(weights@ =~= tetrahedron_nodal_weights());
            assert(points@ =~= tetrahedron_nodal_points());
        }
        let rule = QuadratureRule { weights, wden: 15, points, pden: 1, dim: 3 };
        proof {
            assert(rule.points@.len() == rule.weights@.len() * rule.dim)
                by (nonlinear_arith)
                requires
                    rule.points@.len() == 30,
                    rule.weights@.len() == 10,
                    rule.dim == 3,
            ;
        }
        Ok(rule)
    } else {
        Err(StrengthNotAvailable)
    }
}

} // verus!
