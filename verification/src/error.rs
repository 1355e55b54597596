//! Exact element-wise error integration.
//!
//! The squared L2 error of a finite element solution against a reference
//! field is a quadrature sum of Jacobian-weighted squared differences. With
//! exact arithmetic the sum is computed exactly, so a field that the element
//! can represent exactly yields the analytically known error with no
//! tolerance at all.

use vstd::prelude::*;
use crate::rational::{
    iabs, dot_prefix, seq_ints, sum_prefix, MatR, RVec, Rational, mat_num, mul_le_mono,
    lemma_dot_prefix_bound,
};
use crate::element::{
    ElementShape, basis_den, basis_num, basis_den_exec, grad_den, grad_den_exec, grad_num,
    eval_point_ok, evaluate_basis, ints, lemma_basis_num_small, lemma_dens_small,
    lemma_grad_num_small, mul_bound, mul_pos, REF_POINT_LIMIT,
};
use crate::geometry::{
    det2, det2_num, dot_i128, jacobian_den, jacobian_num, map_den, reference_jacobian, Element,
    DET2_ENTRY_LIMIT,
};
use crate::quadrature::{rule_point, QuadratureRule};
use crate::operators::collect_block;

verus! {

/// Bound on vertex coordinate numerators and denominator accepted by the
/// error integrator (a machine limit).
pub const ERROR_VERTEX_LIMIT: i128 = 128;

/// Bound on nodal weight and reference value numerators accepted by the
/// error integrator (a machine limit).
pub const ERROR_VALUE_LIMIT: i128 = 65536;

/// Bound on nodal weight and reference value denominators accepted by the
/// error integrator (a machine limit).
pub const ERROR_DEN_LIMIT: i128 = 256;

/// Numerator of the difference `u(x_q) - u_h(x_q)` at quadrature point `q`,
/// over the denominator `u.den * (basis_den * u_h.den)`.
pub open spec fn l2_diff_num(el: Element, u: RVec, u_h: RVec, rule: QuadratureRule, q: int) -> int {
    u.entry(q) * (basis_den(el.shape, rule.pden as int) * u_h.den) - dot_prefix(
        Seq::new(
            el.shape.num_nodes_spec(),
            |i: int| basis_num(el.shape, i, rule_point(rule, q), rule.pden as int),
        ),
        seq_ints(u_h.nums@),
        el.shape.num_nodes_spec() as int,
    ) * u.den
}

/// Numerator of the Jacobian determinant of `el` at quadrature point `q`,
/// over the denominator `jacobian_den(el, rule.pden)^2`.
pub open spec fn l2_det_num(el: Element, rule: QuadratureRule, q: int) -> int {
    jacobian_num(el, 0, 0, rule_point(rule, q), rule.pden as int) * jacobian_num(
        el,
        1,
        1,
        rule_point(rule, q),
        rule.pden as int,
    ) - jacobian_num(el, 0, 1, rule_point(rule, q), rule.pden as int) * jacobian_num(
        el,
        1,
        0,
        rule_point(rule, q),
        rule.pden as int,
    )
}

/// Numerator of one quadrature term: weight times the absolute Jacobian
/// determinant times the squared difference.
pub open spec fn l2_term_num(el: Element, u: RVec, u_h: RVec, rule: QuadratureRule, q: int) -> int {
    rule.weights@[q] * (iabs(l2_det_num(el, rule, q)) * (l2_diff_num(el, u, u_h, rule, q)
        * l2_diff_num(el, u, u_h, rule, q)))
}

/// Numerator of the exact squared L2 error: the sum of all quadrature terms.
pub open spec fn l2_total_num(el: Element, u: RVec, u_h: RVec, rule: QuadratureRule) -> int {
    sum_prefix(
        Seq::new(rule.weights@.len(), |q: int| l2_term_num(el, u, u_h, rule, q)),
        rule.weights@.len() as int,
    )
}

/// Shared denominator of the exact squared L2 error.
pub open spec fn l2_total_den(el: Element, u: RVec, u_h: RVec, rule: QuadratureRule) -> int {
    let jd = grad_den(el.shape, rule.pden as int) * el.vden;
    let dd = u.den * (basis_den(el.shape, rule.pden as int) * u_h.den);
    rule.wden * ((jd * jd) * (dd * dd))
}

/// Estimate the squared L2 error of the nodal field `u_h` against the
/// reference values `u`, integrated with `rule` over the element.
///
/// `u_h` holds one nodal weight per element node; `u` holds the exact value
/// of the reference field at the physical image of each quadrature point.
/// The result is exactly
///
/// ```text
/// sum over q of  w_q * |det J(xi_q)| * (u_q - sum over i of phi_i(xi_q) * u_h_i)^2
/// ```
///
/// as the fraction `l2_total_num / l2_total_den`. Taking a square root is
/// left to the caller (it is not rational in general).
#[allow(non_snake_case)]
pub fn estimate_element_L2_error_squared(
    element: &Element,
    u: &RVec,
    u_h: &RVec,
    rule: &QuadratureRule,
) -> (r: Rational)
    requires
        element.wf(),
        rule.wf(),
        u.wf(),
        u_h.wf(),
        element.shape.geometry_dim_spec() == 2,
        element.shape.reference_dim_spec() == 2,
        rule.dim == 2,
        rule.pden <= 2,
        u.len() == rule.weights@.len(),
        u_h.len() == element.shape.num_nodes_spec(),
        element.vden <= ERROR_VERTEX_LIMIT,
        forall|k: int, i: int|
            0 <= k < element.coords@.len() && 0 <= i < element.coords@[k]@.len() ==> iabs(
                #[trigger] element.coords@[k]@[i] as int,
            ) <= ERROR_VERTEX_LIMIT,
        u.den <= ERROR_DEN_LIMIT,
        u_h.den <= ERROR_DEN_LIMIT,
        u.bounded(ERROR_VALUE_LIMIT as int),
        u_h.bounded(ERROR_VALUE_LIMIT as int),
    ensures
        r.wf(),
        r.num as int == l2_total_num(*element, *u, *u_h, *rule),
        r.den as int == l2_total_den(*element, *u, *u_h, *rule),
{
    let shape = element.shape;
    let n = shape.num_nodes();
    let nq = rule.num_points();
    let bd = basis_den_exec(shape, rule.pden);
    let gd = grad_den_exec(shape, rule.pden);
    proof {
        lemma_dens_small(shape, rule.pden as int);
        mul_bound(gd as int, element.vden as int, 32, ERROR_VERTEX_LIMIT as int);
        mul_bound(bd as int, u_h.den as int, 64, ERROR_DEN_LIMIT as int);
        mul_bound(u.den as int, bd as int * u_h.den as int, ERROR_DEN_LIMIT as int, 64 * (
        ERROR_DEN_LIMIT as int));
    }
    let jd = gd * element.vden;
    let dd = u.den * (bd * u_h.den);
    proof {
        mul_bound(gd as int, element.vden as int, 32, ERROR_VERTEX_LIMIT as int);
        mul_pos(gd as int, element.vden as int);
        mul_bound(bd as int, u_h.den as int, 64, ERROR_DEN_LIMIT as int);
        mul_pos(bd as int, u_h.den as int);
        mul_bound(u.den as int, bd as int * u_h.den as int, ERROR_DEN_LIMIT as int, 64 * (
        ERROR_DEN_LIMIT as int));
        mul_pos(u.den as int, bd as int * u_h.den as int);
        mul_bound(jd as int, jd as int, 4096, 4096);
        mul_pos(jd as int, jd as int);
        mul_bound(dd as int, dd as int, 0x400000, 0x400000);
        mul_pos(dd as int, dd as int);
        mul_bound(jd as int * jd as int, dd as int * dd as int, 0x1000000, 0x100000000000);
        mul_pos(jd as int * jd as int, dd as int * dd as int);
        mul_bound(rule.wden as int, (jd as int * jd as int) * (dd as int * dd as int), 4096,
            0x100000000000000000);
        mul_pos(rule.wden as int, (jd as int * jd as int) * (dd as int * dd as int));
    }
    let den = rule.wden * ((jd * jd) * (dd * dd));
    let ghost terms = Seq::new(
        rule.weights@.len(),
        |q: int| l2_term_num(*element, *u, *u_h, *rule, q),
    );
    let mut acc: i128 = 0;
    let mut q: usize = 0;
    while q < nq
        invariant
            element.wf(),
            rule.wf(),
            u.wf(),
            u_h.wf(),
            shape == element.shape,
            n == shape.num_nodes_spec(),
            nq == rule.weights@.len(),
            element.shape.geometry_dim_spec() == 2,
            element.shape.reference_dim_spec() == 2,
            rule.dim == 2,
            rule.pden <= 2,
            u.len() == rule.weights@.len(),
            u_h.len() == element.shape.num_nodes_spec(),
            element.vden <= ERROR_VERTEX_LIMIT,
            forall|k: int, i: int|
                0 <= k < element.coords@.len() && 0 <= i < element.coords@[k]@.len() ==> iabs(
                    #[trigger] element.coords@[k]@[i] as int,
                ) <= ERROR_VERTEX_LIMIT,
            u.den <= ERROR_DEN_LIMIT,
            u_h.den <= ERROR_DEN_LIMIT,
            u.bounded(ERROR_VALUE_LIMIT as int),
            u_h.bounded(ERROR_VALUE_LIMIT as int),
            bd as int == basis_den(shape, rule.pden as int),
            0 < bd <= 64,
            gd as int == grad_den(shape, rule.pden as int),
            0 < gd <= 32,
            q <= nq,
            terms == Seq::new(
                rule.weights@.len(),
                |qq: int| l2_term_num(*element, *u, *u_h, *rule, qq),
            ),
            acc as int == sum_prefix(terms, q as int),
            iabs(acc as int) <= q * 0x2000000000000000000000000000000,
        decreases nq - q,
    {
        proof {
            mul_le_mono(q + 1 as int, rule.weights@.len() as int, rule.dim as int);
            assert(rule.weights@.len() as int * rule.dim == rule.weights@.len() * rule.dim)
                by (nonlinear_arith);
        }
        let pnums = collect_block(&rule.points, 2, q);
        let xi = RVec { nums: pnums, den: rule.pden };
        proof {
            assert forall|k: int| 0 <= k < xi.nums@.len() implies iabs(
                #[trigger] xi.nums@[k] as int,
            ) <= rule.pden as int by {
                assert(xi.nums@[k] == rule.points@[q as int * 2 + k]);
            }
            assert(seq_ints(xi.nums@) =~= rule_point(*rule, q as int));
            assert(eval_point_ok(shape, xi));
        }
        let phi = evaluate_basis(shape, &xi);
        let jac = reference_jacobian(element, &xi);
        // Tight entry bounds for the determinant and the interpolant.
        proof {
            assert forall|l: int, k: int| 0 <= l < 2 && 0 <= k < 2 implies iabs(
                #[trigger] mat_num(jac, l, k),
            ) <= 0x40000 by {
                let gr = Seq::new(
                    el_nodes(*element),
                    |i: int| grad_num(shape, i, k, rule_point(*rule, q as int), rule.pden as int),
                );
                let vr = Seq::new(el_nodes(*element), |i: int| element.vertex_num(l, i));
                assert forall|i: int| 0 <= i < gr.len() implies iabs(#[trigger] gr[i]) <= 64 by {
                    lemma_grad_num_small(
                        shape,
                        i,
                        k,
                        rule_point(*rule, q as int),
                        rule.pden as int,
                    );
                }
                lemma_dot_prefix_bound(gr, vr, el_nodes(*element) as int, 64,
                    ERROR_VERTEX_LIMIT as int);
                mul_le_mono(el_nodes(*element) as int, 32, 64 * (ERROR_VERTEX_LIMIT as int));
            }
            assert(jac.den <= DET2_ENTRY_LIMIT as int) by {
                lemma_dens_small(shape, rule.pden as int);
                mul_bound(grad_den(shape, rule.pden as int), element.vden as int, 32,
                    ERROR_VERTEX_LIMIT as int);
            }
            assert(jac.bounded(DET2_ENTRY_LIMIT as int)) by {
                assert forall|idx: int| 0 <= idx < jac.nums@.len() implies iabs(
                    #[trigger] jac.nums@[idx] as int,
                ) <= DET2_ENTRY_LIMIT as int by {
                    assert(jac.nums@.len() == 4);
                    if idx == 0 {
                        assert(jac.nums@[0] as int == mat_num(jac, 0, 0));
                    } else if idx == 1 {
                        assert(jac.nums@[1] as int == mat_num(jac, 1, 0));
                    } else if idx == 2 {
                        assert(jac.nums@[2] as int == mat_num(jac, 0, 1));
                    } else {
                        assert(jac.nums@[3] as int == mat_num(jac, 1, 1));
                    }
                }
            }
        }
        let det = det2(&jac);
        proof {
            mul_bound(mat_num(jac, 0, 0), mat_num(jac, 1, 1), 0x40000, 0x40000);
            mul_bound(mat_num(jac, 0, 1), mat_num(jac, 1, 0), 0x40000, 0x40000);
        }
        let dabs = det.abs();
        proof {
            assert forall|i: int| 0 <= i < phi.nums@.len() implies iabs(
                #[trigger] phi.nums@[i] as int,
            ) <= 64 by {
                lemma_basis_num_small(shape, i, rule_point(*rule, q as int), rule.pden as int);
                assert(phi.entry(i) == basis_num(shape, i, ints(xi), rule.pden as int));
            }
            assert(32 * (64int * (ERROR_VALUE_LIMIT as int)) <= i128::MAX);
        }
        let interp = dot_i128(&phi.nums, &u_h.nums, 64, ERROR_VALUE_LIMIT);
        proof {
            let sphi = Seq::new(
                el_nodes(*element),
                |i: int| basis_num(shape, i, rule_point(*rule, q as int), rule.pden as int),
            );
            assert forall|i: int| 0 <= i < sphi.len() implies seq_ints(phi.nums@)[i] == sphi[i] by {
                assert(phi.entry(i) == basis_num(shape, i, ints(xi), rule.pden as int));
            }
            assert(seq_ints(phi.nums@) =~= sphi);
            mul_le_mono(phi.nums@.len() as int, 32, 64 * (ERROR_VALUE_LIMIT as int));
            mul_bound(bd as int, u_h.den as int, 64, ERROR_DEN_LIMIT as int);
            mul_bound(interp as int, u.den as int, 32 * (64 * (ERROR_VALUE_LIMIT as int)),
                ERROR_DEN_LIMIT as int);
            mul_bound(u.nums@[q as int] as int, bd as int * u_h.den as int,
                ERROR_VALUE_LIMIT as int, 64 * (ERROR_DEN_LIMIT as int));
        }
        let diff = u.nums[q] * (bd * u_h.den) - interp * u.den;
        proof {
            mul_bound(mat_num(jac, 0, 0), mat_num(jac, 1, 1), 0x40000, 0x40000);
            mul_bound(mat_num(jac, 0, 1), mat_num(jac, 1, 0), 0x40000, 0x40000);
            mul_bound(diff as int, diff as int, 0x1000000000, 0x1000000000);
            mul_bound(dabs.num as int, diff as int * diff as int, 0x2000000000,
                0x1000000000000000000);
            mul_bound(rule.weights@[q as int] as int, dabs.num as int * (diff as int
                * diff as int), 4096, 0x2000000000000000000000000000);
        }
        let term = rule.weights[q] * (dabs.num * (diff * diff));
        proof {
            assert(dabs.num as int == iabs(l2_det_num(*element, *rule, q as int)));
            assert(diff as int == l2_diff_num(*element, *u, *u_h, *rule, q as int));
            assert(term as int == l2_term_num(*element, *u, *u_h, *rule, q as int));
            assert(terms[q as int] == l2_term_num(*element, *u, *u_h, *rule, q as int));
            assert(sum_prefix(terms, q + 1 as int) == sum_prefix(terms, q as int) + terms[
                q as int]);
            assert(iabs(term as int) <= 0x2000000000000000000000000000000);
            mul_le_mono(q as int, 31, 0x2000000000000000000000000000000);
            mul_le_mono(q + 1 as int, 32, 0x2000000000000000000000000000000);
            assert(q * 0x2000000000000000000000000000000 + 0x2000000000000000000000000000000
                == (q + 1) * 0x2000000000000000000000000000000) by (nonlinear_arith);
        }
        acc = acc + term;
        q = q + 1;
    }
    proof {
        mul_le_mono(nq as int, 32, 0x2000000000000000000000000000000);
    }
    Rational { num: acc, den }
}

/// The node count of an element, as a spec abbreviation.
pub open spec fn el_nodes(el: Element) -> nat {
    el.shape.num_nodes_spec()
}

} // verus!
