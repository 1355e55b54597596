//! Geometric elements: an element shape paired with physical vertex
//! coordinates, the isoparametric map from reference to physical coordinates,
//! its Jacobian, and the element diameter.
//!
//! Vertex coordinates share a single denominator `vden`; coordinate `k` of
//! vertex `i` is `coords[k][i] / vden`. The geometric map is the basis-weighted
//! sum of the vertex coordinates, so its value at a reference point is exact.

use vstd::prelude::*;
use crate::rational::{
    iabs, dot_prefix, seq_ints, sum_prefix, MatR, RVec, Rational, mat_num, mul_le_mono,
    lemma_mat_entry_bounded, lemma_mat_index_range,
};
use crate::element::{
    ElementShape, basis_den, basis_num, basis_value_bound, eval_point_ok, evaluate_basis,
    evaluate_gradients, grad_den, grad_num, ints, mul_bound, mul_pos, VERTEX_LIMIT,
};

verus! {

/// Dot product of two equally long vectors of bounded machine integers.
///
/// `ba` and `bb` bound the entries of `a` and `b`; the requirement
/// `32 * ba * bb <= i128::MAX` keeps every partial sum in range (vectors of
/// up to 32 entries are accepted, enough for every element shape).
pub fn dot_i128(a: &Vec<i128>, b: &Vec<i128>, ba: i128, bb: i128) -> (r: i128)
    requires
        a@.len() == b@.len(),
        a@.len() <= 32,
        ba >= 0,
        bb >= 0,
        32 * (ba as int * bb as int) <= i128::MAX,
        forall|i: int| 0 <= i < a@.len() ==> iabs(#[trigger] a@[i] as int) <= ba,
        forall|i: int| 0 <= i < b@.len() ==> iabs(#[trigger] b@[i] as int) <= bb,
    ensures
        r as int == dot_prefix(seq_ints(a@), seq_ints(b@), a@.len() as int),
        iabs(r as int) <= a@.len() * (ba as int * bb as int),
{
    let n = a.len();
    let mut acc: i128 = 0;
    let mut i: usize = 0;
    while i < n
        invariant
            i <= n,
            n == a@.len() == b@.len() <= 32,
            ba >= 0,
            bb >= 0,
            32 * (ba as int * bb as int) <= i128::MAX,
            forall|j: int| 0 <= j < a@.len() ==> iabs(#[trigger] a@[j] as int) <= ba,
            forall|j: int| 0 <= j < b@.len() ==> iabs(#[trigger] b@[j] as int) <= bb,
            acc as int == dot_prefix(seq_ints(a@), seq_ints(b@), i as int),
            iabs(acc as int) <= i * (ba as int * bb as int),
        decreases n - i,
    {
        proof {
            mul_bound(a@[i as int] as int, b@[i as int] as int, ba as int, bb as int);
            mul_le_mono(i as int, 31, ba as int * bb as int);
            mul_le_mono(i + 1 as int, 32, ba as int * bb as int);
            assert(i * (ba as int * bb as int) + (ba as int * bb as int) == (i + 1) * (ba as int
                * bb as int)) by (nonlinear_arith);
            assert(seq_ints(a@)[i as int] == a@[i as int] as int);
        }
        acc = acc + a[i] * b[i];
        i = i + 1;
    }
    acc
}

/// A geometric element: a reference shape together with the physical
/// coordinates of its nodes. Coordinate `k` of node `i` is
/// `coords[k][i] / vden`.
#[derive(Clone, Debug)]
pub struct Element {
    pub shape: ElementShape,
    pub coords: Vec<Vec<i128>>,
    pub vden: i128,
}

impl Element {
    /// Structural invariant: one coordinate row per geometric dimension, one
    /// entry per node, a positive shared denominator, and coordinates within
    /// the machine bound.
    pub open spec fn wf(self) -> bool {
        &&& self.vden > 0
        &&& self.vden <= VERTEX_LIMIT
        &&& self.coords@.len() == self.shape.geometry_dim_spec()
        &&& forall|k: int|
            0 <= k < self.coords@.len() ==> (#[trigger] self.coords@[k])@.len()
                == self.shape.num_nodes_spec()
        &&& forall|k: int, i: int|
            0 <= k < self.coords@.len() && 0 <= i < self.coords@[k]@.len() ==> iabs(
                #[trigger] self.coords@[k]@[i] as int,
            ) <= VERTEX_LIMIT
    }

    /// Coordinate `k` of vertex `i` as a mathematical integer (over `vden`).
    pub open spec fn vertex_num(self, k: int, i: int) -> int {
        self.coords@[k]@[i] as int
    }

    pub fn from_shape_and_coords(shape: ElementShape, coords: Vec<Vec<i128>>, vden: i128) -> (r:
        Element)
        requires
            vden > 0,
            vden <= VERTEX_LIMIT,
            coords@.len() == shape.geometry_dim_spec(),
            forall|k: int|
                0 <= k < coords@.len() ==> (#[trigger] coords@[k])@.len()
                    == shape.num_nodes_spec(),
            forall|k: int, i: int|
                0 <= k < coords@.len() && 0 <= i < coords@[k]@.len() ==> iabs(
                    #[trigger] coords@[k]@[i] as int,
                ) <= VERTEX_LIMIT,
        ensures
            r.wf(),
            r.shape == shape,
            r.coords@ == coords@,
            r.vden == vden,
    {
        Element { shape, coords, vden }
    }
}

/// Numerator of coordinate `k` of the geometric map of `el` at the reference
/// point `xi / d`, over the denominator `map_den(el, d)`.
pub open spec fn map_num(el: Element, k: int, xi: Seq<int>, d: int) -> int {
    dot_prefix(
        Seq::new(el.shape.num_nodes_spec(), |i: int| basis_num(el.shape, i, xi, d)),
        Seq::new(el.shape.num_nodes_spec(), |i: int| el.vertex_num(k, i)),
        el.shape.num_nodes_spec() as int,
    )
}

/// Denominator of the geometric map values of `el` at a point with
/// denominator `d`.
pub open spec fn map_den(el: Element, d: int) -> int {
    basis_den(el.shape, d) * el.vden
}

/// Bound on the numerators and denominator of a mapped point.
pub open spec fn map_value_bound() -> int {
    32 * (basis_value_bound() * VERTEX_LIMIT as int)
}

/// Map the reference point `xi` to physical coordinates: the basis-weighted
/// sum of the element's vertex positions (the isoparametric map).
///
/// Entry `k` of the result is exactly
/// `map_num(el, k, ints(xi), d) / map_den(el, d)`.
pub fn map_reference_coords(el: &Element, xi: &RVec) -> (r: RVec)
    requires
        el.wf(),
        eval_point_ok(el.shape, *xi),
    ensures
        r.wf(),
        r.len() == el.shape.geometry_dim_spec(),
        r.den == map_den(*el, xi.den as int),
        forall|k: int|
            0 <= k < r.len() ==> r.entry(k) == map_num(*el, k, ints(*xi), xi.den as int),
        r.bounded(map_value_bound()),
{
    let phi = evaluate_basis(el.shape, xi);
    let g = el.shape.geometry_dim();
    proof {
        assert(32 * (basis_value_bound() * (VERTEX_LIMIT as int)) <= i128::MAX);
        assert(basis_value_bound() * (VERTEX_LIMIT as int) <= 32 * (basis_value_bound() * (
        VERTEX_LIMIT as int)));
        assert(basis_value_bound() * (VERTEX_LIMIT as int) >= 0);
    }
    let mut nums: Vec<i128> = Vec::new();
    let mut k: usize = 0;
    while k < g
        invariant
            el.wf(),
            eval_point_ok(el.shape, *xi),
            k <= g,
            g == el.shape.geometry_dim_spec(),
            phi.wf(),
            phi.len() == el.shape.num_nodes_spec(),
            phi.den == basis_den(el.shape, xi.den as int),
            forall|i: int|
                0 <= i < phi.len() ==> phi.entry(i) == basis_num(
                    el.shape,
                    i,
                    ints(*xi),
                    xi.den as int,
                ),
            phi.bounded(basis_value_bound()),
            nums@.len() == k,
            forall|kk: int|
                0 <= kk < k ==> #[trigger] nums@[kk] as int == map_num(
                    *el,
                    kk,
                    ints(*xi),
                    xi.den as int,
                ),
            forall|kk: int|
                0 <= kk < k ==> iabs(#[trigger] nums@[kk] as int) <= map_value_bound(),
        decreases g - k,
    {
        proof {
            assert(32 * (basis_value_bound() * (VERTEX_LIMIT as int)) <= i128::MAX);
        }
        let c = dot_i128(&phi.nums, &el.coords[k], 0x40000000000000000000000, VERTEX_LIMIT);
        proof {
            let n = el.shape.num_nodes_spec();
            let sphi = Seq::new(n, |i: int| basis_num(el.shape, i, ints(*xi), xi.den as int));
            let sver = Seq::new(n, |i: int| el.vertex_num(k as int, i));
            assert forall|i: int| 0 <= i < n implies seq_ints(phi.nums@)[i] == sphi[i] by {
                assert(phi.entry(i) == basis_num(el.shape, i, ints(*xi), xi.den as int));
            }
            assert(seq_ints(phi.nums@) =~= sphi);
            assert(seq_ints(el.coords@[k as int]@) =~= sver);
            assert(basis_value_bound() * (VERTEX_LIMIT as int) >= 0);
            mul_le_mono(phi.nums@.len() as int, 32, basis_value_bound() * (VERTEX_LIMIT as int));
        }
        nums.push(c);
        k = k + 1;
    }
    proof {
        mul_bound(phi.den as int, el.vden as int, basis_value_bound(), VERTEX_LIMIT as int);
        mul_pos(phi.den as int, el.vden as int);
    }
    RVec { nums, den: phi.den * el.vden }
}

/// Numerator of entry `(l, k)` of the Jacobian of `el` at `xi / d` (the
/// derivative of physical coordinate `l` with respect to reference coordinate
/// `k`), over the denominator `jacobian_den(el, d)`.
pub open spec fn jacobian_num(el: Element, l: int, k: int, xi: Seq<int>, d: int) -> int {
    dot_prefix(
        Seq::new(el.shape.num_nodes_spec(), |i: int| grad_num(el.shape, i, k, xi, d)),
        Seq::new(el.shape.num_nodes_spec(), |i: int| el.vertex_num(l, i)),
        el.shape.num_nodes_spec() as int,
    )
}

/// Denominator of the Jacobian entries of `el` at a point with denominator
/// `d`.
pub open spec fn jacobian_den(el: Element, d: int) -> int {
    grad_den(el.shape, d) * el.vden
}

/// The Jacobian of the geometric map of `el` at `xi`: the
/// `geometry_dim x reference_dim` matrix of exact partial derivatives.
///
/// Entry `(l, k)` is `jacobian_num(el, l, k, ints(xi), d) / jacobian_den(el, d)`.
pub fn reference_jacobian(el: &Element, xi: &RVec) -> (r: MatR)
    requires
        el.wf(),
        eval_point_ok(el.shape, *xi),
    ensures
        r.wf(),
        r.nrows == el.shape.geometry_dim_spec(),
        r.ncols == el.shape.reference_dim_spec(),
        r.den == jacobian_den(*el, xi.den as int),
        forall|l: int, k: int|
            0 <= l < r.nrows && 0 <= k < r.ncols ==> #[trigger] mat_num(r, l, k) == jacobian_num(
                *el,
                l,
                k,
                ints(*xi),
                xi.den as int,
            ),
        r.bounded(map_value_bound()),
{
    let grads = evaluate_gradients(el.shape, xi);
    let g = el.shape.geometry_dim();
    let rdim = el.shape.reference_dim();
    let n = el.shape.num_nodes();
    proof {
        assert(32 * (basis_value_bound() * (VERTEX_LIMIT as int)) <= i128::MAX);
        assert(basis_value_bound() * (VERTEX_LIMIT as int) <= 32 * (basis_value_bound() * (
        VERTEX_LIMIT as int)));
        assert(basis_value_bound() * (VERTEX_LIMIT as int) >= 0);
    }
    let mut nums: Vec<i128> = Vec::new();
    let mut k: usize = 0;
    while k < rdim
        invariant
            el.wf(),
            eval_point_ok(el.shape, *xi),
            k <= rdim,
            g == el.shape.geometry_dim_spec(),
            rdim == el.shape.reference_dim_spec(),
            n == el.shape.num_nodes_spec(),
            grads.wf(),
            grads.nrows == el.shape.reference_dim_spec(),
            grads.ncols == el.shape.num_nodes_spec(),
            grads.den == grad_den(el.shape, xi.den as int),
            forall|i: int, kk: int|
                0 <= i < grads.ncols && 0 <= kk < grads.nrows ==> #[trigger] mat_num(grads, kk, i)
                    == grad_num(el.shape, i, kk, ints(*xi), xi.den as int),
            grads.bounded(basis_value_bound()),
            nums@.len() == k * g,
            forall|kk: int, ll: int|
                0 <= kk < k && 0 <= ll < g ==> #[trigger] nums@[kk * g + ll] as int == jacobian_num(
                    *el,
                    ll,
                    kk,
                    ints(*xi),
                    xi.den as int,
                ),
            forall|j: int|
                0 <= j < nums@.len() ==> iabs(#[trigger] nums@[j] as int) <= map_value_bound(),
        decreases rdim - k,
    {
        let gcol = grads.row(k);
        proof {
            assert forall|ii: int| 0 <= ii < gcol@.len() implies iabs(
                #[trigger] gcol@[ii] as int,
            ) <= basis_value_bound() by {
                lemma_mat_entry_bounded(grads, k as int, ii, basis_value_bound());
            }
            assert(32 * (basis_value_bound() * (VERTEX_LIMIT as int)) <= i128::MAX);
        }
        let mut l: usize = 0;
        while l < g
            invariant
                el.wf(),
                eval_point_ok(el.shape, *xi),
                l <= g,
                k < rdim,
                g == el.shape.geometry_dim_spec(),
                rdim == el.shape.reference_dim_spec(),
                n == el.shape.num_nodes_spec(),
                grads.wf(),
                grads.nrows == el.shape.reference_dim_spec(),
                grads.ncols == el.shape.num_nodes_spec(),
                grads.den == grad_den(el.shape, xi.den as int),
                forall|ii: int, kk: int|
                    0 <= ii < grads.ncols && 0 <= kk < grads.nrows ==> #[trigger] mat_num(
                        grads,
                        kk,
                        ii,
                    ) == grad_num(el.shape, ii, kk, ints(*xi), xi.den as int),
                grads.bounded(basis_value_bound()),
                gcol@.len() == n,
                forall|ii: int|
                    0 <= ii < n ==> #[trigger] gcol@[ii] as int == mat_num(grads, k as int, ii),
                forall|ii: int| 0 <= ii < gcol@.len() ==> iabs(#[trigger] gcol@[ii] as int) <= basis_value_bound(),
                nums@.len() == k * g + l,
                forall|kk: int, ll: int|
                    0 <= kk < k && 0 <= ll < g ==> #[trigger] nums@[kk * g + ll] as int
                        == jacobian_num(*el, ll, kk, ints(*xi), xi.den as int),
                forall|ll: int|
                    0 <= ll < l ==> #[trigger] nums@[k * g + ll] as int == jacobian_num(
                        *el,
                        ll,
                        k as int,
                        ints(*xi),
                        xi.den as int,
                    ),
                forall|j: int|
                    0 <= j < nums@.len() ==> iabs(#[trigger] nums@[j] as int) <= map_value_bound(),
            decreases g - l,
        {
            proof {
                assert(32 * (basis_value_bound() * (VERTEX_LIMIT as int)) <= i128::MAX) by (nonlinear_arith);
            }
            let c = dot_i128(&gcol, &el.coords[l], 0x40000000000000000000000, VERTEX_LIMIT);
            proof {
                let sg = Seq::new(
                    el.shape.num_nodes_spec(),
                    |ii: int| grad_num(el.shape, ii, k as int, ints(*xi), xi.den as int),
                );
                let sver = Seq::new(el.shape.num_nodes_spec(), |ii: int| el.vertex_num(l as int, ii));
                assert forall|ii: int| 0 <= ii < n implies seq_ints(gcol@)[ii] == sg[ii] by {
                    assert(gcol@[ii] as int == mat_num(grads, k as int, ii));
                }
                assert(seq_ints(gcol@) =~= sg);
                assert(seq_ints(el.coords@[l as int]@) =~= sver);
                assert(basis_value_bound() * (VERTEX_LIMIT as int) >= 0);
                mul_le_mono(gcol@.len() as int, 32, basis_value_bound() * (VERTEX_LIMIT as int));
                assert(k * g + l + 1 == k * g + (l + 1));
            }
            nums.push(c);
            l = l + 1;
        }
        proof {
            assert(k * g + g == (k + 1) * g) by (nonlinear_arith);
            assert forall|kk: int, ll: int|
                0 <= kk < k + 1 && 0 <= ll < g implies #[trigger] nums@[kk * g + ll] as int
                == jacobian_num(*el, ll, kk, ints(*xi), xi.den as int) by {
                if kk == k {
                    assert(nums@[k as int * g + ll] as int == jacobian_num(
                        *el,
                        ll,
                        k as int,
                        ints(*xi),
                        xi.den as int,
                    ));
                }
            }
        }
        k = k + 1;
    }
    proof {
        mul_bound(grads.den as int, el.vden as int, basis_value_bound(), VERTEX_LIMIT as int);
        mul_pos(grads.den as int, el.vden as int);
        assert(rdim * g == nums@.len());
    }
    let r = MatR { nums, den: grads.den * el.vden, nrows: g, ncols: rdim };
    proof {
        assert(r.nums@.len() == r.nrows * r.ncols) by (nonlinear_arith)
            requires
                r.nums@.len() == rdim * g,
                r.nrows == g,
                r.ncols == rdim,
        ;
        assert forall|l: int, kq: int|
            0 <= l < r.nrows && 0 <= kq < r.ncols implies #[trigger] mat_num(r, l, kq)
            == jacobian_num(*el, l, kq, ints(*xi), xi.den as int) by {
            assert(r.nums@[kq * g + l] as int == jacobian_num(
                *el,
                l,
                kq,
                ints(*xi),
                xi.den as int,
            ));
        }
    }
    r
}

/// Numerator of the determinant of a 2 x 2 exact matrix (over `m.den * m.den`).
pub open spec fn det2_num(m: MatR) -> int {
    mat_num(m, 0, 0) * mat_num(m, 1, 1) - mat_num(m, 0, 1) * mat_num(m, 1, 0)
}

/// Bound accepted on the entries of a 2 x 2 matrix handed to [`det2`]
/// (a machine limit: the cross products must fit in an `i128`).
pub const DET2_ENTRY_LIMIT: i128 = 0x4000000000000000;

/// Determinant of a 2 x 2 exact matrix: `det2_num(m) / (m.den * m.den)`.
pub fn det2(m: &MatR) -> (r: Rational)
    requires
        m.wf(),
        m.nrows == 2,
        m.ncols == 2,
        m.bounded(DET2_ENTRY_LIMIT as int),
    ensures
        r.wf(),
        r.num as int == det2_num(*m),
        r.den as int == m.den * m.den,
{
    proof {
        lemma_mat_index_range(*m, 0, 0);
        lemma_mat_index_range(*m, 1, 0);
        lemma_mat_index_range(*m, 0, 1);
        lemma_mat_index_range(*m, 1, 1);
        lemma_mat_entry_bounded(*m, 0, 0, DET2_ENTRY_LIMIT as int);
        lemma_mat_entry_bounded(*m, 1, 0, DET2_ENTRY_LIMIT as int);
        lemma_mat_entry_bounded(*m, 0, 1, DET2_ENTRY_LIMIT as int);
        lemma_mat_entry_bounded(*m, 1, 1, DET2_ENTRY_LIMIT as int);
        mul_bound(mat_num(*m, 0, 0), mat_num(*m, 1, 1), DET2_ENTRY_LIMIT as int, DET2_ENTRY_LIMIT as int);
        mul_bound(mat_num(*m, 0, 1), mat_num(*m, 1, 0), DET2_ENTRY_LIMIT as int, DET2_ENTRY_LIMIT as int);
        mul_bound(m.den as int, m.den as int, DET2_ENTRY_LIMIT as int, DET2_ENTRY_LIMIT as int);
        mul_pos(m.den as int, m.den as int);
    }
    let a = m.nums[0];
    let b = m.nums[1];
    let c = m.nums[2];
    let d = m.nums[3];
    Rational { num: a * d - c * b, den: m.den * m.den }
}

/// Numerator of the determinant of a 3 x 3 exact matrix (over `m.den^3`),
/// by cofactor expansion along the first row.
pub open spec fn det3_num(m: MatR) -> int {
    mat_num(m, 0, 0) * (mat_num(m, 1, 1) * mat_num(m, 2, 2) - mat_num(m, 1, 2) * mat_num(m, 2, 1))
        - mat_num(m, 0, 1) * (mat_num(m, 1, 0) * mat_num(m, 2, 2) - mat_num(m, 1, 2) * mat_num(
        m,
        2,
        0,
    )) + mat_num(m, 0, 2) * (mat_num(m, 1, 0) * mat_num(m, 2, 1) - mat_num(m, 1, 1) * mat_num(
        m,
        2,
        0,
    ))
}

/// Bound accepted on the entries of a 3 x 3 matrix handed to [`det3`].
pub const DET3_ENTRY_LIMIT: i128 = 0x20000000000;

/// Determinant of a 3 x 3 exact matrix: `det3_num(m) / (m.den * m.den * m.den)`.
pub fn det3(m: &MatR) -> (r: Rational)
    requires
        m.wf(),
        m.nrows == 3,
        m.ncols == 3,
        m.bounded(DET3_ENTRY_LIMIT as int),
    ensures
        r.wf(),
        r.num as int == det3_num(*m),
        r.den as int == (m.den * m.den) * m.den,
{
    proof {
        let lim = DET3_ENTRY_LIMIT as int;
        assert forall|rr: int, cc: int| 0 <= rr < 3 && 0 <= cc < 3 implies iabs(
            #[trigger] mat_num(*m, rr, cc),
        ) <= lim by {
            lemma_mat_entry_bounded(*m, rr, cc, lim);
        }
        lemma_mat_index_range(*m, 0, 0);
        lemma_mat_index_range(*m, 1, 0);
        lemma_mat_index_range(*m, 2, 0);
        lemma_mat_index_range(*m, 0, 1);
        lemma_mat_index_range(*m, 1, 1);
        lemma_mat_index_range(*m, 2, 1);
        lemma_mat_index_range(*m, 0, 2);
        lemma_mat_index_range(*m, 1, 2);
        lemma_mat_index_range(*m, 2, 2);
        mul_bound(mat_num(*m, 1, 1), mat_num(*m, 2, 2), lim, lim);
        mul_bound(mat_num(*m, 1, 2), mat_num(*m, 2, 1), lim, lim);
        mul_bound(mat_num(*m, 1, 0), mat_num(*m, 2, 2), lim, lim);
        mul_bound(mat_num(*m, 1, 2), mat_num(*m, 2, 0), lim, lim);
        mul_bound(mat_num(*m, 1, 0), mat_num(*m, 2, 1), lim, lim);
        mul_bound(mat_num(*m, 1, 1), mat_num(*m, 2, 0), lim, lim);
        mul_bound(mat_num(*m, 0, 0), mat_num(*m, 1, 1) * mat_num(*m, 2, 2) - mat_num(*m, 1, 2)
            * mat_num(*m, 2, 1), lim, 2 * (lim * lim));
        mul_bound(mat_num(*m, 0, 1), mat_num(*m, 1, 0) * mat_num(*m, 2, 2) - mat_num(*m, 1, 2)
            * mat_num(*m, 2, 0), lim, 2 * (lim * lim));
        mul_bound(mat_num(*m, 0, 2), mat_num(*m, 1, 0) * mat_num(*m, 2, 1) - mat_num(*m, 1, 1)
            * mat_num(*m, 2, 0), lim, 2 * (lim * lim));
        mul_bound(m.den as int, m.den as int, lim, lim);
        mul_bound(m.den as int * m.den as int, m.den as int, lim * lim, lim);
        mul_pos(m.den as int, m.den as int);
        mul_pos(m.den as int * m.den as int, m.den as int);
    }
    let m00 = m.nums[0];
    let m10 = m.nums[1];
    let m20 = m.nums[2];
    let m01 = m.nums[3];
    let m11 = m.nums[4];
    let m21 = m.nums[5];
    let m02 = m.nums[6];
    let m12 = m.nums[7];
    let m22 = m.nums[8];
    let num = m00 * (m11 * m22 - m12 * m21) - m01 * (m10 * m22 - m12 * m20) + m02 * (m10 * m21
        - m11 * m20);
    let dd = m.den * m.den;
    Rational { num, den: dd * m.den }
}

/// Numerator of the squared distance between vertices `i` and `j` of `el`,
/// over the denominator `el.vden * el.vden`.
pub open spec fn vertex_dist2_num(el: Element, i: int, j: int) -> int {
    sum_prefix(
        Seq::new(
            el.shape.geometry_dim_spec(),
            |k: int| (el.vertex_num(k, i) - el.vertex_num(k, j)) * (el.vertex_num(k, i)
                - el.vertex_num(k, j)),
        ),
        el.shape.geometry_dim_spec() as int,
    )
}

/// The squared diameter of `el`: the largest squared distance between any two
/// of its vertices. For the (affine and multilinear) shapes of this library
/// the diameter of the element equals the largest inter-vertex distance.
pub fn diameter_squared(el: &Element) -> (r: Rational)
    requires
        el.wf(),
    ensures
        r.wf(),
        r.den as int == el.vden * el.vden,
        forall|i: int, j: int|
            0 <= i < el.shape.num_nodes_spec() && 0 <= j < el.shape.num_nodes_spec()
                ==> #[trigger] vertex_dist2_num(*el, i, j) <= r.num,
        exists|i: int, j: int|
            0 <= i < el.shape.num_nodes_spec() && 0 <= j < el.shape.num_nodes_spec()
                && #[trigger] vertex_dist2_num(*el, i, j) == r.num,
{
    let n = el.shape.num_nodes();
    let g = el.shape.geometry_dim();
    let mut best: i128 = 0;
    let ghost mut bi: int = 0;
    let ghost mut bj: int = 0;
    proof {
        lemma_vertex_dist2_self(*el, 0);
    }
    let mut i: usize = 0;
    while i < n
        invariant
            el.wf(),
            n == el.shape.num_nodes_spec(),
            g == el.shape.geometry_dim_spec(),
            i <= n,
            n >= 1,
            0 <= bi < n,
            0 <= bj < n,
            best as int == vertex_dist2_num(*el, bi, bj),
            best >= 0,
            forall|a: int, b: int|
                0 <= a < i && 0 <= b < n ==> #[trigger] vertex_dist2_num(*el, a, b) <= best,
        decreases n - i,
    {
        let mut j: usize = 0;
        while j < n
            invariant
                el.wf(),
                n == el.shape.num_nodes_spec(),
                g == el.shape.geometry_dim_spec(),
                i < n,
                j <= n,
                0 <= bi < n,
                0 <= bj < n,
                best as int == vertex_dist2_num(*el, bi, bj),
                best >= 0,
                forall|a: int, b: int|
                    0 <= a < i && 0 <= b < n ==> #[trigger] vertex_dist2_num(*el, a, b) <= best,
                forall|b: int| 0 <= b < j ==> #[trigger] vertex_dist2_num(*el, i as int, b) <= best,
            decreases n - j,
        {
            let d2 = vertex_dist2(el, i, j);
            if d2 > best {
                best = d2;
                proof {
                    bi = i as int;
                    bj = j as int;
                }
            }
            j = j + 1;
        }
        i = i + 1;
    }
    proof {
        mul_bound(el.vden as int, el.vden as int, VERTEX_LIMIT as int, VERTEX_LIMIT as int);
        mul_pos(el.vden as int, el.vden as int);
    }
    Rational { num: best, den: el.vden * el.vden }
}

/// The squared distance between two vertices is zero when they coincide.
proof fn lemma_vertex_dist2_self(el: Element, i: int)
    requires
        el.wf(),
        el.shape.geometry_dim_spec() <= 3,
    ensures
        vertex_dist2_num(el, i, i) == 0,
{
    let g = el.shape.geometry_dim_spec() as int;
    let sq = Seq::new(
        el.shape.geometry_dim_spec(),
        |k: int| (el.vertex_num(k, i) - el.vertex_num(k, i)) * (el.vertex_num(k, i)
            - el.vertex_num(k, i)),
    );
    assert forall|k: int| 0 <= k < g implies sq[k] == 0 by {
        assert((el.vertex_num(k, i) - el.vertex_num(k, i)) == 0);
        assert(0 * 0 == 0) by (nonlinear_arith);
    }
    assert(sum_prefix(sq, 0) == 0);
    if g >= 1 {
        assert(sum_prefix(sq, 1) == sum_prefix(sq, 0) + sq[0]);
    }
    if g >= 2 {
        assert(sum_prefix(sq, 2) == sum_prefix(sq, 1) + sq[1]);
    }
    if g >= 3 {
        assert(sum_prefix(sq, 3) == sum_prefix(sq, 2) + sq[2]);
    }
}

/// The squared distance between vertices `i` and `j` of `el`, as the exact
/// numerator over `el.vden * el.vden`.
pub fn vertex_dist2(el: &Element, i: usize, j: usize) -> (r: i128)
    requires
        el.wf(),
        i < el.shape.num_nodes_spec(),
        j < el.shape.num_nodes_spec(),
    ensures
        r as int == vertex_dist2_num(*el, i as int, j as int),
        r >= 0,
        r <= 0x300000000000,
{
    let g = el.shape.geometry_dim();
    let ghost sq = Seq::new(
        el.shape.geometry_dim_spec(),
        |k: int| (el.vertex_num(k, i as int) - el.vertex_num(k, j as int)) * (el.vertex_num(
            k,
            i as int,
        ) - el.vertex_num(k, j as int)),
    );
    let mut acc: i128 = 0;
    let mut k: usize = 0;
    while k < g
        invariant
            el.wf(),
            i < el.shape.num_nodes_spec(),
            j < el.shape.num_nodes_spec(),
            g == el.shape.geometry_dim_spec(),
            g <= 3,
            k <= g,
            sq == Seq::new(
                el.shape.geometry_dim_spec(),
                |k: int| (el.vertex_num(k, i as int) - el.vertex_num(k, j as int)) * (
                el.vertex_num(k, i as int) - el.vertex_num(k, j as int)),
            ),
            acc as int == sum_prefix(sq, k as int),
            0 <= acc <= k * 0x100000000000,
        decreases g - k,
    {
        let diff = el.coords[k][i] - el.coords[k][j];
        proof {
            mul_bound(diff as int, diff as int, 2 * VERTEX_LIMIT as int, 2 * VERTEX_LIMIT as int);
            assert(diff as int * diff as int >= 0) by (nonlinear_arith);
            assert(sq[k as int] == diff as int * diff as int);
            assert((k + 1) * 0x100000000000 == k * 0x100000000000 + 0x100000000000)
                by (nonlinear_arith);
        }
        acc = acc + diff * diff;
        k = k + 1;
    }
    proof {
        mul_le_mono(k as int, 3, 0x100000000000);
    }
    acc
}

/// Orientation of a three-node triangle: twice its signed area, as the cross
/// product of its edge vectors (over `el.vden^2`).
pub open spec fn tri3_orientation_num(el: Element) -> int {
    (el.vertex_num(0, 1) - el.vertex_num(0, 0)) * (el.vertex_num(1, 2) - el.vertex_num(1, 0)) - (
    el.vertex_num(0, 2) - el.vertex_num(0, 0)) * (el.vertex_num(1, 1) - el.vertex_num(1, 0))
}

/// Law (Jacobian determinant sign, affine case): the Jacobian determinant of
/// a three-node triangle is constant over the reference domain and equals a
/// quarter of the orientation, so an element with nonnegative-orientation
/// vertices has a nonnegative Jacobian determinant at every reference point.
pub proof fn lemma_tri3_jacobian_determinant(el: Element, xi: Seq<int>, d: int)
    requires
        el.wf(),
        el.shape == ElementShape::Tri3d2,
        xi.len() == 2,
    ensures
        jacobian_num(el, 0, 0, xi, d) * jacobian_num(el, 1, 1, xi, d) - jacobian_num(
            el,
            0,
            1,
            xi,
            d,
        ) * jacobian_num(el, 1, 0, xi, d) == tri3_orientation_num(el),
        tri3_orientation_num(el) >= 0 ==> jacobian_num(el, 0, 0, xi, d) * jacobian_num(
            el,
            1,
            1,
            xi,
            d,
        ) - jacobian_num(el, 0, 1, xi, d) * jacobian_num(el, 1, 0, xi, d) >= 0,
{
    let n = el.shape.num_nodes_spec();
    assert forall|l: int, k: int| 0 <= l < 2 && 0 <= k < 2 implies #[trigger] jacobian_num(
        el,
        l,
        k,
        xi,
        d,
    ) == el.vertex_num(l, k + 1) - el.vertex_num(l, 0) by {
        let gr = Seq::new(n, |i: int| grad_num(el.shape, i, k, xi, d));
        let vr = Seq::new(n, |i: int| el.vertex_num(l, i));
        assert(dot_prefix(gr, vr, 0) == 0);
        assert(dot_prefix(gr, vr, 1) == dot_prefix(gr, vr, 0) + gr[0] * vr[0]);
        assert(dot_prefix(gr, vr, 2) == dot_prefix(gr, vr, 1) + gr[1] * vr[1]);
        assert(dot_prefix(gr, vr, 3) == dot_prefix(gr, vr, 2) + gr[2] * vr[2]);
        if k == 0 {
            assert(gr[0] == -1 && gr[1] == 1 && gr[2] == 0);
        } else {
            assert(gr[0] == -1 && gr[1] == 0 && gr[2] == 1);
        }
        assert((-1) * vr[0] + 1 * vr[1] + 0 * vr[2] == vr[1] - vr[0]) by (nonlinear_arith);
        assert((-1) * vr[0] + 0 * vr[1] + 1 * vr[2] == vr[2] - vr[0]) by (nonlinear_arith);
    }
}

/// Law (Jacobian determinant sign, affine case, tetrahedra): the Jacobian of
/// a four-node tetrahedron is the constant edge matrix, so its determinant
/// equals the triple product of the edge vectors: an element whose vertices
/// have nonnegative orientation has a nonnegative Jacobian determinant at
/// every reference point.
pub proof fn lemma_tet4_jacobian_entries(el: Element, xi: Seq<int>, d: int, l: int, k: int)
    requires
        el.wf(),
        el.shape == ElementShape::Tet4,
        xi.len() == 3,
        0 <= l < 3,
        0 <= k < 3,
    ensures
        jacobian_num(el, l, k, xi, d) == el.vertex_num(l, k + 1) - el.vertex_num(l, 0),
{
    let n = el.shape.num_nodes_spec();
    let gr = Seq::new(n, |i: int| grad_num(el.shape, i, k, xi, d));
    let vr = Seq::new(n, |i: int| el.vertex_num(l, i));
    assert(dot_prefix(gr, vr, 0) == 0);
    assert(dot_prefix(gr, vr, 1) == dot_prefix(gr, vr, 0) + gr[0] * vr[0]);
    assert(dot_prefix(gr, vr, 2) == dot_prefix(gr, vr, 1) + gr[1] * vr[1]);
    assert(dot_prefix(gr, vr, 3) == dot_prefix(gr, vr, 2) + gr[2] * vr[2]);
    assert(dot_prefix(gr, vr, 4) == dot_prefix(gr, vr, 3) + gr[3] * vr[3]);
    assert(gr[0] == -1);
    assert(gr[1 + k] == 1);
    assert((-1) * vr[0] + 1 * vr[1] + 0 * vr[2] + 0 * vr[3] == vr[1] - vr[0]) by (nonlinear_arith);
    assert((-1) * vr[0] + 0 * vr[1] + 1 * vr[2] + 0 * vr[3] == vr[2] - vr[0]) by (nonlinear_arith);
    assert((-1) * vr[0] + 0 * vr[1] + 0 * vr[2] + 1 * vr[3] == vr[3] - vr[0]) by (nonlinear_arith);
    if k == 0 {
        assert(gr[1] == 1 && gr[2] == 0 && gr[3] == 0);
    } else if k == 1 {
        assert(gr[1] == 0 && gr[2] == 1 && gr[3] == 0);
    } else {
        assert(gr[1] == 0 && gr[2] == 0 && gr[3] == 1);
    }
}

} // verus!
