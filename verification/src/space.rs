//! Finite element spaces: connectivity, per-element basis and geometry
//! queries, element views, and element bounding boxes.
//!
//! A space is a set of elements over a shared vertex buffer. Elements are
//! never copied out of the buffer: an [`ElementInSpace`] is a transient view
//! pairing a space with an element index, and geometric queries gather the
//! element's vertices on demand.

use vstd::prelude::*;
use crate::rational::{
    iabs, dot_prefix, max_prefix, min_prefix, seq_ints, sum_prefix, MatR, RVec, Rational, mat_num,
};
use crate::element::{
    ElementShape, basis_den, basis_num, eval_point_ok, evaluate_basis, evaluate_gradients,
    grad_den, grad_num, ints, VERTEX_LIMIT,
};
use crate::geometry::{
    diameter_squared, jacobian_den, jacobian_num, map_den, map_num, map_reference_coords,
    reference_jacobian, vertex_dist2_num, Element,
};

verus! {

/// Describes the connectivity of elements in a finite element space.
pub trait FiniteElementConnectivity {
    /// Structural invariant of the connectivity data.
    spec fn connectivity_wf(&self) -> bool;

    spec fn num_elements_spec(&self) -> nat;

    spec fn num_nodes_spec(&self) -> nat;

    spec fn element_node_count_spec(&self, element_index: int) -> nat;

    /// Global index of local node `local` of element `element_index`.
    spec fn element_node_spec(&self, element_index: int, local: int) -> int;

    fn num_elements(&self) -> (n: usize)
        requires
            self.connectivity_wf(),
        ensures
            n == self.num_elements_spec(),
    ;

    fn num_nodes(&self) -> (n: usize)
        requires
            self.connectivity_wf(),
        ensures
            n == self.num_nodes_spec(),
    ;

    fn element_node_count(&self, element_index: usize) -> (n: usize)
        requires
            self.connectivity_wf(),
            element_index < self.num_elements_spec(),
        ensures
            n == self.element_node_count_spec(element_index as int),
    ;

    fn populate_element_nodes(&self, nodes: &mut Vec<usize>, element_index: usize)
        requires
            self.connectivity_wf(),
            element_index < self.num_elements_spec(),
        ensures
            final(nodes)@.len() == self.element_node_count_spec(element_index as int),
            forall|k: int|
                0 <= k < final(nodes)@.len() ==> #[trigger] final(nodes)@[k] as int
                    == self.element_node_spec(element_index as int, k) && final(nodes)@[k]
                    < self.num_nodes_spec(),
    ;
}

/// A finite element space: a set of elements for which basis functions and
/// geometric maps are provided.
pub trait FiniteElementSpace: FiniteElementConnectivity {
    spec fn geometry_dim_trait_spec(&self) -> nat;

    spec fn reference_dim_trait_spec(&self) -> nat;

    /// The shape of element `element_index`.
    spec fn element_shape_spec(&self, element_index: int) -> ElementShape;

    /// Shared denominator of the element's vertex coordinates.
    spec fn element_vden_spec(&self, element_index: int) -> int;

    /// Coordinate `k` of local node `node` of element `element_index`, as a
    /// numerator over `element_vden_spec`.
    spec fn element_vertex_spec(&self, element_index: int, k: int, node: int) -> int;

    /// Numerator of the squared distance between local nodes `i` and `j` of
    /// element `element_index`, over `element_vden_spec` squared.
    spec fn element_vertex_dist2_spec(&self, element_index: int, i: int, j: int) -> int;

    /// The pair distance is the componentwise sum of squared coordinate
    /// differences (an obligation on every implementation).
    proof fn vertex_dist2_consistent(&self, element_index: int, i: int, j: int)
        requires
            self.connectivity_wf(),
            0 <= element_index < self.num_elements_spec(),
        ensures
            self.element_vertex_dist2_spec(element_index, i, j) == sum_prefix(
                Seq::new(
                    self.geometry_dim_trait_spec(),
                    |k: int|
                        (self.element_vertex_spec(element_index, k, i) - self.element_vertex_spec(
                            element_index,
                            k,
                            j,
                        )) * (self.element_vertex_spec(element_index, k, i)
                            - self.element_vertex_spec(element_index, k, j)),
                ),
                self.geometry_dim_trait_spec() as int,
            ),
    ;

    fn element_shape(&self, element_index: usize) -> (s: ElementShape)
        requires
            self.connectivity_wf(),
            element_index < self.num_elements_spec(),
        ensures
            s == self.element_shape_spec(element_index as int),
            s.geometry_dim_spec() == self.geometry_dim_trait_spec(),
            s.reference_dim_spec() == self.reference_dim_trait_spec(),
    ;

    /// Evaluate all basis functions of the element at a reference point,
    /// replacing the contents of `basis_values`.
    fn populate_element_basis(
        &self,
        element_index: usize,
        basis_values: &mut RVec,
        reference_coords: &RVec,
    )
        requires
            self.connectivity_wf(),
            element_index < self.num_elements_spec(),
            eval_point_ok(self.element_shape_spec(element_index as int), *reference_coords),
        ensures
            final(basis_values).wf(),
            final(basis_values).len() == self.element_shape_spec(
                element_index as int,
            ).num_nodes_spec(),
            final(basis_values).den == basis_den(
                self.element_shape_spec(element_index as int),
                reference_coords.den as int,
            ),
            forall|i: int|
                0 <= i < final(basis_values).len() ==> final(basis_values).entry(i) == basis_num(
                    self.element_shape_spec(element_index as int),
                    i,
                    ints(*reference_coords),
                    reference_coords.den as int,
                ),
    ;

    /// Evaluate all basis gradients of the element at a reference point,
    /// replacing the contents of `gradients` with the
    /// `reference_dim x num_nodes` gradient matrix.
    fn populate_element_gradients(
        &self,
        element_index: usize,
        gradients: &mut MatR,
        reference_coords: &RVec,
    )
        requires
            self.connectivity_wf(),
            element_index < self.num_elements_spec(),
            eval_point_ok(self.element_shape_spec(element_index as int), *reference_coords),
        ensures
            final(gradients).wf(),
            final(gradients).nrows == self.element_shape_spec(
                element_index as int,
            ).reference_dim_spec(),
            final(gradients).ncols == self.element_shape_spec(
                element_index as int,
            ).num_nodes_spec(),
            final(gradients).den == grad_den(
                self.element_shape_spec(element_index as int),
                reference_coords.den as int,
            ),
            forall|i: int, k: int|
                0 <= i < final(gradients).ncols && 0 <= k < final(gradients).nrows
                    ==> #[trigger] mat_num(*final(gradients), k, i) == grad_num(
                    self.element_shape_spec(element_index as int),
                    i,
                    k,
                    ints(*reference_coords),
                    reference_coords.den as int,
                ),
    ;

    /// The Jacobian of the map from the reference element to element
    /// `element_index`, at the given reference coordinates: entry `(l, k)` is
    /// the basis-gradient-weighted sum of the element's vertex coordinates.
    fn element_reference_jacobian(&self, element_index: usize, reference_coords: &RVec) -> (r:
        MatR)
        requires
            self.connectivity_wf(),
            element_index < self.num_elements_spec(),
            eval_point_ok(self.element_shape_spec(element_index as int), *reference_coords),
        ensures
            r.wf(),
            r.nrows == self.geometry_dim_trait_spec(),
            r.ncols == self.reference_dim_trait_spec(),
            r.den == grad_den(
                self.element_shape_spec(element_index as int),
                reference_coords.den as int,
            ) * self.element_vden_spec(element_index as int),
            forall|l: int, k: int|
                {
                    let shape = self.element_shape_spec(element_index as int);
                    let n = shape.num_nodes_spec();
                    0 <= l < r.nrows && 0 <= k < r.ncols ==> #[trigger] mat_num(r, l, k)
                        == dot_prefix(
                        Seq::new(
                            n,
                            |i: int|
                                grad_num(shape, i, k, ints(*reference_coords),
                                reference_coords.den as int),
                        ),
                        Seq::new(n, |i: int| self.element_vertex_spec(element_index as int, l, i)),
                        n as int,
                    )
                },
    ;

    /// Map reference coordinates to physical coordinates in the element:
    /// the basis-weighted sum of the element's vertex coordinates.
    fn map_element_reference_coords(&self, element_index: usize, reference_coords: &RVec) -> (r:
        RVec)
        requires
            self.connectivity_wf(),
            element_index < self.num_elements_spec(),
            eval_point_ok(self.element_shape_spec(element_index as int), *reference_coords),
        ensures
            r.wf(),
            r.len() == self.geometry_dim_trait_spec(),
            r.den == basis_den(
                self.element_shape_spec(element_index as int),
                reference_coords.den as int,
            ) * self.element_vden_spec(element_index as int),
            forall|k: int|
                {
                    let shape = self.element_shape_spec(element_index as int);
                    let n = shape.num_nodes_spec();
                    0 <= k < r.len() ==> #[trigger] r.entry(k) == dot_prefix(
                        Seq::new(
                            n,
                            |i: int|
                                basis_num(shape, i, ints(*reference_coords),
                                reference_coords.den as int),
                        ),
                        Seq::new(n, |i: int| self.element_vertex_spec(element_index as int, k, i)),
                        n as int,
                    )
                },
    ;

    /// The squared diameter of the element: the largest squared distance
    /// between any two of its vertices, attained by some vertex pair, over
    /// the denominator `element_vden_spec` squared.
    fn diameter_squared(&self, element_index: usize) -> (r: Rational)
        requires
            self.connectivity_wf(),
            element_index < self.num_elements_spec(),
        ensures
            r.wf(),
            r.den as int == self.element_vden_spec(element_index as int) * self.element_vden_spec(
                element_index as int,
            ),
            forall|i: int, j: int|
                0 <= i < self.element_shape_spec(element_index as int).num_nodes_spec() && 0 <= j
                    < self.element_shape_spec(element_index as int).num_nodes_spec()
                    ==> #[trigger] self.element_vertex_dist2_spec(element_index as int, i, j)
                    <= r.num,
            exists|i: int, j: int|
                0 <= i < self.element_shape_spec(element_index as int).num_nodes_spec() && 0 <= j
                    < self.element_shape_spec(element_index as int).num_nodes_spec()
                    && #[trigger] self.element_vertex_dist2_spec(element_index as int, i, j)
                    == r.num,
    ;
}

/// A finite element space whose reference and geometry dimensions coincide
/// (volumetric elements, as opposed to embedded surface or line elements).
pub trait VolumetricFiniteElementSpace: FiniteElementSpace {
    proof fn volumetric_dims(&self)
        requires
            self.connectivity_wf(),
        ensures
            self.geometry_dim_trait_spec() == self.reference_dim_trait_spec(),
    ;
}

/// A finite element space whose elements can also be read as a collection of
/// geometric entities, one geometric element per space element.
pub trait GeometricFiniteElementSpace: FiniteElementSpace {
    /// Extract the geometric element at an index.
    fn geometry_for_element(&self, element_index: usize) -> (el: Element)
        requires
            self.connectivity_wf(),
            element_index < self.num_elements_spec(),
        ensures
            el.wf(),
            el.shape == self.element_shape_spec(element_index as int),
            el.vden as int == self.element_vden_spec(element_index as int),
            forall|k: int, node: int|
                0 <= k < el.coords@.len() && 0 <= node < el.coords@[k]@.len()
                    ==> #[trigger] el.coords@[k]@[node] as int == self.element_vertex_spec(
                    element_index as int,
                    k,
                    node,
                ),
    ;
}

/// A convenience wrapper for producing a finite element view from an indexed
/// element in a finite element space.
pub struct ElementInSpace<'a, Space> {
    pub space: &'a Space,
    pub element_index: usize,
}

impl<'a, Space: FiniteElementSpace> ElementInSpace<'a, Space> {
    pub fn from_space_and_element_index(space: &'a Space, element_index: usize) -> (r: Self)
        ensures
            r.space == space,
            r.element_index == element_index,
    {
        ElementInSpace { space, element_index }
    }

    /// Whether this view denotes a valid element of a well-formed space.
    pub open spec fn view_wf(&self) -> bool {
        &&& self.space.connectivity_wf()
        &&& (self.element_index as int) < self.space.num_elements_spec()
    }

    pub fn num_nodes(&self) -> (n: usize)
        requires
            self.view_wf(),
        ensures
            n == self.space.element_node_count_spec(self.element_index as int),
    {
        self.space.element_node_count(self.element_index)
    }

    pub fn populate_basis(&self, basis_values: &mut RVec, reference_coords: &RVec)
        requires
            self.view_wf(),
            eval_point_ok(
                self.space.element_shape_spec(self.element_index as int),
                *reference_coords,
            ),
        ensures
            final(basis_values).wf(),
            final(basis_values).len() == self.space.element_shape_spec(
                self.element_index as int,
            ).num_nodes_spec(),
            final(basis_values).den == basis_den(
                self.space.element_shape_spec(self.element_index as int),
                reference_coords.den as int,
            ),
            forall|i: int|
                0 <= i < final(basis_values).len() ==> final(basis_values).entry(i) == basis_num(
                    self.space.element_shape_spec(self.element_index as int),
                    i,
                    ints(*reference_coords),
                    reference_coords.den as int,
                ),
    {
        self.space.populate_element_basis(self.element_index, basis_values, reference_coords)
    }

    pub fn populate_basis_gradients(&self, basis_gradients: &mut MatR, reference_coords: &RVec)
        requires
            self.view_wf(),
            eval_point_ok(
                self.space.element_shape_spec(self.element_index as int),
                *reference_coords,
            ),
        ensures
            final(basis_gradients).wf(),
            final(basis_gradients).nrows == self.space.element_shape_spec(
                self.element_index as int,
            ).reference_dim_spec(),
            final(basis_gradients).ncols == self.space.element_shape_spec(
                self.element_index as int,
            ).num_nodes_spec(),
            final(basis_gradients).den == grad_den(
                self.space.element_shape_spec(self.element_index as int),
                reference_coords.den as int,
            ),
            forall|i: int, k: int|
                0 <= i < final(basis_gradients).ncols && 0 <= k < final(basis_gradients).nrows
                    ==> #[trigger] mat_num(*final(basis_gradients), k, i) == grad_num(
                    self.space.element_shape_spec(self.element_index as int),
                    i,
                    k,
                    ints(*reference_coords),
                    reference_coords.den as int,
                ),
    {
        self.space.populate_element_gradients(self.element_index, basis_gradients, reference_coords)
    }

    pub fn reference_jacobian(&self, reference_coords: &RVec) -> (r: MatR)
        requires
            self.view_wf(),
            eval_point_ok(
                self.space.element_shape_spec(self.element_index as int),
                *reference_coords,
            ),
        ensures
            r.wf(),
            r.nrows == self.space.geometry_dim_trait_spec(),
            r.ncols == self.space.reference_dim_trait_spec(),
            r.den == grad_den(
                self.space.element_shape_spec(self.element_index as int),
                reference_coords.den as int,
            ) * self.space.element_vden_spec(self.element_index as int),
            forall|l: int, k: int|
                {
                    let shape = self.space.element_shape_spec(self.element_index as int);
                    let n = shape.num_nodes_spec();
                    0 <= l < r.nrows && 0 <= k < r.ncols ==> #[trigger] mat_num(r, l, k)
                        == dot_prefix(
                        Seq::new(
                            n,
                            |i: int|
                                grad_num(shape, i, k, ints(*reference_coords),
                                reference_coords.den as int),
                        ),
                        Seq::new(
                            n,
                            |i: int|
                                self.space.element_vertex_spec(self.element_index as int, l, i),
                        ),
                        n as int,
                    )
                },
    {
        self.space.element_reference_jacobian(self.element_index, reference_coords)
    }

    pub fn map_reference_coords(&self, reference_coords: &RVec) -> (r: RVec)
        requires
            self.view_wf(),
            eval_point_ok(
                self.space.element_shape_spec(self.element_index as int),
                *reference_coords,
            ),
        ensures
            r.wf(),
            r.len() == self.space.geometry_dim_trait_spec(),
            r.den == basis_den(
                self.space.element_shape_spec(self.element_index as int),
                reference_coords.den as int,
            ) * self.space.element_vden_spec(self.element_index as int),
            forall|k: int|
                {
                    let shape = self.space.element_shape_spec(self.element_index as int);
                    let n = shape.num_nodes_spec();
                    0 <= k < r.len() ==> #[trigger] r.entry(k) == dot_prefix(
                        Seq::new(
                            n,
                            |i: int|
                                basis_num(shape, i, ints(*reference_coords),
                                reference_coords.den as int),
                        ),
                        Seq::new(
                            n,
                            |i: int|
                                self.space.element_vertex_spec(self.element_index as int, k, i),
                        ),
                        n as int,
                    )
                },
    {
        self.space.map_element_reference_coords(self.element_index, reference_coords)
    }

    pub fn diameter_squared(&self) -> (r: Rational)
        requires
            self.view_wf(),
        ensures
            r.wf(),
            r.den as int == self.space.element_vden_spec(self.element_index as int)
                * self.space.element_vden_spec(self.element_index as int),
            forall|i: int, j: int|
                0 <= i < self.space.element_shape_spec(self.element_index as int).num_nodes_spec()
                    && 0 <= j < self.space.element_shape_spec(
                    self.element_index as int,
                ).num_nodes_spec() ==> #[trigger] self.space.element_vertex_dist2_spec(
                    self.element_index as int,
                    i,
                    j,
                ) <= r.num,
            exists|i: int, j: int|
                0 <= i < self.space.element_shape_spec(self.element_index as int).num_nodes_spec()
                    && 0 <= j < self.space.element_shape_spec(
                    self.element_index as int,
                ).num_nodes_spec() && #[trigger] self.space.element_vertex_dist2_spec(
                    self.element_index as int,
                    i,
                    j,
                ) == r.num,
    {
        self.space.diameter_squared(self.element_index)
    }
}

/// An axis-aligned bounding box with exact corners: `min` and `max` share the
/// element's coordinate denominator.
#[derive(Clone, Debug)]
pub struct AxisAlignedBoundingBox {
    pub min: RVec,
    pub max: RVec,
}

/// The scalar `x` occurs among the entries of `col`.
pub open spec fn attains(x: i128, col: Seq<i128>) -> bool {
    exists|i: int| 0 <= i < col.len() && x == #[trigger] col[i]
}

/// The bounding box of the vertices of `el`: componentwise minima and maxima
/// over the element's vertex coordinates (over the shared denominator).
pub open spec fn aabb_of_element(bounds: AxisAlignedBoundingBox, el: Element) -> bool {
    &&& bounds.min.wf()
    &&& bounds.max.wf()
    &&& bounds.min.len() == el.shape.geometry_dim_spec()
    &&& bounds.max.len() == el.shape.geometry_dim_spec()
    &&& bounds.min.den == el.vden
    &&& bounds.max.den == el.vden
    &&& forall|k: int, i: int|
        0 <= k < el.coords@.len() && 0 <= i < el.coords@[k]@.len() ==> bounds.min.entry(k)
            <= #[trigger] el.coords@[k]@[i] as int <= bounds.max.entry(k)
    &&& forall|k: int|
        0 <= k < el.coords@.len() ==> attains(bounds.min.nums@[k], #[trigger] el.coords@[k]@)
    &&& forall|k: int|
        0 <= k < el.coords@.len() ==> attains(bounds.max.nums@[k], #[trigger] el.coords@[k]@)
}

/// Compute the exact axis-aligned bounding box of a geometric element.
pub fn element_bounds(el: &Element) -> (r: AxisAlignedBoundingBox)
    requires
        el.wf(),
    ensures
        aabb_of_element(r, *el),
        forall|k: int|
            0 <= k < el.coords@.len() ==> #[trigger] r.min.nums@[k] as int == min_prefix(
                seq_ints(el.coords@[k]@),
                el.shape.num_nodes_spec() as int,
            ),
        forall|k: int|
            0 <= k < el.coords@.len() ==> #[trigger] r.max.nums@[k] as int == max_prefix(
                seq_ints(el.coords@[k]@),
                el.shape.num_nodes_spec() as int,
            ),
{
    let g = el.shape.geometry_dim();
    let n = el.shape.num_nodes();
    let mut mins: Vec<i128> = Vec::new();
    let mut maxs: Vec<i128> = Vec::new();
    let mut k: usize = 0;
    while k < g
        invariant
            el.wf(),
            g == el.shape.geometry_dim_spec(),
            n == el.shape.num_nodes_spec(),
            n >= 1,
            k <= g,
            mins@.len() == k,
            maxs@.len() == k,
            forall|kk: int, i: int|
                0 <= kk < k && 0 <= i < el.coords@[kk]@.len() ==> mins@[kk] as int
                    <= #[trigger] el.coords@[kk]@[i] as int <= maxs@[kk] as int,
            forall|kk: int| 0 <= kk < k ==> attains(mins@[kk], #[trigger] el.coords@[kk]@),
            forall|kk: int| 0 <= kk < k ==> attains(maxs@[kk], #[trigger] el.coords@[kk]@),
            forall|kk: int|
                0 <= kk < k ==> #[trigger] mins@[kk] as int == min_prefix(
                    seq_ints(el.coords@[kk]@),
                    n as int,
                ),
            forall|kk: int|
                0 <= kk < k ==> #[trigger] maxs@[kk] as int == max_prefix(
                    seq_ints(el.coords@[kk]@),
                    n as int,
                ),
        decreases g - k,
    {
        let mut lo = el.coords[k][0];
        let mut hi = el.coords[k][0];
        let mut i: usize = 1;
        while i < n
            invariant
                el.wf(),
                g == el.shape.geometry_dim_spec(),
                n == el.shape.num_nodes_spec(),
                k < g,
                1 <= i <= n,
                forall|ii: int|
                    0 <= ii < i ==> lo as int <= #[trigger] el.coords@[k as int]@[ii] as int,
                forall|ii: int|
                    0 <= ii < i ==> hi as int >= #[trigger] el.coords@[k as int]@[ii] as int,
                exists|ii: int| 0 <= ii < i && lo == #[trigger] el.coords@[k as int]@[ii],
                exists|ii: int| 0 <= ii < i && hi == #[trigger] el.coords@[k as int]@[ii],
                el.coords@[k as int]@.len() == n,
                lo as int == min_prefix(seq_ints(el.coords@[k as int]@), i as int),
                hi as int == max_prefix(seq_ints(el.coords@[k as int]@), i as int),
            decreases n - i,
        {
            let c = el.coords[k][i];
            if c < lo {
                lo = c;
            }
            if c > hi {
                hi = c;
            }
            i = i + 1;
        }
        mins.push(lo);
        maxs.push(hi);
        proof {
            let wi = choose|ii: int| 0 <= ii < i && lo == #[trigger] el.coords@[k as int]@[ii];
            assert(mins@[k as int] == el.coords@[k as int]@[wi]);
            assert(attains(mins@[k as int], el.coords@[k as int]@));
            let wj = choose|ii: int| 0 <= ii < i && hi == #[trigger] el.coords@[k as int]@[ii];
            assert(maxs@[k as int] == el.coords@[k as int]@[wj]);
            assert(attains(maxs@[k as int], el.coords@[k as int]@));
        }
        k = k + 1;
    }
    AxisAlignedBoundingBox {
        min: RVec { nums: mins, den: el.vden },
        max: RVec { nums: maxs, den: el.vden },
    }
}

/// A finite element space that can be queried for the exact bounding boxes of
/// its individual elements.
pub trait BoundsForElementInSpace: GeometricFiniteElementSpace {
    fn bounds_for_element(&self, element_index: usize) -> (r: AxisAlignedBoundingBox)
        requires
            self.connectivity_wf(),
            element_index < self.num_elements_spec(),
        ensures
            r.min.wf(),
            r.max.wf(),
            r.min.len() == self.geometry_dim_trait_spec(),
            r.max.len() == self.geometry_dim_trait_spec(),
            r.min.den as int == self.element_vden_spec(element_index as int),
            r.max.den as int == self.element_vden_spec(element_index as int),
            forall|k: int, node: int|
                {
                    let shape = self.element_shape_spec(element_index as int);
                    0 <= k < shape.geometry_dim_spec() && 0 <= node < shape.num_nodes_spec()
                        ==> r.min.entry(k) <= #[trigger] self.element_vertex_spec(
                        element_index as int,
                        k,
                        node,
                    ) <= r.max.entry(k)
                },
            forall|k: int|
                0 <= k < self.geometry_dim_trait_spec() ==> #[trigger] r.min.nums@[k] as int
                    == min_prefix(
                    Seq::new(
                        self.element_shape_spec(element_index as int).num_nodes_spec(),
                        |node: int| self.element_vertex_spec(element_index as int, k, node),
                    ),
                    self.element_shape_spec(element_index as int).num_nodes_spec() as int,
                ),
            forall|k: int|
                0 <= k < self.geometry_dim_trait_spec() ==> #[trigger] r.max.nums@[k] as int
                    == max_prefix(
                    Seq::new(
                        self.element_shape_spec(element_index as int).num_nodes_spec(),
                        |node: int| self.element_vertex_spec(element_index as int, k, node),
                    ),
                    self.element_shape_spec(element_index as int).num_nodes_spec() as int,
                ),
    ;

    /// Fill `bounds` with the bounding box of every element, in element
    /// order, replacing its previous contents.
    fn populate_bounds_for_all_elements(&self, bounds: &mut Vec<AxisAlignedBoundingBox>)
        requires
            self.connectivity_wf(),
        ensures
            final(bounds)@.len() == self.num_elements_spec(),
            forall|e: int, k: int, node: int|
                {
                    let shape = self.element_shape_spec(e);
                    let bxs = final(bounds)@;
                    0 <= e < bxs.len() && 0 <= k < shape.geometry_dim_spec() && 0 <= node
                        < shape.num_nodes_spec() ==> bxs[e].min.entry(k)
                        <= #[trigger] self.element_vertex_spec(e, k, node) <= bxs[e].max.entry(k)
                },
            forall|e: int, k: int|
                0 <= e < final(bounds)@.len() && 0 <= k < self.geometry_dim_trait_spec()
                    ==> (#[trigger] final(bounds)@[e].min.nums@[k]) as int == min_prefix(
                    Seq::new(
                        self.element_shape_spec(e).num_nodes_spec(),
                        |node: int| self.element_vertex_spec(e, k, node),
                    ),
                    self.element_shape_spec(e).num_nodes_spec() as int,
                ) && (final(bounds)@[e].max.nums@[k]) as int == max_prefix(
                    Seq::new(
                        self.element_shape_spec(e).num_nodes_spec(),
                        |node: int| self.element_vertex_spec(e, k, node),
                    ),
                    self.element_shape_spec(e).num_nodes_spec() as int,
                ),
    ;

    /// The bounding boxes of all elements, in element order.
    fn bounds_for_all_elements(&self) -> (r: Vec<AxisAlignedBoundingBox>)
        requires
            self.connectivity_wf(),
        ensures
            r@.len() == self.num_elements_spec(),
            forall|e: int, k: int, node: int|
                {
                    let shape = self.element_shape_spec(e);
                    0 <= e < r@.len() && 0 <= k < shape.geometry_dim_spec() && 0 <= node
                        < shape.num_nodes_spec() ==> r@[e].min.entry(k)
                        <= #[trigger] self.element_vertex_spec(e, k, node) <= r@[e].max.entry(k)
                },
            forall|e: int, k: int|
                0 <= e < r@.len() && 0 <= k < self.geometry_dim_trait_spec()
                    ==> (#[trigger] r@[e].min.nums@[k]) as int == min_prefix(
                    Seq::new(
                        self.element_shape_spec(e).num_nodes_spec(),
                        |node: int| self.element_vertex_spec(e, k, node),
                    ),
                    self.element_shape_spec(e).num_nodes_spec() as int,
                ) && (r@[e].max.nums@[k]) as int == max_prefix(
                    Seq::new(
                        self.element_shape_spec(e).num_nodes_spec(),
                        |node: int| self.element_vertex_spec(e, k, node),
                    ),
                    self.element_shape_spec(e).num_nodes_spec() as int,
                ),
    ;
}

/// A single-shape volumetric mesh: a shared vertex buffer plus one node-index
/// list per element. This is the library's concrete finite element space.
#[derive(Clone, Debug)]
pub struct Mesh {
    pub shape: ElementShape,
    pub coords: Vec<Vec<i128>>,
    pub vden: i128,
    pub connectivity: Vec<Vec<usize>>,
}

impl Mesh {
    /// Structural invariant: volumetric shape, one coordinate row per
    /// dimension over the shared vertex buffer, bounded coordinates, and
    /// in-range connectivity of the shape's node count.
    pub open spec fn wf(self) -> bool {
        &&& self.vden > 0
        &&& self.vden <= VERTEX_LIMIT
        &&& self.shape.geometry_dim_spec() == self.shape.reference_dim_spec()
        &&& self.coords@.len() == self.shape.geometry_dim_spec()
        &&& forall|k: int, i: int|
            0 <= k < self.coords@.len() && 0 <= i < self.coords@[k]@.len() ==> iabs(
                #[trigger] self.coords@[k]@[i] as int,
            ) <= VERTEX_LIMIT
        &&& forall|k: int|
            0 <= k < self.coords@.len() ==> (#[trigger] self.coords@[k])@.len()
                == self.coords@[0]@.len()
        &&& forall|e: int|
            0 <= e < self.connectivity@.len() ==> (#[trigger] self.connectivity@[e])@.len()
                == self.shape.num_nodes_spec()
        &&& forall|e: int, node: int|
            0 <= e < self.connectivity@.len() && 0 <= node < self.connectivity@[e]@.len()
                ==> (#[trigger] self.connectivity@[e]@[node]) < self.coords@[0]@.len()
    }

    /// Gather the geometric element at an index out of the vertex buffer.
    pub fn gather_element(&self, element_index: usize) -> (el: Element)
        requires
            self.wf(),
            element_index < self.connectivity@.len(),
        ensures
            el.wf(),
            el.shape == self.shape,
            el.vden == self.vden,
            el.coords@.len() == self.shape.geometry_dim_spec(),
            forall|k: int, node: int|
                0 <= k < el.coords@.len() && 0 <= node < el.coords@[k]@.len()
                    ==> #[trigger] el.coords@[k]@[node] as int == self.element_vertex_spec(
                    element_index as int,
                    k,
                    node,
                ),
    {
        let g = self.shape.geometry_dim();
        let n = self.shape.num_nodes();
        let conn = &self.connectivity[element_index];
        let mut coords: Vec<Vec<i128>> = Vec::new();
        let mut k: usize = 0;
        while k < g
            invariant
                self.wf(),
                element_index < self.connectivity@.len(),
                g == self.shape.geometry_dim_spec(),
                n == self.shape.num_nodes_spec(),
                conn == self.connectivity@[element_index as int],
                k <= g,
                coords@.len() == k,
                forall|kk: int|
                    0 <= kk < k ==> (#[trigger] coords@[kk])@.len()
                        == self.shape.num_nodes_spec(),
                forall|kk: int, node: int|
                    0 <= kk < k && 0 <= node < coords@[kk]@.len()
                        ==> #[trigger] coords@[kk]@[node] as int == self.element_vertex_spec(
                        element_index as int,
                        kk,
                        node,
                    ),
                forall|kk: int, node: int|
                    0 <= kk < k && 0 <= node < coords@[kk]@.len() ==> iabs(
                        #[trigger] coords@[kk]@[node] as int,
                    ) <= VERTEX_LIMIT,
            decreases g - k,
        {
            let mut row: Vec<i128> = Vec::new();
            let mut node: usize = 0;
            while node < n
                invariant
                    self.wf(),
                    element_index < self.connectivity@.len(),
                    g == self.shape.geometry_dim_spec(),
                    n == self.shape.num_nodes_spec(),
                    conn == self.connectivity@[element_index as int],
                    k < g,
                    node <= n,
                    row@.len() == node,
                    forall|nn: int|
                        0 <= nn < node ==> #[trigger] row@[nn] as int == self.element_vertex_spec(
                            element_index as int,
                            k as int,
                            nn,
                        ),
                    forall|nn: int|
                        0 <= nn < node ==> iabs(#[trigger] row@[nn] as int) <= VERTEX_LIMIT,
                decreases n - node,
            {
                row.push(self.coords[k][conn[node]]);
                node = node + 1;
            }
            coords.push(row);
            k = k + 1;
        }
        Element { shape: self.shape, coords, vden: self.vden }
    }
}

impl FiniteElementConnectivity for Mesh {
    open spec fn connectivity_wf(&self) -> bool {
        self.wf()
    }

    open spec fn num_elements_spec(&self) -> nat {
        self.connectivity@.len()
    }

    open spec fn num_nodes_spec(&self) -> nat {
        self.coords@[0]@.len()
    }

    open spec fn element_node_count_spec(&self, element_index: int) -> nat {
        self.shape.num_nodes_spec()
    }

    open spec fn element_node_spec(&self, element_index: int, local: int) -> int {
        self.connectivity@[element_index]@[local] as int
    }

    fn num_elements(&self) -> usize {
        self.connectivity.len()
    }

    fn num_nodes(&self) -> usize {
        self.coords[0].len()
    }

    fn element_node_count(&self, element_index: usize) -> usize {
        self.shape.num_nodes()
    }

    fn populate_element_nodes(&self, nodes: &mut Vec<usize>, element_index: usize) {
        let n = self.shape.num_nodes();
        let conn = &self.connectivity[element_index];
        nodes.clear();
        let mut i: usize = 0;
        while i < n
            invariant
                self.wf(),
                element_index < self.connectivity@.len(),
                n == self.shape.num_nodes_spec(),
                conn == self.connectivity@[element_index as int],
                i <= n,
                nodes@.len() == i,
                forall|j: int|
                    0 <= j < i ==> #[trigger] nodes@[j] as int == self.element_node_spec(
                        element_index as int,
                        j,
                    ) && nodes@[j] < self.num_nodes_spec(),
            decreases n - i,
        {
            nodes.push(conn[i]);
            i = i + 1;
        }
    }
}

impl FiniteElementSpace for Mesh {
    open spec fn geometry_dim_trait_spec(&self) -> nat {
        self.shape.geometry_dim_spec()
    }

    open spec fn reference_dim_trait_spec(&self) -> nat {
        self.shape.reference_dim_spec()
    }

    open spec fn element_shape_spec(&self, element_index: int) -> ElementShape {
        self.shape
    }

    open spec fn element_vden_spec(&self, element_index: int) -> int {
        self.vden as int
    }

    open spec fn element_vertex_spec(&self, element_index: int, k: int, node: int) -> int {
        self.coords@[k]@[self.connectivity@[element_index]@[node] as int] as int
    }

    open spec fn element_vertex_dist2_spec(&self, element_index: int, i: int, j: int) -> int {
        sum_prefix(
            Seq::new(
                self.shape.geometry_dim_spec(),
                |k: int|
                    (self.element_vertex_spec(element_index, k, i) - self.element_vertex_spec(
                        element_index,
                        k,
                        j,
                    )) * (self.element_vertex_spec(element_index, k, i)
                        - self.element_vertex_spec(element_index, k, j)),
            ),
            self.shape.geometry_dim_spec() as int,
        )
    }

    proof fn vertex_dist2_consistent(&self, element_index: int, i: int, j: int) {
    }

    fn element_shape(&self, element_index: usize) -> ElementShape {
        self.shape
    }

    fn populate_element_basis(
        &self,
        element_index: usize,
        basis_values: &mut RVec,
        reference_coords: &RVec,
    ) {
        let phi = evaluate_basis(self.shape, reference_coords);
        *basis_values = phi;
    }

    fn populate_element_gradients(
        &self,
        element_index: usize,
        gradients: &mut MatR,
        reference_coords: &RVec,
    ) {
        let g = evaluate_gradients(self.shape, reference_coords);
        *gradients = g;
    }

    fn element_reference_jacobian(&self, element_index: usize, reference_coords: &RVec) -> (r:
        MatR) {
        let el = self.gather_element(element_index);
        let r = reference_jacobian(&el, reference_coords);
        proof {
            let shape = self.shape;
            let n = shape.num_nodes_spec();
            assert forall|l: int, k: int| 0 <= l < r.nrows && 0 <= k < r.ncols implies
                #[trigger] mat_num(r, l, k) == dot_prefix(
                Seq::new(
                    n,
                    |i: int|
                        grad_num(shape, i, k, ints(*reference_coords), reference_coords.den as int),
                ),
                Seq::new(n, |i: int| self.element_vertex_spec(element_index as int, l, i)),
                n as int,
            ) by {
                let sv1 = Seq::new(n, |i: int| el.vertex_num(l, i));
                let sv2 = Seq::new(n, |i: int| self.element_vertex_spec(element_index as int, l, i));
                assert forall|i: int| 0 <= i < n implies sv1[i] == sv2[i] by {
                    assert(el.coords@[l]@[i] as int == self.element_vertex_spec(
                        element_index as int,
                        l,
                        i,
                    ));
                }
                assert(sv1 =~= sv2);
            }
        }
        r
    }

    fn map_element_reference_coords(&self, element_index: usize, reference_coords: &RVec) -> (r:
        RVec) {
        let el = self.gather_element(element_index);
        let r = map_reference_coords(&el, reference_coords);
        proof {
            let shape = self.shape;
            let n = shape.num_nodes_spec();
            assert forall|k: int| 0 <= k < r.len() implies r.entry(k) == dot_prefix(
                Seq::new(
                    n,
                    |i: int|
                        basis_num(shape, i, ints(*reference_coords), reference_coords.den as int),
                ),
                Seq::new(n, |i: int| self.element_vertex_spec(element_index as int, k, i)),
                n as int,
            ) by {
                let sv1 = Seq::new(n, |i: int| el.vertex_num(k, i));
                let sv2 = Seq::new(n, |i: int| self.element_vertex_spec(element_index as int, k, i));
                assert forall|i: int| 0 <= i < n implies sv1[i] == sv2[i] by {
                    assert(el.coords@[k]@[i] as int == self.element_vertex_spec(
                        element_index as int,
                        k,
                        i,
                    ));
                }
                assert(sv1 =~= sv2);
            }
        }
        r
    }

    fn diameter_squared(&self, element_index: usize) -> (r: Rational) {
        let el = self.gather_element(element_index);
        let r = diameter_squared(&el);
        proof {
            let e = element_index as int;
            let n = self.shape.num_nodes_spec();
            assert forall|i: int, j: int| 0 <= i < n && 0 <= j < n implies #[trigger] self.element_vertex_dist2_spec(
                e,
                i,
                j,
            ) == vertex_dist2_num(el, i, j) && self.element_vertex_dist2_spec(e, i, j)
                <= r.num by {
                assert(vertex_dist2_num(el, i, j) <= r.num);
                let s1 = Seq::new(
                    el.shape.geometry_dim_spec(),
                    |k: int|
                        (el.vertex_num(k, i) - el.vertex_num(k, j)) * (el.vertex_num(k, i)
                            - el.vertex_num(k, j)),
                );
                let s2 = Seq::new(
                    self.shape.geometry_dim_spec(),
                    |k: int|
                        (self.element_vertex_spec(e, k, i) - self.element_vertex_spec(e, k, j)) * (
                        self.element_vertex_spec(e, k, i) - self.element_vertex_spec(e, k, j)),
                );
                assert forall|k: int| 0 <= k < s1.len() implies s1[k] == s2[k] by {
                    assert(el.coords@[k]@[i] as int == self.element_vertex_spec(e, k, i));
                    assert(el.coords@[k]@[j] as int == self.element_vertex_spec(e, k, j));
                }
                assert(s1 =~= s2);
            }
            let (wi, wj) = choose|wi: int, wj: int|
                0 <= wi < n && 0 <= wj < n && #[trigger] vertex_dist2_num(el, wi, wj) == r.num;
            assert(self.element_vertex_dist2_spec(e, wi, wj) == r.num);
        }
        r
    }
}

impl VolumetricFiniteElementSpace for Mesh {
    proof fn volumetric_dims(&self) {
    }
}

impl GeometricFiniteElementSpace for Mesh {
    fn geometry_for_element(&self, element_index: usize) -> (el: Element) {
        self.gather_element(element_index)
    }
}

impl BoundsForElementInSpace for Mesh {
    fn bounds_for_element(&self, element_index: usize) -> (r: AxisAlignedBoundingBox) {
        let el = self.gather_element(element_index);
        let r = element_bounds(&el);
        proof {
            let e = element_index as int;
            let n = self.shape.num_nodes_spec();
            assert forall|k: int| 0 <= k < self.geometry_dim_trait_spec() implies (
            #[trigger] r.min.nums@[k]) as int == min_prefix(
                Seq::new(n, |node: int| self.element_vertex_spec(e, k, node)),
                n as int,
            ) && (r.max.nums@[k]) as int == max_prefix(
                Seq::new(n, |node: int| self.element_vertex_spec(e, k, node)),
                n as int,
            ) by {
                let s1 = seq_ints(el.coords@[k]@);
                let s2 = Seq::new(n, |node: int| self.element_vertex_spec(e, k, node));
                assert forall|node: int| 0 <= node < n implies s1[node] == s2[node] by {
                    assert(el.coords@[k]@[node] as int == self.element_vertex_spec(e, k, node));
                }
                assert(s1 =~= s2);
            }
            assert forall|k: int, node: int|
                {
                    let shape = self.element_shape_spec(element_index as int);
                    0 <= k < shape.geometry_dim_spec() && 0 <= node < shape.num_nodes_spec()
                        ==> r.min.entry(k) <= #[trigger] self.element_vertex_spec(
                        element_index as int,
                        k,
                        node,
                    ) <= r.max.entry(k)
                } by {
                let shape = self.element_shape_spec(element_index as int);
                if 0 <= k < shape.geometry_dim_spec() && 0 <= node < shape.num_nodes_spec() {
                    assert(el.coords@[k]@[node] as int == self.element_vertex_spec(
                        element_index as int,
                        k,
                        node,
                    ));
                }
            }
        }
        r
    }

    fn populate_bounds_for_all_elements(&self, bounds: &mut Vec<AxisAlignedBoundingBox>) {
        bounds.clear();
        let ne = self.connectivity.len();
        let mut e: usize = 0;
        while e < ne
            invariant
                self.wf(),
                ne == self.num_elements_spec(),
                e <= ne,
                bounds@.len() == e,
                forall|ee: int, k: int, node: int|
                    {
                        let shape = self.element_shape_spec(ee);
                        0 <= ee < e && 0 <= k < shape.geometry_dim_spec() && 0 <= node
                            < shape.num_nodes_spec() ==> bounds@[ee].min.entry(k)
                            <= #[trigger] self.element_vertex_spec(ee, k, node)
                            <= bounds@[ee].max.entry(k)
                    },
                forall|ee: int, k: int|
                    0 <= ee < e && 0 <= k < self.geometry_dim_trait_spec()
                        ==> (#[trigger] bounds@[ee].min.nums@[k]) as int == min_prefix(
                        Seq::new(
                            self.element_shape_spec(ee).num_nodes_spec(),
                            |node: int| self.element_vertex_spec(ee, k, node),
                        ),
                        self.element_shape_spec(ee).num_nodes_spec() as int,
                    ) && (bounds@[ee].max.nums@[k]) as int == max_prefix(
                        Seq::new(
                            self.element_shape_spec(ee).num_nodes_spec(),
                            |node: int| self.element_vertex_spec(ee, k, node),
                        ),
                        self.element_shape_spec(ee).num_nodes_spec() as int,
                    ),
            decreases ne - e,
        {
            let b = self.bounds_for_element(e);
            bounds.push(b);
            e = e + 1;
        }
    }

    fn bounds_for_all_elements(&self) -> (r: Vec<AxisAlignedBoundingBox>) {
        let mut r: Vec<AxisAlignedBoundingBox> = Vec::new();
        self.populate_bounds_for_all_elements(&mut r);
        r
    }
}

} // verus!
