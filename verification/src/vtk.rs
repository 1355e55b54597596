//! Cell connectivity in the layout of VTK visualization files.
//!
//! Each supported cell family maps to a VTK cell kind, and writes its node
//! indices in the node order of that kind; for the quadratic families whose
//! native node ordering differs from the VTK convention, the written
//! connectivity is an exactly specified permutation. This module computes the
//! plain index and coordinate buffers only; an unverified adapter turns them
//! into the file format's own data structures and writes them out.

use vstd::prelude::*;
use crate::rational::{iabs, mat_num, MatR, RVec, Rational};
use crate::element::{
    eval_point_ok, grad_den, grad_num, ints, lemma_dens_small, lemma_grad_num_small, mul_bound,
    mul_pos,
};
use crate::geometry::{
    det2, jacobian_num, map_den, map_num, map_reference_coords, reference_jacobian, Element,
    DET2_ENTRY_LIMIT,
};
use crate::error::{l2_det_num, ERROR_VERTEX_LIMIT};
use crate::operators::collect_block;
use crate::quadrature::{rule_point, QuadratureRule};
use crate::rational::{lemma_dot_prefix_bound, mul_le_mono, seq_ints};

verus! {

/// The VTK cell kind a connectivity is written as.
#[derive(Copy, Clone, PartialEq, Eq, Structural, Debug)]
pub enum CellKind {
    Line,
    Triangle,
    QuadraticTriangle,
    Quad,
    QuadraticQuad,
    Tetra,
    Hexahedron,
    QuadraticTetra,
    QuadraticHexahedron,
}

/// Connectivity that can be written to VTK buffers.
pub trait VtkCellConnectivity {
    /// Structural invariant (the stored index list has the family's length).
    spec fn conn_wf(&self) -> bool;

    /// The stored node indices.
    spec fn vertex_indices_spec(&self) -> Seq<usize>;

    /// How many nodes are written to VTK (for most families, all of them).
    spec fn vtk_node_count_spec(&self) -> nat;

    /// The node indices in VTK order.
    spec fn vtk_connectivity_spec(&self) -> Seq<usize>;

    /// The VTK cell kind this connectivity is written as.
    spec fn cell_kind_spec(&self) -> CellKind;

    fn num_nodes(&self) -> (n: usize)
        requires
            self.conn_wf(),
        ensures
            n == self.vtk_node_count_spec(),
    ;

    fn cell_type(&self) -> (k: CellKind)
        ensures
            k == self.cell_kind_spec(),
    ;

    /// Write the connectivity in VTK node order, replacing the contents of
    /// `connectivity`.
    fn write_vtk_connectivity(&self, connectivity: &mut Vec<usize>)
        requires
            self.conn_wf(),
        ensures
            final(connectivity)@ == self.vtk_connectivity_spec(),
            final(connectivity)@.len() == self.vtk_node_count_spec(),
    ;
}

/// 2-node connectivity whose node order already matches the VTK convention.
#[derive(Clone, Debug)]
pub struct Segment2d2Connectivity(pub Vec<usize>);

impl VtkCellConnectivity for Segment2d2Connectivity {
    open spec fn conn_wf(&self) -> bool {
        self.0@.len() == 2
    }

    open spec fn vertex_indices_spec(&self) -> Seq<usize> {
        self.0@
    }

    open spec fn vtk_node_count_spec(&self) -> nat {
        2
    }

    open spec fn vtk_connectivity_spec(&self) -> Seq<usize> {
        self.0@
    }

    fn num_nodes(&self) -> usize {
        2
    }

    open spec fn cell_kind_spec(&self) -> CellKind {
        CellKind::Line
    }

    fn cell_type(&self) -> CellKind {
        CellKind::Line
    }

    fn write_vtk_connectivity(&self, connectivity: &mut Vec<usize>) {
        connectivity.clear();
        let mut i: usize = 0;
        while i < 2
            invariant
                self.conn_wf(),
                i <= 2,
                connectivity@.len() == i,
                forall|j: int| 0 <= j < i ==> #[trigger] connectivity@[j] == self.0@[j],
            decreases 2 - i,
        {
            connectivity.push(self.0[i]);
            i = i + 1;
        }
        proof {
            assert(connectivity@ =~= self.vtk_connectivity_spec());
        }
    }
}

/// 3-node connectivity whose node order already matches the VTK convention.
#[derive(Clone, Debug)]
pub struct Tri3d2Connectivity(pub Vec<usize>);

impl VtkCellConnectivity for Tri3d2Connectivity {
    open spec fn conn_wf(&self) -> bool {
        self.0@.len() == 3
    }

    open spec fn vertex_indices_spec(&self) -> Seq<usize> {
        self.0@
    }

    open spec fn vtk_node_count_spec(&self) -> nat {
        3
    }

    open spec fn vtk_connectivity_spec(&self) -> Seq<usize> {
        self.0@
    }

    fn num_nodes(&self) -> usize {
        3
    }

    open spec fn cell_kind_spec(&self) -> CellKind {
        CellKind::Triangle
    }

    fn cell_type(&self) -> CellKind {
        CellKind::Triangle
    }

    fn write_vtk_connectivity(&self, connectivity: &mut Vec<usize>) {
        connectivity.clear();
        let mut i: usize = 0;
        while i < 3
            invariant
                self.conn_wf(),
                i <= 3,
                connectivity@.len() == i,
                forall|j: int| 0 <= j < i ==> #[trigger] connectivity@[j] == self.0@[j],
            decreases 3 - i,
        {
            connectivity.push(self.0[i]);
            i = i + 1;
        }
        proof {
            assert(connectivity@ =~= self.vtk_connectivity_spec());
        }
    }
}

/// 6-node connectivity whose node order already matches the VTK convention.
#[derive(Clone, Debug)]
pub struct Tri6d2Connectivity(pub Vec<usize>);

impl VtkCellConnectivity for Tri6d2Connectivity {
    open spec fn conn_wf(&self) -> bool {
        self.0@.len() == 6
    }

    open spec fn vertex_indices_spec(&self) -> Seq<usize> {
        self.0@
    }

    open spec fn vtk_node_count_spec(&self) -> nat {
        6
    }

    open spec fn vtk_connectivity_spec(&self) -> Seq<usize> {
        self.0@
    }

    fn num_nodes(&self) -> usize {
        6
    }

    open spec fn cell_kind_spec(&self) -> CellKind {
        CellKind::QuadraticTriangle
    }

    fn cell_type(&self) -> CellKind {
        CellKind::QuadraticTriangle
    }

    fn write_vtk_connectivity(&self, connectivity: &mut Vec<usize>) {
        connectivity.clear();
        let mut i: usize = 0;
        while i < 6
            invariant
                self.conn_wf(),
                i <= 6,
                connectivity@.len() == i,
                forall|j: int| 0 <= j < i ==> #[trigger] connectivity@[j] == self.0@[j],
            decreases 6 - i,
        {
            connectivity.push(self.0[i]);
            i = i + 1;
        }
        proof {
            assert(connectivity@ =~= self.vtk_connectivity_spec());
        }
    }
}

/// 4-node connectivity whose node order already matches the VTK convention.
#[derive(Clone, Debug)]
pub struct Quad4d2Connectivity(pub Vec<usize>);

impl VtkCellConnectivity for Quad4d2Connectivity {
    open spec fn conn_wf(&self) -> bool {
        self.0@.len() == 4
    }

    open spec fn vertex_indices_spec(&self) -> Seq<usize> {
        self.0@
    }

    open spec fn vtk_node_count_spec(&self) -> nat {
        4
    }

    open spec fn vtk_connectivity_spec(&self) -> Seq<usize> {
        self.0@
    }

    fn num_nodes(&self) -> usize {
        4
    }

    open spec fn cell_kind_spec(&self) -> CellKind {
        CellKind::Quad
    }

    fn cell_type(&self) -> CellKind {
        CellKind::Quad
    }

    fn write_vtk_connectivity(&self, connectivity: &mut Vec<usize>) {
        connectivity.clear();
        let mut i: usize = 0;
        while i < 4
            invariant
                self.conn_wf(),
                i <= 4,
                connectivity@.len() == i,
                forall|j: int| 0 <= j < i ==> #[trigger] connectivity@[j] == self.0@[j],
            decreases 4 - i,
        {
            connectivity.push(self.0[i]);
            i = i + 1;
        }
        proof {
            assert(connectivity@ =~= self.vtk_connectivity_spec());
        }
    }
}

/// 9-node connectivity whose node order already matches the VTK convention.
#[derive(Clone, Debug)]
pub struct Quad9d2Connectivity(pub Vec<usize>);

impl VtkCellConnectivity for Quad9d2Connectivity {
    open spec fn conn_wf(&self) -> bool {
        self.0@.len() == 9
    }

    open spec fn vertex_indices_spec(&self) -> Seq<usize> {
        self.0@
    }

    open spec fn vtk_node_count_spec(&self) -> nat {
        9
    }

    open spec fn vtk_connectivity_spec(&self) -> Seq<usize> {
        self.0@
    }

    fn num_nodes(&self) -> usize {
        9
    }

    open spec fn cell_kind_spec(&self) -> CellKind {
        CellKind::QuadraticQuad
    }

    fn cell_type(&self) -> CellKind {
        CellKind::QuadraticQuad
    }

    fn write_vtk_connectivity(&self, connectivity: &mut Vec<usize>) {
        connectivity.clear();
        let mut i: usize = 0;
        while i < 9
            invariant
                self.conn_wf(),
                i <= 9,
                connectivity@.len() == i,
                forall|j: int| 0 <= j < i ==> #[trigger] connectivity@[j] == self.0@[j],
            decreases 9 - i,
        {
            connectivity.push(self.0[i]);
            i = i + 1;
        }
        proof {
            assert(connectivity@ =~= self.vtk_connectivity_spec());
        }
    }
}

/// 4-node connectivity whose node order already matches the VTK convention.
#[derive(Clone, Debug)]
pub struct Tet4Connectivity(pub Vec<usize>);

impl VtkCellConnectivity for Tet4Connectivity {
    open spec fn conn_wf(&self) -> bool {
        self.0@.len() == 4
    }

    open spec fn vertex_indices_spec(&self) -> Seq<usize> {
        self.0@
    }

    open spec fn vtk_node_count_spec(&self) -> nat {
        4
    }

    open spec fn vtk_connectivity_spec(&self) -> Seq<usize> {
        self.0@
    }

    fn num_nodes(&self) -> usize {
        4
    }

    open spec fn cell_kind_spec(&self) -> CellKind {
        CellKind::Tetra
    }

    fn cell_type(&self) -> CellKind {
        CellKind::Tetra
    }

    fn write_vtk_connectivity(&self, connectivity: &mut Vec<usize>) {
        connectivity.clear();
        let mut i: usize = 0;
        while i < 4
            invariant
                self.conn_wf(),
                i <= 4,
                connectivity@.len() == i,
                forall|j: int| 0 <= j < i ==> #[trigger] connectivity@[j] == self.0@[j],
            decreases 4 - i,
        {
            connectivity.push(self.0[i]);
            i = i + 1;
        }
        proof {
            assert(connectivity@ =~= self.vtk_connectivity_spec());
        }
    }
}

/// 8-node connectivity whose node order already matches the VTK convention.
#[derive(Clone, Debug)]
pub struct Hex8Connectivity(pub Vec<usize>);

impl VtkCellConnectivity for Hex8Connectivity {
    open spec fn conn_wf(&self) -> bool {
        self.0@.len() == 8
    }

    open spec fn vertex_indices_spec(&self) -> Seq<usize> {
        self.0@
    }

    open spec fn vtk_node_count_spec(&self) -> nat {
        8
    }

    open spec fn vtk_connectivity_spec(&self) -> Seq<usize> {
        self.0@
    }

    fn num_nodes(&self) -> usize {
        8
    }

    open spec fn cell_kind_spec(&self) -> CellKind {
        CellKind::Hexahedron
    }

    fn cell_type(&self) -> CellKind {
        CellKind::Hexahedron
    }

    fn write_vtk_connectivity(&self, connectivity: &mut Vec<usize>) {
        connectivity.clear();
        let mut i: usize = 0;
        while i < 8
            invariant
                self.conn_wf(),
                i <= 8,
                connectivity@.len() == i,
                forall|j: int| 0 <= j < i ==> #[trigger] connectivity@[j] == self.0@[j],
            decreases 8 - i,
        {
            connectivity.push(self.0[i]);
            i = i + 1;
        }
        proof {
            assert(connectivity@ =~= self.vtk_connectivity_spec());
        }
    }
}

/// 3-node connectivity whose node order already matches the VTK convention.
#[derive(Clone, Debug)]
pub struct Tri3d3Connectivity(pub Vec<usize>);

impl VtkCellConnectivity for Tri3d3Connectivity {
    open spec fn conn_wf(&self) -> bool {
        self.0@.len() == 3
    }

    open spec fn vertex_indices_spec(&self) -> Seq<usize> {
        self.0@
    }

    open spec fn vtk_node_count_spec(&self) -> nat {
        3
    }

    open spec fn vtk_connectivity_spec(&self) -> Seq<usize> {
        self.0@
    }

    fn num_nodes(&self) -> usize {
        3
    }

    open spec fn cell_kind_spec(&self) -> CellKind {
        CellKind::Triangle
    }

    fn cell_type(&self) -> CellKind {
        CellKind::Triangle
    }

    fn write_vtk_connectivity(&self, connectivity: &mut Vec<usize>) {
        connectivity.clear();
        let mut i: usize = 0;
        while i < 3
            invariant
                self.conn_wf(),
                i <= 3,
                connectivity@.len() == i,
                forall|j: int| 0 <= j < i ==> #[trigger] connectivity@[j] == self.0@[j],
            decreases 3 - i,
        {
            connectivity.push(self.0[i]);
            i = i + 1;
        }
        proof {
            assert(connectivity@ =~= self.vtk_connectivity_spec());
        }
    }
}

/// 10-node tetrahedron connectivity. The source node ordering and the VTK
/// convention differ for quadratic tetrahedra: nodes 8 and 9 are switched.
#[derive(Clone, Debug)]
pub struct Tet10Connectivity(pub Vec<usize>);

/// Source node position written to VTK position `j` for this cell family.
pub open spec fn tet10connectivity_vtk_source(j: int) -> int {
        if j == 0 {
            0
        } else if j == 1 {
            1
        } else if j == 2 {
            2
        } else if j == 3 {
            3
        } else if j == 4 {
            4
        } else if j == 5 {
            5
        } else if j == 6 {
            6
        } else if j == 7 {
            7
        } else if j == 8 {
            9
        } else {
            8
        }
}

impl VtkCellConnectivity for Tet10Connectivity {
    open spec fn conn_wf(&self) -> bool {
        self.0@.len() == 10
    }

    open spec fn vertex_indices_spec(&self) -> Seq<usize> {
        self.0@
    }

    open spec fn vtk_node_count_spec(&self) -> nat {
        10
    }

    open spec fn vtk_connectivity_spec(&self) -> Seq<usize> {
        Seq::new(10, |j: int| self.0@[tet10connectivity_vtk_source(j)])
    }

    fn num_nodes(&self) -> usize {
        10
    }

    open spec fn cell_kind_spec(&self) -> CellKind {
        CellKind::QuadraticTetra
    }

    fn cell_type(&self) -> CellKind {
        CellKind::QuadraticTetra
    }

    fn write_vtk_connectivity(&self, connectivity: &mut Vec<usize>) {
        connectivity.clear();
        connectivity.push(self.0[0]);
        connectivity.push(self.0[1]);
        connectivity.push(self.0[2]);
        connectivity.push(self.0[3]);
        connectivity.push(self.0[4]);
        connectivity.push(self.0[5]);
        connectivity.push(self.0[6]);
        connectivity.push(self.0[7]);
        connectivity.push(self.0[9]);
        connectivity.push(self.0[8]);
        proof {
            assert forall|j: int| 0 <= j < 10 implies connectivity@[j] == self.vtk_connectivity_spec()[j] by {
                assert(connectivity@.len() == 10);
            }
            assert(connectivity@ =~= self.vtk_connectivity_spec());
        }
    }
}

/// 20-node hexahedron connectivity. The source node ordering (corners, then
/// bottom edges, vertical edges, top edges) differs from the VTK quadratic
/// hexahedron convention, so the midside nodes are permuted.
#[derive(Clone, Debug)]
pub struct Hex20Connectivity(pub Vec<usize>);

/// Source node position written to VTK position `j` for this cell family.
pub open spec fn hex20connectivity_vtk_source(j: int) -> int {
        if j == 0 {
            0
        } else if j == 1 {
            1
        } else if j == 2 {
            2
        } else if j == 3 {
            3
        } else if j == 4 {
            4
        } else if j == 5 {
            5
        } else if j == 6 {
            6
        } else if j == 7 {
            7
        } else if j == 8 {
            8
        } else if j == 9 {
            11
        } else if j == 10 {
            13
        } else if j == 11 {
            9
        } else if j == 12 {
            16
        } else if j == 13 {
            18
        } else if j == 14 {
            19
        } else if j == 15 {
            17
        } else if j == 16 {
            10
        } else if j == 17 {
            12
        } else if j == 18 {
            14
        } else {
            15
        }
}

impl VtkCellConnectivity for Hex20Connectivity {
    open spec fn conn_wf(&self) -> bool {
        self.0@.len() == 20
    }

    open spec fn vertex_indices_spec(&self) -> Seq<usize> {
        self.0@
    }

    open spec fn vtk_node_count_spec(&self) -> nat {
        20
    }

    open spec fn vtk_connectivity_spec(&self) -> Seq<usize> {
        Seq::new(20, |j: int| self.0@[hex20connectivity_vtk_source(j)])
    }

    fn num_nodes(&self) -> usize {
        20
    }

    open spec fn cell_kind_spec(&self) -> CellKind {
        CellKind::QuadraticHexahedron
    }

    fn cell_type(&self) -> CellKind {
        CellKind::QuadraticHexahedron
    }

    fn write_vtk_connectivity(&self, connectivity: &mut Vec<usize>) {
        connectivity.clear();
        connectivity.push(self.0[0]);
        connectivity.push(self.0[1]);
        connectivity.push(self.0[2]);
        connectivity.push(self.0[3]);
        connectivity.push(self.0[4]);
        connectivity.push(self.0[5]);
        connectivity.push(self.0[6]);
        connectivity.push(self.0[7]);
        connectivity.push(self.0[8]);
        connectivity.push(self.0[11]);
        connectivity.push(self.0[13]);
        connectivity.push(self.0[9]);
        connectivity.push(self.0[16]);
        connectivity.push(self.0[18]);
        connectivity.push(self.0[19]);
        connectivity.push(self.0[17]);
        connectivity.push(self.0[10]);
        connectivity.push(self.0[12]);
        connectivity.push(self.0[14]);
        connectivity.push(self.0[15]);
        proof {
            assert forall|j: int| 0 <= j < 20 implies connectivity@[j] == self.vtk_connectivity_spec()[j] by {
                assert(connectivity@.len() == 20);
            }
            assert(connectivity@ =~= self.vtk_connectivity_spec());
        }
    }
}

/// 27-node hexahedron connectivity. Legacy VTK has no triquadratic
/// hexahedron, so only the first 20 nodes are written, permuted as for the
/// 20-node hexahedron.
#[derive(Clone, Debug)]
pub struct Hex27Connectivity(pub Vec<usize>);

/// Source node position written to VTK position `j` for this cell family.
pub open spec fn hex27connectivity_vtk_source(j: int) -> int {
        if j == 0 {
            0
        } else if j == 1 {
            1
        } else if j == 2 {
            2
        } else if j == 3 {
            3
        } else if j == 4 {
            4
        } else if j == 5 {
            5
        } else if j == 6 {
            6
        } else if j == 7 {
            7
        } else if j == 8 {
            8
        } else if j == 9 {
            11
        } else if j == 10 {
            13
        } else if j == 11 {
            9
        } else if j == 12 {
            16
        } else if j == 13 {
            18
        } else if j == 14 {
            19
        } else if j == 15 {
            17
        } else if j == 16 {
            10
        } else if j == 17 {
            12
        } else if j == 18 {
            14
        } else {
            15
        }
}

impl VtkCellConnectivity for Hex27Connectivity {
    open spec fn conn_wf(&self) -> bool {
        self.0@.len() == 27
    }

    open spec fn vertex_indices_spec(&self) -> Seq<usize> {
        self.0@
    }

    open spec fn vtk_node_count_spec(&self) -> nat {
        20
    }

    open spec fn vtk_connectivity_spec(&self) -> Seq<usize> {
        Seq::new(20, |j: int| self.0@[hex27connectivity_vtk_source(j)])
    }

    fn num_nodes(&self) -> usize {
        20
    }

    open spec fn cell_kind_spec(&self) -> CellKind {
        CellKind::QuadraticHexahedron
    }

    fn cell_type(&self) -> CellKind {
        CellKind::QuadraticHexahedron
    }

    fn write_vtk_connectivity(&self, connectivity: &mut Vec<usize>) {
        connectivity.clear();
        connectivity.push(self.0[0]);
        connectivity.push(self.0[1]);
        connectivity.push(self.0[2]);
        connectivity.push(self.0[3]);
        connectivity.push(self.0[4]);
        connectivity.push(self.0[5]);
        connectivity.push(self.0[6]);
        connectivity.push(self.0[7]);
        connectivity.push(self.0[8]);
        connectivity.push(self.0[11]);
        connectivity.push(self.0[13]);
        connectivity.push(self.0[9]);
        connectivity.push(self.0[16]);
        connectivity.push(self.0[18]);
        connectivity.push(self.0[19]);
        connectivity.push(self.0[17]);
        connectivity.push(self.0[10]);
        connectivity.push(self.0[12]);
        connectivity.push(self.0[14]);
        connectivity.push(self.0[15]);
        proof {
            assert forall|j: int| 0 <= j < 20 implies connectivity@[j] == self.vtk_connectivity_spec()[j] by {
                assert(connectivity@.len() == 20);
            }
            assert(connectivity@ =~= self.vtk_connectivity_spec());
        }
    }
}

/// Flatten vertex coordinates to the three-component point buffer of a VTK
/// data set: point `i` occupies entries `3 i .. 3 i + 3`, with zeros in the
/// components beyond the mesh's geometric dimension. The numerators share the
/// caller's coordinate denominator.
pub fn vtk_point_buffer(coords: &Vec<Vec<i128>>) -> (r: Vec<i128>)
    requires
        1 <= coords@.len() <= 3,
        forall|k: int|
            0 <= k < coords@.len() ==> (#[trigger] coords@[k])@.len() == coords@[0]@.len(),
    ensures
        r@.len() == 3 * coords@[0]@.len(),
        forall|i: int, k: int|
            0 <= i < coords@[0]@.len() && 0 <= k < 3 ==> #[trigger] r@[3 * i + k] == (if k
                < coords@.len() {
                coords@[k]@[i]
            } else {
                0
            }),
{
    let g = coords.len();
    let n = coords[0].len();
    let mut r: Vec<i128> = Vec::new();
    let mut i: usize = 0;
    while i < n
        invariant
            1 <= g <= 3,
            g == coords@.len(),
            n == coords@[0]@.len(),
            forall|k: int|
                0 <= k < coords@.len() ==> (#[trigger] coords@[k])@.len() == coords@[0]@.len(),
            i <= n,
            r@.len() == 3 * i,
            forall|ii: int, k: int|
                0 <= ii < i && 0 <= k < 3 ==> #[trigger] r@[3 * ii + k] == (if k < coords@.len() {
                    coords@[k]@[ii]
                } else {
                    0
                }),
        decreases n - i,
    {
        let mut k: usize = 0;
        while k < 3
            invariant
                1 <= g <= 3,
                g == coords@.len(),
                n == coords@[0]@.len(),
                forall|kk: int|
                    0 <= kk < coords@.len() ==> (#[trigger] coords@[kk])@.len()
                        == coords@[0]@.len(),
                i < n,
                k <= 3,
                r@.len() == 3 * i + k,
                forall|ii: int, kk: int|
                    0 <= ii < i && 0 <= kk < 3 ==> #[trigger] r@[3 * ii + kk] == (if kk
                        < coords@.len() {
                        coords@[kk]@[ii]
                    } else {
                        0
                    }),
                forall|kk: int|
                    0 <= kk < k ==> #[trigger] r@[3 * i + kk] == (if kk < coords@.len() {
                        coords@[kk]@[i as int]
                    } else {
                        0
                    }),
        decreases 3 - k,
        {
            if k < g {
                r.push(coords[k][i]);
            } else {
                r.push(0);
            }
            k = k + 1;
        }
        i = i + 1;
    }
    r
}

/// Build the legacy VTK cell buffer for a list of cells: for each cell, its
/// written node count followed by its connectivity in VTK order, all as
/// 32-bit values, together with the cell kinds.
pub fn vtk_cell_buffers<C: VtkCellConnectivity>(cells: &Vec<C>) -> (r: (Vec<u32>, Vec<CellKind>))
    requires
        forall|e: int| 0 <= e < cells@.len() ==> (#[trigger] cells@[e]).conn_wf(),
        forall|e: int|
            0 <= e < cells@.len() ==> (#[trigger] cells@[e]).vtk_node_count_spec() <= 27,
        forall|e: int, j: int|
            0 <= e < cells@.len() && 0 <= j < cells@[e].vtk_connectivity_spec().len() ==> (
            #[trigger] cells@[e].vtk_connectivity_spec()[j]) <= 0xffffffff,
    ensures
        r.1@.len() == cells@.len(),
        forall|e: int| 0 <= e < cells@.len() ==> #[trigger] r.1@[e] == cells@[e].cell_kind_spec(),
        r.0@ == vtk_cell_buffer_spec(cells@, cells@.len() as int),
{
    let mut vertices: Vec<u32> = Vec::new();
    let mut kinds: Vec<CellKind> = Vec::new();
    let mut scratch: Vec<usize> = Vec::new();
    let ne = cells.len();
    let mut e: usize = 0;
    while e < ne
        invariant
            ne == cells@.len(),
            forall|ee: int| 0 <= ee < cells@.len() ==> (#[trigger] cells@[ee]).conn_wf(),
            forall|ee: int|
                0 <= ee < cells@.len() ==> (#[trigger] cells@[ee]).vtk_node_count_spec() <= 27,
            forall|ee: int, j: int|
                0 <= ee < cells@.len() && 0 <= j < cells@[ee].vtk_connectivity_spec().len() ==> (
                #[trigger] cells@[ee].vtk_connectivity_spec()[j]) <= 0xffffffff,
            e <= ne,
            kinds@.len() == e,
            forall|ee: int| 0 <= ee < e ==> #[trigger] kinds@[ee] == cells@[ee].cell_kind_spec(),
            vertices@ == vtk_cell_buffer_spec(cells@, e as int),
        decreases ne - e,
    {
        let cell = &cells[e];
        let n = cell.num_nodes();
        vertices.push(n as u32);
        cell.write_vtk_connectivity(&mut scratch);
        let ghost before = vertices@;
        let mut j: usize = 0;
        while j < scratch.len()
            invariant
                scratch@.len() == cells@[e as int].vtk_connectivity_spec().len(),
                scratch@ == cells@[e as int].vtk_connectivity_spec(),
                e < cells@.len(),
                forall|jj: int|
                    0 <= jj < cells@[e as int].vtk_connectivity_spec().len() ==> (
                    #[trigger] cells@[e as int].vtk_connectivity_spec()[jj]) <= 0xffffffff,
                j <= scratch@.len(),
                vertices@.len() == before.len() + j,
                vertices@ =~= before + Seq::new(
                    j as nat,
                    |jj: int| cells@[e as int].vtk_connectivity_spec()[jj] as u32,
                ),
            decreases scratch@.len() - j,
        {
            vertices.push(scratch[j] as u32);
            proof {
                assert(vertices@ =~= before + Seq::new(
                    (j + 1) as nat,
                    |jj: int| cells@[e as int].vtk_connectivity_spec()[jj] as u32,
                ));
            }
            j = j + 1;
        }
        kinds.push(cell.cell_type());
        proof {
            assert(vertices@ =~= vtk_cell_buffer_spec(cells@, e + 1 as int));
        }
        e = e + 1;
    }
    (vertices, kinds)
}

/// The cell buffer of the first `n` cells: counts interleaved with VTK-order
/// connectivity.
pub open spec fn vtk_cell_buffer_spec<C: VtkCellConnectivity>(cells: Seq<C>, n: int) -> Seq<u32>
    decreases n,
{
    if n <= 0 {
        Seq::empty()
    } else {
        vtk_cell_buffer_spec(cells, n - 1) + seq![(cells[n - 1].vtk_node_count_spec()) as u32]
            + Seq::new(
            cells[n - 1].vtk_connectivity_spec().len(),
            |jj: int| cells[n - 1].vtk_connectivity_spec()[jj] as u32,
        )
    }
}


/// The quadrature points of one element mapped to physical space, with the
/// exact Jacobian-weighted measure of every point: the per-element slice of
/// the point cloud handed to diagnostic visualization. Point `q` lands at
/// index `q`; its coordinates are the exact image of the rule point under the
/// element's geometric map and its weight is exactly `w_q * |det J(xi_q)|`.
/// An adapter concatenates the slices of all elements, tagging each point
/// with its owning cell index, and converts the exact values for output.
pub fn element_point_cloud(element: &Element, rule: &QuadratureRule) -> (r: (
    Vec<RVec>,
    Vec<Rational>,
))
    requires
        element.wf(),
        rule.wf(),
        element.shape.geometry_dim_spec() == 2,
        element.shape.reference_dim_spec() == 2,
        rule.dim == 2,
        rule.pden <= 2,
        element.vden <= ERROR_VERTEX_LIMIT,
        forall|k: int, i: int|
            0 <= k < element.coords@.len() && 0 <= i < element.coords@[k]@.len() ==> iabs(
                #[trigger] element.coords@[k]@[i] as int,
            ) <= ERROR_VERTEX_LIMIT,
    ensures
        r.0@.len() == rule.weights@.len(),
        r.1@.len() == rule.weights@.len(),
        forall|q: int|
            #![trigger r.0@[q]]
            0 <= q < rule.weights@.len() ==> {
                &&& r.0@[q].wf()
                &&& r.0@[q].len() == 2
                &&& r.0@[q].den as int == map_den(*element, rule.pden as int)
                &&& r.0@[q].entry(0) == map_num(*element, 0, rule_point(*rule, q), rule.pden as int)
                &&& r.0@[q].entry(1) == map_num(*element, 1, rule_point(*rule, q), rule.pden as int)
                &&& r.1@[q].wf()
                &&& r.1@[q].num as int == rule.weights@[q] * iabs(l2_det_num(*element, *rule, q))
                &&& r.1@[q].den as int == rule.wden * ((grad_den(element.shape, rule.pden as int)
                    * element.vden) * (grad_den(element.shape, rule.pden as int) * element.vden))
            },
{
    let shape = element.shape;
    let nq = rule.num_points();
    let mut points: Vec<RVec> = Vec::new();
    let mut weights: Vec<Rational> = Vec::new();
    let mut q: usize = 0;
    while q < nq
        invariant
            element.wf(),
            rule.wf(),
            element.shape.geometry_dim_spec() == 2,
            element.shape.reference_dim_spec() == 2,
            rule.dim == 2,
            rule.pden <= 2,
            element.vden <= ERROR_VERTEX_LIMIT,
            forall|k: int, i: int|
                0 <= k < element.coords@.len() && 0 <= i < element.coords@[k]@.len() ==> iabs(
                    #[trigger] element.coords@[k]@[i] as int,
                ) <= ERROR_VERTEX_LIMIT,
            shape == element.shape,
            nq == rule.weights@.len(),
            q <= nq,
            points@.len() == q,
            weights@.len() == q,
            forall|qq: int|
                #![trigger points@[qq]]
                0 <= qq < q ==> {
                    &&& points@[qq].wf()
                    &&& points@[qq].len() == 2
                    &&& points@[qq].den as int == map_den(*element, rule.pden as int)
                    &&& points@[qq].entry(0) == map_num(
                        *element,
                        0,
                        rule_point(*rule, qq),
                        rule.pden as int,
                    )
                    &&& points@[qq].entry(1) == map_num(
                        *element,
                        1,
                        rule_point(*rule, qq),
                        rule.pden as int,
                    )
                    &&& weights@[qq].wf()
                    &&& weights@[qq].num as int == rule.weights@[qq] * iabs(
                        l2_det_num(*element, *rule, qq),
                    )
                    &&& weights@[qq].den as int == rule.wden * ((grad_den(
                        element.shape,
                        rule.pden as int,
                    ) * element.vden) * (grad_den(element.shape, rule.pden as int)
                        * element.vden))
                },
        decreases nq - q,
    {
        proof {
            mul_le_mono(q + 1 as int, rule.weights@.len() as int, rule.dim as int);
            assert(rule.weights@.len() as int * rule.dim == rule.weights@.len() * rule.dim)
                by (nonlinear_arith);
        }
        let pnums = collect_block(&rule.points, 2, q);
        let xi = RVec { nums: pnums, den: rule.pden };
        proof {
            assert forall|k: int| 0 <= k < xi.nums@.len() implies iabs(
                #[trigger] xi.nums@[k] as int,
            ) <= rule.pden as int by {
                assert(xi.nums@[k] == rule.points@[q as int * 2 + k]);
            }
            assert(seq_ints(xi.nums@) =~= rule_point(*rule, q as int));
            assert(ints(xi) =~= rule_point(*rule, q as int));
            assert(eval_point_ok(shape, xi));
        }
        let x = map_reference_coords(element, &xi);
        let jac = reference_jacobian(element, &xi);
        proof {
            assert forall|l: int, k: int| 0 <= l < 2 && 0 <= k < 2 implies iabs(
                #[trigger] mat_num(jac, l, k),
            ) <= 0x40000 by {
                let n = shape.num_nodes_spec();
                let gr = Seq::new(
                    n,
                    |i: int| grad_num(shape, i, k, rule_point(*rule, q as int), rule.pden as int),
                );
                let vr = Seq::new(n, |i: int| element.vertex_num(l, i));
                assert forall|i: int| 0 <= i < gr.len() implies iabs(#[trigger] gr[i]) <= 64 by {
                    lemma_grad_num_small(
                        shape,
                        i,
                        k,
                        rule_point(*rule, q as int),
                        rule.pden as int,
                    );
                }
                lemma_dot_prefix_bound(gr, vr, n as int, 64, ERROR_VERTEX_LIMIT as int);
                mul_le_mono(n as int, 32, 64 * (ERROR_VERTEX_LIMIT as int));
            }
            assert(jac.den <= DET2_ENTRY_LIMIT as int) by {
                lemma_dens_small(shape, rule.pden as int);
                mul_bound(grad_den(shape, rule.pden as int), element.vden as int, 32,
                    ERROR_VERTEX_LIMIT as int);
            }
            assert(jac.bounded(DET2_ENTRY_LIMIT as int)) by {
                assert forall|idx: int| 0 <= idx < jac.nums@.len() implies iabs(
                    #[trigger] jac.nums@[idx] as int,
                ) <= DET2_ENTRY_LIMIT as int by {
                    assert(jac.nums@.len() == 4);
                    if idx == 0 {
                        assert(jac.nums@[0] as int == mat_num(jac, 0, 0));
                    } else if idx == 1 {
                        assert(jac.nums@[1] as int == mat_num(jac, 1, 0));
                    } else if idx == 2 {
                        assert(jac.nums@[2] as int == mat_num(jac, 0, 1));
                    } else {
                        assert(jac.nums@[3] as int == mat_num(jac, 1, 1));
                    }
                }
            }
        }
        let det = det2(&jac);
        proof {
            mul_bound(mat_num(jac, 0, 0), mat_num(jac, 1, 1), 0x40000, 0x40000);
            mul_bound(mat_num(jac, 0, 1), mat_num(jac, 1, 0), 0x40000, 0x40000);
        }
        let dabs = det.abs();
        proof {
            lemma_dens_small(shape, rule.pden as int);
            mul_bound(grad_den(shape, rule.pden as int), element.vden as int, 32,
                ERROR_VERTEX_LIMIT as int);
            mul_bound(jac.den as int, jac.den as int, 4096, 4096);
            mul_bound(rule.weights@[q as int] as int, dabs.num as int, 4096, 0x2000000000);
            mul_pos(rule.wden as int, det.den as int);
            mul_bound(rule.wden as int, det.den as int, 4096, 0x1000000);
        }
        let w = Rational { num: rule.weights[q] * dabs.num, den: rule.wden * det.den };
        proof {
            assert(dabs.num as int == iabs(l2_det_num(*element, *rule, q as int)));
            assert(det.den as int == (grad_den(shape, rule.pden as int) * element.vden) * (
            grad_den(shape, rule.pden as int) * element.vden));
        }
        points.push(x);
        weights.push(w);
        q = q + 1;
    }
    (points, weights)
}

} // verus!
