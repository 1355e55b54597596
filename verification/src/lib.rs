//! A composable library for finite element computations over exact rational
//! arithmetic.
//!
//! The library evaluates finite-element basis functions and isoparametric
//! geometric maps for a family of reference element shapes, projects physical
//! points onto elements, and assembles per-quadrature-point operator
//! evaluations into local matrix and vector contributions. All scalar values
//! are exact fractions of 128-bit integers, so the algebraic laws of the
//! finite element method (Lagrange property, partition of unity, Jacobian
//! consistency) hold exactly and are proved rather than sampled.

use vstd::prelude::*;

pub mod closest;
pub mod element;
pub mod element_laws;
pub mod error;
pub mod geometry;
pub mod operators;
pub mod quadrature;
pub mod rational;
pub mod space;
pub mod vtk;

verus! {

/// Marker for whether an assembled quantity is known to be symmetric.
#[derive(Copy, Clone, PartialEq, Eq, Structural)]
pub enum Symmetry {
    NonSymmetric,
    Symmetric,
}

} // verus!
