//! The kinds of plot that can be requested for a point of the frame.

use vstd::prelude::*;

verus! {

/// A set of three basis vectors to draw at the point.
#[derive(Clone, Copy, Debug, PartialEq, Eq, Structural)]
pub enum OsPlotType {
    /// The tangent vectors along the three coordinate lines.
    BasisCovariant,
    /// The dual basis: the gradients of the three coordinates.
    BasisContravariant,
}

} // verus!
