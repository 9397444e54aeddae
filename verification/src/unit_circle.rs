//! The branch of the unit-circle tangent construction that a query takes.
//!
//! From a position outside the unit circle two lines touch the circle. A
//! pointing direction anchored at the position selects one of the two
//! tangent points. From a position on or inside the circle no line touches
//! it, and the position is projected radially onto the circle instead.

use vstd::prelude::*;
use crate::binary64::ONE;
use crate::binary64::ZERO;
use crate::binary64::le;
use crate::binary64::lt;
use crate::binary64::less_or_equal;
use crate::binary64::less_than;

verus! {

/// The point of the unit circle that answers a tangent query.
#[derive(Clone, Copy, Debug, PartialEq, Eq, Structural)]
pub enum TangentCase {
    /// The position lies on or inside the circle: the answer is the
    /// position scaled to unit length.
    Radial,
    /// The tangent point on the side to which the radial direction turns
    /// when rotated a quarter turn counterclockwise.
    Counterclockwise,
    /// The tangent point on the opposite side.
    Clockwise,
}

/// The case of a query, from the squared distance of the position to the
/// centre and from the component of the pointing direction along the radial
/// direction rotated a quarter turn counterclockwise. Both are binary64
/// patterns.
pub open spec fn case_of(norm_squared: u64, side: u64) -> TangentCase {
    if le(norm_squared, ONE) {
        TangentCase::Radial
    } else if lt(ZERO, side) {
        TangentCase::Counterclockwise
    } else {
        TangentCase::Clockwise
    }
}

/// Selects the case of a tangent query.
pub fn tangent_case(norm_squared: u64, side: u64) -> (r: TangentCase)
    ensures
        r == case_of(norm_squared, side),
{
    if less_or_equal(norm_squared, ONE) {
        TangentCase::Radial
    } else if less_than(ZERO, side) {
        TangentCase::Counterclockwise
    } else {
        TangentCase::Clockwise
    }
}

/// From a position on or inside the circle the pointing direction has no
/// say: every direction gives the radial case.
pub proof fn lemma_inside_ignores_direction(norm_squared: u64, side: u64, other_side: u64)
    requires
        le(norm_squared, ONE),
    ensures
        case_of(norm_squared, side) == TangentCase::Radial,
        case_of(norm_squared, side) == case_of(norm_squared, other_side),
{
}

} // verus!
