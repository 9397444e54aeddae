//! An oblate spheroidal coordinate frame.
//!
//! The crate has two parts. The first decides on IEEE 754 binary64 numbers,
//! handled by their 64-bit patterns and with integer arithmetic only: which
//! parameter sets describe a point of the frame, and which branch of the
//! unit-circle tangent construction applies to a query. The second states
//! the closed forms of the frame over the real numbers and proves the
//! identities between them; it has no executable part.

pub mod binary64;
pub mod geometry;
pub mod linear_algebra;
pub mod metric;
pub mod oblate_spheroid;
pub mod plot_os;
pub mod unit_circle;
pub mod volume;
