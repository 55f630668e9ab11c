//! Point-in-polygon containment by the winding-number algorithm.
//!
//! A polygon is an ordered sequence of closed rings over exact integer
//! coordinates: the first ring is the shell, the rest are holes whose
//! enclosed area is excluded. The crate answers one question: does a
//! given point lie inside the shell and outside every hole?

pub mod point;
pub mod polygon;
pub mod ring;
