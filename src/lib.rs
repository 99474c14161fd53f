//! The decision logic of a small ray tracer, verified.
//!
//! Ray parameters enter the library as order keys: integers ordered as the
//! distances they stand for. The floating-point geometry that yields the roots
//! of each surface stays with the caller; this crate decides which root a
//! surface reports within an interval, which surface a ray hits first, and how
//! a finished image is written out as plain-text PPM.
use vstd::prelude::*;

pub mod hit;
pub mod interval;
pub mod key;
pub mod ppm;

verus! {

} // verus!
