//! The sphere that bounds a cluster of points.

use vstd::prelude::*;

verus! {

/// A bounding sphere around a cluster of points. Centre and radius are the bit
/// patterns of single precision values.
#[derive(Debug, Clone, Copy, PartialEq, Eq)]
pub struct Sphere {
    pub center: (u32, u32, u32),
    pub radius: u32,
}

} // verus!
