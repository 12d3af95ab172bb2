//! The parametric ray.

use vstd::prelude::*;
use crate::vector::Vector3;

verus! {

/// The points `origin + t * direction`. Producers usually hand out a
/// direction of unit length; nothing here relies on it.
#[derive(Clone, Copy, Debug, PartialEq, Eq, Structural)]
pub struct Ray {
    pub origin: Vector3,
    pub direction: Vector3,
}

} // verus!
