//! Points, directions and colours: triples of binary64 numbers.

use vstd::prelude::*;
use crate::scalar::Scalar;
use crate::scalar::MAGNITUDE_MASK;

verus! {

/// A point or a direction in space, or a colour by its red, green and blue
/// channels.
#[derive(Clone, Copy, Debug, PartialEq, Eq, Structural)]
pub struct Vector3 {
    pub x: Scalar,
    pub y: Scalar,
    pub z: Scalar,
}

/// A radiance: `x` is red, `y` green and `z` blue.
pub type Color = Vector3;

impl Vector3 {
    /// The vector whose components are all zero with a clear sign bit.
    pub open spec fn zero_spec() -> Vector3 {
        Vector3 { x: Scalar::zero_spec(), y: Scalar::zero_spec(), z: Scalar::zero_spec() }
    }

    /// Whether the vector has no length: every component is a zero, of
    /// either sign. Such a vector has no direction and cannot be normalised.
    pub open spec fn is_zero_spec(self) -> bool {
        &&& !self.x.is_nan_spec() && self.x.value() == 0
        &&& !self.y.is_nan_spec() && self.y.value() == 0
        &&& !self.z.is_nan_spec() && self.z.value() == 0
    }

    /// The vector with the given components.
    pub fn new(x: Scalar, y: Scalar, z: Scalar) -> (v: Vector3)
        ensures
            v == (Vector3 { x, y, z }),
    {
        Vector3 { x, y, z }
    }

    /// The vector whose components are all zero with a clear sign bit.
    pub fn zero() -> (v: Vector3)
        ensures
            v == Vector3::zero_spec(),
    {
        Vector3 { x: Scalar::zero(), y: Scalar::zero(), z: Scalar::zero() }
    }

    /// Whether the vector has no length.
    pub fn is_zero(self) -> (r: bool)
        ensures
            r == self.is_zero_spec(),
    {
        proof {
            crate::scalar::lemma_mask_is_remainder(self.x.bits);
            crate::scalar::lemma_mask_is_remainder(self.y.bits);
            crate::scalar::lemma_mask_is_remainder(self.z.bits);
            crate::scalar::lemma_magnitude_order(self.x, Scalar::zero_spec());
            crate::scalar::lemma_magnitude_order(self.y, Scalar::zero_spec());
            crate::scalar::lemma_magnitude_order(self.z, Scalar::zero_spec());
        }
        self.x.bits & MAGNITUDE_MASK == 0 && self.y.bits & MAGNITUDE_MASK == 0 && self.z.bits
            & MAGNITUDE_MASK == 0
    }
}

} // verus!
