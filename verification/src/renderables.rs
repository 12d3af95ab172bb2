//! The renderable capability and the decision rules of the sphere.

use vstd::prelude::*;
use crate::ray::Ray;
use crate::scalar::Scalar;
use crate::vector::Color;
use crate::vector::Vector3;

verus! {

/// The pattern of the smallest ray parameter at which a hit counts, one
/// thousandth.
pub const EPS_BITS: u64 = 0x3F50_624D_D2F1_A9FC;

/// An object that rays can hit.
///
/// `intersect` and `reflectance_color` are functions of their arguments:
/// `intersect_spec` and `reflectance_color_spec` name what they return.
/// `get_reflected_ray` may draw from the generator, so `reflected_ray_spec`
/// is a relation: it holds of every ray that the call may return. The
/// implementer says what these three are; a type whose methods do not
/// compute what it says of them voids what is proved about it.
pub trait Renderable {
    /// The point where `ray` first meets the object, if it does.
    spec fn intersect_spec(&self, ray: Ray) -> Option<Vector3>;

    /// The radiance that leaves the object when `incident_color` arrives.
    spec fn reflectance_color_spec(&self, incident_color: Color) -> Color;

    /// Whether `reflected` may be the scattered ray at `pt` for light
    /// arriving along `incident_dir`.
    spec fn reflected_ray_spec(&self, pt: Vector3, incident_dir: Vector3, reflected: Ray) -> bool;

    /// The point where `ray` first meets the object, if it does.
    fn intersect(&self, ray: &Ray) -> (hit: Option<Vector3>)
        ensures
            hit == self.intersect_spec(*ray),
    ;

    /// The radiance that leaves the object when `incident_color` arrives.
    fn reflectance_color(&self, incident_color: &Color) -> (color: Color)
        ensures
            color == self.reflectance_color_spec(*incident_color),
    ;

    /// The outward normal at `point`, which lies on the surface.
    fn normal(&self, point: &Vector3) -> Vector3;

    /// The ray scattered at `pt` for light arriving along `incident_dir`.
    fn get_reflected_ray(
        &self,
        pt: &Vector3,
        incident_dir: &Vector3,
        rng: &mut rand::rngs::ThreadRng,
    ) -> (reflected: Ray)
        ensures
            self.reflected_ray_spec(*pt, *incident_dir, reflected),
    ;
}

/// Which root of the intersection equation is the hit.
#[derive(Clone, Copy, Debug, PartialEq, Eq, Structural)]
pub enum Root {
    /// The ray does not hit.
    Miss,
    /// The hit is at the smaller root.
    Near,
    /// The hit is at the larger root.
    Far,
}

/// The smallest ray parameter at which a hit counts.
pub open spec fn eps_spec() -> Scalar {
    Scalar { bits: EPS_BITS }
}

/// The root at which a ray hits a sphere. `discriminant` is that of the
/// quadratic in the ray parameter, `near` and `far` are its smaller and
/// larger root. Without a real root there is no hit. A root below the
/// floor lies behind the ray or on the surface that the ray has just left
/// and does not count: the smaller root is the hit if it counts, else the
/// larger one if that counts.
pub open spec fn select_root_spec(discriminant: Scalar, near: Scalar, far: Scalar) -> Root {
    if discriminant.lt_spec(Scalar::zero_spec()) {
        Root::Miss
    } else if far.lt_spec(eps_spec()) {
        Root::Miss
    } else if near.lt_spec(eps_spec()) {
        Root::Far
    } else {
        Root::Near
    }
}

/// The smallest ray parameter at which a hit counts.
pub fn eps() -> (r: Scalar)
    ensures
        r == eps_spec(),
{
    Scalar::from_bits(EPS_BITS)
}

/// Selects the root at which a ray hits a sphere.
pub fn select_root(discriminant: Scalar, near: Scalar, far: Scalar) -> (r: Root)
    ensures
        r == select_root_spec(discriminant, near, far),
{
    if discriminant.lt(Scalar::zero()) {
        Root::Miss
    } else if far.lt(eps()) {
        Root::Miss
    } else if near.lt(eps()) {
        Root::Far
    } else {
        Root::Near
    }
}

/// Whether `radius` can be the radius of a sphere: a number above zero.
pub fn valid_radius(radius: Scalar) -> (r: bool)
    ensures
        r == Scalar::zero_spec().lt_spec(radius),
{
    radius.gt(Scalar::zero())
}

/// The hit is never at a root below the floor: the smaller root is taken
/// only if it is not below it, the larger one only if the smaller one is
/// and it is not itself, and a ray whose larger root is below the floor
/// does not hit.
pub proof fn lemma_hit_is_not_below_floor(discriminant: Scalar, near: Scalar, far: Scalar)
    ensures
        select_root_spec(discriminant, near, far) == Root::Near ==> !near.lt_spec(eps_spec())
            && !far.lt_spec(eps_spec()),
        select_root_spec(discriminant, near, far) == Root::Far ==> near.lt_spec(eps_spec())
            && !far.lt_spec(eps_spec()),
        far.lt_spec(eps_spec()) ==> select_root_spec(discriminant, near, far) == Root::Miss,
{
}

} // verus!
