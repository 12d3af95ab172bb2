//! The material capability and the decision rules of the three materials.
//!
//! A material turns an incoming direction into a scattered one and
//! attenuates the radiance that comes back along it. The formulas are
//! binary64 arithmetic and belong to the implementations; the decisions
//! they branch on are made here.

use vstd::prelude::*;
use crate::ray::Ray;
use crate::scalar::Scalar;
use crate::vector::Color;
use crate::vector::Vector3;

verus! {

/// The generator `rand::rngs::ThreadRng`, which the renderer threads through
/// every scattering call. Nothing is claimed of it: this crate never draws
/// from it and only hands it on.
#[verifier::external_type_specification]
#[verifier::external_body]
pub struct ExThreadRng(rand::rngs::ThreadRng);

/// What a surface is made of.
///
/// `get_new_dir` may draw from the generator, so `get_new_dir_spec` is a
/// relation: it holds of every direction that the call may return. The
/// implementer says what it is.
pub trait Material {
    /// Whether `dir` may be the direction in which light arriving along
    /// `incident_dir` leaves a surface with outward normal `normal`.
    spec fn get_new_dir_spec(&self, incident_dir: Vector3, normal: Vector3, dir: Vector3) -> bool;

    /// The direction in which light arriving along `incident_dir` leaves a
    /// surface with outward normal `normal`. The normal must have a length.
    fn get_new_dir(
        &self,
        incident_dir: &Vector3,
        normal: &Vector3,
        rng: &mut rand::rngs::ThreadRng,
    ) -> (dir: Vector3)
        ensures
            self.get_new_dir_spec(*incident_dir, *normal, dir),
    ;

    /// The radiance that leaves the surface when `incident_color` arrives
    /// along the scattered direction.
    fn reflectance(&self, incident_color: &Color) -> Color;

    /// The ray scattered at the surface point `pt`: it starts at `pt` and
    /// runs in a direction that `get_new_dir` gives for `incident_dir` and
    /// `normal`.
    fn get_reflected_ray(
        &self,
        pt: &Vector3,
        incident_dir: &Vector3,
        normal: &Vector3,
        rng: &mut rand::rngs::ThreadRng,
    ) -> (reflected: Ray)
        ensures
            reflected.origin == *pt,
            self.get_new_dir_spec(*incident_dir, *normal, reflected.direction),
    {
        let direction = self.get_new_dir(incident_dir, normal, rng);
        Ray { origin: *pt, direction }
    }
}

/// How a ray passes the boundary of a dielectric.
#[derive(Clone, Copy, Debug, PartialEq, Eq, Structural)]
pub enum Refraction {
    /// The ray enters the medium and is bent towards the normal.
    Entering,
    /// The ray leaves the medium and is bent away from the normal.
    Leaving,
    /// The ray would leave the medium but is reflected at the boundary.
    TotalReflection,
}

/// The branch that a dielectric takes. `cosine_incidence` is the dot
/// product of the unit incident direction with the unit outward normal;
/// `sine_leaving` is the sine of the refracted angle as Snell's law gives
/// it for a ray that leaves the medium.
pub open spec fn refraction_spec(cosine_incidence: Scalar, sine_leaving: Scalar) -> Refraction {
    if Scalar::zero_spec().lt_spec(cosine_incidence) {
        if Scalar::one_spec().lt_spec(sine_leaving) {
            Refraction::TotalReflection
        } else {
            Refraction::Leaving
        }
    } else {
        Refraction::Entering
    }
}

/// Decides the branch of a dielectric: a ray whose direction has a
/// positive cosine with the outward normal leaves the medium, and is
/// reflected when the sine of its refracted angle would exceed one; every
/// other ray enters. Nothing is mixed by chance.
pub fn refraction(cosine_incidence: Scalar, sine_leaving: Scalar) -> (r: Refraction)
    ensures
        r == refraction_spec(cosine_incidence, sine_leaving),
{
    if cosine_incidence.gt(Scalar::zero()) {
        if sine_leaving.gt(Scalar::one()) {
            Refraction::TotalReflection
        } else {
            Refraction::Leaving
        }
    } else {
        Refraction::Entering
    }
}

/// Whether a drawn direction points into the surface and has to be turned
/// round: its dot product with the outward normal, `alignment`, is below
/// zero.
pub fn faces_inward(alignment: Scalar) -> (r: bool)
    ensures
        r == alignment.lt_spec(Scalar::zero_spec()),
{
    alignment.lt(Scalar::zero())
}

/// Whether `factor` can be the reflectance factor of a diffuse material: a
/// number from zero to one.
pub fn valid_reflectance_factor(factor: Scalar) -> (r: bool)
    ensures
        r == (Scalar::zero_spec().le_spec(factor) && factor.le_spec(Scalar::one_spec())),
{
    Scalar::zero().le(factor) && factor.le(Scalar::one())
}

/// Whether `index` can be the refraction index of a dielectric: a number
/// above zero.
pub fn valid_refraction_index(index: Scalar) -> (r: bool)
    ensures
        r == Scalar::zero_spec().lt_spec(index),
{
    index.gt(Scalar::zero())
}

} // verus!
