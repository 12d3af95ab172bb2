//! The verified core of a Monte Carlo path tracer for scenes of spheres.
//!
//! The numeric kernels of a renderer (intersection formulas, scattering
//! directions, attenuation) work on IEEE 754 binary64 numbers and are
//! supplied by implementations of [`renderables::Renderable`] and
//! [`material::Material`]. This crate holds everything around them that
//! can be stated over integers: the ordering and rounding of binary64
//! numbers, the decision rules of the sphere and material model, the
//! recursive radiance estimator, and the layout and quantisation of the
//! image.

pub mod camera;
pub mod image;
pub mod integrator;
pub mod material;
pub mod ray;
pub mod renderables;
pub mod rounding;
pub mod scalar;
pub mod vector;
