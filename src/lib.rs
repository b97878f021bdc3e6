//! Discrete control logic of a stochastic path tracer for scenes of spheres.
//!
//! The floating-point geometry (vectors, rays, camera, spheres, materials)
//! lives in the program around this library; what is proved here is the
//! part of the renderer that decides rather than computes:
//!
//! - [`path`]: when a path ends, and what it contributes, under the hard
//!   recursion-depth cap;
//! - [`sampling`]: the bounded retry rule of the rejection samplers;
//! - [`raster`]: the render settings and the layout of the output image.

pub mod path;
pub mod sampling;
pub mod raster;
