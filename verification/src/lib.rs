//! A Whitted-style recursive ray tracer: spheres with diffuse, specular,
//! mirror and refractive materials, lit by point lights, rendered to an
//! 8-bit RGB raster.
//!
//! All geometry and color arithmetic runs on saturating decimal
//! fixed-point scalars (millionths, see [`fx`]), so every function of
//! the core carries an exact contract, and the algebraic properties of
//! the shading formulas are proved in [`laws`].

pub mod fx;
pub mod vec3;
pub mod material;
pub mod light;
pub mod sphere;
pub mod rendering;
pub mod scene;
pub mod laws;
