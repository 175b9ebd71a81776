//! Exact ray casting against a single sphere.
//!
//! Geometry is carried on integer lattice coordinates, so every decision
//! (hit or miss, the colour of a pixel, the bytes of the image) is computed
//! exactly and proved against a mathematical statement of what it means.
pub mod ppm;
pub mod render;
pub mod sphere;
pub mod vec3;
