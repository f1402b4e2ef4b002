//! Verified core of a sphere path tracer.
//!
//! The sampling, intersection and shading arithmetic of the tracer runs on
//! floating-point numbers and therefore lives with the renderer binary; what
//! is verified here is the part of the pipeline that is exact: the RGB raster
//! that the workers fill and hand to the PNG encoder, the round-robin
//! partition of image rows over parallel workers, and the integer algebra of
//! the reflection law used by the specular materials.

pub mod image;
pub mod reflection;
pub mod schedule;
