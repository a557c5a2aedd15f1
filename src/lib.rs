//! Builds a scene of integer vector outlines into per-object tile coverage,
//! with a per-tile occlusion buffer shared by all objects of a build pass.
pub mod geometry;
pub mod paint;
pub mod scene;
pub mod tiles;
pub mod z_buffer;
pub mod svg;
pub mod raster;
