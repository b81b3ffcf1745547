//! Integer core of a 3D escape-time fractal projector: the voxel grid, the
//! configuration rules, the front-to-back column scan and the rasteriser that
//! collapses a cube of voxels into a row-major 8-bit intensity buffer.
//!
//! The per-voxel numeric kernel is supplied by the caller as a probe: a
//! deterministic function from a voxel to its outcome (`Some(level)` when the
//! iterated point stays bounded, `None` when it escapes).

pub mod config;
pub mod grid;
pub mod raster;
pub mod scan;
