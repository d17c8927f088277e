//! Debug line overlays: a registry of line containers, the layout of the
//! vertex buffer that draws them, and the shapes (point markers, rays,
//! boxes, grids) that the overlays are built from.
//!
//! Positions, colors and poses are type parameters: the library arranges,
//! stores and lays them out, and never computes with their coordinates.

pub mod geometry;
pub mod registry;
pub mod lines;
