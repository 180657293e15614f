//! Voxel surface meshing: an occupancy grid becomes a flat-shaded triangle mesh
//! made of one unit quad for every face between a solid cell and empty space.
//!
//! All geometry is exact: coordinates are integers counted in half cell widths,
//! so a cell centre and its corners are all representable.

pub mod geometry;
pub mod grid;
pub mod mesher;
pub mod shading;
