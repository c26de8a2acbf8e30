//! Chunk face-mesh engine for a voxel world.
//!
//! A chunk is a 32x32x32 grid of typed, oriented blocks. This crate turns
//! such a grid into a compact quad mesh, keeps the mesh incrementally
//! correct as single blocks are placed or removed, sizes the backing
//! buffers, and casts rays through the grid to pick blocks.

pub mod face;
pub mod block;
pub mod chunk;
pub mod codec;
pub mod cull;
pub mod grid;
pub mod light;
pub mod ray;
pub mod registry;
pub mod sums;

pub use face::BlockFace;
