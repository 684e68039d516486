//! The voxel world: voxels, chunks, face geometry and the streaming manager.

pub mod chunk;
pub mod chunks;
pub mod direction;
pub mod keyed;
pub mod mesh_builder;
pub mod pool;
pub mod position;
pub mod quad;
pub mod schedule;
pub mod seams;
pub mod voxel;
