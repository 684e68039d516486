//! Streaming and meshing of a procedurally generated voxel world around a
//! moving observer: the chunk data model, the face-culling mesh builder and the
//! scheduler that loads, meshes and evicts chunks under bounded queues.

pub mod color;
pub mod rendering;
pub mod voxel_tools;
