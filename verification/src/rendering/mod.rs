//! Resources shared with the renderer.

pub mod gpu_resources;
