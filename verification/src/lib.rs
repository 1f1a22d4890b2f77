//! Streaming voxel world core: a spatial chunk registry with a deterministic
//! coordinate linearization, a flag-driven chunk lifecycle, a procedural
//! terrain generator, an occlusion-aware mesher, and viewpoint-driven chunk
//! discovery.
//!
//! Everything here is pure data manipulation: sampling coherent noise,
//! spawning renderable entities and scheduling worker tasks are left to the
//! embedding application, which talks to this crate through plain values
//! (coordinates, flag sets, voxel buffers, mesh buffers, action lists).

pub mod chunk;
pub mod coords;
pub mod discovery;
pub mod fixed;
pub mod frustum;
pub mod generation;
pub mod lifecycle;
pub mod mesh;
pub mod registry;
pub mod spiral;
pub mod task;
pub mod voxel;
