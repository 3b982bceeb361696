//! A verified core for a real-time voxel scene engine.
//!
//! The crate models the engine's deferred command protocol (setup / update /
//! render command buffers), its frustum-and-distance visibility pipeline, and
//! its bit-packed voxel chunk storage.  World geometry is carried in 64-bit
//! fixed-point coordinates (see [`math`]); the floating-point device layer
//! around the library converts at the boundary.

pub mod app;
pub mod camera;
pub mod chunks;
pub mod command_buffer;
pub mod frustum;
pub mod input;
pub mod instance;
pub mod math;
