//! The node kinds, the state they share, and the value that unifies them.

pub mod base;
pub mod camera;
pub mod handle;
pub mod light;
pub mod mesh;
pub mod node;
pub mod particle_system;
pub mod sprite;
pub mod transform;
