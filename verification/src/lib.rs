//! A grid raycaster in fixed-point arithmetic: a tile map, a camera, the
//! per-column grid traversal that finds the wall a ray meets, and the
//! projection of that wall into a vertical stripe of a frame buffer.

pub mod application;
pub mod color;
pub mod fixed;
pub mod framebuffer;
pub mod grid;
pub mod laws;
pub mod player;
pub mod raycasting;
pub mod texture;
