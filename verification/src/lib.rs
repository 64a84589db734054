//! Logic of a small wgpu/winit viewer: the binary model format, the vertex
//! layout it shares with the GPU pipeline, the window registry, the surface
//! size state, the event dispatch table and the HSV sector table of the
//! cursor-driven clear colour. The window system and the GPU stay outside.

pub mod color;
pub mod model;
pub mod codec;
pub mod windows;
pub mod surface;
pub mod events;
pub mod reload;
