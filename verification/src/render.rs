//! Rendering: how a scene is laid out for the GPU, what is made for it, and what
//! comes back.

pub mod encode;
pub mod instance_buffer;
pub mod renderer;
pub mod resources;
