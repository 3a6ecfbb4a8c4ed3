//! What the library promises, told apart from how it is computed.

pub mod brackets;
pub mod capture;
pub mod clipboard;
pub mod frames;
pub mod images;
pub mod input;
pub mod palette;
pub mod present;
pub mod render;
pub mod renderer;
pub mod report;
pub mod text;
pub mod window;
