pub mod brackets;
pub mod text;
pub mod capture;
pub mod time;
pub mod rounding;
pub mod frames;
pub mod window;
pub mod geometry;
pub mod present;
pub mod render;
pub mod atlas;
pub mod clipboard;
pub mod text_system;
pub mod input;
pub mod laws;
