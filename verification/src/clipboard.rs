//! The clipboard: what is copied to it and read from it.

pub mod image;
pub mod item;
