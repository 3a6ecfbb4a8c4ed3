//! The tool that captures a theme's bracket colours: its options, the images
//! it composes and the report it writes.

pub mod slug;
pub mod labels;
pub mod frames;
pub mod options;
pub mod plan;
pub mod report;
