//! Rainbow brackets: which accent a bracket pair gets, and how a theme's
//! accents are adjusted so that neighbouring depths can be told apart.

pub mod palette;
pub mod single;
pub mod auto_mode;
pub mod ranges;
pub mod highlights;
pub mod fetched;
pub mod colorize;
pub mod depths;
