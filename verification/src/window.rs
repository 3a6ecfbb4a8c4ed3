//! Windows: their title bars, their placement and the options they open with.

pub mod button_layout;
pub mod decorations;
pub mod display;
pub mod options;
pub mod prompt;
