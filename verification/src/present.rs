//! Presentation: buffers that are drawn to and shown in turn, the queue of
//! frames on their way to the screen, and what is told about them.

pub mod damage;
pub mod draw;
pub mod feedback;
pub mod layer_tree;
pub mod presenter;
pub mod queue;
