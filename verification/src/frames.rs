//! When a frame is produced and shown: the begin-frame protocol, the choice of
//! a deadline, and the cap on swaps in flight.

pub mod deadlines;
pub mod swaps;
pub mod begin_frame;
pub mod display_link;
