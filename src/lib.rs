//! An Intcode virtual machine with verified decoding, execution and I/O
//! queues, together with a few puzzle helpers that drive it.

pub mod intcode;
pub mod parse;
pub mod problem;
pub mod render;
pub mod days;
