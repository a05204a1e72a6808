//! Video encoding: rate control, the structure of a stream, and what is
//! recorded for each frame.

pub mod h264;
pub mod rate_control;
pub mod session;
pub mod stats;
