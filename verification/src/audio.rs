//! Audio: a PulseAudio server for the applications of a session.

pub mod decode;
pub mod playback;
pub mod pulse;
