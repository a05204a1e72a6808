//! The logic of a game streaming server, with every rule stated and proved.

pub mod audio;
pub mod bytes_ext;
pub mod codec;
pub mod color_test;
pub mod compositor;
pub mod config;
pub mod container;
pub mod control;
pub mod encoder;
pub mod input;
pub mod latency_test;
pub mod math;
pub mod net;
pub mod pixel_scale;
pub mod preflight;
pub mod server;
pub mod session;
pub mod state;
pub mod text;
pub mod vulkan;
