//! The parameters of displays and of streams, and what a session is told.

use vstd::prelude::*;
use bytes::Bytes;
use crate::codec::{AudioCodec, VideoCodec, VideoProfile};
use crate::input::{ButtonState, CursorIcon, KeyState, Real, Scaled};
use crate::pixel_scale::PixelScale;

verus! {

#[derive(Debug, Clone, Copy, PartialEq, Eq, Structural)]
pub struct DisplayParams {
    pub width: u32,
    pub height: u32,
    pub framerate: u32,
    pub ui_scale: PixelScale,
}

#[derive(Debug, Clone, Copy, PartialEq, Eq, Structural)]
pub struct VideoStreamParams {
    pub width: u32,
    pub height: u32,
    pub codec: VideoCodec,
    pub preset: u32,
    pub profile: VideoProfile,
}

#[derive(Debug, Clone, Copy, PartialEq, Eq, Structural)]
pub struct AudioStreamParams {
    pub sample_rate: u32,
    pub channels: u32,
    pub codec: AudioCodec,
}

/// What a session is told by its clients.
#[derive(Debug, Clone, Copy, PartialEq, Eq, Structural)]
pub enum ControlMessage {
    Stop,
    Attach { id: u64, video_params: VideoStreamParams, audio_params: AudioStreamParams },
    Detach(u64),
    RequestVideoRefresh(u64),
    UpdateDisplayParams(DisplayParams),
    KeyboardInput { key_code: u32, state: KeyState, character: Option<char> },
    PointerEntered,
    PointerLeft,
    PointerMotion(Scaled, Scaled),
    RelativePointerMotion(Scaled, Scaled),
    PointerInput { x: Real, y: Real, button_code: u32, state: ButtonState },
    PointerAxis(Scaled, Scaled),
    PointerAxisDiscrete(Real, Real),
    GamepadAvailable(u64),
    GamepadUnavailable(u64),
    GamepadAxis { id: u64, axis_code: u32, value: Real },
    GamepadTrigger { id: u64, trigger_code: u32, value: Real },
    GamepadInput { id: u64, button_code: u32, state: ButtonState },
}

/// What a session tells its clients.
pub enum SessionEvent {
    DisplayParamsChanged { params: DisplayParams, reattach: bool },
    VideoFrame { stream_seq: u64, seq: u64, ts: u64, frame: Bytes, hierarchical_layer: u32 },
    AudioFrame { stream_seq: u64, seq: u64, ts: u64, frame: Bytes },
    CursorUpdate {
        image: Option<Bytes>,
        icon: Option<CursorIcon>,
        hotspot_x: u32,
        hotspot_y: u32,
    },
    PointerLocked(Real, Real),
    PointerReleased,
    Shutdown,
}

} // verus!
