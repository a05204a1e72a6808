//! The messages that clients and the server exchange, with the fields that
//! decide what is done. Fields that a client sends as numbers are given as the
//! value that the number stands for, if it stands for one.

use vstd::prelude::*;
use bytes::Bytes;
use crate::codec::{AudioCodec, VideoCodec, VideoProfile};
use crate::control::DisplayParams;
use crate::input::{
    Button, ButtonState, ClientCursorIcon, Divided, GamepadAxis, GamepadButton, Key, KeyState, Real,
    ScrollType,
};
use crate::pixel_scale::ProtocolPixelScale;
use crate::server::chunk::FecMetadata;

verus! {

#[derive(Debug, Clone, Copy, PartialEq, Eq, Structural)]
pub enum ErrorCode {
    ErrorServer,
    ErrorProtocol,
    ErrorProtocolUnexpectedMessage,
    ErrorSessionNotFound,
    ErrorSessionLaunchFailed,
    ErrorSessionParamsNotSupported,
    ErrorAttachmentParamsNotSupported,
    ErrorApplicationNotFound,
}

/// Why a request failed, with a text for the client.
pub struct ServerError(pub ErrorCode, pub Option<String>);

/// An error, with its text as a sequence of characters.
#[verifier::ext_equal]
pub struct ServerErrorView(pub ErrorCode, pub Option<Seq<char>>);

pub open spec fn text_view(text: Option<String>) -> Option<Seq<char>> {
    match text {
        Some(t) => Some(t@),
        None => None,
    }
}

impl View for ServerError {
    type V = ServerErrorView;

    open spec fn view(&self) -> ServerErrorView {
        ServerErrorView(self.0, text_view(self.1))
    }
}

/// An error with a text.
pub fn server_error(code: ErrorCode, text: &str) -> (error: ServerError)
    ensures
        error@ == ServerErrorView(code, Some(text@)),
{
    ServerError(code, Some(text.to_owned()))
}

/// The error message that a client gets.
pub struct ErrorMessage {
    pub err_code: ErrorCode,
    pub error_text: String,
}

impl ServerError {
    /// The message for this error; without a text it is empty.
    pub fn into_message(self) -> (message: ErrorMessage)
        ensures
            message.err_code == self.0,
            message.error_text@ == match self@.1 {
                Some(text) => text,
                None => Seq::empty(),
            },
    {
        ErrorMessage {
            err_code: self.0,
            error_text: match self.1 {
                Some(text) => text,
                None => String::new(),
            },
        }
    }
}

#[derive(Debug, Clone, Copy, PartialEq, Eq, Structural)]
pub struct Size {
    pub width: u32,
    pub height: u32,
}

/// The codec that a client asks for.
#[derive(Debug, Clone, Copy, PartialEq, Eq, Structural)]
pub enum VideoCodecField {
    /// The number stands for nothing.
    Malformed,
    /// The client leaves the choice to the server.
    Unknown,
    /// A codec that the server does not have.
    Unsupported,
    Codec(VideoCodec),
}

#[derive(Debug, Clone, Copy, PartialEq, Eq, Structural)]
pub enum AudioCodecField {
    Malformed,
    Unknown,
    Unsupported,
    Codec(AudioCodec),
}

#[derive(Debug, Clone, Copy, PartialEq, Eq, Structural)]
pub struct VirtualDisplayParameters {
    pub resolution: Option<Size>,
    pub framerate_hz: u32,
    pub ui_scale: Option<ProtocolPixelScale>,
}

/// A display, as clients are told of it.
pub open spec fn display_message(params: DisplayParams) -> VirtualDisplayParameters {
    VirtualDisplayParameters {
        resolution: Some(Size { width: params.width, height: params.height }),
        framerate_hz: params.framerate,
        ui_scale: Some(
            ProtocolPixelScale {
                numerator: params.ui_scale.0,
                denominator: params.ui_scale.1,
            },
        ),
    }
}

impl VirtualDisplayParameters {
    /// Describes a display to clients.
    pub fn from_display(params: DisplayParams) -> (message: VirtualDisplayParameters)
        ensures
            message == display_message(params),
    {
        VirtualDisplayParameters {
            resolution: Some(Size { width: params.width, height: params.height }),
            framerate_hz: params.framerate,
            ui_scale: Some(params.ui_scale.to_protocol()),
        }
    }
}

#[derive(Debug, Clone, Copy, PartialEq, Eq, Structural)]
pub enum AttachmentType {
    Operator,
    Other,
}

/// A gamepad, with the number of its layout.
#[derive(Debug, Clone, Copy, PartialEq, Eq, Structural)]
pub struct Gamepad {
    pub id: u64,
    pub layout: i32,
}

pub struct Attach {
    pub session_id: u64,
    pub attachment_type: AttachmentType,
    pub streaming_resolution: Option<Size>,
    pub video_codec: VideoCodecField,
    pub video_profile: VideoProfile,
    pub quality_preset: u32,
    pub sample_rate_hz: u32,
    /// For each channel, whether its number stands for one; if it does not,
    /// what is wrong with it.
    pub channels: Option<Vec<Result<(), String>>>,
    pub audio_codec: AudioCodecField,
}

/// A message of a client on the stream of an attachment.
pub enum ClientMessage {
    KeepAlive,
    Detach,
    RequestVideoRefresh { stream_seq: u64 },
    KeyboardInput { key: Option<Key>, state: Option<KeyState>, character: u32 },
    PointerMotion { x: Real, y: Real },
    RelativePointerMotion { x: Real, y: Real },
    PointerEntered,
    PointerLeft,
    PointerInput { button: Option<Button>, state: Option<ButtonState>, x: Real, y: Real },
    PointerScroll { scroll_type: Option<ScrollType>, x: Real, y: Real },
    /// With the id of the gamepad, or what is wrong with its description.
    GamepadAvailable { gamepad: Result<u64, String> },
    GamepadUnavailable { id: u64 },
    GamepadMotion { gamepad_id: u64, axis: Option<GamepadAxis>, value: Real },
    GamepadInput {
        gamepad_id: u64,
        button: Option<GamepadButton>,
        state: Option<ButtonState>,
    },
    Error,
    /// Any other message.
    Other,
}

/// A message of the server on the stream of an attachment.
pub enum ServerMessage {
    SessionEnded,
    SessionParametersChanged {
        display_params: VirtualDisplayParameters,
        supported_streaming_resolutions: Vec<Size>,
        reattach_required: bool,
    },
    UpdateCursor {
        image: Option<Bytes>,
        icon: ClientCursorIcon,
        hotspot_x: u32,
        hotspot_y: u32,
    },
    LockPointer { x: Divided, y: Divided },
    ReleasePointer,
}

/// A chunk of a frame, as it is sent.
pub struct MediaChunk {
    pub session_id: u64,
    pub attachment_id: u64,
    pub stream_seq: u64,
    pub seq: u64,
    pub data: Bytes,
    pub chunk: u32,
    pub num_chunks: u32,
    /// The layer of a video frame; frames above the lowest can be left out.
    pub hierarchical_layer: u32,
    pub timestamp: u64,
    pub fec_metadata: Option<FecMetadata>,
}

impl MediaChunk {
    /// Whether a client can do without the frame: no other frame builds on one
    /// above the lowest layer.
    pub fn frame_optional(&self) -> (optional: bool)
        ensures
            optional == (self.hierarchical_layer != 0),
    {
        self.hierarchical_layer != 0
    }
}

/// Clients are told of a display as it is.
pub proof fn display_is_described_as_it_is(params: DisplayParams)
    ensures
        ({
            let message = display_message(params);
            &&& message.resolution matches Some(size) && size.width == params.width && size.height
                == params.height
            &&& message.framerate_hz == params.framerate
            &&& message.ui_scale matches Some(scale) && scale.numerator == params.ui_scale.0
                && scale.denominator == params.ui_scale.1
        }),
{
}

/// An error message says what the error is, and why, if that is known.
pub proof fn error_is_told_as_it_is(error: ServerError, message: ErrorMessage)
    requires
        call_ensures(ServerError::into_message, (error,), message),
    ensures
        message.err_code == error@.0,
        error@.1 matches Some(text) ==> message.error_text@ == text,
        error@.1 is None ==> message.error_text@.len() == 0,
{
}

/// Only frames of the lowest layer are needed by others.
pub proof fn lowest_layer_is_needed(chunk: &MediaChunk, optional: bool)
    requires
        call_ensures(MediaChunk::frame_optional, (chunk,), optional),
    ensures
        optional <==> chunk.hierarchical_layer > 0,
{
}

} // verus!
