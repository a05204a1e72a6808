//! One attachment: what its client asks of the session, and what the session
//! tells the client.

use vstd::prelude::*;
use crate::codec::{AudioCodec, VideoCodec, VideoProfile};
use crate::control::{
    AudioStreamParams, ControlMessage, DisplayParams, SessionEvent, VideoStreamParams,
};
use crate::input::{
    axis_to_evdev, button_to_evdev, cursor_icon_to_proto, gamepad_button_to_evdev, key_to_evdev,
    Button, ButtonState, ClientCursorIcon, Divided, GamepadAxis, GamepadButton, Key, KeyState, Real,
    Scaled, ScrollType,
};
use crate::server::chunk::{iter_chunks, Chunk};
use crate::server::protocol::{
    Attach, AttachmentType, ClientMessage, ErrorCode, MediaChunk, ServerError, ServerErrorView,
    ServerMessage, Size, VirtualDisplayParameters, server_error,
};
use crate::server::stream::{chunk_messages, CHUNK_HEADROOM};
use crate::server::validation::{validate_attachment, validation_error};
use crate::session::{AttachOutcome, Session};
use crate::state::ServerState;

verus! {

/// How long a client may be silent, in seconds.
pub const KEEPALIVE_TIMEOUT: u64 = 30;

/// Why an attachment ends.
pub enum AttachmentError {
    Finished,
    ServerError(ServerError),
}

#[verifier::ext_equal]
pub enum AttachmentErrorView {
    Finished,
    ServerError(ServerErrorView),
}

impl View for AttachmentError {
    type V = AttachmentErrorView;

    open spec fn view(&self) -> AttachmentErrorView {
        match *self {
            AttachmentError::Finished => AttachmentErrorView::Finished,
            AttachmentError::ServerError(err) => AttachmentErrorView::ServerError(err@),
        }
    }
}

fn protocol_error(text: &str) -> (error: AttachmentError)
    ensures
        error@ == protocol_failure(text@),
{
    AttachmentError::ServerError(server_error(ErrorCode::ErrorProtocol, text))
}

pub open spec fn protocol_failure(text: Seq<char>) -> AttachmentErrorView {
    AttachmentErrorView::ServerError(ServerErrorView(ErrorCode::ErrorProtocol, Some(text)))
}

pub open spec fn agrees<T>(
    result: Result<T, AttachmentError>,
    expected: Result<T, AttachmentErrorView>,
) -> bool {
    match (result, expected) {
        (Ok(a), Ok(b)) => a == b,
        (Err(a), Err(b)) => a@ == b,
        _ => false,
    }
}

/// `char::from_u32`: the character with a number, if there is one.
#[verifier::external_body]
fn char_from_u32(code: u32) -> (character: Option<char>)
    ensures
        match character {
            Some(c) => is_scalar_value(code) && c == code as char,
            None => !is_scalar_value(code),
        },
{
    char::from_u32(code)
}

/// The numbers of characters.
pub open spec fn is_scalar_value(code: u32) -> bool {
    code <= 0xd7ff || 0xe000 <= code <= 0x10ffff
}

/// What a message of a client becomes for the session: a control message, or
/// nothing, or the end of the attachment.
pub open spec fn translated(superscale: u32, message: ClientMessage) -> Result<
    Option<ControlMessage>,
    AttachmentErrorView,
> {
    match message {
        ClientMessage::KeepAlive => Ok(None),
        ClientMessage::Detach => Err(AttachmentErrorView::Finished),
        ClientMessage::RequestVideoRefresh { stream_seq } => Ok(
            Some(ControlMessage::RequestVideoRefresh(stream_seq)),
        ),
        ClientMessage::KeyboardInput { key, state, character } => match state {
            None => Err(protocol_failure("invalid key state"@)),
            Some(state) => if key is None || crate::input::key_code(key->0) is None {
                Err(protocol_failure("invalid key"@))
            } else if character != 0 && !is_scalar_value(character) {
                Err(protocol_failure("invalid keychar"@))
            } else {
                Ok(
                    Some(
                        ControlMessage::KeyboardInput {
                            key_code: crate::input::key_code(key->0)->0,
                            state,
                            character: if character == 0 {
                                None
                            } else {
                                Some(character as char)
                            },
                        },
                    ),
                )
            },
        },
        ClientMessage::PointerMotion { x, y } => Ok(
            Some(
                ControlMessage::PointerMotion(
                    Scaled { value: x, factor: superscale },
                    Scaled { value: y, factor: superscale },
                ),
            ),
        ),
        ClientMessage::RelativePointerMotion { x, y } => Ok(
            Some(
                ControlMessage::RelativePointerMotion(
                    Scaled { value: x, factor: superscale },
                    Scaled { value: y, factor: superscale },
                ),
            ),
        ),
        ClientMessage::PointerEntered => Ok(Some(ControlMessage::PointerEntered)),
        ClientMessage::PointerLeft => Ok(Some(ControlMessage::PointerLeft)),
        ClientMessage::PointerInput { button, state, x, y } => match state {
            None => Err(protocol_failure("invalid button state"@)),
            Some(state) => if button is None || crate::input::button_code(button->0) is None {
                Err(protocol_failure("invalid button"@))
            } else {
                Ok(
                    Some(
                        ControlMessage::PointerInput {
                            x,
                            y,
                            button_code: crate::input::button_code(button->0)->0,
                            state,
                        },
                    ),
                )
            },
        },
        ClientMessage::PointerScroll { scroll_type, x, y } => match scroll_type {
            Some(ScrollType::Continuous) => Ok(
                Some(
                    ControlMessage::PointerAxis(
                        Scaled { value: x, factor: superscale },
                        Scaled { value: y, factor: superscale },
                    ),
                ),
            ),
            Some(ScrollType::Discrete) => Ok(Some(ControlMessage::PointerAxisDiscrete(x, y))),
            _ => Err(protocol_failure("invalid scroll type"@)),
        },
        ClientMessage::GamepadAvailable { gamepad } => match gamepad {
            Ok(id) => Ok(Some(ControlMessage::GamepadAvailable(id))),
            Err(text) => Err(protocol_failure(text@)),
        },
        ClientMessage::GamepadUnavailable { id } => Ok(
            Some(ControlMessage::GamepadUnavailable(id)),
        ),
        ClientMessage::GamepadMotion { gamepad_id, axis, value } => {
            if axis is None || crate::input::axis_code(axis->0) is None {
                Err(protocol_failure("invalid gamepad axis"@))
            } else {
                let (code, is_trigger) = crate::input::axis_code(axis->0)->0;
                Ok(
                    Some(
                        if is_trigger {
                            ControlMessage::GamepadTrigger {
                                id: gamepad_id,
                                trigger_code: code,
                                value,
                            }
                        } else {
                            ControlMessage::GamepadAxis { id: gamepad_id, axis_code: code, value }
                        },
                    ),
                )
            }
        },
        ClientMessage::GamepadInput { gamepad_id, button, state } => match state {
            None => Err(protocol_failure("invalid gamepad button state"@)),
            Some(state) => if button is None || crate::input::gamepad_code(button->0) is None {
                Err(protocol_failure("invalid gamepad button"@))
            } else {
                Ok(
                    Some(
                        ControlMessage::GamepadInput {
                            id: gamepad_id,
                            button_code: crate::input::gamepad_code(button->0)->0,
                            state,
                        },
                    ),
                )
            },
        },
        ClientMessage::Error => Ok(None),
        ClientMessage::Other => Err(
            AttachmentErrorView::ServerError(
                ServerErrorView(ErrorCode::ErrorProtocolUnexpectedMessage, None),
            ),
        ),
    }
}

/// What an attachment sends and does, in the order given.
pub enum Output {
    Send(ServerMessage),
    Datagrams(Vec<MediaChunk>),
}

pub struct AttachmentHandler {
    pub session_id: u64,
    pub attachment_id: u64,
    pub session_display_params: DisplayParams,
    /// How many pixels of the display there are for each pixel of the video.
    pub superscale: u32,
    /// Where in the video the pointer is locked, if it is.
    pub pointer_lock: Option<(Divided, Divided)>,
    pub chunk_size: usize,
}

/// The resolutions in which a display can be streamed.
pub open spec fn streaming_resolutions(params: DisplayParams) -> Seq<Size> {
    seq![Size { width: params.width, height: params.height }]
}

/// A display is streamed in its own resolution only.
pub fn generate_streaming_res(params: &DisplayParams) -> (sizes: Vec<Size>)
    ensures
        sizes@ == streaming_resolutions(*params),
{
    let mut sizes: Vec<Size> = Vec::new();
    sizes.push(Size { width: params.width, height: params.height });
    assert(sizes@ =~= streaming_resolutions(*params));
    sizes
}

/// Checks the parameters of an attachment, before the session is looked for.
pub fn check_attach(message: &Attach) -> (result: Result<
    (VideoStreamParams, AudioStreamParams),
    ServerError,
>)
    ensures
        message.attachment_type != AttachmentType::Operator ==> (result matches Err(err) && err@
            == ServerErrorView(
            ErrorCode::ErrorAttachmentParamsNotSupported,
            Some("unsupported attachment type"@),
        )),
        message.attachment_type == AttachmentType::Operator ==> exists|
            channels: Result<u32, crate::server::validation::ValidationErrorView>,
        | #[trigger]
            crate::server::validation::valid_channels(message.channels, channels) && match (
                result,
                crate::server::validation::valid_attachment(*message, channels),
            ) {
                (Ok(a), Ok(b)) => a == b,
                (Err(a), Err(b)) => a@ == crate::server::validation::validation_failure(b, true),
                _ => false,
            },
{
    if message.attachment_type != AttachmentType::Operator {
        return Err(
            server_error(
                ErrorCode::ErrorAttachmentParamsNotSupported,
                "unsupported attachment type",
            ),
        );
    }
    match validate_attachment(message) {
        Ok(params) => Ok(params),
        Err(err) => Err(validation_error(err, true)),
    }
}

/// A session whose display has the size of the stream, or a multiple of it,
/// the same in both directions.
pub open spec fn scales_to(display: DisplayParams, video: VideoStreamParams) -> bool {
    &&& video.width > 0
    &&& video.height > 0
    &&& display.height % video.height == 0
    &&& display.width == video.width * (display.height / video.height)
}

/// A position on the display, as one in the video.
pub open spec fn lock_position(x: Real, y: Real, superscale: u32) -> (Divided, Divided) {
    (Divided { value: x, divisor: superscale }, Divided { value: y, divisor: superscale })
}

/// What an attachment does with an event of its session: what it sends,
/// whether it is over, and what it keeps in mind.
pub open spec fn passes_on(
    before: AttachmentHandler,
    event: SessionEvent,
    repair: Option<u32>,
    outputs: Seq<Output>,
    finished: bool,
    after: AttachmentHandler,
) -> bool {
    match event {
        SessionEvent::Shutdown => {
            &&& finished
            &&& outputs == seq![Output::Send(ServerMessage::SessionEnded)]
            &&& after == before
        },
        SessionEvent::DisplayParamsChanged { params, reattach } => {
            &&& finished == reattach
            &&& outputs.len() == 1
            &&& outputs[0] matches Output::Send(
                ServerMessage::SessionParametersChanged {
                    display_params,
                    supported_streaming_resolutions,
                    reattach_required,
                },
            ) && display_params == crate::server::protocol::display_message(params)
                && supported_streaming_resolutions@
                == streaming_resolutions(params) && reattach_required == reattach
            &&& after == (AttachmentHandler {
                session_display_params: params,
                ..before
            })
        },
        SessionEvent::VideoFrame { stream_seq, seq, ts, frame, hierarchical_layer } => {
            &&& !finished
            &&& outputs.len() == 1
            &&& outputs[0] matches Output::Datagrams(messages) && before.carries_frame(
                messages@,
                stream_seq,
                seq,
                hierarchical_layer,
                ts,
                crate::bytes_ext::contents(frame),
                repair,
            )
            &&& after == before
        },
        SessionEvent::AudioFrame { stream_seq, seq, ts, frame } => {
            &&& !finished
            &&& outputs.len() == 1
            &&& outputs[0] matches Output::Datagrams(messages) && before.carries_frame(
                messages@,
                stream_seq,
                seq,
                0,
                ts,
                crate::bytes_ext::contents(frame),
                None,
            )
            &&& after == before
        },
        SessionEvent::CursorUpdate { image, icon, hotspot_x, hotspot_y } => {
            &&& !finished
            &&& outputs == seq![
                Output::Send(
                    ServerMessage::UpdateCursor {
                        image,
                        icon: match icon {
                            Some(icon) => crate::input::client_icon(icon),
                            None => ClientCursorIcon::Hidden,
                        },
                        hotspot_x,
                        hotspot_y,
                    },
                ),
            ]
            &&& after == before
        },
        SessionEvent::PointerLocked(x, y) => {
            let (x, y) = lock_position(x, y, before.superscale);
            &&& !finished
            &&& outputs == if before.pointer_lock is None {
                seq![Output::Send(ServerMessage::LockPointer { x, y })]
            } else {
                Seq::empty()
            }
            &&& after == (AttachmentHandler {
                pointer_lock: Some((x, y)),
                ..before
            })
        },
        SessionEvent::PointerReleased => {
            &&& !finished
            &&& outputs == if before.pointer_lock is Some {
                seq![Output::Send(ServerMessage::ReleasePointer)]
            } else {
                Seq::empty()
            }
            &&& after == (AttachmentHandler {
                pointer_lock: None,
                ..before
            })
        },
    }
}

impl AttachmentHandler {
    /// An attachment to a session.
    pub fn new(
        session_id: u64,
        attachment_id: u64,
        display_params: DisplayParams,
        video_params: VideoStreamParams,
        max_dgram_len: usize,
    ) -> (handler: AttachmentHandler)
        requires
            scales_to(display_params, video_params),
            max_dgram_len >= CHUNK_HEADROOM,
        ensures
            handler == (AttachmentHandler {
                session_id,
                attachment_id,
                session_display_params: display_params,
                superscale: display_params.height / video_params.height,
                pointer_lock: None,
                chunk_size: (max_dgram_len - CHUNK_HEADROOM) as usize,
            }),
    {
        AttachmentHandler {
            session_id,
            attachment_id,
            session_display_params: display_params,
            superscale: display_params.height / video_params.height,
            pointer_lock: None,
            chunk_size: max_dgram_len - CHUNK_HEADROOM,
        }
    }

    /// Translates a message of the client for the session.
    pub fn handle_attachment_message(&self, message: ClientMessage) -> (result: Result<
        Option<ControlMessage>,
        AttachmentError,
    >)
        ensures
            agrees(result, translated(self.superscale, message)),
    {
        match message {
            ClientMessage::KeepAlive => Ok(None),
            ClientMessage::Detach => Err(AttachmentError::Finished),
            ClientMessage::RequestVideoRefresh { stream_seq } => Ok(
                Some(ControlMessage::RequestVideoRefresh(stream_seq)),
            ),
            ClientMessage::KeyboardInput { key, state, character } => {
                let state = match state {
                    Some(state) => state,
                    None => {
                        return Err(protocol_error("invalid key state"));
                    },
                };
                let code = match key {
                    Some(key) => key_to_evdev(key),
                    None => None,
                };
                let key_code: u32 = match code {
                    Some(code) => code,
                    None => {
                        return Err(protocol_error("invalid key"));
                    },
                };
                let character: Option<char> = if character == 0 {
                    None
                } else {
                    match char_from_u32(character) {
                        Some(c) => Some(c),
                        None => {
                            return Err(protocol_error("invalid keychar"));
                        },
                    }
                };
                Ok(Some(ControlMessage::KeyboardInput { key_code, state, character }))
            },
            ClientMessage::PointerMotion { x, y } => Ok(
                Some(ControlMessage::PointerMotion(self.scaled(x), self.scaled(y))),
            ),
            ClientMessage::RelativePointerMotion { x, y } => Ok(
                Some(ControlMessage::RelativePointerMotion(self.scaled(x), self.scaled(y))),
            ),
            ClientMessage::PointerEntered => Ok(Some(ControlMessage::PointerEntered)),
            ClientMessage::PointerLeft => Ok(Some(ControlMessage::PointerLeft)),
            ClientMessage::PointerInput { button, state, x, y } => {
                let state = match state {
                    Some(state) => state,
                    None => {
                        return Err(protocol_error("invalid button state"));
                    },
                };
                let code = match button {
                    Some(button) => button_to_evdev(button),
                    None => None,
                };
                match code {
                    Some(button_code) => Ok(
                        Some(ControlMessage::PointerInput { x, y, button_code, state }),
                    ),
                    None => Err(protocol_error("invalid button")),
                }
            },
            ClientMessage::PointerScroll { scroll_type, x, y } => match scroll_type {
                Some(ScrollType::Continuous) => Ok(
                    Some(ControlMessage::PointerAxis(self.scaled(x), self.scaled(y))),
                ),
                Some(ScrollType::Discrete) => Ok(Some(ControlMessage::PointerAxisDiscrete(x, y))),
                _ => Err(protocol_error("invalid scroll type")),
            },
            ClientMessage::GamepadAvailable { gamepad } => match gamepad {
                Ok(id) => Ok(Some(ControlMessage::GamepadAvailable(id))),
                Err(text) => Err(protocol_error(text.as_str())),
            },
            ClientMessage::GamepadUnavailable { id } => Ok(
                Some(ControlMessage::GamepadUnavailable(id)),
            ),
            ClientMessage::GamepadMotion { gamepad_id, axis, value } => {
                let code = match axis {
                    Some(axis) => axis_to_evdev(axis),
                    None => None,
                };
                match code {
                    Some((code, true)) => Ok(
                        Some(
                            ControlMessage::GamepadTrigger {
                                id: gamepad_id,
                                trigger_code: code,
                                value,
                            },
                        ),
                    ),
                    Some((code, false)) => Ok(
                        Some(
                            ControlMessage::GamepadAxis { id: gamepad_id, axis_code: code, value },
                        ),
                    ),
                    None => Err(protocol_error("invalid gamepad axis")),
                }
            },
            ClientMessage::GamepadInput { gamepad_id, button, state } => {
                let state: ButtonState = match state {
                    Some(state) => state,
                    None => {
                        return Err(protocol_error("invalid gamepad button state"));
                    },
                };
                let code = match button {
                    Some(button) => gamepad_button_to_evdev(button),
                    None => None,
                };
                match code {
                    Some(button_code) => Ok(
                        Some(ControlMessage::GamepadInput { id: gamepad_id, button_code, state }),
                    ),
                    None => Err(protocol_error("invalid gamepad button")),
                }
            },
            ClientMessage::Error => Ok(None),
            ClientMessage::Other => Err(
                AttachmentError::ServerError(
                    ServerError(ErrorCode::ErrorProtocolUnexpectedMessage, None),
                ),
            ),
        }
    }

    fn scaled(&self, value: Real) -> (scaled: Scaled)
        ensures
            scaled == (Scaled { value, factor: self.superscale }),
    {
        Scaled { value, factor: self.superscale }
    }

    fn divided(&self, value: Real) -> (divided: Divided)
        ensures
            divided == (Divided { value, divisor: self.superscale }),
    {
        Divided { value, divisor: self.superscale }
    }

    /// The chunks of this frame can be made.
    pub open spec fn can_send(self, event: SessionEvent, repair: Option<u32>) -> bool {
        match event {
            SessionEvent::VideoFrame { frame, .. } => crate::server::chunk::chunkable(
                crate::bytes_ext::contents(frame).len() as int,
                self.chunk_size,
                repair,
            ),
            SessionEvent::AudioFrame { frame, .. } => crate::server::chunk::chunkable(
                crate::bytes_ext::contents(frame).len() as int,
                self.chunk_size,
                None,
            ),
            _ => true,
        }
    }

    /// Passes on an event of the session. `repair` is the number of chunks
    /// that are added to a video frame for error correction, if there is any.
    /// Returns what is sent, and whether the attachment is over.
    pub fn handle_session_event(&mut self, event: SessionEvent, repair: Option<u32>) -> (result: (
        Vec<Output>,
        bool,
    ))
        requires
            old(self).can_send(event, repair),
        ensures
            passes_on(*old(self), event, repair, result.0@, result.1, *final(self)),
    {
        let mut outputs: Vec<Output> = Vec::new();
        let mut finished = false;
        match event {
            SessionEvent::Shutdown => {
                outputs.push(Output::Send(ServerMessage::SessionEnded));
                finished = true;
                assert(outputs@ =~= seq![Output::Send(ServerMessage::SessionEnded)]);
            },
            SessionEvent::DisplayParamsChanged { params, reattach } => {
                self.session_display_params = params;
                outputs.push(
                    Output::Send(
                        ServerMessage::SessionParametersChanged {
                            display_params: VirtualDisplayParameters::from_display(params),
                            supported_streaming_resolutions: generate_streaming_res(&params),
                            reattach_required: reattach,
                        },
                    ),
                );
                finished = reattach;
            },
            SessionEvent::VideoFrame { stream_seq, seq, ts, frame, hierarchical_layer } => {
                let chunks = iter_chunks(frame, self.chunk_size, repair);
                outputs.push(
                    Output::Datagrams(
                        chunk_messages(
                            chunks,
                            self.session_id,
                            self.attachment_id,
                            stream_seq,
                            seq,
                            hierarchical_layer,
                            ts,
                        ),
                    ),
                );
            },
            SessionEvent::AudioFrame { stream_seq, seq, ts, frame } => {
                let chunks = iter_chunks(frame, self.chunk_size, None);
                outputs.push(
                    Output::Datagrams(
                        chunk_messages(
                            chunks,
                            self.session_id,
                            self.attachment_id,
                            stream_seq,
                            seq,
                            0,
                            ts,
                        ),
                    ),
                );
            },
            SessionEvent::CursorUpdate { image, icon, hotspot_x, hotspot_y } => {
                let icon = match icon {
                    Some(icon) => cursor_icon_to_proto(icon),
                    None => ClientCursorIcon::Hidden,
                };
                outputs.push(
                    Output::Send(ServerMessage::UpdateCursor { image, icon, hotspot_x, hotspot_y }),
                );
                assert(outputs@ =~= seq![
                    Output::Send(ServerMessage::UpdateCursor { image, icon, hotspot_x, hotspot_y }),
                ]);
            },
            SessionEvent::PointerLocked(x, y) => {
                let x = self.divided(x);
                let y = self.divided(y);
                if self.pointer_lock.is_none() {
                    outputs.push(Output::Send(ServerMessage::LockPointer { x, y }));
                    assert(outputs@ =~= seq![Output::Send(ServerMessage::LockPointer { x, y })]);
                }
                self.pointer_lock = Some((x, y));
            },
            SessionEvent::PointerReleased => {
                if self.pointer_lock.is_some() {
                    outputs.push(Output::Send(ServerMessage::ReleasePointer));
                    assert(outputs@ =~= seq![Output::Send(ServerMessage::ReleasePointer)]);
                }
                self.pointer_lock = None;
            },
        }
        (outputs, finished)
    }

    /// The messages carry the chunks of a frame.
    pub open spec fn carries_frame(
        self,
        messages: Seq<MediaChunk>,
        stream_seq: u64,
        seq: u64,
        layer: u32,
        ts: u64,
        frame: Seq<u8>,
        repair: Option<u32>,
    ) -> bool {
        exists|chunks: Seq<Chunk>|
            #![trigger crate::server::chunk::chunks_of(chunks, frame, self.chunk_size, repair)]
            crate::server::chunk::chunks_of(chunks, frame, self.chunk_size, repair)
                && crate::server::stream::messages_for(
                messages,
                chunks,
                self.session_id,
                self.attachment_id,
                stream_seq,
                seq,
                layer,
                ts,
            )
    }
}

/// An attachment that the session is asked for.
pub struct AttachPlan {
    pub session_id: u64,
    pub attachment_id: u64,
    pub video_params: VideoStreamParams,
    pub audio_params: AudioStreamParams,
    pub message: ControlMessage,
}

/// What a client is told of its attachment.
#[derive(Debug, Clone, Copy, PartialEq, Eq, Structural)]
pub struct Attached {
    pub session_id: u64,
    pub attachment_id: u64,
    pub video_codec: VideoCodec,
    pub streaming_resolution: Size,
    pub video_profile: VideoProfile,
    pub quality_preset: u32,
    pub audio_codec: AudioCodec,
    pub sample_rate_hz: u32,
    /// The number of channels; each is listed as a mono channel.
    pub channels: u32,
}

pub open spec fn attach_failure() -> ServerErrorView {
    ServerErrorView(ErrorCode::ErrorServer, Some("failed to attach to session"@))
}

/// Why a session cannot be attached to, if anything stands against it.
pub open spec fn attach_refusal(
    sessions: Map<u64, Session>,
    session_id: u64,
    video_params: VideoStreamParams,
    codec_supported: bool,
) -> Option<ServerErrorView> {
    let session = sessions[session_id];
    if !sessions.contains_key(session_id) {
        Some(ServerErrorView(ErrorCode::ErrorSessionNotFound, None))
    } else if video_params.width != session.display_params.width || video_params.height
        != session.display_params.height || !codec_supported {
        Some(
            ServerErrorView(
                ErrorCode::ErrorAttachmentParamsNotSupported,
                Some("unsupported streaming resolution or codec"@),
            ),
        )
    } else if session.defunct || session.operator_attachment_id is Some {
        Some(attach_failure())
    } else {
        None
    }
}

/// Looks for the session that a client wants to attach to, with parameters
/// that were checked. `codec_supported` says whether the device can encode
/// with the codec.
pub fn begin_attach(
    state: &mut ServerState,
    session_id: u64,
    video_params: VideoStreamParams,
    audio_params: AudioStreamParams,
    codec_supported: bool,
) -> (result: Result<AttachPlan, ServerError>)
    ensures
        final(state).sessions@ == old(state).sessions@,
        final(state).session_seq == old(state).session_seq,
        match (
            result,
            attach_refusal(old(state).sessions@, session_id, video_params, codec_supported),
        ) {
            (Ok(plan), None) => {
                &&& plan.session_id == session_id
                &&& ServerState::gives_out(*old(state), *final(state), plan.attachment_id)
                &&& plan.video_params == video_params
                &&& plan.audio_params == audio_params
                &&& plan.message == (ControlMessage::Attach {
                    id: plan.attachment_id,
                    video_params,
                    audio_params,
                })
            },
            (Err(err), Some(refusal)) => {
                &&& err@ == refusal
                &&& exists|id: u64| #[trigger]
                    ServerState::gives_out(*old(state), *final(state), id)
            },
            _ => false,
        },
{
    let attachment_id: u64 = state.generate_attachment_id();
    assert(ServerState::gives_out(*old(state), *state, attachment_id));
    let session = match state.sessions.get(session_id) {
        Some(session) => session,
        None => {
            return Err(ServerError(ErrorCode::ErrorSessionNotFound, None));
        },
    };
    if !session.supports_stream(video_params, codec_supported) {
        return Err(
            server_error(
                ErrorCode::ErrorAttachmentParamsNotSupported,
                "unsupported streaming resolution or codec",
            ),
        );
    }
    match session.begin_attach(attachment_id, video_params, audio_params) {
        Ok(message) => Ok(
            AttachPlan { session_id, attachment_id, video_params, audio_params, message },
        ),
        Err(_) => Err(server_error(ErrorCode::ErrorServer, "failed to attach to session")),
    }
}

/// The session after an attachment was accepted, withdrawn or lost.
pub open spec fn after_attach(session: Session, id: u64, outcome: AttachOutcome) -> Session {
    match outcome {
        AttachOutcome::Accepted => Session {
            operator_attachment_id: Some(id),
            detached_since: None,
            ..session
        },
        AttachOutcome::TimedOut => session,
        AttachOutcome::Undelivered => Session { defunct: true, ..session },
    }
}

/// The attachment that was planned, and what its client is told of it.
pub open spec fn is_attached(
    plan: AttachPlan,
    display: DisplayParams,
    max_dgram_len: usize,
    handler: AttachmentHandler,
    attached: Attached,
) -> bool {
    &&& handler == (AttachmentHandler {
        session_id: plan.session_id,
        attachment_id: plan.attachment_id,
        session_display_params: display,
        superscale: display.height / plan.video_params.height,
        pointer_lock: None,
        chunk_size: (max_dgram_len - CHUNK_HEADROOM) as usize,
    })
    &&& attached == (Attached {
        session_id: plan.session_id,
        attachment_id: plan.attachment_id,
        video_codec: plan.video_params.codec,
        streaming_resolution: Size {
            width: plan.video_params.width,
            height: plan.video_params.height,
        },
        video_profile: plan.video_params.profile,
        quality_preset: plan.video_params.preset,
        audio_codec: plan.audio_params.codec,
        sample_rate_hz: plan.audio_params.sample_rate,
        channels: plan.audio_params.channels,
    })
}

/// Records what the session made of an attachment. If it was accepted, the
/// client is told so; if it timed out, it is withdrawn with the message that
/// is returned.
pub fn finish_attach(
    state: &mut ServerState,
    plan: &AttachPlan,
    outcome: AttachOutcome,
    max_dgram_len: usize,
) -> (result: (Result<(AttachmentHandler, Attached), ServerError>, Option<ControlMessage>))
    requires
        old(state).wf(),
        old(state).sessions@.contains_key(plan.session_id),
        scales_to(old(state).sessions@[plan.session_id].display_params, plan.video_params),
        max_dgram_len >= CHUNK_HEADROOM,
    ensures
        final(state).wf(),
        final(state).session_seq == old(state).session_seq,
        final(state).id_generator == old(state).id_generator,
        final(state).sessions@ == old(state).sessions@.insert(
            plan.session_id,
            after_attach(old(state).sessions@[plan.session_id], plan.attachment_id, outcome),
        ),
        result.1 == if outcome == AttachOutcome::TimedOut {
            Some(ControlMessage::Detach(plan.attachment_id))
        } else {
            None
        },
        match result.0 {
            Ok((handler, attached)) => outcome == AttachOutcome::Accepted && is_attached(
                *plan,
                old(state).sessions@[plan.session_id].display_params,
                max_dgram_len,
                handler,
                attached,
            ),
            Err(err) => outcome != AttachOutcome::Accepted && err@ == attach_failure(),
        },
{
    if let Some(session) = state.sessions.get_mut(plan.session_id) {
        let display_params = session.display_params;
        let (accepted, withdrawal) = session.finish_attach(plan.attachment_id, outcome);
        if accepted.is_err() {
            return (
                Err(server_error(ErrorCode::ErrorServer, "failed to attach to session")),
                withdrawal,
            );
        }
        let handler = AttachmentHandler::new(
            plan.session_id,
            plan.attachment_id,
            display_params,
            plan.video_params,
            max_dgram_len,
        );
        let attached = Attached {
            session_id: plan.session_id,
            attachment_id: plan.attachment_id,
            video_codec: plan.video_params.codec,
            streaming_resolution: Size {
                width: plan.video_params.width,
                height: plan.video_params.height,
            },
            video_profile: plan.video_params.profile,
            quality_preset: plan.video_params.preset,
            audio_codec: plan.audio_params.codec,
            sample_rate_hz: plan.audio_params.sample_rate,
            channels: plan.audio_params.channels,
        };
        return (Ok((handler, attached)), withdrawal);
    }
    (Err(server_error(ErrorCode::ErrorServer, "failed to attach to session")), None)
}

/// What an attachment waits for.
pub enum AttachmentInput {
    /// A message of the client.
    Message(ClientMessage),
    /// The client closed the stream.
    ClientFin,
    Event(SessionEvent),
    /// The session is gone without a word.
    SessionLost,
    /// The client was silent for too long.
    KeepaliveExpired,
}

/// How an attachment goes on.
pub enum Step {
    Continue {
        /// Told to the session.
        control: Option<ControlMessage>,
        /// Sent to the client.
        outputs: Vec<Output>,
        /// The client was heard of: its time starts anew.
        reset_keepalive: bool,
    },
    /// The attachment is over, after these were sent.
    Finished { outputs: Vec<Output> },
    /// The attachment is over; the client gets the error.
    Failed(ServerError),
}

/// A step of an attachment, and what it does to the sessions.
pub open spec fn steps(
    before: AttachmentHandler,
    sessions: Map<u64, Session>,
    input: AttachmentInput,
    repair: Option<u32>,
    step: Step,
    after: AttachmentHandler,
    sessions_after: Map<u64, Session>,
) -> bool {
    match input {
        AttachmentInput::Message(message) => {
            &&& after == before
            &&& sessions_after == sessions
            &&& match translated(before.superscale, message) {
                Ok(expected) => step matches Step::Continue { control, outputs, reset_keepalive }
                    && control == expected && outputs@.len() == 0 && reset_keepalive,
                Err(AttachmentErrorView::Finished) => step matches Step::Finished { outputs }
                    && outputs@.len() == 0,
                Err(AttachmentErrorView::ServerError(expected)) => step matches Step::Failed(err)
                    && err@ == expected,
            }
        },
        AttachmentInput::Event(event) => {
            &&& sessions_after == if event is Shutdown {
                sessions.remove(before.session_id)
            } else {
                sessions
            }
            &&& match step {
                Step::Continue { control, outputs, reset_keepalive } => control is None
                    && !reset_keepalive && passes_on(before, event, repair, outputs@, false, after),
                Step::Finished { outputs } => passes_on(
                    before,
                    event,
                    repair,
                    outputs@,
                    true,
                    after,
                ),
                Step::Failed(_) => false,
            }
        },
        AttachmentInput::ClientFin | AttachmentInput::KeepaliveExpired => {
            &&& after == before
            &&& sessions_after == sessions
            &&& step matches Step::Finished { outputs } && outputs@.len() == 0
        },
        AttachmentInput::SessionLost => {
            &&& after == before
            &&& sessions_after == if sessions.contains_key(before.session_id) {
                sessions.insert(
                    before.session_id,
                    Session { defunct: true, ..sessions[before.session_id] },
                )
            } else {
                sessions
            }
            &&& step matches Step::Failed(err) && err@ == ServerErrorView(
                ErrorCode::ErrorServer,
                Some("internal server error"@),
            )
        },
    }
}

impl AttachmentHandler {
    /// Handles one thing that happened to the attachment. A session that
    /// ended is forgotten; one that was lost is marked, to be cleaned up.
    pub fn run_step(
        &mut self,
        state: &mut ServerState,
        input: AttachmentInput,
        repair: Option<u32>,
    ) -> (step: Step)
        requires
            old(state).wf(),
            input matches AttachmentInput::Event(event) ==> old(self).can_send(event, repair),
        ensures
            final(state).wf(),
            final(state).session_seq == old(state).session_seq,
            final(state).id_generator == old(state).id_generator,
            steps(
                *old(self),
                old(state).sessions@,
                input,
                repair,
                step,
                *final(self),
                final(state).sessions@,
            ),
    {
        match input {
            AttachmentInput::Message(message) => match self.handle_attachment_message(message) {
                Ok(control) => Step::Continue {
                    control,
                    outputs: Vec::new(),
                    reset_keepalive: true,
                },
                Err(AttachmentError::Finished) => Step::Finished { outputs: Vec::new() },
                Err(AttachmentError::ServerError(err)) => Step::Failed(err),
            },
            AttachmentInput::ClientFin => Step::Finished { outputs: Vec::new() },
            AttachmentInput::KeepaliveExpired => Step::Finished { outputs: Vec::new() },
            AttachmentInput::Event(event) => {
                if matches!(event, SessionEvent::Shutdown) {
                    state.sessions.remove(self.session_id);
                }
                let (outputs, finished) = self.handle_session_event(event, repair);
                if finished {
                    Step::Finished { outputs }
                } else {
                    Step::Continue { control: None, outputs, reset_keepalive: false }
                }
            },
            AttachmentInput::SessionLost => {
                if let Some(session) = state.sessions.get_mut(self.session_id) {
                    session.defunct = true;
                }
                Step::Failed(server_error(ErrorCode::ErrorServer, "internal server error"))
            },
        }
    }
}

/// The sessions after a client left one of them, and what that one is told.
pub open spec fn detached(
    sessions: Map<u64, Session>,
    session_id: u64,
    attachment_id: u64,
    now: u64,
) -> (Map<u64, Session>, Option<ControlMessage>) {
    let session = sessions[session_id];
    if sessions.contains_key(session_id) && !session.defunct {
        (
            sessions.insert(
                session_id,
                Session { operator_attachment_id: None, detached_since: Some(now), ..session },
            ),
            Some(ControlMessage::Detach(attachment_id)),
        )
    } else {
        (sessions, None)
    }
}

/// Detaches a client from its session, if the session is still there. Returns
/// what the session is told.
pub fn begin_detach(state: &mut ServerState, session_id: u64, attachment_id: u64, now: u64) -> (
message: Option<ControlMessage>)
    requires
        old(state).wf(),
    ensures
        final(state).wf(),
        final(state).session_seq == old(state).session_seq,
        final(state).id_generator == old(state).id_generator,
        (final(state).sessions@, message) == detached(
            old(state).sessions@,
            session_id,
            attachment_id,
            now,
        ),
{
    match state.sessions.get_mut(session_id) {
        Some(session) => match session.begin_detach(attachment_id, now) {
            Ok(message) => Some(message),
            Err(_) => {
                assert(old(state).sessions@.insert(session_id, old(state).sessions@[session_id])
                    =~= old(state).sessions@);
                None
            },
        },
        None => None,
    }
}

/// Records whether the session was told. A session that could not be told is
/// broken.
pub fn finish_detach(state: &mut ServerState, session_id: u64, delivered: bool)
    requires
        old(state).wf(),
    ensures
        final(state).wf(),
        final(state).session_seq == old(state).session_seq,
        final(state).id_generator == old(state).id_generator,
        final(state).sessions@ == if !delivered && old(state).sessions@.contains_key(session_id) {
            old(state).sessions@.insert(
                session_id,
                Session { defunct: true, ..old(state).sessions@[session_id] },
            )
        } else {
            old(state).sessions@
        },
{
    if !delivered {
        if let Some(session) = state.sessions.get_mut(session_id) {
            let _ = session.finish_detach(delivered);
        }
    }
}

/// A session has at most one operator: while one is attached, nobody else can
/// attach.
pub proof fn second_operator_is_refused(
    sessions: Map<u64, Session>,
    session_id: u64,
    first: u64,
    video_params: VideoStreamParams,
    codec_supported: bool,
)
    requires
        sessions.contains_key(session_id),
    ensures
        attach_refusal(
            sessions.insert(
                session_id,
                after_attach(sessions[session_id], first, AttachOutcome::Accepted),
            ),
            session_id,
            video_params,
            codec_supported,
        ) is Some,
{
}

/// Who could attach before a client came can attach again after it left.
pub proof fn detached_session_can_be_attached(
    sessions: Map<u64, Session>,
    session_id: u64,
    first: u64,
    now: u64,
    video_params: VideoStreamParams,
)
    requires
        attach_refusal(sessions, session_id, video_params, true) is None,
    ensures
        ({
            let attached = after_attach(sessions[session_id], first, AttachOutcome::Accepted);
            attach_refusal(
                sessions.insert(
                    session_id,
                    Session { operator_attachment_id: None, detached_since: Some(now), ..attached },
                ),
                session_id,
                video_params,
                true,
            ) is None
        }),
{
}

/// A client that the session accepted is shown its display unscaled.
pub proof fn attached_stream_fits_display(
    sessions: Map<u64, Session>,
    session_id: u64,
    video_params: VideoStreamParams,
)
    requires
        attach_refusal(sessions, session_id, video_params, true) is None,
        video_params.width > 0,
        video_params.height > 0,
    ensures
        scales_to(sessions[session_id].display_params, video_params),
{
    crate::session::supported_stream_is_not_scaled(sessions[session_id], video_params);
}

/// An attachment before and after an event, whether it is over then or not.
pub open spec fn event_step(
    before: AttachmentHandler,
    event: SessionEvent,
    repair: Option<u32>,
    outputs: Seq<Output>,
    after: AttachmentHandler,
) -> bool {
    exists|finished: bool| #[trigger]
        passes_on(before, event, repair, outputs, finished, after)
}

/// An attachment and the events that it passes on, from one that has no lock
/// on: what it is before each of them and after the last, and what it sends.
pub open spec fn event_run(
    handlers: Seq<AttachmentHandler>,
    events: Seq<SessionEvent>,
    repairs: Seq<Option<u32>>,
    outputs: Seq<Seq<Output>>,
) -> bool {
    &&& handlers.len() == events.len() + 1
    &&& repairs.len() == events.len()
    &&& outputs.len() == events.len()
    &&& handlers[0].pointer_lock is None
    &&& forall|i: int|
        0 <= i < events.len() ==> event_step(
            handlers[i],
            #[trigger] events[i],
            repairs[i],
            outputs[i],
            handlers[i + 1],
        )
}

pub open spec fn locks_pointer(output: Output) -> bool {
    output matches Output::Send(ServerMessage::LockPointer { .. })
}

pub open spec fn releases_pointer(output: Output) -> bool {
    output matches Output::Send(ServerMessage::ReleasePointer)
}

/// Of all that is sent, the messages that lock or release the pointer.
pub open spec fn pointer_messages(outputs: Seq<Seq<Output>>) -> Seq<Output>
    decreases outputs.len(),
{
    if outputs.len() == 0 {
        Seq::empty()
    } else {
        pointer_messages(outputs.drop_last()) + outputs.last().filter(
            |output: Output| locks_pointer(output) || releases_pointer(output),
        )
    }
}

/// Where the last of the events on the pointer leaves it.
pub open spec fn last_lock(events: Seq<SessionEvent>, superscale: u32) -> Option<(Divided, Divided)>
    decreases events.len(),
{
    if events.len() == 0 {
        None
    } else {
        match events.last() {
            SessionEvent::PointerLocked(x, y) => Some(lock_position(x, y, superscale)),
            SessionEvent::PointerReleased => None,
            _ => last_lock(events.drop_last(), superscale),
        }
    }
}

/// A client is told in turn to lock and to release the pointer, beginning with
/// a lock; the position kept in mind is that of the last lock, if nothing
/// released it.
pub proof fn pointer_messages_alternate(
    handlers: Seq<AttachmentHandler>,
    events: Seq<SessionEvent>,
    repairs: Seq<Option<u32>>,
    outputs: Seq<Seq<Output>>,
)
    requires
        event_run(handlers, events, repairs, outputs),
    ensures
        ({
            let sent = pointer_messages(outputs);
            let after = handlers.last();
            &&& forall|k: int|
                0 <= k < sent.len() ==> if k % 2 == 0 {
                    locks_pointer(#[trigger] sent[k])
                } else {
                    releases_pointer(sent[k])
                }
            &&& after.pointer_lock is Some <==> sent.len() % 2 == 1
            &&& after.pointer_lock == last_lock(events, handlers[0].superscale)
            &&& after.superscale == handlers[0].superscale
        }),
    decreases events.len(),
{
    if events.len() > 0 {
        let n = events.len() - 1;
        let init = events.drop_last();
        assert(event_run(
            handlers.drop_last(),
            init,
            repairs.drop_last(),
            outputs.drop_last(),
        )) by {
            assert forall|i: int| 0 <= i < init.len() implies event_step(
                handlers.drop_last()[i],
                #[trigger] init[i],
                repairs.drop_last()[i],
                outputs.drop_last()[i],
                handlers.drop_last()[i + 1],
            ) by {
                assert(init[i] == events[i]);
            }
        }
        pointer_messages_alternate(
            handlers.drop_last(),
            init,
            repairs.drop_last(),
            outputs.drop_last(),
        );
        assert(events[n] == events.last());
        let earlier = pointer_messages(outputs.drop_last());
        let now = outputs[n];
        let on_pointer = |output: Output| locks_pointer(output) || releases_pointer(output);
        assert(now.len() <= 1);
        reveal_with_fuel(Seq::filter, 2);
        if now.len() == 1 {
            assert(now.drop_last() =~= Seq::empty());
            if on_pointer(now[0]) {
                assert(now.filter(on_pointer) =~= seq![now[0]]);
            } else {
                assert(now.filter(on_pointer) =~= Seq::empty());
            }
        }
        assert(pointer_messages(outputs) =~= earlier + now.filter(on_pointer));
    }
}

/// What a client does with its pointer keeps its axes: what it does across stays
/// across, and what it does up and down stays so. Positions and movements in the
/// video are scaled to the display; clicks and steps of a wheel are not.
pub proof fn pointer_keeps_its_axes(
    superscale: u32,
    x: Real,
    y: Real,
    button: Option<Button>,
    state: Option<ButtonState>,
)
    ensures
        translated(superscale, ClientMessage::PointerMotion { x, y }) matches Ok(
            Some(ControlMessage::PointerMotion(across, down)),
        ) && across.value == x && down.value == y && across.factor == superscale && down.factor
            == superscale,
        translated(superscale, ClientMessage::RelativePointerMotion { x, y }) matches Ok(
            Some(ControlMessage::RelativePointerMotion(across, down)),
        ) && across.value == x && down.value == y && across.factor == superscale && down.factor
            == superscale,
        translated(
            superscale,
            ClientMessage::PointerScroll { scroll_type: Some(ScrollType::Continuous), x, y },
        ) matches Ok(Some(ControlMessage::PointerAxis(across, down))) && across.value == x
            && down.value == y && across.factor == superscale && down.factor == superscale,
        translated(
            superscale,
            ClientMessage::PointerScroll { scroll_type: Some(ScrollType::Discrete), x, y },
        ) matches Ok(Some(ControlMessage::PointerAxisDiscrete(across, down))) && across == x && down
            == y,
        translated(superscale, ClientMessage::PointerInput { button, state, x, y }) matches Ok(
            Some(control),
        ) ==> (control matches ControlMessage::PointerInput {
            x: across,
            y: down,
            button_code,
            state: told,
        } && across == x && down == y && state == Some(told) && button is Some
            && crate::input::button_code(button->0) == Some(button_code)),
        translated(superscale, ClientMessage::PointerEntered) == Ok::<
            Option<ControlMessage>,
            AttachmentErrorView,
        >(Some(ControlMessage::PointerEntered)),
        translated(superscale, ClientMessage::PointerLeft) == Ok::<
            Option<ControlMessage>,
            AttachmentErrorView,
        >(Some(ControlMessage::PointerLeft)),
{
}

/// A key is passed on under its code, as it was pressed or released, with the
/// character that it stands for, if there is one.
pub proof fn key_is_passed_on(
    superscale: u32,
    key: Option<Key>,
    state: Option<KeyState>,
    character: u32,
)
    ensures
        ({
            let result = translated(
                superscale,
                ClientMessage::KeyboardInput { key, state, character },
            );
            &&& result is Ok <==> state is Some && key is Some && crate::input::key_code(
                key->0,
            ) is Some && (character == 0 || is_scalar_value(character))
            &&& result matches Ok(control) ==> (control matches Some(
                ControlMessage::KeyboardInput { key_code, state: told, character: typed },
            ) && Some(key_code) == crate::input::key_code(key->0) && state == Some(told) && (typed
                is None <==> character == 0) && (character != 0 ==> typed == Some(
                character as char,
            )))
        }),
{
}

/// What a client does with a gamepad is passed on for that gamepad, with the code
/// and the value that it has: sticks as axes, and triggers as triggers.
pub proof fn gamepad_is_passed_on(
    superscale: u32,
    id: u64,
    axis: Option<GamepadAxis>,
    value: Real,
    button: Option<GamepadButton>,
    state: Option<ButtonState>,
)
    ensures
        ({
            let result = translated(
                superscale,
                ClientMessage::GamepadMotion { gamepad_id: id, axis, value },
            );
            &&& result is Ok <==> axis is Some && !(axis->0 is Unknown)
            &&& result matches Ok(control) ==> match control {
                Some(ControlMessage::GamepadTrigger { id: told, trigger_code, value: v }) => told
                    == id && v == value && crate::input::axis_code(axis->0) == Some(
                    (trigger_code, true),
                ) && (axis->0 is LeftTrigger || axis->0 is RightTrigger),
                Some(ControlMessage::GamepadAxis { id: told, axis_code, value: v }) => told == id
                    && v == value && crate::input::axis_code(axis->0) == Some((axis_code, false))
                    && !(axis->0 is LeftTrigger) && !(axis->0 is RightTrigger),
                _ => false,
            }
        }),
        ({
            let result = translated(
                superscale,
                ClientMessage::GamepadInput { gamepad_id: id, button, state },
            );
            &&& result is Ok <==> state is Some && button is Some && crate::input::gamepad_code(
                button->0,
            ) is Some
            &&& result matches Ok(control) ==> (control matches Some(
                ControlMessage::GamepadInput { id: told, button_code, state: pressed },
            ) && told == id && state == Some(pressed) && crate::input::gamepad_code(button->0)
                == Some(button_code))
        }),
        translated(superscale, ClientMessage::GamepadAvailable { gamepad: Ok(id) }) == Ok::<
            Option<ControlMessage>,
            AttachmentErrorView,
        >(Some(ControlMessage::GamepadAvailable(id))),
        translated(superscale, ClientMessage::GamepadUnavailable { id }) == Ok::<
            Option<ControlMessage>,
            AttachmentErrorView,
        >(Some(ControlMessage::GamepadUnavailable(id))),
{
}

/// A client that keeps itself alive, or reports an error, changes nothing; one
/// that leaves ends the attachment; and one that sends what it should not gets an
/// error.
pub proof fn other_messages_are_told_apart(superscale: u32, stream_seq: u64, message: ClientMessage)
    ensures
        translated(superscale, ClientMessage::RequestVideoRefresh { stream_seq }) == Ok::<
            Option<ControlMessage>,
            AttachmentErrorView,
        >(Some(ControlMessage::RequestVideoRefresh(stream_seq))),
        translated(superscale, message) == Ok::<Option<ControlMessage>, AttachmentErrorView>(None)
            <==> message is KeepAlive || message is Error,
        translated(superscale, message) == Err::<Option<ControlMessage>, AttachmentErrorView>(
            AttachmentErrorView::Finished,
        ) <==> message is Detach,
        message is Other ==> (translated(superscale, message) matches Err(
            AttachmentErrorView::ServerError(error),
        ) && error.0 == ErrorCode::ErrorProtocolUnexpectedMessage),
        translated(superscale, message) matches Err(AttachmentErrorView::ServerError(error)) ==> (
        error.0 == ErrorCode::ErrorProtocolUnexpectedMessage <==> message is Other),
{
}

/// Nothing that a client does makes the session stop, change its display, or
/// attach or detach anybody.
pub proof fn client_messages_are_harmless(superscale: u32, message: ClientMessage)
    ensures
        translated(superscale, message) matches Ok(Some(control)) ==> !(control is Stop) && !(
        control is Attach) && !(control is Detach) && !(control is UpdateDisplayParams),
{
}

/// A client learns of what the session shows: the cursor with its picture and its
/// tip, the display with its size, and frames under the numbers that they have.
pub proof fn session_events_reach_client(
    before: AttachmentHandler,
    event: SessionEvent,
    repair: Option<u32>,
    outputs: Seq<Output>,
    finished: bool,
    after: AttachmentHandler,
)
    requires
        passes_on(before, event, repair, outputs, finished, after),
    ensures
        event matches SessionEvent::CursorUpdate { image, icon, hotspot_x, hotspot_y } ==> {
            &&& outputs.len() == 1
            &&& outputs[0] matches Output::Send(
                ServerMessage::UpdateCursor {
                    image: shown,
                    icon: shape,
                    hotspot_x: x,
                    hotspot_y: y,
                },
            ) && shown == image && x == hotspot_x && y == hotspot_y && (icon is None <==> shape
                is Hidden) && (icon is Some ==> shape == crate::input::client_icon(icon->0))
        },
        event matches SessionEvent::DisplayParamsChanged { params, reattach } ==> {
            &&& outputs.len() == 1
            &&& outputs[0] matches Output::Send(
                ServerMessage::SessionParametersChanged {
                    display_params,
                    supported_streaming_resolutions,
                    reattach_required,
                },
            ) && reattach_required == reattach && supported_streaming_resolutions@.len() == 1
                && supported_streaming_resolutions@[0].width == params.width
                && supported_streaming_resolutions@[0].height == params.height
            &&& after.session_display_params == params
        },
        finished <==> event is Shutdown || (event matches SessionEvent::DisplayParamsChanged {
            reattach,
            ..
        } && reattach),
        event is Shutdown ==> outputs.len() == 1 && (outputs[0] matches Output::Send(
            ServerMessage::SessionEnded,
        )),
        event matches SessionEvent::PointerLocked(x, y) ==> {
            &&& after.pointer_lock matches Some((across, down)) && across.value == x && down.value
                == y && across.divisor == before.superscale && down.divisor == before.superscale
            &&& outputs.len() == 1 <==> before.pointer_lock is None
            &&& outputs.len() == 1 ==> (outputs[0] matches Output::Send(
                ServerMessage::LockPointer { x: across, y: down },
            ) && across.value == x && down.value == y && across.divisor == before.superscale
                && down.divisor == before.superscale)
        },
        after.session_id == before.session_id,
        after.attachment_id == before.attachment_id,
        after.superscale == before.superscale,
        after.chunk_size == before.chunk_size,
{
    crate::input::cursors_keep_their_shape(
        if let SessionEvent::CursorUpdate { icon: Some(icon), .. } = event {
            icon
        } else {
            crate::input::CursorIcon::Text
        },
    );
}

/// A client gets the frames of its session: their chunks say which session,
/// attachment, stream and frame they belong to, and carry the frame.
pub proof fn frames_reach_client(
    before: AttachmentHandler,
    event: SessionEvent,
    outputs: Seq<Output>,
    finished: bool,
    after: AttachmentHandler,
    i: int,
)
    requires
        passes_on(before, event, None, outputs, finished, after),
        event is VideoFrame || event is AudioFrame,
        before.chunk_size > 0,
    ensures
        outputs.len() == 1,
        outputs[0] matches Output::Datagrams(messages) && {
            &&& 0 <= i < messages@.len() ==> messages@[i].session_id == before.session_id
            &&& 0 <= i < messages@.len() ==> messages@[i].attachment_id == before.attachment_id
            &&& 0 <= i < messages@.len() ==> messages@[i].chunk == i
            &&& 0 <= i < messages@.len() ==> messages@[i].num_chunks == messages@.len()
            &&& event matches SessionEvent::VideoFrame { stream_seq, seq, ts, frame, .. } ==> {
                &&& 0 <= i < messages@.len() ==> messages@[i].stream_seq == stream_seq
                &&& 0 <= i < messages@.len() ==> messages@[i].seq == seq
                &&& 0 <= i < messages@.len() ==> messages@[i].timestamp == ts
                &&& crate::server::stream::joined_messages(messages@)
                    == crate::bytes_ext::contents(frame)
            }
            &&& event matches SessionEvent::AudioFrame { stream_seq, seq, ts, frame } ==> {
                &&& 0 <= i < messages@.len() ==> messages@[i].stream_seq == stream_seq
                &&& 0 <= i < messages@.len() ==> messages@[i].seq == seq
                &&& 0 <= i < messages@.len() ==> messages@[i].timestamp == ts
                &&& crate::server::stream::joined_messages(messages@)
                    == crate::bytes_ext::contents(frame)
            }
        },
{
    let messages = outputs[0]->Datagrams_0@;
    let (stream_seq, seq, layer, ts, frame) = match event {
        SessionEvent::VideoFrame { stream_seq, seq, ts, frame, hierarchical_layer } => (
            stream_seq,
            seq,
            hierarchical_layer,
            ts,
            crate::bytes_ext::contents(frame),
        ),
        SessionEvent::AudioFrame { stream_seq, seq, ts, frame } => (
            stream_seq,
            seq,
            0u32,
            ts,
            crate::bytes_ext::contents(frame),
        ),
        _ => (0u64, 0u64, 0u32, 0u64, Seq::empty()),
    };
    assert(before.carries_frame(messages, stream_seq, seq, layer, ts, frame, None));
    let chunks = choose|chunks: Seq<Chunk>|
        #![trigger crate::server::chunk::chunks_of(chunks, frame, before.chunk_size, None)]
        crate::server::chunk::chunks_of(chunks, frame, before.chunk_size, None)
            && crate::server::stream::messages_for(
            messages,
            chunks,
            before.session_id,
            before.attachment_id,
            stream_seq,
            seq,
            layer,
            ts,
        );
    crate::server::chunk::chunks_join_to_frame(chunks, frame, before.chunk_size as int);
    crate::server::stream::messages_carry_chunks(
        messages,
        chunks,
        before.session_id,
        before.attachment_id,
        stream_seq,
        seq,
        layer,
        ts,
    );
}

/// A client that is attached knows to what, and what it gets is what it asked
/// for; its positions are scaled by as much as the display is larger than the
/// video.
pub proof fn attached_client_gets_what_it_asked_for(
    plan: AttachPlan,
    display: DisplayParams,
    max_dgram_len: usize,
    handler: AttachmentHandler,
    attached: Attached,
)
    requires
        is_attached(plan, display, max_dgram_len, handler, attached),
        scales_to(display, plan.video_params),
        max_dgram_len >= CHUNK_HEADROOM,
    ensures
        attached.session_id == plan.session_id && handler.session_id == plan.session_id,
        attached.attachment_id == plan.attachment_id && handler.attachment_id
            == plan.attachment_id,
        attached.streaming_resolution.width == plan.video_params.width,
        attached.streaming_resolution.height == plan.video_params.height,
        attached.video_codec == plan.video_params.codec,
        attached.video_profile == plan.video_params.profile,
        attached.quality_preset == plan.video_params.preset,
        attached.audio_codec == plan.audio_params.codec,
        attached.sample_rate_hz == plan.audio_params.sample_rate,
        attached.channels == plan.audio_params.channels,
        handler.superscale * plan.video_params.width == display.width,
        handler.superscale * plan.video_params.height == display.height,
        handler.session_display_params == display,
        handler.pointer_lock is None,
        handler.chunk_size + CHUNK_HEADROOM == max_dgram_len,
{
    vstd::arithmetic::div_mod::lemma_fundamental_div_mod(
        display.height as int,
        plan.video_params.height as int,
    );
    assert(handler.superscale * plan.video_params.height == plan.video_params.height
        * handler.superscale) by (nonlinear_arith);
    assert(handler.superscale * plan.video_params.width == plan.video_params.width
        * handler.superscale) by (nonlinear_arith);
}

/// A client that leaves makes room for another, and the session begins to wait;
/// the session is told who left. Other sessions do not notice.
pub proof fn detaching_frees_session(
    sessions: Map<u64, Session>,
    session_id: u64,
    attachment_id: u64,
    now: u64,
    other: u64,
)
    ensures
        ({
            let (after, message) = detached(sessions, session_id, attachment_id, now);
            let works = sessions.contains_key(session_id) && !sessions[session_id].defunct;
            &&& works ==> after[session_id].operator_attachment_id is None
            &&& works ==> after[session_id].detached_since == Some(now)
            &&& works ==> message == Some(ControlMessage::Detach(attachment_id))
            &&& works ==> after[session_id].display_params == sessions[session_id].display_params
            &&& works ==> !after[session_id].defunct && after[session_id].id
                == sessions[session_id].id
            &&& !works ==> after == sessions && message is None
            &&& after.dom() == sessions.dom()
            &&& other != session_id ==> after[other] == sessions[other]
        }),
{
    let (after, message) = detached(sessions, session_id, attachment_id, now);
    assert(after.dom() =~= sessions.dom());
}

/// An attachment that was accepted takes the session; one that came too late
/// leaves it as it was; and a session that could not be told is broken.
pub proof fn attaching_takes_session(session: Session, id: u64, outcome: AttachOutcome)
    ensures
        ({
            let after = after_attach(session, id, outcome);
            &&& outcome is Accepted ==> after.operator_attachment_id == Some(id)
                && after.detached_since is None && after.defunct == session.defunct
            &&& outcome is TimedOut ==> after == session
            &&& outcome is Undelivered ==> after.defunct && after.operator_attachment_id
                == session.operator_attachment_id
            &&& after.id == session.id && after.display_params == session.display_params
        }),
{
}

/// A session is attached to only if it exists, works, is free, and shows a
/// display of just the size that the client asks for, in a codec that can be
/// encoded. Each refusal says which of these fails.
pub proof fn attaching_is_refused_for_a_reason(
    sessions: Map<u64, Session>,
    session_id: u64,
    video_params: VideoStreamParams,
    codec_supported: bool,
)
    ensures
        ({
            let refusal = attach_refusal(sessions, session_id, video_params, codec_supported);
            let session = sessions[session_id];
            let fits = video_params.width == session.display_params.width && video_params.height
                == session.display_params.height && codec_supported;
            &&& refusal is None <==> sessions.contains_key(session_id) && fits && !session.defunct
                && session.operator_attachment_id is None
            &&& (refusal matches Some(error) && error.0 == ErrorCode::ErrorSessionNotFound)
                <==> !sessions.contains_key(session_id)
            &&& (refusal matches Some(error) && error.0
                == ErrorCode::ErrorAttachmentParamsNotSupported) <==> sessions.contains_key(
                session_id,
            ) && !fits
        }),
{
}

/// An attachment goes on until its client or its session ends it; it forgets a
/// session that ended, marks one that was lost, and keeps a client that speaks
/// alive.
pub proof fn attachment_ends_with_its_client_or_session(
    before: AttachmentHandler,
    sessions: Map<u64, Session>,
    input: AttachmentInput,
    repair: Option<u32>,
    step: Step,
    after: AttachmentHandler,
    sessions_after: Map<u64, Session>,
    other: u64,
)
    requires
        steps(before, sessions, input, repair, step, after, sessions_after),
    ensures
        input is ClientFin || input is KeepaliveExpired ==> step is Finished,
        input is SessionLost ==> step is Failed,
        input is SessionLost && sessions.contains_key(before.session_id)
            ==> sessions_after[before.session_id].defunct,
        (input matches AttachmentInput::Event(event) && event is Shutdown) ==> step is Finished
            && !sessions_after.contains_key(before.session_id),
        (input matches AttachmentInput::Message(message) && message is Detach) ==> step is Finished,
        step matches Step::Continue { control, outputs, reset_keepalive } ==> (reset_keepalive
            <==> input is Message) && (control is Some ==> input is Message),
        other != before.session_id ==> sessions_after.contains_key(other) == sessions.contains_key(
            other,
        ) && sessions_after[other] == sessions[other],
{
}

/// A display is streamed in its own width and height, and in no other size.
pub proof fn display_is_streamed_as_it_is(params: DisplayParams, size: Size)
    ensures
        streaming_resolutions(params).contains(size) <==> size.width == params.width && size.height
            == params.height,
        streaming_resolutions(params).len() == 1,
{
    assert(streaming_resolutions(params)[0] == Size { width: params.width, height: params.height });
}

/// An attachment begins with the pointer free. It stands for the session and the
/// attachment that it was made for, and a picture of the stream, scaled up, covers
/// the display.
pub proof fn new_attachment_covers_display(
    session_id: u64,
    attachment_id: u64,
    display_params: DisplayParams,
    video_params: VideoStreamParams,
    max_dgram_len: usize,
    handler: AttachmentHandler,
)
    requires
        scales_to(display_params, video_params),
        max_dgram_len >= CHUNK_HEADROOM,
        call_ensures(
            AttachmentHandler::new,
            (session_id, attachment_id, display_params, video_params, max_dgram_len),
            handler,
        ),
    ensures
        handler.session_id == session_id,
        handler.attachment_id == attachment_id,
        handler.session_display_params == display_params,
        handler.pointer_lock is None,
        handler.superscale == display_params.height / video_params.height,
        handler.chunk_size + CHUNK_HEADROOM == max_dgram_len,
{
}

/// A client is sent something only for an event of the session, and counts as alive
/// only for its own messages. A session is forgotten or marked only when it is gone;
/// the others stay as they are.
pub proof fn client_hears_of_events_alone(
    before: AttachmentHandler,
    sessions: Map<u64, Session>,
    input: AttachmentInput,
    repair: Option<u32>,
    step: Step,
    after: AttachmentHandler,
    sessions_after: Map<u64, Session>,
    other: u64,
)
    requires
        steps(before, sessions, input, repair, step, after, sessions_after),
    ensures
        !(input is Event) ==> after == before && match step {
            Step::Continue { outputs, .. } => outputs@.len() == 0,
            Step::Finished { outputs } => outputs@.len() == 0,
            Step::Failed(_) => true,
        },
        step matches Step::Continue { reset_keepalive, .. } ==> (reset_keepalive
            <==> input is Message),
        input is SessionLost ==> (step matches Step::Failed(err) && err@.0
            == ErrorCode::ErrorServer),
        input is SessionLost && sessions.contains_key(before.session_id) ==> sessions_after.dom()
            == sessions.dom() && sessions_after[before.session_id].defunct,
        other != before.session_id && sessions.contains_key(other) ==> sessions_after.contains_key(
            other,
        ) && sessions_after[other] == sessions[other],
        sessions_after != sessions ==> input is SessionLost || (input matches
            AttachmentInput::Event(event) && event is Shutdown),
{
    assert(sessions.contains_key(before.session_id) ==> sessions.dom().insert(before.session_id)
        =~= sessions.dom());
}

} // verus!
