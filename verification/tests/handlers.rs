use bytes::Bytes;
use mmserver::codec::{AudioCodec, VideoCodec, VideoProfile};
use mmserver::control::{
    AudioStreamParams, ControlMessage, DisplayParams, SessionEvent, VideoStreamParams,
};
use mmserver::input::{
    Button, ButtonState, ClientCursorIcon, CursorIcon, Divided, Key, KeyState, Real, Scaled,
    ScrollType,
};
use mmserver::pixel_scale::{PixelScale, ProtocolPixelScale};
use mmserver::server::attachment::{
    begin_attach, begin_detach, finish_attach, finish_detach, AttachmentHandler, AttachmentInput,
    Output, Step,
};
use mmserver::server::handlers::{
    attachment_report_file, begin_launch, begin_update_session, dispatch, end_session, fetch_img,
    finish_launch, finish_update_session, image_response, list_applications, list_sessions,
    read_file, session_report_dir, Application, ImageFormat, InitialMessage, ReadError, Route,
    Update,
};
use mmserver::server::protocol::{
    ClientMessage, ErrorCode, Gamepad, ServerError, ServerMessage, Size, VirtualDisplayParameters,
};
use mmserver::server::validation::ValidationError;
use mmserver::session::{AttachOutcome, Session};
use mmserver::state::{AppTimeout, ServerState};

fn error<T>(result: Result<T, ServerError>) -> (ErrorCode, Option<String>) {
    match result {
        Err(ServerError(code, text)) => (code, text),
        Ok(_) => panic!("expected error"),
    }
}

fn app(id: &str, image: Option<&str>) -> Application {
    Application {
        id: id.to_string(),
        description: None,
        path: vec!["games".to_string()],
        header_image: image.map(|i| i.to_string()),
    }
}

fn apps() -> Vec<Application> {
    vec![app("one", None), app("two", Some("/two.png"))]
}

fn params(width: u32, height: u32) -> Option<VirtualDisplayParameters> {
    Some(VirtualDisplayParameters {
        resolution: Some(Size { width, height }),
        framerate_hz: 60,
        ui_scale: None,
    })
}

fn display(width: u32, height: u32) -> DisplayParams {
    DisplayParams {
        width,
        height,
        framerate: 60,
        ui_scale: PixelScale(1, 1),
    }
}

fn video(width: u32, height: u32) -> VideoStreamParams {
    VideoStreamParams {
        width,
        height,
        codec: VideoCodec::H264,
        preset: 6,
        profile: VideoProfile::Hd,
    }
}

fn audio() -> AudioStreamParams {
    AudioStreamParams {
        sample_rate: 48000,
        channels: 2,
        codec: AudioCodec::Opus,
    }
}

fn session(id: u64) -> Session {
    Session::new(
        id,
        "one".to_string(),
        display(1280, 720),
        vec![Gamepad { id: 7, layout: 1 }],
        None,
        1000,
    )
}

fn state_with(id: u64) -> ServerState {
    let mut state = ServerState::new();
    assert!(finish_launch(&mut state, Some(session(id))).is_ok());
    state
}

#[test]
fn streams_are_routed() {
    assert!(matches!(
        dispatch(InitialMessage::ListSessions),
        Ok(Route::Roundtrip)
    ));
    assert!(matches!(
        dispatch(InitialMessage::Attach),
        Ok(Route::Attachment)
    ));
    assert_eq!(
        error(dispatch(InitialMessage::Other)),
        (ErrorCode::ErrorProtocolUnexpectedMessage, None)
    );
}

#[test]
fn applications_are_listed() {
    let list = list_applications(&apps());
    assert_eq!(list.len(), 2);
    assert_eq!(list[0].id, "one");
    assert_eq!(list[0].description, "");
    assert_eq!(list[0].folder, vec!["games"]);
    assert!(list[0].images_available.is_empty());
    assert_eq!(list[1].images_available, vec![ImageFormat::Header]);
}

#[test]
fn images_are_found() {
    let apps = apps();
    let header = Some(ImageFormat::Header);
    assert_eq!(
        fetch_img(&apps, header, &"two".to_string()).ok().as_deref(),
        Some("/two.png")
    );
    assert_eq!(
        error(fetch_img(&apps, None, &"two".to_string())),
        (
            ErrorCode::ErrorProtocol,
            Some("unknown application image type".to_string())
        )
    );
    assert_eq!(
        error(fetch_img(&apps, header, &"three".to_string())),
        (
            ErrorCode::ErrorApplicationNotFound,
            Some("application not found".to_string())
        )
    );
    assert_eq!(
        error(fetch_img(&apps, header, &"one".to_string())),
        (
            ErrorCode::ErrorApplicationNotFound,
            Some("image not found".to_string())
        )
    );
}

#[test]
fn test_read_file() {
    assert!(matches!(
        read_file(Bytes::new(), 1024),
        Err(ReadError::Empty)
    ));

    let s = "foobar".repeat(64);
    let len = s.len() as u64;
    let big = Bytes::from(s.clone().into_bytes());
    assert_eq!(read_file(big.clone(), len).ok(), Some(big.clone()));
    assert_eq!(read_file(big.clone(), len + 1).ok(), Some(big.clone()));
    assert!(matches!(
        read_file(big.slice(..len as usize), len - 1),
        Err(ReadError::TooBig)
    ));
}

#[test]
fn images_are_loaded() {
    let data = Bytes::from_static(b"png");
    assert_eq!(image_response(Some(data.clone())).ok(), Some(data));
    for failed in [
        None,
        Some(Bytes::new()),
        Some(Bytes::from(vec![0; 1024 * 1024 + 1])),
    ] {
        assert_eq!(
            error(image_response(failed)),
            (
                ErrorCode::ErrorServer,
                Some("failed to load image".to_string())
            )
        );
    }
}

#[test]
fn ids_are_given_out_once() {
    let mut state = ServerState::new();
    let mut ids = Vec::new();
    for seq in 0..500 {
        let (number, id) = state.generate_session_id();
        assert_eq!(number, seq);
        ids.push(id);
        ids.push(state.generate_attachment_id());
    }
    assert!(ids.iter().all(|id| *id < 1_000_000));
    ids.sort();
    ids.dedup();
    assert_eq!(ids.len(), 1000);
}

#[test]
fn sessions_are_launched() {
    let mut state = ServerState::new();
    let gamepads = || vec![Ok(Gamepad { id: 7, layout: 1 })];
    let launch = begin_launch(
        &mut state,
        &apps(),
        params(1280, 720),
        &"one".to_string(),
        gamepads(),
        false,
    );
    let launch = match launch {
        Ok(launch) => launch,
        Err(_) => panic!("expected a launch"),
    };
    assert_eq!(launch.seq, 0);
    assert_eq!(state.session_seq, 1);
    assert_eq!(launch.display_params, display(1280, 720));
    assert_eq!(launch.permanent_gamepads, vec![Gamepad { id: 7, layout: 1 }]);
    assert!(launch.id < 1_000_000);

    let answer = match finish_launch(&mut state, Some(session(launch.id))) {
        Ok(answer) => answer,
        Err(_) => panic!("expected an answer"),
    };
    assert_eq!(answer.id, launch.id);
    assert_eq!(
        answer.supported_streaming_resolutions,
        vec![Size {
            width: 1280,
            height: 720
        }]
    );

    let list = list_sessions(&state);
    assert_eq!(list.len(), 1);
    assert_eq!(list[0].session_id, launch.id);
    assert_eq!(list[0].application_id, "one");
    assert_eq!(list[0].session_start, 1000);
    assert_eq!(list[0].permanent_gamepads.len(), 1);

    assert_eq!(
        error(begin_launch(
            &mut state,
            &apps(),
            params(1280, 720),
            &"one".to_string(),
            gamepads(),
            true
        )),
        (
            ErrorCode::ErrorServer,
            Some("only one session allowed if actively debugging".to_string())
        )
    );
}

#[test]
fn launches_are_refused() {
    let mut state = ServerState::new();
    assert_eq!(
        error(begin_launch(
            &mut state,
            &apps(),
            None,
            &"one".to_string(),
            vec![],
            false
        )),
        (
            ErrorCode::ErrorProtocol,
            Some("display parameters missing".to_string())
        )
    );
    assert_eq!(
        error(begin_launch(
            &mut state,
            &apps(),
            params(1280, 720),
            &"three".to_string(),
            vec![],
            false
        )),
        (
            ErrorCode::ErrorSessionLaunchFailed,
            Some("application not found".to_string())
        )
    );
    assert_eq!(
        error(begin_launch(
            &mut state,
            &apps(),
            params(1280, 720),
            &"one".to_string(),
            vec![
                Ok(Gamepad { id: 1, layout: 1 }),
                Err(ValidationError::NotSupported("odd layout".to_string()))
            ],
            false
        )),
        (
            ErrorCode::ErrorSessionParamsNotSupported,
            Some("odd layout".to_string())
        )
    );
    assert_eq!(state.session_seq, 0);
    assert_eq!(
        error(finish_launch(&mut state, None)),
        (ErrorCode::ErrorSessionLaunchFailed, None)
    );
    assert!(list_sessions(&state).is_empty());
}

#[test]
fn displays_are_changed() {
    let mut state = state_with(5);
    assert!(matches!(
        begin_update_session(&state, 5, params(1280, 720)),
        Ok(Update::Unchanged)
    ));
    match begin_update_session(&state, 5, params(1920, 1080)) {
        Ok(Update::Send {
            display_params,
            message,
        }) => {
            assert_eq!(display_params, display(1920, 1080));
            assert_eq!(
                message,
                ControlMessage::UpdateDisplayParams(display(1920, 1080))
            );
        }
        _ => panic!("expected a message"),
    }
    assert!(finish_update_session(&mut state, 5, display(1920, 1080), true).is_ok());
    let listed = list_sessions(&state)[0].display_params;
    assert_eq!(
        listed.resolution,
        Some(Size {
            width: 1920,
            height: 1080
        })
    );
    assert_eq!(listed.framerate_hz, 60);
    assert_eq!(
        listed.ui_scale,
        Some(ProtocolPixelScale {
            numerator: 1,
            denominator: 1
        })
    );
    assert!(matches!(
        begin_update_session(&state, 5, Some(listed)),
        Ok(Update::Unchanged)
    ));
    assert_eq!(
        error(begin_update_session(&state, 6, params(1280, 720))),
        (ErrorCode::ErrorSessionNotFound, None)
    );
    assert_eq!(
        error(finish_update_session(
            &mut state,
            5,
            display(1280, 720),
            false
        )),
        (
            ErrorCode::ErrorServer,
            Some("failed to update display params".to_string())
        )
    );
    assert_eq!(
        error(begin_update_session(&state, 5, params(1280, 720))),
        (
            ErrorCode::ErrorServer,
            Some("failed to update display params".to_string())
        )
    );
}

#[test]
fn sessions_are_ended() {
    let mut state = state_with(5);
    assert!(matches!(end_session(&mut state, 5), Ok(s) if s.id == 5));
    assert_eq!(
        error(end_session(&mut state, 5)),
        (ErrorCode::ErrorSessionNotFound, None)
    );
}

#[test]
fn idle_sessions_are_cleaned_up() {
    let timeouts = vec![AppTimeout {
        application_id: "one".to_string(),
        timeout: Some(100),
    }];
    let mut state = state_with(5);
    assert!(finish_launch(&mut state, Some(session(6))).is_ok());
    assert!(begin_detach(&mut state, 5, 1, 1000).is_some());
    assert!(state.tick(1100, &timeouts).is_empty());
    let stale = state.tick(1101, &timeouts);
    assert_eq!(stale.len(), 1);
    assert_eq!(stale[0].id, 5);
    assert_eq!(list_sessions(&state).len(), 1);

    finish_detach(&mut state, 6, false);
    let stale = state.tick(1101, &timeouts);
    assert_eq!(stale.len(), 1);
    assert_eq!(stale[0].id, 6);
}

#[test]
fn report_names() {
    assert_eq!(session_report_dir(3, 123456), "session-03-123456");
    assert_eq!(session_report_dir(12, 7), "session-12-7");
    assert_eq!(
        attachment_report_file(1, 42, VideoCodec::H265),
        "attachment-01-42.h265"
    );
}

fn attached(state: &mut ServerState) -> AttachmentHandler {
    let plan = match begin_attach(state, 5, video(1280, 720), audio(), true) {
        Ok(plan) => plan,
        Err(_) => panic!("expected a plan"),
    };
    assert_eq!(
        plan.message,
        ControlMessage::Attach {
            id: plan.attachment_id,
            video_params: video(1280, 720),
            audio_params: audio()
        }
    );
    match finish_attach(state, &plan, AttachOutcome::Accepted, 1328) {
        (Ok((handler, attached)), None) => {
            assert_eq!(attached.session_id, 5);
            assert_eq!(attached.channels, 2);
            assert_eq!(attached.streaming_resolution.width, 1280);
            assert_eq!(handler.superscale, 1);
            assert_eq!(handler.chunk_size, 1200);
            handler
        }
        _ => panic!("expected an attachment"),
    }
}

#[test]
fn one_operator_at_a_time() {
    let mut state = state_with(5);
    assert_eq!(
        error(begin_attach(&mut state, 6, video(1280, 720), audio(), true)),
        (ErrorCode::ErrorSessionNotFound, None)
    );
    for (w, h, codec) in [(1920, 1080, true), (1280, 720, false)] {
        assert_eq!(
            error(begin_attach(&mut state, 5, video(w, h), audio(), codec)),
            (
                ErrorCode::ErrorAttachmentParamsNotSupported,
                Some("unsupported streaming resolution or codec".to_string())
            )
        );
    }

    let handler = attached(&mut state);
    assert_eq!(
        error(begin_attach(&mut state, 5, video(1280, 720), audio(), true)),
        (
            ErrorCode::ErrorServer,
            Some("failed to attach to session".to_string())
        )
    );
    assert_eq!(
        begin_detach(&mut state, 5, handler.attachment_id, 9),
        Some(ControlMessage::Detach(handler.attachment_id))
    );
    finish_detach(&mut state, 5, true);
    attached(&mut state);
}

#[test]
fn attachments_that_fail() {
    let mut state = state_with(5);
    let plan = match begin_attach(&mut state, 5, video(1280, 720), audio(), true) {
        Ok(plan) => plan,
        Err(_) => panic!("expected a plan"),
    };
    let (result, withdrawal) = finish_attach(&mut state, &plan, AttachOutcome::TimedOut, 1328);
    assert!(result.is_err());
    assert_eq!(withdrawal, Some(ControlMessage::Detach(plan.attachment_id)));
    assert!(begin_attach(&mut state, 5, video(1280, 720), audio(), true).is_ok());

    let (result, withdrawal) = finish_attach(&mut state, &plan, AttachOutcome::Undelivered, 1328);
    assert!(result.is_err());
    assert_eq!(withdrawal, None);
    assert!(begin_attach(&mut state, 5, video(1280, 720), audio(), true).is_err());
}

#[test]
fn attachments_go_on_and_end() {
    let mut state = state_with(5);
    let mut handler = attached(&mut state);

    match handler.run_step(
        &mut state,
        AttachmentInput::Message(ClientMessage::RequestVideoRefresh { stream_seq: 3 }),
        None,
    ) {
        Step::Continue {
            control,
            outputs,
            reset_keepalive,
        } => {
            assert_eq!(control, Some(ControlMessage::RequestVideoRefresh(3)));
            assert!(outputs.is_empty());
            assert!(reset_keepalive);
        }
        _ => panic!("expected to go on"),
    }
    assert!(matches!(
        handler.run_step(
            &mut state,
            AttachmentInput::Message(ClientMessage::Detach),
            None
        ),
        Step::Finished { .. }
    ));
    assert!(matches!(
        handler.run_step(&mut state, AttachmentInput::ClientFin, None),
        Step::Finished { .. }
    ));
    assert!(matches!(
        handler.run_step(&mut state, AttachmentInput::KeepaliveExpired, None),
        Step::Finished { .. }
    ));
    match handler.run_step(
        &mut state,
        AttachmentInput::Message(ClientMessage::Other),
        None,
    ) {
        Step::Failed(err) => assert_eq!(err.0, ErrorCode::ErrorProtocolUnexpectedMessage),
        _ => panic!("expected an error"),
    }

    match handler.run_step(&mut state, AttachmentInput::SessionLost, None) {
        Step::Failed(err) => {
            assert_eq!(err.0, ErrorCode::ErrorServer);
            assert_eq!(err.1.as_deref(), Some("internal server error"));
        }
        _ => panic!("expected an error"),
    }
    assert_eq!(state.tick(0, &vec![]).len(), 1);
}

#[test]
fn session_events_are_passed_on() {
    let mut state = state_with(5);
    let mut handler = attached(&mut state);

    let frame = Bytes::from(vec![1; 2000]);
    match handler.run_step(
        &mut state,
        AttachmentInput::Event(SessionEvent::VideoFrame {
            stream_seq: 1,
            seq: 2,
            ts: 3,
            frame,
            hierarchical_layer: 1,
        }),
        None,
    ) {
        Step::Continue { outputs, .. } => match &outputs[..] {
            [Output::Datagrams(chunks)] => {
                assert_eq!(chunks.len(), 2);
                assert_eq!(chunks[0].session_id, 5);
                assert_eq!(chunks[0].stream_seq, 1);
                assert_eq!(chunks[0].seq, 2);
                assert_eq!(chunks[0].timestamp, 3);
                assert_eq!(chunks[1].chunk, 1);
                assert_eq!(chunks[1].data.len(), 800);
                assert!(chunks[0].frame_optional());
            }
            _ => panic!("expected datagrams"),
        },
        _ => panic!("expected to go on"),
    }

    let locked = || AttachmentInput::Event(SessionEvent::PointerLocked(Real(1), Real(2)));
    match handler.run_step(&mut state, locked(), None) {
        Step::Continue { outputs, .. } => match &outputs[..] {
            [Output::Send(ServerMessage::LockPointer { x, y })] => {
                assert_eq!(
                    *x,
                    Divided {
                        value: Real(1),
                        divisor: 1
                    }
                );
                assert_eq!(y.value, Real(2));
            }
            _ => panic!("expected a lock"),
        },
        _ => panic!("expected to go on"),
    }
    match handler.run_step(&mut state, locked(), None) {
        Step::Continue { outputs, .. } => assert!(outputs.is_empty()),
        _ => panic!("expected to go on"),
    }
    assert_eq!(
        handler.pointer_lock,
        Some((
            Divided {
                value: Real(1),
                divisor: 1
            },
            Divided {
                value: Real(2),
                divisor: 1
            }
        ))
    );
    match handler.run_step(
        &mut state,
        AttachmentInput::Event(SessionEvent::PointerReleased),
        None,
    ) {
        Step::Continue { outputs, .. } => assert!(matches!(
            &outputs[..],
            [Output::Send(ServerMessage::ReleasePointer)]
        )),
        _ => panic!("expected to go on"),
    }

    match handler.run_step(
        &mut state,
        AttachmentInput::Event(SessionEvent::CursorUpdate {
            image: None,
            icon: Some(CursorIcon::Text),
            hotspot_x: 1,
            hotspot_y: 2,
        }),
        None,
    ) {
        Step::Continue { outputs, .. } => match &outputs[..] {
            [Output::Send(ServerMessage::UpdateCursor { icon, .. })] => {
                assert_eq!(*icon, ClientCursorIcon::Text)
            }
            _ => panic!("expected a cursor"),
        },
        _ => panic!("expected to go on"),
    }

    match handler.run_step(
        &mut state,
        AttachmentInput::Event(SessionEvent::DisplayParamsChanged {
            params: display(1920, 1080),
            reattach: true,
        }),
        None,
    ) {
        Step::Finished { outputs } => assert_eq!(outputs.len(), 1),
        _ => panic!("expected the end"),
    }

    match handler.run_step(
        &mut state,
        AttachmentInput::Event(SessionEvent::Shutdown),
        None,
    ) {
        Step::Finished { outputs } => assert!(matches!(
            &outputs[..],
            [Output::Send(ServerMessage::SessionEnded)]
        )),
        _ => panic!("expected the end"),
    }
    assert!(list_sessions(&state).is_empty());
}

#[test]
fn pointer_messages_take_turns() {
    let mut state = state_with(5);
    let mut handler = attached(&mut state);
    handler.superscale = 2;
    let lock = |x| SessionEvent::PointerLocked(Real(x), Real(7));
    let mut sent = String::new();
    for event in [
        SessionEvent::PointerReleased,
        lock(1),
        lock(3),
        SessionEvent::PointerReleased,
        SessionEvent::PointerReleased,
        lock(5),
        lock(9),
    ] {
        let (outputs, finished) = handler.handle_session_event(event, None);
        assert!(!finished);
        for output in outputs {
            match output {
                Output::Send(ServerMessage::LockPointer { x, .. }) => {
                    assert_eq!(x.divisor, 2);
                    sent.push('L');
                }
                Output::Send(ServerMessage::ReleasePointer) => sent.push('R'),
                _ => panic!("expected a message on the pointer"),
            }
        }
    }
    assert_eq!(sent, "LRL");
    let divided = |value| Divided {
        value: Real(value),
        divisor: 2,
    };
    assert_eq!(handler.pointer_lock, Some((divided(9), divided(7))));
}

#[test]
fn input_is_translated() {
    let mut state = state_with(5);
    let mut handler = attached(&mut state);
    handler.superscale = 2;

    let ok = |message| match handler.handle_attachment_message(message) {
        Ok(control) => control,
        Err(_) => panic!("expected a message"),
    };
    assert_eq!(ok(ClientMessage::KeepAlive), None);
    assert_eq!(
        ok(ClientMessage::KeyboardInput {
            key: Some(Key::A),
            state: Some(KeyState::Pressed),
            character: 'a' as u32
        }),
        Some(ControlMessage::KeyboardInput {
            key_code: 30,
            state: KeyState::Pressed,
            character: Some('a')
        })
    );
    assert_eq!(
        ok(ClientMessage::PointerMotion {
            x: Real(1),
            y: Real(2)
        }),
        Some(ControlMessage::PointerMotion(
            Scaled {
                value: Real(1),
                factor: 2
            },
            Scaled {
                value: Real(2),
                factor: 2
            }
        ))
    );
    assert_eq!(
        ok(ClientMessage::PointerInput {
            button: Some(Button::Left),
            state: Some(ButtonState::Pressed),
            x: Real(0),
            y: Real(0)
        }),
        Some(ControlMessage::PointerInput {
            x: Real(0),
            y: Real(0),
            button_code: 0x110,
            state: ButtonState::Pressed
        })
    );
    assert!(matches!(
        ok(ClientMessage::PointerScroll {
            scroll_type: Some(ScrollType::Discrete),
            x: Real(0),
            y: Real(1)
        }),
        Some(ControlMessage::PointerAxisDiscrete(..))
    ));

    for message in [
        ClientMessage::KeyboardInput {
            key: Some(Key::Unknown),
            state: Some(KeyState::Pressed),
            character: 0,
        },
        ClientMessage::KeyboardInput {
            key: Some(Key::A),
            state: None,
            character: 0,
        },
        ClientMessage::KeyboardInput {
            key: Some(Key::A),
            state: Some(KeyState::Pressed),
            character: 0xd800,
        },
        ClientMessage::GamepadAvailable {
            gamepad: Err("bad".to_string()),
        },
    ] {
        assert!(handler.handle_attachment_message(message).is_err());
    }
}
