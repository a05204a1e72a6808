use ash::vk::Format as F;
use bytes::Bytes;
use mmserver::codec::{AudioCodec, VideoCodec, VideoProfile};
use mmserver::compositor::buffers::{Buffer, BufferBacking, PlaneMetadata};
use mmserver::compositor::modifiers::ARGB8888;
use mmserver::compositor::state::TextureSync;
use mmserver::compositor::surface::{SurfaceConfiguration, Visibility};
use mmserver::compositor::xwayland::DisplaySocket;
use mmserver::container::{check_exit, child_log_name, container_env, socket_name, ExitFailure};
use mmserver::control::{
    AudioStreamParams, ControlMessage, DisplayParams, SessionEvent, VideoStreamParams,
};
use mmserver::input::Real;
use mmserver::pixel_scale::PixelScale;
use mmserver::server::stream::StreamWriter;
use mmserver::session::handle::SessionHandle;
use mmserver::session::reactor::{Action, PendingAttachment, Reactor, ReactorError, Timer};
use mmserver::session::video::{
    disjoint_plane_formats, format_is_semiplanar, plane_view_formats, Command, CommandBuffer,
    EncodePipeline, Image, Layout,
};
use mmserver::session::{
    launch_result, stop_result, AttachOutcome, Session, SessionError, ThreadEnd, ThreadError,
};
use mmserver::vulkan::timeline::TimelinePoint;

fn display(width: u32, height: u32) -> DisplayParams {
    DisplayParams {
        width,
        height,
        framerate: 60,
        ui_scale: PixelScale(1, 1),
    }
}

fn video(width: u32, height: u32) -> VideoStreamParams {
    VideoStreamParams {
        width,
        height,
        codec: VideoCodec::H264,
        preset: 6,
        profile: VideoProfile::Hd,
    }
}

fn audio() -> AudioStreamParams {
    AudioStreamParams {
        sample_rate: 48000,
        channels: 2,
        codec: AudioCodec::Opus,
    }
}

fn writer(id: u64) -> StreamWriter {
    StreamWriter::new(1, id, vec![], 1328)
}

fn pending(id: u64, width: u32, height: u32) -> PendingAttachment {
    PendingAttachment {
        id,
        video_params: video(width, height),
        audio_params: audio(),
        writer: writer(id),
    }
}

fn attached() -> Reactor {
    let mut reactor = Reactor::new(display(1280, 720), false, &vec![3]);
    reactor.queue_attachment(pending(9, 1280, 720));
    assert_eq!(
        reactor.idle(true, &vec![true]),
        vec![
            Action::AddClient { id: 9 },
            Action::RestartAudio(audio()),
            Action::UpdateFocusAndVisibility { active: true },
            Action::SendCursor,
            Action::CompositorIdle { active: true },
            Action::Flush,
        ]
    );
    reactor
}

#[test]
fn sessions_keep_their_operator() {
    let mut session = Session::new(1, "app".to_string(), display(1280, 720), vec![], None, 0);
    assert!(session.begin_attach(5, video(1280, 720), audio()).is_ok());
    let (result, _) = session.finish_attach(5, AttachOutcome::Accepted);
    assert!(result.is_ok());
    assert_eq!(
        session.begin_attach(6, video(1280, 720), audio()).err(),
        Some(SessionError::AlreadyHasOperator)
    );
    assert!(session.begin_detach(5, 100).is_ok());
    assert!(session.finish_detach(true).is_ok());
    assert!(!session.timed_out(200, Some(100)));
    assert!(session.timed_out(201, Some(100)));
    assert!(!session.timed_out(u64::MAX, None));
    assert!(session.supports_stream(video(1280, 720), true));
    assert!(!session.supports_stream(video(1280, 722), true));
    assert!(session.begin_update(display(640, 480)).is_ok());
    assert_eq!(
        session.finish_update(display(640, 480), false),
        Err(SessionError::CompositorDied)
    );
    assert_eq!(
        session.begin_update(display(640, 480)).err(),
        Some(SessionError::Defunct)
    );
    assert_eq!(session.begin_detach(5, 1).err(), Some(SessionError::Defunct));
}

#[test]
fn threads_of_sessions() {
    assert!(launch_result(true, None).is_ok());
    assert_eq!(launch_result(false, None), Err(ThreadError::CommandNotFound));
    assert_eq!(
        launch_result(true, Some(ThreadEnd::Finished)),
        Err(ThreadError::ExitedUnexpectedly)
    );
    assert_eq!(
        launch_result(true, Some(ThreadEnd::Panicked)),
        Err(ThreadError::Panicked)
    );
    assert!(stop_result(false, ThreadEnd::Finished).is_ok());
    assert_eq!(
        stop_result(true, ThreadEnd::Finished),
        Err(ThreadError::ChannelFull)
    );
    assert_eq!(
        stop_result(false, ThreadEnd::Failed),
        Err(ThreadError::Failed)
    );
}

#[test]
fn frames_reach_every_client() {
    let mut handle = SessionHandle::new();
    handle.insert_client(7, writer(7));
    handle.insert_client(3, writer(3));
    assert_eq!(handle.num_attachments(), 2);
    assert_eq!(handle.dispatch(), vec![3, 7]);

    let frame = Bytes::from(vec![1; 1500]);
    let sent = handle.dispatch_video_frame(50, frame.clone(), 2, true, &vec![None, Some(1)]);
    assert_eq!(sent.len(), 2);
    assert_eq!(sent[0].client, 3);
    assert_eq!(sent[0].chunks.len(), 2);
    assert_eq!(sent[1].client, 7);
    assert_eq!(sent[1].chunks.len(), 3);
    match &sent[1].event {
        SessionEvent::VideoFrame {
            stream_seq,
            seq,
            ts,
            hierarchical_layer,
            ..
        } => assert_eq!((*stream_seq, *seq, *ts, *hierarchical_layer), (1, 0, 50, 2)),
        _ => panic!("expected a frame"),
    }

    let sent = handle.dispatch_audio_frame(60, frame, false);
    assert_eq!(sent.len(), 2);
    match &sent[0].event {
        SessionEvent::AudioFrame { stream_seq, seq, .. } => {
            assert_eq!((*stream_seq, *seq), (0, 0))
        }
        _ => panic!("expected a frame"),
    }

    handle.remove_client(3);
    assert_eq!(handle.kick_clients(), vec![7]);
    assert_eq!(handle.num_attachments(), 0);
}

#[test]
fn attachments_wait_for_the_display() {
    let mut reactor = Reactor::new(display(1280, 720), false, &vec![]);
    assert!(!reactor.active());
    reactor.queue_attachment(pending(9, 1280, 720));
    assert!(reactor.active());
    assert_eq!(
        reactor.idle(false, &vec![true]),
        vec![Action::CompositorIdle { active: true }, Action::Flush]
    );
    assert!(reactor
        .handle_control_message(ControlMessage::UpdateDisplayParams(display(1280, 720)))
        .is_empty());
    assert_eq!(
        reactor.idle(true, &vec![true]),
        vec![Action::CompositorIdle { active: true }, Action::Flush]
    );
    assert_eq!(
        reactor.timer_fired(true),
        vec![Action::SetTimer(Timer::Framerate(60))]
    );
    assert_eq!(
        reactor.idle(true, &vec![false]),
        vec![Action::CompositorIdle { active: false }, Action::Flush]
    );
}

#[test]
fn nobody_is_attached_during_shutdown() {
    let mut reactor = Reactor::new(display(1280, 720), false, &vec![]);
    reactor.queue_attachment(pending(9, 1280, 720));
    assert_eq!(
        reactor.handle_control_message(ControlMessage::Stop),
        vec![Action::KickClients, Action::KillChild]
    );
    assert_eq!(reactor.idle(true, &vec![true]), vec![]);
    assert!(reactor.active());
}

#[test]
fn frames_start_a_stream() {
    let mut reactor = attached();
    assert!(reactor.frame(false).is_empty());
    assert_eq!(
        reactor.frame(true),
        vec![
            Action::StartVideo {
                stream_seq: 1,
                display_params: display(1280, 720),
                params: video(1280, 720)
            },
            Action::CompositeFrame,
            Action::RenderCursor
        ]
    );
    assert_eq!(
        reactor.frame(true),
        vec![Action::CompositeFrame, Action::RenderCursor]
    );
    assert_eq!(
        reactor.handle_control_message(ControlMessage::RequestVideoRefresh(1)),
        vec![Action::RefreshVideo]
    );
    assert!(reactor
        .handle_control_message(ControlMessage::RequestVideoRefresh(2))
        .is_empty());
    assert_eq!(
        reactor.handle_control_message(ControlMessage::Detach(9)),
        vec![
            Action::DropClient { id: 9 },
            Action::StopAudio,
            Action::StopVideo,
            Action::UpdateFocusAndVisibility { active: false }
        ]
    );
    assert!(reactor.frame(true).is_empty());
}

#[test]
fn resizing_drops_clients() {
    let mut reactor = attached();
    reactor.queue_attachment(pending(10, 1280, 720));
    reactor.queue_attachment(pending(11, 1920, 1080));
    let actions = reactor.update_display_params(display(1920, 1080));
    assert_eq!(
        actions,
        vec![
            Action::UpdateDisplay {
                params: display(1920, 1080),
                active: false
            },
            Action::SendDisplayParams {
                params: display(1920, 1080),
                reattach: true
            },
            Action::DropAllClients,
            Action::StopAudio,
            Action::StopVideo
        ]
    );
    assert_eq!(reactor.pending_attachments.len(), 1);
    assert_eq!(reactor.pending_attachments[0].id, 11);
    assert_eq!(reactor.handle.num_attachments(), 0);
    assert!(reactor.update_display_params(display(1920, 1080)).is_empty());
}

#[test]
fn scaling_keeps_clients() {
    let scaled = DisplayParams {
        ui_scale: PixelScale(2, 1),
        ..display(1280, 720)
    };
    let mut reactor = attached();
    assert_eq!(
        reactor.update_display_params(scaled),
        vec![
            Action::UpdateDisplay {
                params: scaled,
                active: true
            },
            Action::SendDisplayParams {
                params: scaled,
                reattach: false
            }
        ]
    );
    assert_eq!(reactor.handle.num_attachments(), 1);

    let mut forced = Reactor::new(display(1280, 720), true, &vec![]);
    assert_eq!(
        forced.update_display_params(scaled),
        vec![Action::SendDisplayParams {
            params: scaled,
            reattach: false
        }]
    );
    assert_eq!(forced.display_params, display(1280, 720));
}

#[test]
fn gamepads_are_plugged() {
    let mut reactor = Reactor::new(display(1280, 720), false, &vec![3]);
    assert!(reactor
        .handle_control_message(ControlMessage::GamepadAvailable(3))
        .is_empty());
    assert!(reactor
        .handle_control_message(ControlMessage::GamepadUnavailable(3))
        .is_empty());
    assert_eq!(
        reactor.handle_control_message(ControlMessage::GamepadAvailable(4)),
        vec![Action::PlugGamepad { id: 4 }]
    );
    let axis = ControlMessage::GamepadAxis {
        id: 4,
        axis_code: 0,
        value: Real(1),
    };
    assert_eq!(
        reactor.handle_control_message(axis),
        vec![Action::GamepadInput(axis)]
    );
    assert_eq!(
        reactor.handle_control_message(ControlMessage::GamepadUnavailable(4)),
        vec![Action::UnplugGamepad { id: 4 }]
    );
    assert!(reactor.handle_control_message(axis).is_empty());
    assert_eq!(
        reactor.handle_control_message(ControlMessage::PointerLeft),
        vec![Action::Input(ControlMessage::PointerLeft)]
    );
}

#[test]
fn sessions_shut_down() {
    let mut reactor = attached();
    assert_eq!(
        reactor.handle_control_message(ControlMessage::Stop),
        vec![Action::KickClients, Action::KillChild]
    );
    assert!(reactor
        .handle_control_message(ControlMessage::PointerLeft)
        .is_empty());
    reactor.queue_attachment(pending(12, 1280, 720));
    assert!(reactor.pending_attachments.is_empty());
}

#[test]
fn sessions_become_ready() {
    let mut reactor = Reactor::new(display(1280, 720), false, &vec![]);
    let (actions, result) = reactor.finish_turn(false, 10_000_000_000);
    assert_eq!(actions, vec![Action::SetTimer(Timer::EverySecond)]);
    assert!(result.is_ok());
    let (actions, result) = reactor.finish_turn(false, 10_000_000_001);
    assert_eq!(actions, vec![Action::KillChild]);
    assert_eq!(result, Err(ReactorError::TimedOut));
    assert_eq!(reactor.child_exited().1, Err(ReactorError::ExitedEarly));

    let (actions, result) = reactor.finish_turn(true, u64::MAX);
    assert_eq!(actions, vec![Action::AnnounceReady]);
    assert!(result.is_ok());
    reactor.queue_attachment(pending(9, 1280, 720));
    let (actions, _) = reactor.finish_turn(true, u64::MAX);
    assert_eq!(actions, vec![Action::SetTimer(Timer::Framerate(60))]);
    assert_eq!(reactor.child_exited(), (vec![Action::KickClients], Ok(())));
}

fn conf() -> SurfaceConfiguration {
    SurfaceConfiguration {
        x: 10,
        y: 20,
        width: 640,
        height: 480,
        scale: PixelScale(1, 1),
        visibility: Visibility::Visible,
        fullscreen: false,
    }
}

fn plane() -> PlaneMetadata {
    PlaneMetadata {
        format: ARGB8888,
        bpp: 4,
        width: 640,
        height: 480,
        stride: 2560,
        offset: 0,
    }
}

#[test]
fn frames_are_composed() {
    let mut pipeline = EncodePipeline::new(display(1280, 720), video(1280, 720), 0, 1);
    let begun = pipeline.begin(0).unwrap();
    assert_eq!(begun.len(), 5);
    assert_eq!(begun[0], Command::Begin(CommandBuffer::Staging));

    let shm = Buffer {
        wl_buffer: 1,
        backing: BufferBacking::Shm {
            format: plane(),
            dirty: true,
        },
        needs_destruction: false,
    };
    let (commands, release) = pipeline.composite_surface(&shm, 77, None, conf());
    assert_eq!(release, None);
    assert_eq!(commands.len(), 5);
    assert_eq!(
        commands[3],
        Command::Upload {
            image: 77,
            row_length: 640,
            height: 480
        }
    );

    let dmabuf = Buffer {
        wl_buffer: 2,
        backing: BufferBacking::Dmabuf { format: plane() },
        needs_destruction: false,
    };
    let (commands, release) =
        pipeline.composite_surface(&dmabuf, 78, Some(TextureSync::ImplicitInterop), conf());
    assert_eq!(release, Some(11));
    assert_eq!(commands.len(), 4);
    assert_eq!(commands[2], Command::CreateSemaphore { index: 0 });

    let (commands, done) = pipeline.end_and_submit();
    assert_eq!(done, 12);
    assert_eq!(commands[0], Command::BeginCompositing);
    assert!(matches!(commands[1], Command::DrawImage(d) if d.image == 77 && d.x == 10));
    assert!(matches!(commands[2], Command::DrawImage(d) if d.image == 78));
    assert!(commands.contains(&Command::Submit {
        uploads: true,
        staging_done: 10,
        semaphores: 1,
        render_done: 11
    }));
    assert!(commands.iter().any(|c| matches!(
        c,
        Command::InsertBarrier(_, b) if b.image == Image::Encode && b.old_layout == Layout::Undefined
    )));
    assert_eq!(pipeline.swap_idx, 1);
}

#[test]
fn frames_are_dropped_under_pressure() {
    let mut pipeline = EncodePipeline::new(display(1280, 720), video(1280, 720), 0, 1);
    assert!(pipeline.begin(0).is_some());
    pipeline.end_and_submit();
    assert!(pipeline.begin(0).is_some());
    pipeline.end_and_submit();
    assert_eq!(pipeline.swap_idx, 0);
    assert!(pipeline.begin(11).is_none());
    assert!(pipeline.begin(12).is_some());
    let (commands, done) = pipeline.end_and_submit();
    assert_eq!(done, 22);
    assert!(commands.contains(&Command::SignalStaging { value: 20 }));
    assert!(commands.iter().any(|c| matches!(
        c,
        Command::InsertBarrier(_, b)
            if b.image == Image::Encode && b.queue_transfer == Some((1, 0))
    )));
}

#[test]
fn planes_have_formats() {
    assert!(format_is_semiplanar(F::G8_B8R8_2PLANE_420_UNORM.as_raw()));
    assert!(format_is_semiplanar(F::G16_B16R16_2PLANE_444_UNORM.as_raw()));
    assert!(!format_is_semiplanar(F::G8_B8_R8_3PLANE_420_UNORM.as_raw()));
    assert_eq!(
        disjoint_plane_formats(F::G10X6_B10X6R10X6_2PLANE_420_UNORM_3PACK16.as_raw()),
        Some((
            F::R10X6_UNORM_PACK16.as_raw(),
            F::R10X6G10X6_UNORM_2PACK16.as_raw()
        ))
    );
    assert_eq!(
        disjoint_plane_formats(F::G12X4_B12X4_R12X4_3PLANE_444_UNORM_3PACK16.as_raw()),
        Some((
            F::R12X4_UNORM_PACK16.as_raw(),
            F::R12X4G12X4_UNORM_2PACK16.as_raw()
        ))
    );
    assert_eq!(
        disjoint_plane_formats(F::G16_B16_R16_3PLANE_422_UNORM.as_raw()),
        Some((F::R16_UNORM.as_raw(), F::R16G16_UNORM.as_raw()))
    );
    assert_eq!(disjoint_plane_formats(F::R8G8B8A8_UNORM.as_raw()), None);
    assert_eq!(
        plane_view_formats(F::G8_B8_R8_3PLANE_420_UNORM.as_raw()),
        Some(vec![F::R8_UNORM.as_raw(); 3])
    );
    assert_eq!(
        plane_view_formats(F::G8_B8R8_2PLANE_420_UNORM.as_raw()),
        Some(vec![F::R8_UNORM.as_raw(), F::R8G8_UNORM.as_raw()])
    );
}

#[test]
fn timeline_points() {
    let point = TimelinePoint::new(1, 10).plus(2);
    assert_eq!(point.value, 12);
    assert!(!point.poll(11));
    assert!(point.poll(12));
    assert!(point.poll(13));
}

#[test]
fn containers() {
    assert!(check_exit(Some(0)).is_ok());
    assert!(check_exit(None).is_ok());
    assert_eq!(check_exit(Some(3)), Err(ExitFailure { status: 3 }));
    assert_eq!(
        ExitFailure { status: 3 }.message(),
        "child process exited with status: 3"
    );
    assert_eq!(socket_name(42), "magic-mirror-42");
    assert_eq!(child_log_name(17), "child-17.log");
    let env = container_env(
        &vec![("A".to_string(), "1".to_string())],
        &"magic-mirror-42".to_string(),
        Some(DisplaySocket(2)),
    );
    let env: Vec<(&str, &str)> = env.iter().map(|(k, v)| (k.as_str(), v.as_str())).collect();
    assert_eq!(
        env,
        vec![
            ("A", "1"),
            ("WAYLAND_DISPLAY", "magic-mirror-42"),
            ("DISPLAY", ":2"),
            ("PIPEWIRE_REMOTE", "(null)")
        ]
    );
}
