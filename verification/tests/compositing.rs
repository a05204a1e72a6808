use drm_fourcc::DrmFourcc;
use mmserver::compositor::dispatch::XPoll;
use mmserver::compositor::buffers::{
    import_dmabuf_buffer, import_shm_buffer, validate_buffer_parameters, Buffer, BufferBacking,
    ExportSyncFile, ImportError, PlaneMetadata, ReleaseAction,
};
use mmserver::compositor::modifiers::{
    fourcc_bpp, fourcc_to_vk, supported_formats, verify_dmabuf_support, CachedDmabufFeedback,
    ModifierProperties, ARGB8888, HANDLE_TYPE_DMA_BUF, XRGB8888,
};
use mmserver::compositor::output::{configure_output, OutputEvent};
use mmserver::compositor::properties::{
    fetch_hints, fetch_protocols, fetch_string_property, ConnectionFailed, PropertyReply,
};
use mmserver::compositor::shell::ShellError;
use mmserver::compositor::state::{
    create_globals, ClientState, Compositor, CompositorAction, OutputProxy, TextureSync,
};
use mmserver::compositor::surface::{
    ContentUpdate, SurfaceConfiguration, SurfaceRole, SyncobjTimelinePoint, Visibility,
};
use mmserver::compositor::xwayland::{
    xwayland_args, BindOutcome, DisplaySocket, Pick, PipeRead, ReadyError, XWayland,
};
use mmserver::compositor::xwm::{make_u64, Action, Atoms, CreatedWindow, State, XEvent, Xwm};
use mmserver::control::DisplayParams;
use mmserver::pixel_scale::PixelScale;
use slotmap::DefaultKey;

fn display(width: u32, height: u32) -> DisplayParams {
    DisplayParams {
        width,
        height,
        framerate: 60,
        ui_scale: PixelScale(1, 1),
    }
}

fn conf(fullscreen: bool) -> SurfaceConfiguration {
    SurfaceConfiguration {
        x: 0,
        y: 0,
        width: 640,
        height: 480,
        scale: PixelScale(1, 1),
        visibility: Visibility::Visible,
        fullscreen,
    }
}

fn plane(format: u32) -> PlaneMetadata {
    PlaneMetadata {
        format,
        bpp: 4,
        width: 640,
        height: 480,
        stride: 2560,
        offset: 16,
    }
}

fn dmabuf(id: u32) -> Buffer {
    Buffer {
        wl_buffer: id,
        backing: BufferBacking::Dmabuf {
            format: plane(ARGB8888),
        },
        needs_destruction: false,
    }
}

fn content(buffer: DefaultKey) -> ContentUpdate {
    ContentUpdate {
        buffer,
        tp_done: None,
        needs_release: true,
        explicit_sync: None,
        wp_presentation_feedback: None,
    }
}

fn mapped(comp: &mut Compositor, client: u32, fullscreen: bool) -> (DefaultKey, DefaultKey) {
    let buffer = comp.insert_buffer(dmabuf(client));
    let key = comp.windows.create_surface(client);
    let surface = comp.windows.surface_mut(key).unwrap();
    surface.configuration = Some(conf(fullscreen));
    surface.content = Some(content(buffer));
    comp.surface_stack.push(key);
    (key, buffer)
}

#[test]
fn formats_are_supported() {
    assert_eq!(fourcc_to_vk(DrmFourcc::Argb8888 as u32), Some((44, false)));
    assert_eq!(fourcc_to_vk(DrmFourcc::Xrgb8888 as u32), Some((44, true)));
    assert_eq!(fourcc_to_vk(DrmFourcc::Abgr8888 as u32), Some((37, false)));
    assert_eq!(fourcc_to_vk(DrmFourcc::Xbgr8888 as u32), Some((37, true)));
    for (fourcc, opaque) in [
        (DrmFourcc::Argb16161616f, false),
        (DrmFourcc::Xrgb16161616f, true),
        (DrmFourcc::Abgr16161616f, false),
        (DrmFourcc::Xbgr16161616f, true),
    ] {
        assert_eq!(fourcc_to_vk(fourcc as u32), Some((97, opaque)));
        assert_eq!(fourcc_bpp(fourcc as u32), Some(8));
    }
    assert_eq!(fourcc_bpp(DrmFourcc::Argb8888 as u32), Some(4));
    assert_eq!(fourcc_to_vk(DrmFourcc::Nv12 as u32), None);
    assert_eq!(fourcc_bpp(DrmFourcc::Nv12 as u32), None);
    assert_eq!(ash::vk::Format::B8G8R8A8_UNORM.as_raw(), 44);
    assert_eq!(ash::vk::Format::R8G8B8A8_UNORM.as_raw(), 37);
    assert_eq!(ash::vk::Format::R16G16B16A16_SFLOAT.as_raw(), 97);
}

#[test]
fn clients_are_told_of_formats() {
    let mut modifiers: Vec<Vec<ModifierProperties>> = vec![vec![]; supported_formats().len()];
    let props = |modifier, plane_count| ModifierProperties {
        modifier,
        plane_count,
        handle_types: Some(HANDLE_TYPE_DMA_BUF),
    };
    modifiers[0] = vec![props(0, 1), props(5, 2), props(0x0102030405060708, 1)];
    modifiers[1] = vec![props(0, 1)];
    let feedback = CachedDmabufFeedback::new(0xe280, &modifiers, false);
    assert_eq!(feedback.formats.len(), 3);
    assert_eq!(feedback.formats[2].code, XRGB8888);
    assert_eq!(feedback.table.len(), 48);
    assert_eq!(&feedback.table[16..20], &ARGB8888.to_le_bytes());
    assert_eq!(&feedback.table[20..24], &[0, 0, 0, 0]);
    assert_eq!(&feedback.table[24..32], &[8, 7, 6, 5, 4, 3, 2, 1]);
    assert!(feedback.contains(0));
    assert!(!feedback.contains(5));
    assert_eq!(feedback.device_bytes(false), vec![0x80, 0xe2, 0, 0, 0, 0, 0, 0]);
    assert_eq!(feedback.tranche_indices(false), vec![0, 0, 1, 0, 2, 0]);

    let swapped = CachedDmabufFeedback::new(0xe280, &modifiers, true);
    assert_eq!(&swapped.table[16..20], &ARGB8888.to_be_bytes());
    assert_eq!(swapped.tranche_indices(true), vec![0, 0, 0, 1, 0, 2]);
}

#[test]
fn buffer_parameters() {
    assert!(validate_buffer_parameters(0, 640, 480, 2560, 4).is_ok());
    assert!(validate_buffer_parameters(64, 640, 480, 4096, 4).is_ok());
    for (offset, width, height, stride, bpp, text) in [
        (-1, 640, 480, 2560, 4, "Negative offset."),
        (0, 0, 480, 2560, 4, "Invalid height or width."),
        (0, 640, -1, 2560, 4, "Invalid height or width."),
        (0, 640, 480, 0, 4, "Invalid stride."),
        (0, 641, 480, 2560, 4, "Invalid stride."),
        (0, 640, 480, 2560, 0, "Invalid stride."),
        (0, 1, i32::MAX, 4, 4, "Invalid stride."),
        (i32::MAX, 640, 480, 2560, 4, "Invalid offset."),
    ] {
        assert_eq!(
            validate_buffer_parameters(offset, width, height, stride, bpp),
            Err(text.to_string())
        );
    }
}

#[test]
fn buffers_are_imported() {
    let (import, buffer) = import_shm_buffer(3, plane(XRGB8888));
    assert_eq!(import.staging_len, 2560 * 480);
    assert!(import.ignore_alpha);
    assert_eq!(import.vk_format, 44);
    assert_eq!(buffer.dimensions(), (640, 480));
    assert!(matches!(
        buffer.backing,
        BufferBacking::Shm { dirty: true, .. }
    ));

    match import_dmabuf_buffer(4, plane(ARGB8888), 9, Some(HANDLE_TYPE_DMA_BUF)) {
        Ok((import, buffer)) => {
            assert_eq!((import.offset, import.row_pitch), (16, 2560));
            assert_eq!(import.modifier, 9);
            assert!(!buffer.needs_destruction);
        }
        Err(_) => panic!("expected a buffer"),
    }
    assert!(matches!(
        import_dmabuf_buffer(4, plane(ARGB8888), 9, None),
        Err(ImportError::UnsupportedFormat)
    ));
    assert!(import_dmabuf_buffer(4, plane(1), 9, Some(HANDLE_TYPE_DMA_BUF)).is_err());
    assert_eq!(
        ash::vk::ExternalMemoryHandleTypeFlags::DMA_BUF_EXT.as_raw(),
        HANDLE_TYPE_DMA_BUF
    );
    assert!(verify_dmabuf_support(Some(0x201)));
    assert!(!verify_dmabuf_support(Some(0x1)));
}

#[test]
fn fences_are_exported() {
    let mut request = ExportSyncFile::new(1);
    assert_eq!(request.output(0), Err(22));
    request.fd = 7;
    assert_eq!(request.output(0), Ok(7));
    assert_eq!(request.output(5), Err(5));
}

#[test]
fn buffers_are_given_back() {
    let mut comp = Compositor::new(display(1280, 720));
    let shown = comp.insert_buffer(dmabuf(1));
    let flying = comp.insert_buffer(dmabuf(2));
    let done = comp.insert_buffer(dmabuf(3));
    let kept = comp.insert_buffer(dmabuf(4));
    let key = comp.windows.create_surface(1);
    comp.windows.surface_mut(key).unwrap().content = Some(content(shown));
    let point = |value| SyncobjTimelinePoint { handle: 1, value };
    comp.in_flight_buffers.push(ContentUpdate {
        tp_done: Some(5),
        ..content(flying)
    });
    comp.in_flight_buffers.push(ContentUpdate {
        tp_done: Some(4),
        explicit_sync: Some((point(1), point(2))),
        wp_presentation_feedback: Some(8),
        ..content(done)
    });
    for key in [shown, flying, done] {
        comp.buffer_destroyed(key);
    }
    assert_eq!(
        comp.release_buffers(&vec![false, true]),
        vec![
            ReleaseAction::Release { wl_buffer: 3 },
            ReleaseAction::Signal(point(2)),
            ReleaseAction::DiscardFeedback { feedback: 8 }
        ]
    );
    assert_eq!(comp.in_flight_buffers.len(), 1);
    assert!(comp.buffer(shown).is_some());
    assert!(comp.buffer(flying).is_some());
    assert!(comp.buffer(done).is_none());
    assert!(comp.buffer(kept).is_some());

    assert_eq!(
        comp.release_buffers(&vec![true]),
        vec![ReleaseAction::Release { wl_buffer: 2 }]
    );
    assert!(comp.buffer(flying).is_none());
}

#[test]
fn hidden_surfaces_are_not_drawn() {
    let mut comp = Compositor::new(display(1280, 720));
    let (_, _) = mapped(&mut comp, 1, false);
    let (middle, buffer) = mapped(&mut comp, 2, true);
    let (front, _) = mapped(&mut comp, 3, false);
    comp.windows.surface_mut(front).unwrap().frame_callback = Some(40);
    let surface = comp.windows.surface_mut(middle).unwrap();
    let mut shown = content(buffer);
    shown.wp_presentation_feedback = Some(41);
    shown.explicit_sync = Some((
        SyncobjTimelinePoint {
            handle: 1,
            value: 6,
        },
        SyncobjTimelinePoint {
            handle: 1,
            value: 7,
        },
    ));
    surface.content = Some(shown);

    assert_eq!(comp.first_visible(), 1);
    let items = comp.composite_frame();
    assert_eq!(items.len(), 2);
    assert!(items[0].surface == middle);
    assert!(items[0].buffer == buffer);
    assert_eq!(
        items[0].sync,
        Some(TextureSync::Explicit(SyncobjTimelinePoint {
            handle: 1,
            value: 6
        }))
    );
    assert_eq!(items[1].sync, Some(TextureSync::ImplicitInterop));

    assert_eq!(
        comp.frame_submitted(1, &vec![Some(11), Some(11)], 12),
        vec![40]
    );
    assert_eq!(comp.pending_presentation_feedback.len(), 1);
    assert_eq!(comp.pending_presentation_feedback[0].feedback, 41);
    assert_eq!(comp.pending_presentation_feedback[0].tp_render, 12);
    let surface = comp.windows.surface(middle).unwrap();
    assert_eq!(surface.content.unwrap().tp_done, Some(11));
    assert_eq!(comp.windows.surface(front).unwrap().frame_callback, None);
}

#[test]
fn displays_of_surfaces_change() {
    let mut comp = Compositor::new(display(1280, 720));
    let (key, _) = mapped(&mut comp, 1, false);
    comp.windows.surface_mut(key).unwrap().frame_callback = Some(40);
    comp.output_proxies.push(OutputProxy {
        client: 1,
        output: 50,
    });
    comp.output_proxies.push(OutputProxy {
        client: 2,
        output: 51,
    });
    let actions = comp.update_display_params(display(1920, 1080), true);
    assert_eq!(actions.len(), 7);
    assert!(
        matches!(actions[0], CompositorAction::Reconfigure { surface, window: None } if surface == key)
    );
    assert!(
        matches!(actions[1], CompositorAction::LeaveOutput { surface, output: 50 } if surface == key)
    );
    assert!(matches!(
        actions[2],
        CompositorAction::EnterOutput { output: 50, .. }
    ));
    assert!(matches!(
        actions[3],
        CompositorAction::FrameDone { callback: 40 }
    ));
    assert!(matches!(
        actions[4],
        CompositorAction::UpdateFocusAndVisibility { active: true }
    ));
    assert!(matches!(
        actions[6],
        CompositorAction::ConfigureOutput { output: 51 }
    ));
    assert_eq!(comp.update_display_params(display(1920, 1080), false).len(), 4);
}

#[test]
fn outputs_are_described() {
    let params = DisplayParams {
        ui_scale: PixelScale(3, 2),
        ..display(1280, 720)
    };
    let events = configure_output(4, params);
    assert_eq!(events.len(), 6);
    assert!(matches!(&events[0], OutputEvent::Name(name) if name == "MM"));
    assert!(matches!(
        &events[3],
        OutputEvent::Mode {
            width: 1280,
            height: 720,
            refresh: 60000
        }
    ));
    assert!(matches!(&events[4], OutputEvent::Scale(2)));
    assert!(matches!(&events[5], OutputEvent::Done));
    assert_eq!(configure_output(2, params).len(), 4);
    assert_eq!(configure_output(1, params).len(), 2);
    let huge = DisplayParams {
        ui_scale: PixelScale(u32::MAX, 1),
        ..params
    };
    assert!(configure_output(2, huge)
        .iter()
        .any(|e| matches!(e, OutputEvent::Scale(i32::MAX))));
}

#[test]
fn surfaces_are_configured() {
    let mut state = State::new();
    let key = state.create_surface(1);
    assert!(state.get_xdg_surface(key).is_ok());
    assert_eq!(state.ack_configure(key, 3), Err(ShellError::InvalidSerial));
    state.surface_mut(key).unwrap().pending_configure = Some(5);
    assert!(state.ack_configure(key, 4).is_ok());
    assert_eq!(state.ack_configure(key, 6), Err(ShellError::InvalidSerial));
    assert!(state.ack_configure(key, 5).is_ok());
    assert_eq!(state.ack_configure(key, 5), Err(ShellError::InvalidSerial));

    state.set_title(key, "title".to_string());
    state.set_app_id(key, "app".to_string());
    let surface = state.surface(key).unwrap();
    assert_eq!(surface.title.as_deref(), Some("title"));
    assert_eq!(surface.app_id.as_deref(), Some("app"));

    state.surface_mut(key).unwrap().role = Some(SurfaceRole::XdgToplevel {
        xdg_surface: 7,
        xdg_toplevel: 8,
    });
    assert_eq!(
        state.xdg_surface_destroyed(key, 7),
        Err(ShellError::DefunctRoleObject)
    );
    assert!(state.xdg_surface_destroyed(key, 6).is_ok());
    assert!(!state.toplevel_destroyed(key, 7));
    assert!(state.toplevel_destroyed(key, 8));
    assert!(state.surface(key).unwrap().role.is_none());

    assert!(state.get_fractional_scale(key, 1).is_ok());
    assert_eq!(
        state.get_fractional_scale(key, 2),
        Err(ShellError::FractionalScaleExists)
    );
    assert_eq!(state.surface(key).unwrap().wp_fractional_scale, Some(2));

    assert!(state.get_syncobj_surface(key, 1).is_ok());
    assert_eq!(
        state.get_syncobj_surface(key, 2),
        Err(ShellError::SurfaceExists)
    );
    state.set_acquire_point(key, 9, 1, 2);
    state.set_release_point(key, 9, 0, 3);
    let surface = state.surface(key).unwrap();
    assert_eq!(
        surface.pending_acquire_point,
        Some(SyncobjTimelinePoint {
            handle: 9,
            value: 0x1_0000_0002
        })
    );
    assert_eq!(surface.pending_release_point.unwrap().value, 3);
    state.syncobj_surface_destroyed(key);
    let surface = state.surface(key).unwrap();
    assert!(surface.wp_syncobj_surface.is_none());
    assert!(surface.pending_acquire_point.is_none());
}

#[test]
fn surfaces_with_buffers_have_no_shell() {
    let mut comp = Compositor::new(display(1280, 720));
    let (key, _) = mapped(&mut comp, 1, false);
    assert_eq!(
        comp.windows.get_xdg_surface(key),
        Err(ShellError::AlreadyConstructed)
    );
    assert!(!ClientState::default().xwayland);
    let globals = create_globals();
    assert_eq!(globals.len(), 15);
    assert_eq!(globals[0].interface, "wl_compositor");
    assert_eq!(globals[0].version, 6);
}

#[test]
fn x_displays() {
    let display = DisplaySocket::first();
    assert_eq!(display.display(), ":1");
    assert_eq!(display.inner_path(), "/tmp/.X11-unix/X1");
    assert_eq!(DisplaySocket(12).extern_path(), "tmp/.X11-unix/X12");
    assert_eq!(
        display.pick_unused(BindOutcome::InUse),
        Pick::TryNext(DisplaySocket(2))
    );
    assert_eq!(
        display.pick_unused(BindOutcome::Bound),
        Pick::Found(display)
    );
    assert_eq!(display.pick_unused(BindOutcome::Failed), Pick::Failed);
    assert_eq!(
        xwayland_args("/usr/bin/Xwayland".to_string(), 3, 4, 5),
        vec![
            "/usr/bin/Xwayland",
            "-verbose",
            "-rootless",
            "-terminate",
            "-force-xrandr-emulation",
            "-wm",
            "3",
            "-displayfd",
            "4",
            "-listenfd",
            "5"
        ]
    );

    let mut xwayland = XWayland::new(display);
    assert_eq!(xwayland.poll_ready(PipeRead::WouldBlock), Ok(false));
    assert_eq!(xwayland.poll_ready(PipeRead::Data(b"1".to_vec())), Ok(false));
    assert_eq!(
        xwayland.poll_ready(PipeRead::Failed),
        Err(ReadyError::ReadFailed)
    );
    assert_eq!(xwayland.poll_ready(PipeRead::Data(b"\n".to_vec())), Ok(true));
    assert_eq!(
        xwayland.poll_ready(PipeRead::Data(b"\n".to_vec())),
        Err(ReadyError::AlreadyReady)
    );
}

fn atoms() -> Atoms {
    Atoms {
        wl_surface_serial: 100,
        utf8_string: 101,
        wm_hints: 102,
        wm_protocols: 103,
        wm_take_focus: 104,
        wm_change_state: 105,
        net_wm_name: 106,
        net_wm_moveresize: 107,
        net_wm_state_modal: 108,
        wm_s0: 109,
        wm_state: 110,
        net_wm_cm_s0: 111,
        net_supported: 112,
        net_active_window: 113,
        net_client_list: 114,
        net_client_list_stacking: 115,
        net_wm_state: 116,
        net_wm_state_maximized_vert: 117,
        net_wm_state_maximized_horz: 118,
        net_wm_state_hidden: 119,
        net_wm_state_fullscreen: 120,
        net_wm_state_focused: 121,
        net_supporting_wm_check: 122,
    }
}

fn x_state() -> State {
    let (xwm, actions) = Xwm::new(atoms(), 1, 2);
    assert_eq!(actions.len(), 11);
    let mut state = State::new();
    state.xwm = Some(xwm);
    state
}

fn run(state: &mut State, event: XEvent) -> Vec<Action> {
    let (mut lists, result) = state.dispatch_xwm(vec![XPoll::Event(event)]);
    assert_eq!(lists.len(), 1);
    assert_eq!(result, None);
    lists.remove(0)
}

fn created(window: u32, override_redirect: bool) -> CreatedWindow {
    CreatedWindow {
        window,
        x: 1,
        y: 2,
        width: 300,
        height: 200,
        override_redirect,
    }
}

fn add_window(state: &mut State, window: u32, override_redirect: bool) {
    let created = created(window, override_redirect);
    let actions = run(state, XEvent::CreateNotify { created });
    assert!(matches!(
        actions[..],
        [
            Action::SelectPropertyChanges { .. },
            Action::Flush,
            Action::FetchWindow { .. }
        ]
    ));
    run(
        state,
        XEvent::WindowFetched {
            created,
            title: Some("game".to_string()),
            app_id: Some("Game".to_string()),
            hint_input: Some(true),
            protocols: vec![104],
        },
    );
}

#[test]
fn x_windows_are_managed() {
    let mut state = x_state();
    let (lists, result) = state.dispatch_xwm(vec![XPoll::Nothing]);
    assert!(lists.is_empty());
    assert_eq!(result, Some(Ok(())));
    add_window(&mut state, 10, false);
    run(&mut state, XEvent::MapRequest { window: 10 });
    run(&mut state, XEvent::MapNotify { window: 10 });
    let xwm = state.xwm.as_ref().unwrap();
    assert_eq!(xwm.client_list, vec![10]);
    let focus = xwm.set_focus(Some(10));
    assert!(focus
        .iter()
        .any(|a| matches!(a, Action::SetInputFocus { window: 10 })));
    assert!(focus.iter().any(|a| matches!(
        a,
        Action::SendClientMessage {
            message_type: 103,
            data: (104, 0, 0, 0, 0),
            ..
        }
    )));
    assert!(matches!(
        xwm.set_focus(None)[..],
        [Action::RemoveInputFocus, Action::Flush]
    ));

    run(&mut state, XEvent::DestroyNotify { window: 10 });
    let xwm = state.xwm.as_ref().unwrap();
    assert!(xwm.client_list.is_empty());
    assert!(xwm.xwindows.is_empty());
}

#[test]
fn x_windows_that_manage_themselves_are_not_listed() {
    let mut state = x_state();
    add_window(&mut state, 10, true);
    run(&mut state, XEvent::MapNotify { window: 10 });
    let xwm = state.xwm.as_mut().unwrap();
    assert!(xwm.client_list.is_empty());
    let window = xwm.xwindows.get_mut(&10).unwrap();
    window.title = None;
    assert_eq!(window.describe(), "<10 \"Untitled\" [OR]>");
}

#[test]
fn x_properties_are_read() {
    assert_eq!(
        fetch_string_property(PropertyReply::Found(Some(b"game".to_vec()))),
        Ok(Some("game".to_string()))
    );
    assert_eq!(
        fetch_string_property(PropertyReply::Found(Some(vec![0xff]))),
        Ok(None)
    );
    assert_eq!(fetch_string_property(PropertyReply::Missing), Ok(None));
    assert_eq!(
        fetch_string_property(PropertyReply::Failed),
        Err(ConnectionFailed)
    );
    assert_eq!(
        fetch_hints(PropertyReply::Found(Some(Some(true)))),
        Ok(Some(true))
    );
    assert_eq!(fetch_hints(PropertyReply::Malformed), Ok(None));
    assert_eq!(
        fetch_protocols(PropertyReply::Found(Some(vec![4]))),
        Ok(vec![4])
    );
    assert_eq!(fetch_protocols(PropertyReply::Found(None)), Ok(vec![]));
    assert!(fetch_protocols(PropertyReply::Failed).is_err());
}

#[test]
fn x_windows_find_their_surfaces() {
    let mut state = x_state();
    add_window(&mut state, 10, false);
    let key = state.create_surface(1);
    let serial = make_u64(1, 2);
    assert_eq!(serial, 0x1_0000_0002);
    state.xwayland_surface_lookup.insert(serial, key);
    run(
        &mut state,
        XEvent::ClientMessage {
            window: 10,
            message_type: 100,
            data: (2, 1, 0),
        },
    );
    let xwm = state.xwm.as_ref().unwrap();
    let window = xwm.xwindow_for_serial(serial).unwrap();
    assert_eq!(window.id, 10);
    assert_eq!(window.describe(), "<10 \"game\" serial=4294967298>");
    assert_eq!(xwm.serial_for_window(10), Some(serial));
    assert_eq!(xwm.serial_for_window(11), None);

    let actions = state.delayed_map_xwin(serial);
    assert!(
        matches!(actions[..], [Action::ReconfigureSurface { surface, window: 10 }] if surface == key)
    );
    assert_eq!(
        state.surface(key).unwrap().title.as_deref(),
        Some("game")
    );
    assert!(state.delayed_map_xwin(77).is_empty());

    let mut other = State::new();
    other.create_surface(1);
    let absent = other.create_surface(1);
    state.xwayland_surface_lookup.insert(serial, absent);
    assert!(run(
        &mut state,
        XEvent::ConfigureNotify {
            window: 10,
            x: 1,
            y: 2,
            width: 3,
            height: 4,
            override_redirect: false,
        },
    )
    .is_empty());
}

#[test]
fn rounds_end_with_the_first_failure() {
    let mut state = x_state();
    add_window(&mut state, 10, false);
    let map = |window| XPoll::Event(XEvent::MapRequest { window });
    let unmap = |window| XPoll::Event(XEvent::UnmapNotify { window });
    let mapped = |state: &State| state.xwm.as_ref().unwrap().xwindows[&10].mapped;

    let (lists, result) = state.dispatch_xwm(vec![map(10), map(99), XPoll::Nothing, unmap(10)]);
    assert_eq!(result, Some(Ok(())));
    assert_eq!(lists.len(), 2);
    assert!(matches!(lists[0][0], Action::MapWindow { window: 10 }));
    assert!(lists[1].is_empty());
    assert!(mapped(&state));

    let (lists, result) = state.dispatch_xwm(vec![unmap(10), XPoll::Failed, map(10)]);
    assert_eq!(result, Some(Err(ConnectionFailed)));
    assert_eq!(lists.len(), 1);
    assert!(!mapped(&state));

    let (lists, result) = state.dispatch_xwm(vec![map(10), unmap(10)]);
    assert_eq!(result, None);
    assert_eq!(lists.len(), 2);
    assert!(!mapped(&state));
    let (lists, result) = state.dispatch_xwm(vec![]);
    assert_eq!((lists.len(), result), (0, None));
}

#[test]
fn x_windows_change_states() {
    let mut state = x_state();
    add_window(&mut state, 10, false);
    let actions = {
        let xwm = state.xwm.as_mut().unwrap();
        xwm.configure_window(10, conf(true))
    };
    let states = actions.iter().find_map(|a| match a {
        Action::ReplaceProperty {
            property: 116,
            values,
            ..
        } => Some(values.clone()),
        _ => None,
    });
    assert_eq!(states, Some(vec![120]));
    assert!(actions.iter().any(|a| matches!(
        a,
        Action::ConfigureWindow {
            window: 10,
            width: 640,
            height: 480,
            ..
        }
    )));
}
