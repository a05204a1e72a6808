//! The main loop of a session: what it does when something happens. The
//! display, the pipelines and the devices are driven through actions.

use std::collections::BTreeMap;
use vstd::prelude::*;
use crate::control::{AudioStreamParams, ControlMessage, DisplayParams, VideoStreamParams};
use crate::pixel_scale::PixelScale;
use crate::server::stream::StreamWriter;
use crate::session::handle::SessionHandle;

verus! {

broadcast use vstd::std_specs::btree::group_btree_axioms;

/// How long an application has to show something, in nanoseconds.
pub const READY_TIMEOUT: u64 = 10_000_000_000;

/// An attachment that waits until the display is ready.
pub struct PendingAttachment {
    pub id: u64,
    pub video_params: VideoStreamParams,
    pub audio_params: AudioStreamParams,
    pub writer: StreamWriter,
}

/// When the next frame is due.
#[derive(Debug, Clone, Copy, PartialEq, Eq, Structural)]
pub enum Timer {
    EverySecond,
    /// So many times in a second.
    Framerate(u32),
}

/// What a step asks for, in the order given.
#[derive(Debug, Clone, Copy, PartialEq, Eq, Structural)]
pub enum Action {
    /// A client takes part from here on.
    AddClient { id: u64 },
    /// A client takes no part any more.
    DropClient { id: u64 },
    DropAllClients,
    /// Tells every client that the session ends, and drops them.
    KickClients,
    /// Tells every client of the display.
    SendDisplayParams { params: DisplayParams, reattach: bool },
    /// Tells every client of the cursor, and of the pointer, if it is locked.
    SendCursor,
    StopAudio,
    RestartAudio(AudioStreamParams),
    StopVideo,
    StartVideo { stream_seq: u64, display_params: DisplayParams, params: VideoStreamParams },
    /// Makes the next frame a keyframe.
    RefreshVideo,
    UpdateFocusAndVisibility { active: bool },
    UpdateDisplay { params: DisplayParams, active: bool },
    /// Upkeep of the display.
    CompositorIdle { active: bool },
    CompositeFrame,
    RenderCursor,
    /// Input for the application.
    Input(ControlMessage),
    PlugGamepad { id: u64 },
    UnplugGamepad { id: u64 },
    /// Input for a gamepad.
    GamepadInput(ControlMessage),
    /// Flushes the events of all gamepads, then those of the display.
    Flush,
    SetTimer(Timer),
    KillChild,
    /// Tells who launched the session that it is ready.
    AnnounceReady,
}

pub struct Reactor {
    pub handle: SessionHandle,
    pub force_1x_scale: bool,
    pub display_params: DisplayParams,
    /// A change of the display that takes effect with the next frame.
    pub new_display_params: Option<DisplayParams>,
    /// Video is encoded.
    pub video_running: bool,
    /// A stream that starts with the next frame.
    pub new_video_stream_params: Option<VideoStreamParams>,
    pub video_stream_seq: u64,
    /// Whether each gamepad is there for good.
    pub gamepads: BTreeMap<u64, bool>,
    pub pending_attachments: Vec<PendingAttachment>,
    /// The session was announced.
    pub announced: bool,
    pub sleeping: bool,
    pub shutting_down: bool,
}

#[verifier::ext_equal]
pub struct ReactorView {
    pub clients: Map<u64, StreamWriter>,
    pub force_1x_scale: bool,
    pub display_params: DisplayParams,
    pub new_display_params: Option<DisplayParams>,
    pub video_running: bool,
    pub new_video_stream_params: Option<VideoStreamParams>,
    pub video_stream_seq: u64,
    pub gamepads: Map<u64, bool>,
    pub pending: Seq<PendingAttachment>,
    pub announced: bool,
    pub sleeping: bool,
    pub shutting_down: bool,
}

impl View for Reactor {
    type V = ReactorView;

    open spec fn view(&self) -> ReactorView {
        ReactorView {
            clients: self.handle@,
            force_1x_scale: self.force_1x_scale,
            display_params: self.display_params,
            new_display_params: self.new_display_params,
            video_running: self.video_running,
            new_video_stream_params: self.new_video_stream_params,
            video_stream_seq: self.video_stream_seq,
            gamepads: self.gamepads@,
            pending: self.pending_attachments@,
            announced: self.announced,
            sleeping: self.sleeping,
            shutting_down: self.shutting_down,
        }
    }
}

/// The scale of an application: its own, or one, where that is forced.
pub open spec fn effective_scale(force_1x_scale: bool, params: DisplayParams) -> PixelScale {
    if force_1x_scale {
        PixelScale(1, 1)
    } else {
        params.ui_scale
    }
}

/// The display as the application sees it.
pub fn effective_params(force_1x_scale: bool, params: DisplayParams) -> (effective: DisplayParams)
    ensures
        effective == (DisplayParams {
            ui_scale: effective_scale(force_1x_scale, params),
            ..params
        }),
{
    let ui_scale = if force_1x_scale {
        PixelScale::one()
    } else {
        params.ui_scale
    };
    DisplayParams { ui_scale, ..params }
}

pub open spec fn has_size(width: u32, height: u32) -> spec_fn(PendingAttachment) -> bool {
    |p: PendingAttachment| p.video_params.width == width && p.video_params.height == height
}

pub open spec fn has_other_id(id: u64) -> spec_fn(PendingAttachment) -> bool {
    |p: PendingAttachment| p.id != id
}

impl ReactorView {
    /// Somebody is attached, or about to be.
    pub open spec fn active(self) -> bool {
        self.clients.dom().len() > 0 || self.pending.len() > 0
    }

    /// The display changes. A client has to attach again if the size or the
    /// frame rate is another.
    pub open spec fn display_updated(self, params: DisplayParams) -> (ReactorView, Seq<Action>) {
        let old_params = self.display_params;
        let scale = effective_scale(self.force_1x_scale, params);
        let effective = DisplayParams { ui_scale: scale, ..params };
        let reattach = old_params.width != params.width || old_params.height != params.height
            || old_params.framerate != params.framerate;
        let after = ReactorView { display_params: effective, ..self };
        if reattach {
            (
                ReactorView {
                    clients: Map::empty(),
                    pending: self.pending.filter(has_size(params.width, params.height)),
                    video_running: false,
                    new_video_stream_params: None,
                    ..after
                },
                seq![
                    Action::UpdateDisplay { params: effective, active: false },
                    Action::SendDisplayParams { params, reattach: true },
                    Action::DropAllClients,
                    Action::StopAudio,
                    Action::StopVideo,
                ],
            )
        } else if old_params.ui_scale != scale {
            (
                after,
                seq![
                    Action::UpdateDisplay { params: effective, active: true },
                    Action::SendDisplayParams { params, reattach: false },
                ],
            )
        } else if params.ui_scale != old_params.ui_scale {
            (after, seq![Action::SendDisplayParams { params, reattach: false }])
        } else {
            (after, Seq::empty())
        }
    }

    /// A frame, if there is anybody to see it and something to show.
    pub open spec fn framed(self, surfaces_ready: bool) -> (ReactorView, Seq<Action>) {
        if self.clients.dom().len() == 0 || !surfaces_ready {
            (self, Seq::empty())
        } else {
            let (after, started) = match self.new_video_stream_params {
                Some(params) => (
                    ReactorView {
                        new_video_stream_params: None,
                        video_stream_seq: (self.video_stream_seq + 1) as u64,
                        video_running: true,
                        ..self
                    },
                    seq![
                        Action::StartVideo {
                            stream_seq: (self.video_stream_seq + 1) as u64,
                            display_params: self.display_params,
                            params,
                        },
                    ],
                ),
                None => (self, Seq::empty()),
            };
            if after.video_running {
                (after, started + seq![Action::CompositeFrame, Action::RenderCursor])
            } else {
                (after, started)
            }
        }
    }

    /// A client takes part.
    pub open spec fn attached(self, pending: PendingAttachment) -> (ReactorView, Seq<Action>) {
        (
            ReactorView {
                clients: self.clients.insert(pending.id, pending.writer),
                new_video_stream_params: Some(pending.video_params),
                ..self
            },
            seq![
                Action::AddClient { id: pending.id },
                Action::RestartAudio(pending.audio_params),
                Action::UpdateFocusAndVisibility { active: true },
                Action::SendCursor,
            ],
        )
    }

    /// A client leaves, or gives up waiting.
    pub open spec fn detached(self, id: u64) -> (ReactorView, Seq<Action>) {
        let after = ReactorView {
            clients: self.clients.remove(id),
            pending: self.pending.filter(has_other_id(id)),
            ..self
        };
        if after.active() {
            (after, seq![Action::DropClient { id }])
        } else {
            (
                ReactorView { video_running: false, ..after },
                seq![
                    Action::DropClient { id },
                    Action::StopAudio,
                    Action::StopVideo,
                    Action::UpdateFocusAndVisibility { active: false },
                ],
            )
        }
    }

    /// What is done with a message, other than one that attaches a client.
    pub open spec fn controlled(self, message: ControlMessage) -> (ReactorView, Seq<Action>) {
        if message is Stop {
            (
                ReactorView { clients: Map::empty(), shutting_down: true, ..self },
                seq![Action::KickClients, Action::KillChild],
            )
        } else if self.shutting_down {
            (self, Seq::empty())
        } else {
            match message {
                ControlMessage::Detach(id) => self.detached(id),
                ControlMessage::RequestVideoRefresh(stream_seq) => (
                    self,
                    if self.video_running && self.video_stream_seq == stream_seq {
                        seq![Action::RefreshVideo]
                    } else {
                        Seq::empty()
                    },
                ),
                ControlMessage::UpdateDisplayParams(params) => (
                    ReactorView { new_display_params: Some(params), ..self },
                    Seq::empty(),
                ),
                ControlMessage::GamepadAvailable(id) => if self.gamepads.contains_key(id) {
                    (self, Seq::empty())
                } else {
                    (
                        ReactorView { gamepads: self.gamepads.insert(id, false), ..self },
                        seq![Action::PlugGamepad { id }],
                    )
                },
                ControlMessage::GamepadUnavailable(id) => if self.gamepads.contains_key(id)
                    && !self.gamepads[id] {
                    (
                        ReactorView { gamepads: self.gamepads.remove(id), ..self },
                        seq![Action::UnplugGamepad { id }],
                    )
                } else {
                    (self, Seq::empty())
                },
                ControlMessage::GamepadAxis { id, .. }
                | ControlMessage::GamepadTrigger { id, .. }
                | ControlMessage::GamepadInput { id, .. } => (
                    self,
                    if self.gamepads.contains_key(id) {
                        seq![Action::GamepadInput(message)]
                    } else {
                        Seq::empty()
                    },
                ),
                _ => (self, seq![Action::Input(message)]),
            }
        }
    }
}

impl Reactor {
    /// A session that has just been started.
    pub fn new(display_params: DisplayParams, force_1x_scale: bool, permanent_gamepads: &Vec<u64>) -> (
    reactor: Reactor)
        ensures
            reactor@.clients == Map::<u64, StreamWriter>::empty(),
            reactor@.force_1x_scale == force_1x_scale,
            reactor@.display_params == display_params,
            reactor@.new_display_params is None,
            !reactor@.video_running,
            reactor@.new_video_stream_params is None,
            reactor@.video_stream_seq == 0,
            reactor@.gamepads.dom() == permanent_gamepads@.to_set(),
            forall|id: u64| #[trigger] reactor@.gamepads.contains_key(id) ==> reactor@.gamepads[id],
            reactor@.pending.len() == 0,
            !reactor@.announced,
            !reactor@.sleeping,
            !reactor@.shutting_down,
    {
        let mut gamepads: BTreeMap<u64, bool> = BTreeMap::new();
        let mut i: usize = 0;
        assert(gamepads@.dom() =~= permanent_gamepads@.take(0).to_set());
        while i < permanent_gamepads.len()
            invariant
                i <= permanent_gamepads@.len(),
                gamepads@.dom() == permanent_gamepads@.take(i as int).to_set(),
                forall|id: u64| #[trigger] gamepads@.contains_key(id) ==> gamepads@[id],
            decreases permanent_gamepads.len() - i,
        {
            let id: u64 = permanent_gamepads[i];
            proof {
                let head = permanent_gamepads@.take(i as int);
                assert(permanent_gamepads@.take(i + 1) =~= head.push(id));
                head.lemma_push_to_set_commute(id);
            }
            gamepads.insert(id, true);
            assert(gamepads@.dom() =~= permanent_gamepads@.take(i + 1).to_set());
            i += 1;
        }
        assert(permanent_gamepads@.take(i as int) =~= permanent_gamepads@);
        Reactor {
            handle: SessionHandle::new(),
            force_1x_scale,
            display_params,
            new_display_params: None,
            video_running: false,
            new_video_stream_params: None,
            video_stream_seq: 0,
            gamepads,
            pending_attachments: Vec::new(),
            announced: false,
            sleeping: false,
            shutting_down: false,
        }
    }

    pub fn active(&self) -> (active: bool)
        ensures
            active == self@.active(),
    {
        self.handle.num_attachments() > 0 || self.pending_attachments.len() > 0
    }

    /// An attachment waits for its turn, unless the session is about to end.
    pub fn queue_attachment(&mut self, pending: PendingAttachment)
        ensures
            final(self)@ == queued(old(self)@, pending),
    {
        if !self.shutting_down {
            self.pending_attachments.push(pending);
        }
        assert(self@ =~= queued(old(self)@, pending));
    }

    fn keep_pending_size(&mut self, width: u32, height: u32)
        ensures
            final(self)@ == (ReactorView {
                pending: old(self)@.pending.filter(has_size(width, height)),
                ..old(self)@
            }),
    {
        let ghost all = self@.pending;
        let mut rest: Vec<PendingAttachment> = Vec::new();
        rest.append(&mut self.pending_attachments);
        let mut kept: Vec<PendingAttachment> = Vec::new();
        let ghost mut done: int = 0;
        assert(rest@ =~= all.skip(0));
        assert(all.take(0) =~= Seq::empty());
        assert(kept@ =~= all.take(0).filter(has_size(width, height))) by {
            reveal(Seq::filter);
        }
        while rest.len() > 0
            invariant
                0 <= done <= all.len(),
                rest@ == all.skip(done),
                kept@ == all.take(done).filter(has_size(width, height)),
            decreases rest.len(),
        {
            let pending = rest.remove(0);
            proof {
                assert(pending == all[done]);
                assert(rest@ =~= all.skip(done + 1));
                assert(all.take(done + 1).drop_last() =~= all.take(done));
                assert(all.take(done + 1).last() == pending);
                reveal(Seq::filter);
                done = done + 1;
            }
            if pending.video_params.width == width && pending.video_params.height == height {
                kept.push(pending);
            }
        }
        assert(all.take(done) =~= all);
        self.pending_attachments = kept;
        assert(self@ =~= ReactorView {
            pending: all.filter(has_size(width, height)),
            ..old(self)@
        });
    }

    fn drop_pending(&mut self, id: u64)
        ensures
            final(self)@ == (ReactorView {
                pending: old(self)@.pending.filter(has_other_id(id)),
                ..old(self)@
            }),
    {
        let ghost all = self@.pending;
        let mut rest: Vec<PendingAttachment> = Vec::new();
        rest.append(&mut self.pending_attachments);
        let mut kept: Vec<PendingAttachment> = Vec::new();
        let ghost mut done: int = 0;
        assert(rest@ =~= all.skip(0));
        assert(all.take(0) =~= Seq::empty());
        assert(kept@ =~= all.take(0).filter(has_other_id(id))) by {
            reveal(Seq::filter);
        }
        while rest.len() > 0
            invariant
                0 <= done <= all.len(),
                rest@ == all.skip(done),
                kept@ == all.take(done).filter(has_other_id(id)),
            decreases rest.len(),
        {
            let pending = rest.remove(0);
            proof {
                assert(pending == all[done]);
                assert(rest@ =~= all.skip(done + 1));
                assert(all.take(done + 1).drop_last() =~= all.take(done));
                assert(all.take(done + 1).last() == pending);
                reveal(Seq::filter);
                done = done + 1;
            }
            if pending.id != id {
                kept.push(pending);
            }
        }
        assert(all.take(done) =~= all);
        self.pending_attachments = kept;
        assert(self@ =~= ReactorView { pending: all.filter(has_other_id(id)), ..old(self)@ });
    }

    /// Changes the display.
    pub fn update_display_params(&mut self, params: DisplayParams) -> (actions: Vec<Action>)
        ensures
            (final(self)@, actions@) == old(self)@.display_updated(params),
    {
        let previous = self.display_params;
        let effective = effective_params(self.force_1x_scale, params);
        let size_changed = previous.width != params.width || previous.height != params.height;
        let scale_changed = previous.ui_scale != effective.ui_scale;
        let framerate_changed = previous.framerate != params.framerate;
        let mut actions: Vec<Action> = Vec::new();
        if size_changed || scale_changed || framerate_changed {
            let reattach = size_changed || framerate_changed;
            actions.push(Action::UpdateDisplay { params: effective, active: !reattach });
            actions.push(Action::SendDisplayParams { params, reattach });
            if reattach {
                self.keep_pending_size(params.width, params.height);
                self.handle.remove_all();
                self.video_running = false;
                self.new_video_stream_params = None;
                actions.push(Action::DropAllClients);
                actions.push(Action::StopAudio);
                actions.push(Action::StopVideo);
            }
        } else if params.ui_scale != previous.ui_scale {
            actions.push(Action::SendDisplayParams { params, reattach: false });
        }
        self.display_params = effective;
        assert(self@ =~= old(self)@.display_updated(params).0);
        assert(actions@ =~= old(self)@.display_updated(params).1);
        actions
    }

    /// A frame is due.
    pub fn frame(&mut self, surfaces_ready: bool) -> (actions: Vec<Action>)
        requires
            old(self)@.video_stream_seq < u64::MAX,
        ensures
            (final(self)@, actions@) == old(self)@.framed(surfaces_ready),
    {
        let mut actions: Vec<Action> = Vec::new();
        if self.handle.num_attachments() == 0 || !surfaces_ready {
            return actions;
        }
        if let Some(params) = self.new_video_stream_params.take() {
            self.video_stream_seq = self.video_stream_seq + 1;
            self.video_running = true;
            actions.push(
                Action::StartVideo {
                    stream_seq: self.video_stream_seq,
                    display_params: self.display_params,
                    params,
                },
            );
        }
        if self.video_running {
            actions.push(Action::CompositeFrame);
            actions.push(Action::RenderCursor);
        }
        assert(self@ =~= old(self)@.framed(surfaces_ready).0);
        assert(actions@ =~= old(self)@.framed(surfaces_ready).1);
        actions
    }

    /// Handles a message of a client, other than one that attaches it.
    pub fn handle_control_message(&mut self, message: ControlMessage) -> (actions: Vec<Action>)
        requires
            !(message is Attach),
        ensures
            (final(self)@, actions@) == old(self)@.controlled(message),
    {
        let mut actions: Vec<Action> = Vec::new();
        if let ControlMessage::Stop = message {
            let _ = self.handle.kick_clients();
            self.shutting_down = true;
            actions.push(Action::KickClients);
            actions.push(Action::KillChild);
            assert(self@ =~= old(self)@.controlled(message).0);
            assert(actions@ =~= old(self)@.controlled(message).1);
            return actions;
        }
        if self.shutting_down {
            return actions;
        }
        match message {
            ControlMessage::Detach(id) => {
                self.handle.remove_client(id);
                self.drop_pending(id);
                actions.push(Action::DropClient { id });
                if !self.active() {
                    self.video_running = false;
                    actions.push(Action::StopAudio);
                    actions.push(Action::StopVideo);
                    actions.push(Action::UpdateFocusAndVisibility { active: false });
                }
            },
            ControlMessage::RequestVideoRefresh(stream_seq) => {
                if self.video_running && self.video_stream_seq == stream_seq {
                    actions.push(Action::RefreshVideo);
                }
            },
            ControlMessage::UpdateDisplayParams(params) => {
                self.new_display_params = Some(params);
            },
            ControlMessage::GamepadAvailable(id) => {
                if !self.gamepads.contains_key(&id) {
                    self.gamepads.insert(id, false);
                    actions.push(Action::PlugGamepad { id });
                }
            },
            ControlMessage::GamepadUnavailable(id) => {
                let removable = match self.gamepads.get(&id) {
                    Some(permanent) => !*permanent,
                    None => false,
                };
                if removable {
                    self.gamepads.remove(&id);
                    actions.push(Action::UnplugGamepad { id });
                }
            },
            ControlMessage::GamepadAxis { id, .. } => {
                if self.gamepads.contains_key(&id) {
                    actions.push(Action::GamepadInput(message));
                }
            },
            ControlMessage::GamepadTrigger { id, .. } => {
                if self.gamepads.contains_key(&id) {
                    actions.push(Action::GamepadInput(message));
                }
            },
            ControlMessage::GamepadInput { id, .. } => {
                if self.gamepads.contains_key(&id) {
                    actions.push(Action::GamepadInput(message));
                }
            },
            _ => {
                actions.push(Action::Input(message));
            },
        }
        assert(self@ =~= old(self)@.controlled(message).0);
        assert(actions@ =~= old(self)@.controlled(message).1);
        actions
    }
}

/// Why a session ends in failure.
#[derive(Debug, Clone, Copy, PartialEq, Eq, Structural)]
pub enum ReactorError {
    /// The application exited before it showed anything.
    ExitedEarly,
    /// The application showed nothing in time.
    TimedOut,
}

/// A session has at most one client: at most one of those who wait is still
/// there, and only if nobody is attached.
pub open spec fn room_for(clients: Map<u64, StreamWriter>, waiting: Seq<bool>) -> bool {
    &&& forall|i: int, j: int| 0 <= i < j < waiting.len() ==> !(waiting[i] && waiting[j])
    &&& (exists|i: int| 0 <= i < waiting.len() && waiting[i]) ==> clients.dom().len() == 0
}

impl ReactorView {
    /// Attaches, one after the other, those who are still waiting.
    pub open spec fn attach_all(self, pending: Seq<PendingAttachment>, waiting: Seq<bool>) -> (
        ReactorView,
        Seq<Action>,
    )
        decreases pending.len(),
    {
        if pending.len() == 0 {
            (self, Seq::empty())
        } else {
            let (before, actions) = self.attach_all(pending.drop_last(), waiting);
            if waiting[pending.len() - 1] {
                let (after, more) = before.attached(pending.last());
                (after, actions + more)
            } else {
                (before, actions)
            }
        }
    }

    /// Those who wait can be attached: something is shown, and the display is
    /// not about to change.
    pub open spec fn accepts(self, surfaces_ready: bool) -> bool {
        self.pending.len() > 0 && self.new_display_params is None && surfaces_ready
    }

    /// What is done between events: nothing, once the session is about to end.
    pub open spec fn idled(self, surfaces_ready: bool, waiting: Seq<bool>) -> (
        ReactorView,
        Seq<Action>,
    ) {
        if self.shutting_down {
            (self, Seq::empty())
        } else {
            let (after, actions) = if self.accepts(surfaces_ready) {
                ReactorView { pending: Seq::empty(), ..self }.attach_all(self.pending, waiting)
            } else {
                (self, Seq::empty())
            };
            (
                after,
                actions + seq![Action::CompositorIdle { active: after.active() }, Action::Flush],
            )
        }
    }

    /// The timer fired: the display changes, if it is to change, and a frame
    /// is due.
    pub open spec fn ticked(self, surfaces_ready: bool) -> (ReactorView, Seq<Action>) {
        match self.new_display_params {
            Some(params) => {
                let (updated, actions) = ReactorView {
                    new_display_params: None,
                    ..self
                }.display_updated(params);
                let (after, more) = updated.framed(surfaces_ready);
                (
                    after,
                    actions + seq![Action::SetTimer(Timer::Framerate(params.framerate))] + more,
                )
            },
            None => self.framed(surfaces_ready),
        }
    }

    /// Frames are made as long as somebody is attached or waits.
    pub open spec fn rested(self) -> (ReactorView, Seq<Action>) {
        if !self.sleeping && !self.active() {
            (
                ReactorView { sleeping: true, ..self },
                seq![Action::SetTimer(Timer::EverySecond)],
            )
        } else if self.sleeping && self.active() {
            (
                ReactorView { sleeping: false, ..self },
                seq![Action::SetTimer(Timer::Framerate(self.display_params.framerate))],
            )
        } else {
            (self, Seq::empty())
        }
    }
}

impl ReactorView {
    /// The application exited.
    pub open spec fn exited(self) -> (ReactorView, Seq<Action>, Result<(), ReactorError>) {
        (
            ReactorView { clients: Map::empty(), ..self },
            seq![Action::KickClients],
            if self.announced {
                Ok(())
            } else {
                Err(ReactorError::ExitedEarly)
            },
        )
    }

    /// The end of a turn.
    pub open spec fn turn_finished(self, surfaces_ready: bool, elapsed: u64) -> (
        ReactorView,
        Seq<Action>,
        Result<(), ReactorError>,
    ) {
        if !self.announced && !surfaces_ready && elapsed > READY_TIMEOUT {
            (self, seq![Action::KillChild], Err(ReactorError::TimedOut))
        } else {
            let announces = !self.announced && surfaces_ready;
            let (after, more) = ReactorView {
                announced: self.announced || surfaces_ready,
                ..self
            }.rested();
            (
                after,
                (if announces {
                    seq![Action::AnnounceReady]
                } else {
                    Seq::empty()
                }) + more,
                Ok(()),
            )
        }
    }
}

impl Reactor {
    fn attach(&mut self, pending: PendingAttachment, actions: &mut Vec<Action>)
        ensures
            final(self)@ == old(self)@.attached(pending).0,
            final(actions)@ == old(actions)@ + old(self)@.attached(pending).1,
    {
        actions.push(Action::AddClient { id: pending.id });
        actions.push(Action::RestartAudio(pending.audio_params));
        actions.push(Action::UpdateFocusAndVisibility { active: true });
        actions.push(Action::SendCursor);
        self.new_video_stream_params = Some(pending.video_params);
        self.handle.insert_client(pending.id, pending.writer);
        assert(self@ =~= old(self)@.attached(pending).0);
        assert(actions@ =~= old(actions)@ + old(self)@.attached(pending).1);
    }

    /// Attaches those who wait, if they can be, and keeps everything going.
    /// `waiting` says of each whether it is still there.
    pub fn idle(&mut self, surfaces_ready: bool, waiting: &Vec<bool>) -> (actions: Vec<Action>)
        requires
            !old(self)@.shutting_down && old(self)@.accepts(surfaces_ready) ==> waiting@.len()
                == old(self)@.pending.len() && room_for(old(self)@.clients, waiting@),
        ensures
            (final(self)@, actions@) == old(self)@.idled(surfaces_ready, waiting@),
    {
        let mut actions: Vec<Action> = Vec::new();
        if self.shutting_down {
            return actions;
        }
        if self.pending_attachments.len() > 0 && self.new_display_params.is_none()
            && surfaces_ready {
            let ghost all = self@.pending;
            let mut rest: Vec<PendingAttachment> = Vec::new();
            rest.append(&mut self.pending_attachments);
            let ghost start = ReactorView { pending: Seq::empty(), ..old(self)@ };
            assert(self@ =~= start);
            let total: usize = waiting.len();
            let mut i: usize = 0;
            assert(rest@ =~= all.skip(0));
            assert(all.take(0) =~= Seq::empty());
            while rest.len() > 0
                invariant
                    total == waiting@.len(),
                    i + rest@.len() == all.len(),
                    all.len() == waiting@.len(),
                    rest@ == all.skip(i as int),
                    (self@, actions@) == start.attach_all(all.take(i as int), waiting@),
                decreases rest.len(),
            {
                let pending = rest.remove(0);
                proof {
                    assert(pending == all[i as int]);
                    assert(rest@ =~= all.skip(i + 1));
                    assert(all.take(i + 1).drop_last() =~= all.take(i as int));
                    assert(all.take(i + 1).last() == pending);
                }
                if waiting[i] {
                    self.attach(pending, &mut actions);
                }
                i += 1;
            }
            assert(all.take(i as int) =~= all);
        }
        actions.push(Action::CompositorIdle { active: self.active() });
        actions.push(Action::Flush);
        assert(actions@ =~= old(self)@.idled(surfaces_ready, waiting@).1);
        actions
    }

    /// The timer fired.
    pub fn timer_fired(&mut self, surfaces_ready: bool) -> (actions: Vec<Action>)
        requires
            old(self)@.video_stream_seq < u64::MAX,
        ensures
            (final(self)@, actions@) == old(self)@.ticked(surfaces_ready),
    {
        let mut actions: Vec<Action> = Vec::new();
        let ghost start = ReactorView { new_display_params: None, ..old(self)@ };
        if let Some(params) = self.new_display_params.take() {
            assert(self@ =~= start);
            actions = self.update_display_params(params);
            actions.push(Action::SetTimer(Timer::Framerate(self.display_params.framerate)));
        }
        let mut more = self.frame(surfaces_ready);
        actions.append(&mut more);
        assert(actions@ =~= old(self)@.ticked(surfaces_ready).1);
        actions
    }

    /// The application exited. If it did so before it showed anything, the
    /// session failed.
    pub fn child_exited(&mut self) -> (result: (Vec<Action>, Result<(), ReactorError>))
        ensures
            (final(self)@, result.0@, result.1) == old(self)@.exited(),
    {
        let _ = self.handle.kick_clients();
        let mut actions: Vec<Action> = Vec::new();
        actions.push(Action::KickClients);
        assert(actions@ =~= seq![Action::KickClients]);
        assert(self@ =~= ReactorView { clients: Map::empty(), ..old(self)@ });
        if self.announced {
            (actions, Ok(()))
        } else {
            (actions, Err(ReactorError::ExitedEarly))
        }
    }

    /// Ends a turn of the loop: announces the session once something is shown,
    /// or gives up after so many nanoseconds; and rests if nobody is attached.
    pub fn finish_turn(&mut self, surfaces_ready: bool, elapsed: u64) -> (result: (
        Vec<Action>,
        Result<(), ReactorError>,
    ))
        ensures
            (final(self)@, result.0@, result.1) == old(self)@.turn_finished(
                surfaces_ready,
                elapsed,
            ),
    {
        let mut actions: Vec<Action> = Vec::new();
        if !self.announced && surfaces_ready {
            self.announced = true;
            actions.push(Action::AnnounceReady);
        } else if !self.announced && elapsed > READY_TIMEOUT {
            actions.push(Action::KillChild);
            assert(actions@ =~= seq![Action::KillChild]);
            return (actions, Err(ReactorError::TimedOut));
        }
        let ghost before = ReactorView {
            announced: old(self)@.announced || surfaces_ready,
            ..old(self)@
        };
        assert(self@ =~= before);
        let ghost announcement = actions@;
        let active = self.active();
        if !self.sleeping && !active {
            self.sleeping = true;
            actions.push(Action::SetTimer(Timer::EverySecond));
        } else if self.sleeping && active {
            self.sleeping = false;
            actions.push(Action::SetTimer(Timer::Framerate(self.display_params.framerate)));
        }
        assert(self@ =~= before.rested().0);
        assert(actions@ =~= announcement + before.rested().1);
        assert(announcement =~= if !old(self)@.announced && surfaces_ready {
            seq![Action::AnnounceReady]
        } else {
            Seq::empty()
        });
        (actions, Ok(()))
    }
}

/// A session never has more than one client.
pub proof fn at_most_one_client(reactor: ReactorView, surfaces_ready: bool, waiting: Seq<bool>)
    requires
        reactor.clients.dom().finite(),
        reactor.clients.dom().len() <= 1,
        !reactor.shutting_down && reactor.accepts(surfaces_ready) ==> waiting.len()
            == reactor.pending.len() && room_for(reactor.clients, waiting),
    ensures
        reactor.idled(surfaces_ready, waiting).0.clients.dom().finite(),
        reactor.idled(surfaces_ready, waiting).0.clients.dom().len() <= 1,
{
    if !reactor.shutting_down && reactor.accepts(surfaces_ready) {
        let start = ReactorView { pending: Seq::empty(), ..reactor };
        lemma_attach_count(start, reactor.pending, waiting);
    }
}

/// Some of the first who wait is still there.
spec fn someone(waiting: Seq<bool>, n: int) -> bool {
    exists|i: int| 0 <= i < n && waiting[i]
}

proof fn lemma_attach_count(
    start: ReactorView,
    pending: Seq<PendingAttachment>,
    waiting: Seq<bool>,
)
    requires
        start.clients.dom().finite(),
        start.clients.dom().len() <= 1,
        pending.len() <= waiting.len(),
        room_for(start.clients, waiting),
    ensures
        start.attach_all(pending, waiting).0.clients.dom().finite(),
        start.attach_all(pending, waiting).0.clients.dom().len() <= 1,
        !someone(waiting, pending.len() as int) ==> start.attach_all(
            pending,
            waiting,
        ).0.clients == start.clients,
    decreases pending.len(),
{
    if pending.len() > 0 {
        let n = pending.len() - 1;
        lemma_attach_count(start, pending.drop_last(), waiting);
        if waiting[n] {
            assert(!someone(waiting, n));
            assert(someone(waiting, n + 1));
            assert(start.clients.dom().len() == 0);
        } else if !someone(waiting, n + 1) {
            assert(!someone(waiting, n)) by {
                if someone(waiting, n) {
                    let i = choose|i: int| 0 <= i < n && waiting[i];
                    assert(0 <= i < n + 1 && waiting[i]);
                }
            }
        }
    }
}

/// A client never sees frames of a size that it did not ask for: when the size
/// changes, nobody is attached afterwards, and whoever still waits asked for
/// the new size.
pub proof fn resize_leaves_matching_clients(reactor: ReactorView, params: DisplayParams, i: int)
    requires
        params.width != reactor.display_params.width || params.height
            != reactor.display_params.height,
    ensures
        ({
            let after = reactor.display_updated(params).0;
            &&& after.clients == Map::<u64, StreamWriter>::empty()
            &&& !after.video_running
            &&& 0 <= i < after.pending.len() ==> after.pending[i].video_params.width == params.width
                && after.pending[i].video_params.height == params.height
        }),
{
    let after = reactor.display_updated(params).0;
    if 0 <= i < after.pending.len() {
        reactor.pending.lemma_filter_pred(has_size(params.width, params.height), i);
    }
}

/// A gamepad that is there for good is never unplugged.
pub proof fn permanent_gamepads_stay(reactor: ReactorView, message: ControlMessage, id: u64)
    requires
        reactor.gamepads.contains_key(id),
        reactor.gamepads[id],
    ensures
        reactor.controlled(message).0.gamepads.contains_key(id),
        reactor.controlled(message).0.gamepads[id],
{
}

/// A session that is about to end does nothing more for its clients, and takes
/// on nobody who waits.
pub proof fn shutdown_is_final(
    reactor: ReactorView,
    message: ControlMessage,
    surfaces_ready: bool,
    waiting: Seq<bool>,
)
    requires
        reactor.shutting_down,
    ensures
        !(message is Stop) ==> reactor.controlled(message) == (reactor, Seq::<Action>::empty()),
        reactor.idled(surfaces_ready, waiting) == (reactor, Seq::<Action>::empty()),
{
}

/// The numbers of video streams grow.
pub proof fn stream_numbers_grow(reactor: ReactorView, surfaces_ready: bool)
    requires
        reactor.video_stream_seq < u64::MAX,
    ensures
        ({
            let (after, actions) = reactor.framed(surfaces_ready);
            forall|i: int| 0 <= i < actions.len() ==> (#[trigger] actions[i] matches
                Action::StartVideo { stream_seq, .. } ==> stream_seq > reactor.video_stream_seq
                && stream_seq == after.video_stream_seq)
        }),
{
}

/// A message on the gamepads reaches the gamepad that it names, if it is there;
/// keys and the pointer reach the application as they are.
pub proof fn input_reaches_application(reactor: ReactorView, message: ControlMessage)
    requires
        !reactor.shutting_down,
    ensures
        ({
            let (after, actions) = reactor.controlled(message);
            &&& message is KeyboardInput || message is PointerEntered || message is PointerLeft
                || message is PointerMotion || message is RelativePointerMotion || message
                is PointerInput || message is PointerAxis || message is PointerAxisDiscrete ==> {
                &&& actions.len() == 1
                &&& actions[0] == Action::Input(message)
                &&& after == reactor
            }
            &&& message matches ControlMessage::GamepadAxis { id, .. } ==> after == reactor && (
            reactor.gamepads.contains_key(id) ==> actions == seq![Action::GamepadInput(message)])
                && (!reactor.gamepads.contains_key(id) ==> actions.len() == 0)
            &&& message matches ControlMessage::GamepadTrigger { id, .. } ==> after == reactor && (
            reactor.gamepads.contains_key(id) ==> actions == seq![Action::GamepadInput(message)])
                && (!reactor.gamepads.contains_key(id) ==> actions.len() == 0)
            &&& message matches ControlMessage::GamepadInput { id, .. } ==> after == reactor && (
            reactor.gamepads.contains_key(id) ==> actions == seq![Action::GamepadInput(message)])
                && (!reactor.gamepads.contains_key(id) ==> actions.len() == 0)
        }),
{
}

/// A gamepad is plugged in once, and unplugged only if it was plugged in and is
/// not there for good. Afterwards everything is as before.
pub proof fn gamepads_come_and_go(reactor: ReactorView, id: u64, other: u64)
    requires
        !reactor.shutting_down,
    ensures
        ({
            let (with, plugged) = reactor.controlled(ControlMessage::GamepadAvailable(id));
            let (without, unplugged) = with.controlled(ControlMessage::GamepadUnavailable(id));
            let (same, again) = with.controlled(ControlMessage::GamepadAvailable(id));
            &&& with.gamepads.contains_key(id)
            &&& again.len() == 0 && same == with
            &&& !reactor.gamepads.contains_key(id) ==> plugged == seq![Action::PlugGamepad { id }]
                && unplugged == seq![Action::UnplugGamepad { id }] && without == reactor
            &&& reactor.gamepads.contains_key(id) && reactor.gamepads[id] ==> plugged.len() == 0
                && unplugged.len() == 0 && without == reactor
            &&& other != id ==> with.gamepads.contains_key(other)
                == reactor.gamepads.contains_key(other) && with.gamepads[other]
                == reactor.gamepads[other]
        }),
{
    let with = reactor.controlled(ControlMessage::GamepadAvailable(id)).0;
    let without = with.controlled(ControlMessage::GamepadUnavailable(id)).0;
    if !reactor.gamepads.contains_key(id) {
        assert(without.gamepads =~= reactor.gamepads);
    }
}

/// A keyframe is made on request, but only for the stream that runs.
pub proof fn refresh_is_for_the_running_stream(reactor: ReactorView, stream_seq: u64)
    requires
        !reactor.shutting_down,
    ensures
        ({
            let (after, actions) = reactor.controlled(
                ControlMessage::RequestVideoRefresh(stream_seq),
            );
            &&& after == reactor
            &&& actions.contains(Action::RefreshVideo) <==> reactor.video_running && stream_seq
                == reactor.video_stream_seq
        }),
{
    let actions = reactor.controlled(ControlMessage::RequestVideoRefresh(stream_seq)).1;
    if reactor.video_running && stream_seq == reactor.video_stream_seq {
        assert(actions[0] == Action::RefreshVideo);
    }
}

/// A client that leaves is gone, attached or waiting; when nobody is left, sound
/// and video stop, and the application is no longer in focus.
pub proof fn leaving_client_is_gone(reactor: ReactorView, id: u64, other: u64)
    requires
        !reactor.shutting_down,
    ensures
        ({
            let (after, actions) = reactor.controlled(ControlMessage::Detach(id));
            &&& !after.clients.contains_key(id)
            &&& forall|i: int| 0 <= i < after.pending.len() ==> (#[trigger] after.pending[i]).id
                != id
            &&& other != id ==> after.clients.contains_key(other) == reactor.clients.contains_key(
                other,
            ) && after.clients[other] == reactor.clients[other]
            &&& actions.len() > 0 && actions[0] == Action::DropClient { id }
            &&& !after.active() ==> !after.video_running && actions.contains(Action::StopVideo)
                && actions.contains(Action::StopAudio) && actions.contains(
                Action::UpdateFocusAndVisibility { active: false },
            )
            &&& after.active() ==> after.video_running == reactor.video_running && actions.len()
                == 1
        }),
{
    let (after, actions) = reactor.controlled(ControlMessage::Detach(id));
    assert forall|i: int| 0 <= i < after.pending.len() implies (#[trigger] after.pending[i]).id
        != id by {
        reactor.pending.lemma_filter_pred(has_other_id(id), i);
    }
    if !after.active() {
        assert(actions[1] == Action::StopAudio);
        assert(actions[2] == Action::StopVideo);
        assert(actions[3] == Action::UpdateFocusAndVisibility { active: false });
    }
}

/// A change of the display waits for the next frame, and then is the one that was
/// asked for last.
pub proof fn display_change_waits(
    reactor: ReactorView,
    params: DisplayParams,
    surfaces_ready: bool,
)
    requires
        !reactor.shutting_down,
    ensures
        ({
            let (after, actions) = reactor.controlled(ControlMessage::UpdateDisplayParams(params));
            &&& actions.len() == 0
            &&& after.new_display_params == Some(params)
            &&& after.display_params == reactor.display_params
            &&& after.ticked(surfaces_ready).0.new_display_params is None
            &&& after.ticked(surfaces_ready).0.display_params.width == params.width
            &&& after.ticked(surfaces_ready).0.display_params.height == params.height
            &&& after.ticked(surfaces_ready).0.display_params.framerate == params.framerate
            &&& after.ticked(surfaces_ready).1.contains(
                Action::SetTimer(Timer::Framerate(params.framerate)),
            )
        }),
{
    let after = reactor.controlled(ControlMessage::UpdateDisplayParams(params)).0;
    let (updated, first) = ReactorView { new_display_params: None, ..after }.display_updated(
        params,
    );
    let actions = after.ticked(surfaces_ready).1;
    assert(actions[first.len() as int] == Action::SetTimer(Timer::Framerate(params.framerate)));
}

/// When the size or the rate of the display changes, clients have to attach
/// again: all are dropped, sound and video stop, and they are told why. Otherwise
/// they stay. The application sees its own scale, or none.
pub proof fn resize_drops_clients(reactor: ReactorView, params: DisplayParams)
    ensures
        ({
            let (after, actions) = reactor.display_updated(params);
            let before = reactor.display_params;
            let reattach = before.width != params.width || before.height != params.height
                || before.framerate != params.framerate;
            &&& after.display_params.width == params.width && after.display_params.height
                == params.height && after.display_params.framerate == params.framerate
            &&& reactor.force_1x_scale ==> after.display_params.ui_scale == PixelScale(1, 1)
            &&& !reactor.force_1x_scale ==> after.display_params.ui_scale == params.ui_scale
            &&& reattach ==> after.clients == Map::<u64, StreamWriter>::empty()
                && !after.video_running && after.new_video_stream_params is None
            &&& reattach ==> actions.contains(
                Action::SendDisplayParams { params, reattach: true },
            ) && actions.contains(Action::DropAllClients) && actions.contains(Action::StopAudio)
                && actions.contains(Action::StopVideo)
            &&& !reattach ==> after.clients == reactor.clients && after.pending == reactor.pending
                && after.video_running == reactor.video_running
            &&& !reattach ==> !actions.contains(Action::DropAllClients)
            &&& !reattach && params.ui_scale != before.ui_scale ==> actions.contains(
                Action::SendDisplayParams { params, reattach: false },
            )
            &&& after.gamepads == reactor.gamepads && after.video_stream_seq
                == reactor.video_stream_seq
        }),
{
    let (after, actions) = reactor.display_updated(params);
    let before = reactor.display_params;
    let reattach = before.width != params.width || before.height != params.height
        || before.framerate != params.framerate;
    if reattach {
        assert(actions[1] == Action::SendDisplayParams { params, reattach: true });
        assert(actions[2] == Action::DropAllClients);
        assert(actions[3] == Action::StopAudio);
        assert(actions[4] == Action::StopVideo);
    } else if params.ui_scale != before.ui_scale {
        assert(actions.last() == Action::SendDisplayParams { params, reattach: false });
    }
}

/// A frame is made only if somebody is there to see it and something is there to
/// show. A new stream starts with it, with what its client asked for, under the
/// next number.
pub proof fn frames_need_somebody(reactor: ReactorView, surfaces_ready: bool)
    requires
        reactor.video_stream_seq < u64::MAX,
    ensures
        ({
            let (after, actions) = reactor.framed(surfaces_ready);
            let seen = reactor.clients.dom().len() != 0 && surfaces_ready;
            &&& !seen ==> after == reactor && actions.len() == 0
            &&& seen && reactor.new_video_stream_params is Some ==> {
                &&& after.video_stream_seq == reactor.video_stream_seq + 1
                &&& after.video_running && after.new_video_stream_params is None
                &&& actions[0] matches Action::StartVideo { stream_seq, display_params, params }
                    && stream_seq == after.video_stream_seq && display_params
                    == reactor.display_params && params == reactor.new_video_stream_params->0
            }
            &&& seen && reactor.new_video_stream_params is None ==> after == reactor
            &&& seen && after.video_running ==> actions.len() >= 2 && actions[actions.len() - 2]
                == Action::CompositeFrame && actions.last() == Action::RenderCursor
            &&& seen && !after.video_running ==> actions.len() == 0
        }),
{
}

/// A client that is attached gets sound and video as it asked for, and sees the
/// cursor; the application is in focus.
pub proof fn attached_client_takes_part(reactor: ReactorView, pending: PendingAttachment, other: u64)
    ensures
        ({
            let (after, actions) = reactor.attached(pending);
            &&& after.clients.contains_key(pending.id) && after.clients[pending.id]
                == pending.writer
            &&& after.new_video_stream_params == Some(pending.video_params)
            &&& actions.contains(Action::AddClient { id: pending.id })
            &&& actions.contains(Action::RestartAudio(pending.audio_params))
            &&& actions.contains(Action::UpdateFocusAndVisibility { active: true })
            &&& actions.contains(Action::SendCursor)
            &&& other != pending.id ==> after.clients.contains_key(other)
                == reactor.clients.contains_key(other) && after.clients[other]
                == reactor.clients[other]
            &&& after.pending == reactor.pending && after.display_params == reactor.display_params
        }),
{
    let actions = reactor.attached(pending).1;
    assert(actions[0] == Action::AddClient { id: pending.id });
    assert(actions[1] == Action::RestartAudio(pending.audio_params));
    assert(actions[2] == Action::UpdateFocusAndVisibility { active: true });
    assert(actions[3] == Action::SendCursor);
}

/// Who waits is attached between events, but only while something is shown and
/// the display is not about to change; everything is flushed then.
pub proof fn waiting_clients_are_attached(
    reactor: ReactorView,
    surfaces_ready: bool,
    waiting: Seq<bool>,
)
    requires
        !reactor.shutting_down,
    ensures
        ({
            let (after, actions) = reactor.idled(surfaces_ready, waiting);
            let can = reactor.pending.len() > 0 && surfaces_ready && reactor.new_display_params
                is None;
            &&& !can ==> after == reactor && actions.len() == 2
            &&& actions.len() >= 2 && actions.last() == Action::Flush
            &&& actions[actions.len() - 2] == Action::CompositorIdle { active: after.active() }
        }),
{
}

/// Stopping drops every client and ends the application.
pub proof fn stop_ends_session(reactor: ReactorView)
    ensures
        ({
            let (after, actions) = reactor.controlled(ControlMessage::Stop);
            &&& after.shutting_down
            &&& after.clients == Map::<u64, StreamWriter>::empty()
            &&& actions.len() == 2 && actions[0] == Action::KickClients && actions[1]
                == Action::KillChild
        }),
{
}

/// A session rests once nobody is there, and wakes up with its own rate; it does
/// neither twice.
pub proof fn session_rests_when_alone(reactor: ReactorView)
    ensures
        ({
            let (after, actions) = reactor.rested();
            &&& after.sleeping <==> !reactor.active()
            &&& reactor.sleeping == after.sleeping ==> actions.len() == 0 && after == reactor
            &&& !reactor.sleeping && after.sleeping ==> actions == seq![
                Action::SetTimer(Timer::EverySecond),
            ]
            &&& reactor.sleeping && !after.sleeping ==> actions == seq![
                Action::SetTimer(Timer::Framerate(reactor.display_params.framerate)),
            ]
            &&& after.rested() == (after, Seq::<Action>::empty())
        }),
{
}

/// A session is announced once, with the first thing that it shows. One that
/// shows nothing for ten seconds fails, and so does one whose application exits
/// before.
pub proof fn session_is_announced_once(reactor: ReactorView, surfaces_ready: bool, elapsed: u64)
    ensures
        ({
            let (after, actions, result) = reactor.turn_finished(surfaces_ready, elapsed);
            &&& actions.contains(Action::AnnounceReady) <==> !reactor.announced && surfaces_ready
            &&& result is Err <==> !reactor.announced && !surfaces_ready && elapsed
                > 10_000_000_000
            &&& result is Err ==> result == Err::<(), ReactorError>(ReactorError::TimedOut)
                && actions.contains(Action::KillChild)
            &&& result is Ok ==> (after.announced <==> reactor.announced || surfaces_ready)
            &&& after.clients == reactor.clients && after.pending == reactor.pending
        }),
        reactor.exited().2 is Ok <==> reactor.announced,
        reactor.exited().0.clients == Map::<u64, StreamWriter>::empty(),
        reactor.exited().1 == seq![Action::KickClients],
{
    let (after, actions, result) = reactor.turn_finished(surfaces_ready, elapsed);
    if !reactor.announced && surfaces_ready {
        assert(actions[0] == Action::AnnounceReady);
    }
    if result is Err {
        assert(actions[0] == Action::KillChild);
    }
}

/// An application sees the display with its own scale, or with none where that is
/// forced; its size and its rate are as they are.
pub proof fn forced_scale_is_one(force_1x_scale: bool, params: DisplayParams, effective: DisplayParams)
    requires
        call_ensures(effective_params, (force_1x_scale, params), effective),
    ensures
        effective.width == params.width && effective.height == params.height
            && effective.framerate == params.framerate,
        force_1x_scale ==> effective.ui_scale == PixelScale(1, 1),
        !force_1x_scale ==> effective.ui_scale == params.ui_scale,
{
}

/// The state with one more client that waits to be attached. A session that shuts
/// down takes none.
pub open spec fn queued(state: ReactorView, pending: PendingAttachment) -> ReactorView {
    if state.shutting_down {
        state
    } else {
        ReactorView { pending: state.pending.push(pending), ..state }
    }
}

/// A client waits behind those that came before it, unless the session shuts down;
/// nothing else changes.
pub proof fn clients_wait_in_order(
    state: ReactorView,
    pending: PendingAttachment,
    next: PendingAttachment,
)
    ensures
        state.shutting_down ==> queued(state, pending) == state,
        !state.shutting_down ==> queued(queued(state, pending), next).pending == state.pending
            + seq![pending, next],
        state == (ReactorView { pending: state.pending, ..queued(state, pending) }),
{
    assert(state.pending.push(pending).push(next) =~= state.pending + seq![pending, next]);
}

} // verus!
