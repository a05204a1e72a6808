//! The compositor: its surfaces, in the order in which they are stacked, and
//! what is done with them.

use vstd::prelude::*;
use slotmap::DefaultKey;
use crate::compositor::buffers::{release_buffers, Buffer, BufferBacking, ReleaseAction};
use crate::compositor::slots::BufferSlots;
use crate::compositor::surface::{
    ContentUpdate, Surface, SurfaceConfiguration, SurfaceRole, SyncobjTimelinePoint,
};
use crate::compositor::xwm::{State, XwmView};
use crate::control::DisplayParams;

verus! {

/// A client of the compositor.
#[derive(Debug, Clone, Copy, PartialEq, Eq, Structural)]
pub struct ClientState {
    /// The client is the X server.
    pub xwayland: bool,
}

impl Default for ClientState {
    fn default() -> (client: ClientState)
        ensures
            client == (ClientState { xwayland: false }),
    {
        ClientState { xwayland: false }
    }
}

/// An output that a client has bound.
#[derive(Debug, Clone, Copy, PartialEq, Eq, Structural)]
pub struct OutputProxy {
    pub client: u32,
    pub output: u32,
}

/// What has to be done, in the order given.
pub enum CompositorAction {
    /// Place a surface anew, from its X11 window, if it has one.
    Reconfigure { surface: DefaultKey, window: Option<u32> },
    LeaveOutput { surface: DefaultKey, output: u32 },
    EnterOutput { surface: DefaultKey, output: u32 },
    /// The client can draw its next frame.
    FrameDone { callback: u32 },
    UpdateFocusAndVisibility { active: bool },
    /// Describe an output to its client.
    ConfigureOutput { output: u32 },
}

/// How the compositor waits until a client has drawn into a buffer.
#[derive(Debug, Clone, Copy, PartialEq, Eq, Structural)]
pub enum TextureSync {
    /// Until a point of a timeline.
    Explicit(SyncobjTimelinePoint),
    /// Until the fence of the buffer.
    ImplicitInterop,
}

/// A surface that is drawn.
pub struct DrawItem {
    pub surface: DefaultKey,
    pub buffer: DefaultKey,
    pub sync: Option<TextureSync>,
    pub conf: SurfaceConfiguration,
}

/// A client waits to hear when a frame was shown; the frame is done at a point
/// of the timeline of rendering.
#[derive(Debug, Clone, Copy, PartialEq, Eq, Structural)]
pub struct PendingPresentationFeedback {
    pub feedback: u32,
    pub tp_render: u64,
}

pub struct Compositor {
    pub windows: State,
    pub buffers: BufferSlots,
    pub in_flight_buffers: Vec<ContentUpdate>,
    pub pending_presentation_feedback: Vec<PendingPresentationFeedback>,
    /// The surfaces that are shown, from the back to the front.
    pub surface_stack: Vec<DefaultKey>,
    pub output_proxies: Vec<OutputProxy>,
    pub display_params: DisplayParams,
}

/// The X11 window of a surface, if it has one.
pub open spec fn window_of(xwm: XwmView, surface: Surface) -> Option<u32> {
    match surface.role {
        Some(SurfaceRole::XWayland { serial }) => xwm.window_for_serial(serial),
        _ => None,
    }
}

/// A surface leaves the outputs of its client, and enters them again.
pub open spec fn moves(surface: DefaultKey, client: u32, outputs: Seq<OutputProxy>) -> Seq<
    CompositorAction,
>
    decreases outputs.len(),
{
    if outputs.len() == 0 {
        Seq::empty()
    } else {
        let before = moves(surface, client, outputs.drop_last());
        let last = outputs.last();
        if last.client == client {
            before + seq![
                CompositorAction::LeaveOutput { surface, output: last.output },
                CompositorAction::EnterOutput { surface, output: last.output },
            ]
        } else {
            before
        }
    }
}

/// What is done for one surface when the display changes. If its size or its
/// scale is another, the surface is moved, and its client is let go on.
pub open spec fn surface_actions(
    surface: DefaultKey,
    surf: Surface,
    xwm: XwmView,
    outputs: Seq<OutputProxy>,
    changed: bool,
) -> Seq<CompositorAction> {
    seq![CompositorAction::Reconfigure { surface, window: window_of(xwm, surf) }] + if changed {
        moves(surface, surf.client, outputs) + match surf.frame_callback {
            Some(callback) => seq![CompositorAction::FrameDone { callback }],
            None => Seq::empty(),
        }
    } else {
        Seq::empty()
    }
}

/// The surfaces of a stack, one after the other.
pub open spec fn reconfigured(
    surfaces: Map<DefaultKey, Surface>,
    xwm: XwmView,
    outputs: Seq<OutputProxy>,
    stack: Seq<DefaultKey>,
    changed: bool,
) -> (Map<DefaultKey, Surface>, Seq<CompositorAction>)
    decreases stack.len(),
{
    if stack.len() == 0 {
        (surfaces, Seq::empty())
    } else {
        let (before, actions) = reconfigured(surfaces, xwm, outputs, stack.drop_last(), changed);
        let key = stack.last();
        let surf = before[key];
        (
            if changed {
                before.insert(key, Surface { frame_callback: None, ..surf })
            } else {
                before
            },
            actions + surface_actions(key, surf, xwm, outputs, changed),
        )
    }
}

pub open spec fn output_actions(outputs: Seq<OutputProxy>) -> Seq<CompositorAction> {
    outputs.map_values(
        |o: OutputProxy| CompositorAction::ConfigureOutput { output: o.output },
    )
}

/// The display has another size or scale.
pub open spec fn display_changed(a: DisplayParams, b: DisplayParams) -> bool {
    a.width != b.width || a.height != b.height || a.ui_scale != b.ui_scale
}

impl Compositor {
    /// A compositor without clients.
    pub fn new(display_params: DisplayParams) -> (compositor: Compositor)
        ensures
            compositor.windows.xwm is None,
            compositor.windows.xwayland_surface_lookup@ == Map::<u64, DefaultKey>::empty(),
            compositor.windows.surfaces@.dom() == Set::<DefaultKey>::empty(),
            compositor.buffers@.dom() == Set::<DefaultKey>::empty(),
            compositor.in_flight_buffers@.len() == 0,
            compositor.pending_presentation_feedback@.len() == 0,
            compositor.surface_stack@.len() == 0,
            compositor.output_proxies@.len() == 0,
            compositor.display_params == display_params,
            compositor.wf(),
    {
        Compositor {
            windows: State::new(),
            buffers: BufferSlots::new(),
            in_flight_buffers: Vec::new(),
            pending_presentation_feedback: Vec::new(),
            surface_stack: Vec::new(),
            output_proxies: Vec::new(),
            display_params,
        }
    }

    /// What is stacked exists; a surface of the X server is there only if its
    /// window manager is; and windows are filed under their ids.
    pub open spec fn wf(self) -> bool {
        &&& forall|i: int|
            0 <= i < self.surface_stack@.len() ==> self.windows.surfaces@.contains_key(
                #[trigger] self.surface_stack@[i],
            )
        &&& forall|key: DefaultKey| #[trigger]
            self.windows.surfaces@.contains_key(key) ==> (self.windows.surfaces@[key].role matches Some(
                SurfaceRole::XWayland { .. },
            ) ==> self.windows.xwm is Some)
        &&& self.windows.xwm is Some ==> self.windows@.xwm.wf()
    }

    fn push_moves(&self, actions: &mut Vec<CompositorAction>, surface: DefaultKey, client: u32)
        ensures
            final(actions)@ == old(actions)@ + moves(surface, client, self.output_proxies@),
    {
        let ghost outputs = self.output_proxies@;
        let ghost before = actions@;
        let mut i: usize = 0;
        assert(actions@ =~= before + moves(surface, client, outputs.take(0)));
        while i < self.output_proxies.len()
            invariant
                i <= outputs.len(),
                outputs == self.output_proxies@,
                actions@ == before + moves(surface, client, outputs.take(i as int)),
            decreases self.output_proxies.len() - i,
        {
            assert(outputs.take(i + 1).drop_last() =~= outputs.take(i as int));
            let proxy: OutputProxy = self.output_proxies[i];
            if proxy.client == client {
                actions.push(CompositorAction::LeaveOutput { surface, output: proxy.output });
                actions.push(CompositorAction::EnterOutput { surface, output: proxy.output });
            }
            assert(actions@ =~= before + moves(surface, client, outputs.take(i + 1)));
            i += 1;
        }
        assert(outputs.take(i as int) =~= outputs);
    }

    /// Changes the display: every surface that is shown is placed anew.
    pub fn update_display_params(&mut self, display_params: DisplayParams, active: bool) -> (actions:
        Vec<CompositorAction>)
        requires
            old(self).wf(),
        ensures
            final(self).wf(),
            final(self).display_params == display_params,
            final(self).surface_stack@ == old(self).surface_stack@,
            final(self).output_proxies@ == old(self).output_proxies@,
            final(self).buffers@ == old(self).buffers@,
            final(self).in_flight_buffers@ == old(self).in_flight_buffers@,
            final(self).pending_presentation_feedback@
                == old(self).pending_presentation_feedback@,
            final(self).windows.xwm == old(self).windows.xwm,
            final(self).windows.xwayland_surface_lookup == old(
                self,
            ).windows.xwayland_surface_lookup,
            ({
                let (surfaces, placed) = reconfigured(
                    old(self).windows.surfaces@,
                    old(self).windows@.xwm,
                    old(self).output_proxies@,
                    old(self).surface_stack@,
                    display_changed(display_params, old(self).display_params),
                );
                &&& final(self).windows.surfaces@ == surfaces
                &&& actions@ == placed + seq![
                    CompositorAction::UpdateFocusAndVisibility { active },
                ] + output_actions(old(self).output_proxies@)
            }),
    {
        let changed = display_params.width != self.display_params.width || display_params.height
            != self.display_params.height || display_params.ui_scale
            != self.display_params.ui_scale;
        let ghost stack = self.surface_stack@;
        let ghost start = self.windows.surfaces@;
        let ghost xwm = self.windows@.xwm;
        let ghost outputs = self.output_proxies@;
        let mut actions: Vec<CompositorAction> = Vec::new();
        let mut i: usize = 0;
        assert(stack.take(0) =~= Seq::empty());
        while i < self.surface_stack.len()
            invariant
                i <= stack.len(),
                self.surface_stack@ == stack,
                self.output_proxies@ == outputs,
                self.windows@.xwm == xwm,
                self.windows.xwm == old(self).windows.xwm,
                self.windows.xwayland_surface_lookup == old(self).windows.xwayland_surface_lookup,
                self.buffers == old(self).buffers,
                self.in_flight_buffers == old(self).in_flight_buffers,
                self.pending_presentation_feedback == old(self).pending_presentation_feedback,
                self.wf(),
                (self.windows.surfaces@, actions@) == reconfigured(
                    start,
                    xwm,
                    outputs,
                    stack.take(i as int),
                    changed,
                ),
            decreases self.surface_stack.len() - i,
        {
            let key = self.surface_stack[i];
            let ghost before = actions@;
            let ghost surfaces = self.windows.surfaces@;
            assert(stack.take(i + 1).drop_last() =~= stack.take(i as int));
            assert(stack.take(i + 1).last() == key);
            assert(surfaces.contains_key(self.surface_stack@[i as int]));
            if let Some(surf) = self.windows.surfaces.get(key) {
                let ghost held = *surf;
                let window: Option<u32> = match (&surf.role, &self.windows.xwm) {
                    (Some(SurfaceRole::XWayland { serial }), Some(manager)) => {
                        match manager.xwindow_for_serial(*serial) {
                            Some(window) => Some(window.id),
                            None => None,
                        }
                    },
                    _ => None,
                };
                assert(window == window_of(xwm, held));
                let client: u32 = surf.client;
                actions.push(CompositorAction::Reconfigure { surface: key, window });
                if changed {
                    self.push_moves(&mut actions, key, client);
                    if let Some(surf) = self.windows.surfaces.get_mut(key) {
                        if let Some(callback) = surf.frame_callback.take() {
                            actions.push(CompositorAction::FrameDone { callback });
                        }
                    }
                    assert(self.windows.surfaces@ =~= surfaces.insert(
                        key,
                        Surface { frame_callback: None, ..held },
                    ));
                }
                assert(actions@ =~= before + surface_actions(key, held, xwm, outputs, changed));
            }
            i += 1;
        }
        assert(stack.take(i as int) =~= stack);
        let ghost placed = actions@;
        actions.push(CompositorAction::UpdateFocusAndVisibility { active });
        self.display_params = display_params;
        let mut j: usize = 0;
        let ghost focused = actions@;
        assert(output_actions(outputs.take(0)) =~= Seq::empty());
        while j < self.output_proxies.len()
            invariant
                j <= outputs.len(),
                self.output_proxies@ == outputs,
                actions@ == focused + output_actions(outputs.take(j as int)),
            decreases self.output_proxies.len() - j,
        {
            let output: u32 = self.output_proxies[j].output;
            actions.push(CompositorAction::ConfigureOutput { output });
            assert(output_actions(outputs.take(j + 1)) =~= output_actions(
                outputs.take(j as int),
            ).push(CompositorAction::ConfigureOutput { output }));
            assert(actions@ =~= focused + output_actions(outputs.take(j + 1)));
            j += 1;
        }
        assert(outputs.take(j as int) =~= outputs);
        actions
    }
}

/// Nothing behind this surface can be seen.
pub open spec fn covers(surface: Surface) -> bool {
    surface.configuration is None || surface.configuration->0.fullscreen
}

/// The first surface that can be seen: the frontmost that covers the display,
/// or the one at the back, if none does.
pub open spec fn is_first_visible(
    surfaces: Map<DefaultKey, Surface>,
    stack: Seq<DefaultKey>,
    first: int,
) -> bool {
    ||| {
        &&& 0 <= first < stack.len()
        &&& covers(surfaces[stack[first]])
        &&& forall|i: int| first < i < stack.len() ==> !covers(surfaces[#[trigger] stack[i]])
    }
    ||| {
        &&& first == 0
        &&& forall|i: int| 0 <= i < stack.len() ==> !covers(surfaces[#[trigger] stack[i]])
    }
}

/// A surface has all that is needed to draw it.
pub open spec fn is_drawable(
    surfaces: Map<DefaultKey, Surface>,
    buffers: Map<DefaultKey, Buffer>,
    key: DefaultKey,
) -> bool {
    &&& surfaces.contains_key(key)
    &&& surfaces[key].configuration is Some
    &&& surfaces[key].content is Some
    &&& buffers.contains_key(surfaces[key].content->0.buffer)
}

/// Buffers that the GPU shares are waited for; others are uploaded.
pub open spec fn sync_for(content: ContentUpdate, buffer: Buffer) -> Option<TextureSync> {
    match buffer.backing {
        BufferBacking::Dmabuf { .. } => match content.explicit_sync {
            Some((acquire, _)) => Some(TextureSync::Explicit(acquire)),
            None => Some(TextureSync::ImplicitInterop),
        },
        BufferBacking::Shm { .. } => None,
    }
}

/// How a surface is drawn.
pub open spec fn draw_item(
    surfaces: Map<DefaultKey, Surface>,
    buffers: Map<DefaultKey, Buffer>,
    key: DefaultKey,
) -> DrawItem {
    let content = surfaces[key].content->0;
    DrawItem {
        surface: key,
        buffer: content.buffer,
        sync: sync_for(content, buffers[content.buffer]),
        conf: surfaces[key].configuration->0,
    }
}

/// A surface after it was drawn: its content is read until `tp_done`, and
/// nobody waits for it any more.
pub open spec fn drawn(surface: Surface, tp_done: Option<u64>) -> Surface {
    Surface {
        content: Some(
            ContentUpdate {
                tp_done,
                wp_presentation_feedback: None,
                ..surface.content->0
            },
        ),
        frame_callback: None,
        ..surface
    }
}

/// The surfaces after those of a stack were drawn, the callbacks that are due,
/// and who waits for the frame.
pub open spec fn all_drawn(
    surfaces: Map<DefaultKey, Surface>,
    stack: Seq<DefaultKey>,
    tp_done: Seq<Option<u64>>,
    tp_render: u64,
) -> (Map<DefaultKey, Surface>, Seq<u32>, Seq<PendingPresentationFeedback>)
    decreases stack.len(),
{
    if stack.len() == 0 {
        (surfaces, Seq::empty(), Seq::empty())
    } else {
        let (before, callbacks, feedback) = all_drawn(
            surfaces,
            stack.drop_last(),
            tp_done,
            tp_render,
        );
        let key = stack.last();
        let surface = before[key];
        (
            before.insert(key, drawn(surface, tp_done[stack.len() - 1])),
            match surface.frame_callback {
                Some(callback) => callbacks.push(callback),
                None => callbacks,
            },
            match surface.content->0.wp_presentation_feedback {
                Some(id) => feedback.push(
                    PendingPresentationFeedback { feedback: id, tp_render },
                ),
                None => feedback,
            },
        )
    }
}

impl Compositor {
    /// Every surface from `first` on can be drawn.
    pub open spec fn drawable_from(self, first: int) -> bool {
        forall|i: int|
            first <= i < self.surface_stack@.len() ==> is_drawable(
                self.windows.surfaces@,
                self.buffers@,
                #[trigger] self.surface_stack@[i],
            )
    }

    /// The place of the first surface that can be seen.
    pub fn first_visible(&self) -> (first: usize)
        requires
            self.wf(),
        ensures
            is_first_visible(self.windows.surfaces@, self.surface_stack@, first as int),
            first <= self.surface_stack@.len(),
    {
        let mut i: usize = self.surface_stack.len();
        while i > 0
            invariant
                i <= self.surface_stack@.len(),
                self.wf(),
                forall|j: int|
                    i <= j < self.surface_stack@.len() ==> !covers(
                        self.windows.surfaces@[#[trigger] self.surface_stack@[j]],
                    ),
            decreases i,
        {
            i -= 1;
            assert(self.windows.surfaces@.contains_key(self.surface_stack@[i as int]));
            if let Some(surface) = self.windows.surfaces.get(self.surface_stack[i]) {
                let covered = match &surface.configuration {
                    Some(conf) => conf.fullscreen,
                    None => true,
                };
                if covered {
                    return i;
                }
            }
        }
        0
    }

    /// What is drawn for a frame: the surfaces that can be seen, from the back
    /// to the front.
    pub fn composite_frame(&self) -> (items: Vec<DrawItem>)
        requires
            self.wf(),
            forall|first: int| #[trigger]
                is_first_visible(self.windows.surfaces@, self.surface_stack@, first)
                    ==> self.drawable_from(first),
        ensures
            exists|first: int| #[trigger]
                is_first_visible(self.windows.surfaces@, self.surface_stack@, first) && items@
                    == self.surface_stack@.skip(first).map_values(
                    |key: DefaultKey| draw_item(self.windows.surfaces@, self.buffers@, key),
                ),
    {
        let first: usize = self.first_visible();
        let ghost visible = self.surface_stack@.skip(first as int);
        let ghost plan = visible.map_values(
            |key: DefaultKey| draw_item(self.windows.surfaces@, self.buffers@, key),
        );
        let mut items: Vec<DrawItem> = Vec::new();
        let mut i: usize = first;
        while i < self.surface_stack.len()
            invariant
                first <= i <= self.surface_stack@.len(),
                self.drawable_from(first as int),
                visible == self.surface_stack@.skip(first as int),
                plan == visible.map_values(
                    |key: DefaultKey| draw_item(self.windows.surfaces@, self.buffers@, key),
                ),
                items@ == plan.take(i - first),
            decreases self.surface_stack.len() - i,
        {
            let key = self.surface_stack[i];
            assert(is_drawable(
                self.windows.surfaces@,
                self.buffers@,
                self.surface_stack@[i as int],
            ));
            if let Some(surface) = self.windows.surfaces.get(key) {
                if let (Some(conf), Some(content)) = (&surface.configuration, &surface.content) {
                    if let Some(buffer) = self.buffers.get(content.buffer) {
                        let sync = match buffer.backing {
                            BufferBacking::Dmabuf { .. } => match content.explicit_sync {
                                Some((acquire, _)) => Some(TextureSync::Explicit(acquire)),
                                None => Some(TextureSync::ImplicitInterop),
                            },
                            BufferBacking::Shm { .. } => None,
                        };
                        items.push(
                            DrawItem { surface: key, buffer: content.buffer, sync, conf: *conf },
                        );
                    }
                }
            }
            assert(plan[i - first] == draw_item(self.windows.surfaces@, self.buffers@, key));
            assert(plan.take(i + 1 - first) =~= plan.take(i - first).push(plan[i - first]));
            i += 1;
        }
        assert(plan.take(i - first) =~= plan);
        items
    }

    /// Records that the surfaces from `first` on were drawn. `tp_done` gives,
    /// for each of them, until when its content is read, and `tp_render` when
    /// the frame is done. Returns the callbacks that are due.
    pub fn frame_submitted(&mut self, first: usize, tp_done: &Vec<Option<u64>>, tp_render: u64) -> (
    callbacks: Vec<u32>)
        requires
            old(self).wf(),
            first <= old(self).surface_stack@.len(),
            old(self).drawable_from(first as int),
            tp_done@.len() == old(self).surface_stack@.len() - first,
        ensures
            final(self).wf(),
            final(self).surface_stack@ == old(self).surface_stack@,
            final(self).buffers@ == old(self).buffers@,
            final(self).in_flight_buffers@ == old(self).in_flight_buffers@,
            final(self).display_params == old(self).display_params,
            final(self).output_proxies@ == old(self).output_proxies@,
            final(self).windows.xwm == old(self).windows.xwm,
            final(self).windows.xwayland_surface_lookup == old(
                self).windows.xwayland_surface_lookup,
            ({
                let (surfaces, due, feedback) = all_drawn(
                    old(self).windows.surfaces@,
                    old(self).surface_stack@.skip(first as int),
                    tp_done@,
                    tp_render,
                );
                &&& final(self).windows.surfaces@ == surfaces
                &&& callbacks@ == due
                &&& final(self).pending_presentation_feedback@ == old(
                    self).pending_presentation_feedback@ + feedback
            }),
    {
        let ghost stack = self.surface_stack@;
        let ghost visible = stack.skip(first as int);
        let ghost start = self.windows.surfaces@;
        let ghost waiting = self.pending_presentation_feedback@;
        let mut callbacks: Vec<u32> = Vec::new();
        let mut i: usize = first;
        assert(visible.take(0) =~= Seq::empty());
        assert(self.pending_presentation_feedback@ =~= waiting + Seq::empty());
        while i < self.surface_stack.len()
            invariant
                first <= i <= stack.len(),
                self.surface_stack@ == stack,
                visible == stack.skip(first as int),
                tp_done@.len() == stack.len() - first,
                self.wf(),
                self.buffers == old(self).buffers,
                self.in_flight_buffers == old(self).in_flight_buffers,
                self.display_params == old(self).display_params,
                self.output_proxies == old(self).output_proxies,
                self.windows.xwm == old(self).windows.xwm,
                self.windows.xwayland_surface_lookup == old(self).windows.xwayland_surface_lookup,
                self.drawable_from(first as int),
                (
                    self.windows.surfaces@,
                    callbacks@,
                    self.pending_presentation_feedback@,
                ) == ({
                    let (surfaces, due, feedback) = all_drawn(
                        start,
                        visible.take(i - first),
                        tp_done@,
                        tp_render,
                    );
                    (surfaces, due, waiting + feedback)
                }),
            decreases self.surface_stack.len() - i,
        {
            let key = self.surface_stack[i];
            let ghost surfaces = self.windows.surfaces@;
            let ghost shown = self.pending_presentation_feedback@;
            assert(is_drawable(surfaces, self.buffers@, self.surface_stack@[i as int]));
            assert(visible.take(i + 1 - first).drop_last() =~= visible.take(i - first));
            assert(visible.take(i + 1 - first).last() == key);
            if let Some(surface) = self.windows.surfaces.get_mut(key) {
                if let Some(callback) = surface.frame_callback.take() {
                    callbacks.push(callback);
                }
                if let Some(content) = surface.content {
                    if let Some(feedback) = content.wp_presentation_feedback {
                        self.pending_presentation_feedback.push(
                            PendingPresentationFeedback { feedback, tp_render },
                        );
                    }
                    surface.content = Some(
                        ContentUpdate {
                            tp_done: tp_done[i - first],
                            wp_presentation_feedback: None,
                            ..content
                        },
                    );
                }
            }
            assert(self.windows.surfaces@ =~= surfaces.insert(
                key,
                drawn(surfaces[key], tp_done@[i - first]),
            ));
            proof {
                let (_, _, feedback) = all_drawn(
                    start,
                    visible.take(i - first),
                    tp_done@,
                    tp_render,
                );
                let (_, _, more) = all_drawn(
                    start,
                    visible.take(i + 1 - first),
                    tp_done@,
                    tp_render,
                );
                assert(self.pending_presentation_feedback@ =~= waiting + more);
            }
            i += 1;
        }
        assert(visible.take(i - first) =~= visible);
        callbacks
    }

    /// Gives back buffers that are not in use any more.
    pub fn release_buffers(&mut self, done: &Vec<bool>) -> (actions: Vec<ReleaseAction>)
        requires
            old(self).wf(),
            done@.len() == old(self).in_flight_buffers@.len(),
            forall|i: int|
                0 <= i < old(self).in_flight_buffers@.len() && (
                #[trigger] old(self).in_flight_buffers@[i]).needs_release ==> old(
                    self).buffers@.contains_key(old(self).in_flight_buffers@[i].buffer),
        ensures
            final(self).wf(),
            final(self).windows == old(self).windows,
            final(self).surface_stack == old(self).surface_stack,
            final(self).display_params == old(self).display_params,
            final(self).output_proxies == old(self).output_proxies,
            final(self).pending_presentation_feedback == old(self).pending_presentation_feedback,
            (final(self).in_flight_buffers@, actions@) == crate::compositor::buffers::released(
                old(self).in_flight_buffers@,
                done@,
                old(self).buffers@,
            ),
            final(self).buffers@ == old(self).buffers@.restrict(
                Set::new(
                    |key: DefaultKey|
                        crate::compositor::buffers::is_kept(
                            old(self).windows.surfaces@,
                            final(self).in_flight_buffers@,
                            old(self).buffers@,
                            key,
                        ),
                ),
            ),
    {
        release_buffers(
            &self.windows.surfaces,
            &mut self.buffers,
            &mut self.in_flight_buffers,
            done,
        )
    }
}

/// A buffer that a surface shows outlives its destruction by the client.
pub proof fn shown_buffer_is_kept(
    surfaces: Map<DefaultKey, Surface>,
    in_flight: Seq<ContentUpdate>,
    buffers: Map<DefaultKey, Buffer>,
    surface: DefaultKey,
)
    requires
        surfaces.contains_key(surface),
        surfaces[surface].content is Some,
    ensures
        crate::compositor::buffers::is_kept(
            surfaces,
            in_flight,
            buffers,
            surfaces[surface].content->0.buffer,
        ),
{
}

/// There is one first surface that can be seen, wherever anything is stacked.
pub proof fn first_visible_is_unique(
    surfaces: Map<DefaultKey, Surface>,
    stack: Seq<DefaultKey>,
    a: int,
    b: int,
)
    requires
        stack.len() > 0,
        is_first_visible(surfaces, stack, a),
        is_first_visible(surfaces, stack, b),
    ensures
        a == b,
{
    if a < b {
        assert(!covers(surfaces[stack[b]]));
    } else if b < a {
        assert(!covers(surfaces[stack[a]]));
    }
}

/// An interface that clients can bind, in a version.
pub struct Global {
    pub interface: &'static str,
    pub version: u32,
}

fn global(interface: &'static str, version: u32) -> (global: Global)
    ensures
        global == (Global { interface, version }),
{
    Global { interface, version }
}

pub open spec fn globals() -> Seq<(Seq<char>, u32)> {
    seq![
        ("wl_compositor"@, 6),
        ("wl_output"@, 4),
        ("xdg_wm_base"@, 6),
        ("wp_fractional_scale_manager_v1"@, 1),
        ("wl_seat"@, 9),
        ("wl_data_device_manager"@, 3),
        ("zwp_pointer_constraints_v1"@, 1),
        ("zwp_relative_pointer_manager_v1"@, 1),
        ("zwp_text_input_manager_v3"@, 1),
        ("wl_shm"@, 1),
        ("zwp_linux_dmabuf_v1"@, 5),
        ("wp_presentation"@, 1),
        ("wp_linux_drm_syncobj_manager_v1"@, 1),
        ("xwayland_shell_v1"@, 1),
        ("wl_drm"@, 2),
    ]
}

/// The interfaces that the compositor offers.
pub fn create_globals() -> (list: Vec<Global>)
    ensures
        list@.map_values(|g: Global| (g.interface@, g.version)) == globals(),
{
    let mut list: Vec<Global> = Vec::new();
    list.push(global("wl_compositor", 6));
    list.push(global("wl_output", 4));
    list.push(global("xdg_wm_base", 6));
    list.push(global("wp_fractional_scale_manager_v1", 1));
    list.push(global("wl_seat", 9));
    list.push(global("wl_data_device_manager", 3));
    list.push(global("zwp_pointer_constraints_v1", 1));
    list.push(global("zwp_relative_pointer_manager_v1", 1));
    list.push(global("zwp_text_input_manager_v3", 1));
    list.push(global("wl_shm", 1));
    list.push(global("zwp_linux_dmabuf_v1", 5));
    list.push(global("wp_presentation", 1));
    list.push(global("wp_linux_drm_syncobj_manager_v1", 1));
    list.push(global("xwayland_shell_v1", 1));
    list.push(global("wl_drm", 2));
    assert(list@.map_values(|g: Global| (g.interface@, g.version)) =~= globals());
    list
}

/// A surface is drawn as it is configured, with what its client committed last;
/// a buffer that the GPU shares is waited for, at the acquire point if there is
/// one, and shared memory is not.
pub proof fn surface_is_drawn_as_configured(
    surfaces: Map<DefaultKey, Surface>,
    buffers: Map<DefaultKey, Buffer>,
    key: DefaultKey,
)
    requires
        is_drawable(surfaces, buffers, key),
    ensures
        ({
            let item = draw_item(surfaces, buffers, key);
            let surface = surfaces[key];
            &&& item.surface == key
            &&& surface.configuration == Some(item.conf)
            &&& surface.content matches Some(content) && item.buffer == content.buffer && match (
                buffers[content.buffer].backing,
                content.explicit_sync,
            ) {
                (BufferBacking::Shm { .. }, _) => item.sync is None,
                (BufferBacking::Dmabuf { .. }, Some((acquire, _))) => item.sync == Some(
                    TextureSync::Explicit(acquire),
                ),
                (BufferBacking::Dmabuf { .. }, None) => item.sync == Some(
                    TextureSync::ImplicitInterop,
                ),
            }
        }),
{
}

/// Everything in front of the first visible surface can be seen through: none of
/// it fills the display. What is behind it is hidden by it.
pub proof fn nothing_visible_is_left_out(
    surfaces: Map<DefaultKey, Surface>,
    stack: Seq<DefaultKey>,
    first: int,
    i: int,
)
    requires
        is_first_visible(surfaces, stack, first),
        0 <= i < stack.len(),
    ensures
        i > first ==> (surfaces[stack[i]].configuration matches Some(conf) && !conf.fullscreen),
        i < first ==> 0 <= first < stack.len() && (surfaces[stack[first]].configuration matches
            Some(conf) ==> conf.fullscreen),
{
    if i > first {
        assert(!covers(surfaces[stack[i]]));
    }
}

/// A surface that was drawn is read until the point that is given; its callback
/// and its feedback are taken out, and nothing else changes.
pub proof fn drawn_surface_keeps_its_content(surface: Surface, tp_done: Option<u64>)
    requires
        surface.content is Some,
    ensures
        ({
            let after = drawn(surface, tp_done);
            &&& after.content matches Some(content) && content.tp_done == tp_done && content.buffer
                == surface.content->0.buffer && content.needs_release
                == surface.content->0.needs_release && content.explicit_sync
                == surface.content->0.explicit_sync && content.wp_presentation_feedback is None
            &&& after.frame_callback is None
            &&& after.configuration == surface.configuration && after.role == surface.role
                && after.client == surface.client && after.title == surface.title
        }),
{
}

/// Each surface of a frame is drawn, with its own point; each client that waits
/// for a callback gets it, and each that waits for feedback waits for this frame.
/// No other surface changes.
pub proof fn frame_reaches_each_surface(
    surfaces: Map<DefaultKey, Surface>,
    stack: Seq<DefaultKey>,
    tp_done: Seq<Option<u64>>,
    tp_render: u64,
    i: int,
    other: DefaultKey,
)
    requires
        stack.no_duplicates(),
        stack.len() <= tp_done.len(),
        0 <= i < stack.len(),
        !stack.contains(other),
    ensures
        ({
            let (after, callbacks, feedback) = all_drawn(surfaces, stack, tp_done, tp_render);
            let surface = surfaces[stack[i]];
            &&& after.contains_key(stack[i])
            &&& after[stack[i]] == drawn(surface, tp_done[i])
            &&& surface.frame_callback matches Some(callback) ==> callbacks.contains(callback)
            &&& surface.content->0.wp_presentation_feedback matches Some(id) ==> feedback.contains(
                PendingPresentationFeedback { feedback: id, tp_render },
            )
            &&& after.contains_key(other) == surfaces.contains_key(other) && after[other]
                == surfaces[other]
        }),
    decreases stack.len(),
{
    let init = stack.drop_last();
    let n = stack.len() - 1;
    let (before, callbacks, feedback) = all_drawn(surfaces, init, tp_done, tp_render);
    let (after, all_callbacks, all_feedback) = all_drawn(surfaces, stack, tp_done, tp_render);
    assert(stack[n] == stack.last());
    assert(!init.contains(stack.last())) by {
        if init.contains(stack.last()) {
            let k = init.index_of(stack.last());
            assert(stack[k] == stack[n]);
        }
    }
    assert(!init.contains(other)) by {
        if init.contains(other) {
            let k = init.index_of(other);
            assert(stack[k] == other);
        }
    }
    assert(init.no_duplicates()) by {
        assert forall|a: int, b: int| 0 <= a < init.len() && 0 <= b < init.len() && a != b implies
            init[a] != init[b] by {
            assert(stack[a] != stack[b]);
        }
    }
    lemma_drawn_elsewhere(surfaces, init, tp_done, tp_render, stack.last());
    lemma_drawn_elsewhere(surfaces, init, tp_done, tp_render, other);
    if i < n {
        assert(init[i] == stack[i]);
        frame_reaches_each_surface(surfaces, init, tp_done, tp_render, i, other);
        assert(stack[i] != stack[n]);
        if let Some(callback) = surfaces[stack[i]].frame_callback {
            let k = callbacks.index_of(callback);
            assert(all_callbacks[k] == callback);
        }
        if let Some(id) = surfaces[stack[i]].content->0.wp_presentation_feedback {
            let waiting = PendingPresentationFeedback { feedback: id, tp_render };
            let k = feedback.index_of(waiting);
            assert(all_feedback[k] == waiting);
        }
    } else {
        if let Some(callback) = surfaces[stack[i]].frame_callback {
            assert(all_callbacks.last() == callback);
        }
        if let Some(id) = surfaces[stack[i]].content->0.wp_presentation_feedback {
            assert(all_feedback.last() == PendingPresentationFeedback { feedback: id, tp_render });
        }
    }
    assert(other != stack.last()) by {
        if other == stack.last() {
            assert(stack.contains(stack[n]));
        }
    }
}

proof fn lemma_drawn_elsewhere(
    surfaces: Map<DefaultKey, Surface>,
    stack: Seq<DefaultKey>,
    tp_done: Seq<Option<u64>>,
    tp_render: u64,
    other: DefaultKey,
)
    requires
        !stack.contains(other),
    ensures
        ({
            let after = all_drawn(surfaces, stack, tp_done, tp_render).0;
            after.contains_key(other) == surfaces.contains_key(other) && after[other]
                == surfaces[other]
        }),
    decreases stack.len(),
{
    if stack.len() > 0 {
        let init = stack.drop_last();
        let n = stack.len() - 1;
        assert(stack[n] == stack.last());
        assert(!init.contains(other)) by {
            if init.contains(other) {
                let k = init.index_of(other);
                assert(stack[k] == other);
            }
        }
        assert(stack.last() != other) by {
            if stack.last() == other {
                assert(stack.contains(stack[n]));
            }
        }
        lemma_drawn_elsewhere(surfaces, init, tp_done, tp_render, other);
    }
}

/// When the display changes, each surface is placed anew, from its window if it
/// has one; only if its size or scale is another does its client have to draw
/// again, on the outputs that it knows.
pub proof fn surface_is_placed_anew(
    surface: DefaultKey,
    surf: Surface,
    xwm: XwmView,
    outputs: Seq<OutputProxy>,
    changed: bool,
)
    ensures
        ({
            let actions = surface_actions(surface, surf, xwm, outputs, changed);
            &&& actions[0] == (CompositorAction::Reconfigure {
                surface,
                window: window_of(xwm, surf),
            })
            &&& !changed ==> actions.len() == 1
            &&& changed && surf.frame_callback is Some ==> actions.last() == (
            CompositorAction::FrameDone { callback: surf.frame_callback->0 })
        }),
        surf.role matches Some(SurfaceRole::XWayland { serial }) ==> window_of(xwm, surf)
            == xwm.window_for_serial(serial),
        !(surf.role matches Some(SurfaceRole::XWayland { .. })) ==> window_of(xwm, surf) is None,
{
}

/// A surface leaves and enters every output of its own client, and no other.
pub proof fn surface_moves_on_its_clients_outputs(
    surface: DefaultKey,
    client: u32,
    outputs: Seq<OutputProxy>,
    i: int,
)
    requires
        0 <= i < outputs.len(),
    ensures
        outputs[i].client == client ==> moves(surface, client, outputs).contains(
            CompositorAction::EnterOutput { surface, output: outputs[i].output },
        ) && moves(surface, client, outputs).contains(
            CompositorAction::LeaveOutput { surface, output: outputs[i].output },
        ),
        (forall|j: int| 0 <= j < outputs.len() ==> (#[trigger] outputs[j]).client != client)
            ==> moves(surface, client, outputs).len() == 0,
    decreases outputs.len(),
{
    let init = outputs.drop_last();
    let n = outputs.len() - 1;
    let before = moves(surface, client, init);
    let all = moves(surface, client, outputs);
    assert(outputs[n] == outputs.last());
    if init.len() > 0 {
        surface_moves_on_its_clients_outputs(
            surface,
            client,
            init,
            if i < n {
                i
            } else {
                0
            },
        );
        if forall|j: int| 0 <= j < outputs.len() ==> (#[trigger] outputs[j]).client != client {
            assert forall|j: int| 0 <= j < init.len() implies (#[trigger] init[j]).client
                != client by {
                assert(init[j] == outputs[j]);
            }
        }
    }
    if outputs[i].client == client {
        let enter = CompositorAction::EnterOutput { surface, output: outputs[i].output };
        let leave = CompositorAction::LeaveOutput { surface, output: outputs[i].output };
        if i < n {
            assert(init[i] == outputs[i]);
            let a = before.index_of(enter);
            let b = before.index_of(leave);
            assert(all[a] == enter && all[b] == leave);
        } else {
            assert(all[before.len() as int] == leave);
            assert(all[before.len() as int + 1] == enter);
        }
    }
}

/// The display changes for its surfaces if its size or its scale does; its rate
/// does not matter to them.
pub proof fn rate_does_not_move_surfaces(a: DisplayParams, b: DisplayParams)
    ensures
        !display_changed(a, b) <==> a.width == b.width && a.height == b.height && a.ui_scale
            == b.ui_scale,
        display_changed(a, b) == display_changed(b, a),
{
}

/// Every output is described anew, in order.
pub proof fn outputs_are_described(outputs: Seq<OutputProxy>, i: int)
    requires
        0 <= i < outputs.len(),
    ensures
        output_actions(outputs).len() == outputs.len(),
        output_actions(outputs)[i] == (CompositorAction::ConfigureOutput {
            output: outputs[i].output,
        }),
{
}

} // verus!
