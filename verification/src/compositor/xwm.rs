//! The X11 window manager: what it remembers of each X11 window, and what it
//! asks of the X server and of the compositor when an event arrives.
//!
//! The caller polls the X connection, hands what it finds to
//! [`State::dispatch_xwm`] and performs the actions that come back, in order.

use std::collections::{BTreeMap, HashMap};
use vstd::prelude::*;
use slotmap::DefaultKey;
use crate::compositor::atom_set::AtomSet;
use crate::compositor::slots::SurfaceSlots;
use crate::compositor::surface::{Surface, SurfaceConfiguration, Visibility};
use crate::compositor::window_list::remove_window;
use crate::pixel_scale::PixelScale;
use crate::text::{copy_text, decimal_text};

verus! {

broadcast use {
    vstd::std_specs::hash::group_hash_axioms,
    vstd::std_specs::btree::group_btree_axioms,
};

/// The predefined atoms of the X11 protocol that are used here.
pub const ATOM_ATOM: u32 = 4;

pub const ATOM_WINDOW: u32 = 33;

pub const ATOM_WM_CLASS: u32 = 67;

/// The mask bits of a configure request.
pub const CONFIG_X: u16 = 1;

pub const CONFIG_Y: u16 = 2;

pub const CONFIG_WIDTH: u16 = 4;

pub const CONFIG_HEIGHT: u16 = 8;

/// Interned atoms, by name.
#[derive(Debug, Clone, Copy, PartialEq, Eq, Structural)]
pub struct Atoms {
    pub wl_surface_serial: u32,
    pub utf8_string: u32,
    pub wm_hints: u32,
    pub wm_protocols: u32,
    pub wm_take_focus: u32,
    pub wm_change_state: u32,
    pub net_wm_name: u32,
    pub net_wm_moveresize: u32,
    pub net_wm_state_modal: u32,
    pub wm_s0: u32,
    pub wm_state: u32,
    pub net_wm_cm_s0: u32,
    pub net_supported: u32,
    pub net_active_window: u32,
    pub net_client_list: u32,
    pub net_client_list_stacking: u32,
    pub net_wm_state: u32,
    pub net_wm_state_maximized_vert: u32,
    pub net_wm_state_maximized_horz: u32,
    pub net_wm_state_hidden: u32,
    pub net_wm_state_fullscreen: u32,
    pub net_wm_state_focused: u32,
    pub net_supporting_wm_check: u32,
}

pub struct XWindow {
    pub id: u32,
    pub serial: Option<u64>,
    pub title: Option<String>,
    pub app_id: Option<String>,
    pub x: u32,
    pub y: u32,
    pub width: u32,
    pub height: u32,
    pub states: AtomSet,
    pub protocols: AtomSet,
    pub hint_input: bool,
    pub override_redirect: bool,
    /// Whether a map request or a map notification has been received.
    pub mapped: bool,
}

/// An X11 window, with its sets of atoms as mathematical sets.
#[verifier::ext_equal]
pub struct XWindowView {
    pub id: u32,
    pub serial: Option<u64>,
    pub title: Option<String>,
    pub app_id: Option<String>,
    pub x: u32,
    pub y: u32,
    pub width: u32,
    pub height: u32,
    pub states: Set<u32>,
    pub protocols: Set<u32>,
    pub hint_input: bool,
    pub override_redirect: bool,
    pub mapped: bool,
}

impl View for XWindow {
    type V = XWindowView;

    open spec fn view(&self) -> XWindowView {
        XWindowView {
            id: self.id,
            serial: self.serial,
            title: self.title,
            app_id: self.app_id,
            x: self.x,
            y: self.y,
            width: self.width,
            height: self.height,
            states: self.states@,
            protocols: self.protocols@,
            hint_input: self.hint_input,
            override_redirect: self.override_redirect,
            mapped: self.mapped,
        }
    }
}

impl XWindow {
    /// The title that a window is shown with in messages.
    pub open spec fn shown_title(self) -> Seq<char> {
        match self.title {
            Some(title) if title@.len() > 0 => title@,
            _ => "Untitled"@,
        }
    }

    /// A short description of the window, for messages.
    pub fn describe(&self) -> (text: String)
        ensures
            text@ == "<"@ + crate::text::decimal(self.id as nat) + " \""@ + self.shown_title() + "\""@
                + (match self.serial {
                Some(serial) => " serial="@ + crate::text::decimal(serial as nat),
                None => ""@,
            }) + (if self.override_redirect {
                " [OR]"@
            } else {
                ""@
            }) + ">"@,
    {
        let mut serial = "".to_owned();
        if let Some(number) = self.serial {
            serial = " serial=".to_owned();
            serial.append(decimal_text(number).as_str());
        }
        let mut text = "<".to_owned();
        text.append(decimal_text(self.id as u64).as_str());
        text.append(" \"");
        match &self.title {
            Some(title) => {
                if title.as_str().unicode_len() > 0 {
                    text.append(title.as_str());
                } else {
                    text.append("Untitled");
                }
            },
            None => text.append("Untitled"),
        }
        text.append("\"");
        text.append(serial.as_str());
        if self.override_redirect {
            text.append(" [OR]");
        } else {
            text.append("");
        }
        text.append(">");
        text
    }
}

/// The window manager's state.
pub struct Xwm {
    pub atoms: Atoms,
    /// The window that stands for the window manager itself.
    pub wm_id: u32,
    pub root: u32,
    pub client_list: Vec<u32>,
    pub client_list_stacking: Vec<u32>,
    pub xwindows: HashMap<u32, XWindow>,
    /// X11 windows by the serial of their Wayland surface.
    pub serials: HashMap<u64, u32>,
}

#[verifier::ext_equal]
pub struct XwmView {
    pub atoms: Atoms,
    pub wm_id: u32,
    pub root: u32,
    pub client_list: Seq<u32>,
    pub client_list_stacking: Seq<u32>,
    pub xwindows: Map<u32, XWindowView>,
    pub serials: Map<u64, u32>,
}

/// The windows of a map, each by its view.
pub open spec fn window_views(windows: Map<u32, XWindow>) -> Map<u32, XWindowView> {
    windows.map_values(|w: XWindow| w@)
}

impl View for Xwm {
    type V = XwmView;

    open spec fn view(&self) -> XwmView {
        XwmView {
            atoms: self.atoms,
            wm_id: self.wm_id,
            root: self.root,
            client_list: self.client_list@,
            client_list_stacking: self.client_list_stacking@,
            xwindows: window_views(self.xwindows@),
            serials: self.serials@,
        }
    }
}

/// An event of the X server, or the answer to a property that was fetched.
pub enum XEvent {
    CreateNotify { created: CreatedWindow },
    /// The properties of a window that was just created.
    WindowFetched {
        created: CreatedWindow,
        title: Option<String>,
        app_id: Option<String>,
        /// The input field of the window's hints, where both are present.
        hint_input: Option<bool>,
        protocols: Vec<u32>,
    },
    MapRequest { window: u32 },
    MapNotify { window: u32 },
    ConfigureRequest { window: u32, x: i16, y: i16, width: u16, height: u16, value_mask: u16 },
    ConfigureNotify {
        window: u32,
        x: i16,
        y: i16,
        width: u16,
        height: u16,
        override_redirect: bool,
    },
    UnmapNotify { window: u32 },
    DestroyNotify { window: u32 },
    /// A client message, with the first three words of its data.
    ClientMessage { window: u32, message_type: u32, data: (u32, u32, u32) },
    PropertyNotify { window: u32, atom: u32 },
    TitleFetched { window: u32, title: Option<String> },
    ClassFetched { window: u32, app_id: Option<String> },
    HintsFetched { window: u32, hint_input: Option<bool> },
    /// Any other event.
    Other,
}

/// The geometry of a new window, as the X server announced it.
#[derive(Debug, Clone, Copy, PartialEq, Eq, Structural)]
pub struct CreatedWindow {
    pub window: u32,
    pub x: i16,
    pub y: i16,
    pub width: u16,
    pub height: u16,
    pub override_redirect: bool,
}

/// Something that the caller has to do, in the order given.
#[allow(inconsistent_fields)]
pub enum Action {
    /// Ask for the events of the root window, with a pointer cursor on it.
    SelectRootEvents { root: u32 },
    CreateManagerWindow { window: u32, root: u32 },
    SetSelectionOwner { window: u32, selection: u32 },
    RedirectSubwindows { root: u32 },
    SetName { window: u32, property: u32, kind: u32, name: &'static str },
    SelectPropertyChanges { window: u32 },
    MapWindow { window: u32 },
    ReplaceProperty { window: u32, property: u32, kind: u32, values: Vec<u32> },
    AppendProperty { window: u32, property: u32, kind: u32, value: u32 },
    /// Move and resize, without a border, above all siblings.
    ConfigureWindow { window: u32, x: i32, y: i32, width: u32, height: u32 },
    /// Send the window a synthetic configure event.
    NotifyConfigure { window: u32, x: i16, y: i16, width: u16, height: u16 },
    RemoveInputFocus,
    SetInputFocus { window: u32 },
    SendClientMessage { window: u32, message_type: u32, data: (u32, u32, u32, u32, u32) },
    Flush,
    /// Fetch the properties of a new window, and hand them back.
    FetchWindow { created: CreatedWindow },
    FetchTitle { window: u32 },
    FetchClass { window: u32 },
    FetchHints { window: u32 },
    FetchProtocols { window: u32 },
    RaiseSurface { serial: u64 },
    /// Recompute the placement of a surface from its X11 window.
    ReconfigureSurface { surface: DefaultKey, window: u32 },
    MapSurface { surface: DefaultKey, buffer: DefaultKey },
}

/// An action, with a list of property values as a sequence.
#[verifier::ext_equal]
pub enum ActionView {
    ReplaceProperty { window: u32, property: u32, kind: u32, values: Seq<u32> },
    Plain(Action),
}

impl View for Action {
    type V = ActionView;

    open spec fn view(&self) -> ActionView {
        match *self {
            Action::ReplaceProperty { window, property, kind, values } =>
                ActionView::ReplaceProperty { window, property, kind, values: values@ },
            a => ActionView::Plain(a),
        }
    }
}

pub open spec fn action_views(actions: Seq<Action>) -> Seq<ActionView> {
    actions.map_values(|a: Action| a@)
}

/// The part of the compositor that the window manager reads and changes.
pub struct State {
    pub xwm: Option<Xwm>,
    /// Surfaces by the serial that ties them to an X11 window.
    pub xwayland_surface_lookup: BTreeMap<u64, DefaultKey>,
    pub surfaces: SurfaceSlots,
}

#[verifier::ext_equal]
pub struct StateView {
    pub xwm: XwmView,
    pub lookup: Map<u64, DefaultKey>,
    pub surfaces: Map<DefaultKey, Surface>,
}

impl State {
    /// No surfaces, and no window manager yet.
    pub fn new() -> (state: State)
        ensures
            state.xwm is None,
            state.xwayland_surface_lookup@ == Map::<u64, DefaultKey>::empty(),
            state.surfaces@.dom() == Set::<DefaultKey>::empty(),
    {
        State {
            xwm: None,
            xwayland_surface_lookup: BTreeMap::new(),
            surfaces: SurfaceSlots::new(),
        }
    }
}

impl View for State {
    type V = StateView;

    open spec fn view(&self) -> StateView {
        StateView {
            xwm: self.xwm->0@,
            lookup: self.xwayland_surface_lookup@,
            surfaces: self.surfaces@,
        }
    }
}

impl XwmView {
    /// Every window is filed under its own id.
    pub open spec fn wf(self) -> bool {
        forall|id: u32| #[trigger]
            self.xwindows.contains_key(id) ==> self.xwindows[id].id == id
    }

    pub open spec fn with_window(self, id: u32, window: XWindowView) -> XwmView {
        XwmView { xwindows: self.xwindows.insert(id, window), ..self }
    }

    /// The window whose surface has `serial`, if there is one.
    pub open spec fn window_for_serial(self, serial: u64) -> Option<u32> {
        if self.serials.contains_key(serial) && self.xwindows.contains_key(self.serials[serial]) {
            Some(self.serials[serial])
        } else {
            None
        }
    }
}

/// The placements that a surface configuration stands for, and the states it
/// puts a window in.
pub open spec fn configured_states(
    atoms: Atoms,
    states: Set<u32>,
    conf: SurfaceConfiguration,
) -> Set<u32> {
    let shown = match conf.visibility {
        Visibility::Occluded => states.insert(atoms.net_wm_state_hidden).remove(
            atoms.net_wm_state_focused,
        ),
        Visibility::Visible => states.remove(atoms.net_wm_state_focused).remove(
            atoms.net_wm_state_hidden,
        ),
        Visibility::Active => states.remove(atoms.net_wm_state_hidden).insert(
            atoms.net_wm_state_focused,
        ),
    };
    if conf.fullscreen {
        shown.insert(atoms.net_wm_state_fullscreen)
    } else {
        shown.remove(atoms.net_wm_state_fullscreen)
    }
}

/// `values` lists exactly the atoms of `states`, each once.
pub open spec fn lists_states(values: Seq<u32>, states: Set<u32>) -> bool {
    values.no_duplicates() && values.to_set() == states
}

/// What configuring a window asks of the X server.
pub open spec fn configure_actions(
    window: u32,
    conf: SurfaceConfiguration,
    atoms: Atoms,
    before: Set<u32>,
    after: Set<u32>,
    actions: Seq<ActionView>,
) -> bool {
    let placed = seq![
        ActionView::Plain(
            Action::ConfigureWindow {
                window,
                x: conf.x as i32,
                y: conf.y as i32,
                width: conf.width,
                height: conf.height,
            },
        ),
        ActionView::Plain(
            Action::NotifyConfigure {
                window,
                x: conf.x as i16,
                y: conf.y as i16,
                width: conf.width as u16,
                height: conf.height as u16,
            },
        ),
    ];
    if before == after {
        actions == placed.push(ActionView::Plain(Action::Flush))
    } else {
        exists|values: Seq<u32>|
            #![trigger lists_states(values, after)]
            lists_states(values, after) && actions == placed.push(
                ActionView::ReplaceProperty {
                    window,
                    property: atoms.net_wm_state,
                    kind: ATOM_ATOM,
                    values,
                },
            ).push(ActionView::Plain(Action::Flush))
    }
}

/// How configuring a window changes the window manager: its states follow the
/// configuration; a window that is gone is left alone.
pub open spec fn window_configured(
    old: XwmView,
    window: u32,
    conf: SurfaceConfiguration,
    new: XwmView,
    actions: Seq<ActionView>,
) -> bool {
    if old.xwindows.contains_key(window) {
        let w = old.xwindows[window];
        let states = configured_states(old.atoms, w.states, conf);
        &&& new == old.with_window(window, XWindowView { states, ..w })
        &&& configure_actions(window, conf, old.atoms, w.states, states, actions)
    } else {
        new == old && actions == Seq::<ActionView>::empty()
    }
}

impl Xwm {
    /// A window manager that knows of no window yet, with the requests that
    /// announce it to the X server.
    pub fn new(atoms: Atoms, wm_id: u32, root: u32) -> (result: (Xwm, Vec<Action>))
        ensures
            result.0@ == (XwmView {
                atoms,
                wm_id,
                root,
                client_list: Seq::empty(),
                client_list_stacking: Seq::empty(),
                xwindows: Map::empty(),
                serials: Map::empty(),
            }),
            result.0@.wf(),
            action_views(result.1@) == startup_actions(atoms, wm_id, root),
    {
        let mut supported: Vec<u32> = Vec::new();
        supported.push(atoms.net_wm_state);
        supported.push(atoms.net_wm_state_maximized_horz);
        supported.push(atoms.net_wm_state_maximized_vert);
        supported.push(atoms.net_wm_state_hidden);
        supported.push(atoms.net_wm_state_fullscreen);
        supported.push(atoms.net_wm_state_modal);
        supported.push(atoms.net_wm_state_focused);
        supported.push(atoms.net_active_window);
        supported.push(atoms.net_wm_moveresize);
        supported.push(atoms.net_client_list);
        supported.push(atoms.net_client_list_stacking);
        assert(supported@ =~= supported_atoms(atoms));

        let mut actions: Vec<Action> = Vec::new();
        actions.push(Action::SelectRootEvents { root });
        actions.push(Action::CreateManagerWindow { window: wm_id, root });
        actions.push(Action::SetSelectionOwner { window: wm_id, selection: atoms.wm_s0 });
        actions.push(Action::SetSelectionOwner { window: wm_id, selection: atoms.net_wm_cm_s0 });
        actions.push(Action::RedirectSubwindows { root });
        actions.push(
            Action::ReplaceProperty {
                window: root,
                property: atoms.net_supported,
                kind: ATOM_ATOM,
                values: supported,
            },
        );
        actions.push(replace_window_list(root, atoms.net_active_window, 0));
        actions.push(replace_window_list(root, atoms.net_supporting_wm_check, wm_id));
        actions.push(replace_window_list(wm_id, atoms.net_supporting_wm_check, wm_id));
        actions.push(
            Action::SetName {
                window: wm_id,
                property: atoms.net_wm_name,
                kind: atoms.utf8_string,
                name: "Magic Mirror XWM",
            },
        );
        actions.push(Action::Flush);
        let xwm = Xwm {
            atoms,
            wm_id,
            root,
            client_list: Vec::new(),
            client_list_stacking: Vec::new(),
            xwindows: HashMap::new(),
            serials: HashMap::new(),
        };
        assert(xwm@.xwindows =~= Map::empty());
        assert(action_views(actions@) =~= startup_actions(atoms, wm_id, root));
        (xwm, actions)
    }

    /// The window whose surface has `serial`, if both are known.
    pub fn xwindow_for_serial(&self, serial: u64) -> (found: Option<&XWindow>)
        ensures
            match found {
                Some(window) => {
                    &&& self@.window_for_serial(serial) is Some
                    &&& self.xwindows@[self@.window_for_serial(serial)->0] == *window
                    &&& window@ == self@.xwindows[self@.window_for_serial(serial)->0]
                },
                None => self@.window_for_serial(serial) is None,
            },
    {
        match self.serials.get(&serial) {
            Some(id) => self.xwindows.get(id),
            None => None,
        }
    }

    /// Places a window as its surface is configured.
    pub fn configure_window(&mut self, window: u32, conf: SurfaceConfiguration) -> (actions: Vec<
        Action,
    >)
        requires
            old(self)@.wf(),
        ensures
            final(self)@.wf(),
            window_configured(old(self)@, window, conf, final(self)@, action_views(actions@)),
    {
        let mut actions: Vec<Action> = Vec::new();
        let ghost before = self@;
        match self.xwindows.remove(&window) {
            Some(mut xwin) => {
                let ghost w = xwin@;
                assert(before.xwindows.contains_key(window) && before.xwindows[window] == w);
                actions.push(
                    Action::ConfigureWindow {
                        window,
                        x: conf.x as i32,
                        y: conf.y as i32,
                        width: conf.width,
                        height: conf.height,
                    },
                );
                actions.push(
                    Action::NotifyConfigure {
                        window,
                        x: conf.x as i16,
                        y: conf.y as i16,
                        width: conf.width as u16,
                        height: conf.height as u16,
                    },
                );
                let old_states = xwin.states.duplicate();
                match conf.visibility {
                    Visibility::Occluded => {
                        xwin.states.insert(self.atoms.net_wm_state_hidden);
                        xwin.states.remove(self.atoms.net_wm_state_focused);
                    },
                    Visibility::Visible => {
                        xwin.states.remove(self.atoms.net_wm_state_focused);
                        xwin.states.remove(self.atoms.net_wm_state_hidden);
                    },
                    Visibility::Active => {
                        xwin.states.remove(self.atoms.net_wm_state_hidden);
                        xwin.states.insert(self.atoms.net_wm_state_focused);
                    },
                }
                if conf.fullscreen {
                    xwin.states.insert(self.atoms.net_wm_state_fullscreen);
                } else {
                    xwin.states.remove(self.atoms.net_wm_state_fullscreen);
                }
                let ghost after = xwin.states@;
                if !xwin.states.same_as(&old_states) {
                    let values = xwin.states.to_vec();
                    assert(lists_states(values@, after));
                    actions.push(
                        Action::ReplaceProperty {
                            window: xwin.id,
                            property: self.atoms.net_wm_state,
                            kind: ATOM_ATOM,
                            values,
                        },
                    );
                }
                actions.push(Action::Flush);
                let ghost new_window = xwin@;
                self.xwindows.insert(window, xwin);
                proof {
                    assert(self@.xwindows =~= before.xwindows.insert(window, new_window));
                    assert(self@ =~= before.with_window(
                        window,
                        XWindowView { states: after, ..w },
                    ));
                    let placed = seq![
                        ActionView::Plain(
                            Action::ConfigureWindow {
                                window,
                                x: conf.x as i32,
                                y: conf.y as i32,
                                width: conf.width,
                                height: conf.height,
                            },
                        ),
                        ActionView::Plain(
                            Action::NotifyConfigure {
                                window,
                                x: conf.x as i16,
                                y: conf.y as i16,
                                width: conf.width as u16,
                                height: conf.height as u16,
                            },
                        ),
                    ];
                    if w.states == after {
                        assert(action_views(actions@) =~= placed.push(
                            ActionView::Plain(Action::Flush),
                        ));
                    } else {
                        let values = actions@[2]->ReplaceProperty_values@;
                        assert(lists_states(values, after));
                        assert(action_views(actions@) =~= placed.push(
                            ActionView::ReplaceProperty {
                                window,
                                property: before.atoms.net_wm_state,
                                kind: ATOM_ATOM,
                                values,
                            },
                        ).push(ActionView::Plain(Action::Flush)));
                    }
                }
            },
            None => {
                proof {
                    assert(self@.xwindows =~= before.xwindows);
                    assert(action_views(actions@) =~= Seq::<ActionView>::empty());
                }
            },
        }
        actions
    }
}

/// Replaces a property by a single window.
fn replace_window_list(window: u32, property: u32, value: u32) -> (action: Action)
    ensures
        action@ == window_property(window, property, seq![value]),
{
    let mut values: Vec<u32> = Vec::new();
    values.push(value);
    assert(values@ =~= seq![value]);
    Action::ReplaceProperty { window, property, kind: ATOM_WINDOW, values }
}

pub open spec fn window_property(window: u32, property: u32, values: Seq<u32>) -> ActionView {
    ActionView::ReplaceProperty { window, property, kind: ATOM_WINDOW, values }
}

/// The hints that the window manager supports.
pub open spec fn supported_atoms(atoms: Atoms) -> Seq<u32> {
    seq![
        atoms.net_wm_state,
        atoms.net_wm_state_maximized_horz,
        atoms.net_wm_state_maximized_vert,
        atoms.net_wm_state_hidden,
        atoms.net_wm_state_fullscreen,
        atoms.net_wm_state_modal,
        atoms.net_wm_state_focused,
        atoms.net_active_window,
        atoms.net_wm_moveresize,
        atoms.net_client_list,
        atoms.net_client_list_stacking,
    ]
}

/// The requests that announce a window manager to the X server.
pub open spec fn startup_actions(atoms: Atoms, wm_id: u32, root: u32) -> Seq<ActionView> {
    seq![
        ActionView::Plain(Action::SelectRootEvents { root }),
        ActionView::Plain(Action::CreateManagerWindow { window: wm_id, root }),
        ActionView::Plain(Action::SetSelectionOwner { window: wm_id, selection: atoms.wm_s0 }),
        ActionView::Plain(
            Action::SetSelectionOwner { window: wm_id, selection: atoms.net_wm_cm_s0 },
        ),
        ActionView::Plain(Action::RedirectSubwindows { root }),
        ActionView::ReplaceProperty {
            window: root,
            property: atoms.net_supported,
            kind: ATOM_ATOM,
            values: supported_atoms(atoms),
        },
        window_property(root, atoms.net_active_window, seq![0]),
        window_property(root, atoms.net_supporting_wm_check, seq![wm_id]),
        window_property(wm_id, atoms.net_supporting_wm_check, seq![wm_id]),
        ActionView::Plain(
            Action::SetName {
                window: wm_id,
                property: atoms.net_wm_name,
                kind: atoms.utf8_string,
                name: "Magic Mirror XWM",
            },
        ),
        ActionView::Plain(Action::Flush),
    ]
}

impl Xwm {
    /// Gives the input focus to a window, or takes it from all of them.
    pub fn set_focus(&self, window: Option<u32>) -> (actions: Vec<Action>)
        requires
            self@.wf(),
        ensures
            action_views(actions@) == focus_actions(self@, window),
    {
        let mut actions: Vec<Action> = Vec::new();
        let found = match window {
            Some(id) => self.xwindows.get(&id),
            None => None,
        };
        match found {
            Some(xwin) => {
                assert(self@.xwindows.contains_key(window->0));
                actions.push(
                    replace_window_list(self.root, self.atoms.net_active_window, xwin.id),
                );
                if xwin.hint_input {
                    actions.push(Action::SetInputFocus { window: xwin.id });
                }
                if xwin.protocols.contains(self.atoms.wm_take_focus) {
                    actions.push(
                        Action::SendClientMessage {
                            window: xwin.id,
                            message_type: self.atoms.wm_protocols,
                            data: (self.atoms.wm_take_focus, 0, 0, 0, 0),
                        },
                    );
                }
                actions.push(Action::Flush);
            },
            None => {
                actions.push(Action::RemoveInputFocus);
                actions.push(Action::Flush);
            },
        }
        assert(action_views(actions@) =~= focus_actions(self@, window));
        actions
    }

    /// A serial whose window is `window`; which one, if there are several, is
    /// left open.
    pub fn serial_for_window(&self, window: u32) -> (serial: Option<u64>)
        ensures
            serial_of_window(self@.serials, window, serial),
    {
        let mut found: Option<u64> = None;
        for entry in entries: self.serials.iter()
            invariant
                entries.seq() == vstd::std_specs::iter::IteratorSpec::remaining(&self.serials.iter()),
                match found {
                    Some(s) => self.serials@.contains_key(s) && self.serials@[s] == window,
                    None => forall|i: int|
                        0 <= i < entries.index() ==> *(#[trigger] entries.seq()[i]).1 != window,
                },
        {
            if *entry.1 == window {
                found = Some(*entry.0);
            }
        }
        proof {
            if found is None {
                let all = vstd::std_specs::iter::IteratorSpec::remaining(&self.serials.iter());
                assert forall|s: u64| self.serials@.contains_key(s) implies self.serials@[s]
                    != window by {
                    assert(all.contains((&s, &self.serials@[s])));
                }
            }
        }
        found
    }
}

/// `serial` is one that leads to `window`, or there is none.
pub open spec fn serial_of_window(
    serials: Map<u64, u32>,
    window: u32,
    serial: Option<u64>,
) -> bool {
    match serial {
        Some(s) => serials.contains_key(s) && serials[s] == window,
        None => forall|s: u64| #[trigger] serials.contains_key(s) ==> serials[s] != window,
    }
}

/// The requests that move the input focus: windows that hint at it get it from
/// the server, and windows that take part in the focus protocol are told.
pub open spec fn focus_actions(xwm: XwmView, window: Option<u32>) -> Seq<ActionView> {
    if window is Some && xwm.xwindows.contains_key(window->0) {
        let id = window->0;
        let w = xwm.xwindows[id];
        let active = seq![window_property(xwm.root, xwm.atoms.net_active_window, seq![id])];
        let focused = if w.hint_input {
            active.push(ActionView::Plain(Action::SetInputFocus { window: id }))
        } else {
            active
        };
        let told = if w.protocols.contains(xwm.atoms.wm_take_focus) {
            focused.push(
                ActionView::Plain(
                    Action::SendClientMessage {
                        window: id,
                        message_type: xwm.atoms.wm_protocols,
                        data: (xwm.atoms.wm_take_focus, 0, 0, 0, 0),
                    },
                ),
            )
        } else {
            focused
        };
        told.push(ActionView::Plain(Action::Flush))
    } else {
        seq![ActionView::Plain(Action::RemoveInputFocus), ActionView::Plain(Action::Flush)]
    }
}

/// The serials that do not lead to `window`.
pub open spec fn serials_without(serials: Map<u64, u32>, window: u32) -> Map<u64, u32> {
    Map::new(|s: u64| serials.contains_key(s) && serials[s] != window, |s: u64| serials[s])
}

pub open spec fn created_actions(xwm: XwmView, created: CreatedWindow) -> Seq<ActionView> {
    if created.window == xwm.wm_id {
        Seq::empty()
    } else {
        seq![
            ActionView::Plain(Action::SelectPropertyChanges { window: created.window }),
            ActionView::Plain(Action::Flush),
            ActionView::Plain(Action::FetchWindow { created }),
        ]
    }
}

/// A new window, with the properties that were fetched for it.
pub open spec fn new_window(
    created: CreatedWindow,
    title: Option<String>,
    app_id: Option<String>,
    hint_input: Option<bool>,
    protocols: Seq<u32>,
) -> XWindowView {
    XWindowView {
        id: created.window,
        serial: None,
        title,
        app_id,
        x: created.x as u32,
        y: created.y as u32,
        width: created.width as u32,
        height: created.height as u32,
        states: Set::empty(),
        protocols: protocols.to_set(),
        hint_input: hint_input == Some(true),
        override_redirect: created.override_redirect,
        mapped: false,
    }
}

pub open spec fn map_requested(xwm: XwmView, window: u32) -> (XwmView, Seq<ActionView>) {
    if xwm.xwindows.contains_key(window) {
        (
            xwm.with_window(window, XWindowView { mapped: true, ..xwm.xwindows[window] }),
            seq![
                ActionView::Plain(Action::MapWindow { window }),
                ActionView::ReplaceProperty {
                    window,
                    property: xwm.atoms.wm_state,
                    kind: xwm.atoms.wm_state,
                    values: seq![1, 0],
                },
                ActionView::Plain(Action::Flush),
            ],
        )
    } else {
        (xwm, Seq::empty())
    }
}

pub open spec fn appended(root: u32, property: u32, window: u32) -> ActionView {
    ActionView::Plain(
        Action::AppendProperty { window: root, property, kind: ATOM_WINDOW, value: window },
    )
}

pub open spec fn map_notified(xwm: XwmView, window: u32) -> (XwmView, Seq<ActionView>) {
    if xwm.xwindows.contains_key(window) {
        let w = xwm.xwindows[window];
        let mapped = xwm.with_window(window, XWindowView { mapped: true, ..w });
        let raise = match w.serial {
            Some(serial) => seq![ActionView::Plain(Action::RaiseSurface { serial })],
            None => Seq::empty(),
        };
        if w.override_redirect {
            (mapped, raise)
        } else {
            (
                XwmView {
                    client_list: xwm.client_list.push(window),
                    client_list_stacking: xwm.client_list_stacking.push(window),
                    ..mapped
                },
                seq![
                    appended(xwm.root, xwm.atoms.net_client_list, window),
                    appended(xwm.root, xwm.atoms.net_client_list_stacking, window),
                    ActionView::Plain(Action::Flush),
                ] + raise,
            )
        }
    } else {
        (xwm, Seq::empty())
    }
}

/// Both client lists, without `window`.
pub open spec fn delisted(xwm: XwmView, window: u32) -> XwmView {
    XwmView {
        client_list: crate::compositor::window_list::without(xwm.client_list, window),
        client_list_stacking: crate::compositor::window_list::without(xwm.client_list_stacking, window),
        ..xwm
    }
}

/// Publishes both client lists.
pub open spec fn list_actions(xwm: XwmView) -> Seq<ActionView> {
    seq![
        window_property(xwm.root, xwm.atoms.net_client_list, xwm.client_list),
        window_property(xwm.root, xwm.atoms.net_client_list_stacking, xwm.client_list_stacking),
    ]
}

pub open spec fn unmap_notified(xwm: XwmView, window: u32) -> (XwmView, Seq<ActionView>) {
    if xwm.xwindows.contains_key(window) {
        let new = delisted(
            xwm.with_window(window, XWindowView { mapped: false, ..xwm.xwindows[window] }),
            window,
        );
        (new, list_actions(new))
    } else {
        (xwm, Seq::empty())
    }
}

pub open spec fn destroy_notified(xwm: XwmView, window: u32) -> (XwmView, Seq<ActionView>) {
    if xwm.xwindows.contains_key(window) {
        let new = XwmView {
            xwindows: xwm.xwindows.remove(window),
            serials: serials_without(xwm.serials, window),
            ..delisted(xwm, window)
        };
        (new, list_actions(new))
    } else {
        (xwm, Seq::empty())
    }
}

/// One step of a state change request: zero stands for no state.
pub open spec fn state_changed(states: Set<u32>, request: u32, state: u32) -> Set<u32> {
    if state == 0 {
        states
    } else if request == 0 {
        states.remove(state)
    } else if request == 1 {
        states.insert(state)
    } else if request == 2 {
        if states.contains(state) {
            states.remove(state)
        } else {
            states.insert(state)
        }
    } else {
        states
    }
}

/// How a state change request of up to two states is met.
pub open spec fn state_requested(
    old: XwmView,
    window: u32,
    data: (u32, u32, u32),
    new: XwmView,
    actions: Seq<ActionView>,
) -> bool {
    if old.xwindows.contains_key(window) {
        let w = old.xwindows[window];
        let states = state_changed(state_changed(w.states, data.0, data.1), data.0, data.2);
        &&& new == old.with_window(window, XWindowView { states, ..w })
        &&& if states == w.states {
            actions == Seq::<ActionView>::empty()
        } else {
            exists|values: Seq<u32>|
                #![trigger lists_states(values, states)]
                lists_states(values, states) && actions == seq![
                    ActionView::ReplaceProperty {
                        window,
                        property: old.atoms.net_wm_state,
                        kind: ATOM_ATOM,
                        values,
                    },
                ]
        }
    } else {
        new == old && actions == Seq::<ActionView>::empty()
    }
}

/// What a change of a property asks for: the properties that are followed are
/// fetched again.
pub open spec fn property_actions(xwm: XwmView, window: u32, atom: u32) -> Seq<ActionView> {
    if !xwm.xwindows.contains_key(window) {
        Seq::empty()
    } else if atom == xwm.atoms.net_wm_name {
        seq![ActionView::Plain(Action::FetchTitle { window })]
    } else if atom == ATOM_WM_CLASS {
        seq![ActionView::Plain(Action::FetchClass { window })]
    } else if atom == xwm.atoms.wm_hints {
        seq![ActionView::Plain(Action::FetchHints { window })]
    } else if atom == xwm.atoms.wm_protocols {
        seq![ActionView::Plain(Action::FetchProtocols { window })]
    } else {
        Seq::empty()
    }
}

/// The 64-bit number with the given halves.
pub open spec fn join_words(hi: u32, lo: u32) -> u64 {
    (hi * 0x1_0000_0000 + lo) as u64
}

/// Joins two halves to a 64-bit number.
pub fn make_u64(hi: u32, lo: u32) -> (value: u64)
    ensures
        value == join_words(hi, lo),
        value == hi * 0x1_0000_0000 + lo,
{
    assert(((hi as u64) << 32u64) | (lo as u64) == (hi as u64) * 0x1_0000_0000u64 + (lo as u64))
        by (bit_vector);
    ((hi as u64) << 32u64) | (lo as u64)
}

impl Xwm {
    fn map_request(&mut self, window: u32) -> (actions: Vec<Action>)
        requires
            old(self)@.wf(),
        ensures
            final(self)@.wf(),
            (final(self)@, action_views(actions@)) == map_requested(old(self)@, window),
    {
        let ghost before = self@;
        let mut actions: Vec<Action> = Vec::new();
        match self.xwindows.remove(&window) {
            Some(mut xwin) => {
                assert(before.xwindows.contains_key(window));
                actions.push(Action::MapWindow { window });
                let mut values: Vec<u32> = Vec::new();
                values.push(1);
                values.push(0);
                assert(values@ =~= seq![1, 0]);
                actions.push(
                    Action::ReplaceProperty {
                        window,
                        property: self.atoms.wm_state,
                        kind: self.atoms.wm_state,
                        values,
                    },
                );
                actions.push(Action::Flush);
                xwin.mapped = true;
                self.xwindows.insert(window, xwin);
            },
            None => {},
        }
        proof {
            assert(self@ =~= map_requested(before, window).0);
            assert(action_views(actions@) =~= map_requested(before, window).1);
        }
        actions
    }

    fn map_notify(&mut self, window: u32) -> (actions: Vec<Action>)
        requires
            old(self)@.wf(),
        ensures
            final(self)@.wf(),
            (final(self)@, action_views(actions@)) == map_notified(old(self)@, window),
    {
        let ghost before = self@;
        let mut actions: Vec<Action> = Vec::new();
        match self.xwindows.remove(&window) {
            Some(mut xwin) => {
                assert(before.xwindows.contains_key(window));
                xwin.mapped = true;
                if !xwin.override_redirect {
                    self.client_list.push(window);
                    self.client_list_stacking.push(window);
                    actions.push(
                        Action::AppendProperty {
                            window: self.root,
                            property: self.atoms.net_client_list,
                            kind: ATOM_WINDOW,
                            value: window,
                        },
                    );
                    actions.push(
                        Action::AppendProperty {
                            window: self.root,
                            property: self.atoms.net_client_list_stacking,
                            kind: ATOM_WINDOW,
                            value: window,
                        },
                    );
                    actions.push(Action::Flush);
                }
                if let Some(serial) = xwin.serial {
                    actions.push(Action::RaiseSurface { serial });
                }
                self.xwindows.insert(window, xwin);
            },
            None => {},
        }
        proof {
            assert(self@ =~= map_notified(before, window).0);
            assert(action_views(actions@) =~= map_notified(before, window).1);
        }
        actions
    }

    fn publish_lists(&self) -> (actions: Vec<Action>)
        ensures
            action_views(actions@) == list_actions(self@),
    {
        let mut actions: Vec<Action> = Vec::new();
        actions.push(
            Action::ReplaceProperty {
                window: self.root,
                property: self.atoms.net_client_list,
                kind: ATOM_WINDOW,
                values: self.client_list.clone(),
            },
        );
        actions.push(
            Action::ReplaceProperty {
                window: self.root,
                property: self.atoms.net_client_list_stacking,
                kind: ATOM_WINDOW,
                values: self.client_list_stacking.clone(),
            },
        );
        assert(action_views(actions@) =~= list_actions(self@));
        actions
    }

    fn unmap_notify(&mut self, window: u32) -> (actions: Vec<Action>)
        requires
            old(self)@.wf(),
        ensures
            final(self)@.wf(),
            (final(self)@, action_views(actions@)) == unmap_notified(old(self)@, window),
    {
        let ghost before = self@;
        match self.xwindows.remove(&window) {
            Some(mut xwin) => {
                assert(before.xwindows.contains_key(window));
                xwin.mapped = false;
                let id: u32 = xwin.id;
                self.xwindows.insert(window, xwin);
                remove_window(&mut self.client_list, id);
                remove_window(&mut self.client_list_stacking, id);
                assert(self@ =~= unmap_notified(before, window).0);
                self.publish_lists()
            },
            None => {
                let actions: Vec<Action> = Vec::new();
                assert(self@ =~= before);
                assert(action_views(actions@) =~= Seq::empty());
                actions
            },
        }
    }

    fn forget_serials(&mut self, window: u32)
        ensures
            final(self)@ == (XwmView {
                serials: serials_without(old(self)@.serials, window),
                ..old(self)@
            }),
    {
        let ghost before = self.serials@;
        let mut kept: HashMap<u64, u32> = HashMap::new();
        for entry in entries: self.serials.iter()
            invariant
                before == self.serials@,
                entries.seq() == vstd::std_specs::iter::IteratorSpec::remaining(
                    &self.serials.iter(),
                ),
                forall|s: u64| #[trigger]
                    kept@.contains_key(s) ==> before.contains_key(s) && before[s] != window
                        && kept@[s] == before[s],
                forall|i: int|
                    0 <= i < entries.index() && *(#[trigger] entries.seq()[i]).1 != window
                        ==> kept@.contains_key(*entries.seq()[i].0),
        {
            if *entry.1 != window {
                kept.insert(*entry.0, *entry.1);
            }
        }
        proof {
            let all = vstd::std_specs::iter::IteratorSpec::remaining(&self.serials.iter());
            assert forall|s: u64| before.contains_key(s) && before[s] != window implies
                kept@.contains_key(s) by {
                assert(all.contains((&s, &before[s])));
                let i = all.index_of((&s, &before[s]));
                assert(*all[i].1 != window);
            }
            assert(kept@ =~= serials_without(before, window));
        }
        self.serials = kept;
    }

    fn destroy_notify(&mut self, window: u32) -> (actions: Vec<Action>)
        requires
            old(self)@.wf(),
        ensures
            final(self)@.wf(),
            (final(self)@, action_views(actions@)) == destroy_notified(old(self)@, window),
    {
        let ghost before = self@;
        match self.xwindows.remove(&window) {
            Some(xwin) => {
                assert(before.xwindows.contains_key(window));
                remove_window(&mut self.client_list, xwin.id);
                remove_window(&mut self.client_list_stacking, xwin.id);
                self.forget_serials(xwin.id);
                assert(self@ =~= destroy_notified(before, window).0);
                self.publish_lists()
            },
            None => {
                let actions: Vec<Action> = Vec::new();
                assert(self@ =~= before);
                assert(action_views(actions@) =~= Seq::empty());
                actions
            },
        }
    }

    fn change_state(states: &mut AtomSet, request: u32, state: u32)
        ensures
            final(states)@ == state_changed(old(states)@, request, state),
    {
        if state == 0 {
        } else if request == 0 {
            states.remove(state);
        } else if request == 1 {
            states.insert(state);
        } else if request == 2 {
            if states.contains(state) {
                states.remove(state);
            } else {
                states.insert(state);
            }
        }
    }

    fn request_states(&mut self, window: u32, data: (u32, u32, u32)) -> (actions: Vec<Action>)
        requires
            old(self)@.wf(),
        ensures
            final(self)@.wf(),
            state_requested(old(self)@, window, data, final(self)@, action_views(actions@)),
    {
        let ghost before = self@;
        let mut actions: Vec<Action> = Vec::new();
        match self.xwindows.remove(&window) {
            Some(mut xwin) => {
                assert(before.xwindows.contains_key(window));
                let old_states = xwin.states.duplicate();
                Self::change_state(&mut xwin.states, data.0, data.1);
                Self::change_state(&mut xwin.states, data.0, data.2);
                let ghost after = xwin.states@;
                let ghost w = before.xwindows[window];
                if !xwin.states.same_as(&old_states) {
                    let values = xwin.states.to_vec();
                    assert(lists_states(values@, after));
                    actions.push(
                        Action::ReplaceProperty {
                            window: xwin.id,
                            property: self.atoms.net_wm_state,
                            kind: ATOM_ATOM,
                            values,
                        },
                    );
                    assert(action_views(actions@) =~= seq![
                        ActionView::ReplaceProperty {
                            window,
                            property: before.atoms.net_wm_state,
                            kind: ATOM_ATOM,
                            values: values@,
                        },
                    ]);
                } else {
                    assert(action_views(actions@) =~= Seq::empty());
                }
                self.xwindows.insert(window, xwin);
                assert(self@ =~= before.with_window(window, XWindowView { states: after, ..w }));
            },
            None => {
                assert(self@ =~= before);
                assert(action_views(actions@) =~= Seq::empty());
            },
        }
        actions
    }

    fn property_notify(&self, window: u32, atom: u32) -> (actions: Vec<Action>)
        ensures
            action_views(actions@) == property_actions(self@, window, atom),
    {
        let mut actions: Vec<Action> = Vec::new();
        if self.xwindows.contains_key(&window) {
            if atom == self.atoms.net_wm_name {
                actions.push(Action::FetchTitle { window });
            } else if atom == ATOM_WM_CLASS {
                actions.push(Action::FetchClass { window });
            } else if atom == self.atoms.wm_hints {
                actions.push(Action::FetchHints { window });
            } else if atom == self.atoms.wm_protocols {
                actions.push(Action::FetchProtocols { window });
            }
        }
        assert(action_views(actions@) =~= property_actions(self@, window, atom));
        actions
    }
}

impl StateView {
    /// Windows are filed under their ids.
    pub open spec fn wf(self) -> bool {
        self.xwm.wf()
    }

    /// A surface that was filed under a serial still exists.
    pub open spec fn has_surface_of(self, serial: u64) -> bool {
        self.lookup.contains_key(serial) ==> self.surfaces.contains_key(self.lookup[serial])
    }

    /// An event can be handled: if it ties a mapped window to its surface, that
    /// surface exists.
    pub open spec fn can_handle(self, event: XEvent) -> bool {
        match event {
            XEvent::ClientMessage { window, message_type, data } => {
                message_type == self.xwm.atoms.wl_surface_serial && self.xwm.xwindows.contains_key(
                    window,
                ) && self.xwm.xwindows[window].mapped ==> self.has_surface_of(
                    join_words(data.1, data.0),
                )
            },
            _ => true,
        }
    }

    /// The surface that a serial leads to, if there is one.
    pub open spec fn surface_for_serial(self, serial: Option<u64>) -> Option<DefaultKey> {
        match serial {
            Some(s) if self.lookup.contains_key(s) && self.surfaces.contains_key(
                self.lookup[s],
            ) => Some(self.lookup[s]),
            _ => None,
        }
    }
}

/// Ties an X11 window to its surface, where both are known: the surface takes
/// the window's title and class, is placed anew, and is mapped if it already
/// has content.
pub open spec fn delayed_map(state: StateView, serial: u64) -> (StateView, Seq<ActionView>) {
    let id = state.xwm.window_for_serial(serial);
    if id is Some && state.lookup.contains_key(serial) {
        let window = id->0;
        let w = state.xwm.xwindows[window];
        let surface = state.lookup[serial];
        let surf = state.surfaces[surface];
        let placed = seq![ActionView::Plain(Action::ReconfigureSurface { surface, window })];
        (
            StateView {
                surfaces: state.surfaces.insert(
                    surface,
                    Surface { title: w.title, app_id: w.app_id, ..surf },
                ),
                ..state
            },
            match surf.content {
                Some(content) => placed.push(
                    ActionView::Plain(Action::MapSurface { surface, buffer: content.buffer }),
                ),
                None => placed,
            },
        )
    } else {
        (state, Seq::empty())
    }
}

/// The placement that a window asks for: the parts that it names, over what it
/// had.
pub open spec fn requested_window(
    w: XWindowView,
    x: i16,
    y: i16,
    width: u16,
    height: u16,
    mask: u16,
) -> XWindowView {
    XWindowView {
        x: if mask & CONFIG_X == CONFIG_X { x as u32 } else { w.x },
        y: if mask & CONFIG_Y == CONFIG_Y { y as u32 } else { w.y },
        width: if mask & CONFIG_WIDTH == CONFIG_WIDTH { width as u32 } else { w.width },
        height: if mask & CONFIG_HEIGHT == CONFIG_HEIGHT { height as u32 } else { w.height },
        ..w
    }
}

/// The configuration that grants a window what it asks for.
pub open spec fn synthetic_configuration(w: XWindowView) -> SurfaceConfiguration {
    SurfaceConfiguration {
        x: w.x,
        y: w.y,
        width: w.width,
        height: w.height,
        scale: PixelScale(1, 1),
        visibility: Visibility::Visible,
        fullscreen: false,
    }
}

/// How a configure request is met, once a serial of the window was picked. A
/// window with a surface gets the surface's configuration, if it has one; any
/// other window gets what it asks for.
pub open spec fn configure_requested(
    old: StateView,
    serial: Option<u64>,
    window: u32,
    requested: XWindowView,
    new: StateView,
    actions: Seq<ActionView>,
) -> bool {
    match old.surface_for_serial(serial) {
        Some(key) => match old.surfaces[key].configuration {
            Some(conf) => {
                &&& window_configured(old.xwm, window, conf, new.xwm, actions)
                &&& new.lookup == old.lookup
                &&& new.surfaces == old.surfaces.insert(
                    key,
                    Surface {
                        sent_configuration: Some(conf),
                        pending_configure: None,
                        ..old.surfaces[key]
                    },
                )
            },
            None => new == old && actions == Seq::<ActionView>::empty(),
        },
        None => {
            &&& new.lookup == old.lookup
            &&& new.surfaces == old.surfaces
            &&& if old.xwm.xwindows.contains_key(window) {
                window_configured(
                    old.xwm.with_window(window, requested),
                    window,
                    synthetic_configuration(requested),
                    new.xwm,
                    actions,
                )
            } else {
                new.xwm == old.xwm && actions == Seq::<ActionView>::empty()
            }
        },
    }
}

/// A change of the window manager alone.
pub open spec fn xwm_step(
    old: StateView,
    step: (XwmView, Seq<ActionView>),
    new: StateView,
    actions: Seq<ActionView>,
) -> bool {
    new == StateView { xwm: step.0, ..old } && actions == step.1
}

/// The window `id`, if it is known, changed to `w`.
pub open spec fn if_known(xwm: XwmView, id: u32, w: XWindowView) -> XwmView {
    if xwm.xwindows.contains_key(id) {
        xwm.with_window(id, w)
    } else {
        xwm
    }
}

/// What a client message does.
pub open spec fn client_message(
    old: StateView,
    window: u32,
    message_type: u32,
    data: (u32, u32, u32),
    new: StateView,
    actions: Seq<ActionView>,
) -> bool {
    let atoms = old.xwm.atoms;
    if message_type == atoms.wl_surface_serial {
        let serial = join_words(data.1, data.0);
        let w = old.xwm.xwindows[window];
        let tied = StateView {
            xwm: if_known(
                XwmView { serials: old.xwm.serials.insert(serial, window), ..old.xwm },
                window,
                XWindowView { serial: Some(serial), ..w },
            ),
            ..old
        };
        if old.xwm.xwindows.contains_key(window) && w.mapped {
            (new, actions) == delayed_map(tied, serial)
        } else {
            new == tied && actions == Seq::<ActionView>::empty()
        }
    } else if message_type == atoms.net_wm_state {
        &&& state_requested(old.xwm, window, data, new.xwm, actions)
        &&& new.lookup == old.lookup
        &&& new.surfaces == old.surfaces
    } else if message_type == atoms.net_active_window && old.xwm.xwindows.contains_key(window) {
        new == old && actions == seq![
            window_property(old.xwm.root, atoms.net_active_window, seq![window]),
        ]
    } else {
        new == old && actions == Seq::<ActionView>::empty()
    }
}

/// How the state and the requested actions follow from an event.
pub open spec fn transition(
    old: StateView,
    event: XEvent,
    new: StateView,
    actions: Seq<ActionView>,
) -> bool {
    let xwm = old.xwm;
    let none = Seq::<ActionView>::empty();
    match event {
        XEvent::CreateNotify { created } => new == old && actions == created_actions(xwm, created),
        XEvent::WindowFetched { created, title, app_id, hint_input, protocols } => xwm_step(
            old,
            (
                xwm.with_window(
                    created.window,
                    new_window(created, title, app_id, hint_input, protocols@),
                ),
                seq![ActionView::Plain(Action::Flush)],
            ),
            new,
            actions,
        ),
        XEvent::MapRequest { window } => xwm_step(old, map_requested(xwm, window), new, actions),
        XEvent::MapNotify { window } => xwm_step(old, map_notified(xwm, window), new, actions),
        XEvent::ConfigureRequest { window, x, y, width, height, value_mask } => exists|
            serial: Option<u64>,
        |
            #![trigger serial_of_window(xwm.serials, window, serial)]
            serial_of_window(xwm.serials, window, serial) && configure_requested(
                old,
                serial,
                window,
                requested_window(xwm.xwindows[window], x, y, width, height, value_mask),
                new,
                actions,
            ),
        XEvent::ConfigureNotify { window, x, y, width, height, override_redirect } => {
            let w = xwm.xwindows[window];
            let moved = XWindowView {
                x: x as u32,
                y: y as u32,
                width: width as u32,
                height: height as u32,
                override_redirect,
                ..w
            };
            xwm_step(
                old,
                (
                    if_known(xwm, window, moved),
                    if xwm.xwindows.contains_key(window) && old.surface_for_serial(
                        w.serial,
                    ) is Some {
                        seq![
                            ActionView::Plain(
                                Action::ReconfigureSurface {
                                    surface: old.surface_for_serial(w.serial)->0,
                                    window,
                                },
                            ),
                        ]
                    } else {
                        none
                    },
                ),
                new,
                actions,
            )
        },
        XEvent::UnmapNotify { window } => xwm_step(old, unmap_notified(xwm, window), new, actions),
        XEvent::DestroyNotify { window } => xwm_step(
            old,
            destroy_notified(xwm, window),
            new,
            actions,
        ),
        XEvent::ClientMessage { window, message_type, data } => client_message(
            old,
            window,
            message_type,
            data,
            new,
            actions,
        ),
        XEvent::PropertyNotify { window, atom } => new == old && actions == property_actions(
            xwm,
            window,
            atom,
        ),
        XEvent::TitleFetched { window, title } => xwm_step(
            old,
            (if_known(xwm, window, XWindowView { title, ..xwm.xwindows[window] }), none),
            new,
            actions,
        ),
        XEvent::ClassFetched { window, app_id } => xwm_step(
            old,
            (if_known(xwm, window, XWindowView { app_id, ..xwm.xwindows[window] }), none),
            new,
            actions,
        ),
        XEvent::HintsFetched { window, hint_input } => xwm_step(
            old,
            (
                if_known(
                    xwm,
                    window,
                    XWindowView { hint_input: hint_input == Some(true), ..xwm.xwindows[window] },
                ),
                none,
            ),
            new,
            actions,
        ),
        XEvent::Other => new == old && actions == none,
    }
}

fn hinted(hint_input: Option<bool>) -> (input: bool)
    ensures
        input == (hint_input == Some(true)),
{
    match hint_input {
        Some(input) => input,
        None => false,
    }
}

impl State {
    /// Ties an X11 window to a surface that was committed before the window
    /// announced its serial.
    pub fn delayed_map_xwin(&mut self, serial: u64) -> (actions: Vec<Action>)
        requires
            old(self).xwm is Some,
            old(self)@.wf(),
            old(self)@.xwm.window_for_serial(serial) is Some ==> old(self)@.has_surface_of(serial),
        ensures
            final(self).xwm is Some,
            final(self)@.wf(),
            (final(self)@, action_views(actions@)) == delayed_map(old(self)@, serial),
    {
        let mut actions: Vec<Action> = Vec::new();
        let ghost before = self@;
        let found = match &self.xwm {
            Some(xwm) => match xwm.xwindow_for_serial(serial) {
                Some(xwin) => Some((xwin.id, copy_text(&xwin.title), copy_text(&xwin.app_id))),
                None => None,
            },
            None => None,
        };
        if let Some((window, title, app_id)) = found {
            assert(before.xwm.xwindows.contains_key(window));
            if let Some(surface) = self.xwayland_surface_lookup.get(&serial) {
                let surface: DefaultKey = *surface;
                assert(before.lookup.contains_key(serial));
                if let Some(surf) = self.surfaces.get_mut(surface) {
                    surf.title = title;
                    surf.app_id = app_id;
                    actions.push(Action::ReconfigureSurface { surface, window });
                    if let Some(content) = surf.content {
                        actions.push(Action::MapSurface { surface, buffer: content.buffer });
                    }
                }
            }
        }
        proof {
            assert(self@ =~= delayed_map(before, serial).0);
            assert(action_views(actions@) =~= delayed_map(before, serial).1);
        }
        actions
    }
}

impl Xwm {
    fn window_fetched(
        &mut self,
        created: CreatedWindow,
        title: Option<String>,
        app_id: Option<String>,
        hint_input: Option<bool>,
        protocols: &Vec<u32>,
    ) -> (actions: Vec<Action>)
        requires
            old(self)@.wf(),
        ensures
            final(self)@.wf(),
            final(self)@ == old(self)@.with_window(
                created.window,
                new_window(created, title, app_id, hint_input, protocols@),
            ),
            action_views(actions@) == seq![ActionView::Plain(Action::Flush)],
    {
        let ghost before = self@;
        let xwin = XWindow {
            id: created.window,
            serial: None,
            title,
            app_id,
            x: created.x as u32,
            y: created.y as u32,
            width: created.width as u32,
            height: created.height as u32,
            states: AtomSet::empty(),
            protocols: AtomSet::from_list(protocols),
            hint_input: hinted(hint_input),
            override_redirect: created.override_redirect,
            mapped: false,
        };
        let ghost w = xwin@;
        self.xwindows.insert(created.window, xwin);
        let mut actions: Vec<Action> = Vec::new();
        actions.push(Action::Flush);
        proof {
            assert(w =~= new_window(created, title, app_id, hint_input, protocols@));
            assert(self@ =~= before.with_window(created.window, w));
            assert(action_views(actions@) =~= seq![ActionView::Plain(Action::Flush)]);
        }
        actions
    }

    fn set_title(&mut self, window: u32, title: Option<String>)
        requires
            old(self)@.wf(),
        ensures
            final(self)@.wf(),
            final(self)@ == if_known(
                old(self)@,
                window,
                XWindowView { title, ..old(self)@.xwindows[window] },
            ),
    {
        let ghost before = self@;
        if let Some(mut xwin) = self.xwindows.remove(&window) {
            assert(before.xwindows.contains_key(window));
            xwin.title = title;
            self.xwindows.insert(window, xwin);
        }
        assert(self@ =~= if_known(
            before,
            window,
            XWindowView { title, ..before.xwindows[window] },
        ));
    }

    fn set_class(&mut self, window: u32, app_id: Option<String>)
        requires
            old(self)@.wf(),
        ensures
            final(self)@.wf(),
            final(self)@ == if_known(
                old(self)@,
                window,
                XWindowView { app_id, ..old(self)@.xwindows[window] },
            ),
    {
        let ghost before = self@;
        if let Some(mut xwin) = self.xwindows.remove(&window) {
            assert(before.xwindows.contains_key(window));
            xwin.app_id = app_id;
            self.xwindows.insert(window, xwin);
        }
        assert(self@ =~= if_known(
            before,
            window,
            XWindowView { app_id, ..before.xwindows[window] },
        ));
    }

    fn set_hints(&mut self, window: u32, hint_input: Option<bool>)
        requires
            old(self)@.wf(),
        ensures
            final(self)@.wf(),
            final(self)@ == if_known(
                old(self)@,
                window,
                XWindowView {
                    hint_input: hint_input == Some(true),
                    ..old(self)@.xwindows[window]
                },
            ),
    {
        let ghost before = self@;
        if let Some(mut xwin) = self.xwindows.remove(&window) {
            assert(before.xwindows.contains_key(window));
            xwin.hint_input = hinted(hint_input);
            self.xwindows.insert(window, xwin);
        }
        assert(self@ =~= if_known(
            before,
            window,
            XWindowView { hint_input: hint_input == Some(true), ..before.xwindows[window] },
        ));
    }

    /// Grants a window the placement that it asks for.
    fn grant_configure(
        &mut self,
        window: u32,
        x: i16,
        y: i16,
        width: u16,
        height: u16,
        value_mask: u16,
    ) -> (actions: Vec<Action>)
        requires
            old(self)@.wf(),
        ensures
            final(self)@.wf(),
            ({
                let requested = requested_window(
                    old(self)@.xwindows[window],
                    x,
                    y,
                    width,
                    height,
                    value_mask,
                );
                if old(self)@.xwindows.contains_key(window) {
                    window_configured(
                        old(self)@.with_window(window, requested),
                        window,
                        synthetic_configuration(requested),
                        final(self)@,
                        action_views(actions@),
                    )
                } else {
                    final(self)@ == old(self)@ && action_views(actions@) == Seq::<
                        ActionView,
                    >::empty()
                }
            }),
    {
        let ghost before = self@;
        match self.xwindows.remove(&window) {
            Some(mut xwin) => {
                assert(before.xwindows.contains_key(window));
                if value_mask & CONFIG_X == CONFIG_X {
                    xwin.x = x as u32;
                }
                if value_mask & CONFIG_Y == CONFIG_Y {
                    xwin.y = y as u32;
                }
                if value_mask & CONFIG_WIDTH == CONFIG_WIDTH {
                    xwin.width = width as u32;
                }
                if value_mask & CONFIG_HEIGHT == CONFIG_HEIGHT {
                    xwin.height = height as u32;
                }
                let conf = SurfaceConfiguration {
                    x: xwin.x,
                    y: xwin.y,
                    width: xwin.width,
                    height: xwin.height,
                    scale: PixelScale::one(),
                    visibility: Visibility::Visible,
                    fullscreen: false,
                };
                let ghost requested = xwin@;
                self.xwindows.insert(window, xwin);
                assert(self@ =~= before.with_window(window, requested));
                self.configure_window(window, conf)
            },
            None => {
                let actions: Vec<Action> = Vec::new();
                assert(self@ =~= before);
                assert(action_views(actions@) =~= Seq::empty());
                actions
            },
        }
    }
}

impl State {
    fn configure_request(
        &mut self,
        window: u32,
        x: i16,
        y: i16,
        width: u16,
        height: u16,
        value_mask: u16,
    ) -> (actions: Vec<Action>)
        requires
            old(self).xwm is Some,
            old(self)@.wf(),
        ensures
            final(self).xwm is Some,
            final(self)@.wf(),
            transition(
                old(self)@,
                XEvent::ConfigureRequest { window, x, y, width, height, value_mask },
                final(self)@,
                action_views(actions@),
            ),
    {
        let ghost before = self@;
        let mut xwm = match self.xwm.take() {
            Some(xwm) => xwm,
            None => {
                return Vec::new();
            },
        };
        let serial: Option<u64> = xwm.serial_for_window(window);
        let ghost requested = requested_window(
            before.xwm.xwindows[window],
            x,
            y,
            width,
            height,
            value_mask,
        );
        let key: Option<DefaultKey> = match serial {
            Some(s) => match self.xwayland_surface_lookup.get(&s) {
                Some(key) => Some(*key),
                None => None,
            },
            None => None,
        };
        let conf: Option<Option<SurfaceConfiguration>> = match key {
            Some(key) => match self.surfaces.get_mut(key) {
                Some(surf) => match surf.configuration {
                    Some(conf) => {
                        surf.sent_configuration = Some(conf);
                        surf.pending_configure = None;
                        Some(Some(conf))
                    },
                    None => Some(None),
                },
                None => None,
            },
            None => None,
        };
        let actions = match conf {
            Some(Some(conf)) => xwm.configure_window(window, conf),
            Some(None) => Vec::new(),
            None => xwm.grant_configure(window, x, y, width, height, value_mask),
        };
        self.xwm = Some(xwm);
        proof {
            assert(serial_of_window(before.xwm.serials, window, serial));
            if conf == Some(None::<SurfaceConfiguration>) {
                assert(self@.surfaces =~= before.surfaces);
                assert(action_views(actions@) =~= Seq::empty());
            }
            assert(configure_requested(
                before,
                serial,
                window,
                requested,
                self@,
                action_views(actions@),
            ));
        }
        actions
    }

    fn configure_notify(
        &mut self,
        window: u32,
        x: i16,
        y: i16,
        width: u16,
        height: u16,
        override_redirect: bool,
    ) -> (actions: Vec<Action>)
        requires
            old(self).xwm is Some,
            old(self)@.wf(),
        ensures
            final(self).xwm is Some,
            final(self)@.wf(),
            transition(
                old(self)@,
                XEvent::ConfigureNotify { window, x, y, width, height, override_redirect },
                final(self)@,
                action_views(actions@),
            ),
    {
        let ghost before = self@;
        let mut actions: Vec<Action> = Vec::new();
        let mut xwm = match self.xwm.take() {
            Some(xwm) => xwm,
            None => {
                return Vec::new();
            },
        };
        if let Some(mut xwin) = xwm.xwindows.remove(&window) {
            assert(before.xwm.xwindows.contains_key(window));
            xwin.x = x as u32;
            xwin.y = y as u32;
            xwin.width = width as u32;
            xwin.height = height as u32;
            xwin.override_redirect = override_redirect;
            if let Some(serial) = xwin.serial {
                if let Some(surface) = self.xwayland_surface_lookup.get(&serial) {
                    if self.surfaces.get(*surface).is_some() {
                        actions.push(Action::ReconfigureSurface { surface: *surface, window });
                    }
                }
            }
            xwm.xwindows.insert(window, xwin);
        }
        self.xwm = Some(xwm);
        proof {
            let w = before.xwm.xwindows[window];
            let moved = XWindowView {
                x: x as u32,
                y: y as u32,
                width: width as u32,
                height: height as u32,
                override_redirect,
                ..w
            };
            assert(self@.xwm =~= if_known(before.xwm, window, moved));
            assert(self@ =~= StateView { xwm: if_known(before.xwm, window, moved), ..before });
            if before.xwm.xwindows.contains_key(window) && before.surface_for_serial(
                w.serial,
            ) is Some {
                assert(action_views(actions@) =~= seq![
                    ActionView::Plain(
                        Action::ReconfigureSurface {
                            surface: before.surface_for_serial(w.serial)->0,
                            window,
                        },
                    ),
                ]);
            } else {
                assert(action_views(actions@) =~= Seq::empty());
            }
        }
        actions
    }

    fn surface_serial(&mut self, window: u32, serial: u64) -> (actions: Vec<Action>)
        requires
            old(self).xwm is Some,
            old(self)@.wf(),
            old(self)@.xwm.xwindows.contains_key(window) && old(
                self,
            )@.xwm.xwindows[window].mapped ==> old(self)@.has_surface_of(serial),
        ensures
            final(self).xwm is Some,
            final(self)@.wf(),
            ({
                let xwm = old(self)@.xwm;
                let w = xwm.xwindows[window];
                let tied = StateView {
                    xwm: if_known(
                        XwmView { serials: xwm.serials.insert(serial, window), ..xwm },
                        window,
                        XWindowView { serial: Some(serial), ..w },
                    ),
                    ..old(self)@
                };
                if xwm.xwindows.contains_key(window) && w.mapped {
                    (final(self)@, action_views(actions@)) == delayed_map(tied, serial)
                } else {
                    final(self)@ == tied && action_views(actions@) == Seq::<ActionView>::empty()
                }
            }),
    {
        let ghost before = self@;
        let mut xwm = match self.xwm.take() {
            Some(xwm) => xwm,
            None => {
                return Vec::new();
            },
        };
        xwm.serials.insert(serial, window);
        let mut mapped = false;
        if let Some(mut xwin) = xwm.xwindows.remove(&window) {
            assert(before.xwm.xwindows.contains_key(window));
            xwin.serial = Some(serial);
            mapped = xwin.mapped;
            xwm.xwindows.insert(window, xwin);
        }
        self.xwm = Some(xwm);
        proof {
            let tied = if_known(
                XwmView { serials: before.xwm.serials.insert(serial, window), ..before.xwm },
                window,
                XWindowView { serial: Some(serial), ..before.xwm.xwindows[window] },
            );
            assert(self@.xwm =~= tied);
            assert(self@ =~= StateView { xwm: tied, ..before });
        }
        if mapped {
            self.delayed_map_xwin(serial)
        } else {
            let actions: Vec<Action> = Vec::new();
            assert(action_views(actions@) =~= Seq::empty());
            actions
        }
    }

    fn handle_client_message(
        &mut self,
        window: u32,
        message_type: u32,
        data: (u32, u32, u32),
    ) -> (actions: Vec<Action>)
        requires
            old(self).xwm is Some,
            old(self)@.wf(),
            old(self)@.can_handle(XEvent::ClientMessage { window, message_type, data }),
        ensures
            final(self).xwm is Some,
            final(self)@.wf(),
            client_message(
                old(self)@,
                window,
                message_type,
                data,
                final(self)@,
                action_views(actions@),
            ),
    {
        let ghost before = self@;
        let mut xwm = match self.xwm.take() {
            Some(xwm) => xwm,
            None => {
                return Vec::new();
            },
        };
        if message_type == xwm.atoms.wl_surface_serial {
            self.xwm = Some(xwm);
            self.surface_serial(window, make_u64(data.1, data.0))
        } else if message_type == xwm.atoms.net_wm_state {
            let actions = xwm.request_states(window, data);
            self.xwm = Some(xwm);
            assert(self@.lookup == before.lookup && self@.surfaces == before.surfaces);
            actions
        } else {
            let mut actions: Vec<Action> = Vec::new();
            if message_type == xwm.atoms.net_active_window {
                if let Some(target) = xwm.xwindows.get(&window) {
                    assert(before.xwm.xwindows.contains_key(window));
                    actions.push(
                        replace_window_list(xwm.root, xwm.atoms.net_active_window, target.id),
                    );
                    assert(action_views(actions@) =~= seq![
                        window_property(
                            before.xwm.root,
                            before.xwm.atoms.net_active_window,
                            seq![window],
                        ),
                    ]);
                } else {
                    assert(action_views(actions@) =~= Seq::empty());
                }
            } else {
                assert(action_views(actions@) =~= Seq::empty());
            }
            self.xwm = Some(xwm);
            assert(self@ =~= before);
            actions
        }
    }

    /// What an event changes, and what it asks for.
    pub fn handle_event(&mut self, event: XEvent) -> (actions: Vec<Action>)
        requires
            old(self).xwm is Some,
            old(self)@.wf(),
            old(self)@.can_handle(event),
        ensures
            final(self).xwm is Some,
            final(self)@.wf(),
            transition(old(self)@, event, final(self)@, action_views(actions@)),
    {
        match event {
            XEvent::ConfigureRequest { window, x, y, width, height, value_mask } => {
                return self.configure_request(window, x, y, width, height, value_mask);
            },
            XEvent::ConfigureNotify { window, x, y, width, height, override_redirect } => {
                return self.configure_notify(window, x, y, width, height, override_redirect);
            },
            XEvent::ClientMessage { window, message_type, data } => {
                return self.handle_client_message(window, message_type, data);
            },
            _ => {},
        }
        let ghost before = self@;
        let mut xwm = match self.xwm.take() {
            Some(xwm) => xwm,
            None => {
                return Vec::new();
            },
        };
        let mut actions: Vec<Action> = Vec::new();
        assert(action_views(actions@) =~= Seq::empty());
        match event {
            XEvent::CreateNotify { created } => {
                if created.window != xwm.wm_id {
                    actions.push(Action::SelectPropertyChanges { window: created.window });
                    actions.push(Action::Flush);
                    actions.push(Action::FetchWindow { created });
                }
                assert(action_views(actions@) =~= created_actions(before.xwm, created));
            },
            XEvent::WindowFetched { created, title, app_id, hint_input, protocols } => {
                actions = xwm.window_fetched(created, title, app_id, hint_input, &protocols);
            },
            XEvent::MapRequest { window } => {
                actions = xwm.map_request(window);
            },
            XEvent::MapNotify { window } => {
                actions = xwm.map_notify(window);
            },
            XEvent::UnmapNotify { window } => {
                actions = xwm.unmap_notify(window);
            },
            XEvent::DestroyNotify { window } => {
                actions = xwm.destroy_notify(window);
            },
            XEvent::PropertyNotify { window, atom } => {
                actions = xwm.property_notify(window, atom);
            },
            XEvent::TitleFetched { window, title } => {
                xwm.set_title(window, title);
            },
            XEvent::ClassFetched { window, app_id } => {
                xwm.set_class(window, app_id);
            },
            XEvent::HintsFetched { window, hint_input } => {
                xwm.set_hints(window, hint_input);
            },
            _ => {},
        }
        self.xwm = Some(xwm);
        assert(self@ =~= StateView { xwm: self@.xwm, ..before });
        actions
    }
}

/// Once a window is destroyed, neither client list names it and no serial
/// leads to it.
pub proof fn destroyed_window_is_forgotten(xwm: XwmView, window: u32)
    requires
        xwm.xwindows.contains_key(window),
    ensures
        ({
            let new = destroy_notified(xwm, window).0;
            &&& !new.xwindows.contains_key(window)
            &&& !new.client_list.contains(window)
            &&& !new.client_list_stacking.contains(window)
            &&& forall|s: u64| #[trigger] new.serials.contains_key(s) ==> new.serials[s] != window
        }),
{
    crate::compositor::window_list::lemma_without_absent(xwm.client_list, window);
    crate::compositor::window_list::lemma_without_absent(xwm.client_list_stacking, window);
}

/// A window that announces a serial is found by that serial from then on.
pub proof fn announced_serial_is_found(
    old: StateView,
    window: u32,
    data: (u32, u32, u32),
    new: StateView,
    actions: Seq<ActionView>,
)
    requires
        old.xwm.xwindows.contains_key(window),
        client_message(old, window, old.xwm.atoms.wl_surface_serial, data, new, actions),
    ensures
        new.xwm.window_for_serial(join_words(data.1, data.0)) == Some(window),
        new.xwm.xwindows[window].serial == Some(join_words(data.1, data.0)),
{
}

/// Windows that manage themselves are never put on a client list.
pub proof fn override_redirect_is_not_listed(xwm: XwmView, window: u32)
    requires
        xwm.xwindows.contains_key(window),
        xwm.xwindows[window].override_redirect,
    ensures
        map_notified(xwm, window).0.client_list == xwm.client_list,
        map_notified(xwm, window).0.client_list_stacking == xwm.client_list_stacking,
{
}

/// Asking twice to toggle one state changes nothing.
pub proof fn toggling_twice_is_identity(states: Set<u32>, state: u32)
    ensures
        state_changed(state_changed(states, 2, state), 2, state) == states,
{
    assert(state_changed(state_changed(states, 2, state), 2, state) =~= states);
}

/// The atoms that mark how a window is shown are different ones.
pub open spec fn marks_differ(atoms: Atoms) -> bool {
    &&& atoms.net_wm_state_hidden != atoms.net_wm_state_focused
    &&& atoms.net_wm_state_hidden != atoms.net_wm_state_fullscreen
    &&& atoms.net_wm_state_focused != atoms.net_wm_state_fullscreen
}

/// A window that is configured is marked as focused exactly if it is active,
/// as hidden exactly if it is occluded, and as fullscreen exactly if it is to
/// fill the screen. Its other states stay, and so do all other windows.
pub proof fn configured_window_is_marked(
    old: XwmView,
    window: u32,
    conf: SurfaceConfiguration,
    new: XwmView,
    actions: Seq<ActionView>,
    other: u32,
)
    requires
        old.xwindows.contains_key(window),
        marks_differ(old.atoms),
        window_configured(old, window, conf, new, actions),
    ensures
        ({
            let states = new.xwindows[window].states;
            &&& states.contains(old.atoms.net_wm_state_focused) <==> conf.visibility
                == Visibility::Active
            &&& states.contains(old.atoms.net_wm_state_hidden) <==> conf.visibility
                == Visibility::Occluded
            &&& states.contains(old.atoms.net_wm_state_fullscreen) <==> conf.fullscreen
            &&& forall|atom: u32|
                atom != old.atoms.net_wm_state_focused && atom != old.atoms.net_wm_state_hidden
                    && atom != old.atoms.net_wm_state_fullscreen ==> (#[trigger] states.contains(
                    atom,
                ) <==> old.xwindows[window].states.contains(atom))
        }),
        other != window ==> new.xwindows.contains_key(other) == old.xwindows.contains_key(other),
        other != window ==> new.xwindows[other] == old.xwindows[other],
        new.xwindows.contains_key(window),
        new.client_list == old.client_list,
        new.client_list_stacking == old.client_list_stacking,
        new.serials == old.serials,
{
}

/// A window that is configured is moved to the rectangle of its configuration,
/// and told so. Its states are published if and only if they changed, all of
/// them and each once.
pub proof fn configured_window_is_placed(
    old: XwmView,
    window: u32,
    conf: SurfaceConfiguration,
    new: XwmView,
    actions: Seq<ActionView>,
)
    requires
        old.xwindows.contains_key(window),
        window_configured(old, window, conf, new, actions),
    ensures
        actions[0] matches ActionView::Plain(
            Action::ConfigureWindow { window: placed, x, y, width, height },
        ) && placed == window && x == conf.x as i32 && y == conf.y as i32 && width == conf.width
            && height == conf.height,
        actions[1] matches ActionView::Plain(
            Action::NotifyConfigure { window: told, x, y, width, height },
        ) && told == window && x == conf.x as i16 && y == conf.y as i16 && width
            == conf.width as u16 && height == conf.height as u16,
        actions.last() == ActionView::Plain(Action::Flush),
        new.xwindows[window].states == old.xwindows[window].states ==> actions.len() == 3,
        new.xwindows[window].states != old.xwindows[window].states ==> actions.len() == 4 && (
        actions[2] matches ActionView::ReplaceProperty { window: owner, property, kind, values }
            && owner == window && property == old.atoms.net_wm_state && kind == 4
            && values.no_duplicates() && values.to_set() == new.xwindows[window].states),
{
}

/// Configuring a window twice in the same way changes nothing the second time.
pub proof fn configuring_again_changes_nothing(
    first: XwmView,
    window: u32,
    conf: SurfaceConfiguration,
    second: XwmView,
    third: XwmView,
    actions: Seq<ActionView>,
    more: Seq<ActionView>,
)
    requires
        window_configured(first, window, conf, second, actions),
        window_configured(second, window, conf, third, more),
        marks_differ(first.atoms),
    ensures
        third == second,
{
    if first.xwindows.contains_key(window) {
        assert(second.xwindows[window].states =~= third.xwindows[window].states);
        assert(third.xwindows =~= second.xwindows);
    }
}

/// A window that asks to be mapped is mapped, and in the normal state from then
/// on. One that is not known is left alone.
pub proof fn map_request_is_met(
    old: StateView,
    window: u32,
    new: StateView,
    actions: Seq<ActionView>,
)
    requires
        transition(old, XEvent::MapRequest { window }, new, actions),
    ensures
        old.xwm.xwindows.contains_key(window) ==> {
            &&& new.xwm.xwindows[window].mapped
            &&& actions.contains(ActionView::Plain(Action::MapWindow { window }))
            &&& exists|i: int|
                0 <= i < actions.len() && (#[trigger] actions[i] matches
                    ActionView::ReplaceProperty { window: owner, property, values, .. } && owner
                    == window && property == old.xwm.atoms.wm_state && values == seq![1u32, 0u32])
        },
        !old.xwm.xwindows.contains_key(window) ==> new == old && actions.len() == 0,
        new.xwm.client_list == old.xwm.client_list,
{
    if old.xwm.xwindows.contains_key(window) {
        assert(actions[0] == ActionView::Plain(Action::MapWindow { window }));
        assert(actions[1] is ReplaceProperty);
    }
}

/// A window that was mapped is the last on both client lists, which are
/// published, and its surface is raised.
pub proof fn mapped_window_is_listed(
    old: StateView,
    window: u32,
    new: StateView,
    actions: Seq<ActionView>,
)
    requires
        transition(old, XEvent::MapNotify { window }, new, actions),
        old.xwm.xwindows.contains_key(window),
    ensures
        new.xwm.xwindows[window].mapped,
        !old.xwm.xwindows[window].override_redirect ==> {
            &&& new.xwm.client_list.len() == old.xwm.client_list.len() + 1
            &&& new.xwm.client_list.last() == window
            &&& new.xwm.client_list.drop_last() == old.xwm.client_list
            &&& new.xwm.client_list_stacking.len() == old.xwm.client_list_stacking.len() + 1
            &&& new.xwm.client_list_stacking.last() == window
            &&& new.xwm.client_list_stacking.drop_last() == old.xwm.client_list_stacking
            &&& publishes_window(actions, old.xwm.root, old.xwm.atoms.net_client_list, window)
            &&& publishes_window(
                actions,
                old.xwm.root,
                old.xwm.atoms.net_client_list_stacking,
                window,
            )
        },
        old.xwm.xwindows[window].override_redirect ==> new.xwm.client_list == old.xwm.client_list
            && new.xwm.client_list_stacking == old.xwm.client_list_stacking,
        match old.xwm.xwindows[window].serial {
            Some(serial) => actions.len() > 0 && actions.last() == ActionView::Plain(
                Action::RaiseSurface { serial },
            ),
            None => forall|i: int| 0 <= i < actions.len() ==> !raises_surface(#[trigger] actions[i]),
        },
{
    assert(new.xwm.client_list.drop_last() =~= old.xwm.client_list
        || old.xwm.xwindows[window].override_redirect);
    assert(new.xwm.client_list_stacking.drop_last() =~= old.xwm.client_list_stacking
        || old.xwm.xwindows[window].override_redirect);
    if !old.xwm.xwindows[window].override_redirect {
        assert(actions[0] matches ActionView::Plain(Action::AppendProperty { .. }));
        assert(actions[1] matches ActionView::Plain(Action::AppendProperty { .. }));
    }
}

pub open spec fn raises_surface(action: ActionView) -> bool {
    action matches ActionView::Plain(Action::RaiseSurface { .. })
}

/// A window is added to a list of windows on the root window.
pub open spec fn publishes_window(
    actions: Seq<ActionView>,
    root: u32,
    property: u32,
    window: u32,
) -> bool {
    exists|i: int|
        0 <= i < actions.len() && (#[trigger] actions[i] matches ActionView::Plain(
            Action::AppendProperty { window: owner, property: name, kind, value },
        ) && owner == root && name == property && kind == 33 && value == window)
}

/// A list of windows on the root window becomes this one.
pub open spec fn publishes_list(
    actions: Seq<ActionView>,
    root: u32,
    property: u32,
    list: Seq<u32>,
) -> bool {
    exists|i: int|
        0 <= i < actions.len() && (#[trigger] actions[i] matches ActionView::ReplaceProperty {
            window: owner,
            property: name,
            kind,
            values,
        } && owner == root && name == property && kind == 33 && values == list)
}

/// A window that was unmapped is on neither client list, which are published as
/// they are then; all other windows stay on them.
pub proof fn unmapped_window_is_not_listed(
    old: StateView,
    window: u32,
    new: StateView,
    actions: Seq<ActionView>,
    other: u32,
)
    requires
        transition(old, XEvent::UnmapNotify { window }, new, actions),
        old.xwm.xwindows.contains_key(window),
    ensures
        !new.xwm.xwindows[window].mapped,
        new.xwm.xwindows[window].serial == old.xwm.xwindows[window].serial,
        !new.xwm.client_list.contains(window),
        !new.xwm.client_list_stacking.contains(window),
        other != window ==> (new.xwm.client_list.contains(other)
            <==> old.xwm.client_list.contains(other)),
        other != window ==> (new.xwm.client_list_stacking.contains(other)
            <==> old.xwm.client_list_stacking.contains(other)),
        publishes_list(
            actions,
            old.xwm.root,
            old.xwm.atoms.net_client_list,
            new.xwm.client_list,
        ),
        publishes_list(
            actions,
            old.xwm.root,
            old.xwm.atoms.net_client_list_stacking,
            new.xwm.client_list_stacking,
        ),
{
    crate::compositor::window_list::lemma_without_absent(old.xwm.client_list, window);
    crate::compositor::window_list::lemma_without_absent(old.xwm.client_list_stacking, window);
    crate::compositor::window_list::lemma_without_keeps(old.xwm.client_list, window, other);
    crate::compositor::window_list::lemma_without_keeps(
        old.xwm.client_list_stacking,
        window,
        other,
    );
    assert(actions[0] is ReplaceProperty && actions[1] is ReplaceProperty);
}

/// Unmapping undoes mapping: the client lists are what they were.
pub proof fn unmapping_undoes_mapping(
    first: StateView,
    window: u32,
    second: StateView,
    third: StateView,
    mapping: Seq<ActionView>,
    unmapping: Seq<ActionView>,
)
    requires
        transition(first, XEvent::MapNotify { window }, second, mapping),
        transition(second, XEvent::UnmapNotify { window }, third, unmapping),
        !first.xwm.client_list.contains(window),
        !first.xwm.client_list_stacking.contains(window),
    ensures
        third.xwm.client_list == first.xwm.client_list,
        third.xwm.client_list_stacking == first.xwm.client_list_stacking,
        third.surfaces == first.surfaces,
        third.lookup == first.lookup,
{
    if first.xwm.xwindows.contains_key(window) {
        crate::compositor::window_list::lemma_without_pushed(first.xwm.client_list, window);
        crate::compositor::window_list::lemma_without_pushed(
            first.xwm.client_list_stacking,
            window,
        );
    }
}

/// A window that is destroyed is forgotten, and no other; the client lists are
/// published without it.
pub proof fn only_destroyed_window_is_forgotten(
    old: StateView,
    window: u32,
    new: StateView,
    actions: Seq<ActionView>,
    other: u32,
)
    requires
        transition(old, XEvent::DestroyNotify { window }, new, actions),
        old.xwm.xwindows.contains_key(window),
    ensures
        !new.xwm.xwindows.contains_key(window),
        !new.xwm.client_list.contains(window),
        !new.xwm.client_list_stacking.contains(window),
        forall|s: u64| #[trigger] new.xwm.serials.contains_key(s) ==> new.xwm.serials[s] != window,
        forall|s: u64| #[trigger]
            old.xwm.serials.contains_key(s) && old.xwm.serials[s] != window
                ==> new.xwm.serials.contains_key(s) && new.xwm.serials[s] == old.xwm.serials[s],
        other != window ==> new.xwm.xwindows.contains_key(other)
            == old.xwm.xwindows.contains_key(other) && new.xwm.xwindows[other]
            == old.xwm.xwindows[other],
        other != window ==> (new.xwm.client_list.contains(other)
            <==> old.xwm.client_list.contains(other)),
        publishes_list(
            actions,
            old.xwm.root,
            old.xwm.atoms.net_client_list,
            new.xwm.client_list,
        ),
        publishes_list(
            actions,
            old.xwm.root,
            old.xwm.atoms.net_client_list_stacking,
            new.xwm.client_list_stacking,
        ),
{
    crate::compositor::window_list::lemma_without_absent(old.xwm.client_list, window);
    crate::compositor::window_list::lemma_without_absent(old.xwm.client_list_stacking, window);
    crate::compositor::window_list::lemma_without_keeps(old.xwm.client_list, window, other);
    assert(actions[0] is ReplaceProperty && actions[1] is ReplaceProperty);
}

/// A window can have a state added, removed or toggled; any other state stays.
/// The states are published if and only if they changed.
pub proof fn state_request_is_met(
    old: StateView,
    window: u32,
    data: (u32, u32, u32),
    new: StateView,
    actions: Seq<ActionView>,
    atom: u32,
)
    requires
        transition(
            old,
            XEvent::ClientMessage { window, message_type: old.xwm.atoms.net_wm_state, data },
            new,
            actions,
        ),
        old.xwm.atoms.net_wm_state != old.xwm.atoms.wl_surface_serial,
        old.xwm.xwindows.contains_key(window),
        data.1 != data.2,
    ensures
        ({
            let before = old.xwm.xwindows[window].states;
            let after = new.xwm.xwindows[window].states;
            let named = atom != 0 && (atom == data.1 || atom == data.2);
            &&& named && data.0 == 0 ==> !after.contains(atom)
            &&& named && data.0 == 1 ==> after.contains(atom)
            &&& named && data.0 == 2 ==> (after.contains(atom) <==> !before.contains(atom))
            &&& !named || data.0 > 2 ==> (after.contains(atom) <==> before.contains(atom))
            &&& after == before ==> actions.len() == 0
            &&& after != before ==> actions.len() == 1 && (actions[0] matches
                ActionView::ReplaceProperty { window: owner, property, kind, values } && owner
                == window && property == old.xwm.atoms.net_wm_state && kind == 4
                && values.to_set() == after)
        }),
        new.surfaces == old.surfaces,
{
}

/// The active window is the one that asks for it, if it is known.
pub proof fn activation_is_published(
    old: StateView,
    window: u32,
    data: (u32, u32, u32),
    new: StateView,
    actions: Seq<ActionView>,
)
    requires
        transition(
            old,
            XEvent::ClientMessage { window, message_type: old.xwm.atoms.net_active_window, data },
            new,
            actions,
        ),
        old.xwm.atoms.net_active_window != old.xwm.atoms.wl_surface_serial,
        old.xwm.atoms.net_active_window != old.xwm.atoms.net_wm_state,
    ensures
        new == old,
        old.xwm.xwindows.contains_key(window) ==> publishes_list(
            actions,
            old.xwm.root,
            old.xwm.atoms.net_active_window,
            seq![window],
        ),
        !old.xwm.xwindows.contains_key(window) ==> actions.len() == 0,
{
    if old.xwm.xwindows.contains_key(window) {
        assert(actions[0] is ReplaceProperty);
    }
}

/// The focus goes to the window that is to have it: the server gives it to
/// windows that want that, and windows that take part in the focus protocol are
/// asked to take it. Without a window nothing has the focus.
pub proof fn focus_goes_to_window(xwm: XwmView, window: u32, other: u32)
    ensures
        ({
            let actions = focus_actions(xwm, Some(window));
            let known = xwm.xwindows.contains_key(window);
            let w = xwm.xwindows[window];
            &&& actions.contains(ActionView::Plain(Action::SetInputFocus { window })) <==> known
                && w.hint_input
            &&& other != window ==> !actions.contains(
                ActionView::Plain(Action::SetInputFocus { window: other }),
            )
            &&& known ==> publishes_list(
                actions,
                xwm.root,
                xwm.atoms.net_active_window,
                seq![window],
            )
            &&& (exists|i: int| 0 <= i < actions.len() && asks_to_take_focus(
                #[trigger] actions[i],
                xwm,
                window,
            )) <==> known && w.protocols.contains(xwm.atoms.wm_take_focus)
            &&& actions.contains(ActionView::Plain(Action::RemoveInputFocus)) <==> !known
            &&& actions.last() == ActionView::Plain(Action::Flush)
        }),
        focus_actions(xwm, None).contains(ActionView::Plain(Action::RemoveInputFocus)),
        !focus_actions(xwm, None).contains(
            ActionView::Plain(Action::SetInputFocus { window: other }),
        ),
{
    let actions = focus_actions(xwm, Some(window));
    let w = xwm.xwindows[window];
    assert(focus_actions(xwm, None)[0] == ActionView::Plain(Action::RemoveInputFocus));
    if xwm.xwindows.contains_key(window) {
        assert(actions[0] is ReplaceProperty);
        if w.hint_input {
            assert(actions[1] == ActionView::Plain(Action::SetInputFocus { window }));
        }
        if w.protocols.contains(xwm.atoms.wm_take_focus) {
            let i: int = if w.hint_input {
                2
            } else {
                1
            };
            assert(asks_to_take_focus(actions[i], xwm, window));
        }
    } else {
        assert(actions[0] == ActionView::Plain(Action::RemoveInputFocus));
    }
}

pub open spec fn asks_to_take_focus(action: ActionView, xwm: XwmView, window: u32) -> bool {
    action matches ActionView::Plain(
        Action::SendClientMessage { window: target, message_type, data },
    ) && target == window && message_type == xwm.atoms.wm_protocols && data.0
        == xwm.atoms.wm_take_focus
}

/// A window without a surface is placed where it asks to be: each part that it
/// names is as it asks, each other part as it was.
pub proof fn request_without_surface_is_granted(
    old: StateView,
    window: u32,
    x: i16,
    y: i16,
    width: u16,
    height: u16,
    value_mask: u16,
    new: StateView,
    actions: Seq<ActionView>,
)
    requires
        transition(
            old,
            XEvent::ConfigureRequest { window, x, y, width, height, value_mask },
            new,
            actions,
        ),
        old.xwm.xwindows.contains_key(window),
        forall|s: u64| #[trigger] old.xwm.serials.contains_key(s) ==> old.xwm.serials[s] != window,
    ensures
        ({
            let before = old.xwm.xwindows[window];
            let after = new.xwm.xwindows[window];
            &&& after.x == if value_mask & 1 == 1 { x as u32 } else { before.x }
            &&& after.y == if value_mask & 2 == 2 { y as u32 } else { before.y }
            &&& after.width == if value_mask & 4 == 4 { width as u32 } else { before.width }
            &&& after.height == if value_mask & 8 == 8 { height as u32 } else { before.height }
            &&& actions[0] matches ActionView::Plain(
                Action::ConfigureWindow {
                    window: placed,
                    x: at_x,
                    y: at_y,
                    width: w,
                    height: h,
                },
            ) && placed == window && at_x == after.x as i32 && at_y == after.y as i32 && w
                == after.width && h == after.height
            &&& after.mapped == before.mapped && after.serial == before.serial
        }),
        new.surfaces == old.surfaces,
{
}

/// A window with a surface is placed as its surface is configured, whatever it
/// asks for; if its surface has no configuration yet, nothing happens.
pub proof fn request_with_surface_is_overruled(
    old: StateView,
    serial: u64,
    window: u32,
    x: i16,
    y: i16,
    width: u16,
    height: u16,
    value_mask: u16,
    new: StateView,
    actions: Seq<ActionView>,
)
    requires
        transition(
            old,
            XEvent::ConfigureRequest { window, x, y, width, height, value_mask },
            new,
            actions,
        ),
        old.xwm.xwindows.contains_key(window),
        old.xwm.serials.contains_key(serial),
        forall|s: u64| #[trigger]
            old.xwm.serials.contains_key(s) && old.xwm.serials[s] == window <==> s == serial,
        old.lookup.contains_key(serial),
        old.surfaces.contains_key(old.lookup[serial]),
    ensures
        ({
            let key = old.lookup[serial];
            let before = old.xwm.xwindows[window];
            let after = new.xwm.xwindows[window];
            match old.surfaces[key].configuration {
                Some(conf) => {
                    &&& actions[0] matches ActionView::Plain(
                        Action::ConfigureWindow {
                            window: placed,
                            x: at_x,
                            y: at_y,
                            width: w,
                            height: h,
                        },
                    ) && placed == window && at_x == conf.x as i32 && at_y == conf.y as i32 && w
                        == conf.width && h == conf.height
                    &&& new.surfaces[key].sent_configuration == Some(conf)
                    &&& new.surfaces[key].pending_configure is None
                },
                None => new == old && actions.len() == 0,
            }
        }),
        new.xwm.xwindows[window].x == old.xwm.xwindows[window].x,
        new.xwm.xwindows[window].width == old.xwm.xwindows[window].width,
{
    assert(old.xwm.serials.contains_key(serial) && old.xwm.serials[serial] == window);
}

/// What the X server says of a window's place is remembered, and its surface is
/// placed anew.
pub proof fn configured_place_is_remembered(
    old: StateView,
    window: u32,
    x: i16,
    y: i16,
    width: u16,
    height: u16,
    override_redirect: bool,
    new: StateView,
    actions: Seq<ActionView>,
)
    requires
        transition(
            old,
            XEvent::ConfigureNotify { window, x, y, width, height, override_redirect },
            new,
            actions,
        ),
        old.xwm.xwindows.contains_key(window),
    ensures
        ({
            let before = old.xwm.xwindows[window];
            let after = new.xwm.xwindows[window];
            &&& after.x == x as u32 && after.y == y as u32
            &&& after.width == width as u32 && after.height == height as u32
            &&& after.override_redirect == override_redirect
            &&& after.mapped == before.mapped && after.states == before.states
            &&& before.serial is Some && old.lookup.contains_key(before.serial->0)
                && old.surfaces.contains_key(old.lookup[before.serial->0]) ==> actions.len() == 1
                && actions[0] == ActionView::Plain(
                Action::ReconfigureSurface { surface: old.lookup[before.serial->0], window },
            )
            &&& before.serial is None ==> actions.len() == 0
        }),
{
}

/// A surface takes the title and the class of the window with its serial, is
/// placed anew, and is mapped if it has something to show.
pub proof fn surface_is_tied_to_window(
    old: StateView,
    serial: u64,
    new: StateView,
    actions: Seq<ActionView>,
)
    requires
        (new, actions) == delayed_map(old, serial),
        old.xwm.serials.contains_key(serial),
        old.xwm.xwindows.contains_key(old.xwm.serials[serial]),
        old.lookup.contains_key(serial),
    ensures
        ({
            let window = old.xwm.serials[serial];
            let key = old.lookup[serial];
            &&& new.surfaces[key].title == old.xwm.xwindows[window].title
            &&& new.surfaces[key].app_id == old.xwm.xwindows[window].app_id
            &&& new.surfaces[key].content == old.surfaces[key].content
            &&& new.surfaces[key].configuration == old.surfaces[key].configuration
            &&& actions[0] == ActionView::Plain(
                Action::ReconfigureSurface { surface: key, window },
            )
            &&& match old.surfaces[key].content {
                Some(content) => actions.len() == 2 && actions[1] == ActionView::Plain(
                    Action::MapSurface { surface: key, buffer: content.buffer },
                ),
                None => actions.len() == 1,
            }
        }),
        new.xwm == old.xwm,
        new.lookup == old.lookup,
{
}

/// What was fetched of a window is what it has from then on.
pub proof fn fetched_properties_are_kept(
    old: StateView,
    window: u32,
    title: Option<String>,
    app_id: Option<String>,
    hint_input: Option<bool>,
    titled: StateView,
    classed: StateView,
    hinted: StateView,
    actions: Seq<ActionView>,
)
    requires
        old.xwm.xwindows.contains_key(window),
        transition(old, XEvent::TitleFetched { window, title }, titled, actions),
        transition(old, XEvent::ClassFetched { window, app_id }, classed, actions),
        transition(old, XEvent::HintsFetched { window, hint_input }, hinted, actions),
    ensures
        titled.xwm.xwindows[window].title == title,
        titled.xwm.xwindows[window].app_id == old.xwm.xwindows[window].app_id,
        classed.xwm.xwindows[window].app_id == app_id,
        classed.xwm.xwindows[window].title == old.xwm.xwindows[window].title,
        hinted.xwm.xwindows[window].hint_input <==> hint_input == Some(true),
        actions.len() == 0,
{
}

/// A new window is known with the place and the properties that it came with,
/// and is not mapped yet.
pub proof fn fetched_window_is_known(
    old: StateView,
    created: CreatedWindow,
    title: Option<String>,
    app_id: Option<String>,
    hint_input: Option<bool>,
    protocols: Vec<u32>,
    new: StateView,
    actions: Seq<ActionView>,
    atom: u32,
)
    requires
        transition(
            old,
            XEvent::WindowFetched { created, title, app_id, hint_input, protocols },
            new,
            actions,
        ),
    ensures
        ({
            let w = new.xwm.xwindows[created.window];
            &&& new.xwm.xwindows.contains_key(created.window)
            &&& w.id == created.window
            &&& w.x == created.x as u32 && w.y == created.y as u32
            &&& w.width == created.width && w.height == created.height
            &&& w.title == title && w.app_id == app_id
            &&& w.hint_input <==> hint_input == Some(true)
            &&& w.override_redirect == created.override_redirect
            &&& !w.mapped && w.serial is None
            &&& !w.states.contains(atom)
            &&& w.protocols.contains(atom) <==> protocols@.contains(atom)
        }),
        new.xwm.client_list == old.xwm.client_list,
{
}

/// A new window is looked into, unless it is the window manager's own.
pub proof fn created_window_is_fetched(
    old: StateView,
    created: CreatedWindow,
    new: StateView,
    actions: Seq<ActionView>,
)
    requires
        transition(old, XEvent::CreateNotify { created }, new, actions),
    ensures
        new == old,
        created.window == old.xwm.wm_id ==> actions.len() == 0,
        created.window != old.xwm.wm_id ==> actions.len() > 0 && actions[0] == ActionView::Plain(
            Action::SelectPropertyChanges { window: created.window },
        ) && actions.last() == ActionView::Plain(Action::FetchWindow { created }),
{
}

/// A property is fetched again when it changes, of the window that it changed
/// of.
pub proof fn changed_property_is_fetched(
    old: StateView,
    window: u32,
    atom: u32,
    new: StateView,
    actions: Seq<ActionView>,
)
    requires
        transition(old, XEvent::PropertyNotify { window, atom }, new, actions),
        old.xwm.xwindows.contains_key(window),
        old.xwm.atoms.net_wm_name != 67,
        old.xwm.atoms.wm_hints != 67,
        old.xwm.atoms.wm_protocols != 67,
        old.xwm.atoms.net_wm_name != old.xwm.atoms.wm_hints,
        old.xwm.atoms.net_wm_name != old.xwm.atoms.wm_protocols,
        old.xwm.atoms.wm_hints != old.xwm.atoms.wm_protocols,
    ensures
        new == old,
        actions.len() <= 1,
        actions.len() == 1 && actions[0] == ActionView::Plain(Action::FetchTitle { window })
            <==> atom == old.xwm.atoms.net_wm_name,
        actions.len() == 1 && actions[0] == ActionView::Plain(Action::FetchClass { window })
            <==> atom == 67,
        actions.len() == 1 && actions[0] == ActionView::Plain(Action::FetchHints { window })
            <==> atom == old.xwm.atoms.wm_hints,
        actions.len() == 1 && actions[0] == ActionView::Plain(Action::FetchProtocols { window })
            <==> atom == old.xwm.atoms.wm_protocols,
{
}

/// The halves of a serial can be told apart.
pub proof fn joined_words_are_distinct(hi: u32, lo: u32, other_hi: u32, other_lo: u32)
    ensures
        join_words(hi, lo) == join_words(other_hi, other_lo) <==> hi == other_hi && lo == other_lo,
        join_words(hi, lo) as int / 0x1_0000_0000 == hi,
        join_words(hi, lo) as int % 0x1_0000_0000 == lo,
{
}

/// The window manager says what it supports: showing windows as hidden, focused
/// or filling the screen, and listing them.
pub proof fn startup_announces_support(atoms: Atoms, wm_id: u32, root: u32)
    ensures
        ({
            let actions = startup_actions(atoms, wm_id, root);
            &&& actions.contains(ActionView::Plain(Action::RedirectSubwindows { root }))
            &&& actions.contains(
                ActionView::Plain(Action::SetSelectionOwner { window: wm_id, selection: atoms.wm_s0 }),
            )
            &&& publishes_list(actions, root, atoms.net_supporting_wm_check, seq![wm_id])
            &&& publishes_list(actions, wm_id, atoms.net_supporting_wm_check, seq![wm_id])
            &&& publishes_list(actions, root, atoms.net_active_window, seq![0])
            &&& exists|i: int|
                0 <= i < actions.len() && (#[trigger] actions[i] matches
                    ActionView::ReplaceProperty { window: owner, property, kind, values } && owner
                    == root && property == atoms.net_supported && kind == 4 && values.contains(
                    atoms.net_wm_state_hidden,
                ) && values.contains(atoms.net_wm_state_focused) && values.contains(
                    atoms.net_wm_state_fullscreen,
                ) && values.contains(atoms.net_client_list) && values.contains(
                    atoms.net_client_list_stacking,
                ) && values.contains(atoms.net_active_window))
            &&& actions.last() == ActionView::Plain(Action::Flush)
        }),
{
    let actions = startup_actions(atoms, wm_id, root);
    assert(actions[4] == ActionView::Plain(Action::RedirectSubwindows { root }));
    assert(actions[2] == ActionView::Plain(
        Action::SetSelectionOwner { window: wm_id, selection: atoms.wm_s0 },
    ));
    assert(actions[5] is ReplaceProperty && actions[6] is ReplaceProperty);
    assert(actions[7] is ReplaceProperty && actions[8] is ReplaceProperty);
    let values = supported_atoms(atoms);
    assert(values[3] == atoms.net_wm_state_hidden);
    assert(values[4] == atoms.net_wm_state_fullscreen);
    assert(values[6] == atoms.net_wm_state_focused);
    assert(values[7] == atoms.net_active_window);
    assert(values[9] == atoms.net_client_list);
    assert(values[10] == atoms.net_client_list_stacking);
}

/// A window that is granted what it asks for is visible where it wants to be, in
/// its own size, and never fills the screen.
pub proof fn granted_window_is_visible(w: XWindowView)
    ensures
        ({
            let granted = synthetic_configuration(w);
            &&& granted.x == w.x && granted.y == w.y
            &&& granted.width == w.width && granted.height == w.height
            &&& granted.scale.0 == granted.scale.1
            &&& granted.scale.1 > 0
            &&& granted.visibility is Visible
            &&& !granted.fullscreen
        }),
{
}

/// A serial leads to the surface that was given it, as long as there is one.
pub proof fn serial_leads_to_its_surface(state: StateView, serial: u64, surface: DefaultKey)
    ensures
        state.surface_for_serial(Some(serial)) == Some(surface) <==> state.lookup.contains_pair(
            serial,
            surface,
        ) && state.surfaces.contains_key(surface),
        state.surface_for_serial(None) is None,
{
}

} // verus!
