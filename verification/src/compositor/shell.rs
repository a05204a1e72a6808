//! Requests of Wayland clients that change a surface or a buffer.

use vstd::prelude::*;
use slotmap::DefaultKey;
use crate::compositor::buffers::Buffer;
use crate::compositor::slots::MAX_SLOTS;
use crate::compositor::state::Compositor;
use crate::compositor::surface::{Surface, SurfaceRole, SyncobjTimelinePoint};
use crate::compositor::xwm::{make_u64, State};

verus! {

/// What a client did wrong.
#[derive(Debug, Clone, Copy, PartialEq, Eq, Structural)]
pub enum ShellError {
    /// The surface already has a buffer attached.
    AlreadyConstructed,
    /// The client acknowledged what it was not sent.
    InvalidSerial,
    /// The role created from an object must be destroyed first.
    DefunctRoleObject,
    /// There is a fractional scale object for the surface.
    FractionalScaleExists,
    /// There is a synchronisation object for the surface.
    SurfaceExists,
}

impl State {
    /// The state but for one surface is kept.
    pub open spec fn changes_only(self, before: State, key: DefaultKey, surface: Surface) -> bool {
        &&& self.xwm == before.xwm
        &&& self.xwayland_surface_lookup == before.xwayland_surface_lookup
        &&& self.surfaces@ == before.surfaces@.insert(key, surface)
    }

    /// A client made a surface.
    pub fn create_surface(&mut self, client: u32) -> (key: DefaultKey)
        requires
            old(self).surfaces@.dom().len() < MAX_SLOTS,
        ensures
            !old(self).surfaces@.contains_key(key),
            final(self).xwm == old(self).xwm,
            final(self).xwayland_surface_lookup == old(self).xwayland_surface_lookup,
            final(self).surfaces@ == old(self).surfaces@.insert(key, new_surface(client)),
    {
        self.surfaces.insert(
            Surface {
                client,
                role: None,
                title: None,
                app_id: None,
                configuration: None,
                sent_configuration: None,
                pending_configure: None,
                content: None,
                frame_callback: None,
                wp_fractional_scale: None,
                wp_syncobj_surface: None,
                pending_acquire_point: None,
                pending_release_point: None,
            },
        )
    }

    /// The surface under a key, if there is one.
    pub fn surface(&self, key: DefaultKey) -> (found: Option<&Surface>)
        ensures
            match found {
                Some(surface) => self.surfaces@.contains_key(key) && *surface
                    == self.surfaces@[key],
                None => !self.surfaces@.contains_key(key),
            },
    {
        self.surfaces.get(key)
    }

    /// Lends the surface under a key, if there is one.
    pub fn surface_mut(&mut self, key: DefaultKey) -> (found: Option<&mut Surface>)
        ensures
            final(self).xwm == old(self).xwm,
            final(self).xwayland_surface_lookup == old(self).xwayland_surface_lookup,
            match found {
                Some(surface) => old(self).surfaces@.contains_key(key) && *surface == old(
                    self).surfaces@[key] && final(self).surfaces@ == old(self).surfaces@.insert(
                    key,
                    *final(surface),
                ),
                None => !old(self).surfaces@.contains_key(key) && final(self).surfaces@ == old(
                    self).surfaces@,
            },
    {
        self.surfaces.get_mut(key)
    }

    /// A shell surface can be made of a surface that shows nothing yet.
    pub fn get_xdg_surface(&self, key: DefaultKey) -> (result: Result<(), ShellError>)
        requires
            self.surfaces@.contains_key(key),
        ensures
            result == if self.surfaces@[key].content is Some {
                Err::<(), ShellError>(ShellError::AlreadyConstructed)
            } else {
                Ok(())
            },
    {
        if let Some(surface) = self.surfaces.get(key) {
            if surface.content.is_some() {
                return Err(ShellError::AlreadyConstructed);
            }
        }
        Ok(())
    }

    /// A client acknowledges a configure event. Events before the last may be
    /// acknowledged too, and change nothing.
    pub fn ack_configure(&mut self, key: DefaultKey, serial: u32) -> (result: Result<(), ShellError>)
        requires
            old(self).surfaces@.contains_key(key),
        ensures
            result == acknowledged(old(self).surfaces@[key], serial).1,
            final(self).changes_only(
                *old(self),
                key,
                acknowledged(old(self).surfaces@[key], serial).0,
            ),
    {
        if let Some(surface) = self.surfaces.get_mut(key) {
            match surface.pending_configure {
                Some(last) => {
                    if serial == last {
                        surface.pending_configure = None;
                        return Ok(());
                    } else if serial < last {
                        return Ok(());
                    }
                },
                None => {},
            }
        }
        Err(ShellError::InvalidSerial)
    }

    /// A shell surface was destroyed: it may not have a role any more.
    pub fn xdg_surface_destroyed(&self, key: DefaultKey, object: u32) -> (result: Result<
        (),
        ShellError,
    >)
        ensures
            result == if self.surfaces@.contains_key(key) && is_base_of_role(
                self.surfaces@[key],
                object,
            ) {
                Err::<(), ShellError>(ShellError::DefunctRoleObject)
            } else {
                Ok(())
            },
    {
        if let Some(surface) = self.surfaces.get(key) {
            if let Some(SurfaceRole::XdgToplevel { xdg_surface, .. }) = &surface.role {
                if *xdg_surface == object {
                    return Err(ShellError::DefunctRoleObject);
                }
            }
        }
        Ok(())
    }

    pub fn set_title(&mut self, key: DefaultKey, title: String)
        requires
            old(self).surfaces@.contains_key(key),
        ensures
            final(self).changes_only(
                *old(self),
                key,
                titled(old(self).surfaces@[key], title),
            ),
    {
        if let Some(surface) = self.surfaces.get_mut(key) {
            surface.title = Some(title);
        }
    }

    pub fn set_app_id(&mut self, key: DefaultKey, app_id: String)
        requires
            old(self).surfaces@.contains_key(key),
        ensures
            final(self).changes_only(
                *old(self),
                key,
                named(old(self).surfaces@[key], app_id),
            ),
    {
        if let Some(surface) = self.surfaces.get_mut(key) {
            surface.app_id = Some(app_id);
        }
    }

    /// A toplevel was destroyed. If it was the role of the surface, the
    /// surface has none any more. Returns whether it is to be unmapped.
    pub fn toplevel_destroyed(&mut self, key: DefaultKey, object: u32) -> (unmap: bool)
        ensures
            unmap == (old(self).surfaces@.contains_key(key) && is_toplevel(
                old(self).surfaces@[key],
                object,
            )),
            unmap ==> final(self).changes_only(
                *old(self),
                key,
                without_role(old(self).surfaces@[key]),
            ),
            !unmap ==> *final(self) == *old(self),
    {
        let is_role = match self.surfaces.get(key) {
            Some(surface) => match &surface.role {
                Some(SurfaceRole::XdgToplevel { xdg_toplevel, .. }) => *xdg_toplevel == object,
                _ => false,
            },
            None => false,
        };
        if is_role {
            if let Some(surface) = self.surfaces.get_mut(key) {
                surface.role = None;
            }
        }
        is_role
    }

    /// A client asks for the scale of a surface. It gets a new object though it
    /// should not have asked twice.
    pub fn get_fractional_scale(&mut self, key: DefaultKey, object: u32) -> (result: Result<
        (),
        ShellError,
    >)
        requires
            old(self).surfaces@.contains_key(key),
        ensures
            result == scaled(old(self).surfaces@[key], object).1,
            final(self).changes_only(
                *old(self),
                key,
                scaled(old(self).surfaces@[key], object).0,
            ),
    {
        let mut result: Result<(), ShellError> = Ok(());
        if let Some(surface) = self.surfaces.get_mut(key) {
            if surface.wp_fractional_scale.is_some() {
                result = Err(ShellError::FractionalScaleExists);
            }
            surface.wp_fractional_scale = Some(object);
        }
        result
    }

    /// A client asks to synchronise a surface explicitly, which it can do once.
    pub fn get_syncobj_surface(&mut self, key: DefaultKey, object: u32) -> (result: Result<
        (),
        ShellError,
    >)
        requires
            old(self).surfaces@.contains_key(key),
        ensures
            result == synchronised(old(self).surfaces@[key], object).1,
            final(self).changes_only(
                *old(self),
                key,
                synchronised(old(self).surfaces@[key], object).0,
            ),
    {
        if let Some(surface) = self.surfaces.get_mut(key) {
            if surface.wp_syncobj_surface.is_some() {
                return Err(ShellError::SurfaceExists);
            }
            surface.wp_syncobj_surface = Some(object);
        }
        Ok(())
    }

    /// The client has drawn when the timeline reaches this point.
    pub fn set_acquire_point(
        &mut self,
        key: DefaultKey,
        timeline: u32,
        point_hi: u32,
        point_lo: u32,
    )
        requires
            old(self).surfaces@.contains_key(key),
        ensures
            final(self).changes_only(
                *old(self),
                key,
                with_acquire_point(old(self).surfaces@[key], timeline, point_hi, point_lo),
            ),
    {
        let value: u64 = make_u64(point_hi, point_lo);
        if let Some(surface) = self.surfaces.get_mut(key) {
            surface.pending_acquire_point = Some(SyncobjTimelinePoint { handle: timeline, value });
        }
    }

    /// The compositor has to move the timeline to this point when it is done.
    pub fn set_release_point(
        &mut self,
        key: DefaultKey,
        timeline: u32,
        point_hi: u32,
        point_lo: u32,
    )
        requires
            old(self).surfaces@.contains_key(key),
        ensures
            final(self).changes_only(
                *old(self),
                key,
                with_release_point(old(self).surfaces@[key], timeline, point_hi, point_lo),
            ),
    {
        let value: u64 = make_u64(point_hi, point_lo);
        if let Some(surface) = self.surfaces.get_mut(key) {
            surface.pending_release_point = Some(SyncobjTimelinePoint { handle: timeline, value });
        }
    }

    /// The surface is not synchronised explicitly any more.
    pub fn syncobj_surface_destroyed(&mut self, key: DefaultKey)
        ensures
            final(self).xwm == old(self).xwm,
            final(self).xwayland_surface_lookup == old(self).xwayland_surface_lookup,
            final(self).surfaces@ == if old(self).surfaces@.contains_key(key) {
                old(self).surfaces@.insert(key, unsynchronised(old(self).surfaces@[key]))
            } else {
                old(self).surfaces@
            },
    {
        if let Some(surface) = self.surfaces.get_mut(key) {
            surface.wp_syncobj_surface = None;
            surface.pending_acquire_point = None;
            surface.pending_release_point = None;
        }
    }
}

/// A toplevel is the role of a surface.
pub open spec fn is_toplevel(surface: Surface, object: u32) -> bool {
    surface.role matches Some(SurfaceRole::XdgToplevel { xdg_toplevel, .. }) && xdg_toplevel
        == object
}

/// The role of a surface was made from a shell surface.
pub open spec fn is_base_of_role(surface: Surface, object: u32) -> bool {
    surface.role matches Some(SurfaceRole::XdgToplevel { xdg_surface, .. }) && xdg_surface == object
}

pub open spec fn without_role(surface: Surface) -> Surface {
    Surface { role: None, ..surface }
}

/// A surface whose client acknowledged a configure event, and what it is told.
pub open spec fn acknowledged(surface: Surface, serial: u32) -> (Surface, Result<(), ShellError>) {
    match surface.pending_configure {
        Some(last) if serial == last => (Surface { pending_configure: None, ..surface }, Ok(())),
        Some(last) if serial < last => (surface, Ok(())),
        _ => (surface, Err(ShellError::InvalidSerial)),
    }
}

pub open spec fn titled(surface: Surface, title: String) -> Surface {
    Surface { title: Some(title), ..surface }
}

pub open spec fn named(surface: Surface, app_id: String) -> Surface {
    Surface { app_id: Some(app_id), ..surface }
}

/// A surface whose client asked for its scale, and what it is told.
pub open spec fn scaled(surface: Surface, object: u32) -> (Surface, Result<(), ShellError>) {
    (
        Surface { wp_fractional_scale: Some(object), ..surface },
        if surface.wp_fractional_scale is Some {
            Err(ShellError::FractionalScaleExists)
        } else {
            Ok(())
        },
    )
}

/// A surface whose client asked to synchronise it, and what it is told.
pub open spec fn synchronised(surface: Surface, object: u32) -> (Surface, Result<(), ShellError>) {
    if surface.wp_syncobj_surface is Some {
        (surface, Err(ShellError::SurfaceExists))
    } else {
        (Surface { wp_syncobj_surface: Some(object), ..surface }, Ok(()))
    }
}

/// A surface that is not synchronised explicitly any more.
pub open spec fn unsynchronised(surface: Surface) -> Surface {
    Surface {
        wp_syncobj_surface: None,
        pending_acquire_point: None,
        pending_release_point: None,
        ..surface
    }
}

pub open spec fn with_acquire_point(
    surface: Surface,
    timeline: u32,
    point_hi: u32,
    point_lo: u32,
) -> Surface {
    Surface {
        pending_acquire_point: Some(
            SyncobjTimelinePoint {
                handle: timeline,
                value: crate::compositor::xwm::join_words(point_hi, point_lo),
            },
        ),
        ..surface
    }
}

pub open spec fn with_release_point(
    surface: Surface,
    timeline: u32,
    point_hi: u32,
    point_lo: u32,
) -> Surface {
    Surface {
        pending_release_point: Some(
            SyncobjTimelinePoint {
                handle: timeline,
                value: crate::compositor::xwm::join_words(point_hi, point_lo),
            },
        ),
        ..surface
    }
}

/// A surface that nothing is known of.
pub open spec fn new_surface(client: u32) -> Surface {
    Surface {
        client,
        role: None,
        title: None,
        app_id: None,
        configuration: None,
        sent_configuration: None,
        pending_configure: None,
        content: None,
        frame_callback: None,
        wp_fractional_scale: None,
        wp_syncobj_surface: None,
        pending_acquire_point: None,
        pending_release_point: None,
    }
}

impl Compositor {
    /// The buffer under a key, if there is one.
    pub fn buffer(&self, key: DefaultKey) -> (found: Option<&Buffer>)
        ensures
            match found {
                Some(buffer) => self.buffers@.contains_key(key) && *buffer == self.buffers@[key],
                None => !self.buffers@.contains_key(key),
            },
    {
        self.buffers.get(key)
    }

    /// Files a buffer that was imported.
    pub fn insert_buffer(&mut self, buffer: Buffer) -> (key: DefaultKey)
        requires
            old(self).buffers@.dom().len() < MAX_SLOTS,
        ensures
            !old(self).buffers@.contains_key(key),
            final(self).buffers@ == old(self).buffers@.insert(key, buffer),
            final(self).windows == old(self).windows,
            final(self).surface_stack == old(self).surface_stack,
            final(self).in_flight_buffers == old(self).in_flight_buffers,
            final(self).pending_presentation_feedback == old(self).pending_presentation_feedback,
            final(self).output_proxies == old(self).output_proxies,
            final(self).display_params == old(self).display_params,
    {
        self.buffers.insert(buffer)
    }

    /// A client destroyed a buffer. It stays until it is released.
    pub fn buffer_destroyed(&mut self, key: DefaultKey)
        ensures
            final(self).buffers@ == if old(self).buffers@.contains_key(key) {
                old(self).buffers@.insert(
                    key,
                    Buffer { needs_destruction: true, ..old(self).buffers@[key] },
                )
            } else {
                old(self).buffers@
            },
            final(self).windows == old(self).windows,
            final(self).surface_stack == old(self).surface_stack,
            final(self).in_flight_buffers == old(self).in_flight_buffers,
            final(self).pending_presentation_feedback == old(self).pending_presentation_feedback,
            final(self).output_proxies == old(self).output_proxies,
            final(self).display_params == old(self).display_params,
    {
        if let Some(buffer) = self.buffers.get_mut(key) {
            buffer.needs_destruction = true;
        }
    }
}

/// The last configure event can be acknowledged once, those before it any number
/// of times, and what was never sent not at all. Nothing else of the surface
/// changes.
pub proof fn last_configure_is_acknowledged_once(surface: Surface, serial: u32)
    ensures
        ({
            let (after, result) = acknowledged(surface, serial);
            &&& result is Ok <==> surface.pending_configure is Some && serial
                <= surface.pending_configure->0
            &&& result matches Err(err) ==> err == ShellError::InvalidSerial && after == surface
            &&& surface.pending_configure == Some(serial) ==> after.pending_configure is None
                && acknowledged(after, serial).1 is Err
            &&& surface.pending_configure != Some(serial) ==> after == surface
            &&& surface == (Surface { pending_configure: surface.pending_configure, ..after })
        }),
{
}

/// The title and the name of the application are set apart from each other, in
/// either order.
pub proof fn title_and_name_are_apart(surface: Surface, title: String, app_id: String)
    ensures
        titled(named(surface, app_id), title) == named(titled(surface, title), app_id),
        titled(surface, title).title == Some(title),
        titled(surface, title).app_id == surface.app_id,
        named(surface, app_id).app_id == Some(app_id),
        named(surface, app_id).title == surface.title,
        surface == (Surface {
            title: surface.title,
            app_id: surface.app_id,
            ..titled(named(surface, app_id), title)
        }),
{
}

/// A second object for the scale of a surface is an error, but is kept.
pub proof fn last_scale_object_counts(surface: Surface, first: u32, second: u32)
    ensures
        ({
            let (once, result) = scaled(surface, first);
            let (twice, again) = scaled(once, second);
            &&& result is Ok <==> surface.wp_fractional_scale is None
            &&& once.wp_fractional_scale == Some(first)
            &&& again == Err::<(), ShellError>(ShellError::FractionalScaleExists)
            &&& twice.wp_fractional_scale == Some(second)
            &&& surface == (Surface { wp_fractional_scale: surface.wp_fractional_scale, ..twice })
        }),
{
}

/// A second object for the synchronisation of a surface is refused, and the first
/// is kept, until it is destroyed.
pub proof fn first_sync_object_counts(surface: Surface, first: u32, second: u32)
    requires
        surface.wp_syncobj_surface is None,
    ensures
        ({
            let once = synchronised(surface, first).0;
            &&& synchronised(surface, first).1 is Ok
            &&& once.wp_syncobj_surface == Some(first)
            &&& surface == (Surface { wp_syncobj_surface: None, ..once })
            &&& synchronised(once, second) == (
                once,
                Err::<(), ShellError>(ShellError::SurfaceExists),
            )
            &&& synchronised(unsynchronised(once), second).1 is Ok
        }),
{
}

/// The points at which a surface is drawn and released are set apart from each
/// other. The words of a point are joined, the first above the second.
pub proof fn points_are_apart(
    surface: Surface,
    timeline: u32,
    hi: u32,
    lo: u32,
    other: u32,
    other_hi: u32,
    other_lo: u32,
)
    ensures
        ({
            let both = with_release_point(
                with_acquire_point(surface, timeline, hi, lo),
                other,
                other_hi,
                other_lo,
            );
            &&& both == with_acquire_point(
                with_release_point(surface, other, other_hi, other_lo),
                timeline,
                hi,
                lo,
            )
            &&& both.pending_acquire_point matches Some(point) && point.handle == timeline
                && point.value == hi * 0x1_0000_0000 + lo
            &&& both.pending_release_point matches Some(point) && point.handle == other
                && point.value == other_hi * 0x1_0000_0000 + other_lo
            &&& surface == (Surface {
                pending_acquire_point: surface.pending_acquire_point,
                pending_release_point: surface.pending_release_point,
                ..both
            })
            &&& unsynchronised(both).pending_acquire_point is None
            &&& unsynchronised(both).pending_release_point is None
            &&& unsynchronised(both) == unsynchronised(surface)
        }),
{
}

/// A toplevel is destroyed before the shell surface that it was made from: then the
/// surface has no role any more, and both objects are free of it.
pub proof fn role_is_destroyed_first(
    surface: Surface,
    xdg_surface: u32,
    xdg_toplevel: u32,
    object: u32,
)
    requires
        surface.role == Some(SurfaceRole::XdgToplevel { xdg_surface, xdg_toplevel }),
    ensures
        is_toplevel(surface, object) <==> object == xdg_toplevel,
        is_base_of_role(surface, object) <==> object == xdg_surface,
        !is_toplevel(without_role(surface), object),
        !is_base_of_role(without_role(surface), object),
        surface == (Surface { role: surface.role, ..without_role(surface) }),
{
}

} // verus!
