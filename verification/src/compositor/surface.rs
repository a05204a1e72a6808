//! What the compositor knows of each surface.

use vstd::prelude::*;
use slotmap::DefaultKey;
use crate::pixel_scale::PixelScale;

verus! {

#[derive(Debug, Clone, Copy, PartialEq, Eq, Structural)]
pub enum Visibility {
    Occluded,
    Visible,
    Active,
}

/// Where a surface is placed, and how it is shown.
#[derive(Debug, Clone, Copy, PartialEq, Eq, Structural)]
pub struct SurfaceConfiguration {
    pub x: u32,
    pub y: u32,
    pub width: u32,
    pub height: u32,
    pub scale: PixelScale,
    pub visibility: Visibility,
    pub fullscreen: bool,
}

/// What a surface is for. Wayland objects are given by their ids.
#[derive(Debug, Clone, Copy, PartialEq, Eq, Structural)]
pub enum SurfaceRole {
    XdgToplevel { xdg_surface: u32, xdg_toplevel: u32 },
    XWayland { serial: u64 },
}

/// A point on the timeline of a DRM sync object, given by its handle.
#[derive(Debug, Clone, Copy, PartialEq, Eq, Structural)]
pub struct SyncobjTimelinePoint {
    pub handle: u32,
    pub value: u64,
}

/// A committed buffer, with what has to happen once it is no longer shown.
#[derive(Debug, Clone, Copy)]
pub struct ContentUpdate {
    pub buffer: DefaultKey,
    /// The render timeline point after which the buffer is no longer read.
    pub tp_done: Option<u64>,
    pub needs_release: bool,
    /// The acquire and the release point.
    pub explicit_sync: Option<(SyncobjTimelinePoint, SyncobjTimelinePoint)>,
    pub wp_presentation_feedback: Option<u32>,
}

pub struct Surface {
    /// The id of the Wayland client that owns the surface.
    pub client: u32,
    pub role: Option<SurfaceRole>,
    pub title: Option<String>,
    pub app_id: Option<String>,
    pub configuration: Option<SurfaceConfiguration>,
    pub sent_configuration: Option<SurfaceConfiguration>,
    /// The serial of the last configure event that was not acknowledged.
    pub pending_configure: Option<u32>,
    pub content: Option<ContentUpdate>,
    pub frame_callback: Option<u32>,
    pub wp_fractional_scale: Option<u32>,
    pub wp_syncobj_surface: Option<u32>,
    pub pending_acquire_point: Option<SyncobjTimelinePoint>,
    pub pending_release_point: Option<SyncobjTimelinePoint>,
}

} // verus!
