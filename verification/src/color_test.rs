//! A test picture in each of the colour spaces that a display has.

use vstd::prelude::*;
use crate::vulkan::{
    contains_extension, DebugUnavailable, DeviceType, InstancePlan, QUEUE_COMPUTE, QUEUE_GRAPHICS,
};

verus! {

pub const EXT_SWAPCHAIN: &'static str = "VK_KHR_swapchain";

pub const EXT_PORTABILITY_ENUMERATION: &'static str = "VK_KHR_portability_enumeration";

pub const EXT_PHYSICAL_DEVICE_PROPERTIES: &'static str = "VK_KHR_get_physical_device_properties2";

pub const PRESENT_MODE_IMMEDIATE: i32 = 0;

pub const PRESENT_MODE_MAILBOX: i32 = 1;

pub const PRESENT_MODE_FIFO: i32 = 2;

pub const TRANSFORM_IDENTITY: u32 = 1;

/// A surface with this width takes the size of its images.
pub const EXTENT_UNDEFINED: u32 = 0xffff_ffff;

pub const COLOR_SPACE_SRGB_NONLINEAR: i32 = 0;

pub const COLOR_SPACE_DISPLAY_P3_NONLINEAR: i32 = 1_000_104_001;

pub const COLOR_SPACE_EXTENDED_SRGB_LINEAR: i32 = 1_000_104_002;

pub const COLOR_SPACE_DISPLAY_P3_LINEAR: i32 = 1_000_104_003;

pub const COLOR_SPACE_DCI_P3_NONLINEAR: i32 = 1_000_104_004;

pub const COLOR_SPACE_BT709_LINEAR: i32 = 1_000_104_005;

pub const COLOR_SPACE_BT709_NONLINEAR: i32 = 1_000_104_006;

pub const COLOR_SPACE_HDR10_ST2084: i32 = 1_000_104_008;

/// A format that a surface can be shown in.
#[derive(Debug, Clone, Copy, PartialEq, Eq, Structural)]
pub struct SurfaceFormat {
    pub format: i32,
    pub color_space: i32,
}

/// The numbers of the formats that the driver converts to sRGB by itself.
pub open spec fn is_srgb(format: i32) -> bool {
    ||| format == 15 || format == 22 || format == 29 || format == 36 || format == 43 || format == 50
        || format == 57
    ||| format == 132 || format == 134 || format == 136 || format == 138 || format == 146
    ||| format == 148 || format == 150 || format == 152
    ||| 158 <= format <= 184 && format % 2 == 0
}

pub fn format_is_srgb(format: i32) -> (srgb: bool)
    ensures
        srgb == is_srgb(format),
{
    match format {
        15 | 22 | 29 | 36 | 43 | 50 | 57 => true,
        132 | 134 | 136 | 138 | 146 => true,
        148 | 150 | 152 => true,
        158 | 160 | 162 | 164 | 166 | 168 | 170 | 172 | 174 | 176 | 178 | 180 | 182 | 184 => true,
        _ => false,
    }
}

pub open spec fn is_known_space(color_space: i32) -> bool {
    ||| color_space == COLOR_SPACE_SRGB_NONLINEAR
    ||| color_space == COLOR_SPACE_EXTENDED_SRGB_LINEAR
    ||| color_space == COLOR_SPACE_DISPLAY_P3_LINEAR
    ||| color_space == COLOR_SPACE_DISPLAY_P3_NONLINEAR
    ||| color_space == COLOR_SPACE_DCI_P3_NONLINEAR
    ||| color_space == COLOR_SPACE_BT709_LINEAR
    ||| color_space == COLOR_SPACE_BT709_NONLINEAR
    ||| color_space == COLOR_SPACE_HDR10_ST2084
}

pub fn colorspace_supported(color_space: i32) -> (supported: bool)
    ensures
        supported == is_known_space(color_space),
{
    color_space == COLOR_SPACE_SRGB_NONLINEAR || color_space == COLOR_SPACE_EXTENDED_SRGB_LINEAR
        || color_space == COLOR_SPACE_DISPLAY_P3_LINEAR || color_space
        == COLOR_SPACE_DISPLAY_P3_NONLINEAR || color_space == COLOR_SPACE_DCI_P3_NONLINEAR
        || color_space == COLOR_SPACE_BT709_LINEAR || color_space == COLOR_SPACE_BT709_NONLINEAR
        || color_space == COLOR_SPACE_HDR10_ST2084
}

/// A format in which the picture can be shown as it is.
pub open spec fn is_usable() -> spec_fn(SurfaceFormat) -> bool {
    |sf: SurfaceFormat| !is_srgb(sf.format) && is_known_space(sf.color_space)
}

/// The formats that can be used, in their order.
pub fn usable_surface_formats(formats: &Vec<SurfaceFormat>) -> (usable: Vec<SurfaceFormat>)
    ensures
        usable@ == formats@.filter(is_usable()),
{
    let mut usable: Vec<SurfaceFormat> = Vec::new();
    let mut i: usize = 0;
    assert(formats@.take(0) =~= Seq::empty());
    assert(usable@ =~= formats@.take(0).filter(is_usable())) by {
        reveal(Seq::filter);
    }
    while i < formats.len()
        invariant
            i <= formats@.len(),
            usable@ == formats@.take(i as int).filter(is_usable()),
        decreases formats.len() - i,
    {
        let sf: SurfaceFormat = formats[i];
        assert(formats@.take(i + 1).drop_last() =~= formats@.take(i as int));
        assert(formats@.take(i + 1).last() == sf);
        assert(formats@.take(i + 1).filter(is_usable()) == if is_usable()(sf) {
            formats@.take(i as int).filter(is_usable()).push(sf)
        } else {
            formats@.take(i as int).filter(is_usable())
        }) by {
            reveal(Seq::filter);
        }
        if !format_is_srgb(sf.format) && colorspace_supported(sf.color_space) {
            usable.push(sf);
        }
        i += 1;
    }
    assert(formats@.take(i as int) =~= formats@);
    usable
}

#[derive(Debug, Clone, Copy, PartialEq, Eq, Structural)]
pub enum DeviceError {
    NoGraphicsQueue,
    NoSwapchain,
}

/// What is known of a device.
pub struct Device {
    pub device_type: DeviceType,
    /// The flags of each family of queues.
    pub queue_flags: Vec<u32>,
    /// Whether each family can present to the surface.
    pub presentable: Vec<bool>,
    pub extensions: Vec<String>,
}

impl Device {
    pub open spec fn wf(self) -> bool {
        self.queue_flags@.len() == self.presentable@.len() <= u32::MAX
    }

    /// A family of queues can draw, compute and present.
    pub open spec fn can_present(self, i: int) -> bool {
        crate::vulkan::has_flags(self.queue_flags@[i], QUEUE_GRAPHICS) && crate::vulkan::has_flags(
            self.queue_flags@[i],
            QUEUE_COMPUTE,
        ) && self.presentable@[i]
    }

    /// The family that a device presents with: the first that can.
    pub open spec fn presents_with(self, i: int) -> bool {
        &&& 0 <= i < self.queue_flags@.len()
        &&& self.can_present(i)
        &&& forall|j: int| 0 <= j < i ==> !#[trigger] self.can_present(j)
    }

    pub open spec fn has_present_family(self) -> bool {
        exists|i: int| 0 <= i < self.queue_flags@.len() && #[trigger] self.can_present(i)
    }

    /// The picture can be shown with the device.
    pub open spec fn is_eligible(self) -> bool {
        self.has_present_family() && crate::vulkan::lists_text(self.extensions@, EXT_SWAPCHAIN@)
    }
}

/// Looks whether the picture can be shown with a device, and with which family
/// of its queues.
pub fn query_device(device: &Device) -> (result: Result<u32, DeviceError>)
    requires
        device.wf(),
    ensures
        result is Ok <==> device.is_eligible(),
        match result {
            Ok(i) => device.presents_with(i as int),
            Err(DeviceError::NoGraphicsQueue) => !device.has_present_family(),
            Err(DeviceError::NoSwapchain) => device.has_present_family(),
        },
{
    let mut i: usize = 0;
    while i < device.queue_flags.len()
        invariant
            i <= device.queue_flags@.len(),
            device.wf(),
            forall|j: int| 0 <= j < i ==> !#[trigger] device.can_present(j),
        decreases device.queue_flags.len() - i,
    {
        let kind: u32 = device.queue_flags[i];
        let fits = kind & QUEUE_GRAPHICS == QUEUE_GRAPHICS && kind & QUEUE_COMPUTE == QUEUE_COMPUTE
            && device.presentable[i];
        if fits {
            assert(device.can_present(i as int));
            if !contains_extension(&device.extensions, EXT_SWAPCHAIN) {
                return Err(DeviceError::NoSwapchain);
            }
            return Ok(i as u32);
        }
        assert(!device.can_present(i as int));
        i += 1;
    }
    Err(DeviceError::NoGraphicsQueue)
}

/// How a device compares with others: a lower number is better.
pub open spec fn device_rank(kind: DeviceType) -> int {
    match kind {
        DeviceType::DiscreteGpu => 0,
        DeviceType::IntegratedGpu => 1,
        DeviceType::Other => 2,
    }
}

fn rank(kind: DeviceType) -> (result: u32)
    ensures
        result == device_rank(kind),
{
    match kind {
        DeviceType::DiscreteGpu => 0,
        DeviceType::IntegratedGpu => 1,
        DeviceType::Other => 2,
    }
}

/// The best of the devices that the picture can be shown with; of equal ones,
/// the first.
pub open spec fn is_best_device(devices: Seq<Device>, i: int) -> bool {
    &&& 0 <= i < devices.len()
    &&& devices[i].is_eligible()
    &&& forall|j: int|
        0 <= j < devices.len() && (#[trigger] devices[j]).is_eligible() ==> device_rank(
            devices[i].device_type,
        ) <= device_rank(devices[j].device_type)
    &&& forall|j: int|
        0 <= j < i && (#[trigger] devices[j]).is_eligible() ==> device_rank(devices[i].device_type)
            < device_rank(devices[j].device_type)
}

/// Chooses the best device, with the family that it presents with.
pub fn select_device(devices: &Vec<Device>) -> (selected: Option<(usize, u32)>)
    requires
        forall|i: int| 0 <= i < devices@.len() ==> (#[trigger] devices@[i]).wf(),
    ensures
        match selected {
            Some((i, family)) => is_best_device(devices@, i as int)
                && devices@[i as int].presents_with(family as int),
            None => forall|i: int|
                0 <= i < devices@.len() ==> !(#[trigger] devices@[i]).is_eligible(),
        },
{
    let mut best: Option<(usize, u32)> = None;
    let mut best_rank: u32 = 0;
    let mut i: usize = 0;
    while i < devices.len()
        invariant
            i <= devices@.len(),
            forall|j: int| 0 <= j < devices@.len() ==> (#[trigger] devices@[j]).wf(),
            match best {
                Some((b, family)) => {
                    &&& b < i
                    &&& devices@[b as int].is_eligible()
                    &&& devices@[b as int].presents_with(family as int)
                    &&& best_rank == device_rank(devices@[b as int].device_type)
                    &&& forall|j: int|
                        0 <= j < i && (#[trigger] devices@[j]).is_eligible() ==> best_rank
                            <= device_rank(devices@[j].device_type)
                    &&& forall|j: int|
                        0 <= j < b && (#[trigger] devices@[j]).is_eligible() ==> best_rank
                            < device_rank(devices@[j].device_type)
                },
                None => forall|j: int| 0 <= j < i ==> !(#[trigger] devices@[j]).is_eligible(),
            },
        decreases devices.len() - i,
    {
        if let Ok(family) = query_device(&devices[i]) {
            let next: u32 = rank(devices[i].device_type);
            if best.is_none() || next < best_rank {
                best = Some((i, family));
                best_rank = next;
            }
        }
        i += 1;
    }
    best
}

/// The extensions of an instance: those that the window needs, those for
/// drivers that stand in for another API, and the one for debugging.
pub open spec fn instance_extensions(
    window: Seq<Seq<char>>,
    portability: bool,
    debug: bool,
) -> Seq<Seq<char>> {
    window + (if portability {
        seq![EXT_PORTABILITY_ENUMERATION@, EXT_PHYSICAL_DEVICE_PROPERTIES@]
    } else {
        Seq::empty()
    }) + (if debug {
        seq![crate::vulkan::EXT_DEBUG_UTILS@]
    } else {
        Seq::empty()
    })
}

/// The extensions and layers of the instance. Debugging needs an extension; it
/// does without validation where that is not available.
pub fn plan_instance(
    window_extensions: &Vec<String>,
    portability: bool,
    debug: bool,
    available_extensions: &Vec<String>,
    available_layers: &Vec<String>,
) -> (result: Result<InstancePlan, DebugUnavailable>)
    ensures
        result is Err <==> debug && !crate::vulkan::lists_text(
            available_extensions@,
            crate::vulkan::EXT_DEBUG_UTILS@,
        ),
        result matches Ok(plan) ==> {
            &&& crate::vulkan::text_views(plan.extensions@) == instance_extensions(
                crate::vulkan::text_views(window_extensions@),
                portability,
                debug,
            )
            &&& crate::vulkan::text_views(plan.layers@) == if debug && crate::vulkan::lists_text(
                available_layers@,
                crate::vulkan::LAYER_VALIDATION@,
            ) {
                seq![crate::vulkan::LAYER_VALIDATION@]
            } else {
                Seq::empty()
            }
        },
{
    let mut base = match crate::vulkan::plan_instance(debug, available_extensions, available_layers) {
        Ok(base) => base,
        Err(err) => {
            return Err(err);
        },
    };
    let ghost debugging = base.extensions@;
    let mut extensions: Vec<String> = Vec::new();
    let mut i: usize = 0;
    assert(window_extensions@.take(0) =~= Seq::empty());
    while i < window_extensions.len()
        invariant
            i <= window_extensions@.len(),
            extensions@ == window_extensions@.take(i as int),
        decreases window_extensions.len() - i,
    {
        extensions.push(window_extensions[i].clone());
        assert(window_extensions@.take(i + 1) =~= window_extensions@.take(i as int).push(
            window_extensions@[i as int],
        ));
        i += 1;
    }
    assert(window_extensions@.take(i as int) =~= window_extensions@);
    if portability {
        extensions.push(EXT_PORTABILITY_ENUMERATION.to_owned());
        extensions.push(EXT_PHYSICAL_DEVICE_PROPERTIES.to_owned());
    }
    let ghost before = extensions@;
    extensions.append(&mut base.extensions);
    proof {
        assert(extensions@ =~= before + debugging);
        assert(crate::vulkan::text_views(extensions@) =~= crate::vulkan::text_views(before)
            + crate::vulkan::text_views(debugging));
        assert(crate::vulkan::text_views(extensions@) =~= instance_extensions(
            crate::vulkan::text_views(window_extensions@),
            portability,
            debug,
        ));
    }
    Ok(InstancePlan { extensions, layers: base.layers })
}

/// The version of the API that is asked for. At least 1.2 is needed; a driver
/// that only stands in for another API has no more.
pub fn requested_version(version: Option<u32>, portability: bool) -> (result: Option<(u32, u32)>)
    ensures
        ({
            let (major, minor) = crate::vulkan::api_version(version);
            if major < 1 || major == 1 && minor < 2 {
                result is None
            } else if portability {
                result == Some((1u32, 2u32))
            } else {
                result == Some((major, minor))
            }
        }),
{
    let (major, minor): (u32, u32) = match version {
        Some(version) => (version / 0x40_0000 % 0x80, version / 0x1000 % 0x400),
        None => (1, 0),
    };
    if major < 1 || (major == 1 && minor < 2) {
        None
    } else if portability {
        Some((1, 2))
    } else {
        Some((major, minor))
    }
}

/// What a surface can do.
#[derive(Debug, Clone, Copy, PartialEq, Eq, Structural)]
pub struct SurfaceCapabilities {
    pub min_image_count: u32,
    /// Zero stands for no limit.
    pub max_image_count: u32,
    pub current_width: u32,
    pub current_height: u32,
    pub supported_transforms: u32,
    pub current_transform: u32,
}

/// How the images of a surface are made.
#[derive(Debug, Clone, Copy, PartialEq, Eq, Structural)]
pub struct SwapchainPlan {
    pub format: SurfaceFormat,
    pub image_count: u32,
    pub width: u32,
    pub height: u32,
    pub pre_transform: u32,
    pub present_mode: i32,
}

/// One image more than is needed, if that is allowed.
pub open spec fn image_count(caps: SurfaceCapabilities) -> int {
    let desired = caps.min_image_count + 1;
    if caps.max_image_count > 0 && desired > caps.max_image_count {
        caps.max_image_count as int
    } else {
        desired
    }
}

/// How much a mode is wanted: a lower number is better.
pub open spec fn mode_rank(mode: i32) -> int {
    if mode == PRESENT_MODE_MAILBOX {
        0
    } else if mode == PRESENT_MODE_IMMEDIATE {
        1
    } else if mode == PRESENT_MODE_FIFO {
        2
    } else {
        4
    }
}

/// The best of the modes; of equal ones, the first.
pub open spec fn is_best_mode(modes: Seq<i32>, i: int) -> bool {
    &&& 0 <= i < modes.len()
    &&& forall|j: int| 0 <= j < modes.len() ==> mode_rank(modes[i]) <= mode_rank(#[trigger] modes[j])
    &&& forall|j: int| 0 <= j < i ==> mode_rank(modes[i]) < mode_rank(#[trigger] modes[j])
}

fn mode_score(mode: i32) -> (score: u32)
    ensures
        score == mode_rank(mode),
{
    if mode == PRESENT_MODE_MAILBOX {
        0
    } else if mode == PRESENT_MODE_IMMEDIATE {
        1
    } else if mode == PRESENT_MODE_FIFO {
        2
    } else {
        4
    }
}

fn best_mode(modes: &Vec<i32>) -> (mode: i32)
    requires
        modes@.len() > 0,
    ensures
        exists|i: int| #[trigger] is_best_mode(modes@, i) && modes@[i] == mode,
{
    let mut best: usize = 0;
    let mut best_score: u32 = mode_score(modes[0]);
    let mut i: usize = 1;
    while i < modes.len()
        invariant
            best < i <= modes@.len(),
            best_score == mode_rank(modes@[best as int]),
            forall|j: int| 0 <= j < i ==> best_score <= mode_rank(#[trigger] modes@[j]),
            forall|j: int| 0 <= j < best ==> best_score < mode_rank(#[trigger] modes@[j]),
        decreases modes.len() - i,
    {
        let next: u32 = mode_score(modes[i]);
        if next < best_score {
            best = i;
            best_score = next;
        }
        i += 1;
    }
    assert(is_best_mode(modes@, best as int));
    modes[best]
}

/// The images that are drawn to in turn.
#[derive(Debug, Clone, Copy, PartialEq, Eq, Structural)]
pub struct Swapchain {
    pub frames: usize,
    pub current_frame: usize,
}

/// What the test picture is shown with.
pub struct Renderer {
    pub surface_formats: Vec<SurfaceFormat>,
    pub format: i32,
    pub colorspace: i32,
    pub width: u32,
    pub height: u32,
    pub swapchain: Option<Swapchain>,
    /// The images have to be made anew.
    pub swapchain_dirty: bool,
}

/// How a frame begins.
#[derive(Debug, Clone, Copy, PartialEq, Eq, Structural)]
pub enum FrameStart {
    /// The images are to be made first.
    RecreateSwapchain,
    /// The frame that is drawn.
    Frame(usize),
}

/// What an attempt to get an image came to.
#[derive(Debug, Clone, Copy, PartialEq, Eq, Structural)]
pub enum AcquireResult {
    /// With the number of the image.
    Image(u32),
    OutOfDate,
    Failed,
}

/// What an attempt to show an image came to.
#[derive(Debug, Clone, Copy, PartialEq, Eq, Structural)]
pub enum PresentResult {
    Shown,
    /// The image does not fit the surface well any more.
    Suboptimal,
    OutOfDate,
    Failed,
}

/// How a frame goes on.
#[derive(Debug, Clone, Copy, PartialEq, Eq, Structural)]
pub enum FrameStep {
    /// Draw to this image.
    Draw(u32),
    /// Start over, with new images.
    StartOver,
    Done,
    Failed,
}

impl Renderer {
    /// The window has another size.
    pub open spec fn resized(self, width: u32, height: u32) -> Renderer {
        if self.width == width && self.height == height {
            self
        } else {
            Renderer { width, height, swapchain_dirty: true, ..self }
        }
    }

    /// A frame begins.
    pub open spec fn begun(self) -> (Renderer, FrameStart) {
        match (self.swapchain, self.swapchain_dirty) {
            (Some(s), false) => (
                Renderer {
                    swapchain: Some(
                        Swapchain {
                            frames: s.frames,
                            current_frame: ((s.current_frame + 1) % s.frames as int) as usize,
                        },
                    ),
                    ..self
                },
                FrameStart::Frame(s.current_frame),
            ),
            _ => (self, FrameStart::RecreateSwapchain),
        }
    }

    /// An image was asked for.
    pub open spec fn acquired(self, result: AcquireResult) -> (Renderer, FrameStep) {
        match result {
            AcquireResult::Image(index) => (self, FrameStep::Draw(index)),
            AcquireResult::OutOfDate => (
                Renderer { swapchain_dirty: true, ..self },
                FrameStep::StartOver,
            ),
            AcquireResult::Failed => (self, FrameStep::Failed),
        }
    }

    /// An image was shown.
    pub open spec fn presented(self, result: PresentResult) -> (Renderer, FrameStep) {
        let dirty = self.swapchain_dirty || result == PresentResult::Suboptimal || result
            == PresentResult::OutOfDate;
        (
            Renderer { swapchain_dirty: dirty, ..self },
            if result == PresentResult::Failed {
                FrameStep::Failed
            } else if dirty {
                FrameStep::StartOver
            } else {
                FrameStep::Done
            },
        )
    }

    /// A format and a colour space were chosen.
    pub open spec fn with_format(self, format: i32, colorspace: i32) -> Renderer {
        Renderer {
            format,
            colorspace,
            swapchain_dirty: self.swapchain_dirty || format != self.format || colorspace
                != self.colorspace,
            ..self
        }
    }

    /// The picture is shown in the first format that can be used.
    pub fn new(available: &Vec<SurfaceFormat>, width: u32, height: u32) -> (renderer: Renderer)
        requires
            available@.filter(is_usable()).len() > 0,
        ensures
            renderer.wf(),
            renderer.surface_formats@ == available@.filter(is_usable()),
            renderer.format == renderer.surface_formats@[0].format,
            renderer.colorspace == renderer.surface_formats@[0].color_space,
            renderer.width == width,
            renderer.height == height,
            renderer.swapchain is None,
            !renderer.swapchain_dirty,
    {
        let surface_formats = usable_surface_formats(available);
        let first: SurfaceFormat = surface_formats[0];
        assert(surface_formats@[0] == (SurfaceFormat {
            format: first.format,
            color_space: first.color_space,
        }));
        Renderer {
            surface_formats,
            format: first.format,
            colorspace: first.color_space,
            width,
            height,
            swapchain: None,
            swapchain_dirty: false,
        }
    }

    pub open spec fn wf(self) -> bool {
        &&& self.has_format()
        &&& self.swapchain matches Some(s) ==> s.current_frame < s.frames
    }

    /// The format and the colour space are offered together.
    pub open spec fn has_format(self) -> bool {
        self.surface_formats@.contains(
            SurfaceFormat { format: self.format, color_space: self.colorspace },
        )
    }

    /// Whether the format and the colour space are offered together.
    pub fn offers_format(&self) -> (offered: bool)
        ensures
            offered == self.has_format(),
    {
        let mut i: usize = 0;
        while i < self.surface_formats.len()
            invariant
                i <= self.surface_formats@.len(),
                forall|j: int|
                    0 <= j < i ==> self.surface_formats@[j] != (SurfaceFormat {
                        format: self.format,
                        color_space: self.colorspace,
                    }),
            decreases self.surface_formats.len() - i,
        {
            let sf: SurfaceFormat = self.surface_formats[i];
            if sf.format == self.format && sf.color_space == self.colorspace {
                assert(self.surface_formats@[i as int] == (SurfaceFormat {
                    format: self.format,
                    color_space: self.colorspace,
                }));
                return true;
            }
            i += 1;
        }
        false
    }

    /// How the images are to be made.
    pub fn recreate_swapchain(&self, caps: SurfaceCapabilities, present_modes: &Vec<i32>) -> (plan:
        SwapchainPlan)
        requires
            self.has_format(),
            caps.min_image_count < u32::MAX,
            present_modes@.len() > 0,
        ensures
            plan.format == (SurfaceFormat { format: self.format, color_space: self.colorspace }),
            plan.image_count == image_count(caps),
            (plan.width, plan.height) == if caps.current_width == EXTENT_UNDEFINED {
                (self.width, self.height)
            } else {
                (caps.current_width, caps.current_height)
            },
            plan.pre_transform == if crate::vulkan::has_flags(
                caps.supported_transforms,
                TRANSFORM_IDENTITY,
            ) {
                TRANSFORM_IDENTITY
            } else {
                caps.current_transform
            },
            exists|i: int| #[trigger]
                is_best_mode(present_modes@, i) && present_modes@[i] == plan.present_mode,
    {
        let mut count: u32 = caps.min_image_count + 1;
        if caps.max_image_count > 0 && count > caps.max_image_count {
            count = caps.max_image_count;
        }
        let (width, height): (u32, u32) = if caps.current_width == EXTENT_UNDEFINED {
            (self.width, self.height)
        } else {
            (caps.current_width, caps.current_height)
        };
        let transforms: u32 = caps.supported_transforms;
        let pre_transform: u32 = if transforms & TRANSFORM_IDENTITY == TRANSFORM_IDENTITY {
            TRANSFORM_IDENTITY
        } else {
            caps.current_transform
        };
        SwapchainPlan {
            format: SurfaceFormat { format: self.format, color_space: self.colorspace },
            image_count: count,
            width,
            height,
            pre_transform,
            present_mode: best_mode(present_modes),
        }
    }

    /// The images were made: there is a frame for each, and the first is next.
    pub fn swapchain_created(&mut self, images: usize)
        requires
            old(self).wf(),
            images > 0,
        ensures
            final(self).wf(),
            *final(self) == (Renderer {
                swapchain: Some(Swapchain { frames: images, current_frame: 0 }),
                swapchain_dirty: false,
                ..*old(self)
            }),
    {
        self.swapchain = Some(Swapchain { frames: images, current_frame: 0 });
        self.swapchain_dirty = false;
    }

    /// The window has another size.
    pub fn resize(&mut self, width: u32, height: u32)
        requires
            old(self).wf(),
        ensures
            final(self).wf(),
            *final(self) == old(self).resized(width, height),
    {
        if self.width == width && self.height == height {
            return;
        }
        self.width = width;
        self.height = height;
        self.swapchain_dirty = true;
    }

    /// Begins a frame. Frames are taken in turn.
    pub fn begin_frame(&mut self) -> (start: FrameStart)
        requires
            old(self).wf(),
        ensures
            final(self).wf(),
            (*final(self), start) == old(self).begun(),
    {
        if self.swapchain_dirty {
            return FrameStart::RecreateSwapchain;
        }
        match self.swapchain {
            Some(swapchain) => {
                let frame: usize = swapchain.current_frame;
                let next: usize = if frame + 1 == swapchain.frames {
                    0
                } else {
                    frame + 1
                };
                proof {
                    let n = swapchain.frames as int;
                    if frame + 1 == n {
                        assert((frame + 1) % n == 0) by (nonlinear_arith)
                            requires
                                frame + 1 == n,
                                n > 0,
                        ;
                    } else {
                        assert((frame + 1) % n == frame + 1) by (nonlinear_arith)
                            requires
                                0 <= frame + 1 < n,
                        ;
                    }
                }
                self.swapchain = Some(Swapchain { frames: swapchain.frames, current_frame: next });
                FrameStart::Frame(frame)
            },
            None => FrameStart::RecreateSwapchain,
        }
    }

    /// An image was asked for. Images that do not fit any more are made anew.
    pub fn image_acquired(&mut self, result: AcquireResult) -> (step: FrameStep)
        requires
            old(self).wf(),
        ensures
            final(self).wf(),
            (*final(self), step) == old(self).acquired(result),
    {
        match result {
            AcquireResult::Image(index) => FrameStep::Draw(index),
            AcquireResult::OutOfDate => {
                self.swapchain_dirty = true;
                FrameStep::StartOver
            },
            AcquireResult::Failed => FrameStep::Failed,
        }
    }

    /// An image was shown. If it did not fit well, or another format was
    /// chosen, a frame is drawn again with new images.
    pub fn image_presented(&mut self, result: PresentResult) -> (step: FrameStep)
        ensures
            (*final(self), step) == old(self).presented(result),
    {
        match result {
            PresentResult::Failed => {
                return FrameStep::Failed;
            },
            PresentResult::Suboptimal => {
                self.swapchain_dirty = true;
            },
            PresentResult::OutOfDate => {
                self.swapchain_dirty = true;
            },
            PresentResult::Shown => {},
        }
        if self.swapchain_dirty {
            FrameStep::StartOver
        } else {
            FrameStep::Done
        }
    }

    /// The user chose a format and a colour space from those that are offered.
    pub fn select_format(&mut self, format: i32, colorspace: i32)
        ensures
            *final(self) == old(self).with_format(format, colorspace),
    {
        if format != self.format {
            self.format = format;
            self.swapchain_dirty = true;
        }
        if colorspace != self.colorspace {
            self.colorspace = colorspace;
            self.swapchain_dirty = true;
        }
    }

    /// The formats that are offered, each once, in ascending order.
    pub fn format_choices(&self) -> (choices: Vec<i32>)
        ensures
            lists_once(choices@, self.surface_formats@.map_values(|sf: SurfaceFormat| sf.format)),
    {
        let ghost all = self.surface_formats@.map_values(|sf: SurfaceFormat| sf.format);
        let mut choices: Vec<i32> = Vec::new();
        let mut i: usize = 0;
        while i < self.surface_formats.len()
            invariant
                i <= self.surface_formats@.len(),
                all == self.surface_formats@.map_values(|sf: SurfaceFormat| sf.format),
                lists_once(choices@, all.take(i as int)),
            decreases self.surface_formats.len() - i,
        {
            let value: i32 = self.surface_formats[i].format;
            assert(all[i as int] == value);
            assert(all.take(i + 1) =~= all.take(i as int).push(value));
            let ghost before = choices@;
            insert_sorted(&mut choices, value);
            proof {
                lemma_listed(before, choices@, all.take(i as int), value);
            }
            i += 1;
        }
        assert(all.take(i as int) =~= all);
        choices
    }

    /// The colour spaces that are offered, each once, in ascending order.
    pub fn colorspace_choices(&self) -> (choices: Vec<i32>)
        ensures
            lists_once(
                choices@,
                self.surface_formats@.map_values(|sf: SurfaceFormat| sf.color_space),
            ),
    {
        let ghost all = self.surface_formats@.map_values(|sf: SurfaceFormat| sf.color_space);
        let mut choices: Vec<i32> = Vec::new();
        let mut i: usize = 0;
        while i < self.surface_formats.len()
            invariant
                i <= self.surface_formats@.len(),
                all == self.surface_formats@.map_values(|sf: SurfaceFormat| sf.color_space),
                lists_once(choices@, all.take(i as int)),
            decreases self.surface_formats.len() - i,
        {
            let value: i32 = self.surface_formats[i].color_space;
            assert(all[i as int] == value);
            assert(all.take(i + 1) =~= all.take(i as int).push(value));
            let ghost before = choices@;
            insert_sorted(&mut choices, value);
            proof {
                lemma_listed(before, choices@, all.take(i as int), value);
            }
            i += 1;
        }
        assert(all.take(i as int) =~= all);
        choices
    }
}

/// The values of a list, each once, in ascending order.
pub open spec fn lists_once(choices: Seq<i32>, all: Seq<i32>) -> bool {
    &&& forall|i: int, j: int| 0 <= i < j < choices.len() ==> choices[i] < choices[j]
    &&& forall|value: i32| #[trigger] choices.contains(value) <==> all.contains(value)
}

proof fn lemma_listed(before: Seq<i32>, after: Seq<i32>, all: Seq<i32>, value: i32)
    requires
        lists_once(before, all),
        forall|i: int, j: int| 0 <= i < j < after.len() ==> after[i] < after[j],
        forall|v: i32| #[trigger] after.contains(v) <==> before.contains(v) || v == value,
    ensures
        lists_once(after, all.push(value)),
{
    let more = all.push(value);
    assert forall|v: i32| #[trigger] after.contains(v) <==> more.contains(v) by {
        if all.contains(v) {
            let i = choose|i: int| 0 <= i < all.len() && all[i] == v;
            assert(more[i] == v);
        }
        if v == value {
            assert(more[all.len() as int] == value);
        }
        if more.contains(v) && v != value {
            let i = choose|i: int| 0 <= i < more.len() && more[i] == v;
            assert(all[i] == v);
        }
    }
}

fn insert_sorted(list: &mut Vec<i32>, value: i32)
    requires
        forall|i: int, j: int| 0 <= i < j < old(list)@.len() ==> old(list)@[i] < old(list)@[j],
    ensures
        forall|i: int, j: int|
            0 <= i < j < final(list)@.len() ==> final(list)@[i] < final(list)@[j],
        forall|v: i32| #[trigger]
            final(list)@.contains(v) <==> old(list)@.contains(v) || v == value,
{
    let ghost before = list@;
    let mut i: usize = 0;
    while i < list.len() && list[i] < value
        invariant
            i <= list@.len(),
            list@ == before,
            forall|j: int| 0 <= j < i ==> list@[j] < value,
        decreases list.len() - i,
    {
        i += 1;
    }
    if i < list.len() && list[i] == value {
        assert(before[i as int] == value);
        return;
    }
    list.insert(i, value);
    proof {
        assert(list@[i as int] == value);
        assert forall|v: i32| #[trigger] list@.contains(v) <==> before.contains(v) || v == value by {
            if before.contains(v) {
                let j = choose|j: int| 0 <= j < before.len() && before[j] == v;
                if j < i {
                    assert(list@[j] == v);
                } else {
                    assert(list@[j + 1] == v);
                }
            }
            if list@.contains(v) && v != value {
                let j = choose|j: int| 0 <= j < list@.len() && list@[j] == v;
                if j < i {
                    assert(before[j] == v);
                } else {
                    assert(before[j - 1] == v);
                }
            }
        }
    }
}

/// The number of images is within what the surface allows.
pub proof fn image_count_is_allowed(caps: SurfaceCapabilities)
    requires
        caps.max_image_count == 0 || caps.min_image_count <= caps.max_image_count,
    ensures
        image_count(caps) >= caps.min_image_count,
        caps.max_image_count > 0 ==> image_count(caps) <= caps.max_image_count,
{
}

/// Frames are taken in turn, each image once in a round, unless new images have
/// to be made first.
pub proof fn frames_take_turns(renderer: Renderer)
    requires
        renderer.wf(),
    ensures
        ({
            let (after, start) = renderer.begun();
            &&& start is RecreateSwapchain <==> renderer.swapchain is None
                || renderer.swapchain_dirty
            &&& start matches FrameStart::Frame(i) ==> {
                &&& renderer.swapchain matches Some(s) && i == s.current_frame && i < s.frames
                &&& after.swapchain matches Some(next) && next.frames
                    == renderer.swapchain->0.frames && (i + 1 < next.frames ==> next.current_frame
                    == i + 1) && (i + 1 == next.frames ==> next.current_frame == 0)
            }
            &&& start is RecreateSwapchain ==> after == renderer
            &&& after.format == renderer.format && after.colorspace == renderer.colorspace
        }),
{
    if let Some(s) = renderer.swapchain {
        let n = s.frames as int;
        let i = s.current_frame as int;
        if i + 1 < n {
            assert((i + 1) % n == i + 1) by (nonlinear_arith)
                requires
                    0 <= i + 1 < n,
            ;
        } else {
            assert((i + 1) % n == 0) by (nonlinear_arith)
                requires
                    i + 1 == n,
                    n > 0,
            ;
        }
    }
}

/// Images are made anew exactly when they do not fit: the window has another
/// size, the user chose another format, or the driver says so.
pub proof fn images_are_made_anew_when_needed(
    renderer: Renderer,
    width: u32,
    height: u32,
    format: i32,
    colorspace: i32,
    acquire: AcquireResult,
    present: PresentResult,
)
    requires
        !renderer.swapchain_dirty,
    ensures
        renderer.resized(width, height).swapchain_dirty <==> width != renderer.width || height
            != renderer.height,
        renderer.resized(width, height).width == width,
        renderer.resized(width, height).height == height,
        renderer.with_format(format, colorspace).swapchain_dirty <==> format != renderer.format
            || colorspace != renderer.colorspace,
        renderer.with_format(format, colorspace).format == format,
        renderer.with_format(format, colorspace).colorspace == colorspace,
        ({
            let (after, step) = renderer.acquired(acquire);
            &&& after.swapchain_dirty <==> acquire is OutOfDate
            &&& step is StartOver <==> acquire is OutOfDate
            &&& acquire matches AcquireResult::Image(i) ==> step == FrameStep::Draw(i)
            &&& step is Failed <==> acquire is Failed
        }),
        ({
            let (after, step) = renderer.presented(present);
            &&& after.swapchain_dirty <==> present is Suboptimal || present is OutOfDate
            &&& step is Done <==> present is Shown
            &&& step is StartOver <==> present is Suboptimal || present is OutOfDate
            &&& step is Failed <==> present is Failed
        }),
{
}

/// Images have the size of the surface, or of the window where the surface leaves
/// that open; they are shown in the chosen format, not turned if that is possible.
pub proof fn images_fit_the_surface(
    renderer: &Renderer,
    caps: SurfaceCapabilities,
    present_modes: &Vec<i32>,
    plan: SwapchainPlan,
)
    requires
        call_ensures(Renderer::recreate_swapchain, (renderer, caps, present_modes), plan),
    ensures
        plan.format.format == renderer.format && plan.format.color_space == renderer.colorspace,
        caps.current_width == 0xffff_ffff ==> plan.width == renderer.width && plan.height
            == renderer.height,
        caps.current_width != 0xffff_ffff ==> plan.width == caps.current_width && plan.height
            == caps.current_height,
        plan.image_count == image_count(caps),
        caps.supported_transforms & 1 == 1 ==> plan.pre_transform == 1,
        caps.supported_transforms & 1 != 1 ==> plan.pre_transform == caps.current_transform,
{
}

/// Images are shown as soon as possible: the newest first, then at once, then in
/// order; any other mode comes last.
pub proof fn modes_are_ranked(mode: i32)
    ensures
        mode_rank(1) < mode_rank(0) < mode_rank(2),
        mode != 0 && mode != 1 && mode != 2 ==> mode_rank(2) < mode_rank(mode),
{
}

/// A discrete GPU comes first, and one that is built in second.
pub proof fn devices_are_ranked(kind: DeviceType)
    ensures
        device_rank(DeviceType::DiscreteGpu) < device_rank(DeviceType::IntegratedGpu)
            < device_rank(DeviceType::Other),
{
}

/// There is one image more than the surface needs, unless it allows no more.
pub proof fn one_image_is_spare(caps: SurfaceCapabilities)
    ensures
        caps.max_image_count == 0 || caps.min_image_count < caps.max_image_count ==> image_count(
            caps,
        ) == caps.min_image_count + 1,
        caps.max_image_count > 0 && caps.max_image_count <= caps.min_image_count ==> image_count(
            caps,
        ) == caps.max_image_count,
{
}

/// The best mode is one alone. Where images can be shown newest first, they are;
/// no mode that cannot be ranked is taken where images can be shown in order.
pub proof fn best_mode_is_one(modes: Seq<i32>, i: int, j: int)
    requires
        is_best_mode(modes, i),
    ensures
        is_best_mode(modes, j) ==> i == j,
        modes.contains(1) ==> modes[i] == 1,
        modes.contains(0) ==> modes[i] == 0 || modes[i] == 1,
        modes.contains(2) ==> modes[i] == 0 || modes[i] == 1 || modes[i] == 2,
{
    if is_best_mode(modes, j) {
        assert(mode_rank(modes[i]) <= mode_rank(modes[j]));
    }
}

/// The best device is one alone, can show the picture, and is a discrete GPU if any
/// of those that can is.
pub proof fn best_device_is_one(devices: Seq<Device>, i: int, j: int)
    requires
        is_best_device(devices, i),
        0 <= j < devices.len(),
        devices[j].is_eligible(),
    ensures
        devices[i].is_eligible(),
        is_best_device(devices, j) ==> i == j,
        devices[j].device_type is DiscreteGpu ==> devices[i].device_type is DiscreteGpu,
        devices[j].device_type is IntegratedGpu ==> !(devices[i].device_type is Other),
        devices[j].device_type == devices[i].device_type ==> i <= j,
{
}

/// Each value can be chosen once, and values are offered from the least to the
/// greatest.
pub proof fn choices_ascend(choices: Seq<i32>, all: Seq<i32>, i: int, j: int)
    requires
        lists_once(choices, all),
        0 <= i < j < choices.len(),
    ensures
        choices[i] < choices[j],
        all.contains(choices[i]),
        forall|n: int| 0 <= n < all.len() ==> choices.contains(#[trigger] all[n]),
{
    assert(choices.contains(choices[i]));
    assert forall|n: int| 0 <= n < all.len() implies choices.contains(#[trigger] all[n]) by {
        assert(all.contains(all[n]));
    }
}

} // verus!
