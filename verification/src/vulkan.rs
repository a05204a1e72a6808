//! Choosing a GPU, and what is asked of it.

pub mod timeline;

use vstd::prelude::*;
use crate::compositor::modifiers::{VK_FORMAT_B8G8R8A8_UNORM, VK_FORMAT_R8G8B8A8_UNORM};

verus! {

pub const QUEUE_GRAPHICS: u32 = 0x1;

pub const QUEUE_COMPUTE: u32 = 0x2;

pub const QUEUE_VIDEO_ENCODE: u32 = 0x40;

pub const MEMORY_DEVICE_LOCAL: u32 = 0x1;

pub const MEMORY_HOST_VISIBLE: u32 = 0x2;

pub const MEMORY_HOST_COHERENT: u32 = 0x4;

pub const MEMORY_HOST_CACHED: u32 = 0x8;

/// A device has at most so many types of memory.
pub const MAX_MEMORY_TYPES: usize = 32;

/// Stands for any family of queues.
pub const QUEUE_FAMILY_IGNORED: u32 = 0xffff_ffff;

/// The major number of the devices that render.
pub const DRM_MAJOR: i64 = 226;

pub const EXT_EXTERNAL_MEMORY_FD: &'static str = "VK_KHR_external_memory_fd";

pub const EXT_EXTERNAL_MEMORY_DMA_BUF: &'static str = "VK_EXT_external_memory_dma_buf";

pub const EXT_IMAGE_DRM_FORMAT_MODIFIER: &'static str = "VK_EXT_image_drm_format_modifier";

pub const EXT_PHYSICAL_DEVICE_DRM: &'static str = "VK_EXT_physical_device_drm";

pub const EXT_VIDEO_QUEUE: &'static str = "VK_KHR_video_queue";

pub const EXT_VIDEO_ENCODE_QUEUE: &'static str = "VK_KHR_video_encode_queue";

pub const EXT_H264: &'static str = "VK_KHR_video_encode_h264";

pub const EXT_H265: &'static str = "VK_KHR_video_encode_h265";

pub const EXT_AV1: &'static str = "VK_EXT_video_encode_av1";

pub const EXT_DEBUG_UTILS: &'static str = "VK_EXT_debug_utils";

pub const LAYER_VALIDATION: &'static str = "VK_LAYER_KHRONOS_validation";

#[derive(Debug, Clone, Copy, PartialEq, Eq, Structural)]
pub enum Vendor {
    Amd,
    Nvidia,
    Other,
}

#[derive(Debug, Clone, Copy, PartialEq, Eq, Structural)]
pub enum DeviceType {
    DiscreteGpu,
    IntegratedGpu,
    Other,
}

/// All of some flags are set.
pub open spec fn has_flags(value: u32, flags: u32) -> bool {
    value & flags == flags
}

pub open spec fn vendor_of(vendor_id: u32) -> Vendor {
    if vendor_id == 0x1002 {
        Vendor::Amd
    } else if vendor_id == 0x10de {
        Vendor::Nvidia
    } else {
        Vendor::Other
    }
}

impl Vendor {
    pub fn from_id(vendor_id: u32) -> (vendor: Vendor)
        ensures
            vendor == vendor_of(vendor_id),
    {
        match vendor_id {
            0x1002 => Vendor::Amd,
            0x10de => Vendor::Nvidia,
            _ => Vendor::Other,
        }
    }
}

/// A type of memory can be used: it is among those that are allowed, and has
/// the flags that are asked for.
pub open spec fn memory_fits(types: Seq<u32>, flags: u32, mask: Option<u32>, i: int) -> bool {
    &&& mask matches Some(mask) ==> mask & (1u32 << (i as u32)) != 0
    &&& has_flags(types[i], flags)
}

/// The first type of memory that can be used. `memory_type_bits` has a bit for
/// each type that is allowed.
pub fn select_memory_type(types: &Vec<u32>, flags: u32, memory_type_bits: Option<u32>) -> (index:
    Option<u32>)
    requires
        types@.len() <= MAX_MEMORY_TYPES,
    ensures
        match index {
            Some(i) => {
                &&& i < types@.len()
                &&& memory_fits(types@, flags, memory_type_bits, i as int)
                &&& forall|j: int|
                    0 <= j < i ==> !#[trigger] memory_fits(types@, flags, memory_type_bits, j)
            },
            None => forall|j: int|
                0 <= j < types@.len() ==> !#[trigger] memory_fits(
                    types@,
                    flags,
                    memory_type_bits,
                    j,
                ),
        },
{
    let mut i: u32 = 0;
    let count: u32 = types.len() as u32;
    while i < count
        invariant
            i <= count == types@.len(),
            count <= 32,
            forall|j: int|
                0 <= j < i ==> !#[trigger] memory_fits(types@, flags, memory_type_bits, j),
        decreases count - i,
    {
        let allowed = match memory_type_bits {
            Some(mask) => mask & (1u32 << i) != 0,
            None => true,
        };
        let kind: u32 = types[i as usize];
        if allowed && kind & flags == flags {
            assert(memory_fits(types@, flags, memory_type_bits, i as int));
            return Some(i);
        }
        assert(!memory_fits(types@, flags, memory_type_bits, i as int));
        i += 1;
    }
    None
}

/// No type of memory can be used.
#[derive(Debug, Clone, Copy, PartialEq, Eq, Structural)]
pub struct NoMemoryType;

/// The type of memory for an image: the first on the device that is allowed.
pub fn bind_memory_for_image(types: &Vec<u32>, memory_type_bits: u32) -> (index: Result<
    u32,
    NoMemoryType,
>)
    requires
        types@.len() <= MAX_MEMORY_TYPES,
    ensures
        match index {
            Ok(i) => {
                &&& i < types@.len()
                &&& memory_fits(types@, MEMORY_DEVICE_LOCAL, Some(memory_type_bits), i as int)
                &&& forall|j: int|
                    0 <= j < i ==> !#[trigger] memory_fits(
                        types@,
                        MEMORY_DEVICE_LOCAL,
                        Some(memory_type_bits),
                        j,
                    )
            },
            Err(_) => forall|j: int|
                0 <= j < types@.len() ==> !#[trigger] memory_fits(
                    types@,
                    MEMORY_DEVICE_LOCAL,
                    Some(memory_type_bits),
                    j,
                ),
        },
{
    match select_memory_type(types, MEMORY_DEVICE_LOCAL, Some(memory_type_bits)) {
        Some(i) => Ok(i),
        None => Err(NoMemoryType),
    }
}

/// Some text of a list has these characters.
pub open spec fn lists_text(list: Seq<String>, text: Seq<char>) -> bool {
    exists|i: int| 0 <= i < list.len() && (#[trigger] list[i])@ == text
}

pub fn contains_extension(list: &Vec<String>, name: &str) -> (found: bool)
    ensures
        found == lists_text(list@, name@),
{
    let wanted = name.to_owned();
    let mut i: usize = 0;
    while i < list.len()
        invariant
            i <= list@.len(),
            wanted@ == name@,
            forall|j: int| 0 <= j < i ==> (#[trigger] list@[j])@ != name@,
        decreases list.len() - i,
    {
        if list[i] == wanted {
            return true;
        }
        i += 1;
    }
    false
}

/// A component of an image is read as it is.
pub const SWIZZLE_IDENTITY: i32 = 0;

/// A component of an image is read as one.
pub const SWIZZLE_ONE: i32 = 2;

/// How the alpha channel of an image is read. Where it holds nothing, the
/// image is opaque.
pub fn alpha_swizzle(ignore_alpha: bool) -> (swizzle: i32)
    ensures
        swizzle == if ignore_alpha {
            SWIZZLE_ONE
        } else {
            SWIZZLE_IDENTITY
        },
{
    if ignore_alpha {
        SWIZZLE_ONE
    } else {
        SWIZZLE_IDENTITY
    }
}

/// What a device says of itself.
pub struct DeviceProperties {
    pub vendor_id: u32,
    pub device_type: DeviceType,
    pub render_major: i64,
    pub render_minor: i64,
    /// The flags of each family of queues.
    pub queue_families: Vec<u32>,
    pub extensions: Vec<String>,
    /// The flags of each type of memory.
    pub memory_types: Vec<u32>,
}

/// A device that can be used.
pub struct VkDeviceInfo {
    pub device_type: DeviceType,
    pub device_vendor: Vendor,
    pub drm_node: u64,
    pub graphics_family: u32,
    pub encode_family: Option<u32>,
    pub supports_h264: bool,
    pub supports_h265: bool,
    pub supports_av1: bool,
    pub host_visible_mem_type_index: u32,
    pub host_mem_is_cached: bool,
    pub selected_extensions: Vec<String>,
}

/// Why a device cannot be used.
#[derive(Debug, Clone, Copy, PartialEq, Eq)]
pub enum QueryError {
    NotARenderNode,
    NoGraphicsQueue,
    MissingExtension(&'static str),
    NoHostVisibleMemory,
}

/// The first family with all of some flags.
pub open spec fn is_first_family(families: Seq<u32>, flags: u32, i: int) -> bool {
    &&& 0 <= i < families.len()
    &&& has_flags(families[i], flags)
    &&& forall|j: int| 0 <= j < i ==> !has_flags(#[trigger] families[j], flags)
}

pub open spec fn has_family(families: Seq<u32>, flags: u32) -> bool {
    exists|i: int| 0 <= i < families.len() && has_flags(#[trigger] families[i], flags)
}

fn find_family(families: &Vec<u32>, flags: u32) -> (family: Option<u32>)
    requires
        families@.len() <= u32::MAX,
    ensures
        match family {
            Some(i) => is_first_family(families@, flags, i as int) && has_family(families@, flags),
            None => !has_family(families@, flags),
        },
{
    let mut i: usize = 0;
    while i < families.len()
        invariant
            i <= families@.len() <= u32::MAX,
            forall|j: int| 0 <= j < i ==> !has_flags(#[trigger] families@[j], flags),
        decreases families.len() - i,
    {
        let family: u32 = families[i];
        if family & flags == flags {
            assert(has_flags(families@[i as int], flags));
            return Some(i as u32);
        }
        i += 1;
    }
    None
}

/// The number of a device node.
pub open spec fn device_number(major: u32, minor: u32) -> int {
    (major / 0x1000) * 0x1000_0000_0000 + (major % 0x1000) * 0x100 + (minor / 0x100) * 0x10_0000
        + minor % 0x100
}

pub fn makedev(major: u32, minor: u32) -> (dev: u64)
    ensures
        dev == device_number(major, minor),
{
    let (a, b): (u64, u64) = (major as u64, minor as u64);
    (a / 0x1000) * 0x1000_0000_0000 + (a % 0x1000) * 0x100 + (b / 0x100) * 0x10_0000 + b % 0x100
}

/// The extensions that every device needs.
pub open spec fn required_extensions() -> Seq<Seq<char>> {
    seq![
        EXT_EXTERNAL_MEMORY_FD@,
        EXT_EXTERNAL_MEMORY_DMA_BUF@,
        EXT_IMAGE_DRM_FORMAT_MODIFIER@,
        EXT_PHYSICAL_DEVICE_DRM@,
    ]
}

pub open spec fn all_required(available: Seq<String>) -> bool {
    forall|i: int| 0 <= i < 4 ==> lists_text(available, #[trigger] required_extensions()[i])
}

/// The first extension that is missing.
pub open spec fn first_missing(available: Seq<String>, name: Seq<char>) -> bool {
    exists|i: int|
        #![trigger required_extensions()[i]]
        0 <= i < 4 && required_extensions()[i] == name && !lists_text(available, name) && forall|
            j: int,
        | 0 <= j < i ==> lists_text(available, #[trigger] required_extensions()[j])
}

/// Whether video can be encoded at all.
pub open spec fn can_encode(props: DeviceProperties) -> bool {
    &&& has_family(props.queue_families@, QUEUE_VIDEO_ENCODE)
    &&& lists_text(props.extensions@, EXT_VIDEO_QUEUE@)
    &&& lists_text(props.extensions@, EXT_VIDEO_ENCODE_QUEUE@)
}

/// A codec can be used, where video can be encoded.
pub open spec fn supports(props: DeviceProperties, extension: Seq<char>) -> bool {
    can_encode(props) && lists_text(props.extensions@, extension)
}

pub open spec fn if_supported(props: DeviceProperties, extension: Seq<char>) -> Seq<Seq<char>> {
    if supports(props, extension) {
        seq![extension]
    } else {
        Seq::empty()
    }
}

/// The extensions that are used of a device.
pub open spec fn selected(props: DeviceProperties) -> Seq<Seq<char>> {
    required_extensions() + (if can_encode(props) {
        seq![EXT_VIDEO_ENCODE_QUEUE@, EXT_VIDEO_QUEUE@]
    } else {
        Seq::empty()
    }) + if_supported(props, EXT_H264@) + if_supported(props, EXT_H265@) + if_supported(
        props,
        EXT_AV1@,
    )
}

pub open spec fn text_views(texts: Seq<String>) -> Seq<Seq<char>> {
    texts.map_values(|s: String| s@)
}

pub open spec fn cached_flags() -> u32 {
    MEMORY_HOST_VISIBLE | MEMORY_HOST_CACHED | MEMORY_HOST_COHERENT
}

pub open spec fn coherent_flags() -> u32 {
    MEMORY_HOST_VISIBLE | MEMORY_HOST_COHERENT
}

/// The first type of memory with some flags.
pub open spec fn is_first_memory(types: Seq<u32>, flags: u32, i: int) -> bool {
    &&& 0 <= i < types.len()
    &&& memory_fits(types, flags, None, i)
    &&& forall|j: int| 0 <= j < i ==> !#[trigger] memory_fits(types, flags, None, j)
}

pub open spec fn has_memory(types: Seq<u32>, flags: u32) -> bool {
    exists|i: int| 0 <= i < types.len() && #[trigger] memory_fits(types, flags, None, i)
}

pub open spec fn is_render_node(props: DeviceProperties) -> bool {
    props.render_major == DRM_MAJOR && props.render_minor >= 128
}

/// A device can be used.
pub open spec fn is_eligible(props: DeviceProperties) -> bool {
    &&& is_render_node(props)
    &&& has_family(props.queue_families@, QUEUE_GRAPHICS | QUEUE_COMPUTE)
    &&& all_required(props.extensions@)
    &&& has_memory(props.memory_types@, coherent_flags())
}

/// How a device can be used.
pub open spec fn describes(info: VkDeviceInfo, props: DeviceProperties) -> bool {
    &&& info.device_type == props.device_type
    &&& info.device_vendor == vendor_of(props.vendor_id)
    &&& info.drm_node == device_number(
        props.render_major as u32,
        props.render_minor as u32,
    )
    &&& is_first_family(
        props.queue_families@,
        QUEUE_GRAPHICS | QUEUE_COMPUTE,
        info.graphics_family as int,
    )
    &&& match info.encode_family {
        Some(i) => is_first_family(
            props.queue_families@,
            QUEUE_VIDEO_ENCODE,
            i as int,
        ),
        None => !has_family(props.queue_families@, QUEUE_VIDEO_ENCODE),
    }
    &&& info.supports_h264 == supports(props, EXT_H264@)
    &&& info.supports_h265 == supports(props, EXT_H265@)
    &&& info.supports_av1 == supports(props, EXT_AV1@)
    &&& text_views(info.selected_extensions@) == selected(props)
    &&& info.host_mem_is_cached == has_memory(props.memory_types@, cached_flags())
    &&& is_first_memory(
        props.memory_types@,
        if info.host_mem_is_cached {
            cached_flags()
        } else {
            coherent_flags()
        },
        info.host_visible_mem_type_index as int,
    )
}

impl VkDeviceInfo {
    /// Looks whether a device can be used, and how.
    pub fn query(props: &DeviceProperties) -> (result: Result<VkDeviceInfo, QueryError>)
        requires
            props.queue_families@.len() <= u32::MAX,
            props.memory_types@.len() <= MAX_MEMORY_TYPES,
        ensures
            result is Ok <==> is_eligible(*props),
            match result {
                Ok(info) => describes(info, *props),
                Err(QueryError::NotARenderNode) => !is_render_node(*props),
                Err(QueryError::NoGraphicsQueue) => is_render_node(*props) && !has_family(
                    props.queue_families@,
                    QUEUE_GRAPHICS | QUEUE_COMPUTE,
                ),
                Err(QueryError::MissingExtension(name)) => is_render_node(*props) && has_family(
                    props.queue_families@,
                    QUEUE_GRAPHICS | QUEUE_COMPUTE,
                ) && first_missing(props.extensions@, name@),
                Err(QueryError::NoHostVisibleMemory) => is_render_node(*props) && has_family(
                    props.queue_families@,
                    QUEUE_GRAPHICS | QUEUE_COMPUTE,
                ) && all_required(props.extensions@) && !has_memory(
                    props.memory_types@,
                    coherent_flags(),
                ),
            },
    {
        if props.render_major != DRM_MAJOR || props.render_minor < 128 {
            return Err(QueryError::NotARenderNode);
        }
        let minor: u32 =
            #[verifier::truncate]
            (props.render_minor as u32);
        let drm_node: u64 = makedev(props.render_major as u32, minor);
        let graphics_family: u32 = match find_family(
            &props.queue_families,
            QUEUE_GRAPHICS | QUEUE_COMPUTE,
        ) {
            Some(family) => family,
            None => {
                return Err(QueryError::NoGraphicsQueue);
            },
        };
        let encode_family = find_family(&props.queue_families, QUEUE_VIDEO_ENCODE);
        let available = &props.extensions;
        assert(required_extensions()[0] == EXT_EXTERNAL_MEMORY_FD@);
        assert(required_extensions()[1] == EXT_EXTERNAL_MEMORY_DMA_BUF@);
        assert(required_extensions()[2] == EXT_IMAGE_DRM_FORMAT_MODIFIER@);
        assert(required_extensions()[3] == EXT_PHYSICAL_DEVICE_DRM@);
        if !contains_extension(available, EXT_EXTERNAL_MEMORY_FD) {
            return Err(QueryError::MissingExtension(EXT_EXTERNAL_MEMORY_FD));
        }
        if !contains_extension(available, EXT_EXTERNAL_MEMORY_DMA_BUF) {
            return Err(QueryError::MissingExtension(EXT_EXTERNAL_MEMORY_DMA_BUF));
        }
        if !contains_extension(available, EXT_IMAGE_DRM_FORMAT_MODIFIER) {
            return Err(QueryError::MissingExtension(EXT_IMAGE_DRM_FORMAT_MODIFIER));
        }
        if !contains_extension(available, EXT_PHYSICAL_DEVICE_DRM) {
            return Err(QueryError::MissingExtension(EXT_PHYSICAL_DEVICE_DRM));
        }
        let mut selected_extensions: Vec<String> = Vec::new();
        selected_extensions.push(EXT_EXTERNAL_MEMORY_FD.to_owned());
        selected_extensions.push(EXT_EXTERNAL_MEMORY_DMA_BUF.to_owned());
        selected_extensions.push(EXT_IMAGE_DRM_FORMAT_MODIFIER.to_owned());
        selected_extensions.push(EXT_PHYSICAL_DEVICE_DRM.to_owned());
        let mut supports_h264 = false;
        let mut supports_h265 = false;
        let mut supports_av1 = false;
        if encode_family.is_some() && contains_extension(available, EXT_VIDEO_QUEUE)
            && contains_extension(available, EXT_VIDEO_ENCODE_QUEUE) {
            selected_extensions.push(EXT_VIDEO_ENCODE_QUEUE.to_owned());
            selected_extensions.push(EXT_VIDEO_QUEUE.to_owned());
            if contains_extension(available, EXT_H264) {
                supports_h264 = true;
                selected_extensions.push(EXT_H264.to_owned());
            }
            if contains_extension(available, EXT_H265) {
                supports_h265 = true;
                selected_extensions.push(EXT_H265.to_owned());
            }
            if contains_extension(available, EXT_AV1) {
                supports_av1 = true;
                selected_extensions.push(EXT_AV1.to_owned());
            }
        }
        assert(text_views(selected_extensions@) =~= selected(*props));
        let types = &props.memory_types;
        let (host_visible_mem_type_index, host_mem_is_cached): (u32, bool) =
            match select_memory_type(
            types,
            MEMORY_HOST_VISIBLE | MEMORY_HOST_CACHED | MEMORY_HOST_COHERENT,
            None,
        ) {
            Some(index) => {
                proof {
                    let kind = types@[index as int];
                    assert(has_flags(kind, cached_flags()));
                    assert(kind & 6u32 == 6u32) by (bit_vector)
                        requires
                            kind & (2u32 | 8u32 | 4u32) == (2u32 | 8u32 | 4u32),
                    ;
                    assert(2u32 | 4u32 == 6u32) by (bit_vector);
                    assert(memory_fits(types@, coherent_flags(), None, index as int));
                }
                (index, true)
            },
            None => match select_memory_type(
                types,
                MEMORY_HOST_VISIBLE | MEMORY_HOST_COHERENT,
                None,
            ) {
                Some(index) => (index, false),
                None => {
                    return Err(QueryError::NoHostVisibleMemory);
                },
            },
        };
        Ok(
            VkDeviceInfo {
                device_type: props.device_type,
                device_vendor: Vendor::from_id(props.vendor_id),
                drm_node,
                graphics_family,
                encode_family,
                supports_h264,
                supports_h265,
                supports_av1,
                host_visible_mem_type_index,
                host_mem_is_cached,
                selected_extensions,
            },
        )
    }
}

/// How a device compares with others: a lower number is better.
pub open spec fn score(info: VkDeviceInfo) -> int {
    (match info.device_type {
        DeviceType::DiscreteGpu => 0int,
        DeviceType::IntegratedGpu => 10,
        DeviceType::Other => 20,
    }) + (if info.encode_family is None {
        1int
    } else {
        0
    }) + (if info.supports_h264 {
        0int
    } else {
        1
    }) + (if info.supports_h265 {
        0int
    } else {
        1
    }) + (if info.supports_av1 {
        0int
    } else {
        1
    })
}

fn missing(present: bool) -> (penalty: u32)
    ensures
        penalty == if present {
            0u32
        } else {
            1
        },
{
    if present {
        0
    } else {
        1
    }
}

fn device_score(info: &VkDeviceInfo) -> (result: u32)
    ensures
        result == score(*info),
{
    let base: u32 = match info.device_type {
        DeviceType::DiscreteGpu => 0,
        DeviceType::IntegratedGpu => 10,
        DeviceType::Other => 20,
    };
    base + missing(info.encode_family.is_some()) + missing(info.supports_h264) + missing(
        info.supports_h265,
    ) + missing(info.supports_av1)
}

/// No device can be used.
#[derive(Debug, Clone, Copy, PartialEq, Eq, Structural)]
pub struct NoSuitableGpu;

/// Chooses the best of the devices; of equal ones, the first.
pub fn select_device(devices: &Vec<VkDeviceInfo>) -> (index: Result<usize, NoSuitableGpu>)
    ensures
        match index {
            Ok(i) => {
                &&& i < devices@.len()
                &&& forall|j: int|
                    0 <= j < devices@.len() ==> score(devices@[i as int]) <= score(
                        #[trigger] devices@[j],
                    )
                &&& forall|j: int|
                    0 <= j < i ==> score(devices@[i as int]) < score(#[trigger] devices@[j])
            },
            Err(_) => devices@.len() == 0,
        },
{
    if devices.len() == 0 {
        return Err(NoSuitableGpu);
    }
    let mut best: usize = 0;
    let mut best_score: u32 = device_score(&devices[0]);
    let mut i: usize = 1;
    while i < devices.len()
        invariant
            best < i <= devices@.len(),
            best_score == score(devices@[best as int]),
            forall|j: int| 0 <= j < i ==> best_score <= score(#[trigger] devices@[j]),
            forall|j: int| 0 <= j < best ==> best_score < score(#[trigger] devices@[j]),
        decreases devices.len() - i,
    {
        let next: u32 = device_score(&devices[i]);
        if next < best_score {
            best = i;
            best_score = next;
        }
        i += 1;
    }
    Ok(best)
}

/// How a device compares with others, by its properties.
pub open spec fn props_score(props: DeviceProperties) -> int {
    (match props.device_type {
        DeviceType::DiscreteGpu => 0int,
        DeviceType::IntegratedGpu => 10,
        DeviceType::Other => 20,
    }) + (if has_family(props.queue_families@, QUEUE_VIDEO_ENCODE) {
        0int
    } else {
        1
    }) + (if supports(props, EXT_H264@) {
        0int
    } else {
        1
    }) + (if supports(props, EXT_H265@) {
        0int
    } else {
        1
    }) + (if supports(props, EXT_AV1@) {
        0int
    } else {
        1
    })
}

/// The best of the devices that can be used; of equal ones, the first.
pub open spec fn is_best_device(devices: Seq<DeviceProperties>, i: int) -> bool {
    &&& 0 <= i < devices.len()
    &&& is_eligible(devices[i])
    &&& forall|j: int|
        0 <= j < devices.len() && is_eligible(#[trigger] devices[j]) ==> props_score(devices[i])
            <= props_score(devices[j])
    &&& forall|j: int|
        0 <= j < i && is_eligible(#[trigger] devices[j]) ==> props_score(devices[i])
            < props_score(devices[j])
}

/// Looks at all devices, and chooses the best of those that can be used.
pub fn choose_device(devices: &Vec<DeviceProperties>) -> (result: Result<
    (usize, VkDeviceInfo),
    NoSuitableGpu,
>)
    requires
        forall|i: int|
            0 <= i < devices@.len() ==> (#[trigger] devices@[i]).queue_families@.len() <= u32::MAX
                && devices@[i].memory_types@.len() <= MAX_MEMORY_TYPES,
    ensures
        match result {
            Ok((i, info)) => is_best_device(devices@, i as int) && describes(
                info,
                devices@[i as int],
            ),
            Err(_) => forall|i: int| 0 <= i < devices@.len() ==> !is_eligible(#[trigger] devices@[i]),
        },
{
    let mut eligible: Vec<VkDeviceInfo> = Vec::new();
    let mut places: Vec<usize> = Vec::new();
    let mut i: usize = 0;
    while i < devices.len()
        invariant
            i <= devices@.len(),
            eligible@.len() == places@.len(),
            forall|k: int|
                0 <= k < devices@.len() ==> (#[trigger] devices@[k]).queue_families@.len()
                    <= u32::MAX && devices@[k].memory_types@.len() <= MAX_MEMORY_TYPES,
            forall|k: int|
                0 <= k < places@.len() ==> (#[trigger] places@[k]) < i && is_eligible(
                    devices@[places@[k] as int],
                ) && describes(eligible@[k], devices@[places@[k] as int]),
            forall|j: int, k: int| 0 <= j < k < places@.len() ==> places@[j] < places@[k],
            forall|j: int|
                0 <= j < i && is_eligible(#[trigger] devices@[j]) ==> places@.contains(j as usize),
        decreases devices.len() - i,
    {
        if let Ok(info) = VkDeviceInfo::query(&devices[i]) {
            let ghost before = places@;
            eligible.push(info);
            places.push(i);
            proof {
                assert(places@[before.len() as int] == i);
                assert forall|j: int| 0 <= j < i + 1 && is_eligible(
                    #[trigger] devices@[j],
                ) implies places@.contains(j as usize) by {
                    if j < i {
                        let k = choose|k: int| 0 <= k < before.len() && before[k] == j as usize;
                        assert(places@[k] == j as usize);
                    }
                }
            }
        }
        i += 1;
    }
    let ghost old_eligible = eligible@;
    match select_device(&eligible) {
        Ok(best) => {
            let place: usize = places[best];
            let info = eligible.swap_remove(best);
            proof {
                assert(describes(info, devices@[place as int]));
                assert forall|j: int| 0 <= j < devices@.len() && is_eligible(
                    #[trigger] devices@[j],
                ) implies props_score(devices@[place as int]) <= props_score(devices@[j]) && (j
                    < place ==> props_score(devices@[place as int]) < props_score(devices@[j])) by {
                    let k = choose|k: int| 0 <= k < places@.len() && places@[k] == j as usize;
                    assert(describes(old_eligible[k], devices@[j]));
                }
            }
            Ok((place, info))
        },
        Err(err) => {
            assert forall|j: int| 0 <= j < devices@.len() implies !is_eligible(
                #[trigger] devices@[j],
            ) by {
                if is_eligible(devices@[j]) {
                    assert(places@.contains(j as usize));
                }
            }
            Err(err)
        },
    }
}

/// A discrete GPU is chosen over any other, whatever each can encode.
pub proof fn discrete_is_preferred(a: VkDeviceInfo, b: VkDeviceInfo)
    requires
        a.device_type == DeviceType::DiscreteGpu,
        b.device_type != DeviceType::DiscreteGpu,
    ensures
        score(a) < score(b),
{
}

/// A number of a version of the API: its major and its minor part.
pub open spec fn api_version(version: Option<u32>) -> (u32, u32) {
    match version {
        Some(version) => (
            (version / 0x40_0000 % 0x80) as u32,
            (version / 0x1000 % 0x400) as u32,
        ),
        None => (1, 0),
    }
}

/// The API is too old.
#[derive(Debug, Clone, Copy, PartialEq, Eq, Structural)]
pub struct ApiTooOld;

/// Checks the version of the API: at least 1.3 is needed. The first version
/// does not say its number.
pub fn check_api_version(version: Option<u32>) -> (result: Result<(u32, u32), ApiTooOld>)
    ensures
        ({
            let (major, minor) = api_version(version);
            match result {
                Ok(v) => v == (major, minor) && (major > 1 || major == 1 && minor >= 3),
                Err(_) => major < 1 || major == 1 && minor < 3,
            }
        }),
{
    let (major, minor): (u32, u32) = match version {
        Some(version) => (version / 0x40_0000 % 0x80, version / 0x1000 % 0x400),
        None => (1, 0),
    };
    if major < 1 || (major == 1 && minor < 3) {
        Err(ApiTooOld)
    } else {
        Ok((major, minor))
    }
}

/// What an instance is created with.
pub struct InstancePlan {
    pub extensions: Vec<String>,
    pub layers: Vec<String>,
}

/// Debugging was asked for, and is not available.
#[derive(Debug, Clone, Copy, PartialEq, Eq, Structural)]
pub struct DebugUnavailable;

/// The extensions and layers of the instance. Debugging needs an extension; it
/// does without validation where that is not available.
pub fn plan_instance(
    enable_debug: bool,
    available_extensions: &Vec<String>,
    available_layers: &Vec<String>,
) -> (result: Result<InstancePlan, DebugUnavailable>)
    ensures
        result is Err <==> enable_debug && !lists_text(available_extensions@, EXT_DEBUG_UTILS@),
        result matches Ok(plan) ==> {
            &&& text_views(plan.extensions@) == if enable_debug {
                seq![EXT_DEBUG_UTILS@]
            } else {
                Seq::empty()
            }
            &&& text_views(plan.layers@) == if enable_debug && lists_text(
                available_layers@,
                LAYER_VALIDATION@,
            ) {
                seq![LAYER_VALIDATION@]
            } else {
                Seq::empty()
            }
        },
{
    let mut extensions: Vec<String> = Vec::new();
    let mut layers: Vec<String> = Vec::new();
    if enable_debug {
        if !contains_extension(available_extensions, EXT_DEBUG_UTILS) {
            return Err(DebugUnavailable);
        }
        extensions.push(EXT_DEBUG_UTILS.to_owned());
        if contains_extension(available_layers, LAYER_VALIDATION) {
            layers.push(LAYER_VALIDATION.to_owned());
        }
    }
    assert(text_views(extensions@) =~= if enable_debug {
        seq![EXT_DEBUG_UTILS@]
    } else {
        Seq::empty()
    });
    assert(text_views(layers@) =~= if enable_debug && lists_text(
        available_layers@,
        LAYER_VALIDATION@,
    ) {
        seq![LAYER_VALIDATION@]
    } else {
        Seq::empty()
    });
    Ok(InstancePlan { extensions, layers })
}

/// The families that a device gets a queue of: each once.
pub fn queue_families(info: &VkDeviceInfo) -> (families: Vec<u32>)
    ensures
        families@ == match info.encode_family {
            Some(encode) if encode != info.graphics_family => seq![info.graphics_family, encode],
            _ => seq![info.graphics_family],
        },
{
    let mut families: Vec<u32> = Vec::new();
    families.push(info.graphics_family);
    if let Some(encode) = info.encode_family {
        if encode != info.graphics_family {
            families.push(encode);
        }
    }
    assert(families@ =~= match info.encode_family {
        Some(encode) if encode != info.graphics_family => seq![info.graphics_family, encode],
        _ => seq![info.graphics_family],
    });
    families
}

/// The families that an image is handed between: none, unless it is handed
/// over.
pub fn barrier_families(queue_transfer: Option<(u32, u32)>) -> (families: (u32, u32))
    ensures
        families == match queue_transfer {
            Some(families) => families,
            None => (QUEUE_FAMILY_IGNORED, QUEUE_FAMILY_IGNORED),
        },
{
    match queue_transfer {
        Some(families) => families,
        None => (QUEUE_FAMILY_IGNORED, QUEUE_FAMILY_IGNORED),
    }
}

/// The bytes per pixel of an image.
pub fn format_bpp(format: i32) -> (bpp: usize)
    requires
        format == VK_FORMAT_R8G8B8A8_UNORM || format == VK_FORMAT_B8G8R8A8_UNORM,
    ensures
        bpp == 4,
{
    4
}

/// Times that the device measured are never zero, and never negative.
pub fn valid_timestamps(results: &Vec<i64>) -> (valid: bool)
    ensures
        valid == forall|i: int| 0 <= i < results@.len() ==> results@[i] > 0,
{
    let mut i: usize = 0;
    while i < results.len()
        invariant
            i <= results@.len(),
            forall|j: int| 0 <= j < i ==> results@[j] > 0,
        decreases results.len() - i,
    {
        if results[i] <= 0 {
            return false;
        }
        i += 1;
    }
    true
}

/// What a list, read from the driver in two calls, came to.
#[derive(Debug, Clone, Copy, PartialEq, Eq, Structural)]
pub enum ListRead {
    Done,
    /// The list has grown in the meantime.
    Retry,
    Failed(i32),
}

pub const VK_SUCCESS: i32 = 0;

pub const VK_INCOMPLETE: i32 = 5;

/// Decides by the results of the call that counts the items, and of the call
/// that reads them.
pub fn list_read(counted: i32, read: i32) -> (outcome: ListRead)
    ensures
        outcome == if counted != VK_SUCCESS {
            ListRead::Failed(counted)
        } else if read == VK_INCOMPLETE {
            ListRead::Retry
        } else if read != VK_SUCCESS {
            ListRead::Failed(read)
        } else {
            ListRead::Done
        },
{
    if counted != VK_SUCCESS {
        ListRead::Failed(counted)
    } else if read == VK_INCOMPLETE {
        ListRead::Retry
    } else if read != VK_SUCCESS {
        ListRead::Failed(read)
    } else {
        ListRead::Done
    }
}

/// The kind of device counts more than anything that it can encode, and each
/// thing that it cannot encode counts against it.
pub proof fn devices_are_ranked(a: VkDeviceInfo, b: VkDeviceInfo)
    ensures
        a.device_type is DiscreteGpu && b.device_type is IntegratedGpu ==> score(a) < score(b),
        a.device_type is IntegratedGpu && b.device_type is Other ==> score(a) < score(b),
        a.device_type == b.device_type && a.encode_family is Some && b.encode_family is Some
            && a.supports_h264 == b.supports_h264 && a.supports_h265 == b.supports_h265
            && a.supports_av1 && !b.supports_av1 ==> score(a) < score(b),
        a.device_type == b.device_type && a.encode_family is Some && b.encode_family is Some
            && a.supports_h264 == b.supports_h264 && a.supports_av1 == b.supports_av1
            && a.supports_h265 && !b.supports_h265 ==> score(a) < score(b),
        a.device_type == b.device_type && a.encode_family is Some && b.encode_family is Some
            && a.supports_av1 == b.supports_av1 && a.supports_h265 == b.supports_h265
            && a.supports_h264 && !b.supports_h264 ==> score(a) < score(b),
        a.device_type == b.device_type && a.encode_family is Some && b.encode_family is None
            && a.supports_av1 == b.supports_av1 && a.supports_h265 == b.supports_h265
            && a.supports_h264 == b.supports_h264 ==> score(a) < score(b),
{
}

/// What a device says of itself ranks it just as what is made of it does.
pub proof fn properties_rank_alike(info: VkDeviceInfo, props: DeviceProperties)
    requires
        describes(info, props),
    ensures
        props_score(props) == score(info),
{
}

/// A device is used as it can be: it draws and computes with one family of
/// queues, encodes with one that encodes, and each codec needs its own extension.
pub proof fn device_is_used_as_it_can_be(info: VkDeviceInfo, props: DeviceProperties)
    requires
        describes(info, props),
    ensures
        info.device_type == props.device_type,
        props.queue_families@[info.graphics_family as int] & 3 == 3,
        info.encode_family matches Some(i) ==> props.queue_families@[i as int] & 0x40 == 0x40,
        info.supports_h264 ==> info.encode_family is Some && lists_text(
            props.extensions@,
            EXT_H264@,
        ),
        info.supports_h265 ==> info.encode_family is Some && lists_text(
            props.extensions@,
            EXT_H265@,
        ),
        info.supports_av1 ==> info.encode_family is Some && lists_text(
            props.extensions@,
            EXT_AV1@,
        ),
        can_encode(props) && lists_text(props.extensions@, EXT_H264@) ==> info.supports_h264,
        can_encode(props) && lists_text(props.extensions@, EXT_H265@) ==> info.supports_h265,
        can_encode(props) && lists_text(props.extensions@, EXT_AV1@) ==> info.supports_av1,
        props.memory_types@[info.host_visible_mem_type_index as int] & 6 == 6,
        info.host_mem_is_cached ==> props.memory_types@[info.host_visible_mem_type_index as int]
            & 8 == 8,
{
    let graphics = props.queue_families@[info.graphics_family as int];
    assert(graphics & 3 == 3) by (bit_vector)
        requires
            graphics & (1u32 | 2u32) == (1u32 | 2u32),
    ;
    let memory = props.memory_types@[info.host_visible_mem_type_index as int];
    if info.host_mem_is_cached {
        assert(memory & 6 == 6 && memory & 8 == 8) by (bit_vector)
            requires
                memory & (2u32 | 8u32 | 4u32) == (2u32 | 8u32 | 4u32),
        ;
    } else {
        assert(memory & 6 == 6) by (bit_vector)
            requires
                memory & (2u32 | 4u32) == (2u32 | 4u32),
        ;
    }
    if let Some(i) = info.encode_family {
        let encode = props.queue_families@[i as int];
        assert(has_flags(encode, QUEUE_VIDEO_ENCODE));
    }
}

/// The vendors are told apart by their numbers.
pub proof fn vendors_have_numbers(vendor_id: u32)
    ensures
        vendor_of(vendor_id) is Amd <==> vendor_id == 0x1002,
        vendor_of(vendor_id) is Nvidia <==> vendor_id == 0x10de,
{
}

/// Different device nodes have different numbers.
pub proof fn device_numbers_differ(major: u32, minor: u32, other_major: u32, other_minor: u32)
    requires
        major < 0x1000,
        other_major < 0x1000,
        device_number(major, minor) == device_number(other_major, other_minor),
    ensures
        major == other_major,
        minor == other_minor,
{
}

/// The version of an API has its major part above its minor one, and the API is
/// used from 1.3 on.
pub proof fn api_is_recent_enough(major: u32, minor: u32, patch: u32, result: Result<(u32, u32), ApiTooOld>)
    requires
        major < 0x80,
        minor < 0x400,
        patch < 0x1000,
        call_ensures(
            check_api_version,
            (Some((major * 0x40_0000 + minor * 0x1000 + patch) as u32),),
            result,
        ),
    ensures
        result is Ok <==> major > 1 || major == 1 && minor >= 3,
        result matches Ok((a, b)) ==> a == major && b == minor,
{
    let version = (major * 0x40_0000 + minor * 0x1000 + patch) as u32;
    assert(version as int / 0x40_0000 == major);
    assert(version as int / 0x1000 == major * 0x400 + minor);
}

/// Each family of queues is used once, and that for drawing always.
pub proof fn families_are_used_once(info: &VkDeviceInfo, families: Vec<u32>)
    requires
        call_ensures(queue_families, (info,), families),
    ensures
        families@.no_duplicates(),
        families@.contains(info.graphics_family),
        info.encode_family matches Some(encode) ==> families@.contains(encode),
        families@.len() <= 2,
{
    assert(families@[0] == info.graphics_family);
    if let Some(encode) = info.encode_family {
        if encode != info.graphics_family {
            assert(families@[1] == encode);
        }
    }
}

/// An image is handed from the first family to the second, or to none.
pub proof fn images_are_handed_over(queue_transfer: Option<(u32, u32)>, families: (u32, u32))
    requires
        call_ensures(barrier_families, (queue_transfer,), families),
    ensures
        queue_transfer matches Some((from, to)) ==> families == (from, to),
        queue_transfer is None ==> families == (0xffff_ffffu32, 0xffff_ffffu32),
{
}

/// A list is read again if it has grown, and any other result than success is a
/// failure.
pub proof fn lists_are_read_whole(counted: i32, read: i32, outcome: ListRead)
    requires
        call_ensures(list_read, (counted, read), outcome),
    ensures
        outcome is Done <==> counted == 0 && read == 0,
        outcome is Retry <==> counted == 0 && read == 5,
        outcome matches ListRead::Failed(code) ==> code != 0 && (code == counted || code == read),
{
}

/// An image without alpha is opaque.
pub proof fn missing_alpha_is_one(ignore_alpha: bool, swizzle: i32)
    requires
        call_ensures(alpha_swizzle, (ignore_alpha,), swizzle),
    ensures
        ignore_alpha <==> swizzle == 2,
        !ignore_alpha <==> swizzle == 0,
{
}

/// The best device is one alone and can be used, and no discrete GPU that can be
/// used is passed over for another kind of device.
pub proof fn best_device_is_one(devices: Seq<DeviceProperties>, i: int, j: int)
    requires
        is_best_device(devices, i),
        0 <= j < devices.len(),
        is_eligible(devices[j]),
    ensures
        is_eligible(devices[i]),
        is_best_device(devices, j) ==> i == j,
        devices[j].device_type is DiscreteGpu ==> devices[i].device_type is DiscreteGpu,
        devices[j].device_type is IntegratedGpu ==> !(devices[i].device_type is Other),
{
}

/// A driver that does not tell its version has the first, which is too old.
pub proof fn first_version_is_too_old(result: Result<(u32, u32), ApiTooOld>)
    requires
        call_ensures(check_api_version, (None,), result),
    ensures
        api_version(None) == (1u32, 0u32),
        result is Err,
{
}

} // verus!
