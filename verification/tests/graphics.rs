use ash::vk;
use mmserver::color_test::{
    colorspace_supported, format_is_srgb, query_device, requested_version, select_device,
    usable_surface_formats, AcquireResult, Device, DeviceError, FrameStart, FrameStep, PresentResult,
    Renderer, SurfaceCapabilities, SurfaceFormat, EXTENT_UNDEFINED, EXT_SWAPCHAIN,
};
use mmserver::latency_test::{input_mode, InputMode, MovingBox};
use mmserver::vulkan::{
    alpha_swizzle, barrier_families, bind_memory_for_image, check_api_version, choose_device, format_bpp, list_read, makedev,
    plan_instance, queue_families, select_memory_type, valid_timestamps, DeviceProperties,
    DeviceType, ListRead, QueryError, Vendor, VkDeviceInfo, EXT_AV1, EXT_DEBUG_UTILS,
    EXT_EXTERNAL_MEMORY_DMA_BUF, EXT_EXTERNAL_MEMORY_FD, EXT_H264, EXT_H265,
    EXT_IMAGE_DRM_FORMAT_MODIFIER, EXT_PHYSICAL_DEVICE_DRM, EXT_VIDEO_ENCODE_QUEUE,
    EXT_VIDEO_QUEUE, LAYER_VALIDATION, QUEUE_FAMILY_IGNORED,
};

fn texts(list: &[&str]) -> Vec<String> {
    list.iter().map(|s| s.to_string()).collect()
}

fn required() -> Vec<&'static str> {
    vec![
        EXT_EXTERNAL_MEMORY_FD,
        EXT_EXTERNAL_MEMORY_DMA_BUF,
        EXT_IMAGE_DRM_FORMAT_MODIFIER,
        EXT_PHYSICAL_DEVICE_DRM,
    ]
}

fn props(extensions: &[&str]) -> DeviceProperties {
    DeviceProperties {
        vendor_id: 0x1002,
        device_type: DeviceType::DiscreteGpu,
        render_major: 226,
        render_minor: 128,
        queue_families: vec![2, 0x43, 0x40],
        extensions: texts(extensions),
        memory_types: vec![1, 6, 14],
    }
}

fn info(device_type: DeviceType, h264: bool) -> VkDeviceInfo {
    VkDeviceInfo {
        device_type,
        device_vendor: Vendor::Other,
        drm_node: 0,
        graphics_family: 0,
        encode_family: if h264 { Some(1) } else { None },
        supports_h264: h264,
        supports_h265: false,
        supports_av1: false,
        host_visible_mem_type_index: 0,
        host_mem_is_cached: true,
        selected_extensions: vec![],
    }
}

#[test]
fn devices_are_queried() {
    let mut extensions = required();
    extensions.extend([EXT_VIDEO_QUEUE, EXT_VIDEO_ENCODE_QUEUE, EXT_H264, EXT_AV1]);
    let info = match VkDeviceInfo::query(&props(&extensions)) {
        Ok(info) => info,
        Err(err) => panic!("{:?}", err),
    };
    assert_eq!(info.device_vendor, Vendor::Amd);
    assert_eq!(info.drm_node, 0xe280);
    assert_eq!(info.graphics_family, 1);
    assert_eq!(info.encode_family, Some(1));
    assert!(info.supports_h264 && !info.supports_h265 && info.supports_av1);
    assert_eq!(info.host_visible_mem_type_index, 2);
    assert!(info.host_mem_is_cached);
    let mut expected = required();
    expected.extend([EXT_VIDEO_ENCODE_QUEUE, EXT_VIDEO_QUEUE, EXT_H264, EXT_AV1]);
    assert_eq!(info.selected_extensions, expected);
    assert_eq!(queue_families(&info), vec![1]);

    let mut plain = props(&required());
    plain.queue_families = vec![3];
    plain.memory_types = vec![1, 6];
    let info = VkDeviceInfo::query(&plain).unwrap_or_else(|e| panic!("{:?}", e));
    assert_eq!(info.encode_family, None);
    assert_eq!(info.host_visible_mem_type_index, 1);
    assert!(!info.host_mem_is_cached);
    assert_eq!(info.selected_extensions, required());
}

#[test]
fn devices_are_ineligible() {
    let err = |props: DeviceProperties| match VkDeviceInfo::query(&props) {
        Err(err) => err,
        Ok(_) => panic!("expected error"),
    };
    let mut card = props(&required());
    card.render_minor = 127;
    assert_eq!(err(card), QueryError::NotARenderNode);
    let mut compute = props(&required());
    compute.queue_families = vec![1, 2];
    assert_eq!(err(compute), QueryError::NoGraphicsQueue);
    assert_eq!(
        err(props(&required()[..2])),
        QueryError::MissingExtension(EXT_IMAGE_DRM_FORMAT_MODIFIER)
    );
    let mut blind = props(&required());
    blind.memory_types = vec![1, 2];
    assert_eq!(err(blind), QueryError::NoHostVisibleMemory);
}

#[test]
fn the_best_device_is_selected() {
    let devices = vec![
        info(DeviceType::IntegratedGpu, true),
        info(DeviceType::DiscreteGpu, false),
        info(DeviceType::DiscreteGpu, true),
        info(DeviceType::DiscreteGpu, true),
    ];
    assert!(matches!(mmserver::vulkan::select_device(&devices), Ok(2)));
    assert!(mmserver::vulkan::select_device(&vec![]).is_err());
    assert_eq!(queue_families(&devices[2]), vec![0, 1]);
}

#[test]
fn memory_types() {
    let types = vec![1, 6, 14, 1];
    assert_eq!(select_memory_type(&types, 6, None), Some(1));
    assert_eq!(select_memory_type(&types, 6, Some(0b1100)), Some(2));
    assert_eq!(select_memory_type(&types, 0, Some(0b1000)), Some(3));
    assert_eq!(select_memory_type(&types, 16, None), None);
    assert!(matches!(bind_memory_for_image(&types, 0b1000), Ok(3)));
    assert!(bind_memory_for_image(&types, 0b0110).is_err());
}

#[test]
fn constants_agree_with_vulkan() {
    assert_eq!(vk::QueueFlags::GRAPHICS.as_raw(), 1);
    assert_eq!(vk::QueueFlags::COMPUTE.as_raw(), 2);
    assert_eq!(vk::QueueFlags::VIDEO_ENCODE_KHR.as_raw(), 0x40);
    assert_eq!(vk::MemoryPropertyFlags::DEVICE_LOCAL.as_raw(), 1);
    assert_eq!(vk::MemoryPropertyFlags::HOST_VISIBLE.as_raw(), 2);
    assert_eq!(vk::MemoryPropertyFlags::HOST_COHERENT.as_raw(), 4);
    assert_eq!(vk::MemoryPropertyFlags::HOST_CACHED.as_raw(), 8);
    assert_eq!(vk::QUEUE_FAMILY_IGNORED, QUEUE_FAMILY_IGNORED);
    for (name, expected) in [
        (ash::khr::external_memory_fd::NAME, EXT_EXTERNAL_MEMORY_FD),
        (
            ash::ext::external_memory_dma_buf::NAME,
            EXT_EXTERNAL_MEMORY_DMA_BUF,
        ),
        (
            ash::ext::image_drm_format_modifier::NAME,
            EXT_IMAGE_DRM_FORMAT_MODIFIER,
        ),
        (ash::ext::physical_device_drm::NAME, EXT_PHYSICAL_DEVICE_DRM),
        (ash::khr::video_queue::NAME, EXT_VIDEO_QUEUE),
        (ash::khr::video_encode_queue::NAME, EXT_VIDEO_ENCODE_QUEUE),
        (ash::khr::video_encode_h264::NAME, EXT_H264),
        (ash::khr::video_encode_h265::NAME, EXT_H265),
        (ash::ext::debug_utils::NAME, EXT_DEBUG_UTILS),
        (ash::khr::swapchain::NAME, EXT_SWAPCHAIN),
    ] {
        assert_eq!(name.to_str().unwrap(), expected);
    }
}

#[test]
fn api_versions() {
    for (variant, major, minor, patch) in [(0, 1, 3, 281), (0, 1, 4, 0), (0, 2, 0, 1)] {
        let version = vk::make_api_version(variant, major, minor, patch);
        assert!(matches!(check_api_version(Some(version)), Ok(v) if v == (major, minor)));
        assert_eq!(requested_version(Some(version), false), Some((major, minor)));
        assert_eq!(requested_version(Some(version), true), Some((1, 2)));
    }
    assert!(check_api_version(Some(vk::make_api_version(0, 1, 2, 0))).is_err());
    assert!(check_api_version(None).is_err());
    assert_eq!(
        requested_version(Some(vk::make_api_version(0, 1, 2, 0)), false),
        Some((1, 2))
    );
    assert_eq!(requested_version(None, false), None);
}

#[test]
fn instances() {
    let layers = texts(&[LAYER_VALIDATION]);
    let debug = texts(&[EXT_DEBUG_UTILS]);
    match plan_instance(true, &debug, &layers) {
        Ok(plan) => {
            assert_eq!(plan.extensions, debug);
            assert_eq!(plan.layers, layers);
        }
        Err(_) => panic!("expected a plan"),
    }
    assert!(matches!(plan_instance(true, &debug, &vec![]), Ok(p) if p.layers.is_empty()));
    assert!(plan_instance(true, &vec![], &layers).is_err());
    assert!(matches!(plan_instance(false, &vec![], &layers), Ok(p) if p.extensions.is_empty()));
}

#[test]
fn small_vulkan_facts() {
    assert_eq!(alpha_swizzle(true), vk::ComponentSwizzle::ONE.as_raw());
    assert_eq!(
        alpha_swizzle(false),
        vk::ComponentSwizzle::IDENTITY.as_raw()
    );
    assert_eq!(makedev(226, 128), 0xe280);
    assert_eq!(makedev(0x12345, 0x6789a), 0x1_2000_6783_459a);
    assert_eq!(
        barrier_families(None),
        (QUEUE_FAMILY_IGNORED, QUEUE_FAMILY_IGNORED)
    );
    assert_eq!(barrier_families(Some((1, 2))), (1, 2));
    assert_eq!(format_bpp(vk::Format::B8G8R8A8_UNORM.as_raw()), 4);
    assert!(valid_timestamps(&vec![1, 2]));
    assert!(!valid_timestamps(&vec![1, 0]));
    let incomplete = vk::Result::INCOMPLETE.as_raw();
    assert_eq!(list_read(0, 0), ListRead::Done);
    assert_eq!(list_read(0, incomplete), ListRead::Retry);
    assert_eq!(list_read(-3, 0), ListRead::Failed(-3));
    assert_eq!(list_read(0, -4), ListRead::Failed(-4));
}

fn sf(format: vk::Format, color_space: vk::ColorSpaceKHR) -> SurfaceFormat {
    SurfaceFormat {
        format: format.as_raw(),
        color_space: color_space.as_raw(),
    }
}

fn formats() -> Vec<SurfaceFormat> {
    vec![
        sf(
            vk::Format::B8G8R8A8_SRGB,
            vk::ColorSpaceKHR::SRGB_NONLINEAR,
        ),
        sf(
            vk::Format::B8G8R8A8_UNORM,
            vk::ColorSpaceKHR::SRGB_NONLINEAR,
        ),
        sf(
            vk::Format::R16G16B16A16_SFLOAT,
            vk::ColorSpaceKHR::EXTENDED_SRGB_LINEAR_EXT,
        ),
        sf(
            vk::Format::R8G8B8A8_UNORM,
            vk::ColorSpaceKHR::SRGB_NONLINEAR,
        ),
        sf(vk::Format::R8G8B8A8_UNORM, vk::ColorSpaceKHR::DOLBYVISION_EXT),
    ]
}

#[test]
fn srgb_formats() {
    for format in [
        vk::Format::R8_SRGB,
        vk::Format::R8G8_SRGB,
        vk::Format::R8G8B8_SRGB,
        vk::Format::B8G8R8_SRGB,
        vk::Format::R8G8B8A8_SRGB,
        vk::Format::B8G8R8A8_SRGB,
        vk::Format::A8B8G8R8_SRGB_PACK32,
        vk::Format::BC1_RGB_SRGB_BLOCK,
        vk::Format::BC1_RGBA_SRGB_BLOCK,
        vk::Format::BC2_SRGB_BLOCK,
        vk::Format::BC3_SRGB_BLOCK,
        vk::Format::BC7_SRGB_BLOCK,
        vk::Format::ETC2_R8G8B8_SRGB_BLOCK,
        vk::Format::ETC2_R8G8B8A1_SRGB_BLOCK,
        vk::Format::ETC2_R8G8B8A8_SRGB_BLOCK,
        vk::Format::ASTC_4X4_SRGB_BLOCK,
        vk::Format::ASTC_5X4_SRGB_BLOCK,
        vk::Format::ASTC_5X5_SRGB_BLOCK,
        vk::Format::ASTC_6X5_SRGB_BLOCK,
        vk::Format::ASTC_6X6_SRGB_BLOCK,
        vk::Format::ASTC_8X5_SRGB_BLOCK,
        vk::Format::ASTC_8X6_SRGB_BLOCK,
        vk::Format::ASTC_8X8_SRGB_BLOCK,
        vk::Format::ASTC_10X5_SRGB_BLOCK,
        vk::Format::ASTC_10X6_SRGB_BLOCK,
        vk::Format::ASTC_10X8_SRGB_BLOCK,
        vk::Format::ASTC_10X10_SRGB_BLOCK,
        vk::Format::ASTC_12X10_SRGB_BLOCK,
        vk::Format::ASTC_12X12_SRGB_BLOCK,
    ] {
        assert!(format_is_srgb(format.as_raw()));
    }
    assert!(!format_is_srgb(vk::Format::B8G8R8A8_UNORM.as_raw()));
    assert!(!format_is_srgb(vk::Format::ASTC_4X4_UNORM_BLOCK.as_raw()));
    let count = (0..200).filter(|f| format_is_srgb(*f)).count();
    assert_eq!(count, 29);
}

#[test]
fn color_spaces() {
    for space in [
        vk::ColorSpaceKHR::SRGB_NONLINEAR,
        vk::ColorSpaceKHR::EXTENDED_SRGB_LINEAR_EXT,
        vk::ColorSpaceKHR::DISPLAY_P3_LINEAR_EXT,
        vk::ColorSpaceKHR::DISPLAY_P3_NONLINEAR_EXT,
        vk::ColorSpaceKHR::DCI_P3_NONLINEAR_EXT,
        vk::ColorSpaceKHR::BT709_LINEAR_EXT,
        vk::ColorSpaceKHR::BT709_NONLINEAR_EXT,
        vk::ColorSpaceKHR::HDR10_ST2084_EXT,
    ] {
        assert!(colorspace_supported(space.as_raw()));
    }
    assert!(!colorspace_supported(
        vk::ColorSpaceKHR::BT2020_LINEAR_EXT.as_raw()
    ));
    assert_eq!(usable_surface_formats(&formats()).len(), 3);
}

fn device(device_type: DeviceType, queue_flags: Vec<u32>, presentable: Vec<bool>) -> Device {
    Device {
        device_type,
        queue_flags,
        presentable,
        extensions: texts(&[EXT_SWAPCHAIN]),
    }
}

#[test]
fn presenting_devices() {
    let other = DeviceType::Other;
    let second = device(other, vec![3, 3], vec![false, true]);
    assert_eq!(query_device(&second), Ok(1));
    let silent = device(DeviceType::DiscreteGpu, vec![1, 3], vec![true, false]);
    assert_eq!(query_device(&silent), Err(DeviceError::NoGraphicsQueue));
    let mut bare = device(DeviceType::DiscreteGpu, vec![3], vec![true]);
    bare.extensions.clear();
    assert_eq!(query_device(&bare), Err(DeviceError::NoSwapchain));
    let integrated = || device(DeviceType::IntegratedGpu, vec![3], vec![true]);
    assert_eq!(
        select_device(&vec![second, silent, bare, integrated(), integrated()]),
        Some((3, 0))
    );
    assert_eq!(select_device(&vec![]), None);
}

#[test]
fn instances_for_windows() {
    let window = texts(&["VK_KHR_surface"]);
    let debug = texts(&[EXT_DEBUG_UTILS]);
    match mmserver::color_test::plan_instance(&window, true, true, &debug, &vec![]) {
        Ok(plan) => {
            assert_eq!(
                plan.extensions,
                vec![
                    "VK_KHR_surface",
                    ash::khr::portability_enumeration::NAME.to_str().unwrap(),
                    ash::khr::get_physical_device_properties2::NAME
                        .to_str()
                        .unwrap(),
                    EXT_DEBUG_UTILS
                ]
            );
            assert!(plan.layers.is_empty());
        }
        Err(_) => panic!("expected a plan"),
    }
    assert!(
        mmserver::color_test::plan_instance(&window, false, true, &vec![], &vec![]).is_err()
    );
}

#[test]
fn the_best_eligible_device_is_chosen() {
    let mut extensions = required();
    extensions.extend([EXT_VIDEO_QUEUE, EXT_VIDEO_ENCODE_QUEUE, EXT_H264]);
    let mut card = props(&extensions);
    card.render_minor = 0;
    let mut integrated = props(&extensions);
    integrated.device_type = DeviceType::IntegratedGpu;
    let devices = vec![card, integrated, props(&required()), props(&extensions)];
    match choose_device(&devices) {
        Ok((index, info)) => {
            assert_eq!(index, 3);
            assert!(info.supports_h264);
        }
        Err(_) => panic!("expected a device"),
    }
    assert!(choose_device(&vec![]).is_err());
}

#[test]
fn swapchains_are_planned() {
    let renderer = Renderer::new(&formats(), 800, 600);
    assert_eq!(renderer.format, vk::Format::B8G8R8A8_UNORM.as_raw());
    let caps = SurfaceCapabilities {
        min_image_count: 2,
        max_image_count: 0,
        current_width: EXTENT_UNDEFINED,
        current_height: EXTENT_UNDEFINED,
        supported_transforms: vk::SurfaceTransformFlagsKHR::IDENTITY.as_raw(),
        current_transform: 2,
    };
    let modes = |modes: &[vk::PresentModeKHR]| -> Vec<i32> {
        modes.iter().map(|m| m.as_raw()).collect()
    };
    let plan = renderer.recreate_swapchain(
        caps,
        &modes(&[vk::PresentModeKHR::FIFO, vk::PresentModeKHR::MAILBOX]),
    );
    assert_eq!(plan.image_count, 3);
    assert_eq!((plan.width, plan.height), (800, 600));
    assert_eq!(plan.pre_transform, 1);
    assert_eq!(plan.present_mode, vk::PresentModeKHR::MAILBOX.as_raw());

    let plan = renderer.recreate_swapchain(
        SurfaceCapabilities {
            max_image_count: 2,
            current_width: 640,
            current_height: 480,
            supported_transforms: 0,
            ..caps
        },
        &modes(&[
            vk::PresentModeKHR::FIFO_RELAXED,
            vk::PresentModeKHR::FIFO,
            vk::PresentModeKHR::IMMEDIATE,
        ]),
    );
    assert_eq!(plan.image_count, 2);
    assert_eq!((plan.width, plan.height), (640, 480));
    assert_eq!(plan.pre_transform, 2);
    assert_eq!(plan.present_mode, vk::PresentModeKHR::IMMEDIATE.as_raw());
}

#[test]
fn pictures_are_shown() {
    let mut renderer = Renderer::new(&formats(), 800, 600);
    assert_eq!(renderer.begin_frame(), FrameStart::RecreateSwapchain);
    renderer.swapchain_created(2);
    assert_eq!(renderer.begin_frame(), FrameStart::Frame(0));
    assert_eq!(
        renderer.image_acquired(AcquireResult::Image(4)),
        FrameStep::Draw(4)
    );
    assert_eq!(
        renderer.image_presented(PresentResult::Shown),
        FrameStep::Done
    );
    assert_eq!(renderer.begin_frame(), FrameStart::Frame(1));
    assert_eq!(renderer.begin_frame(), FrameStart::Frame(0));
    assert_eq!(
        renderer.image_acquired(AcquireResult::OutOfDate),
        FrameStep::StartOver
    );
    assert_eq!(renderer.begin_frame(), FrameStart::RecreateSwapchain);
    renderer.swapchain_created(2);
    renderer.resize(800, 600);
    assert!(!renderer.swapchain_dirty);
    renderer.resize(640, 600);
    assert!(renderer.swapchain_dirty);
    renderer.swapchain_created(2);
    assert_eq!(
        renderer.image_presented(PresentResult::Suboptimal),
        FrameStep::StartOver
    );
    renderer.swapchain_created(2);
    let choices = renderer.format_choices();
    assert_eq!(
        choices,
        vec![
            vk::Format::R8G8B8A8_UNORM.as_raw(),
            vk::Format::B8G8R8A8_UNORM.as_raw(),
            vk::Format::R16G16B16A16_SFLOAT.as_raw()
        ]
    );
    assert_eq!(renderer.colorspace_choices().len(), 2);
    renderer.select_format(choices[2], renderer.colorspace);
    assert!(!renderer.offers_format());
    renderer.select_format(choices[0], renderer.colorspace);
    assert!(renderer.offers_format());
    assert_eq!(
        renderer.image_presented(PresentResult::Shown),
        FrameStep::StartOver
    );
    assert_eq!(
        renderer.image_presented(PresentResult::Failed),
        FrameStep::Failed
    );
}

#[test]
fn boxes_move() {
    assert!(matches!(input_mode(false, false), Ok(InputMode::Keyboard)));
    assert!(matches!(input_mode(true, false), Ok(InputMode::Mouse)));
    assert!(matches!(input_mode(false, true), Ok(InputMode::Gamepad)));
    assert!(input_mode(true, true).is_err());
    assert!(InputMode::Mouse.starts_in_sight());
    assert!(InputMode::Gamepad.starts_in_sight());
    assert!(!InputMode::Keyboard.starts_in_sight());
    let mut b = MovingBox::new();
    assert_eq!(b.step(), (-4, 4));
    assert_eq!(b.step(), (-3, 4));
    for _ in 2..64 {
        b.step();
    }
    assert_eq!(b.0, 63);
    assert_eq!(b.step(), (-4, 4));
}
