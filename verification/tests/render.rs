use ash_voxels::render::{
    align_up, capture_mode_check, check_ray_tracing_features, check_capture_format_support, check_png_data,
    check_scene_object_count, check_transfer_dst_usage, choose_present_mode, choose_surface_format,
    copy_shader_group_handles, decode_spirv, desired_swapchain_image_count,
    headless_frame_check, physical_device_score, pick_best_candidate, pick_graphics_queue_family,
    pick_headless_output_storage_format, pick_queue_family, pick_windowed_output_storage_format,
    read_bytes, required_extensions_present, resize_rebuilds_swapchain, rgba_image_byte_len,
    shader_binding_region_addresses, shader_binding_table_stride, swapchain_extent,
    voxel_buffer_upload, windowed_frame_check, write_bytes, DeviceKind, Extent2D, RendererMode,
    SurfaceFormat, MAX_OBJECTS,
};

#[test]
fn rgba_image_byte_len_matches_extent() {
    let byte_len = rgba_image_byte_len(Extent2D {
        width: 1280,
        height: 720,
    })
    .expect("byte length should fit");

    assert_eq!(byte_len, 1280 * 720 * 4);
}

#[test]
fn rgba_image_byte_len_detects_overflow() {
    let error = rgba_image_byte_len(Extent2D {
        width: u32::MAX,
        height: u32::MAX,
    })
    .expect_err("overflow should be reported");

    assert!(error.to_string().contains("overflowed"));
}

#[test]
fn align_up_rounds_to_multiples() {
    assert_eq!(align_up(0, 8), 0);
    assert_eq!(align_up(1, 8), 8);
    assert_eq!(align_up(32, 8), 32);
    assert_eq!(align_up(33, 64), 64);
    assert_eq!(align_up(5, 1), 5);
    assert_eq!(align_up(5, 0), 5);
}

#[test]
fn shader_binding_table_layout() {
    assert_eq!(shader_binding_table_stride(32, 64), 64);
    assert_eq!(shader_binding_table_stride(20, 0), 24);
    assert_eq!(shader_binding_table_stride(32, 32), 32);
    let handles: Vec<u8> = (1..=6).collect();
    let mut mapped = vec![0xAAu8; 8];
    copy_shader_group_handles(&mut mapped, &handles, 2, 3, 3);
    assert_eq!(mapped, vec![1, 2, 0xAA, 3, 4, 0xAA, 5, 6]);
    assert_eq!(shader_binding_region_addresses(1000, 64), [1000, 1064, 1128]);
}

#[test]
fn host_buffer_transfers() {
    let mut mapped = vec![9u8; 4];
    write_bytes(&mut mapped, &[1, 2]).expect("fits");
    assert_eq!(mapped, vec![1, 2, 9, 9]);
    let error = write_bytes(&mut mapped, &[1, 2, 3, 4, 5]).expect_err("too long");
    assert_eq!(error.to_string(), "buffer upload overflow: 5 > 4");
    assert_eq!(mapped, vec![1, 2, 9, 9]);
    assert_eq!(read_bytes(&mapped, 3).expect("fits"), vec![1, 2, 9]);
    let error = read_bytes(&mapped, 10).expect_err("too long");
    assert_eq!(error.to_string(), "buffer read overflow: 10 > 4");
}

#[test]
fn scene_object_count_limits() {
    assert_eq!(MAX_OBJECTS, 144);
    assert!(check_scene_object_count(1).is_ok());
    assert!(check_scene_object_count(144).is_ok());
    assert_eq!(
        check_scene_object_count(0).expect_err("empty").to_string(),
        "extracted scene has no render objects"
    );
    assert_eq!(
        check_scene_object_count(145).expect_err("too many").to_string(),
        "scene contains 145 objects, but only 144 are currently supported"
    );
}

#[test]
fn voxel_upload_repeats_a_populated_model() {
    assert_eq!(voxel_buffer_upload(&[0, 0, 0]), None);
    let words = voxel_buffer_upload(&[0, 5]).expect("populated");
    assert_eq!(words.len(), 2 * MAX_OBJECTS);
    assert!(words.chunks(2).all(|pair| pair == [0, 5]));
}

#[test]
fn device_selection() {
    assert_eq!(physical_device_score(DeviceKind::DiscreteGpu, 0), 3);
    assert_eq!(physical_device_score(DeviceKind::IntegratedGpu, 2), 4);
    assert_eq!(physical_device_score(DeviceKind::Other, 0), 1);
    assert_eq!(pick_best_candidate(&vec![1, 3, 2, 3, 0]).expect("some"), 3);
    assert_eq!(
        pick_best_candidate(&vec![]).expect_err("none").to_string(),
        "No Vulkan physical device with ray tracing support found"
    );
    let available = vec!["VK_KHR_a".to_string(), "VK_KHR_b".to_string()];
    assert!(required_extensions_present(&available, &vec!["VK_KHR_b".to_string()]));
    assert!(!required_extensions_present(&available, &vec!["VK_KHR_c".to_string()]));
    assert!(required_extensions_present(&available, &vec![]));
}

#[test]
fn queue_family_selection() {
    assert_eq!(pick_graphics_queue_family(&vec![0b100, 0b011, 0b001]).expect("found"), 1);
    assert_eq!(
        pick_graphics_queue_family(&vec![0b100]).expect_err("none").to_string(),
        "No graphics queue family was found"
    );
    assert_eq!(
        pick_queue_family(&vec![1, 2, 1], &vec![false, true, true]).expect("found"),
        2
    );
    assert_eq!(
        pick_queue_family(&vec![1, 2], &vec![false, true]).expect_err("none").to_string(),
        "No graphics queue family that can present to the surface was found"
    );
}

#[test]
fn swapchain_choices() {
    let formats = vec![
        SurfaceFormat { format: 44, color_space: 1 },
        SurfaceFormat { format: 50, color_space: 0 },
        SurfaceFormat { format: 37, color_space: 0 },
    ];
    assert_eq!(choose_surface_format(&formats), formats[1]);
    let others = vec![SurfaceFormat { format: 7, color_space: 3 }];
    assert_eq!(choose_surface_format(&others), others[0]);
    assert_eq!(choose_present_mode(&vec![0, 2, 1]), 1);
    assert_eq!(choose_present_mode(&vec![0, 2]), 2);
    let min = Extent2D { width: 0, height: 100 };
    let max = Extent2D { width: 4096, height: 200 };
    assert_eq!(
        swapchain_extent(0, 1000, min, max),
        Extent2D { width: 1, height: 200 }
    );
    assert_eq!(desired_swapchain_image_count(2, 3), 3);
    assert_eq!(desired_swapchain_image_count(2, 0), 3);
    assert!(check_transfer_dst_usage(0b11).is_ok());
    assert_eq!(
        check_transfer_dst_usage(0b01).expect_err("no transfer").to_string(),
        "Surface does not support transfer-destination swapchain images"
    );
}

#[test]
fn output_format_choices() {
    assert_eq!(pick_windowed_output_storage_format(109, 0x2, 0).expect("float swapchain"), 109);
    assert_eq!(pick_windowed_output_storage_format(44, 0x800, 0x402).expect("blit"), 109);
    let error = pick_windowed_output_storage_format(44, 0, 0x402).expect_err("no format");
    assert_eq!(
        error.to_string(),
        "could not find an R32G32B32A32_SFLOAT storage output format compatible with swapchain format B8G8R8A8_UNORM"
    );
    assert_eq!(pick_headless_output_storage_format(0x402).expect("ok"), 109);
    assert!(pick_headless_output_storage_format(0x2).is_err());
    assert!(check_capture_format_support(0x800).is_ok());
    assert_eq!(
        check_capture_format_support(0x400).expect_err("no blit").to_string(),
        "R8G8B8A8_UNORM capture images do not support blit-destination usage"
    );
}

#[test]
fn frame_checks() {
    let full = Extent2D { width: 4, height: 4 };
    let empty = Extent2D { width: 0, height: 4 };
    assert!(windowed_frame_check(RendererMode::Windowed, full).expect("windowed"));
    assert!(!windowed_frame_check(RendererMode::Windowed, empty).expect("windowed"));
    assert_eq!(
        windowed_frame_check(RendererMode::Headless, full).expect_err("mode").to_string(),
        "windowed render path was used for a headless renderer"
    );
    assert!(headless_frame_check(RendererMode::Headless, full).expect("headless"));
    assert_eq!(
        headless_frame_check(RendererMode::Windowed, full).expect_err("mode").to_string(),
        "headless render path was used for a windowed renderer"
    );
    assert!(capture_mode_check(RendererMode::Headless).is_ok());
    assert_eq!(
        capture_mode_check(RendererMode::Windowed).expect_err("mode").to_string(),
        "PNG capture is only available for a headless renderer"
    );
    assert!(resize_rebuilds_swapchain(RendererMode::Windowed, 3, 4));
    assert!(!resize_rebuilds_swapchain(RendererMode::Windowed, 0, 4));
    assert!(!resize_rebuilds_swapchain(RendererMode::Headless, 3, 4));
}

#[test]
fn png_data_must_match_the_extent() {
    let extent = Extent2D { width: 2, height: 3 };
    assert!(check_png_data(extent, 24).is_ok());
    assert_eq!(
        check_png_data(extent, 23).expect_err("short").to_string(),
        "PNG data length 23 did not match expected RGBA byte length 24"
    );
}

#[test]
fn spirv_words_in_either_byte_order() {
    let le = [0x03, 0x02, 0x23, 0x07, 0x01, 0x00, 0x00, 0x00];
    assert_eq!(decode_spirv(&le).expect("le"), vec![0x0723_0203, 1]);
    let be = [0x07, 0x23, 0x02, 0x03, 0x00, 0x00, 0x00, 0x01];
    assert_eq!(decode_spirv(&be).expect("be"), vec![0x0723_0203, 1]);
    assert_eq!(
        decode_spirv(&le[..7]).expect_err("odd length").to_string(),
        "input length not divisible by 4"
    );
    assert_eq!(
        decode_spirv(&[]).expect_err("empty").to_string(),
        "input missing SPIR-V magic number"
    );
    assert_eq!(
        decode_spirv(&[1, 2, 3, 4]).expect_err("no magic").to_string(),
        "input missing SPIR-V magic number"
    );
}

#[test]
fn written_bytes_read_back() {
    let mut mapped = vec![7u8; 6];
    write_bytes(&mut mapped, &[4, 5, 6]).expect("fits");
    assert_eq!(read_bytes(&mapped, 3).expect("fits"), vec![4, 5, 6]);
    assert_eq!(mapped.len(), 6);
}

#[test]
fn ray_tracing_features_are_all_required() {
    assert!(check_ray_tracing_features(true, true, true, true).is_ok());
    assert_eq!(
        check_ray_tracing_features(true, false, true, true)
            .expect_err("missing")
            .to_string(),
        "Selected GPU does not expose required Vulkan ray tracing features"
    );
}
