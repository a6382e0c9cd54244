use ash::vk;
use rust_engine::coordinates::{CoordinateConverter, CoordinateSystem, MeshConversion};
use rust_engine::descriptors::{
    descriptor_pool_sizes, frame_layout_bindings, material_layout_bindings, DescriptorKind, DescriptorSetLayoutBuilder,
    LayoutBinding,
};
use rust_engine::device::{
    choose_queue_families, evaluate_device, find_memory_type, has_required_extensions, select_suitable_device,
    QueueFamilyChoice,
};
use rust_engine::error::{RenderError, VulkanError};
use rust_engine::lighting::{fill_light_slots, LightType, MAX_POINT_LIGHTS};
use rust_engine::mipmap::{mip_blits, mip_level_count, MipBlit};
use rust_engine::swapchain::SwapchainManager;
use rust_engine::sync::{AccessBarrier, MemoryBarrierBuilder};
use rust_engine::ui_buffers::{panel_upload_size, text_buffer_plan, text_draw_calls, TextBufferPlan};

fn swapchain_name() -> Vec<u8> {
    b"VK_KHR_swapchain".to_vec()
}

#[test]
fn coordinate_conversions() {
    let same = CoordinateConverter::new(CoordinateSystem::ZUpRightHanded, CoordinateSystem::ZUpRightHanded);
    assert_eq!(same.conversion(), MeshConversion::Identity);
    assert_eq!(CoordinateConverter::default().conversion(), MeshConversion::FlipY);
    let other = CoordinateConverter::new(CoordinateSystem::ZUpRightHanded, CoordinateSystem::YUpRightHanded);
    assert_eq!(other.conversion(), MeshConversion::Unsupported);
    let back = CoordinateConverter::new(CoordinateSystem::YDownLeftHanded, CoordinateSystem::YUpRightHanded);
    assert_eq!(back.conversion(), MeshConversion::Unsupported);
}

#[test]
fn queue_family_choice() {
    let flags = [0b100, 0b011, 0b001];
    let present = [Ok(false), Ok(false), Ok(true)];
    assert_eq!(
        choose_queue_families(&flags, &present).unwrap(),
        QueueFamilyChoice { graphics_family: 1, present_family: 2 }
    );
    // Search stops once both were found: a failing query after that is never met.
    let flags = [0b001, 0b001];
    let present = [Ok(true), Err(vk::Result::ERROR_DEVICE_LOST.as_raw())];
    assert_eq!(
        choose_queue_families(&flags, &present).unwrap(),
        QueueFamilyChoice { graphics_family: 0, present_family: 0 }
    );
    // A failing query met before both were found is an API error.
    let flags = [0b010, 0b001];
    let present = [Err(vk::Result::ERROR_SURFACE_LOST_KHR.as_raw()), Ok(true)];
    match choose_queue_families(&flags, &present) {
        Err(VulkanError::Api(code)) => assert_eq!(code, vk::Result::ERROR_SURFACE_LOST_KHR.as_raw()),
        other => panic!("unexpected {:?}", other),
    }
    match choose_queue_families(&[0b010], &[Ok(true)]) {
        Err(VulkanError::InitializationFailed(m)) => assert_eq!(m, "No graphics queue family found"),
        other => panic!("unexpected {:?}", other),
    }
    match choose_queue_families(&[0b001], &[Ok(false)]) {
        Err(VulkanError::InitializationFailed(m)) => assert_eq!(m, "No present queue family found"),
        other => panic!("unexpected {:?}", other),
    }
}

#[test]
fn device_extensions_and_selection() {
    assert!(has_required_extensions(&[b"VK_KHR_maintenance1".to_vec(), swapchain_name()]));
    assert!(!has_required_extensions(&[b"VK_KHR_swapchai".to_vec()]));
    assert!(!has_required_extensions(&[]));

    let good = evaluate_device(&[1], &[Ok(true)], &Ok(vec![swapchain_name()]));
    assert_eq!(good.unwrap(), QueueFamilyChoice { graphics_family: 0, present_family: 0 });
    match evaluate_device(&[1], &[Ok(true)], &Ok(vec![])) {
        Err(VulkanError::InitializationFailed(m)) => assert_eq!(m, "Required device extensions not supported"),
        other => panic!("unexpected {:?}", other),
    }
    match evaluate_device(&[1], &[Ok(true)], &Err(vk::Result::ERROR_OUT_OF_HOST_MEMORY.as_raw())) {
        Err(VulkanError::Api(code)) => assert_eq!(code, vk::Result::ERROR_OUT_OF_HOST_MEMORY.as_raw()),
        other => panic!("unexpected {:?}", other),
    }

    let verdicts = vec![
        Err(VulkanError::NoSuitableMemoryType),
        Ok(QueueFamilyChoice { graphics_family: 2, present_family: 1 }),
        Ok(QueueFamilyChoice { graphics_family: 0, present_family: 0 }),
    ];
    assert_eq!(
        select_suitable_device(&verdicts).unwrap(),
        (1, QueueFamilyChoice { graphics_family: 2, present_family: 1 })
    );
    match select_suitable_device(&[Err(VulkanError::NoSuitableMemoryType)]) {
        Err(VulkanError::InitializationFailed(m)) => assert_eq!(m, "No suitable GPU found"),
        other => panic!("unexpected {:?}", other),
    }
}

#[test]
fn memory_type_search() {
    // Types: 0 = device local, 1 = host visible, 2 = host visible | coherent.
    let types = [0x1, 0x2, 0x6];
    assert_eq!(find_memory_type(0b111, &types, 0x6).unwrap(), 2);
    assert_eq!(find_memory_type(0b111, &types, 0x2).unwrap(), 1);
    assert_eq!(find_memory_type(0b101, &types, 0x2).unwrap(), 2);
    match find_memory_type(0b001, &types, 0x2) {
        Err(VulkanError::InitializationFailed(m)) => assert_eq!(m, "Failed to find suitable memory type"),
        other => panic!("unexpected {:?}", other),
    }
}

#[test]
fn mip_levels_and_blits() {
    assert_eq!(mip_level_count(1, 1), 1);
    assert_eq!(mip_level_count(0, 0), 1);
    assert_eq!(mip_level_count(256, 256), 9);
    assert_eq!(mip_level_count(300, 17), 9);
    assert_eq!(mip_level_count(1024, 2048), 12);
    assert_eq!(mip_level_count(u32::MAX, 1), 32);

    let blits = mip_blits(5, 2, mip_level_count(5, 2));
    assert_eq!(
        blits,
        vec![
            MipBlit { src_level: 0, dst_level: 1, src_width: 5, src_height: 2, dst_width: 2, dst_height: 1 },
            MipBlit { src_level: 1, dst_level: 2, src_width: 2, src_height: 1, dst_width: 1, dst_height: 1 },
        ]
    );
    assert!(mip_blits(64, 64, 1).is_empty());
}

#[test]
fn barriers_use_ash_access_bits() {
    let b = MemoryBarrierBuilder::buffer_host_write_to_shader_read();
    assert_eq!(b.src_access_mask, vk::AccessFlags::HOST_WRITE.as_raw());
    assert_eq!(b.dst_access_mask, vk::AccessFlags::SHADER_READ.as_raw());
    let pairs: [(AccessBarrier, vk::AccessFlags, vk::AccessFlags); 5] = [
        (MemoryBarrierBuilder::buffer_transfer_to_vertex_read(), vk::AccessFlags::TRANSFER_WRITE, vk::AccessFlags::VERTEX_ATTRIBUTE_READ),
        (MemoryBarrierBuilder::buffer_transfer_to_index_read(), vk::AccessFlags::TRANSFER_WRITE, vk::AccessFlags::INDEX_READ),
        (MemoryBarrierBuilder::buffer_host_write_to_transfer_read(), vk::AccessFlags::HOST_WRITE, vk::AccessFlags::TRANSFER_READ),
        (MemoryBarrierBuilder::buffer_compute_write_to_fragment_read(), vk::AccessFlags::SHADER_WRITE, vk::AccessFlags::SHADER_READ),
        (MemoryBarrierBuilder::image_color_write_to_shader_read(), vk::AccessFlags::COLOR_ATTACHMENT_WRITE, vk::AccessFlags::SHADER_READ),
    ];
    for (b, src, dst) in pairs {
        assert_eq!(b.src_access_mask, src.as_raw());
        assert_eq!(b.dst_access_mask, dst.as_raw());
    }
}

#[test]
fn swapchain_buffers() {
    let mut m = SwapchainManager::new(vec!["fb0", "fb1", "fb2"], vec![10, 11, 12]);
    assert_eq!(m.framebuffer_count(), 3);
    assert_eq!(*m.get_framebuffer(1), "fb1");
    m.recreate_framebuffers(vec!["new"], vec![1]);
    assert_eq!(m.framebuffer_count(), 1);
    assert_eq!(*m.get_framebuffer(0), "new");
}

#[test]
fn descriptor_layouts_and_pools() {
    let bindings = DescriptorSetLayoutBuilder::new()
        .add_uniform_buffer(0, 0x1)
        .add_combined_image_sampler(1, 0x10)
        .add_storage_buffer(2, 0x11)
        .build();
    assert_eq!(
        bindings,
        vec![
            LayoutBinding { binding: 0, kind: DescriptorKind::UniformBuffer, descriptor_count: 1, stage_flags: 0x1 },
            LayoutBinding { binding: 1, kind: DescriptorKind::CombinedImageSampler, descriptor_count: 1, stage_flags: 0x10 },
            LayoutBinding { binding: 2, kind: DescriptorKind::StorageBuffer, descriptor_count: 1, stage_flags: 0x11 },
        ]
    );
    assert!(DescriptorSetLayoutBuilder::default().build().is_empty());
    assert_eq!(
        descriptor_pool_sizes(7),
        vec![
            (DescriptorKind::UniformBuffer, 70),
            (DescriptorKind::CombinedImageSampler, 70),
            (DescriptorKind::StorageBuffer, 35),
        ]
    );
}

#[test]
fn light_slots() {
    let lights = [LightType::Point, LightType::Spot, LightType::Directional];
    let v = fill_light_slots(&lights, 2, 4, LightType::Directional);
    assert_eq!(v, vec![LightType::Point, LightType::Spot, LightType::Directional, LightType::Directional]);
    let many = [7u8; 12];
    let v = fill_light_slots(&many, 12, MAX_POINT_LIGHTS, 0u8);
    assert_eq!(v, vec![7u8; 8]);
}

#[test]
fn ui_buffer_sizing() {
    assert_eq!(text_buffer_plan(None, 0, 3), TextBufferPlan::Skip);
    assert_eq!(text_buffer_plan(Some(1000), 10, 0), TextBufferPlan::Skip);
    assert_eq!(text_buffer_plan(None, 10, 1), TextBufferPlan::Grow { bytes: 40, alloc_size: 80 });
    assert_eq!(text_buffer_plan(Some(39), 10, 1), TextBufferPlan::Grow { bytes: 40, alloc_size: 80 });
    assert_eq!(text_buffer_plan(Some(40), 10, 1), TextBufferPlan::Reuse { bytes: 40 });
    assert_eq!(text_draw_calls(&[(0, 6), (6, 12)]), vec![(6, 0), (12, 6)]);
    assert_eq!(panel_upload_size(32, 4, 128).unwrap(), 128);
    match panel_upload_size(32, 5, 128) {
        Err(VulkanError::InvalidOperation { reason }) => assert_eq!(reason, "UI vertex buffer too small"),
        other => panic!("unexpected {:?}", other),
    }
}

#[test]
fn error_messages() {
    assert_eq!(VulkanError::ResourceNotFound { id: 42 }.message(), "Resource not found: 42");
    assert_eq!(VulkanError::OutOfMemory { requested: 1024 }.message(), "Out of memory: 1024 bytes");
    assert_eq!(VulkanError::InvalidOperation { reason: "no".to_string() }.message(), "Invalid operation: no");
    assert_eq!(VulkanError::InitializationFailed("x".to_string()).message(), "Initialization failed: x");
    assert_eq!(VulkanError::NoSuitableMemoryType.message(), "No suitable memory type found");
    assert_eq!(VulkanError::Api(vk::Result::ERROR_DEVICE_LOST.as_raw()).message(), "Vulkan API error: ERROR_DEVICE_LOST");
    assert_eq!(VulkanError::Api(12345).message(), "Vulkan API error: 12345");
    assert_eq!(RenderError::InitializationFailed("a".to_string()).message(), "Renderer initialization failed: a");
    assert_eq!(RenderError::RenderingFailed("b".to_string()).message(), "Rendering failed: b");
    assert_eq!(RenderError::ResourceCreationFailed("c".to_string()).message(), "Resource creation failed: c");
    assert_eq!(RenderError::BackendError("d".to_string()).message(), "Backend error: d");
}

#[test]
fn ubo_manager_layouts() {
    let vf = (vk::ShaderStageFlags::VERTEX | vk::ShaderStageFlags::FRAGMENT).as_raw();
    let f = vk::ShaderStageFlags::FRAGMENT.as_raw();
    assert_eq!(
        frame_layout_bindings(),
        vec![
            LayoutBinding { binding: 0, kind: DescriptorKind::UniformBuffer, descriptor_count: 1, stage_flags: vf },
            LayoutBinding { binding: 1, kind: DescriptorKind::UniformBuffer, descriptor_count: 1, stage_flags: f },
        ]
    );
    let m = material_layout_bindings();
    assert_eq!(m.len(), 7);
    assert_eq!(m[0], LayoutBinding { binding: 0, kind: DescriptorKind::UniformBuffer, descriptor_count: 1, stage_flags: f });
    for (i, b) in m.iter().enumerate().skip(1) {
        assert_eq!(
            *b,
            LayoutBinding { binding: i as u32, kind: DescriptorKind::CombinedImageSampler, descriptor_count: 1, stage_flags: f }
        );
    }
}
