use ash::vk;
use rust_engine::handles::BufferHandle;
use rust_engine::resource_pool::{BufferPool, DescriptorSetPool, DynamicResourcePool, MaterialInstancePool};

/// Stand-in for the material properties of an instance: white and opaque by default.
#[derive(Debug, Clone, PartialEq)]
struct Props {
    base_color: [f32; 4],
    metallic: f32,
}

impl Default for Props {
    fn default() -> Self {
        Props { base_color: [1.0, 1.0, 1.0, 1.0], metallic: 0.0 }
    }
}

/// Stand-in for a base material.
#[derive(Debug, Clone, Default, PartialEq)]
struct Mat {
    id: u32,
}

#[test]
fn test_buffer_handle_validity() {
    let handle = BufferHandle::new(0, 1, 0);
    assert!(handle.is_valid());

    let invalid_handle = BufferHandle::new(0, 1, 10); // Invalid frame
    assert!(!invalid_handle.is_valid());
}

#[test]
fn test_descriptor_set_pool_allocation() {
    let mut pool = DescriptorSetPool::new(10);
    assert_eq!(pool.available_count(), 10);
    assert_eq!(pool.total_count(), 10);

    // Allocate descriptor set
    let handle = pool.allocate(0, vk::DescriptorSet::null()).expect("Should allocate");
    assert_eq!(pool.available_count(), 9);

    // Deallocate
    pool.deallocate(handle).expect("Should deallocate");
    assert_eq!(pool.available_count(), 10);
}

#[test]
fn test_material_instance_pool_allocation() {
    let mut pool: MaterialInstancePool<Mat, Props> = MaterialInstancePool::new(10);
    assert_eq!(pool.available_count(), 10);

    let material = Mat { id: 1 };
    let properties = Props::default();

    // Allocate material instance
    let handle = pool.allocate(material, properties).expect("Should allocate");
    assert_eq!(pool.available_count(), 9);

    // Test getting the material instance
    let (_base_mat, props) = pool.get_material_instance(handle).expect("Should get material");
    assert_eq!(props.base_color, [1.0, 1.0, 1.0, 1.0]);

    // Deallocate
    pool.deallocate(handle).expect("Should deallocate");
    assert_eq!(pool.available_count(), 10);
}

#[test]
fn test_handle_generation_validation() {
    let mut pool = DescriptorSetPool::new(5);

    // Allocate and deallocate to increment generation
    let handle1 = pool.allocate(0, vk::DescriptorSet::null()).unwrap();
    pool.deallocate(handle1).unwrap();

    // Allocate again, should get new generation
    let handle2 = pool.allocate(0, vk::DescriptorSet::null()).unwrap();

    // Old handle should be invalid
    assert!(pool.get_descriptor_set(handle1).is_none());
    // New handle should be valid
    assert!(pool.get_descriptor_set(handle2).is_some());
}

#[test]
fn descriptor_set_pool_exhaustion_and_double_release() {
    let mut pool = DescriptorSetPool::new(1);
    let h = pool.allocate(3, vk::DescriptorSet::null()).expect("one slot");
    assert!(pool.allocate(3, vk::DescriptorSet::null()).is_none());
    assert!(pool.deallocate(h).is_ok());
    assert!(pool.deallocate(h).is_err());
}

#[test]
fn material_instance_update_properties() {
    let mut pool: MaterialInstancePool<Mat, Props> = MaterialInstancePool::new(2);
    let h = pool.allocate(Mat { id: 7 }, Props::default()).unwrap();
    let new_props = Props { base_color: [0.5, 0.0, 0.0, 1.0], metallic: 1.0 };
    pool.update_properties(h, new_props.clone()).unwrap();
    let (m, p) = pool.get_material_instance(h).unwrap();
    assert_eq!(*m, Mat { id: 7 });
    assert_eq!(*p, new_props);
    pool.deallocate(h).unwrap();
    assert!(pool.update_properties(h, Props::default()).is_err());
    assert!(pool.get_material_instance(h).is_none());
}

#[test]
fn buffer_pool_per_frame() {
    let frames = vec![
        vec![vk::Buffer::null(), vk::Buffer::null()],
        vec![vk::Buffer::null(), vk::Buffer::null()],
    ];
    let mut pool = BufferPool::new(2, frames);
    assert_eq!(pool.total_count(), 2);
    let h = pool.allocate(1).expect("frame 1 has room");
    assert_eq!(h.frame, 1);
    assert_eq!(pool.available_count(1), 1);
    assert_eq!(pool.available_count(0), 2);
    assert!(pool.get_buffer(h).is_some());
    assert!(pool.check_write_target(h).is_ok());
    pool.deallocate(h).unwrap();
    assert!(pool.get_buffer(h).is_none());
    assert!(pool.check_write_target(h).is_err());
    assert!(pool.deallocate(h).is_err());
}

#[test]
fn dynamic_resource_pool_stats() {
    let frames = vec![vec![vk::Buffer::null(); 3], vec![vk::Buffer::null(); 3]];
    let mut pool: DynamicResourcePool<Mat, Props> = DynamicResourcePool::new(
        3,
        BufferPool::new(3, frames),
        DescriptorSetPool::new(3),
        MaterialInstancePool::new(3),
    );
    let b = pool.allocate_buffer(0).unwrap();
    let d = pool.allocate_descriptor_set(1, vk::DescriptorSet::null()).unwrap();
    let m = pool.allocate_material_instance(Mat { id: 2 }, Props::default()).unwrap();
    assert_eq!(pool.get_stats().buffers_allocated, 1);
    assert_eq!(pool.get_stats().descriptor_sets_allocated, 1);
    assert_eq!(pool.get_stats().material_instances_allocated, 1);
    assert_eq!(pool.get_availability(0), (2, 2, 2));
    assert_eq!(pool.is_low_on_resources(0, 3), (true, true, true));
    assert_eq!(pool.is_low_on_resources(0, 2), (false, false, false));
    pool.deallocate_buffer(b).unwrap();
    pool.deallocate_descriptor_set(d).unwrap();
    pool.deallocate_material_instance(m).unwrap();
    assert_eq!(pool.get_stats().buffers_allocated, 0);
    assert_eq!(pool.get_stats().peak_buffers, 1);
}
