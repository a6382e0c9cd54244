use rust_engine::handles::DynamicObjectHandle;

type Vec3 = nalgebra::Vector3<f32>;

#[test]
fn test_handle_validity() {
    // Test valid handle construction
    let valid_handle = DynamicObjectHandle::new(42, 1);
    assert!(valid_handle.is_valid());
    assert_eq!(valid_handle.index, 42);
    assert_eq!(valid_handle.generation, 1);

    // Test invalid handle
    let invalid_handle = DynamicObjectHandle::invalid();
    assert!(!invalid_handle.is_valid());
    assert_eq!(invalid_handle.index, u32::MAX);
}

#[test]
fn test_vec3_operations() {
    let pos1 = Vec3::new(1.0, 2.0, 3.0);
    let pos2 = Vec3::new(4.0, 5.0, 6.0);

    // Test basic operations
    let sum = pos1 + pos2;
    assert_eq!(sum.x, 5.0);
    assert_eq!(sum.y, 7.0);
    assert_eq!(sum.z, 9.0);

    // Test scaling
    let scaled = pos1 * 2.0;
    assert_eq!(scaled.x, 2.0);
    assert_eq!(scaled.y, 4.0);
    assert_eq!(scaled.z, 6.0);

    // Test zero vector
    let zero = Vec3::zeros();
    assert_eq!(zero.x, 0.0);
    assert_eq!(zero.y, 0.0);
    assert_eq!(zero.z, 0.0);
}

#[test]
fn handle_debug_text() {
    let h = DynamicObjectHandle::new(12, 0);
    assert_eq!(h.debug_text(), format!("{:?}", h));
    let h = DynamicObjectHandle::invalid();
    assert_eq!(h.debug_text(), format!("{:?}", h));
}
