use rust_engine::data_structures::{MaterialId, MaterialOverrideFlags, ResourceHandleSet, ObjectRenderFlags};
use rust_engine::handles::{BufferHandle, DescriptorSetHandle, MaterialInstanceHandle};

#[test]
fn test_material_override_flags() {
    let flags = MaterialOverrideFlags::none();
    assert!(!flags.has_overrides());

    let flags = MaterialOverrideFlags::all();
    assert!(flags.has_overrides());

    let mut flags = MaterialOverrideFlags::none();
    flags.base_color = true;
    assert!(flags.has_overrides());
}

#[test]
fn test_resource_handle_set() {
    let mut handles = ResourceHandleSet::new();
    assert!(!handles.is_complete());

    handles.buffer_handle = Some(BufferHandle::new(0, 1, 0));
    handles.descriptor_set_handle = Some(DescriptorSetHandle::new(0, 1, 0));
    handles.material_handle = Some(MaterialInstanceHandle::new(0, 1));

    assert!(handles.is_complete());

    handles.clear();
    assert!(!handles.is_complete());
}

#[test]
fn test_material_id_validation() {
    let valid_id = MaterialId::new(5, 10);
    assert!(valid_id.is_valid());

    let invalid_id = MaterialId::invalid();
    assert!(!invalid_id.is_valid());
}

#[test]
fn material_override_flags_single_override_counts() {
    let mut flags = MaterialOverrideFlags::none();
    flags.alpha = true;
    assert!(flags.has_overrides());
    let flags = MaterialOverrideFlags::default();
    assert!(!flags.has_overrides());
}

#[test]
fn resource_handle_set_partial_is_incomplete() {
    let mut handles = ResourceHandleSet::new();
    handles.buffer_handle = Some(BufferHandle::new(3, 2, 1));
    handles.descriptor_set_handle = Some(DescriptorSetHandle::new(3, 2, 7));
    assert!(!handles.is_complete());
}

#[test]
fn render_flags_words() {
    let flags = ObjectRenderFlags { visible: true, cast_shadows: false, receive_shadows: true, use_lod: false };
    assert_eq!(flags.render_flag_words(), [1, 0, 1, 0]);
    assert_eq!(ObjectRenderFlags::default().render_flag_words(), [1, 1, 1, 1]);
}
