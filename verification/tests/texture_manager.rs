use rust_engine::texture_manager::{
    FilterMode, MaterialTextures, TextureHandle, TextureManager, TextureParams, TextureType, WrapMode,
};

#[test]
fn test_texture_manager_creation() {
    let manager = TextureManager::new();
    assert_eq!(manager.texture_count(), 0);
    assert_eq!(manager.next_handle(), 1);
}

#[test]
fn test_material_textures() {
    let textures = MaterialTextures::new()
        .with_base_color(TextureHandle(1))
        .with_normal(TextureHandle(2));

    assert!(textures.has_any_textures());
    assert_eq!(textures.base_color, Some(TextureHandle(1)));
    assert_eq!(textures.normal, Some(TextureHandle(2)));

    let flags = textures.get_texture_flags();
    assert_eq!(flags, [1, 1, 0, 0]); // base_color and normal are set
}

#[test]
fn texture_handles_are_issued_in_order() {
    let mut manager = TextureManager::default();
    let params = TextureParams { filter_mode: FilterMode::Nearest, wrap_mode: WrapMode::ClampToEdge, generate_mipmaps: false };
    let a = manager.load_texture_from_file("textures/a.png", TextureType::Normal, params).unwrap();
    let b = manager.create_solid_color_texture([255, 0, 0, 255], TextureType::Emission).unwrap();
    assert_eq!(a, TextureHandle(1));
    assert_eq!(b, TextureHandle(2));
    assert_eq!(manager.texture_count(), 2);
    assert_eq!(manager.next_handle(), 3);
    assert_eq!(manager.get_all_texture_handles(), vec![TextureHandle(1), TextureHandle(2)]);

    let info_a = manager.get_texture_info(a).unwrap();
    assert_eq!(info_a.texture_type, TextureType::Normal);
    assert_eq!(info_a.params, params);
    assert_eq!(info_a.name, None);

    let info_b = manager.get_texture_info(b).unwrap();
    assert_eq!(info_b.params, TextureParams::default());
    assert_eq!(info_b.name.as_deref(), Some("SolidColor_Emission"));

    assert!(manager.get_texture_info(TextureHandle(0)).is_none());
    assert!(manager.get_texture_info(TextureHandle(3)).is_none());
}

#[test]
fn texture_params_default() {
    let p = TextureParams::default();
    assert_eq!(p.filter_mode, FilterMode::Linear);
    assert_eq!(p.wrap_mode, WrapMode::Repeat);
    assert!(p.generate_mipmaps);
}

#[test]
fn material_textures_empty_and_flags() {
    let t = MaterialTextures::default();
    assert!(!t.has_any_textures());
    assert_eq!(t.get_texture_flags(), [0, 0, 0, 0]);
    let mut t = MaterialTextures::new().with_metallic_roughness(TextureHandle(4));
    assert_eq!(t.get_texture_flags(), [0, 0, 1, 0]);
    t.emission = Some(TextureHandle(5));
    assert!(t.has_any_textures());
    // Emission has no flag.
    assert_eq!(t.get_texture_flags(), [0, 0, 1, 0]);
}
