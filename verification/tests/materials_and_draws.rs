use rust_engine::cache_manager::CacheManager;
use rust_engine::dynamic_coordinator::DynamicCoordinator;
use rust_engine::error::RenderError;
use rust_engine::handles::DynamicObjectHandle;
use rust_engine::material_bindings::{default_material_sources, MaterialTextureSet, TextureManager, TextureSource};
use rust_engine::material_type::{MaterialKind, PipelineType};
use rust_engine::mesh_type::MeshType;
use rust_engine::pipeline_config::{CullMode, PipelineConfig, RenderPriority};
use rust_engine::pipeline_manager::PipelineManager;
use rust_engine::slot_pool::{SlotError, SlotPool};
use rust_engine::text::to_decimal;
use rust_engine::texture_manager::TextureHandle;

#[test]
fn startup_material_sources() {
    assert_eq!(
        default_material_sources(Some(0), None, Some(1), 2),
        vec![
            TextureSource::Loaded(0),
            TextureSource::DefaultNormal,
            TextureSource::DefaultMetallicRoughness,
            TextureSource::DefaultWhite,
            TextureSource::Loaded(1),
            TextureSource::DefaultWhite,
        ]
    );
    // An index that names no loaded texture falls back to the default.
    assert_eq!(default_material_sources(Some(4), Some(3), None, 2)[0], TextureSource::DefaultWhite);
    assert_eq!(default_material_sources(Some(4), Some(3), None, 2)[1], TextureSource::DefaultNormal);
}

#[test]
fn material_binding_sources() {
    let set = TextureManager::emissive_material(TextureHandle(0), TextureHandle(2));
    assert_eq!(
        TextureManager::material_texture_sources(&set, 3).unwrap(),
        vec![
            TextureSource::Loaded(0),
            TextureSource::DefaultNormal,
            TextureSource::DefaultWhite,
            TextureSource::DefaultWhite,
            TextureSource::Loaded(2),
            TextureSource::DefaultWhite,
        ]
    );
    assert_eq!(
        TextureManager::material_texture_sources(&set, 2).unwrap_err(),
        "Texture not found in resource manager"
    );
    let pbr = TextureManager::pbr_material(TextureHandle(1), TextureHandle(1), None);
    assert_eq!(pbr.normal, Some(TextureHandle(1)));
    assert_eq!(TextureManager::material_texture_sources(&pbr, 2).unwrap()[1], TextureSource::Loaded(1));
    let simple = TextureManager::simple_material(TextureHandle(5));
    assert_eq!(
        simple,
        MaterialTextureSet { base_color: Some(TextureHandle(5)), normal: None, metallic_roughness: None, ao: None, emission: None, opacity: None }
    );
    assert_eq!(TextureManager::handle_for_index(9), TextureHandle(9));
}

#[test]
fn instance_indices_follow_upload_order() {
    let objects = [DynamicObjectHandle::new(4, 1), DynamicObjectHandle::new(0, 2)];
    let map = DynamicCoordinator::upload_pool_instance_data(Ok(()), &objects).unwrap();
    assert_eq!(map, vec![(objects[0], 0), (objects[1], 1)]);
    match DynamicCoordinator::upload_pool_instance_data(Err("out of memory".to_string()), &objects) {
        Err(RenderError::BackendError(m)) => assert_eq!(m, "out of memory"),
        other => panic!("unexpected {:?}", other),
    }
}

#[test]
fn draw_plan_orders_by_pipeline_and_depth() {
    let objects = [
        (PipelineType::TransparentUnlit, 5),  // 0
        (PipelineType::StandardPBR, 9),       // 1
        (PipelineType::Unlit, 2),             // 2
        (PipelineType::StandardPBR, 3),       // 3
        (PipelineType::TransparentPBR, 7),    // 4
        (PipelineType::TransparentPBR, 1),    // 5
        (PipelineType::TransparentUnlit, 8),  // 6
        (PipelineType::StandardPBR, 3),       // 7
    ];
    let plan = DynamicCoordinator::plan_dynamic_draws(&objects);
    assert_eq!(
        plan,
        vec![
            (PipelineType::StandardPBR, vec![3, 7, 1]),
            (PipelineType::Unlit, vec![2]),
            (PipelineType::TransparentUnlit, vec![6]),
            (PipelineType::TransparentPBR, vec![4]),
            (PipelineType::TransparentUnlit, vec![0]),
            (PipelineType::TransparentPBR, vec![5]),
        ]
    );
    assert!(DynamicCoordinator::plan_dynamic_draws(&[]).is_empty());
    let plan = DynamicCoordinator::plan_dynamic_draws(&[(PipelineType::TransparentPBR, 1), (PipelineType::TransparentPBR, 3)]);
    assert_eq!(plan, vec![(PipelineType::TransparentPBR, vec![1, 0])]);
}

#[test]
fn every_dynamic_object_drawn_once() {
    let pipelines = [
        PipelineType::StandardPBR,
        PipelineType::Unlit,
        PipelineType::TransparentPBR,
        PipelineType::TransparentUnlit,
    ];
    let objects: Vec<(PipelineType, u32)> =
        (0..23u32).map(|i| (pipelines[(i * 7 % 4) as usize], (i * 37) % 11)).collect();
    let plan = DynamicCoordinator::plan_dynamic_draws(&objects);
    let mut drawn: Vec<u32> = plan.iter().flat_map(|(_, instances)| instances.iter().copied()).collect();
    drawn.sort();
    assert_eq!(drawn, (0..23u32).collect::<Vec<u32>>());
}

#[test]
fn caches_hand_out_ids_from_one() {
    let mut c: CacheManager<&str, u32> = CacheManager::new();
    let m1 = c.create_and_cache_mesh::<String>(Ok("cube")).unwrap();
    let m2 = c.create_and_cache_mesh::<String>(Ok("sphere")).unwrap();
    assert_eq!((m1, m2), (1, 2));
    assert_eq!(c.get_cached_mesh(2), Some(&"sphere"));
    assert_eq!(c.get_cached_mesh(3), None);
    let o = c.create_object_resources::<String>(Ok(10)).unwrap();
    assert_eq!(o, 1);
    *c.get_object_resources_mut(o).unwrap() += 5;
    assert_eq!(c.get_object_resources(o), Some(&15));
    assert!(c.get_object_resources_mut(2).is_none());
}

#[test]
fn failed_creation_consumes_an_id() {
    let mut c: CacheManager<&str, u32> = CacheManager::new();
    assert_eq!(c.create_and_cache_mesh(Err("out of memory")), Err("out of memory"));
    assert_eq!(c.get_cached_mesh(1), None);
    assert_eq!(c.create_and_cache_mesh::<&str>(Ok("cube")), Ok(2));
    assert_eq!(c.create_object_resources(Err(7)), Err(7));
    assert_eq!(c.create_object_resources::<i32>(Ok(3)), Ok(2));
    assert_eq!(c.get_object_resources(1), None);
}

#[test]
fn pipelines_by_material() {
    let mut m: PipelineManager<&str> = PipelineManager::new();
    assert!(m.get_active_pipeline().is_none());
    m.insert_pipeline(PipelineType::StandardPBR, "pbr");
    m.insert_pipeline(PipelineType::TransparentUnlit, "tu");
    let glass = MaterialKind::Transparent(Box::new(MaterialKind::Unlit));
    assert_eq!(glass.required_pipeline(), PipelineType::TransparentUnlit);
    assert_eq!(m.get_pipeline(&glass), Some(&"tu"));
    assert!(m.has_pipeline(&MaterialKind::StandardPBR));
    assert!(!m.has_pipeline(&MaterialKind::Unlit));
    m.set_active_pipeline(&MaterialKind::StandardPBR);
    assert_eq!(m.get_active_pipeline(), Some(&"pbr"));
    assert_eq!(m.get_active_pipeline_type(), Some(PipelineType::StandardPBR));
    m.set_active_pipeline_type(PipelineType::Unlit);
    assert_eq!(m.get_active_pipeline(), None);
    let nested = MaterialKind::Transparent(Box::new(MaterialKind::Transparent(Box::new(MaterialKind::Unlit))));
    assert_eq!(nested.required_pipeline(), PipelineType::TransparentPBR);
    assert_eq!(PipelineType::TransparentPBR.shader_variant(), "transparent_pbr");
    assert!(PipelineType::TransparentUnlit.requires_blending());
    assert!(!PipelineType::Unlit.requires_blending());
}

#[test]
fn pipeline_configs() {
    let c = PipelineConfig::transparent_unlit();
    assert_eq!(c.pipeline_type, PipelineType::TransparentUnlit);
    assert_eq!(c.fragment_shader_path, "target/shaders/unlit_frag.spv");
    assert!(c.depth_test && !c.depth_write && c.alpha_blending);
    assert_eq!(c.cull_mode, CullMode::NoCulling);
    let c = PipelineConfig::standard_pbr();
    assert_eq!(c.cull_mode, CullMode::Back);
    assert_eq!(RenderPriority::AlphaTest.queue_value(), 2450);
    assert!(RenderPriority::Geometry < RenderPriority::Transparent);
}

#[test]
fn mesh_types() {
    assert_eq!(MeshType::all(), &[MeshType::Teapot, MeshType::Sphere, MeshType::Cube]);
    assert_eq!(MeshType::Sphere.default_model_path(), "models/sphere.obj");
    assert_eq!(MeshType::Cube.name(), "Cube");
    assert_eq!(MeshType::default(), MeshType::Teapot);
}

#[test]
fn slot_pool_generations() {
    let mut p = SlotPool::new(vec!['a', 'b']);
    let (i, g) = p.allocate().unwrap();
    assert_eq!((i, g), (0, 1));
    assert_eq!(p.get(i, g), Some(&'a'));
    assert_eq!(p.deallocate(i, g + 1), Err(SlotError::Stale));
    assert_eq!(p.deallocate(7, g), Err(SlotError::OutOfRange));
    assert_eq!(p.deallocate(i, g), Ok(()));
    assert_eq!(p.get(i, g), None);
    assert_eq!(p.available_count(), 2);
    assert_eq!(p.total_count(), 2);
}

#[test]
fn decimal_rendering() {
    assert_eq!(to_decimal(0), "0");
    assert_eq!(to_decimal(7), "7");
    assert_eq!(to_decimal(100), "100");
    assert_eq!(to_decimal(u64::MAX), u64::MAX.to_string());
}
