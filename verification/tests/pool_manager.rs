use rust_engine::error::VulkanError;
use rust_engine::handles::DynamicObjectHandle;
use rust_engine::mesh_type::MeshType;
use rust_engine::object_manager::DynamicObjectError;
use rust_engine::pool_manager::{MeshPoolManager, PoolManagerError};

#[derive(Debug, Clone, Default, PartialEq)]
struct Obj {
    x: f32,
}

/// Stand-in for the rendering resources of a mesh.
#[derive(Debug, PartialEq)]
struct Res(&'static str);

#[test]
fn pools_are_created_once_per_mesh_type() {
    let mut m: MeshPoolManager<Obj, Res> = MeshPoolManager::new();
    assert!(!m.has_pools());
    m.create_pool(MeshType::Teapot, Res("teapot"), 2).unwrap();
    match m.create_pool(MeshType::Teapot, Res("again"), 5) {
        Err(PoolManagerError::PoolCreationFailed { mesh_type, reason }) => {
            assert_eq!(mesh_type, MeshType::Teapot);
            assert_eq!(reason, "Pool already exists for this mesh type");
        }
        other => panic!("unexpected {:?}", other),
    }
    assert!(m.has_pools());
    assert!(m.has_pool(MeshType::Teapot));
    assert!(!m.has_pool(MeshType::Cube));
    assert_eq!(m.get_stats().active_pools, 1);
    assert_eq!(m.get_pool_stats(MeshType::Teapot), Some((0, 2)));
    assert_eq!(m.get_pool(MeshType::Teapot).unwrap().1, &Res("teapot"));
    assert!(m.initialize_pools().is_ok());
}

#[test]
fn spawning_and_batches() {
    let mut m: MeshPoolManager<Obj, Res> = MeshPoolManager::default();
    m.create_pool(MeshType::Sphere, Res("s"), 1).unwrap();
    m.create_pool(MeshType::Cube, Res("c"), 3).unwrap();
    match m.spawn_object(MeshType::Teapot, Obj::default()) {
        Err(PoolManagerError::PoolNotFound { mesh_type }) => assert_eq!(mesh_type, MeshType::Teapot),
        other => panic!("unexpected {:?}", other),
    }
    let h = m.spawn_object(MeshType::Cube, Obj { x: 2.0 }).unwrap();
    assert_eq!(h, DynamicObjectHandle::new(0, 0));
    assert_eq!(m.get_object(MeshType::Cube, h).unwrap().data, Obj { x: 2.0 });
    assert!(m.get_object(MeshType::Teapot, h).is_none());
    assert_eq!(m.active_pools(), vec![MeshType::Cube]);
    assert_eq!(m.total_active_objects(), 1);
    let stats = m.get_stats();
    assert_eq!(stats.total_spawned, 1);
    assert_eq!(stats.total_active_objects, 1);
    assert_eq!(stats.render_batches_per_frame, 1);

    m.spawn_object(MeshType::Sphere, Obj::default()).unwrap();
    match m.spawn_object(MeshType::Sphere, Obj::default()) {
        Err(PoolManagerError::PoolOperationFailed { mesh_type, operation, reason }) => {
            assert_eq!(mesh_type, MeshType::Sphere);
            assert_eq!(operation, "spawn_object");
            assert_eq!(reason, "Pool exhausted: requested 1, available 0");
        }
        other => panic!("unexpected {:?}", other),
    }
    assert_eq!(m.get_stats().total_spawned, 2);
    assert_eq!(m.get_stats().render_batches_per_frame, 2);
    assert_eq!(m.active_pools(), vec![MeshType::Sphere, MeshType::Cube]);
}

#[test]
fn despawn_update_and_data() {
    let mut m: MeshPoolManager<Obj, Res> = MeshPoolManager::new();
    m.create_pool(MeshType::Cube, Res("c"), 2).unwrap();
    let a = m.spawn_object(MeshType::Cube, Obj::default()).unwrap();
    let b = m.spawn_object(MeshType::Cube, Obj::default()).unwrap();
    m.update_object_data(MeshType::Cube, b, Obj { x: 9.0 }).unwrap();
    assert_eq!(m.get_object(MeshType::Cube, b).unwrap().data.x, 9.0);
    match m.update_object_data(MeshType::Teapot, b, Obj::default()) {
        Err(DynamicObjectError::ResourceCreationFailed(msg)) => assert_eq!(msg, "No pool found for mesh type: Teapot"),
        other => panic!("unexpected {:?}", other),
    }
    m.despawn_object(MeshType::Cube, a).unwrap();
    assert_eq!(m.get_stats().total_despawned, 1);
    m.update_all_pools(&[(MeshType::Cube, b), (MeshType::Sphere, b)]);
    assert_eq!(m.total_active_objects(), 0);
    assert_eq!(m.get_stats().render_batches_per_frame, 0);
    assert!(m.active_pools().is_empty());
    assert_eq!(m.get_active_objects(MeshType::Cube).unwrap().len(), 0);
    match m.despawn_object(MeshType::Cube, a) {
        Err(PoolManagerError::PoolOperationFailed { operation, reason, .. }) => {
            assert_eq!(operation, "despawn_object");
            assert_eq!(
                reason,
                "Invalid handle DynamicObjectHandle { index: 0, generation: 0 }: Handle generation mismatch or invalid index"
            );
        }
        other => panic!("unexpected {:?}", other),
    }
}

#[test]
fn pool_manager_error_messages() {
    assert_eq!(
        PoolManagerError::PoolNotFound { mesh_type: MeshType::Sphere }.message(),
        "No pool found for mesh type: Sphere"
    );
    assert_eq!(
        PoolManagerError::PoolCreationFailed { mesh_type: MeshType::Cube, reason: "r".to_string() }.message(),
        "Failed to create pool for Cube: r"
    );
    assert_eq!(
        PoolManagerError::PoolOperationFailed {
            mesh_type: MeshType::Teapot,
            operation: "op".to_string(),
            reason: "why".to_string()
        }
        .message(),
        "Pool operation 'op' failed for Teapot: why"
    );
    assert_eq!(
        PoolManagerError::VulkanError(VulkanError::Api(-4)).message(),
        "Vulkan error in pool manager: Vulkan API error: ERROR_DEVICE_LOST"
    );
}
