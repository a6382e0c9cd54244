use rust_engine::handles::DynamicObjectHandle;
use rust_engine::object_manager::DynamicObjectError;
use rust_engine::spawner::{DefaultDynamicSpawner, SpawnerError};

#[derive(Debug, Clone, Copy, Default, PartialEq)]
struct Obj {
    position: [f32; 3],
}

#[test]
fn test_spawner_error_display() {
    let error = SpawnerError::PoolExhausted {
        active_count: 100,
        max_capacity: 100,
    };

    let display = error.message();
    assert!(display.contains("Pool exhausted: 100/100"));
}

#[test]
fn spawner_error_messages() {
    assert_eq!(
        SpawnerError::PoolExhausted { active_count: 7, max_capacity: 12 }.message(),
        "Pool exhausted: 7/12 objects active"
    );
    assert_eq!(
        SpawnerError::InvalidParameters { reason: "Scale must be positive".to_string() }.message(),
        "Invalid parameters: Scale must be positive"
    );
    assert_eq!(
        SpawnerError::InvalidHandle { handle: DynamicObjectHandle::new(3, 9), reason: "stale".to_string() }.message(),
        "Invalid handle DynamicObjectHandle { index: 3, generation: 9 }: stale"
    );
    assert_eq!(
        SpawnerError::ObjectManagerError(DynamicObjectError::VulkanError("lost".to_string())).message(),
        "Object manager error: Vulkan error: lost"
    );
    assert_eq!(
        SpawnerError::ResourceAllocationFailed("no memory".to_string()).message(),
        "Resource allocation failed: no memory"
    );
    let converted: SpawnerError = DynamicObjectError::ResourceCreationFailed("x".to_string()).into();
    assert_eq!(converted.message(), "Object manager error: Resource creation failed: x");
}

#[test]
fn spawner_refuses_when_full() {
    let mut spawner: DefaultDynamicSpawner<Obj> = DefaultDynamicSpawner::new(2);
    spawner.spawn_dynamic_object(Obj::default()).unwrap();
    spawner.spawn_dynamic_object(Obj::default()).unwrap();
    match spawner.spawn_dynamic_object(Obj::default()) {
        Err(SpawnerError::PoolExhausted { active_count, max_capacity }) => {
            assert_eq!(active_count, 2);
            assert_eq!(max_capacity, 2);
        }
        other => panic!("unexpected {:?}", other),
    }
    let stats = spawner.get_spawner_stats();
    assert_eq!(stats.total_spawned, 2);
    assert_eq!(stats.active_objects, 2);
    assert_eq!(stats.peak_active, 2);
}

#[test]
fn spawner_despawn_and_lifecycle_counts() {
    let mut spawner: DefaultDynamicSpawner<Obj> = DefaultDynamicSpawner::new(4);
    let a = spawner.spawn_dynamic_object(Obj { position: [1.0, 2.0, 3.0] }).unwrap();
    let b = spawner.spawn_dynamic_object(Obj::default()).unwrap();
    let info = spawner.get_object_info(a).unwrap();
    assert_eq!(info.handle, a);
    assert_eq!(info.data.position, [1.0, 2.0, 3.0]);
    assert_eq!(info.entity_id, None);
    assert_eq!(info.render_flags, 0);

    spawner.despawn_dynamic_object(a).unwrap();
    let stats = spawner.get_spawner_stats();
    assert_eq!(stats.manual_despawned, 1);
    assert_eq!(stats.total_despawned, 1);
    // Despawned objects keep their slot until the next lifecycle update.
    assert_eq!(stats.active_objects, 2);

    spawner.update_lifecycle(&[b]);
    let stats = spawner.get_spawner_stats();
    assert_eq!(stats.active_objects, 0);
    assert_eq!(stats.auto_despawned, 2);
    assert_eq!(stats.total_despawned, 3);
    assert_eq!(stats.peak_active, 2);
    assert!(spawner.get_object_info(a).is_none());

    match spawner.despawn_dynamic_object(a) {
        Err(SpawnerError::InvalidHandle { handle, reason }) => {
            assert_eq!(handle, a);
            assert_eq!(reason, "Handle is invalid or stale");
        }
        other => panic!("unexpected {:?}", other),
    }
}
