use rust_engine::handles::DynamicObjectHandle;
use rust_engine::object_manager::{DynamicObjectError, DynamicObjectManager, DynamicRenderData, ResourceState};
use rust_engine::object_pool::ObjectPool;

/// Payload of a test object: position and lifetime.
#[derive(Debug, Clone, Default, PartialEq)]
struct Params {
    position: [f32; 3],
    lifetime: f32,
}

fn params(position: [f32; 3], lifetime: f32) -> Params {
    Params { position, lifetime }
}

#[test]
fn test_object_pool_allocation() {
    let mut pool: ObjectPool<DynamicRenderData<Params>> = ObjectPool::new(10);

    // Test allocation
    let allocation1 = pool.allocate().expect("Should allocate");
    let (index1, gen1) = allocation1;
    let allocation2 = pool.allocate().expect("Should allocate");
    let (index2, gen2) = allocation2;

    assert_ne!(index1, index2);
    assert_eq!(gen1, 0);
    assert_eq!(gen2, 0);
    assert_eq!(pool.available_count(), 8);
    assert_eq!(pool.active_count(), 2);
}

#[test]
fn test_object_pool_deallocation() {
    let mut pool: ObjectPool<DynamicRenderData<Params>> = ObjectPool::new(10);

    let allocation = pool.allocate().expect("Should allocate");
    let index = allocation.0;
    let gen = allocation.1;
    assert_eq!(pool.available_count(), 9);

    pool.deallocate(index);
    assert_eq!(pool.available_count(), 10);

    // Generation should increment
    let new_gen = pool.get_generation(index).expect("Should have generation");
    assert_eq!(new_gen, gen + 1);
}

#[test]
fn test_handle_validation() {
    let mut pool: ObjectPool<DynamicRenderData<Params>> = ObjectPool::new(10);

    let allocation = pool.allocate().expect("Should allocate");
    let (index, gen) = allocation;
    let handle = DynamicObjectHandle::new(index as u32, gen);

    assert!(pool.is_handle_valid(handle));

    pool.deallocate(index);
    assert!(!pool.is_handle_valid(handle)); // Should be invalid after deallocation
}

#[test]
fn test_dynamic_object_manager_spawn() {
    let mut manager = DynamicObjectManager::new(10);

    let p = params([1.0, 2.0, 3.0], 5.0);

    let handle = manager.spawn_object(p).expect("Should spawn object");
    assert_eq!(manager.active_count(), 1);

    let object = manager.get_object(handle).expect("Should get object");
    assert_eq!(object.data.position, [1.0, 2.0, 3.0]);
    assert_eq!(object.data.lifetime, 5.0);
}

#[test]
fn test_dynamic_object_manager_pool_exhaustion() {
    let mut manager = DynamicObjectManager::new(2);

    let p = params([0.0, 0.0, 0.0], 5.0);

    // Fill the pool
    manager.spawn_object(p.clone()).expect("Should spawn 1");
    manager.spawn_object(p.clone()).expect("Should spawn 2");

    // This should fail
    let result = manager.spawn_object(p);
    assert!(matches!(result, Err(DynamicObjectError::PoolExhausted { .. })));
}

#[test]
fn test_dynamic_object_manager_despawn() {
    let mut manager = DynamicObjectManager::new(10);

    let p = params([0.0, 0.0, 0.0], 5.0);

    let handle = manager.spawn_object(p).expect("Should spawn object");
    assert_eq!(manager.active_count(), 1);

    manager.despawn_object(handle).expect("Should despawn object");
    manager.update(&[]); // Process cleanup

    assert_eq!(manager.active_count(), 0);
}

#[test]
fn pool_reuses_released_slot_first_with_new_generation() {
    let mut pool: ObjectPool<DynamicRenderData<Params>> = ObjectPool::new(3);
    let (a, ga) = pool.allocate().unwrap();
    let (_b, _) = pool.allocate().unwrap();
    pool.deallocate(a);
    // The free list keeps slot 2 in front; the released slot comes after it.
    let (c, _) = pool.allocate().unwrap();
    assert_eq!(c, 2);
    let (d, gd) = pool.allocate().unwrap();
    assert_eq!(d, a);
    assert_eq!(gd, ga + 1);
    assert!(pool.allocate().is_none());
    assert!(!pool.is_handle_valid(DynamicObjectHandle::new(a as u32, ga)));
    assert!(pool.is_handle_valid(DynamicObjectHandle::new(d as u32, gd)));
}

#[test]
fn manager_spawn_hands_out_front_free_slot() {
    let mut manager: DynamicObjectManager<Params> = DynamicObjectManager::new(3);
    let h0 = manager.spawn_object(params([1.0, 0.0, 0.0], 1.0)).unwrap();
    let h1 = manager.spawn_object(params([2.0, 0.0, 0.0], 1.0)).unwrap();
    assert_eq!(h0, DynamicObjectHandle::new(0, 0));
    assert_eq!(h1, DynamicObjectHandle::new(1, 0));
    assert_eq!(manager.get_active_objects(), &[h0, h1]);
    assert_eq!(manager.get_stats().total_spawned, 2);
    assert_eq!(manager.get_stats().peak_active, 2);
}

#[test]
fn manager_exhaustion_reports_request_and_counts() {
    let mut manager: DynamicObjectManager<Params> = DynamicObjectManager::new(1);
    manager.spawn_object(Params::default()).unwrap();
    match manager.spawn_object(Params::default()) {
        Err(DynamicObjectError::PoolExhausted { requested, available }) => {
            assert_eq!(requested, 1);
            assert_eq!(available, 0);
        }
        other => panic!("unexpected {:?}", other),
    }
    assert_eq!(manager.get_stats().pool_exhaustions, 1);
    let err = DynamicObjectError::PoolExhausted { requested: 1, available: 0 };
    assert_eq!(err.message(), "Pool exhausted: requested 1, available 0");
}

#[test]
fn manager_despawn_marks_then_update_releases() {
    let mut manager: DynamicObjectManager<Params> = DynamicObjectManager::new(4);
    let h = manager.spawn_object(params([0.0, 1.0, 0.0], 2.0)).unwrap();
    manager.despawn_object(h).unwrap();
    assert_eq!(manager.get_object(h).unwrap().state, ResourceState::PendingCleanup);
    assert_eq!(manager.active_count(), 1);
    manager.update(&[]);
    assert!(manager.get_object(h).is_err());
    assert!(manager.get_active_objects().is_empty());
    assert_eq!(manager.get_stats().total_despawned, 1);
    // A stale handle is refused.
    match manager.despawn_object(h) {
        Err(DynamicObjectError::InvalidHandle { handle, reason }) => {
            assert_eq!(handle, h);
            assert_eq!(reason, "Handle generation mismatch or invalid index");
        }
        other => panic!("unexpected {:?}", other),
    }
}

#[test]
fn manager_update_releases_expired_and_keeps_live() {
    let mut manager: DynamicObjectManager<Params> = DynamicObjectManager::new(4);
    let a = manager.spawn_object(params([0.0; 3], 1.0)).unwrap();
    let b = manager.spawn_object(params([1.0; 3], 9.0)).unwrap();
    manager.update(&[a]);
    assert!(manager.get_object(a).is_err());
    assert!(manager.get_object(b).is_ok());
    assert_eq!(manager.get_active_objects(), &[b]);
    assert_eq!(manager.available_count(), 3);
}

#[test]
fn manager_update_object_data() {
    let mut manager: DynamicObjectManager<Params> = DynamicObjectManager::new(2);
    let h = manager.spawn_object(params([0.0; 3], 1.0)).unwrap();
    manager.update_object_data(h, params([3.0, 4.0, 5.0], 1.0)).unwrap();
    assert_eq!(manager.get_object(h).unwrap().data.position, [3.0, 4.0, 5.0]);
    let stale = DynamicObjectHandle::new(h.index, h.generation + 1);
    assert!(manager.update_object_data(stale, Params::default()).is_err());
    let msg = manager.get_object(stale).unwrap_err().message();
    assert_eq!(
        msg,
        "Invalid handle DynamicObjectHandle { index: 0, generation: 1 }: Object not found or generation mismatch"
    );
}

#[test]
fn despawned_slot_comes_back_with_next_generation() {
    let mut m: DynamicObjectManager<Params> = DynamicObjectManager::new(1);
    let h1 = m.spawn_object(params([0.0, 0.0, 0.0], 5.0)).unwrap();
    assert_eq!(h1, DynamicObjectHandle { index: 0, generation: 0 });
    m.despawn_object(h1).unwrap();
    m.update(&[]);
    let h2 = m.spawn_object(params([1.0, 0.0, 0.0], 5.0)).unwrap();
    assert_eq!(h2, DynamicObjectHandle { index: 0, generation: 1 });
    assert!(m.get_object(h2).is_ok());
    assert!(m.get_object(h1).is_err());
    assert_eq!(m.active_count(), 1);
    assert_eq!(m.get_active_objects(), &[h2][..]);
}

#[test]
fn free_and_used_slots_add_up() {
    let mut pool: ObjectPool<u32> = ObjectPool::new(4);
    let (a, _) = pool.allocate().unwrap();
    let (b, _) = pool.allocate().unwrap();
    assert_eq!(pool.available_count() + pool.active_count(), pool.capacity());
    pool.deallocate(a);
    assert_eq!((pool.available_count(), pool.active_count()), (3, 1));
    pool.deallocate(b);
    assert_eq!((pool.available_count(), pool.active_count()), (4, 0));
    for _ in 0..4 {
        assert!(pool.allocate().is_some());
    }
    assert_eq!(pool.available_count(), 0);
    assert!(pool.allocate().is_none());
}

#[test]
fn releasing_a_free_slot_changes_nothing() {
    let mut pool: ObjectPool<u32> = ObjectPool::new(1);
    pool.deallocate(0);
    assert_eq!(pool.available_count(), 1);
    assert_eq!(pool.active_count(), 0);
    assert_eq!(pool.get_generation(0), Some(0));
    assert_eq!(pool.allocate(), Some((0, 0)));
    assert_eq!(pool.allocate(), None);
    pool.deallocate(0);
    pool.deallocate(0);
    assert_eq!(pool.available_count(), 1);
    assert_eq!(pool.get_generation(0), Some(1));
    assert_eq!(pool.allocate(), Some((0, 1)));
    assert_eq!(pool.allocate(), None);
}
