use nalgebra::Matrix4;
use rust_engine::material_type::MaterialId;
use rust_engine::render_queue::{CommandType, RenderCommand, RenderQueue};

/// What a command draws: the entity and its world transform.
type Payload = (u64, Matrix4<f32>);

/// Depth key of a non-negative camera distance: the bits of an `f32` order as the value.
fn key(distance: f32) -> u32 {
    distance.to_bits()
}

#[test]
fn test_render_queue_creation() {
    let queue: RenderQueue<Payload> = RenderQueue::new();
    assert!(queue.is_empty());
    assert_eq!(queue.command_count(), 0);
}

#[test]
fn test_add_opaque_command() {
    let entity = 1u64;

    let mut queue: RenderQueue<Payload> = RenderQueue::new();
    let command = RenderCommand::opaque((entity, Matrix4::identity()), MaterialId(0), key(5.0));

    let command_id = queue.add_command(command);
    assert_eq!(command_id, 0);
    assert_eq!(queue.command_count(), 1);
    assert_eq!(queue.opaque_commands().len(), 1);
    assert_eq!(queue.transparent_commands().len(), 0);
}

#[test]
fn test_add_transparent_command() {
    let entity = 1u64;

    let mut queue: RenderQueue<Payload> = RenderQueue::new();
    let command = RenderCommand::transparent((entity, Matrix4::identity()), MaterialId(0), key(5.0));

    let command_id = queue.add_command(command);
    assert_eq!(command_id, 0);
    assert_eq!(queue.command_count(), 1);
    assert_eq!(queue.opaque_commands().len(), 0);
    assert_eq!(queue.transparent_commands().len(), 1);
}

#[test]
fn test_command_sorting() {
    let entity1 = 1u64;
    let entity2 = 2u64;
    let entity3 = 3u64;
    let entity4 = 4u64;

    let mut queue: RenderQueue<Payload> = RenderQueue::new();

    // Add opaque objects with different depths
    queue.add_command(RenderCommand::opaque((entity1, Matrix4::identity()), MaterialId(0), key(10.0))); // Far
    queue.add_command(RenderCommand::opaque((entity2, Matrix4::identity()), MaterialId(0), key(5.0))); // Near

    // Add transparent objects with different depths
    queue.add_command(RenderCommand::transparent((entity3, Matrix4::identity()), MaterialId(0), key(8.0))); // Far
    queue.add_command(RenderCommand::transparent((entity4, Matrix4::identity()), MaterialId(0), key(3.0))); // Near

    queue.sort_commands();

    // Opaque should be sorted front-to-back (near to far)
    let opaque = queue.opaque_commands();
    assert_eq!(opaque[0].depth_key, key(5.0)); // Nearest first
    assert_eq!(opaque[1].depth_key, key(10.0)); // Farthest last

    // Transparent should be sorted back-to-front (far to near)
    let transparent = queue.transparent_commands();
    assert_eq!(transparent[0].depth_key, key(8.0)); // Farthest first
    assert_eq!(transparent[1].depth_key, key(3.0)); // Nearest last
}

#[test]
fn test_clear_queue() {
    let entity = 1u64;

    let mut queue: RenderQueue<Payload> = RenderQueue::new();
    queue.add_command(RenderCommand::opaque((entity, Matrix4::identity()), MaterialId(0), key(5.0)));

    assert_eq!(queue.command_count(), 1);

    queue.clear();
    assert!(queue.is_empty());
    assert_eq!(queue.command_count(), 0);
}

#[test]
fn sorting_is_stable_for_equal_depths() {
    let mut queue: RenderQueue<u32> = RenderQueue::with_capacity(8);
    for (i, d) in [4u32, 2, 4, 1, 2, 4].iter().enumerate() {
        queue.add_command(RenderCommand::opaque(i as u32, MaterialId(0), *d));
        queue.add_command(RenderCommand::transparent(i as u32, MaterialId(1), *d));
    }
    queue.sort_commands();
    let opaque: Vec<(u32, u32)> = queue.opaque_commands().iter().map(|c| (c.depth_key, c.payload)).collect();
    assert_eq!(opaque, vec![(1, 3), (2, 1), (2, 4), (4, 0), (4, 2), (4, 5)]);
    let transparent: Vec<(u32, u32)> = queue.transparent_commands().iter().map(|c| (c.depth_key, c.payload)).collect();
    assert_eq!(transparent, vec![(4, 0), (4, 2), (4, 5), (2, 1), (2, 4), (1, 3)]);
    assert!(queue.transparent_commands().iter().all(|c| c.command_type == CommandType::Transparent));
}

#[test]
fn command_ids_restart_after_clear() {
    let mut queue: RenderQueue<()> = RenderQueue::default();
    assert_eq!(queue.add_command(RenderCommand::opaque((), MaterialId(2), 0)), 0);
    assert_eq!(queue.add_command(RenderCommand::transparent((), MaterialId(2), 0)), 1);
    queue.clear();
    assert_eq!(queue.add_command(RenderCommand::opaque((), MaterialId(2), 0)), 0);
}
