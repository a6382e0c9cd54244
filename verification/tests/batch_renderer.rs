use rust_engine::batch_renderer::{BatchError, BatchRenderer, BatchStats, RenderBatch};
use rust_engine::material_type::MaterialId;
use rust_engine::render_queue::{RenderCommand, RenderQueue};

#[test]
fn test_render_batch_creation() {
    let batch: RenderBatch<u32> = RenderBatch::new();
    assert!(batch.is_empty());
    assert_eq!(batch.command_count(), 0);
    assert_eq!(batch.material_id(), None);
}

#[test]
fn test_batch_with_material() {
    let material = MaterialId(1);
    let batch: RenderBatch<u32> = RenderBatch::with_material(material);
    assert_eq!(batch.material_id(), Some(material));
}

#[test]
fn test_batch_renderer_creation() {
    let renderer: BatchRenderer<u32> = BatchRenderer::new();
    assert_eq!(renderer.max_batch_size(), 100);
    assert!(renderer.batch_by_material());
}

#[test]
fn test_batch_stats() {
    let mut stats = BatchStats::default();
    stats.total_commands = 100;
    stats.batch_count = 10;

    let avg_commands_per_batch = if stats.batch_count == 0 {
        0.0
    } else {
        stats.total_commands as f32 / stats.batch_count as f32
    };
    assert_eq!(avg_commands_per_batch, 10.0);
    assert_eq!(stats.total_time_us(), 0);
}

#[test]
fn batch_refuses_other_material() {
    let mut batch: RenderBatch<u32> = RenderBatch::new();
    batch.add_command(RenderCommand::opaque(1, MaterialId(3), 0)).unwrap();
    assert_eq!(batch.material_id(), Some(MaterialId(3)));
    match batch.add_command(RenderCommand::opaque(2, MaterialId(4), 0)) {
        Err(BatchError::InvalidMaterial(m)) => assert_eq!(m, MaterialId(4)),
        other => panic!("unexpected {:?}", other),
    }
    assert_eq!(batch.command_count(), 1);
}

#[test]
fn batch_error_messages() {
    assert_eq!(BatchError::InvalidMaterial(MaterialId(7)).message(), "Invalid material ID: MaterialId(7)");
    assert_eq!(
        BatchError::BatchSizeExceeded { current: 120, max: 100 }.message(),
        "Batch size limit exceeded: 120 > 100"
    );
    assert_eq!(BatchError::RenderingError("x".to_string()).message(), "Rendering error: x");
}

#[test]
fn batching_by_material_with_size_limit() {
    let mut queue: RenderQueue<u32> = RenderQueue::new();
    queue.add_command(RenderCommand::opaque(0, MaterialId(1), 0));
    queue.add_command(RenderCommand::opaque(1, MaterialId(2), 0));
    queue.add_command(RenderCommand::opaque(2, MaterialId(1), 0));
    queue.add_command(RenderCommand::opaque(3, MaterialId(1), 0));
    queue.add_command(RenderCommand::transparent(4, MaterialId(2), 0));
    let mut renderer: BatchRenderer<u32> = BatchRenderer::with_config(2, true);
    renderer.process_queue(&queue).unwrap();
    let order: Vec<u32> = renderer.get_render_commands().iter().map(|c| c.payload).collect();
    // Batches: material 1 {0, 2}, material 2 {1, 4}, material 1 {3}.
    assert_eq!(order, vec![0, 2, 1, 4, 3]);
    assert_eq!(renderer.stats().batch_count, 3);
    assert_eq!(renderer.stats().total_commands, 5);
}

#[test]
fn batching_without_material_grouping_refuses_mixed_materials() {
    let mut queue: RenderQueue<u32> = RenderQueue::new();
    queue.add_command(RenderCommand::opaque(0, MaterialId(1), 0));
    queue.add_command(RenderCommand::opaque(1, MaterialId(2), 0));
    let mut renderer: BatchRenderer<u32> = BatchRenderer::with_config(10, false);
    match renderer.execute_with_renderer(&queue) {
        Err(BatchError::InvalidMaterial(m)) => assert_eq!(m, MaterialId(2)),
        other => panic!("unexpected {:?}", other),
    }
}

#[test]
fn batch_stats_timings() {
    let mut renderer: BatchRenderer<u32> = BatchRenderer::default();
    let queue: RenderQueue<u32> = RenderQueue::new();
    renderer.execute_with_renderer(&queue).unwrap();
    renderer.set_collection_time_us(40);
    renderer.set_submission_time_us(2);
    assert_eq!(renderer.stats().total_time_us(), 42);
    renderer.reset_stats();
    assert_eq!(*renderer.stats(), BatchStats::default());
}
