use rust_try_lib::graphics::batch::{Batch, INSTANCE_BYTES};

#[test]
fn batching_groups_instances_by_mesh_in_first_seen_order() {
    let mut made: Vec<u32> = Vec::new();
    let mut batch: Batch<String, u8> = Batch::new();
    for (mesh, inst) in [(5u32, 1u8), (3, 2), (5, 3), (3, 4), (7, 5)] {
        let mut created = false;
        batch.batch(mesh, inst, || {
            created = true;
            format!("buffer {}", mesh)
        });
        if created {
            made.push(mesh);
        }
    }
    // One buffer per mesh, created on first use.
    assert_eq!(made, vec![5, 3, 7]);
    assert_eq!(batch.mesh_buffer(3).map(|s| s.as_str()), Some("buffer 3"));
    assert!(batch.mesh_buffer(9).is_none());

    let draws = batch.take_draws();
    let order: Vec<u32> = draws.iter().map(|d| d.mesh_id).collect();
    assert_eq!(order, vec![5, 3, 7]);
    assert_eq!(draws[0].instances, vec![1, 3]);
    assert_eq!(draws[1].instances, vec![2, 4]);
    assert_eq!(draws[2].instances, vec![5]);
    // Byte ranges tile the instance buffer.
    assert_eq!((draws[0].start, draws[0].end), (0, 2 * INSTANCE_BYTES));
    assert_eq!((draws[1].start, draws[1].end), (2 * INSTANCE_BYTES, 4 * INSTANCE_BYTES));
    assert_eq!((draws[2].start, draws[2].end), (4 * INSTANCE_BYTES, 5 * INSTANCE_BYTES));
    // Nothing is pending afterwards, buffers are kept.
    assert!(batch.take_draws().is_empty());
    assert!(batch.mesh_buffer(5).is_some());
}

#[test]
fn buffers_are_not_rebuilt_across_frames() {
    let mut batch: Batch<u32, u8> = Batch::new();
    let mut builds = 0;
    batch.batch(1, 0, || {
        builds += 1;
        10
    });
    let _ = batch.take_draws();
    batch.batch(2, 0, || {
        builds += 1;
        20
    });
    batch.batch(1, 0, || {
        builds += 1;
        30
    });
    assert_eq!(builds, 2);
    assert_eq!(batch.mesh_buffer(1), Some(&10));
    let draws = batch.take_draws();
    assert_eq!(draws.len(), 2);
    assert_eq!(draws[1].mesh_id, 1);
}
