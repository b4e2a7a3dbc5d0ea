use voxel_engine::threaded_chunk_loader::ThreadedChunkLoader;
use voxel_engine::voxel_data::{BlockType, VoxelData, CHUNK_VOLUME};

fn air(pos: (i32, i32)) -> VoxelData {
    VoxelData::new(vec![BlockType::Air; CHUNK_VOLUME], pos)
}

#[test]
fn priority_monotonicity() {
    let mut loader: ThreadedChunkLoader<u32> = ThreadedChunkLoader::new();
    loader.receive_voxels(air((0, 0)));
    assert!(loader.receive_mesh((0, 0), Some(2), 2));
    assert!(loader.receive_mesh((0, 0), Some(4), 4));
    assert!(!loader.receive_mesh((0, 0), Some(1), 1));
    assert!(!loader.receive_mesh((0, 0), Some(3), 3));
    let meshes = loader.get_meshes();
    assert_eq!(meshes.len(), 1);
    assert_eq!(*meshes[0], 4);
}

#[test]
fn equal_priority_replaces() {
    let mut loader: ThreadedChunkLoader<u32> = ThreadedChunkLoader::new();
    loader.receive_voxels(air((2, 2)));
    assert!(loader.receive_mesh((2, 2), Some(10), 3));
    assert!(loader.receive_mesh((2, 2), Some(11), 3));
    assert_eq!(loader.get_meshes(), vec![&11]);
}

#[test]
fn unloaded_result_is_discarded() {
    let mut loader: ThreadedChunkLoader<u32> = ThreadedChunkLoader::new();
    loader.receive_voxels(air((5, 5)));
    loader.receive_voxels(air((6, 5)));
    assert!(loader.receive_mesh((6, 5), Some(60), 1));
    loader.queue_unload_chunk((5, 5));
    assert!(!loader.is_resident((5, 5)));
    assert!(!loader.accepts_mesh((5, 5), 4));
    assert!(!loader.receive_mesh((5, 5), Some(50), 4));
    assert_eq!(loader.get_meshes(), vec![&60]);
}

#[test]
fn unload_removes_stored_mesh() {
    let mut loader: ThreadedChunkLoader<u32> = ThreadedChunkLoader::new();
    loader.receive_voxels(air((1, 1)));
    assert!(loader.receive_mesh((1, 1), Some(7), 0));
    loader.queue_unload_chunk((1, 1));
    assert!(loader.get_meshes().is_empty());
    // A fresh load starts from no recorded priority.
    loader.receive_voxels(air((1, 1)));
    assert!(loader.receive_mesh((1, 1), Some(8), 0));
    assert_eq!(loader.get_meshes(), vec![&8]);
}

#[test]
fn empty_mesh_is_not_drawn() {
    let mut loader: ThreadedChunkLoader<u32> = ThreadedChunkLoader::new();
    loader.receive_voxels(air((0, 0)));
    loader.receive_voxels(air((1, 0)));
    assert!(loader.receive_mesh((0, 0), None, 1));
    assert!(loader.receive_mesh((1, 0), Some(3), 1));
    assert_eq!(loader.get_meshes(), vec![&3]);
    // A lower-priority non-empty result does not replace the empty one.
    assert!(!loader.receive_mesh((0, 0), Some(9), 0));
    assert_eq!(loader.get_meshes(), vec![&3]);
}

#[test]
fn queue_load_is_idempotent_and_batched() {
    let mut loader: ThreadedChunkLoader<u32> = ThreadedChunkLoader::new();
    for x in 0..6 {
        loader.queue_load_chunk((x, 0));
    }
    loader.queue_load_chunk((0, 0));
    let first = loader.take_generation_batch();
    assert_eq!(first, vec![(0, 0), (1, 0), (2, 0), (3, 0)]);
    let second = loader.take_generation_batch();
    assert_eq!(second, vec![(4, 0), (5, 0)]);
    assert!(loader.take_generation_batch().is_empty());
}

#[test]
fn resident_chunks_are_not_requested() {
    let mut loader: ThreadedChunkLoader<u32> = ThreadedChunkLoader::new();
    loader.receive_voxels(air((0, 0)));
    loader.queue_load_chunk((0, 0));
    assert!(loader.take_generation_batch().is_empty());
    loader.queue_load_chunk((1, 0));
    loader.receive_voxels(air((1, 0)));
    // Became resident while pending: leaves the pending list without a job.
    assert!(loader.take_generation_batch().is_empty());
}

#[test]
fn arrival_marks_chunk_and_neighbors_dirty() {
    let mut loader: ThreadedChunkLoader<u32> = ThreadedChunkLoader::new();
    loader.receive_voxels(air((0, 0)));
    let jobs = loader.take_mesh_jobs();
    assert_eq!(jobs.len(), 1);
    assert_eq!(jobs[0].local.pos(), (0, 0));
    assert_eq!(jobs[0].priority(), 0);
    assert!(loader.take_mesh_jobs().is_empty());

    loader.receive_voxels(air((1, 0)));
    let jobs = loader.take_mesh_jobs();
    // (1, 0) itself, then its neighbor (0, 0) which is resident.
    assert_eq!(jobs.len(), 2);
    assert_eq!(jobs[0].local.pos(), (1, 0));
    assert_eq!(jobs[0].priority(), 1);
    assert_eq!(jobs[0].neg_x.as_ref().map(|v| v.pos()), Some((0, 0)));
    assert_eq!(jobs[1].local.pos(), (0, 0));
    assert_eq!(jobs[1].pos_x.as_ref().map(|v| v.pos()), Some((1, 0)));
}

#[test]
fn full_neighborhood_gives_priority_four() {
    let mut loader: ThreadedChunkLoader<u32> = ThreadedChunkLoader::new();
    for p in [(1, 0), (-1, 0), (0, 1), (0, -1)] {
        loader.receive_voxels(air(p));
    }
    loader.take_mesh_jobs();
    loader.receive_voxels(air((0, 0)));
    let jobs = loader.take_mesh_jobs();
    assert_eq!(jobs[0].local.pos(), (0, 0));
    assert_eq!(jobs[0].priority(), 4);
    assert_eq!(jobs.len(), 5);
}

#[test]
fn edge_of_coordinate_space_has_fewer_neighbors() {
    let mut loader: ThreadedChunkLoader<u32> = ThreadedChunkLoader::new();
    loader.receive_voxels(air((i32::MAX, i32::MIN)));
    let jobs = loader.take_mesh_jobs();
    assert_eq!(jobs.len(), 1);
    assert_eq!(jobs[0].priority(), 0);
}
