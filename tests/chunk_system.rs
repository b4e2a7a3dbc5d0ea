use std::collections::HashSet;
use voxel_engine::chunk_system::{chunk_of, window, window_diff, ChunkSystem};
use voxel_engine::threaded_chunk_loader::ThreadedChunkLoader;
use voxel_engine::voxel_data::{BlockType, VoxelData, CHUNK_VOLUME};

fn set(v: &[(i32, i32)]) -> HashSet<(i32, i32)> {
    v.iter().copied().collect()
}

#[test]
fn radius_diffing() {
    let (unload, load) = window_diff((0, 0), (1, 0), 2);
    assert_eq!(set(&unload), set(&[(-2, -2), (-2, -1), (-2, 0), (-2, 1)]));
    assert_eq!(set(&load), set(&[(2, -2), (2, -1), (2, 0), (2, 1)]));
    assert_eq!(unload.len(), 4);
    assert_eq!(load.len(), 4);
    assert!(set(&unload).is_disjoint(&set(&load)));
}

#[test]
fn window_is_square_of_side_twice_radius() {
    let w = window((10, -3), 2);
    assert_eq!(w.len(), 16);
    let s = set(&w);
    assert_eq!(s.len(), 16);
    for x in 8..12 {
        for z in -5..-1 {
            assert!(s.contains(&(x, z)));
        }
    }
    assert!(window((0, 0), 0).is_empty());
}

#[test]
fn chunk_of_rounds_toward_zero() {
    assert_eq!(chunk_of(0, 0), (0, 0));
    assert_eq!(chunk_of(15, 16), (0, 1));
    assert_eq!(chunk_of(-1, -15), (0, 0));
    assert_eq!(chunk_of(-16, -17), (-1, -1));
    assert_eq!(chunk_of(i32::MIN, i32::MAX), (-134217728, 134217727));
}

#[test]
fn moving_across_a_chunk_boundary_requests_the_difference() {
    let loader: ThreadedChunkLoader<u32> = ThreadedChunkLoader::new();
    let mut system = ChunkSystem::new(loader, 2);
    let initial = system.loader_mut().take_generation_batch();
    assert_eq!(initial.len(), 4);
    // Make the whole initial window resident.
    let mut rest = initial.clone();
    loop {
        let batch = system.loader_mut().take_generation_batch();
        if batch.is_empty() {
            break;
        }
        rest.extend(batch);
    }
    assert_eq!(set(&rest), set(&window((0, 0), 2)));
    for p in &rest {
        system
            .loader_mut()
            .receive_voxels(VoxelData::new(vec![BlockType::Air; CHUNK_VOLUME], *p));
    }
    // Moving within the chunk changes nothing.
    system.player_moved(15, 3);
    assert!(system.loader_mut().take_generation_batch().is_empty());
    // Moving to chunk (1, 0): column x = -2 leaves, column x = 2 enters.
    system.player_moved(16, 0);
    for z in -2..2 {
        assert!(!system.loader().is_resident((-2, z)));
        assert!(system.loader().is_resident((-1, z)));
    }
    let mut requested = system.loader_mut().take_generation_batch();
    requested.extend(system.loader_mut().take_generation_batch());
    assert_eq!(set(&requested), set(&[(2, -2), (2, -1), (2, 0), (2, 1)]));
}

#[test]
fn meshes_come_from_the_loader() {
    let loader: ThreadedChunkLoader<u32> = ThreadedChunkLoader::new();
    let mut system = ChunkSystem::new(loader, 1);
    system
        .loader_mut()
        .receive_voxels(VoxelData::new(vec![BlockType::Air; CHUNK_VOLUME], (0, 0)));
    assert!(system.loader_mut().receive_mesh((0, 0), Some(42), 0));
    assert_eq!(system.get_chunk_meshes(), vec![&42]);
}
