use voxel_engine::chunk_cache::ChunkCache;

#[test]
fn lru_eviction() {
    let a = (0, 0);
    let b = (1, 0);
    let c = (2, 0);
    let mut cache: ChunkCache<u32> = ChunkCache::new(2);
    assert_eq!(cache.load_chunk(a, |_| 1), None);
    assert_eq!(cache.load_chunk(b, |_| 2), None);
    assert_eq!(cache.load_chunk(c, |_| 3), Some(a));
    assert!(!cache.contains(a));
    assert_eq!(cache.load_chunk(a, |_| 4), Some(b));
    assert!(cache.contains(c));
    assert!(cache.contains(a));
    assert!(!cache.contains(b));
    assert_eq!(cache.len(), 2);
    assert_eq!(cache.meshes(), vec![&3, &4]);
}

#[test]
fn reload_refreshes_recency_without_regenerating() {
    let mut cache: ChunkCache<u32> = ChunkCache::new(2);
    cache.load_chunk((0, 0), |_| 10);
    cache.load_chunk((0, 1), |_| 11);
    let r = cache.load_chunk((0, 0), |_| -> u32 { panic!("resident chunk regenerated") });
    assert_eq!(r, None);
    assert_eq!(cache.meshes(), vec![&11, &10]);
    assert_eq!(cache.load_chunk((0, 2), |_| 12), Some((0, 1)));
    assert_eq!(cache.meshes(), vec![&10, &12]);
}

#[test]
fn generator_receives_the_coordinate() {
    let mut cache: ChunkCache<(i32, i32)> = ChunkCache::new(3);
    cache.load_chunk((-4, 9), |p| p);
    assert_eq!(cache.meshes(), vec![&(-4, 9)]);
    assert_eq!(cache.capacity(), 3);
}

#[test]
fn capacity_one_keeps_latest() {
    let mut cache: ChunkCache<u32> = ChunkCache::new(1);
    assert_eq!(cache.load_chunk((0, 0), |_| 1), None);
    assert_eq!(cache.load_chunk((0, 0), |_| 2), None);
    assert_eq!(cache.load_chunk((5, 5), |_| 3), Some((0, 0)));
    assert_eq!(cache.meshes(), vec![&3]);
}
