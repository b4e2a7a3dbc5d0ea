use voxel_engine::chunk_generator::ChunkGenerator;
use voxel_engine::texture_atlas::TextureAtlas;
use voxel_engine::voxel_data::{BlockType, VoxelData, COLUMN_COUNT};

fn heights() -> Vec<i32> {
    (0..COLUMN_COUNT as i32).map(|c| 240 + c % 17).collect()
}

#[test]
fn generation_is_deterministic() {
    let g = ChunkGenerator::new();
    let h = heights();
    let a = g.generate_chunk(3, -7, &h);
    let b = g.generate_chunk(3, -7, &h);
    assert_eq!(a.pos(), b.pos());
    assert_eq!(a.data(), b.data());
}

#[test]
fn cells_at_or_below_surface_are_solid() {
    let g = ChunkGenerator::new();
    let mut h = vec![240; COLUMN_COUNT];
    h[3 + 16 * 5] = 100;
    let v = g.generate_chunk(0, 0, &h);
    let at = |x: usize, y: usize, z: usize| v.data()[x + 16 * y + 4096 * z];
    assert_eq!(at(0, 240, 0), BlockType::Solid);
    assert_eq!(at(0, 241, 0), BlockType::Air);
    assert_eq!(at(3, 100, 5), BlockType::Solid);
    assert_eq!(at(3, 101, 5), BlockType::Air);
    assert_eq!(at(3, 0, 5), BlockType::Solid);
    assert_eq!(at(15, 255, 15), BlockType::Air);
}

#[test]
fn negative_height_gives_empty_column() {
    let g = ChunkGenerator::new();
    let h = vec![-1; COLUMN_COUNT];
    let v = g.generate_chunk(1, 1, &h);
    assert!(v.data().iter().all(|c| *c == BlockType::Air));
    assert_eq!(v.pos(), (1, 1));
}

#[test]
fn duplicate_is_an_equal_copy() {
    let g = ChunkGenerator::new();
    let v = g.generate_chunk(9, 9, &heights());
    let d: VoxelData = v.duplicate();
    assert_eq!(d.pos(), v.pos());
    assert_eq!(d.data(), v.data());
}

#[test]
fn atlas_has_tiles_for_solid_only() {
    let atlas = TextureAtlas::new();
    assert!(atlas.get(BlockType::Air).is_none());
    let dirt = atlas.get(BlockType::Solid).unwrap();
    assert_eq!(dirt.top, [2, 0]);
    assert_eq!(dirt.bottom, [0, 0]);
    assert_eq!(dirt.front, [1, 0]);
    assert_eq!(dirt.back, [1, 0]);
    assert_eq!(dirt.left, [1, 0]);
    assert_eq!(dirt.right, [1, 0]);
}
