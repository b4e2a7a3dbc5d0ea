use voxel_engine::chunk_mesher::{generate_mesh, ChunkMesher, ChunkVertex, CpuMesh, MeshJob};
use voxel_engine::voxel_data::{BlockType, VoxelData, CHUNK_VOLUME};

fn index(x: usize, y: usize, z: usize) -> usize {
    x + 16 * y + 4096 * z
}

fn grid(solid: &[(usize, usize, usize)], pos: (i32, i32)) -> VoxelData {
    let mut cells = vec![BlockType::Air; CHUNK_VOLUME];
    for &(x, y, z) in solid {
        cells[index(x, y, z)] = BlockType::Solid;
    }
    VoxelData::new(cells, pos)
}

fn alone(local: VoxelData) -> MeshJob {
    MeshJob { local, pos_x: None, neg_x: None, pos_z: None, neg_z: None }
}

fn mesh(job: &MeshJob) -> CpuMesh<ChunkVertex> {
    ChunkMesher::new().mesh_chunk(job)
}

#[test]
fn lone_block_has_six_faces() {
    let m = mesh(&alone(grid(&[(5, 100, 7)], (0, 0))));
    assert_eq!(m.vertices().len(), 24);
    assert_eq!(m.indices().len(), 36);
}

#[test]
fn lone_block_on_chunk_corner_has_six_faces() {
    let m = mesh(&alone(grid(&[(0, 0, 0)], (3, -4))));
    assert_eq!(m.vertices().len(), 24);
    assert_eq!(m.indices().len(), 36);
    let m = mesh(&alone(grid(&[(15, 255, 15)], (-1, 2))));
    assert_eq!(m.vertices().len(), 24);
    assert_eq!(m.indices().len(), 36);
}

#[test]
fn lone_block_next_to_air_neighbors_has_six_faces() {
    let job = MeshJob {
        local: grid(&[(15, 10, 0)], (0, 0)),
        pos_x: Some(grid(&[], (1, 0))),
        neg_x: Some(grid(&[], (-1, 0))),
        pos_z: Some(grid(&[], (0, 1))),
        neg_z: Some(grid(&[], (0, -1))),
    };
    let m = mesh(&job);
    assert_eq!(m.vertices().len(), 24);
    assert_eq!(m.indices().len(), 36);
}

#[test]
fn vertical_pair_hides_shared_face() {
    let m = mesh(&alone(grid(&[(4, 20, 4), (4, 21, 4)], (0, 0))));
    assert_eq!(m.vertices().len(), 40);
    assert_eq!(m.indices().len(), 60);
}

#[test]
fn lateral_pairs_hide_shared_face() {
    let m = mesh(&alone(grid(&[(4, 20, 4), (5, 20, 4)], (0, 0))));
    assert_eq!(m.vertices().len(), 40);
    assert_eq!(m.indices().len(), 60);
    let m = mesh(&alone(grid(&[(4, 20, 4), (4, 20, 5)], (0, 0))));
    assert_eq!(m.vertices().len(), 40);
    assert_eq!(m.indices().len(), 60);
}

#[test]
fn pair_emits_no_face_between_cells() {
    // Cell (4, 20, 4) and the cell above it: no top face at y + 1 = 21 from the
    // lower cell, no bottom face at y = 21 from the upper one.
    let m = mesh(&alone(grid(&[(4, 20, 4), (4, 21, 4)], (0, 0))));
    let verts = m.vertices();
    for quad in verts.chunks(4) {
        let n = quad[0].normal;
        let y = quad[0].pos.1;
        assert!(!(n == (0, 1, 0) && y == 21));
        assert!(!(n == (0, -1, 0) && y == 21));
    }
}

#[test]
fn empty_chunk_has_empty_mesh() {
    let m = mesh(&alone(grid(&[], (7, 7))));
    assert_eq!(m.vertices().len(), 0);
    assert_eq!(m.indices().len(), 0);
    assert!(!m.is_drawable());
}

#[test]
fn non_empty_mesh_is_drawable() {
    let m = mesh(&alone(grid(&[(1, 1, 1)], (0, 0))));
    assert!(m.is_drawable());
}

#[test]
fn quad_positions_are_in_world_space() {
    // One cell at local (0, 0, 0) of chunk (1, 2): world corner (16, 0, 32).
    let m = mesh(&alone(grid(&[(0, 0, 0)], (1, 2))));
    let v = m.vertices();
    // Front face first: corners (x, y+1, z+1), (x, y, z+1), (x+1, y+1, z+1), (x+1, y, z+1).
    assert_eq!(v[0], ChunkVertex { pos: (16, 1, 33), normal: (0, 0, 1) });
    assert_eq!(v[1], ChunkVertex { pos: (16, 0, 33), normal: (0, 0, 1) });
    assert_eq!(v[2], ChunkVertex { pos: (17, 1, 33), normal: (0, 0, 1) });
    assert_eq!(v[3], ChunkVertex { pos: (17, 0, 33), normal: (0, 0, 1) });
    // Then right, back, left, top, bottom.
    assert_eq!(v[4].normal, (1, 0, 0));
    assert_eq!(v[8].normal, (0, 0, -1));
    assert_eq!(v[12].normal, (-1, 0, 0));
    assert_eq!(v[16].normal, (0, 1, 0));
    assert_eq!(v[20].normal, (0, -1, 0));
    assert_eq!(v[23], ChunkVertex { pos: (17, 0, 32), normal: (0, -1, 0) });
}

#[test]
fn indices_wind_two_triangles_per_face() {
    let m = mesh(&alone(grid(&[(0, 0, 0)], (0, 0))));
    let i = m.indices();
    assert_eq!(&i[0..6], &[0, 1, 2, 1, 3, 2]);
    assert_eq!(&i[6..12], &[4, 5, 6, 5, 7, 6]);
    assert_eq!(&i[30..36], &[20, 21, 22, 21, 23, 22]);
}

#[test]
fn known_solid_neighbor_hides_boundary_face() {
    let job = MeshJob {
        local: grid(&[(15, 10, 3)], (0, 0)),
        pos_x: Some(grid(&[(0, 10, 3)], (1, 0))),
        neg_x: None,
        pos_z: None,
        neg_z: None,
    };
    let m = mesh(&job);
    assert_eq!(m.vertices().len(), 20);
    assert!(m.vertices().iter().all(|v| v.normal != (1, 0, 0)));
}

#[test]
fn unknown_neighbor_shows_boundary_face() {
    let m = mesh(&alone(grid(&[(15, 10, 3)], (0, 0))));
    assert!(m.vertices().iter().any(|v| v.normal == (1, 0, 0)));
}

#[test]
fn generate_mesh_reports_position_and_priority() {
    let job = MeshJob {
        local: grid(&[(2, 2, 2)], (4, -5)),
        pos_x: Some(grid(&[], (5, -5))),
        neg_x: None,
        pos_z: Some(grid(&[], (4, -4))),
        neg_z: None,
    };
    assert_eq!(job.priority(), 2);
    let (pos, m, priority) = generate_mesh(&job);
    assert_eq!(pos, (4, -5));
    assert_eq!(priority, 2);
    assert_eq!(m.vertices().len(), 24);
}
