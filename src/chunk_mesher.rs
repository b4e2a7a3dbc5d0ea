//! Face-culled meshing of one chunk column, with optional lateral neighbors.
use vstd::prelude::*;
use crate::voxel_data::{
    cell_index, cell_x, cell_y, cell_z, in_chunk, lemma_cell_coords, BlockType, VoxelData, VoxelGrid,
    CHUNK_HEIGHT, CHUNK_VOLUME, CHUNK_WIDTH,
};

verus! {

/// The six faces of a cell, in the order in which a cell emits them.
#[derive(Clone, Copy, Debug, PartialEq, Eq, Structural)]
pub enum Face {
    /// Facing +z.
    Front,
    /// Facing +x.
    Right,
    /// Facing -z.
    Back,
    /// Facing -x.
    Left,
    /// Facing +y.
    Top,
    /// Facing -y.
    Bottom,
}

/// A mesh vertex: a world-space corner position and the outward normal of its face.
#[derive(Clone, Copy, Debug, PartialEq, Eq)]
pub struct ChunkVertex {
    pub pos: (i64, i64, i64),
    pub normal: (i8, i8, i8),
}

/// A CPU-side triangle mesh: vertices and triangle indices into them.
pub struct CpuMesh<T> {
    vertices: Vec<T>,
    indices: Vec<u32>,
}

impl<T> View for CpuMesh<T> {
    type V = (Seq<T>, Seq<u32>);

    closed spec fn view(&self) -> (Seq<T>, Seq<u32>) {
        (self.vertices@, self.indices@)
    }
}

impl<T> CpuMesh<T> {
    pub fn new(vertices: Vec<T>, indices: Vec<u32>) -> (r: CpuMesh<T>)
        ensures
            r@ == (vertices@, indices@),
    {
        CpuMesh { vertices, indices }
    }

    pub fn vertices(&self) -> (r: &Vec<T>)
        ensures
            r@ == self@.0,
    {
        &self.vertices
    }

    pub fn indices(&self) -> (r: &Vec<u32>)
        ensures
            r@ == self@.1,
    {
        &self.indices
    }

    /// Whether the mesh may be turned into GPU buffers: an empty vertex or
    /// index buffer is invalid, so an empty mesh stands for an invisible chunk.
    pub fn is_drawable(&self) -> (r: bool)
        ensures
            r == (self@.0.len() > 0 && self@.1.len() > 0),
    {
        self.vertices.len() > 0 && self.indices.len() > 0
    }
}

/// What meshing reads: the chunk's own grid and, for each lateral direction,
/// the cells of the adjacent chunk if they are known.
pub struct MeshInput {
    pub local: VoxelGrid,
    pub pos_x: Option<Seq<BlockType>>,
    pub neg_x: Option<Seq<BlockType>>,
    pub pos_z: Option<Seq<BlockType>>,
    pub neg_z: Option<Seq<BlockType>>,
}

/// A meshing job: a chunk's grid and the grids of its four lateral neighbors
/// that were resident when the job was made.
pub struct MeshJob {
    pub local: VoxelData,
    pub pos_x: Option<VoxelData>,
    pub neg_x: Option<VoxelData>,
    pub pos_z: Option<VoxelData>,
    pub neg_z: Option<VoxelData>,
}

pub open spec fn neighbor_cells(n: Option<VoxelData>) -> Option<Seq<BlockType>> {
    match n {
        Some(v) => Some(v@.cells),
        None => None,
    }
}

pub open spec fn count_known(n: Option<VoxelData>) -> int {
    if n is Some {
        1
    } else {
        0
    }
}

impl View for MeshJob {
    type V = MeshInput;

    open spec fn view(&self) -> MeshInput {
        MeshInput {
            local: self.local@,
            pos_x: neighbor_cells(self.pos_x),
            neg_x: neighbor_cells(self.neg_x),
            pos_z: neighbor_cells(self.pos_z),
            neg_z: neighbor_cells(self.neg_z),
        }
    }
}

impl MeshJob {
    /// How many of the four lateral neighbors are known (0 to 4).
    pub open spec fn spec_priority(&self) -> int {
        count_known(self.pos_x) + count_known(self.neg_x) + count_known(self.pos_z) + count_known(
            self.neg_z,
        )
    }

    pub fn priority(&self) -> (r: u8)
        ensures
            r == self.spec_priority(),
            r <= 4,
    {
        let mut r: u8 = 0;
        if self.pos_x.is_some() {
            r += 1;
        }
        if self.neg_x.is_some() {
            r += 1;
        }
        if self.pos_z.is_some() {
            r += 1;
        }
        if self.neg_z.is_some() {
            r += 1;
        }
        r
    }
}

pub open spec fn is_air(cells: Seq<BlockType>, x: int, y: int, z: int) -> bool {
    cells[cell_index(x, y, z)] == BlockType::Air
}

/// Whether a face on the chunk's boundary is exposed: the neighbor's facing
/// cell is Air, and an unknown neighbor counts as Air.
pub open spec fn exposed_across(neighbor: Option<Seq<BlockType>>, x: int, y: int, z: int) -> bool {
    match neighbor {
        Some(cells) => is_air(cells, x, y, z),
        None => true,
    }
}

/// Whether face `f` of cell (x, y, z) is exposed, i.e. must be drawn.
pub open spec fn face_exposed(m: MeshInput, x: int, y: int, z: int, f: Face) -> bool {
    let c = m.local.cells;
    match f {
        Face::Front => if z < 15 {
            is_air(c, x, y, z + 1)
        } else {
            exposed_across(m.pos_z, x, y, 0)
        },
        Face::Right => if x < 15 {
            is_air(c, x + 1, y, z)
        } else {
            exposed_across(m.pos_x, 0, y, z)
        },
        Face::Back => if z > 0 {
            is_air(c, x, y, z - 1)
        } else {
            exposed_across(m.neg_z, x, y, 15)
        },
        Face::Left => if x > 0 {
            is_air(c, x - 1, y, z)
        } else {
            exposed_across(m.neg_x, 15, y, z)
        },
        Face::Top => y >= 255 || is_air(c, x, y + 1, z),
        Face::Bottom => y <= 0 || is_air(c, x, y - 1, z),
    }
}

pub open spec fn face_if_exposed(m: MeshInput, x: int, y: int, z: int, f: Face) -> Seq<Face> {
    if face_exposed(m, x, y, z, f) {
        seq![f]
    } else {
        seq![]
    }
}

/// The faces that the cell at flat position `i` emits, in emission order:
/// none for Air, the exposed ones for Solid.
pub open spec fn cell_faces(m: MeshInput, i: int) -> Seq<Face> {
    let x = cell_x(i);
    let y = cell_y(i);
    let z = cell_z(i);
    if m.local.cells[i] == BlockType::Air {
        seq![]
    } else {
        face_if_exposed(m, x, y, z, Face::Front) + face_if_exposed(m, x, y, z, Face::Right)
            + face_if_exposed(m, x, y, z, Face::Back) + face_if_exposed(m, x, y, z, Face::Left)
            + face_if_exposed(m, x, y, z, Face::Top) + face_if_exposed(m, x, y, z, Face::Bottom)
    }
}

/// Faces `fs` of the cell at flat position `i`, each tagged with `i`.
pub open spec fn tag_faces(i: int, fs: Seq<Face>) -> Seq<(int, Face)> {
    fs.map_values(|f: Face| (i, f))
}

/// The faces emitted by the cells at flat positions `0..n`, each tagged with its cell.
pub open spec fn faces_upto(m: MeshInput, n: int) -> Seq<(int, Face)>
    decreases n,
{
    if n <= 0 {
        seq![]
    } else {
        faces_upto(m, n - 1) + tag_faces(n - 1, cell_faces(m, n - 1))
    }
}

/// All faces of the chunk's mesh, in emission order.
pub open spec fn mesh_faces(m: MeshInput) -> Seq<(int, Face)> {
    faces_upto(m, CHUNK_VOLUME as int)
}

pub open spec fn corner(x: int, y: int, z: int, normal: (i8, i8, i8)) -> ChunkVertex {
    ChunkVertex { pos: (x as i64, y as i64, z as i64), normal }
}

/// The four corners of face `f` of the unit cell whose lowest corner is (x, y, z).
pub open spec fn face_quad(x: int, y: int, z: int, f: Face) -> Seq<ChunkVertex> {
    match f {
        Face::Front => seq![
            corner(x, y + 1, z + 1, (0i8, 0i8, 1i8)),
            corner(x, y, z + 1, (0i8, 0i8, 1i8)),
            corner(x + 1, y + 1, z + 1, (0i8, 0i8, 1i8)),
            corner(x + 1, y, z + 1, (0i8, 0i8, 1i8)),
        ],
        Face::Right => seq![
            corner(x + 1, y + 1, z + 1, (1i8, 0i8, 0i8)),
            corner(x + 1, y, z + 1, (1i8, 0i8, 0i8)),
            corner(x + 1, y + 1, z, (1i8, 0i8, 0i8)),
            corner(x + 1, y, z, (1i8, 0i8, 0i8)),
        ],
        Face::Back => seq![
            corner(x + 1, y + 1, z, (0i8, 0i8, -1i8)),
            corner(x + 1, y, z, (0i8, 0i8, -1i8)),
            corner(x, y + 1, z, (0i8, 0i8, -1i8)),
            corner(x, y, z, (0i8, 0i8, -1i8)),
        ],
        Face::Left => seq![
            corner(x, y + 1, z, (-1i8, 0i8, 0i8)),
            corner(x, y, z, (-1i8, 0i8, 0i8)),
            corner(x, y + 1, z + 1, (-1i8, 0i8, 0i8)),
            corner(x, y, z + 1, (-1i8, 0i8, 0i8)),
        ],
        Face::Top => seq![
            corner(x, y + 1, z, (0i8, 1i8, 0i8)),
            corner(x, y + 1, z + 1, (0i8, 1i8, 0i8)),
            corner(x + 1, y + 1, z, (0i8, 1i8, 0i8)),
            corner(x + 1, y + 1, z + 1, (0i8, 1i8, 0i8)),
        ],
        Face::Bottom => seq![
            corner(x, y, z + 1, (0i8, -1i8, 0i8)),
            corner(x, y, z, (0i8, -1i8, 0i8)),
            corner(x + 1, y, z + 1, (0i8, -1i8, 0i8)),
            corner(x + 1, y, z, (0i8, -1i8, 0i8)),
        ],
    }
}

/// The quad of an emitted face of the chunk at `pos`, in world space.
pub open spec fn placed_quad(pos: (i32, i32), face: (int, Face)) -> Seq<ChunkVertex> {
    face_quad(
        pos.0 * 16 + cell_x(face.0),
        cell_y(face.0),
        pos.1 * 16 + cell_z(face.0),
        face.1,
    )
}

/// The vertex list of a mesh made of `faces`: four corners per face.
pub open spec fn mesh_vertices(pos: (i32, i32), faces: Seq<(int, Face)>) -> Seq<ChunkVertex>
    decreases faces.len(),
{
    if faces.len() == 0 {
        seq![]
    } else {
        mesh_vertices(pos, faces.drop_last()) + placed_quad(pos, faces.last())
    }
}

/// The two triangles of a quad whose first corner is vertex `start`.
pub open spec fn face_indices(start: int) -> Seq<u32> {
    seq![
        start as u32,
        (start + 1) as u32,
        (start + 2) as u32,
        (start + 1) as u32,
        (start + 3) as u32,
        (start + 2) as u32,
    ]
}

/// The index list of a mesh of `n` faces: six per face, relative to its four corners.
pub open spec fn mesh_indices(n: nat) -> Seq<u32>
    decreases n,
{
    if n == 0 {
        seq![]
    } else {
        mesh_indices((n - 1) as nat) + face_indices(4 * (n - 1))
    }
}

pub proof fn lemma_mesh_lengths(pos: (i32, i32), faces: Seq<(int, Face)>)
    ensures
        mesh_vertices(pos, faces).len() == 4 * faces.len(),
        mesh_indices(faces.len()).len() == 6 * faces.len(),
    decreases faces.len(),
{
    if faces.len() > 0 {
        lemma_mesh_lengths(pos, faces.drop_last());
    }
}

fn gen_face_indices(starting_index: u32) -> (r: [u32; 6])
    requires
        starting_index + 3 <= u32::MAX,
    ensures
        r@ == face_indices(starting_index as int),
{
    let r = [
        starting_index,
        starting_index + 1,
        starting_index + 2,
        starting_index + 1,
        starting_index + 3,
        starting_index + 2,
    ];
    assert(r@ =~= face_indices(starting_index as int));
    r
}

fn vertex(x: i64, y: i64, z: i64, normal: (i8, i8, i8)) -> (r: ChunkVertex)
    ensures
        r == corner(x as int, y as int, z as int, normal),
{
    ChunkVertex { pos: (x, y, z), normal }
}

/// Coordinates handed to the quad builders stay far from the limits of `i64`.
pub open spec fn quad_origin_ok(x: i64, y: i64, z: i64) -> bool {
    -0x1000_0000_0000 <= x <= 0x1000_0000_0000 && -0x1000_0000_0000 <= y <= 0x1000_0000_0000
        && -0x1000_0000_0000 <= z <= 0x1000_0000_0000
}

fn gen_front_face(x: i64, y: i64, z: i64) -> (r: [ChunkVertex; 4])
    requires
        quad_origin_ok(x, y, z),
    ensures
        r@ == face_quad(x as int, y as int, z as int, Face::Front),
{
    let n = (0i8, 0i8, 1i8);
    let r = [
        vertex(x, y + 1, z + 1, n),
        vertex(x, y, z + 1, n),
        vertex(x + 1, y + 1, z + 1, n),
        vertex(x + 1, y, z + 1, n),
    ];
    assert(r@ =~= face_quad(x as int, y as int, z as int, Face::Front));
    r
}

fn gen_right_face(x: i64, y: i64, z: i64) -> (r: [ChunkVertex; 4])
    requires
        quad_origin_ok(x, y, z),
    ensures
        r@ == face_quad(x as int, y as int, z as int, Face::Right),
{
    let n = (1i8, 0i8, 0i8);
    let r = [
        vertex(x + 1, y + 1, z + 1, n),
        vertex(x + 1, y, z + 1, n),
        vertex(x + 1, y + 1, z, n),
        vertex(x + 1, y, z, n),
    ];
    assert(r@ =~= face_quad(x as int, y as int, z as int, Face::Right));
    r
}

fn gen_back_face(x: i64, y: i64, z: i64) -> (r: [ChunkVertex; 4])
    requires
        quad_origin_ok(x, y, z),
    ensures
        r@ == face_quad(x as int, y as int, z as int, Face::Back),
{
    let n = (0i8, 0i8, -1i8);
    let r = [
        vertex(x + 1, y + 1, z, n),
        vertex(x + 1, y, z, n),
        vertex(x, y + 1, z, n),
        vertex(x, y, z, n),
    ];
    assert(r@ =~= face_quad(x as int, y as int, z as int, Face::Back));
    r
}

fn gen_left_face(x: i64, y: i64, z: i64) -> (r: [ChunkVertex; 4])
    requires
        quad_origin_ok(x, y, z),
    ensures
        r@ == face_quad(x as int, y as int, z as int, Face::Left),
{
    let n = (-1i8, 0i8, 0i8);
    let r = [
        vertex(x, y + 1, z, n),
        vertex(x, y, z, n),
        vertex(x, y + 1, z + 1, n),
        vertex(x, y, z + 1, n),
    ];
    assert(r@ =~= face_quad(x as int, y as int, z as int, Face::Left));
    r
}

fn gen_top_face(x: i64, y: i64, z: i64) -> (r: [ChunkVertex; 4])
    requires
        quad_origin_ok(x, y, z),
    ensures
        r@ == face_quad(x as int, y as int, z as int, Face::Top),
{
    let n = (0i8, 1i8, 0i8);
    let r = [
        vertex(x, y + 1, z, n),
        vertex(x, y + 1, z + 1, n),
        vertex(x + 1, y + 1, z, n),
        vertex(x + 1, y + 1, z + 1, n),
    ];
    assert(r@ =~= face_quad(x as int, y as int, z as int, Face::Top));
    r
}

fn gen_bottom_face(x: i64, y: i64, z: i64) -> (r: [ChunkVertex; 4])
    requires
        quad_origin_ok(x, y, z),
    ensures
        r@ == face_quad(x as int, y as int, z as int, Face::Bottom),
{
    let n = (0i8, -1i8, 0i8);
    let r = [
        vertex(x, y, z + 1, n),
        vertex(x, y, z, n),
        vertex(x + 1, y, z + 1, n),
        vertex(x + 1, y, z, n),
    ];
    assert(r@ =~= face_quad(x as int, y as int, z as int, Face::Bottom));
    r
}


/// Appending one face to a mesh appends its quad and its two triangles.
proof fn lemma_push_face(pos: (i32, i32), faces: Seq<(int, Face)>, face: (int, Face))
    ensures
        mesh_vertices(pos, faces.push(face)) == mesh_vertices(pos, faces) + placed_quad(pos, face),
        mesh_indices(faces.push(face).len()) == mesh_indices(faces.len()) + face_indices(
            4 * faces.len() as int,
        ),
{
    assert(faces.push(face).drop_last() =~= faces);
}

fn emit_face(
    vertices: &mut Vec<ChunkVertex>,
    indices: &mut Vec<u32>,
    quad: [ChunkVertex; 4],
    Ghost(pos): Ghost<(i32, i32)>,
    Ghost(faces): Ghost<Seq<(int, Face)>>,
    Ghost(face): Ghost<(int, Face)>,
)
    requires
        old(vertices)@ == mesh_vertices(pos, faces),
        old(indices)@ == mesh_indices(faces.len()),
        faces.len() < 6 * CHUNK_VOLUME,
        quad@ == placed_quad(pos, face),
    ensures
        final(vertices)@ == mesh_vertices(pos, faces.push(face)),
        final(indices)@ == mesh_indices(faces.push(face).len()),
{
    proof {
        lemma_mesh_lengths(pos, faces);
        lemma_push_face(pos, faces, face);
    }
    let start = vertices.len() as u32;
    let tri = gen_face_indices(start);
    vertices.push(quad[0]);
    vertices.push(quad[1]);
    vertices.push(quad[2]);
    vertices.push(quad[3]);
    let mut k: usize = 0;
    while k < 6
        invariant
            k <= 6,
            tri@ == face_indices(4 * faces.len() as int),
            indices@ == mesh_indices(faces.len()) + tri@.subrange(0, k as int),
        decreases 6 - k,
    {
        indices.push(tri[k]);
        k += 1;
    }
    assert(vertices@ =~= mesh_vertices(pos, faces) + placed_quad(pos, face));
    assert(indices@ =~= mesh_indices(faces.len()) + face_indices(4 * faces.len() as int));
}

/// Whether the cell at flat position `i` of an optional neighbor grid is Air;
/// an unknown neighbor counts as Air.
fn air_across(neighbor: &Option<VoxelData>, i: usize) -> (r: bool)
    requires
        i < CHUNK_VOLUME,
    ensures
        r == match neighbor_cells(*neighbor) {
            Some(cells) => cells[i as int] == BlockType::Air,
            None => true,
        },
{
    match neighbor {
        Some(n) => n.data()[i] == BlockType::Air,
        None => true,
    }
}


/// Which faces of the Solid cell (x, y, z) are exposed, in emission order.
fn exposure(job: &MeshJob, cells: &Vec<BlockType>, x: usize, y: usize, z: usize) -> (r: (
    bool,
    bool,
    bool,
    bool,
    bool,
    bool,
))
    requires
        in_chunk(x as int, y as int, z as int),
        cells@ == job@.local.cells,
        cells@.len() == CHUNK_VOLUME,
    ensures
        r.0 == face_exposed(job@, x as int, y as int, z as int, Face::Front),
        r.1 == face_exposed(job@, x as int, y as int, z as int, Face::Right),
        r.2 == face_exposed(job@, x as int, y as int, z as int, Face::Back),
        r.3 == face_exposed(job@, x as int, y as int, z as int, Face::Left),
        r.4 == face_exposed(job@, x as int, y as int, z as int, Face::Top),
        r.5 == face_exposed(job@, x as int, y as int, z as int, Face::Bottom),
{
    let i = x + 16 * y + 4096 * z;
    let front = if z < 15 {
        cells[i + 4096] == BlockType::Air
    } else {
        air_across(&job.pos_z, x + 16 * y)
    };
    let right = if x < 15 {
        cells[i + 1] == BlockType::Air
    } else {
        air_across(&job.pos_x, 16 * y + 4096 * z)
    };
    let back = if z > 0 {
        cells[i - 4096] == BlockType::Air
    } else {
        air_across(&job.neg_z, x + 16 * y + 4096 * 15)
    };
    let left = if x > 0 {
        cells[i - 1] == BlockType::Air
    } else {
        air_across(&job.neg_x, 15 + 16 * y + 4096 * z)
    };
    let top = if y < 255 {
        cells[i + 16] == BlockType::Air
    } else {
        true
    };
    let bottom = if y > 0 {
        cells[i - 16] == BlockType::Air
    } else {
        true
    };
    (front, right, back, left, top, bottom)
}

fn face_vertices(x: i64, y: i64, z: i64, face: Face) -> (r: [ChunkVertex; 4])
    requires
        quad_origin_ok(x, y, z),
    ensures
        r@ == face_quad(x as int, y as int, z as int, face),
{
    match face {
        Face::Front => gen_front_face(x, y, z),
        Face::Right => gen_right_face(x, y, z),
        Face::Back => gen_back_face(x, y, z),
        Face::Left => gen_left_face(x, y, z),
        Face::Top => gen_top_face(x, y, z),
        Face::Bottom => gen_bottom_face(x, y, z),
    }
}

/// Appends `face` of the cell at flat position `lin` if it is exposed.
fn emit_if_exposed(
    job: &MeshJob,
    exposed: bool,
    face: Face,
    v_x: i64,
    v_y: i64,
    v_z: i64,
    vertices: &mut Vec<ChunkVertex>,
    indices: &mut Vec<u32>,
    Ghost(faces): Ghost<Seq<(int, Face)>>,
    Ghost(lin): Ghost<int>,
    Ghost(emitted): Ghost<Seq<Face>>,
)
    requires
        0 <= lin < CHUNK_VOLUME,
        in_chunk(cell_x(lin), cell_y(lin), cell_z(lin)),
        exposed == face_exposed(job@, cell_x(lin), cell_y(lin), cell_z(lin), face),
        v_x == job@.local.pos.0 * 16 + cell_x(lin),
        v_y == cell_y(lin),
        v_z == job@.local.pos.1 * 16 + cell_z(lin),
        faces.len() <= 6 * lin,
        emitted.len() < 6,
        old(vertices)@ == mesh_vertices(job@.local.pos, faces + tag_faces(lin, emitted)),
        old(indices)@ == mesh_indices((faces + tag_faces(lin, emitted)).len()),
    ensures
        final(vertices)@ == mesh_vertices(
            job@.local.pos,
            faces + tag_faces(lin, emitted + face_if_exposed(job@, cell_x(lin), cell_y(lin), cell_z(lin), face)),
        ),
        final(indices)@ == mesh_indices(
            (faces + tag_faces(lin, emitted + face_if_exposed(job@, cell_x(lin), cell_y(lin), cell_z(lin), face))).len(),
        ),
{
    let ghost pos = job@.local.pos;
    let ghost next = emitted + face_if_exposed(job@, cell_x(lin), cell_y(lin), cell_z(lin), face);
    if exposed {
        assert(faces + tag_faces(lin, next) =~= (faces + tag_faces(lin, emitted)).push((lin, face)));
        let quad = face_vertices(v_x, v_y, v_z, face);
        emit_face(vertices, indices, quad, Ghost(pos), Ghost(faces + tag_faces(lin, emitted)), Ghost((lin, face)));
    } else {
        assert(next =~= emitted);
    }
}

/// Appends the faces of cell (x, y, z) to the mesh under construction.
fn mesh_cell(
    job: &MeshJob,
    cells: &Vec<BlockType>,
    x: usize,
    y: usize,
    z: usize,
    vertices: &mut Vec<ChunkVertex>,
    indices: &mut Vec<u32>,
    Ghost(faces): Ghost<Seq<(int, Face)>>,
)
    requires
        in_chunk(x as int, y as int, z as int),
        cells@ == job@.local.cells,
        cells@.len() == CHUNK_VOLUME,
        old(vertices)@ == mesh_vertices(job@.local.pos, faces),
        old(indices)@ == mesh_indices(faces.len()),
        faces.len() <= 6 * cell_index(x as int, y as int, z as int),
    ensures
        final(vertices)@ == mesh_vertices(
            job@.local.pos,
            faces + tag_faces(cell_index(x as int, y as int, z as int), cell_faces(job@, cell_index(x as int, y as int, z as int))),
        ),
        final(indices)@ == mesh_indices(
            (faces + tag_faces(cell_index(x as int, y as int, z as int), cell_faces(job@, cell_index(x as int, y as int, z as int)))).len(),
        ),
{
    let ghost m = job@;
    let ghost lin = cell_index(x as int, y as int, z as int);
    proof {
        lemma_cell_coords(x as int, y as int, z as int);
        assert(faces + tag_faces(lin, seq![]) =~= faces);
    }
    let i = x + 16 * y + 4096 * z;
    if cells[i] == BlockType::Solid {
        let (front, right, back, left, top, bottom) = exposure(job, cells, x, y, z);
        let (c_x, c_z) = job.local.pos();
        let v_x = c_x as i64 * 16 + x as i64;
        let v_y = y as i64;
        let v_z = c_z as i64 * 16 + z as i64;
        let ghost e0: Seq<Face> = seq![];
        let ghost e1 = e0 + face_if_exposed(m, x as int, y as int, z as int, Face::Front);
        let ghost e2 = e1 + face_if_exposed(m, x as int, y as int, z as int, Face::Right);
        let ghost e3 = e2 + face_if_exposed(m, x as int, y as int, z as int, Face::Back);
        let ghost e4 = e3 + face_if_exposed(m, x as int, y as int, z as int, Face::Left);
        let ghost e5 = e4 + face_if_exposed(m, x as int, y as int, z as int, Face::Top);
        let ghost e6 = e5 + face_if_exposed(m, x as int, y as int, z as int, Face::Bottom);
        emit_if_exposed(job, front, Face::Front, v_x, v_y, v_z, vertices, indices, Ghost(faces), Ghost(lin), Ghost(e0));
        emit_if_exposed(job, right, Face::Right, v_x, v_y, v_z, vertices, indices, Ghost(faces), Ghost(lin), Ghost(e1));
        emit_if_exposed(job, back, Face::Back, v_x, v_y, v_z, vertices, indices, Ghost(faces), Ghost(lin), Ghost(e2));
        emit_if_exposed(job, left, Face::Left, v_x, v_y, v_z, vertices, indices, Ghost(faces), Ghost(lin), Ghost(e3));
        emit_if_exposed(job, top, Face::Top, v_x, v_y, v_z, vertices, indices, Ghost(faces), Ghost(lin), Ghost(e4));
        emit_if_exposed(job, bottom, Face::Bottom, v_x, v_y, v_z, vertices, indices, Ghost(faces), Ghost(lin), Ghost(e5));
        proof {
            assert(e6 =~= cell_faces(m, lin));
        }
    } else {
        proof {
            assert(cell_faces(m, lin) =~= seq![]);
        }
    }
}

/// Builds the face-culled meshes of chunks.
pub struct ChunkMesher {}

impl ChunkMesher {
    pub fn new() -> (r: ChunkMesher) {
        ChunkMesher {}
    }

    /// The mesh of `job.local`: for every Solid cell, in flat order, each
    /// exposed face (see `face_exposed`) as a quad of four world-space corners
    /// and two triangles.
    pub fn mesh_chunk(&self, job: &MeshJob) -> (r: CpuMesh<ChunkVertex>)
        ensures
            r@.0 == mesh_vertices(job.local@.pos, mesh_faces(job@)),
            r@.1 == mesh_indices(mesh_faces(job@).len()),
    {
        let cells = job.local.data();
        let (c_x, c_z) = job.local.pos();
        let ghost m = job@;
        let ghost pos = job.local@.pos;
        let mut vertices: Vec<ChunkVertex> = Vec::new();
        let mut indices: Vec<u32> = Vec::new();
        let ghost mut faces: Seq<(int, Face)> = seq![];
        let mut z: usize = 0;
        while z < CHUNK_WIDTH
            invariant
                z <= 16,
                m == job@,
                pos == (c_x, c_z),
                pos == job.local@.pos,
                cells@ == m.local.cells,
                cells@.len() == CHUNK_VOLUME,
                faces == faces_upto(m, cell_index(0, 0, z as int)),
                faces.len() <= 6 * cell_index(0, 0, z as int),
                vertices@ == mesh_vertices(pos, faces),
                indices@ == mesh_indices(faces.len()),
            decreases 16 - z,
        {
            let mut y: usize = 0;
            while y < CHUNK_HEIGHT
                invariant
                    z < 16,
                    y <= 256,
                    m == job@,
                    pos == (c_x, c_z),
                    pos == job.local@.pos,
                    cells@ == m.local.cells,
                    cells@.len() == CHUNK_VOLUME,
                    faces == faces_upto(m, cell_index(0, y as int, z as int)),
                    faces.len() <= 6 * cell_index(0, y as int, z as int),
                    vertices@ == mesh_vertices(pos, faces),
                    indices@ == mesh_indices(faces.len()),
                decreases 256 - y,
            {
                let mut x: usize = 0;
                while x < CHUNK_WIDTH
                    invariant
                        z < 16,
                        y < 256,
                        x <= 16,
                        m == job@,
                        pos == (c_x, c_z),
                        pos == job.local@.pos,
                        cells@ == m.local.cells,
                        cells@.len() == CHUNK_VOLUME,
                        faces == faces_upto(m, cell_index(x as int, y as int, z as int)),
                        faces.len() <= 6 * cell_index(x as int, y as int, z as int),
                        vertices@ == mesh_vertices(pos, faces),
                        indices@ == mesh_indices(faces.len()),
                    decreases 16 - x,
                {
                    proof {
                        lemma_cell_coords(x as int, y as int, z as int);
                    }
                    let ghost lin = cell_index(x as int, y as int, z as int);
                    mesh_cell(job, cells, x, y, z, &mut vertices, &mut indices, Ghost(faces));
                    proof {
                        faces = faces + tag_faces(lin, cell_faces(m, lin));
                        assert(faces == faces_upto(m, lin + 1));
                    }
                    x += 1;
                }
                y += 1;
            }
            z += 1;
        }
        CpuMesh::new(vertices, indices)
    }
}

/// Meshes a job's chunk and reports it with the chunk's coordinate and the
/// job's neighbor-completeness priority.
pub fn generate_mesh(job: &MeshJob) -> (r: ((i32, i32), CpuMesh<ChunkVertex>, u8))
    ensures
        r.0 == job.local@.pos,
        r.1@.0 == mesh_vertices(job.local@.pos, mesh_faces(job@)),
        r.1@.1 == mesh_indices(mesh_faces(job@).len()),
        r.2 == job.spec_priority(),
{
    let mesher = ChunkMesher::new();
    let mesh = mesher.mesh_chunk(job);
    (job.local.pos(), mesh, job.priority())
}


/// A run of Air cells emits no face.
proof fn lemma_air_run(m: MeshInput, a: int, b: int)
    requires
        0 <= a <= b,
        forall|i: int| a <= i < b ==> m.local.cells[i] == BlockType::Air,
    ensures
        faces_upto(m, b) == faces_upto(m, a),
    decreases b - a,
{
    if b > a {
        lemma_air_run(m, a, b - 1);
        assert(cell_faces(m, b - 1) =~= seq![]);
        assert(faces_upto(m, b) =~= faces_upto(m, b - 1));
    }
}

/// The faces up to and including cell `i` are those before it and its own.
proof fn lemma_faces_step(m: MeshInput, i: int)
    requires
        0 <= i,
    ensures
        faces_upto(m, i + 1) == faces_upto(m, i) + tag_faces(i, cell_faces(m, i)),
        faces_upto(m, i + 1).len() == faces_upto(m, i).len() + cell_faces(m, i).len(),
{
}

/// A neighbor grid that is unknown, or known and all Air.
pub open spec fn open_neighbor(n: Option<Seq<BlockType>>) -> bool {
    match n {
        Some(cells) => forall|i: int| 0 <= i < CHUNK_VOLUME ==> #[trigger] cells[i] == BlockType::Air,
        None => true,
    }
}

/// No lateral neighbor hides a boundary face.
pub open spec fn open_surroundings(m: MeshInput) -> bool {
    open_neighbor(m.pos_x) && open_neighbor(m.neg_x) && open_neighbor(m.pos_z) && open_neighbor(
        m.neg_z,
    )
}

/// The only Solid cells of the grid are those at flat positions in `solid`.
pub open spec fn solid_exactly(cells: Seq<BlockType>, solid: Set<int>) -> bool {
    &&& cells.len() == CHUNK_VOLUME
    &&& forall|i: int| 0 <= i < CHUNK_VOLUME ==> (#[trigger] cells[i] == BlockType::Solid) == solid.contains(i)
}

proof fn lemma_boundary_open(m: MeshInput, x: int, y: int, z: int)
    requires
        open_surroundings(m),
        in_chunk(x, y, z),
    ensures
        exposed_across(m.pos_z, x, y, 0),
        exposed_across(m.pos_x, 0, y, z),
        exposed_across(m.neg_z, x, y, 15),
        exposed_across(m.neg_x, 15, y, z),
{
    lemma_cell_coords(x, y, 0);
    lemma_cell_coords(0, y, z);
    lemma_cell_coords(x, y, 15);
    lemma_cell_coords(15, y, z);
}

/// An all-Air grid has an empty mesh: no vertices and no indices, so there is
/// nothing to turn into GPU buffers.
pub proof fn lemma_empty_chunk_mesh(m: MeshInput)
    requires
        solid_exactly(m.local.cells, Set::empty()),
    ensures
        mesh_faces(m).len() == 0,
        mesh_vertices(m.local.pos, mesh_faces(m)).len() == 0,
        mesh_indices(mesh_faces(m).len()).len() == 0,
{
    assert forall|i: int| 0 <= i < CHUNK_VOLUME implies m.local.cells[i] == BlockType::Air by {
        if m.local.cells[i] == BlockType::Solid {
            assert(Set::<int>::empty().contains(i));
        }
    }
    lemma_air_run(m, 0, CHUNK_VOLUME as int);
    lemma_mesh_lengths(m.local.pos, mesh_faces(m));
}

/// A lone Solid cell surrounded by Air (or by unknown neighbor chunks) shows
/// all six faces: 24 vertices and 36 indices.
pub proof fn lemma_lone_block_mesh(m: MeshInput, x: int, y: int, z: int)
    requires
        in_chunk(x, y, z),
        solid_exactly(m.local.cells, set![cell_index(x, y, z)]),
        open_surroundings(m),
    ensures
        mesh_faces(m).len() == 6,
        mesh_vertices(m.local.pos, mesh_faces(m)).len() == 24,
        mesh_indices(mesh_faces(m).len()).len() == 36,
{
    let a = cell_index(x, y, z);
    let c = m.local.cells;
    lemma_cell_coords(x, y, z);
    lemma_boundary_open(m, x, y, z);
    assert forall|i: int| 0 <= i < CHUNK_VOLUME && i != a implies c[i] == BlockType::Air by {
        if c[i] == BlockType::Solid {
            assert(set![a].contains(i));
        }
    }
    assert(c[a] == BlockType::Solid);
    lemma_air_run(m, 0, a);
    lemma_faces_step(m, a);
    lemma_air_run(m, a + 1, CHUNK_VOLUME as int);
    assert(cell_faces(m, a).len() == 6);
    lemma_mesh_lengths(m.local.pos, mesh_faces(m));
}

/// The face of a cell that looks along the axis step (dx, dy, dz), and the
/// face of the next cell that looks back.
pub open spec fn facing_pair(dx: int, dy: int, dz: int) -> (Face, Face) {
    if dx == 1 {
        (Face::Right, Face::Left)
    } else if dy == 1 {
        (Face::Top, Face::Bottom)
    } else {
        (Face::Front, Face::Back)
    }
}

pub open spec fn unit_step(dx: int, dy: int, dz: int) -> bool {
    (dx, dy, dz) == (1int, 0int, 0int) || (dx, dy, dz) == (0int, 1int, 0int) || (dx, dy, dz) == (
        0int,
        0int,
        1int,
    )
}

/// Two adjacent Solid cells, alone among Air (or unknown neighbor chunks),
/// hide the face they share: neither emits it, and the mesh has ten faces,
/// one fewer each than two lone cells.
pub proof fn lemma_adjacent_pair_mesh(m: MeshInput, x: int, y: int, z: int, dx: int, dy: int, dz: int)
    requires
        unit_step(dx, dy, dz),
        in_chunk(x, y, z),
        in_chunk(x + dx, y + dy, z + dz),
        solid_exactly(m.local.cells, set![cell_index(x, y, z), cell_index(x + dx, y + dy, z + dz)]),
        open_surroundings(m),
    ensures
        !cell_faces(m, cell_index(x, y, z)).contains(facing_pair(dx, dy, dz).0),
        !cell_faces(m, cell_index(x + dx, y + dy, z + dz)).contains(facing_pair(dx, dy, dz).1),
        mesh_faces(m).len() == 10,
        mesh_vertices(m.local.pos, mesh_faces(m)).len() == 40,
        mesh_indices(mesh_faces(m).len()).len() == 60,
{
    let a = cell_index(x, y, z);
    let b = cell_index(x + dx, y + dy, z + dz);
    let c = m.local.cells;
    let pair = set![a, b];
    lemma_cell_coords(x, y, z);
    lemma_cell_coords(x + dx, y + dy, z + dz);
    lemma_boundary_open(m, x, y, z);
    lemma_boundary_open(m, x + dx, y + dy, z + dz);
    assert forall|i: int| 0 <= i < CHUNK_VOLUME && i != a && i != b implies c[i] == BlockType::Air by {
        if c[i] == BlockType::Solid {
            assert(pair.contains(i));
        }
    }
    assert(pair.contains(a) && pair.contains(b));
    assert(c[a] == BlockType::Solid && c[b] == BlockType::Solid);
    assert(a < b);
    lemma_air_run(m, 0, a);
    lemma_faces_step(m, a);
    lemma_air_run(m, a + 1, b);
    lemma_faces_step(m, b);
    lemma_air_run(m, b + 1, CHUNK_VOLUME as int);
    let fa = cell_faces(m, a);
    let fb = cell_faces(m, b);
    if dx == 1 {
        assert(fa =~= seq![Face::Front, Face::Back, Face::Left, Face::Top, Face::Bottom]);
        assert(fb =~= seq![Face::Front, Face::Right, Face::Back, Face::Top, Face::Bottom]);
    } else if dy == 1 {
        assert(fa =~= seq![Face::Front, Face::Right, Face::Back, Face::Left, Face::Bottom]);
        assert(fb =~= seq![Face::Front, Face::Right, Face::Back, Face::Left, Face::Top]);
    } else {
        assert(fa =~= seq![Face::Right, Face::Back, Face::Left, Face::Top, Face::Bottom]);
        assert(fb =~= seq![Face::Front, Face::Right, Face::Left, Face::Top, Face::Bottom]);
    }
    assert(!fa.contains(facing_pair(dx, dy, dz).0));
    assert(!fb.contains(facing_pair(dx, dy, dz).1));
    lemma_mesh_lengths(m.local.pos, mesh_faces(m));
}

} // verus!
