//! Voxel grids of one chunk column and the coordinates that address them.
use vstd::prelude::*;
use vstd::arithmetic::div_mod::lemma_fundamental_div_mod_converse;

verus! {

/// Horizontal extent of a chunk column along x and along z.
pub const CHUNK_WIDTH: usize = 16;

/// Vertical extent of a chunk column.
pub const CHUNK_HEIGHT: usize = 256;

/// Number of cells in one chunk column.
pub const CHUNK_VOLUME: usize = 65536;

/// Number of columns (x, z pairs) in one chunk.
pub const COLUMN_COUNT: usize = 256;

/// Classification of one cell of the grid.
#[derive(Clone, Copy, Debug, PartialEq, Eq, Structural, Hash)]
pub enum BlockType {
    Air,
    Solid,
}

/// Position of a cell in the flat grid: x varies fastest, then y, then z.
pub open spec fn cell_index(x: int, y: int, z: int) -> int {
    x + 16 * y + 4096 * z
}

/// The x coordinate of the cell stored at flat position `i`.
pub open spec fn cell_x(i: int) -> int {
    i % 16
}

/// The y coordinate of the cell stored at flat position `i`.
pub open spec fn cell_y(i: int) -> int {
    (i / 16) % 256
}

/// The z coordinate of the cell stored at flat position `i`.
pub open spec fn cell_z(i: int) -> int {
    i / 4096
}

/// Position of a column in a per-column table (such as a height map).
pub open spec fn column_index(x: int, z: int) -> int {
    x + 16 * z
}

pub open spec fn in_chunk(x: int, y: int, z: int) -> bool {
    0 <= x < 16 && 0 <= y < 256 && 0 <= z < 16
}

/// Splitting a flat position into coordinates inverts `cell_index`.
pub proof fn lemma_cell_coords(x: int, y: int, z: int)
    requires
        in_chunk(x, y, z),
    ensures
        0 <= cell_index(x, y, z) < CHUNK_VOLUME,
        cell_x(cell_index(x, y, z)) == x,
        cell_y(cell_index(x, y, z)) == y,
        cell_z(cell_index(x, y, z)) == z,
{
    let i = cell_index(x, y, z);
    lemma_fundamental_div_mod_converse(i, 16, y + 256 * z, x);
    lemma_fundamental_div_mod_converse(i / 16, 256, z, y);
    lemma_fundamental_div_mod_converse(i, 4096, z, x + 16 * y);
}

/// Every flat position inside the grid comes from coordinates inside the chunk.
pub proof fn lemma_index_coords(i: int)
    requires
        0 <= i < CHUNK_VOLUME,
    ensures
        in_chunk(cell_x(i), cell_y(i), cell_z(i)),
        cell_index(cell_x(i), cell_y(i), cell_z(i)) == i,
{
    let x = i % 16;
    let q = i / 16;
    let y = q % 256;
    let z = q / 256;
    assert(i == 16 * q + x) by {
        vstd::arithmetic::div_mod::lemma_fundamental_div_mod(i, 16);
    }
    assert(q == 256 * z + y) by {
        vstd::arithmetic::div_mod::lemma_fundamental_div_mod(q, 256);
    }
    assert(0 <= x < 16) by {
        vstd::arithmetic::div_mod::lemma_mod_bound(i, 16);
    }
    assert(0 <= y < 256) by {
        vstd::arithmetic::div_mod::lemma_mod_bound(q, 256);
    }
    assert(0 <= q < 4096) by {
        vstd::arithmetic::div_mod::lemma_div_is_ordered(i, 65535, 16);
        vstd::arithmetic::div_mod::lemma_div_pos_is_pos(i, 16);
    }
    assert(0 <= z < 16) by {
        vstd::arithmetic::div_mod::lemma_div_is_ordered(q, 4095, 256);
        vstd::arithmetic::div_mod::lemma_div_pos_is_pos(q, 256);
    }
    lemma_fundamental_div_mod_converse(i, 4096, z, x + 16 * y);
}

/// What a voxel grid holds: its chunk coordinate and its cells in flat order.
pub struct VoxelGrid {
    pub pos: (i32, i32),
    pub cells: Seq<BlockType>,
}

/// The voxel grid of one chunk column. Immutable once built.
pub struct VoxelData {
    chunk_pos: (i32, i32),
    voxels: Vec<BlockType>,
}

impl View for VoxelData {
    type V = VoxelGrid;

    closed spec fn view(&self) -> VoxelGrid {
        VoxelGrid { pos: self.chunk_pos, cells: self.voxels@ }
    }
}

impl VoxelData {
    #[verifier::type_invariant]
    spec fn full_grid(self) -> bool {
        self.voxels@.len() == CHUNK_VOLUME
    }

    /// Builds the grid of the chunk at `chunk_pos` from its cells in flat order
    /// (see `cell_index`).
    pub fn new(voxels: Vec<BlockType>, chunk_pos: (i32, i32)) -> (r: VoxelData)
        requires
            voxels@.len() == CHUNK_VOLUME,
        ensures
            r@.pos == chunk_pos,
            r@.cells == voxels@,
    {
        VoxelData { chunk_pos, voxels }
    }

    /// The cells in flat order.
    pub fn data(&self) -> (r: &Vec<BlockType>)
        ensures
            r@ == self@.cells,
            r@.len() == CHUNK_VOLUME,
    {
        proof {
            use_type_invariant(self);
        }
        &self.voxels
    }

    pub fn pos(&self) -> (r: (i32, i32))
        ensures
            r == self@.pos,
    {
        self.chunk_pos
    }

    /// An independent copy of the grid, for handing to another worker.
    pub fn duplicate(&self) -> (r: VoxelData)
        ensures
            r@ == self@,
    {
        proof {
            use_type_invariant(self);
        }
        let mut voxels: Vec<BlockType> = Vec::with_capacity(CHUNK_VOLUME);
        let mut i: usize = 0;
        while i < self.voxels.len()
            invariant
                i <= self.voxels@.len(),
                voxels@ == self.voxels@.subrange(0, i as int),
            decreases self.voxels@.len() - i,
        {
            voxels.push(self.voxels[i]);
            i += 1;
        }
        assert(voxels@ =~= self.voxels@);
        VoxelData { chunk_pos: self.chunk_pos, voxels }
    }
}

} // verus!
