//! Terrain generation: a height field turned into a voxel grid.
use vstd::prelude::*;
use crate::voxel_data::{
    cell_index, cell_x, cell_y, cell_z, column_index, lemma_cell_coords, BlockType, VoxelData,
    VoxelGrid, CHUNK_HEIGHT, CHUNK_VOLUME, CHUNK_WIDTH, COLUMN_COUNT,
};

verus! {

/// The cell at flat position `i` of a chunk whose column heights are `heights`:
/// Solid at or below the column's surface height, Air above it.
pub open spec fn terrain_cell(heights: Seq<i32>, i: int) -> BlockType {
    if cell_y(i) <= heights[column_index(cell_x(i), cell_z(i))] {
        BlockType::Solid
    } else {
        BlockType::Air
    }
}

/// The cells of a chunk whose column heights are `heights` (indexed by `column_index`).
pub open spec fn terrain_cells(heights: Seq<i32>) -> Seq<BlockType> {
    Seq::new(CHUNK_VOLUME as nat, |i: int| terrain_cell(heights, i))
}

/// Generates chunk voxel grids from a height field.
pub struct ChunkGenerator {}

impl ChunkGenerator {
    pub fn new() -> (r: ChunkGenerator) {
        ChunkGenerator {}
    }

    /// The grid of chunk (`chunk_x`, `chunk_z`) whose surface height above
    /// column (x, z) is `heights[column_index(x, z)]`.
    pub fn generate_chunk(&self, chunk_x: i32, chunk_z: i32, heights: &Vec<i32>) -> (r: VoxelData)
        requires
            heights@.len() == COLUMN_COUNT,
        ensures
            r@.pos == (chunk_x, chunk_z),
            r@.cells == terrain_cells(heights@),
    {
        let mut voxels: Vec<BlockType> = Vec::with_capacity(CHUNK_VOLUME);
        let mut z: usize = 0;
        while z < CHUNK_WIDTH
            invariant
                z <= 16,
                heights@.len() == COLUMN_COUNT,
                voxels@.len() == cell_index(0, 0, z as int),
                forall|j: int| 0 <= j < voxels@.len() ==> #[trigger] voxels@[j] == terrain_cell(heights@, j),
            decreases 16 - z,
        {
            let mut y: usize = 0;
            while y < CHUNK_HEIGHT
                invariant
                    z < 16,
                    y <= 256,
                    heights@.len() == COLUMN_COUNT,
                    voxels@.len() == cell_index(0, y as int, z as int),
                    forall|j: int| 0 <= j < voxels@.len() ==> #[trigger] voxels@[j] == terrain_cell(heights@, j),
                decreases 256 - y,
            {
                let mut x: usize = 0;
                while x < CHUNK_WIDTH
                    invariant
                        z < 16,
                        y < 256,
                        x <= 16,
                        heights@.len() == COLUMN_COUNT,
                        voxels@.len() == cell_index(x as int, y as int, z as int),
                        forall|j: int| 0 <= j < voxels@.len() ==> #[trigger] voxels@[j] == terrain_cell(heights@, j),
                    decreases 16 - x,
                {
                    proof {
                        lemma_cell_coords(x as int, y as int, z as int);
                    }
                    let surface = heights[x + 16 * z];
                    let cell = if (y as i32) <= surface {
                        BlockType::Solid
                    } else {
                        BlockType::Air
                    };
                    voxels.push(cell);
                    x += 1;
                }
                y += 1;
            }
            z += 1;
        }
        assert(voxels@ =~= terrain_cells(heights@));
        VoxelData::new(voxels, (chunk_x, chunk_z))
    }
}

/// Generation is a function of the chunk coordinate and the height field:
/// the same inputs give the same grid, cell for cell.
pub proof fn lemma_generation_deterministic(
    chunk_a: (i32, i32),
    heights_a: Seq<i32>,
    chunk_b: (i32, i32),
    heights_b: Seq<i32>,
)
    requires
        chunk_a == chunk_b,
        heights_a == heights_b,
    ensures
        (VoxelGrid { pos: chunk_a, cells: terrain_cells(heights_a) }) == (VoxelGrid {
            pos: chunk_b,
            cells: terrain_cells(heights_b),
        }),
{
}

} // verus!
