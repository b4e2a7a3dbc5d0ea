//! Which tile of the texture atlas each face of a block type shows.
use vstd::prelude::*;
use crate::voxel_data::BlockType;

verus! {

/// Atlas tile (column, row) for each face of a block.
pub struct FaceAtlas {
    pub front: [u8; 2],
    pub back: [u8; 2],
    pub top: [u8; 2],
    pub bottom: [u8; 2],
    pub left: [u8; 2],
    pub right: [u8; 2],
}

/// The dirt tiles: dirt sides, grass top, bare bottom.
pub open spec fn is_dirt_atlas(a: FaceAtlas) -> bool {
    &&& a.front@ == seq![1u8, 0u8]
    &&& a.back@ == seq![1u8, 0u8]
    &&& a.top@ == seq![2u8, 0u8]
    &&& a.bottom@ == seq![0u8, 0u8]
    &&& a.left@ == seq![1u8, 0u8]
    &&& a.right@ == seq![1u8, 0u8]
}

fn dirt_atlas() -> (r: FaceAtlas)
    ensures
        is_dirt_atlas(r),
{
    let r = FaceAtlas {
        front: [1, 0],
        back: [1, 0],
        top: [2, 0],
        bottom: [0, 0],
        left: [1, 0],
        right: [1, 0],
    };
    assert(r.front@ =~= seq![1u8, 0u8]);
    assert(r.back@ =~= seq![1u8, 0u8]);
    assert(r.top@ =~= seq![2u8, 0u8]);
    assert(r.bottom@ =~= seq![0u8, 0u8]);
    assert(r.left@ =~= seq![1u8, 0u8]);
    assert(r.right@ =~= seq![1u8, 0u8]);
    r
}

/// Tiles per block type: Solid blocks show dirt, Air shows nothing.
pub struct TextureAtlas {
    solid: FaceAtlas,
}

impl TextureAtlas {
    pub closed spec fn wf(&self) -> bool {
        is_dirt_atlas(self.solid)
    }

    pub fn new() -> (r: TextureAtlas)
        ensures
            r.wf(),
    {
        TextureAtlas { solid: dirt_atlas() }
    }

    pub fn get(&self, ty: BlockType) -> (r: Option<&FaceAtlas>)
        requires
            self.wf(),
        ensures
            match ty {
                BlockType::Solid => r is Some && is_dirt_atlas(*r->0),
                BlockType::Air => r is None,
            },
    {
        match ty {
            BlockType::Solid => Some(&self.solid),
            BlockType::Air => None,
        }
    }
}

} // verus!
