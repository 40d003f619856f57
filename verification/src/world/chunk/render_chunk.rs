use vstd::prelude::*;

use std::sync::Arc;

use crate::block::block_registry::BlockRegistry;
use crate::block::block_type::BlockType;
use crate::shared::share;
use crate::block::location::BlockLocation;
use crate::world::chunk::chunk::ChunkLocation;

verus! {

/// Width of a render chunk along x, in blocks.
pub const WIDTH: usize = 16;

/// Height of a render chunk along y, in blocks.
pub const HEIGHT: usize = 16;

/// Depth of a render chunk along z, in blocks.
pub const DEPTH: usize = 16;

/// Location of a render chunk: the column's x and z, and its layer y.
#[derive(Clone, Copy, PartialEq, Eq, Structural, Debug, Hash)]
pub struct RenderChunkLocation {
    pub x: i32,
    pub y: i32,
    pub z: i32,
}

impl RenderChunkLocation {
    pub fn equals(&self, other: &RenderChunkLocation) -> (r: bool)
        ensures
            r == (*self == *other),
    {
        self.x == other.x && self.y == other.y && self.z == other.z
    }

    pub fn new(x: i32, y: i32, z: i32) -> (r: RenderChunkLocation)
        ensures
            r.x == x,
            r.y == y,
            r.z == z,
    {
        RenderChunkLocation { x, y, z }
    }

    /// One step along +z.
    pub fn north(&self) -> (r: RenderChunkLocation)
        requires
            self.z < i32::MAX,
        ensures
            r == (RenderChunkLocation { z: (self.z + 1) as i32, ..*self }),
    {
        RenderChunkLocation::new(self.x, self.y, self.z + 1)
    }

    /// One step along +x.
    pub fn east(&self) -> (r: RenderChunkLocation)
        requires
            self.x < i32::MAX,
        ensures
            r == (RenderChunkLocation { x: (self.x + 1) as i32, ..*self }),
    {
        RenderChunkLocation::new(self.x + 1, self.y, self.z)
    }

    /// One step along -z.
    pub fn south(&self) -> (r: RenderChunkLocation)
        requires
            self.z > i32::MIN,
        ensures
            r == (RenderChunkLocation { z: (self.z - 1) as i32, ..*self }),
    {
        RenderChunkLocation::new(self.x, self.y, self.z - 1)
    }

    /// One step along -x.
    pub fn west(&self) -> (r: RenderChunkLocation)
        requires
            self.x > i32::MIN,
        ensures
            r == (RenderChunkLocation { x: (self.x - 1) as i32, ..*self }),
    {
        RenderChunkLocation::new(self.x - 1, self.y, self.z)
    }

    /// North, east, south and west, in that order.
    pub open spec fn surrounding(self) -> Seq<RenderChunkLocation> {
        seq![
            RenderChunkLocation { z: (self.z + 1) as i32, ..self },
            RenderChunkLocation { x: (self.x + 1) as i32, ..self },
            RenderChunkLocation { z: (self.z - 1) as i32, ..self },
            RenderChunkLocation { x: (self.x - 1) as i32, ..self },
        ]
    }

    pub fn get_surrounding_chunks(&self) -> (r: Vec<RenderChunkLocation>)
        requires
            i32::MIN < self.x < i32::MAX,
            i32::MIN < self.z < i32::MAX,
        ensures
            r@ == self.surrounding(),
    {
        let v = vec![self.north(), self.east(), self.south(), self.west()];
        assert(v@ =~= self.surrounding());
        v
    }

    /// The column this render chunk belongs to.
    pub open spec fn chunk_location_spec(self) -> ChunkLocation {
        ChunkLocation { x: self.x, z: self.z }
    }

    pub fn get_chunk_location(&self) -> (r: ChunkLocation)
        ensures
            r == self.chunk_location_spec(),
    {
        ChunkLocation::new(self.x, self.z)
    }
}

/// Whether a face of a block of type `t` that touches a block of type `a`
/// is seen: `a` is see-through air and `t` is see-through too, or `a` is
/// see-through and `t` is not.
pub open spec fn face_shows(a: BlockType, t: BlockType) -> bool {
    a.is_transparent && a.is_air && t.is_transparent || a.is_transparent && !t.is_transparent
}

/// Which faces show, by what they touch: a face towards see-through air
/// always shows, whatever the block; a face towards an opaque block never
/// shows; a face towards a see-through block that is not air shows exactly
/// for an opaque block.
pub proof fn law_face_culling(a: BlockType, t: BlockType)
    ensures
        a.is_air && a.is_transparent ==> face_shows(a, t),
        !a.is_transparent ==> !face_shows(a, t),
        !a.is_air && a.is_transparent ==> (face_shows(a, t) <==> !t.is_transparent),
{
}

/// Whether a location relative to a render chunk lies inside it.
pub open spec fn in_render_chunk(l: BlockLocation) -> bool {
    0 <= l.x < WIDTH && 0 <= l.y < HEIGHT && 0 <= l.z < DEPTH
}

/// Whether `blocks` is a full 16 x 16 x 16 grid, indexed `[y][x][z]`.
pub open spec fn full_grid(blocks: Seq<Vec<Vec<Arc<BlockType>>>>) -> bool {
    &&& blocks.len() == HEIGHT
    &&& forall|y: int| 0 <= y < HEIGHT ==> #[trigger] blocks[y]@.len() == WIDTH
    &&& forall|y: int, x: int|
        0 <= y < HEIGHT && 0 <= x < WIDTH ==> #[trigger] blocks[y]@[x]@.len() == DEPTH
}


/// Number of blocks in a render chunk.
pub const BLOCK_COUNT: usize = 4096;

/// Position, in a render chunk's saved list of ids, of the block stored at
/// `[a][b][c]` of its grid.
pub open spec fn cell_index(a: int, b: int, c: int) -> int {
    a * 256 + b * 16 + c
}

/// Whether `reg` holds each id of `ids`.
pub open spec fn all_registered(reg: Map<Seq<char>, BlockType>, ids: Seq<String>) -> bool {
    forall|k: int| 0 <= k < ids.len() ==> reg.contains_key(#[trigger] ids[k]@)
}

/// A 16 x 16 x 16 cube of blocks, part of a chunk column.
#[derive(Clone)]
pub struct RenderChunk {
    pub location: RenderChunkLocation,
    pub blocks: Vec<Vec<Vec<Arc<BlockType>>>>,
}

impl RenderChunk {
    pub open spec fn wf(self) -> bool {
        full_grid(self.blocks@)
    }

    /// The block at `(x, y, z)` relative to this render chunk.
    pub open spec fn block(self, x: int, y: int, z: int) -> BlockType {
        *self.blocks@[y]@[x]@[z]
    }

    /// The block at `l`, if `l` lies inside.
    pub open spec fn block_at(self, l: BlockLocation) -> Option<BlockType> {
        if in_render_chunk(l) {
            Some(self.block(l.x as int, l.y as int, l.z as int))
        } else {
            None
        }
    }

    /// A render chunk at `location` holding `blocks`, or, where `saved`
    /// holds the ids of a render chunk saved before, the blocks those ids
    /// name.
    pub fn new(
        blocks: Vec<Vec<Vec<Arc<BlockType>>>>,
        location: RenderChunkLocation,
        block_registry: &BlockRegistry,
        saved: &Option<Vec<String>>,
    ) -> (r: RenderChunk)
        requires
            block_registry.wf(),
            saved matches Some(ids) ==> ids@.len() == BLOCK_COUNT && all_registered(
                block_registry.view(),
                ids@,
            ),
        ensures
            r.location == location,
            saved is None ==> r.blocks == blocks,
            saved matches Some(ids) ==> r.wf() && r.loaded_from(block_registry.view(), ids@),
    {
        let mut c = RenderChunk { location, blocks };
        match saved {
            Some(ids) => {
                c.load(ids, block_registry);
            },
            None => {},
        }
        c
    }

    /// Whether the block at each cell is the one the registry gives for the
    /// id saved for that cell.
    pub open spec fn loaded_from(self, reg: Map<Seq<char>, BlockType>, ids: Seq<String>) -> bool {
        forall|a: int, b: int, c: int|
            0 <= a < 16 && 0 <= b < 16 && 0 <= c < 16 ==> #[trigger] self.block(b, a, c)
                == reg[ids[cell_index(a, b, c)]@]
    }

    /// Replaces the blocks with those named by `ids`, in saved order.
    pub fn load(&mut self, ids: &Vec<String>, block_registry: &BlockRegistry)
        requires
            block_registry.wf(),
            ids@.len() == BLOCK_COUNT,
            all_registered(block_registry.view(), ids@),
        ensures
            final(self).wf(),
            final(self).location == old(self).location,
            final(self).loaded_from(block_registry.view(), ids@),
    {
        let ghost reg = block_registry.view();
        let mut blocks: Vec<Vec<Vec<Arc<BlockType>>>> = Vec::new();
        let mut k: usize = 0;
        let mut a: usize = 0;
        while a < 16
            invariant
                a <= 16,
                k == a * 256,
                ids@.len() == BLOCK_COUNT,
                block_registry.wf(),
                reg == block_registry.view(),
                all_registered(reg, ids@),
                blocks@.len() == a,
                forall|i: int| 0 <= i < a ==> #[trigger] blocks@[i]@.len() == 16,
                forall|i: int, j: int|
                    0 <= i < a && 0 <= j < 16 ==> #[trigger] blocks@[i]@[j]@.len() == 16,
                forall|i: int, j: int, l: int|
                    0 <= i < a && 0 <= j < 16 && 0 <= l < 16 ==> *#[trigger] blocks@[i]@[j]@[l]
                        == reg[ids@[cell_index(i, j, l)]@],
            decreases 16 - a,
        {
            let mut plane: Vec<Vec<Arc<BlockType>>> = Vec::new();
            let mut b: usize = 0;
            while b < 16
                invariant
                    a < 16,
                    b <= 16,
                    k == a * 256 + b * 16,
                    ids@.len() == BLOCK_COUNT,
                    block_registry.wf(),
                    reg == block_registry.view(),
                    all_registered(reg, ids@),
                    plane@.len() == b,
                    forall|j: int| 0 <= j < b ==> #[trigger] plane@[j]@.len() == 16,
                    forall|j: int, l: int|
                        0 <= j < b && 0 <= l < 16 ==> *#[trigger] plane@[j]@[l]
                            == reg[ids@[cell_index(a as int, j, l)]@],
                decreases 16 - b,
            {
                let mut row: Vec<Arc<BlockType>> = Vec::new();
                let mut c: usize = 0;
                while c < 16
                    invariant
                        a < 16,
                        b < 16,
                        c <= 16,
                        k == a * 256 + b * 16 + c,
                        ids@.len() == BLOCK_COUNT,
                        block_registry.wf(),
                        reg == block_registry.view(),
                        all_registered(reg, ids@),
                        row@.len() == c,
                        forall|l: int|
                            0 <= l < c ==> *#[trigger] row@[l] == reg[ids@[cell_index(
                                a as int,
                                b as int,
                                l,
                            )]@],
                    decreases 16 - c,
                {
                    assert(reg.contains_key(ids@[k as int]@));
                    row.push(block_registry.block(ids[k].as_str()));
                    k = k + 1;
                    c = c + 1;
                }
                plane.push(row);
                b = b + 1;
            }
            blocks.push(plane);
            a = a + 1;
        }
        self.blocks = blocks;
    }

    /// Whether `count` and `ids` are what saving this render chunk writes:
    /// the number of blocks, then the id of each block, `[y][x][z]` with z
    /// fastest.
    pub open spec fn saves_as(self, count: i16, ids: Seq<String>) -> bool {
        &&& count == BLOCK_COUNT
        &&& ids.len() == BLOCK_COUNT
        &&& forall|a: int, b: int, c: int|
            0 <= a < 16 && 0 <= b < 16 && 0 <= c < 16 ==> #[trigger] ids[cell_index(a, b, c)]@
                == self.block(b, a, c).id@
    }

    /// The number of blocks and their ids, in the order a render chunk is
    /// saved.
    pub fn save_data(&self) -> (r: (i16, Vec<String>))
        requires
            self.wf(),
        ensures
            r.0 == BLOCK_COUNT,
            r.1@.len() == BLOCK_COUNT,
            forall|a: int, b: int, c: int|
                0 <= a < 16 && 0 <= b < 16 && 0 <= c < 16 ==> #[trigger] r.1@[cell_index(a, b, c)]@
                    == self.block(b, a, c).id@,
    {
        let mut ids: Vec<String> = Vec::new();
        let mut a: usize = 0;
        while a < 16
            invariant
                self.wf(),
                a <= 16,
                ids@.len() == a * 256,
                forall|i: int, j: int, l: int|
                    0 <= i < a && 0 <= j < 16 && 0 <= l < 16 ==> #[trigger] ids@[cell_index(i, j, l)]@
                        == self.block(j, i, l).id@,
            decreases 16 - a,
        {
            let mut b: usize = 0;
            while b < 16
                invariant
                    self.wf(),
                    a < 16,
                    b <= 16,
                    ids@.len() == a * 256 + b * 16,
                    forall|i: int, j: int, l: int|
                        0 <= i < a && 0 <= j < 16 && 0 <= l < 16 ==> #[trigger] ids@[cell_index(i, j, l)]@
                            == self.block(j, i, l).id@,
                    forall|j: int, l: int|
                        0 <= j < b && 0 <= l < 16 ==> #[trigger] ids@[cell_index(a as int, j, l)]@
                            == self.block(j, a as int, l).id@,
                decreases 16 - b,
            {
                let mut c: usize = 0;
                while c < 16
                    invariant
                        self.wf(),
                        a < 16,
                        b < 16,
                        c <= 16,
                        ids@.len() == a * 256 + b * 16 + c,
                        forall|i: int, j: int, l: int|
                            0 <= i < a && 0 <= j < 16 && 0 <= l < 16 ==> #[trigger] ids@[cell_index(i, j, l)]@
                                == self.block(j, i, l).id@,
                        forall|j: int, l: int|
                            0 <= j < b && 0 <= l < 16 ==> #[trigger] ids@[cell_index(a as int, j, l)]@
                                == self.block(j, a as int, l).id@,
                        forall|l: int|
                            0 <= l < c ==> #[trigger] ids@[cell_index(a as int, b as int, l)]@
                                == self.block(b as int, a as int, l).id@,
                    decreases 16 - c,
                {
                    ids.push(self.blocks[a][b][c].id.clone());
                    c = c + 1;
                }
                b = b + 1;
            }
            a = a + 1;
        }
        (BLOCK_COUNT as i16, ids)
    }

    /// Reads `!is_air` of the block at `l`: true where a solid block stands,
    /// false for air and for locations outside.
    pub open spec fn is_air_spec(self, l: BlockLocation) -> bool {
        match self.block_at(l) {
            Some(b) => !b.is_air,
            None => false,
        }
    }

    pub fn is_surrounded_by_solid(&self, loc: &BlockLocation) -> (r: bool)
        requires
            self.wf(),
            loc.steps_fit(),
        ensures
            r == (forall|i: int| 0 <= i < 6 ==> self.is_air_spec(#[trigger] loc.neighbours()[i])),
    {
        let r = self.is_air(&loc.up()) && self.is_air(&loc.down()) && self.is_air(&loc.north())
            && self.is_air(&loc.east()) && self.is_air(&loc.south()) && self.is_air(&loc.west());
        assert(r == (forall|i: int| 0 <= i < 6 ==> self.is_air_spec(#[trigger] loc.neighbours()[i]))) by {
            let n = loc.neighbours();
            assert(n[0] == loc.up_spec() && n[1] == loc.down_spec() && n[2] == loc.north_spec());
            assert(n[3] == loc.west_spec() && n[4] == loc.south_spec() && n[5] == loc.east_spec());
        }
        r
    }

    pub fn is_air(&self, loc: &BlockLocation) -> (r: bool)
        requires
            self.wf(),
        ensures
            r == self.is_air_spec(*loc),
    {
        if loc.x > -1 && loc.y > -1 && loc.z > -1 && loc.x < WIDTH as i32 && loc.y < HEIGHT as i32
            && loc.z < DEPTH as i32 {
            let t: &Arc<BlockType> = &self.blocks[loc.y as usize][loc.x as usize][loc.z as usize];
            return !t.is_air;
        }
        false
    }

    /// Whether a face of a block of type `t` towards `l` is seen: true where
    /// `l` is outside, else as `face_shows` says of the block there.
    pub open spec fn transparent_and_self_spec(self, t: BlockType, l: BlockLocation) -> bool {
        match self.block_at(l) {
            Some(a) => face_shows(a, t),
            None => true,
        }
    }

    pub fn is_transparent_and_self(&self, t: Arc<BlockType>, loc: &BlockLocation) -> (r: bool)
        requires
            self.wf(),
        ensures
            r == self.transparent_and_self_spec(*t, *loc),
    {
        let b = self.get_block_at(loc);
        match b {
            Some(a) => a.is_transparent && a.is_air && t.is_transparent || a.is_transparent
                && !t.is_transparent,
            None => true,
        }
    }

    pub fn is_air_unsafe(&self, loc: &BlockLocation) -> (r: bool)
        requires
            self.wf(),
            in_render_chunk(*loc),
        ensures
            r == !self.block(loc.x as int, loc.y as int, loc.z as int).is_air,
    {
        let t: &Arc<BlockType> = &self.blocks[loc.y as usize][loc.x as usize][loc.z as usize];
        !t.is_air
    }

    pub fn block_exists_in_chunk(&self, loc: &BlockLocation) -> (r: bool)
        ensures
            r == in_render_chunk(*loc),
    {
        loc.x > -1 && loc.y > -1 && loc.z > -1 && loc.x < WIDTH as i32 && loc.y < HEIGHT as i32
            && loc.z < DEPTH as i32
    }

    pub fn get_block_at(&self, loc: &BlockLocation) -> (r: Option<Arc<BlockType>>)
        requires
            self.wf(),
        ensures
            r matches Some(b) ==> self.block_at(*loc) == Some(*b),
            r is None ==> self.block_at(*loc) is None,
    {
        if loc.x < 0 || loc.y < 0 || loc.z < 0 || loc.x >= WIDTH as i32 || loc.y >= HEIGHT as i32
            || loc.z >= DEPTH as i32 {
            return None;
        }
        Some(share(&self.blocks[loc.y as usize][loc.x as usize][loc.z as usize]))
    }

    /// Places `t` at `loc`; a location outside changes nothing.
    pub fn set_block_at(&mut self, t: Arc<BlockType>, loc: &BlockLocation)
        requires
            old(self).wf(),
        ensures
            final(self).wf(),
            final(self).location == old(self).location,
            forall|l: BlockLocation|
                #[trigger] final(self).block_at(l) == if l == *loc && in_render_chunk(*loc) {
                    Some(*t)
                } else {
                    old(self).block_at(l)
                },
    {
        if loc.x < 0 || loc.y < 0 || loc.z < 0 || loc.x >= WIDTH as i32 || loc.y >= HEIGHT as i32
            || loc.z >= DEPTH as i32 {
            return;
        }
        self.blocks[loc.y as usize][loc.x as usize][loc.z as usize] = t;
    }
}

/// Saving a render chunk and loading the ids saved gives back every block,
/// where the registry gives each block of the saved render chunk for its
/// id.
pub proof fn law_load_after_save(
    saved: RenderChunk,
    ids: Seq<String>,
    loaded: RenderChunk,
    reg: Map<Seq<char>, BlockType>,
)
    requires
        saved.wf(),
        ids.len() == BLOCK_COUNT,
        forall|a: int, b: int, c: int|
            0 <= a < 16 && 0 <= b < 16 && 0 <= c < 16 ==> #[trigger] ids[cell_index(a, b, c)]@
                == saved.block(b, a, c).id@,
        loaded.loaded_from(reg, ids),
        forall|x: int, y: int, z: int|
            0 <= x < 16 && 0 <= y < 16 && 0 <= z < 16 ==> reg.contains_key(
                #[trigger] saved.block(x, y, z).id@,
            ) && reg[saved.block(x, y, z).id@] == saved.block(x, y, z),
    ensures
        forall|x: int, y: int, z: int|
            0 <= x < 16 && 0 <= y < 16 && 0 <= z < 16 ==> #[trigger] loaded.block(x, y, z)
                == saved.block(x, y, z),
{
    assert forall|x: int, y: int, z: int|
        0 <= x < 16 && 0 <= y < 16 && 0 <= z < 16 implies #[trigger] loaded.block(x, y, z)
            == saved.block(x, y, z) by {
        assert(ids[cell_index(y, x, z)]@ == saved.block(x, y, z).id@);
        assert(reg.contains_key(saved.block(x, y, z).id@));
    }
}

} // verus!
