use vstd::prelude::*;

use std::sync::Arc;

use crate::block::block_registry::BlockRegistry;
use crate::block::block_type::BlockType;
use crate::shared::share;
use crate::block::location::BlockLocation;
use crate::random::random_below;
use crate::world::chunk::chunk::{DEPTH, HEIGHT, WIDTH};

verus! {

/// How a biome fills a column of a freshly generated chunk.
#[derive(Clone, Copy, PartialEq, Eq, Structural, Debug)]
pub enum ChunkGenerator {
    /// Grass up to the terrain height.
    Basic,
    /// Sand up to the terrain height, now and then a log on top.
    Sand,
    /// Snow up to the terrain height.
    Snow,
}

/// The roll, out of 20, on which a sand column gets a log on top.
pub const LOG_ROLL: u32 = 19;

/// Whether `blocks` is a full column grid: 96 layers of 16 x 16 blocks,
/// indexed `[y][x][z]`.
pub open spec fn column_grid(blocks: Seq<Vec<Vec<Arc<BlockType>>>>) -> bool {
    &&& blocks.len() == HEIGHT
    &&& forall|y: int| 0 <= y < HEIGHT ==> #[trigger] blocks[y]@.len() == WIDTH
    &&& forall|y: int, x: int|
        0 <= y < HEIGHT && 0 <= x < WIDTH ==> #[trigger] blocks[y]@[x]@.len() == DEPTH
}

/// The block of a column grid at `(x, y, z)`.
pub open spec fn grid_block(blocks: Seq<Vec<Vec<Arc<BlockType>>>>, x: int, y: int, z: int) -> BlockType {
    *blocks[y]@[x]@[z]
}

impl ChunkGenerator {
    /// The id of the block the biome fills its columns with.
    pub open spec fn fill_id(self) -> Seq<char> {
        match self {
            ChunkGenerator::Basic => "grass"@,
            ChunkGenerator::Sand => "sand"@,
            ChunkGenerator::Snow => "snow"@,
        }
    }

    /// Whether the registry holds what this biome places.
    pub open spec fn can_fill(self, reg: Map<Seq<char>, BlockType>) -> bool {
        &&& reg.contains_key(self.fill_id())
        &&& self == ChunkGenerator::Sand ==> reg.contains_key("log"@)
    }

    /// Whether a column of this biome, filled to `height` with `roll` drawn,
    /// gets a log on top.
    pub open spec fn places_log(self, height: int, roll: u32) -> bool {
        self == ChunkGenerator::Sand && roll == LOG_ROLL && height >= 1
    }

    /// Whether filling to `height` stays inside the column for every roll.
    pub open spec fn height_fits(self, height: int) -> bool {
        &&& height <= HEIGHT
        &&& self == ChunkGenerator::Sand ==> height < HEIGHT
    }

    /// What a column of this biome holds at height `y` after filling, where
    /// it held `before`.
    pub open spec fn filled(
        self,
        reg: Map<Seq<char>, BlockType>,
        height: int,
        roll: u32,
        y: int,
        before: BlockType,
    ) -> BlockType {
        if 0 <= y < height {
            reg[self.fill_id()]
        } else if self.places_log(height, roll) && y == height {
            reg["log"@]
        } else {
            before
        }
    }

    /// Fills column `(x, z)` of `blocks_out` from the ground up to below
    /// `height` with the biome's block; a sand column whose `roll` is 19
    /// gets a log on top.
    pub fn fill_column(
        &self,
        block_registry: &BlockRegistry,
        height: i32,
        normal_block_loc: &BlockLocation,
        roll: u32,
        blocks_out: &mut Vec<Vec<Vec<Arc<BlockType>>>>,
    )
        requires
            block_registry.wf(),
            self.can_fill(block_registry.view()),
            column_grid(old(blocks_out)@),
            0 <= normal_block_loc.x < WIDTH,
            0 <= normal_block_loc.z < DEPTH,
            height <= HEIGHT,
            self.places_log(height as int, roll) ==> height < HEIGHT,
        ensures
            column_grid(final(blocks_out)@),
            forall|x: int, y: int, z: int|
                0 <= x < WIDTH && 0 <= y < HEIGHT && 0 <= z < DEPTH ==> #[trigger] grid_block(
                    final(blocks_out)@,
                    x,
                    y,
                    z,
                ) == if x == normal_block_loc.x && z == normal_block_loc.z {
                    self.filled(
                        block_registry.view(),
                        height as int,
                        roll,
                        y,
                        grid_block(old(blocks_out)@, x, y, z),
                    )
                } else {
                    grid_block(old(blocks_out)@, x, y, z)
                },
    {
        let t = match self {
            ChunkGenerator::Basic => block_registry.block("grass"),
            ChunkGenerator::Sand => block_registry.block("sand"),
            ChunkGenerator::Snow => block_registry.block("snow"),
        };
        let bx = normal_block_loc.x as usize;
        let bz = normal_block_loc.z as usize;
        let mut i: i32 = 0;
        while i < height
            invariant
                0 <= i,
                i <= height || i == 0,
                height <= HEIGHT,
                0 <= bx < WIDTH,
                0 <= bz < DEPTH,
                bx == normal_block_loc.x,
                bz == normal_block_loc.z,
                *t == block_registry.view()[self.fill_id()],
                column_grid(blocks_out@),
                forall|x: int, y: int, z: int|
                    0 <= x < WIDTH && 0 <= y < HEIGHT && 0 <= z < DEPTH ==> #[trigger] grid_block(
                        blocks_out@,
                        x,
                        y,
                        z,
                    ) == if x == bx && z == bz && y < i {
                        block_registry.view()[self.fill_id()]
                    } else {
                        grid_block(old(blocks_out)@, x, y, z)
                    },
            decreases height - i,
        {
            let ghost prev = blocks_out@;
            blocks_out[i as usize][bx][bz] = share(&t);
            proof {
                assert forall|x: int, y: int, z: int|
                    0 <= x < WIDTH && 0 <= y < HEIGHT && 0 <= z < DEPTH implies #[trigger] grid_block(
                        blocks_out@,
                        x,
                        y,
                        z,
                    ) == if x == bx && z == bz && y < i + 1 {
                        block_registry.view()[self.fill_id()]
                    } else {
                        grid_block(old(blocks_out)@, x, y, z)
                    } by {
                    if y == i && x == bx && z == bz {
                    } else {
                        assert(grid_block(blocks_out@, x, y, z) == grid_block(prev, x, y, z));
                    }
                }
            }
            i = i + 1;
        }
        let ghost after_loop = blocks_out@;
        assert(height > 0 ==> i == height);
        let placed = self.places_log_now(height, roll);
        if placed {
            let log = block_registry.block("log");
            blocks_out[height as usize][bx][bz] = log;
        }
        proof {
            assert forall|x: int, y: int, z: int|
                0 <= x < WIDTH && 0 <= y < HEIGHT && 0 <= z < DEPTH implies #[trigger] grid_block(
                    blocks_out@,
                    x,
                    y,
                    z,
                ) == if x == normal_block_loc.x && z == normal_block_loc.z {
                    self.filled(
                        block_registry.view(),
                        height as int,
                        roll,
                        y,
                        grid_block(old(blocks_out)@, x, y, z),
                    )
                } else {
                    grid_block(old(blocks_out)@, x, y, z)
                } by {
                assert(grid_block(after_loop, x, y, z) == if x == bx && z == bz && y < i {
                    block_registry.view()[self.fill_id()]
                } else {
                    grid_block(old(blocks_out)@, x, y, z)
                });
                if !(placed && y == height && x == bx && z == bz) {
                    assert(grid_block(blocks_out@, x, y, z) == grid_block(after_loop, x, y, z));
                    if x == bx && z == bz {
                        if 0 <= y < height {
                            assert(y < i);
                        } else {
                            assert(!(y < i));
                            assert(!(self.places_log(height as int, roll) && y == height));
                        }
                    }
                } else {
                    assert(grid_block(blocks_out@, x, y, z) == block_registry.view()["log"@]);
                }
            }
        }
    }

    /// Whether a log goes on top, computed.
    fn places_log_now(&self, height: i32, roll: u32) -> (r: bool)
        ensures
            r == self.places_log(height as int, roll),
    {
        match self {
            ChunkGenerator::Sand => roll == LOG_ROLL && height >= 1,
            _ => false,
        }
    }

    /// Fills column `(x, z)` of `blocks_out` as `fill_column` does; for a
    /// sand column with at least one block, the roll is drawn at random out
    /// of 20.
    pub fn generate_chunk_block(
        &self,
        block_registry: &BlockRegistry,
        height: i32,
        normal_block_loc: &BlockLocation,
        blocks_out: &mut Vec<Vec<Vec<Arc<BlockType>>>>,
    ) -> (roll: u32)
        requires
            block_registry.wf(),
            self.can_fill(block_registry.view()),
            column_grid(old(blocks_out)@),
            0 <= normal_block_loc.x < WIDTH,
            0 <= normal_block_loc.z < DEPTH,
            self.height_fits(height as int),
        ensures
            roll < 20,
            !(*self == ChunkGenerator::Sand && height >= 1) ==> roll == 0,
            column_grid(final(blocks_out)@),
            forall|x: int, y: int, z: int|
                0 <= x < WIDTH && 0 <= y < HEIGHT && 0 <= z < DEPTH ==> #[trigger] grid_block(
                    final(blocks_out)@,
                    x,
                    y,
                    z,
                ) == if x == normal_block_loc.x && z == normal_block_loc.z {
                    self.filled(
                        block_registry.view(),
                        height as int,
                        roll,
                        y,
                        grid_block(old(blocks_out)@, x, y, z),
                    )
                } else {
                    grid_block(old(blocks_out)@, x, y, z)
                },
    {
        let roll = match self {
            ChunkGenerator::Sand => if height >= 1 {
                random_below(20)
            } else {
                0
            },
            _ => 0,
        };
        self.fill_column(block_registry, height, normal_block_loc, roll, blocks_out);
        roll
    }
}

} // verus!
