use vstd::prelude::*;

use std::sync::Arc;

use crate::block::block_registry::BlockRegistry;
use crate::block::block_type::BlockType;
use crate::shared::share;
use crate::block::location::{block_loc, BlockLocation};
use crate::world::chunk::chunk_handler::ChunkGroup;
use crate::world::chunk::chunk_mesh::{mesh_faces, mesh_fits, mesh_indices, ChunkMesh, MeshData};
use crate::world::chunk::generator::{column_grid, grid_block, ChunkGenerator, LOG_ROLL};
use crate::world::chunk::render_chunk::{
    all_registered, in_render_chunk, face_shows, law_load_after_save, RenderChunk, RenderChunkLocation,
    BLOCK_COUNT,
    HEIGHT as RC_HEIGHT,
};

verus! {

/// Width of a chunk column along x, in blocks.
pub const WIDTH: usize = 16;

/// Height of a chunk column along y, in blocks (six render chunks).
pub const HEIGHT: usize = 96;

/// Depth of a chunk column along z, in blocks.
pub const DEPTH: usize = 16;

/// Location of a chunk column, in chunk units.
#[derive(Clone, Copy, PartialEq, Eq, Structural, Debug, Hash)]
pub struct ChunkLocation {
    pub x: i32,
    pub z: i32,
}

impl ChunkLocation {
    pub fn equals(&self, other: &ChunkLocation) -> (r: bool)
        ensures
            r == (*self == *other),
    {
        self.x == other.x && self.z == other.z
    }

    pub fn new(x: i32, z: i32) -> (r: ChunkLocation)
        ensures
            r.x == x,
            r.z == z,
    {
        ChunkLocation { x, z }
    }

    /// The column one step along +z.
    pub fn north(&self) -> (r: ChunkLocation)
        requires
            self.z < i32::MAX,
        ensures
            r == (ChunkLocation { x: self.x, z: (self.z + 1) as i32 }),
    {
        ChunkLocation::new(self.x, self.z + 1)
    }

    /// The column one step along +x.
    pub fn east(&self) -> (r: ChunkLocation)
        requires
            self.x < i32::MAX,
        ensures
            r == (ChunkLocation { x: (self.x + 1) as i32, z: self.z }),
    {
        ChunkLocation::new(self.x + 1, self.z)
    }

    /// The column one step along -z.
    pub fn south(&self) -> (r: ChunkLocation)
        requires
            self.z > i32::MIN,
        ensures
            r == (ChunkLocation { x: self.x, z: (self.z - 1) as i32 }),
    {
        ChunkLocation::new(self.x, self.z - 1)
    }

    /// The column one step along -x.
    pub fn west(&self) -> (r: ChunkLocation)
        requires
            self.x > i32::MIN,
        ensures
            r == (ChunkLocation { x: (self.x - 1) as i32, z: self.z }),
    {
        ChunkLocation::new(self.x - 1, self.z)
    }

    /// Whether the world coordinates of the blocks of this column, and of
    /// their neighbours one step beside it, fit the coordinate type.
    pub open spec fn meshable(self) -> bool {
        &&& i32::MIN < self.x * WIDTH as int
        &&& self.x * WIDTH as int + WIDTH as int <= i32::MAX
        &&& i32::MIN < self.z * DEPTH as int
        &&& self.z * DEPTH as int + DEPTH as int <= i32::MAX
    }

    /// The four direct neighbours, in the order north, east, south, west.
    pub open spec fn surrounding(self) -> Seq<ChunkLocation> {
        seq![
            ChunkLocation { x: self.x, z: (self.z + 1) as i32 },
            ChunkLocation { x: (self.x + 1) as i32, z: self.z },
            ChunkLocation { x: self.x, z: (self.z - 1) as i32 },
            ChunkLocation { x: (self.x - 1) as i32, z: self.z },
        ]
    }

    pub open spec fn neighbours_fit(self) -> bool {
        i32::MIN < self.x < i32::MAX && i32::MIN < self.z < i32::MAX
    }

    pub fn get_surrounding_chunks(&self) -> (r: Vec<ChunkLocation>)
        requires
            self.neighbours_fit(),
        ensures
            r@ == self.surrounding(),
    {
        let v = vec![self.north(), self.east(), self.south(), self.west()];
        assert(v@ =~= self.surrounding());
        v
    }
}

/// Number of render chunks stacked in a column.
pub const LAYERS: usize = 6;

/// The render-chunk layer that holds height `y`: `y / 16` rounded toward
/// zero, as integer division does.
pub open spec fn layer_of(y: i32) -> int {
    if y >= 0 {
        y as int / RC_HEIGHT as int
    } else {
        -((-(y as int)) / RC_HEIGHT as int)
    }
}

/// Whether a column-relative location lies inside the column.
pub open spec fn in_column(l: BlockLocation) -> bool {
    0 <= l.x < WIDTH && 0 <= l.y < HEIGHT && 0 <= l.z < DEPTH
}


/// Whether `v` is a 16 x 16 table, indexed `[x][z]`.
pub open spec fn column_table<T>(v: Seq<Vec<T>>) -> bool {
    &&& v.len() == WIDTH
    &&& forall|x: int| 0 <= x < WIDTH ==> #[trigger] v[x]@.len() == DEPTH
}

/// What terrain generation puts at `(x, y, z)` of a column whose terrain
/// heights and biomes are given per `(x, z)`, with `roll` drawn for that
/// spot's column: the biome's fill below the height, possibly a log on top
/// of sand, air elsewhere.
pub open spec fn generated_block(
    reg: Map<Seq<char>, BlockType>,
    heights: Seq<Vec<i32>>,
    biomes: Seq<Vec<ChunkGenerator>>,
    roll: u32,
    x: int,
    y: int,
    z: int,
) -> BlockType {
    biomes[x]@[z].filled(reg, heights[x]@[z] as int, roll, y, reg["air"@])
}

/// Whether terrain can be generated from these heights and biomes.
pub open spec fn terrain_fits(
    reg: Map<Seq<char>, BlockType>,
    heights: Seq<Vec<i32>>,
    biomes: Seq<Vec<ChunkGenerator>>,
) -> bool {
    &&& reg.contains_key("air"@)
    &&& column_table(heights)
    &&& column_table(biomes)
    &&& forall|x: int, z: int|
        0 <= x < WIDTH && 0 <= z < DEPTH ==> {
            &&& (#[trigger] biomes[x]@[z]).can_fill(reg)
            &&& biomes[x]@[z].height_fits(heights[x]@[z] as int)
        }
}

/// A full column grid with `air` in every cell.
fn air_grid(air: &Arc<BlockType>) -> (r: Vec<Vec<Vec<Arc<BlockType>>>>)
    ensures
        column_grid(r@),
        forall|x: int, y: int, z: int|
            0 <= x < WIDTH && 0 <= y < HEIGHT && 0 <= z < DEPTH ==> #[trigger] grid_block(r@, x, y, z)
                == **air,
{
    let mut blocks: Vec<Vec<Vec<Arc<BlockType>>>> = Vec::new();
    let mut y: usize = 0;
    while y < HEIGHT
        invariant
            y <= HEIGHT,
            blocks@.len() == y,
            forall|i: int| 0 <= i < y ==> #[trigger] blocks@[i]@.len() == WIDTH,
            forall|i: int, j: int| 0 <= i < y && 0 <= j < WIDTH ==> #[trigger] blocks@[i]@[j]@.len() == DEPTH,
            forall|i: int, j: int, l: int|
                0 <= i < y && 0 <= j < WIDTH && 0 <= l < DEPTH ==> *#[trigger] blocks@[i]@[j]@[l] == **air,
        decreases HEIGHT - y,
    {
        let mut plane: Vec<Vec<Arc<BlockType>>> = Vec::new();
        let mut x: usize = 0;
        while x < WIDTH
            invariant
                x <= WIDTH,
                plane@.len() == x,
                forall|j: int| 0 <= j < x ==> #[trigger] plane@[j]@.len() == DEPTH,
                forall|j: int, l: int| 0 <= j < x && 0 <= l < DEPTH ==> *#[trigger] plane@[j]@[l] == **air,
            decreases WIDTH - x,
        {
            let mut row: Vec<Arc<BlockType>> = Vec::new();
            let mut z: usize = 0;
            while z < DEPTH
                invariant
                    z <= DEPTH,
                    row@.len() == z,
                    forall|l: int| 0 <= l < z ==> *#[trigger] row@[l] == **air,
                decreases DEPTH - z,
            {
                row.push(share(air));
                z = z + 1;
            }
            plane.push(row);
            x = x + 1;
        }
        blocks.push(plane);
        y = y + 1;
    }
    blocks
}

/// A column of blocks, 16 wide, 96 high and 16 deep, stored as six render
/// chunks stacked from y = 0 upward.
#[derive(Clone)]
pub struct Chunk {
    pub location: ChunkLocation,
    pub render_chunks: Vec<RenderChunk>,
    pub size: i32,
    pub biome_data: Vec<Vec<ChunkGenerator>>,
}

/// Saving a column and generating it again from what was saved gives back
/// every block, where the registry gives each block of the saved column
/// for its id.
pub proof fn law_column_load_after_save(
    saved: Chunk,
    ids: Seq<Seq<String>>,
    loaded: Chunk,
    reg: Map<Seq<char>, BlockType>,
)
    requires
        saved.wf(),
        loaded.wf(),
        ids.len() == LAYERS,
        forall|i: int|
            0 <= i < LAYERS ==> (#[trigger] saved.render_chunks@[i]).saves_as(
                BLOCK_COUNT as i16,
                ids[i],
            ) && loaded.render_chunks@[i].loaded_from(reg, ids[i]),
        forall|l: BlockLocation|
            #[trigger] in_column(l) ==> reg.contains_key(saved.block_at(l)->0.id@) && reg[saved.block_at(
                l,
            )->0.id@] == saved.block_at(l)->0,
    ensures
        forall|l: BlockLocation| #[trigger] loaded.block_at(l) == saved.block_at(l),
{
    assert forall|l: BlockLocation| #[trigger] loaded.block_at(l) == saved.block_at(l) by {
        if in_column(l) {
            let i = (l.y as int) / (RC_HEIGHT as int);
            let s = saved.render_chunks@[i];
            assert(s.saves_as(BLOCK_COUNT as i16, ids[i]));
            assert forall|x: int, y: int, z: int|
                0 <= x < 16 && 0 <= y < 16 && 0 <= z < 16 implies reg.contains_key(
                    #[trigger] s.block(x, y, z).id@,
                ) && reg[s.block(x, y, z).id@] == s.block(x, y, z) by {
                let m = block_loc(x, i * 16 + y, z);
                assert(in_column(m));
                assert(saved.block_at(m) == Some(s.block(x, y, z)));
            }
            law_load_after_save(s, ids[i], loaded.render_chunks@[i], reg);
        }
    }
}

impl Chunk {
    /// Six full render chunks, the i-th at layer i of this column.
    pub open spec fn wf(self) -> bool {
        &&& self.size == LAYERS
        &&& self.render_chunks@.len() == LAYERS
        &&& forall|i: int|
            0 <= i < LAYERS ==> {
                &&& (#[trigger] self.render_chunks@[i]).wf()
                &&& self.render_chunks@[i].location == RenderChunkLocation {
                    x: self.location.x,
                    y: i as i32,
                    z: self.location.z,
                }
            }
    }

    /// The block at column-relative `l`, if `l` lies inside the column.
    pub open spec fn block_at(self, l: BlockLocation) -> Option<BlockType> {
        if in_column(l) {
            Some(
                self.render_chunks@[(l.y as int) / (RC_HEIGHT as int)].block(
                    l.x as int,
                    (l.y as int) % (RC_HEIGHT as int),
                    l.z as int,
                ),
            )
        } else {
            None
        }
    }

    /// True where a solid block stands at `l`; false for air and outside.
    pub open spec fn is_air_spec(self, l: BlockLocation) -> bool {
        match self.block_at(l) {
            Some(b) => !b.is_air,
            None => false,
        }
    }

    /// Whether a face of a block of type `t` towards `l` is seen.
    pub open spec fn transparent_and_self_spec(self, t: BlockType, l: BlockLocation) -> bool {
        match self.block_at(l) {
            Some(a) => face_shows(a, t),
            None => true,
        }
    }

    /// The layer of `l` within range and the coordinates relative to it:
    /// what looking up through a render chunk sees.
    pub proof fn lemma_lookup(&self, l: BlockLocation)
        requires
            self.wf(),
        ensures
            0 <= layer_of(l.y) < LAYERS ==> self.render_chunks@[layer_of(l.y)].block_at(
                l.render_chunk_values_spec(layer_of(l.y) as i32),
            ) == self.block_at(l),
    {
        if 0 <= layer_of(l.y) < LAYERS {
            let k = layer_of(l.y);
            let m = l.render_chunk_values_spec(k as i32);
            if l.y < 0 {
                assert(k == 0);
                assert(m.y == l.y);
            } else {
                assert(m.y == (l.y as int) % (RC_HEIGHT as int));
            }
        }
    }


    /// Generates the blocks of a column from terrain heights and biomes
    /// given per `(x, z)`: air everywhere, then each column filled by its
    /// biome. Sand columns draw a roll out of 20 for a log on top.
    pub fn generate_blocks(
        block_registry: &BlockRegistry,
        heights: &Vec<Vec<i32>>,
        biomes: &Vec<Vec<ChunkGenerator>>,
    ) -> (r: Vec<Vec<Vec<Arc<BlockType>>>>)
        requires
            block_registry.wf(),
            terrain_fits(block_registry.view(), heights@, biomes@),
        ensures
            column_grid(r@),
            forall|x: int, y: int, z: int|
                0 <= x < WIDTH && 0 <= y < HEIGHT && 0 <= z < DEPTH ==> {
                    ||| #[trigger] grid_block(r@, x, y, z) == generated_block(
                        block_registry.view(),
                        heights@,
                        biomes@,
                        0,
                        x,
                        y,
                        z,
                    )
                    ||| grid_block(r@, x, y, z) == generated_block(
                        block_registry.view(),
                        heights@,
                        biomes@,
                        LOG_ROLL,
                        x,
                        y,
                        z,
                    )
                },
    {
        let ghost reg = block_registry.view();
        let air = block_registry.block("air");
        let mut blocks = air_grid(&air);
        let mut x: usize = 0;
        while x < WIDTH
            invariant
                x <= WIDTH,
                block_registry.wf(),
                reg == block_registry.view(),
                terrain_fits(reg, heights@, biomes@),
                *air == reg["air"@],
                column_grid(blocks@),
                forall|i: int, y: int, l: int|
                    0 <= i < WIDTH && 0 <= y < HEIGHT && 0 <= l < DEPTH ==> {
                        ||| i < x && #[trigger] grid_block(blocks@, i, y, l) == generated_block(
                            reg,
                            heights@,
                            biomes@,
                            0,
                            i,
                            y,
                            l,
                        )
                        ||| i < x && grid_block(blocks@, i, y, l) == generated_block(
                            reg,
                            heights@,
                            biomes@,
                            LOG_ROLL,
                            i,
                            y,
                            l,
                        )
                        ||| i >= x && grid_block(blocks@, i, y, l) == reg["air"@]
                    },
            decreases WIDTH - x,
        {
            let mut z: usize = 0;
            while z < DEPTH
                invariant
                    x < WIDTH,
                    z <= DEPTH,
                    block_registry.wf(),
                    reg == block_registry.view(),
                    terrain_fits(reg, heights@, biomes@),
                    column_grid(blocks@),
                    forall|i: int, y: int, l: int|
                        0 <= i < WIDTH && 0 <= y < HEIGHT && 0 <= l < DEPTH ==> {
                            ||| (i < x || i == x && l < z) && #[trigger] grid_block(blocks@, i, y, l)
                                == generated_block(reg, heights@, biomes@, 0, i, y, l)
                            ||| (i < x || i == x && l < z) && grid_block(blocks@, i, y, l)
                                == generated_block(reg, heights@, biomes@, LOG_ROLL, i, y, l)
                            ||| !(i < x || i == x && l < z) && grid_block(blocks@, i, y, l)
                                == reg["air"@]
                        },
                decreases DEPTH - z,
            {
                let normal_block_loc = BlockLocation::new_from(x as i32, 0, z as i32);
                let g = biomes[x][z];
                let h = heights[x][z];
                let ghost before = blocks@;
                let roll = g.generate_chunk_block(block_registry, h, &normal_block_loc, &mut blocks);
                proof {
                    assert forall|i: int, y: int, l: int|
                        0 <= i < WIDTH && 0 <= y < HEIGHT && 0 <= l < DEPTH implies {
                            ||| (i < x || i == x && l < z + 1) && #[trigger] grid_block(blocks@, i, y, l)
                                == generated_block(reg, heights@, biomes@, 0, i, y, l)
                            ||| (i < x || i == x && l < z + 1) && grid_block(blocks@, i, y, l)
                                == generated_block(reg, heights@, biomes@, LOG_ROLL, i, y, l)
                            ||| !(i < x || i == x && l < z + 1) && grid_block(blocks@, i, y, l)
                                == reg["air"@]
                        } by {
                        if i == x && l == z {
                            assert(grid_block(before, i, y, l) == reg["air"@]);
                            if roll == LOG_ROLL {
                                assert(grid_block(blocks@, i, y, l) == generated_block(
                                    reg, heights@, biomes@, LOG_ROLL, i, y, l));
                            } else {
                                assert(grid_block(blocks@, i, y, l) == generated_block(
                                    reg, heights@, biomes@, 0, i, y, l));
                            }
                        } else {
                            assert(grid_block(blocks@, i, y, l) == grid_block(before, i, y, l));
                        }
                    }
                }
                z = z + 1;
            }
            x = x + 1;
        }
        blocks
    }

    /// Splits a generated column into six render chunks, loading instead
    /// each layer for which `saved` holds the ids of a render chunk saved
    /// before.
    pub fn new(
        location: ChunkLocation,
        block_registry: &BlockRegistry,
        heights: &Vec<Vec<i32>>,
        biomes: &Vec<Vec<ChunkGenerator>>,
        saved: &Vec<Option<Vec<String>>>,
    ) -> (r: Chunk)
        requires
            block_registry.wf(),
            terrain_fits(block_registry.view(), heights@, biomes@),
            saved@.len() == LAYERS,
            forall|i: int|
                0 <= i < LAYERS ==> (#[trigger] saved@[i] matches Some(ids) ==> ids@.len()
                    == BLOCK_COUNT && all_registered(block_registry.view(), ids@)),
        ensures
            r.wf(),
            r.location == location,
            r.biome_data@.len() == WIDTH,
            forall|x: int| 0 <= x < WIDTH ==> (#[trigger] r.biome_data@[x])@ == biomes@[x]@,
            forall|i: int|
                0 <= i < LAYERS ==> (#[trigger] saved@[i] matches Some(ids) ==> r.render_chunks@[i].loaded_from(
                    block_registry.view(),
                    ids@,
                )),
            forall|x: int, y: int, z: int|
                0 <= x < WIDTH && 0 <= y < HEIGHT && 0 <= z < DEPTH && saved@[y / 16] is None ==> {
                    ||| #[trigger] r.block_at(block_loc(x, y, z)) == Some(generated_block(
                        block_registry.view(),
                        heights@,
                        biomes@,
                        0,
                        x,
                        y,
                        z,
                    ))
                    ||| r.block_at(block_loc(x, y, z)) == Some(generated_block(
                        block_registry.view(),
                        heights@,
                        biomes@,
                        LOG_ROLL,
                        x,
                        y,
                        z,
                    ))
                },
    {
        let ghost reg = block_registry.view();
        let mut blocks = Chunk::generate_blocks(block_registry, heights, biomes);
        let ghost generated = blocks@;
        let mut render_chunks: Vec<RenderChunk> = Vec::new();
        let mut y: usize = 0;
        while y < LAYERS
            invariant
                y <= LAYERS,
                block_registry.wf(),
                reg == block_registry.view(),
                saved@.len() == LAYERS,
                forall|i: int|
                    0 <= i < LAYERS ==> (#[trigger] saved@[i] matches Some(ids) ==> ids@.len()
                        == BLOCK_COUNT && all_registered(reg, ids@)),
                column_grid(generated),
                blocks@ == generated.subrange(16 * y as int, HEIGHT as int),
                render_chunks@.len() == y,
                forall|i: int|
                    0 <= i < y ==> {
                        &&& (#[trigger] render_chunks@[i]).wf()
                        &&& render_chunks@[i].location == RenderChunkLocation {
                            x: location.x,
                            y: i as i32,
                            z: location.z,
                        }
                        &&& saved@[i] matches Some(ids) ==> render_chunks@[i].loaded_from(reg, ids@)
                        &&& saved@[i] is None ==> render_chunks@[i].blocks@ == generated.subrange(
                            16 * i,
                            16 * i + 16,
                        )
                    },
            decreases LAYERS - y,
        {
            let rest = blocks.split_off(16);
            let rc = RenderChunk::new(
                blocks,
                RenderChunkLocation::new(location.x, y as i32, location.z),
                block_registry,
                &saved[y],
            );
            proof {
                if saved@[y as int] is None {
                    assert forall|a: int| 0 <= a < 16 implies #[trigger] rc.blocks@[a]@.len() == 16 by {
                        assert(rc.blocks@[a] == generated[16 * y + a]);
                    }
                    assert forall|a: int, b: int| 0 <= a < 16 && 0 <= b < 16 implies #[trigger] rc.blocks@[a]@[b]@.len() == 16 by {
                        assert(rc.blocks@[a] == generated[16 * y + a]);
                    }
                }
            }
            render_chunks.push(rc);
            blocks = rest;
            y = y + 1;
        }
        let mut biome_data: Vec<Vec<ChunkGenerator>> = Vec::new();
        let mut x: usize = 0;
        while x < WIDTH
            invariant
                x <= WIDTH,
                column_table(biomes@),
                biome_data@.len() == x,
                forall|i: int| 0 <= i < x ==> (#[trigger] biome_data@[i])@ == biomes@[i]@,
            decreases WIDTH - x,
        {
            let mut row: Vec<ChunkGenerator> = Vec::new();
            let mut z: usize = 0;
            while z < DEPTH
                invariant
                    x < WIDTH,
                    z <= DEPTH,
                    column_table(biomes@),
                    row@ == biomes@[x as int]@.take(z as int),
                decreases DEPTH - z,
            {
                row.push(biomes[x][z]);
                z = z + 1;
            }
            assert(row@ =~= biomes@[x as int]@);
            biome_data.push(row);
            x = x + 1;
        }
        let c = Chunk { location, render_chunks, size: LAYERS as i32, biome_data };
        proof {
            assert forall|x: int, y: int, z: int|
                0 <= x < WIDTH && 0 <= y < HEIGHT && 0 <= z < DEPTH && saved@[y / 16] is None implies {
                    ||| #[trigger] c.block_at(block_loc(x, y, z)) == Some(generated_block(reg, heights@, biomes@, 0, x, y, z))
                    ||| c.block_at(block_loc(x, y, z)) == Some(generated_block(reg, heights@, biomes@, LOG_ROLL, x, y, z))
                } by {
                let k = y / 16;
                assert(c.render_chunks@[k].blocks@ == generated.subrange(16 * k, 16 * k + 16));
                assert(c.render_chunks@[k].block(x, y % 16, z) == grid_block(generated, x, y, z));
            }
        }
        c
    }


    /// The mesh of each render chunk, bottom to top, with its location.
    pub fn generate_meshes(&self, group: &ChunkGroup) -> (r: Vec<(RenderChunkLocation, MeshData)>)
        requires
            self.wf(),
            self.location.meshable(),
            group.wf(),
        ensures
            r@.len() == LAYERS,
            forall|i: int|
                0 <= i < LAYERS ==> {
                    &&& (#[trigger] r@[i]).0 == self.render_chunks@[i].location
                    &&& r@[i].1.faces@ == mesh_faces(self, &self.render_chunks@[i], group)
                    &&& r@[i].1.indecies@ == mesh_indices(r@[i].1.faces@.len())
                },
    {
        let mut meshes: Vec<(RenderChunkLocation, MeshData)> = Vec::new();
        let mut i: usize = 0;
        while i < self.render_chunks.len()
            invariant
                self.wf(),
                self.location.meshable(),
                group.wf(),
                i <= LAYERS,
                meshes@.len() == i,
                forall|k: int|
                    0 <= k < i ==> {
                        &&& (#[trigger] meshes@[k]).0 == self.render_chunks@[k].location
                        &&& meshes@[k].1.faces@ == mesh_faces(self, &self.render_chunks@[k], group)
                        &&& meshes@[k].1.indecies@ == mesh_indices(meshes@[k].1.faces@.len())
                    },
            decreases LAYERS - i,
        {
            let c = &self.render_chunks[i];
            assert(mesh_fits(self, c));
            meshes.push((c.location, ChunkMesh::new_data(self, c, group)));
            i = i + 1;
        }
        meshes
    }

    /// What saving the column writes, render chunk by render chunk from
    /// the bottom: each one's location, number of blocks and block ids.
    pub fn save_data(&self) -> (r: Vec<(RenderChunkLocation, (i16, Vec<String>))>)
        requires
            self.wf(),
        ensures
            r@.len() == LAYERS,
            forall|i: int|
                0 <= i < LAYERS ==> (#[trigger] r@[i]).0 == self.render_chunks@[i].location
                    && self.render_chunks@[i].saves_as(r@[i].1.0, r@[i].1.1@),
    {
        let mut out: Vec<(RenderChunkLocation, (i16, Vec<String>))> = Vec::new();
        let mut i: usize = 0;
        while i < self.render_chunks.len()
            invariant
                self.wf(),
                i <= LAYERS,
                out@.len() == i,
                forall|k: int|
                    0 <= k < i ==> (#[trigger] out@[k]).0 == self.render_chunks@[k].location
                        && self.render_chunks@[k].saves_as(out@[k].1.0, out@[k].1.1@),
            decreases LAYERS - i,
        {
            let c = &self.render_chunks[i];
            out.push((c.location, c.save_data()));
            i = i + 1;
        }
        out
    }

    pub fn get_render_chunk_for_loc(&self, loc: &BlockLocation) -> (r: Option<&RenderChunk>)
        requires
            self.wf(),
        ensures
            0 <= layer_of(loc.y) < LAYERS ==> r == Some(&self.render_chunks@[layer_of(loc.y)]),
            !(0 <= layer_of(loc.y) < LAYERS) ==> r is None,
    {
        let y = loc.y / RC_HEIGHT as i32;
        if y <= self.size - 1 && y > -1 {
            Some(&self.render_chunks[y as usize])
        } else {
            None
        }
    }


    pub fn get_render_chunk_for_loc_mut(&mut self, loc: &BlockLocation) -> (r: Option<
        &mut RenderChunk,
    >)
        requires
            old(self).wf(),
        ensures
            0 <= layer_of(loc.y) < LAYERS ==> (r matches Some(c) && *c
                == old(self).render_chunks@[layer_of(loc.y)] && final(self).render_chunks@
                == old(self).render_chunks@.update(layer_of(loc.y), *final(c))),
            !(0 <= layer_of(loc.y) < LAYERS) ==> r is None && final(self).render_chunks
                == old(self).render_chunks,
            final(self).location == old(self).location,
            final(self).size == old(self).size,
            final(self).biome_data == old(self).biome_data,
    {
        let y = loc.y / RC_HEIGHT as i32;
        if y <= self.size - 1 && y > -1 {
            Some(&mut self.render_chunks[y as usize])
        } else {
            None
        }
    }

    /// The render chunk at `loc`'s layer, where the layer is not above the
    /// column; a negative layer is left out, as indexing with it fails.
    pub fn get_render_chunk_mut(&mut self, loc: &RenderChunkLocation) -> (r: Option<
        &mut RenderChunk,
    >)
        requires
            old(self).wf(),
            loc.y < LAYERS ==> 0 <= loc.y,
        ensures
            loc.y < LAYERS ==> (r matches Some(c) && *c == old(self).render_chunks@[loc.y as int]
                && final(self).render_chunks@ == old(self).render_chunks@.update(
                loc.y as int,
                *final(c),
            )),
            loc.y >= LAYERS ==> r is None && final(self).render_chunks == old(self).render_chunks,
            final(self).location == old(self).location,
            final(self).size == old(self).size,
            final(self).biome_data == old(self).biome_data,
    {
        if loc.y <= self.size - 1 {
            return Some(&mut self.render_chunks[loc.y as usize]);
        }
        None
    }

    /// Places `t` at column-relative `loc`; a location outside the column
    /// changes nothing.
    pub fn set_block_at(&mut self, t: Arc<BlockType>, loc: &BlockLocation)
        requires
            old(self).wf(),
        ensures
            final(self).wf(),
            final(self).location == old(self).location,
            final(self).biome_data == old(self).biome_data,
            forall|l: BlockLocation|
                #[trigger] final(self).block_at(l) == if l == *loc && in_column(*loc) {
                    Some(*t)
                } else {
                    old(self).block_at(l)
                },
    {
        proof {
            old(self).lemma_lookup(*loc);
        }
        let ghost k = layer_of(loc.y);
        let c = self.get_render_chunk_for_loc_mut(loc);
        match c {
            Some(c) => {
                let l = loc.get_render_chunk_values(c);
                c.set_block_at(t, &l);
            },
            None => {},
        }
        proof {
            assert forall|l: BlockLocation|
                #[trigger] self.block_at(l) == if l == *loc && in_column(*loc) {
                    Some(*t)
                } else {
                    old(self).block_at(l)
                } by {
                if in_column(l) && 0 <= k < LAYERS {
                    let lk = (l.y as int) / (RC_HEIGHT as int);
                    let m = block_loc(l.x as int, (l.y as int) % (RC_HEIGHT as int), l.z as int);
                    assert(self.render_chunks@[lk].block_at(m) == Some(self.block_at(l)->0));
                    assert(old(self).render_chunks@[lk].block_at(m) == Some(old(self).block_at(l)->0));
                }
            }
        }
    }

    pub fn is_surrounded_by_solid(&self, loc: &BlockLocation) -> (r: bool)
        requires
            self.wf(),
            loc.steps_fit(),
        ensures
            r == (forall|i: int| 0 <= i < 6 ==> self.is_air_spec(#[trigger] loc.neighbours()[i])),
    {
        let r = self.is_air(&loc.up()) && self.is_air(&loc.down()) && self.is_air(&loc.north())
            && self.is_air(&loc.east()) && self.is_air(&loc.south()) && self.is_air(&loc.west());
        assert(r == (forall|i: int| 0 <= i < 6 ==> self.is_air_spec(#[trigger] loc.neighbours()[i]))) by {
            let n = loc.neighbours();
            assert(n[0] == loc.up_spec() && n[1] == loc.down_spec() && n[2] == loc.north_spec());
            assert(n[3] == loc.west_spec() && n[4] == loc.south_spec() && n[5] == loc.east_spec());
        }
        r
    }

    pub fn is_air(&self, loc: &BlockLocation) -> (r: bool)
        requires
            self.wf(),
        ensures
            r == self.is_air_spec(*loc),
    {
        proof {
            self.lemma_lookup(*loc);
        }
        match self.get_render_chunk_for_loc(loc) {
            Some(c) => {
                let l = loc.get_render_chunk_values(c);
                c.is_air(&l)
            },
            None => false,
        }
    }

    pub fn is_transparent_and_self(&self, t: Arc<BlockType>, loc: &BlockLocation) -> (r: bool)
        requires
            self.wf(),
        ensures
            r == self.transparent_and_self_spec(*t, *loc),
    {
        proof {
            self.lemma_lookup(*loc);
        }
        match self.get_render_chunk_for_loc(loc) {
            Some(c) => {
                let l = loc.get_render_chunk_values(c);
                c.is_transparent_and_self(t, &l)
            },
            None => true,
        }
    }

    /// Looks the block at `loc` up without a bounds check of its own and
    /// answers false whatever it finds.
    pub fn is_air_unsafe(&self, loc: &BlockLocation) -> (r: bool)
        requires
            self.wf(),
            0 <= layer_of(loc.y) < LAYERS ==> in_render_chunk(
                loc.render_chunk_values_spec(layer_of(loc.y) as i32),
            ),
        ensures
            !r,
    {
        match self.get_render_chunk_for_loc(loc) {
            Some(c) => {
                let l = loc.get_render_chunk_values(c);
                c.is_air_unsafe(&l);
            },
            None => {},
        }
        false
    }

    /// True when no solid block stands at any height from `loc.y + 1` up to
    /// the top of the column.
    pub fn is_no_block_above(&self, loc: &BlockLocation) -> (r: bool)
        requires
            self.wf(),
        ensures
            r == (forall|y: int|
                loc.y < y <= HEIGHT ==> !#[trigger] self.is_air_spec(BlockLocation { y: y as i32, ..*loc })),
    {
        let mut y = loc.y;
        while y < HEIGHT as i32
            invariant
                self.wf(),
                loc.y <= y,
                forall|k: int|
                    loc.y < k <= y ==> !#[trigger] self.is_air_spec(BlockLocation { y: k as i32, ..*loc }),
            decreases HEIGHT - y,
        {
            if self.is_air(&BlockLocation::new_from(loc.x, y + 1, loc.z)) {
                let ghost k: int = y + 1;
                assert(loc.y < k <= HEIGHT);
                assert(self.is_air_spec(BlockLocation { y: k as i32, ..*loc }));
                return false;
            }
            y = y + 1;
        }
        true
    }

    pub fn block_exists_in_chunk(&self, loc: &BlockLocation) -> (r: bool)
        requires
            self.wf(),
        ensures
            r == (self.block_at(*loc) is Some),
    {
        proof {
            self.lemma_lookup(*loc);
        }
        match self.get_render_chunk_for_loc(loc) {
            Some(c) => {
                let l = loc.get_render_chunk_values(c);
                c.block_exists_in_chunk(&l)
            },
            None => false,
        }
    }

    pub fn get_block_at(&self, loc: &BlockLocation) -> (r: Option<Arc<BlockType>>)
        requires
            self.wf(),
        ensures
            r matches Some(b) ==> self.block_at(*loc) == Some(*b),
            r is None ==> self.block_at(*loc) is None,
    {
        proof {
            self.lemma_lookup(*loc);
        }
        match self.get_render_chunk_for_loc(loc) {
            Some(c) => {
                let l = loc.get_render_chunk_values(c);
                c.get_block_at(&l)
            },
            None => None,
        }
    }
}

} // verus!
