use vstd::prelude::*;

use std::sync::Arc;

use crate::block::block_type::BlockType;
use crate::block::location::BlockLocation;
use crate::world::chunk::chunk::LAYERS;
use crate::world::chunk::chunk_handler::{
    column_of, has_chunk, mesh_shown, touched_by, ChunkHandler,
};
use crate::world::chunk::chunk_mesh::MeshData;
use crate::world::chunk::render_chunk::RenderChunkLocation;

verus! {

/// The world: its loaded chunk columns and the rules about them.
pub struct World {
    pub chunk_handler: ChunkHandler,
}

/// Whether `after` is `before` with `t` placed at `loc`, where `loc` lies
/// in a loaded column, and `r` holds the new meshes of the render chunks
/// the change shows in.
pub open spec fn block_placed(
    before: ChunkHandler,
    after: ChunkHandler,
    t: BlockType,
    loc: BlockLocation,
    r: Seq<(RenderChunkLocation, MeshData)>,
) -> bool {
    &&& after.wf()
    &&& forall|l: BlockLocation|
        #[trigger] after.block_at(l) == if l == loc && before.block_at(loc) is Some {
            Some(t)
        } else {
            before.block_at(l)
        }
    &&& after == (ChunkHandler { loaded_chunks: after.loaded_chunks, ..before })
    &&& !has_chunk(before.loaded_chunks@, column_of(loc)) ==> r.len() == 0 && after.loaded_chunks
        == before.loaded_chunks
    &&& has_chunk(before.loaded_chunks@, column_of(loc)) ==> {
        &&& r.map_values(|p: (RenderChunkLocation, MeshData)| p.0) == touched_by(loc)
        &&& forall|i: int|
            0 <= i < r.len() ==> mesh_shown(after.loaded_chunks@, #[trigger] r[i].0, r[i].1)
    }
}

/// What a read gives back after a write: after a block is placed, the
/// world reads it where it was placed, if a block was there to replace,
/// and reads every other location as before.
pub proof fn law_read_after_set(
    before: ChunkHandler,
    after: ChunkHandler,
    t: BlockType,
    loc: BlockLocation,
    r: Seq<(RenderChunkLocation, MeshData)>,
    l: BlockLocation,
)
    requires
        block_placed(before, after, t, loc, r),
    ensures
        before.block_at(loc) is Some ==> after.block_at(loc) == Some(t),
        before.block_at(loc) is None ==> after.block_at(loc) is None,
        l != loc ==> after.block_at(l) == before.block_at(l),
{
    assert(after.block_at(loc) == if before.block_at(loc) is Some {
        Some(t)
    } else {
        before.block_at(loc)
    });
    assert(after.block_at(l) == if l == loc && before.block_at(loc) is Some {
        Some(t)
    } else {
        before.block_at(l)
    });
}

impl World {
    pub open spec fn wf(self) -> bool {
        self.chunk_handler.wf()
    }

    /// A world with nothing loaded yet, seeing `chunk_distance` columns
    /// around the player.
    pub fn new(chunk_distance: i32) -> (r: World)
        ensures
            r.wf(),
            r.chunk_handler.loaded_chunks@.len() == 0,
            r.chunk_handler.draw_chunks@.len() == 0,
            r.chunk_handler.chunk_distance == chunk_distance,
            r.chunk_handler.seed < u32::MAX,
            !r.chunk_handler.has_generated_start,
            r.chunk_handler.generated_chunks_count == 0,
            r.chunk_handler.to_generate == 0,
    {
        World { chunk_handler: ChunkHandler::new(chunk_distance) }
    }

    /// Whether world `loc` is air; where its column is not loaded, it is.
    pub fn is_air(&self, loc: &BlockLocation) -> (r: bool)
        requires
            self.wf(),
        ensures
            r == self.chunk_handler.is_air_spec(*loc),
    {
        self.chunk_handler.is_air(loc)
    }

    /// The block at world `loc`, where its column is loaded.
    pub fn get_type(&self, loc: &BlockLocation) -> (r: Option<Arc<BlockType>>)
        requires
            self.wf(),
        ensures
            r matches Some(b) ==> self.chunk_handler.block_at(*loc) == Some(*b),
            r is None ==> self.chunk_handler.block_at(*loc) is None,
    {
        self.chunk_handler.get_type(loc)
    }

    /// Places `t` at world `loc` and gives back the new meshes of the
    /// render chunks the change shows in.
    pub fn set_block_at(&mut self, t: Arc<BlockType>, loc: &BlockLocation) -> (r: Vec<
        (RenderChunkLocation, MeshData),
    >)
        requires
            old(self).wf(),
            loc.steps_fit(),
            has_chunk(old(self).chunk_handler.loaded_chunks@, column_of(*loc)) ==> forall|i: int|
                0 <= i < 6 ==> has_chunk(
                    old(self).chunk_handler.loaded_chunks@,
                    column_of(#[trigger] loc.neighbours()[i]),
                ),
        ensures
            block_placed(old(self).chunk_handler, final(self).chunk_handler, *t, *loc, r@),
    {
        self.chunk_handler.set_block_at(t, loc)
    }

    /// What saving the world writes: for each loaded column, in order, the
    /// save data of its render chunks. The statistic counts the columns as
    /// written and marks the save finished.
    pub fn save(&self, world_saving_statistics: &mut WorldSavingStatistics) -> (r: Vec<
        Vec<(RenderChunkLocation, (i16, Vec<String>))>,
    >)
        requires
            self.wf(),
            old(world_saving_statistics).finished + self.chunk_handler.loaded_chunks@.len()
                <= i32::MAX,
        ensures
            r@.len() == self.chunk_handler.loaded_chunks@.len(),
            forall|i: int|
                0 <= i < r@.len() ==> {
                    let c = self.chunk_handler.loaded_chunks@[i];
                    &&& (#[trigger] r@[i])@.len() == LAYERS
                    &&& forall|j: int|
                        0 <= j < LAYERS ==> (#[trigger] r@[i]@[j]).0 == c.render_chunks@[j].location
                            && c.render_chunks@[j].saves_as(r@[i]@[j].1.0, r@[i]@[j].1.1@)
                },
            final(world_saving_statistics).max_chunks == self.chunk_handler.loaded_chunks@.len() as i32,
            final(world_saving_statistics).finished == old(world_saving_statistics).finished
                + self.chunk_handler.loaded_chunks@.len(),
            final(world_saving_statistics).has_finished,
    {
        let chunks = &self.chunk_handler.loaded_chunks;
        world_saving_statistics.max_chunks = chunks.len() as i32;
        let mut out: Vec<Vec<(RenderChunkLocation, (i16, Vec<String>))>> = Vec::new();
        let mut i: usize = 0;
        while i < chunks.len()
            invariant
                self.wf(),
                chunks == &self.chunk_handler.loaded_chunks,
                i <= chunks@.len(),
                out@.len() == i,
                world_saving_statistics.finished == old(world_saving_statistics).finished + i,
                world_saving_statistics.max_chunks == chunks@.len() as i32,
                old(world_saving_statistics).finished + chunks@.len() <= i32::MAX,
                forall|k: int|
                    0 <= k < i ==> {
                        let c = chunks@[k];
                        &&& (#[trigger] out@[k])@.len() == LAYERS
                        &&& forall|j: int|
                            0 <= j < LAYERS ==> (#[trigger] out@[k]@[j]).0
                                == c.render_chunks@[j].location && c.render_chunks@[j].saves_as(
                                out@[k]@[j].1.0,
                                out@[k]@[j].1.1@,
                            )
                    },
            decreases chunks@.len() - i,
        {
            assert(chunks@[i as int].wf());
            out.push(chunks[i].save_data());
            world_saving_statistics.finished = world_saving_statistics.finished + 1;
            i = i + 1;
        }
        world_saving_statistics.has_finished = true;
        out
    }
}

/// Progress of saving the world, shared with the saving screen.
pub struct WorldSavingStatistics {
    pub max_chunks: i32,
    pub finished: i32,
    pub has_finished: bool,
}

impl WorldSavingStatistics {
    pub fn new() -> (r: WorldSavingStatistics)
        ensures
            r.max_chunks == 0,
            r.finished == 0,
            !r.has_finished,
    {
        WorldSavingStatistics { max_chunks: 0, finished: 0, has_finished: false }
    }
}

} // verus!
