use vstd::prelude::*;

use std::sync::Arc;

use crate::block::block_type::BlockType;
use crate::shared::share;
use crate::block::texture_coords::{TexTile, TextureCoords};

verus! {

/// All known block types, found by their id; no id occurs twice.
pub struct BlockRegistry {
    pub blocks: Vec<Arc<BlockType>>,
}

/// Whether `b` is the block type named `id` with the given textures and
/// flags, all blocks of the game using the default cube model.
pub open spec fn defines(
    b: BlockType,
    id: Seq<char>,
    tex: TextureCoords,
    is_air: bool,
    is_transparent: bool,
) -> bool {
    &&& b.id@ == id
    &&& b.tex_coords == tex
    &&& b.is_air == is_air
    &&& b.is_transparent == is_transparent
    &&& b.is_default_model
}

/// The tile at `column` of the atlas's first row.
pub open spec fn tile(column: u32) -> TexTile {
    TexTile::At { column, row: 0 }
}

/// The registry that registering `types` one after another into `m` gives.
pub open spec fn registered(m: Map<Seq<char>, BlockType>, types: Seq<BlockType>) -> Map<
    Seq<char>,
    BlockType,
>
    decreases types.len(),
{
    if types.len() == 0 {
        m
    } else {
        registered(m, types.drop_last()).insert(types.last().id@, types.last())
    }
}

/// The last type registered under an id is the one the id gives.
pub proof fn lemma_registered_last(m: Map<Seq<char>, BlockType>, types: Seq<BlockType>, i: int)
    requires
        0 <= i < types.len(),
        forall|j: int| i < j < types.len() ==> (#[trigger] types[j]).id@ != types[i].id@,
    ensures
        registered(m, types).contains_key(types[i].id@),
        registered(m, types)[types[i].id@] == types[i],
    decreases types.len(),
{
    if i < types.len() - 1 {
        lemma_registered_last(m, types.drop_last(), i);
    }
}

/// Registering adds exactly the ids of the registered types.
pub proof fn lemma_registered_dom(m: Map<Seq<char>, BlockType>, types: Seq<BlockType>, k: Seq<char>)
    ensures
        registered(m, types).contains_key(k) <==> m.contains_key(k) || exists|j: int|
            0 <= j < types.len() && (#[trigger] types[j]).id@ == k,
    decreases types.len(),
{
    if types.len() > 0 {
        let d = types.drop_last();
        lemma_registered_dom(m, d, k);
        if exists|j: int| 0 <= j < types.len() && (#[trigger] types[j]).id@ == k {
            let j = choose|j: int| 0 <= j < types.len() && (#[trigger] types[j]).id@ == k;
            if j < types.len() - 1 {
                assert(d[j].id@ == k);
            }
        }
        if exists|j: int| 0 <= j < d.len() && (#[trigger] d[j]).id@ == k {
            let j = choose|j: int| 0 <= j < d.len() && (#[trigger] d[j]).id@ == k;
            assert(types[j].id@ == k);
        }
    }
}

/// Registering leaves the entries of ids not registered as they were.
pub proof fn lemma_registered_other(m: Map<Seq<char>, BlockType>, types: Seq<BlockType>, k: Seq<char>)
    requires
        forall|j: int| 0 <= j < types.len() ==> (#[trigger] types[j]).id@ != k,
    ensures
        registered(m, types).contains_key(k) == m.contains_key(k),
        registered(m, types)[k] == m[k],
    decreases types.len(),
{
    if types.len() > 0 {
        lemma_registered_other(m, types.drop_last(), k);
    }
}

/// Looking up a block type by its id after registering it gives it back;
/// other ids keep what they had.
pub proof fn law_register_then_get(before: BlockRegistry, after: BlockRegistry, t: BlockType, id: Seq<char>)
    requires
        after.view() == before.view().insert(t.id@, t),
    ensures
        after.view().contains_key(t.id@),
        after.view()[t.id@] == t,
        id != t.id@ ==> after.view().contains_key(id) == before.view().contains_key(id),
        id != t.id@ ==> after.view()[id] == before.view()[id],
{
}

impl BlockRegistry {
    pub open spec fn wf(self) -> bool {
        forall|i: int, j: int|
            0 <= i < j < self.blocks@.len() ==> (#[trigger] self.blocks@[i]).id@
                != (#[trigger] self.blocks@[j]).id@
    }

    pub open spec fn has(self, id: Seq<char>) -> bool {
        exists|i: int| 0 <= i < self.blocks@.len() && (#[trigger] self.blocks@[i]).id@ == id
    }

    /// The registry as a map from ids to block types.
    pub open spec fn view(self) -> Map<Seq<char>, BlockType> {
        Map::new(
            |id: Seq<char>| self.has(id),
            |id: Seq<char>|
                *self.blocks@[choose|i: int|
                    0 <= i < self.blocks@.len() && (#[trigger] self.blocks@[i]).id@ == id],
        )
    }

    /// The entry at index `i` is what the map gives for its id.
    pub proof fn lemma_view_at(self, i: int)
        requires
            self.wf(),
            0 <= i < self.blocks@.len(),
        ensures
            self.view().contains_key(self.blocks@[i].id@),
            self.view()[self.blocks@[i].id@] == *self.blocks@[i],
    {
        let id = self.blocks@[i].id@;
        assert(self.has(id));
        let j = choose|j: int| 0 <= j < self.blocks@.len() && (#[trigger] self.blocks@[j]).id@ == id;
        if i < j {
            assert(self.blocks@[i].id@ != self.blocks@[j].id@);
        } else if j < i {
            assert(self.blocks@[j].id@ != self.blocks@[i].id@);
        }
    }

    pub fn new() -> (r: BlockRegistry)
        ensures
            r.wf(),
            r.view() == Map::<Seq<char>, BlockType>::empty(),
    {
        let r = BlockRegistry { blocks: Vec::new() };
        assert(r.view() =~= Map::<Seq<char>, BlockType>::empty());
        r
    }

    /// The index of the entry named `id`.
    fn find(&self, id: &String) -> (r: Option<usize>)
        requires
            self.wf(),
        ensures
            r matches Some(i) ==> i < self.blocks@.len() && self.blocks@[i as int].id@ == id@,
            r is None ==> !self.has(id@),
    {
        let mut i: usize = 0;
        while i < self.blocks.len()
            invariant
                i <= self.blocks@.len(),
                forall|k: int| 0 <= k < i ==> (#[trigger] self.blocks@[k]).id@ != id@,
            decreases self.blocks@.len() - i,
        {
            if self.blocks[i].id == *id {
                return Some(i);
            }
            i = i + 1;
        }
        None
    }

    /// Adds `block_type` under its id, in place of any type of that id.
    pub fn register_type(&mut self, block_type: BlockType)
        requires
            old(self).wf(),
        ensures
            final(self).wf(),
            final(self).view() == old(self).view().insert(block_type.id@, block_type),
    {
        let ghost b = block_type;
        let id = block_type.id.clone();
        let found = self.find(&id);
        match found {
            Some(i) => {
                self.blocks.set(i, Arc::new(block_type));
                proof {
                    assert forall|a: int, c: int|
                        0 <= a < c < self.blocks@.len() implies (#[trigger] self.blocks@[a]).id@
                        != (#[trigger] self.blocks@[c]).id@ by {
                        assert(old(self).blocks@[a].id@ != old(self).blocks@[c].id@);
                    }
                    self.lemma_view_at(i as int);
                    assert forall|k: Seq<char>| #[trigger] self.has(k) == old(self).view().insert(b.id@, b).contains_key(k) by {
                        if self.has(k) {
                            let j = choose|j: int| 0 <= j < self.blocks@.len() && (#[trigger] self.blocks@[j]).id@ == k;
                            if j != i {
                                assert(old(self).blocks@[j].id@ == k);
                            }
                        }
                        if old(self).has(k) {
                            let j = choose|j: int| 0 <= j < old(self).blocks@.len() && (#[trigger] old(self).blocks@[j]).id@ == k;
                            assert(self.blocks@[j].id@ == k);
                        }
                    }
                    assert forall|k: Seq<char>| #[trigger] self.has(k) && k != b.id@ implies self.view()[k] == old(self).view()[k] by {
                        let j = choose|j: int| 0 <= j < self.blocks@.len() && (#[trigger] self.blocks@[j]).id@ == k;
                        self.lemma_view_at(j);
                        old(self).lemma_view_at(j);
                    }
                    assert(self.view() =~= old(self).view().insert(b.id@, b));
                }
            },
            None => {
                self.blocks.push(Arc::new(block_type));
                proof {
                    let n = old(self).blocks@.len() as int;
                    assert forall|a: int, c: int|
                        0 <= a < c < self.blocks@.len() implies (#[trigger] self.blocks@[a]).id@
                        != (#[trigger] self.blocks@[c]).id@ by {
                        if c == n {
                            assert(old(self).blocks@[a].id@ != b.id@);
                        } else {
                            assert(old(self).blocks@[a].id@ != old(self).blocks@[c].id@);
                        }
                    }
                    self.lemma_view_at(n);
                    assert forall|k: Seq<char>| #[trigger] self.has(k) == old(self).view().insert(b.id@, b).contains_key(k) by {
                        if self.has(k) {
                            let j = choose|j: int| 0 <= j < self.blocks@.len() && (#[trigger] self.blocks@[j]).id@ == k;
                            if j != n {
                                assert(old(self).blocks@[j].id@ == k);
                            }
                        }
                        if old(self).has(k) {
                            let j = choose|j: int| 0 <= j < old(self).blocks@.len() && (#[trigger] old(self).blocks@[j]).id@ == k;
                            assert(self.blocks@[j].id@ == k);
                        }
                    }
                    assert forall|k: Seq<char>| #[trigger] self.has(k) && k != b.id@ implies self.view()[k] == old(self).view()[k] by {
                        let j = choose|j: int| 0 <= j < self.blocks@.len() && (#[trigger] self.blocks@[j]).id@ == k;
                        self.lemma_view_at(j);
                        old(self).lemma_view_at(j);
                    }
                    assert(self.view() =~= old(self).view().insert(b.id@, b));
                }
            },
        }
    }

    /// Registers each of `block_types` in turn.
    pub fn register_all(&mut self, block_types: Vec<BlockType>)
        requires
            old(self).wf(),
        ensures
            final(self).wf(),
            final(self).view() == registered(old(self).view(), block_types@),
    {
        let ghost types = block_types@;
        for b in it: block_types
            invariant
                self.wf(),
                it.seq() == types,
                self.view() == registered(old(self).view(), types.take(it.index() as int)),
        {
            proof {
                assert(types.take(it.index() + 1).drop_last() =~= types.take(it.index() as int));
            }
            self.register_type(b);
        }
        assert(types.take(types.len() as int) =~= types);
    }

    /// The ids of the blocks of the game.
    pub open spec fn game_ids() -> Seq<Seq<char>> {
        seq![
            "air"@,
            "dirt"@,
            "grass"@,
            "stone"@,
            "log"@,
            "cobble"@,
            "leaves"@,
            "glass"@,
            "plank"@,
            "sand"@,
            "snow"@,
        ]
    }

    /// No two blocks of the game share an id.
    pub proof fn lemma_game_ids_distinct()
        ensures
            forall|i: int, j: int|
                0 <= i < j < 11 ==> #[trigger] BlockRegistry::game_ids()[i]
                    != #[trigger] BlockRegistry::game_ids()[j],
    {
        reveal_strlit("air");
        reveal_strlit("dirt");
        reveal_strlit("grass");
        reveal_strlit("stone");
        reveal_strlit("log");
        reveal_strlit("cobble");
        reveal_strlit("leaves");
        reveal_strlit("glass");
        reveal_strlit("plank");
        reveal_strlit("sand");
        reveal_strlit("snow");
        let ids = BlockRegistry::game_ids();
        assert(ids[0].len() != ids[1].len());
        assert(ids[0].len() != ids[2].len());
        assert(ids[0].len() != ids[3].len());
        assert(ids[0][0] != ids[4][0]);
        assert(ids[0].len() != ids[5].len());
        assert(ids[0].len() != ids[6].len());
        assert(ids[0].len() != ids[7].len());
        assert(ids[0].len() != ids[8].len());
        assert(ids[0].len() != ids[9].len());
        assert(ids[0].len() != ids[10].len());
        assert(ids[1].len() != ids[2].len());
        assert(ids[1].len() != ids[3].len());
        assert(ids[1].len() != ids[4].len());
        assert(ids[1].len() != ids[5].len());
        assert(ids[1].len() != ids[6].len());
        assert(ids[1].len() != ids[7].len());
        assert(ids[1].len() != ids[8].len());
        assert(ids[1][0] != ids[9][0]);
        assert(ids[1][0] != ids[10][0]);
        assert(ids[2][0] != ids[3][0]);
        assert(ids[2].len() != ids[4].len());
        assert(ids[2].len() != ids[5].len());
        assert(ids[2].len() != ids[6].len());
        assert(ids[2][1] != ids[7][1]);
        assert(ids[2][0] != ids[8][0]);
        assert(ids[2].len() != ids[9].len());
        assert(ids[2].len() != ids[10].len());
        assert(ids[3].len() != ids[4].len());
        assert(ids[3].len() != ids[5].len());
        assert(ids[3].len() != ids[6].len());
        assert(ids[3][0] != ids[7][0]);
        assert(ids[3][0] != ids[8][0]);
        assert(ids[3].len() != ids[9].len());
        assert(ids[3].len() != ids[10].len());
        assert(ids[4].len() != ids[5].len());
        assert(ids[4].len() != ids[6].len());
        assert(ids[4].len() != ids[7].len());
        assert(ids[4].len() != ids[8].len());
        assert(ids[4].len() != ids[9].len());
        assert(ids[4].len() != ids[10].len());
        assert(ids[5][0] != ids[6][0]);
        assert(ids[5].len() != ids[7].len());
        assert(ids[5].len() != ids[8].len());
        assert(ids[5].len() != ids[9].len());
        assert(ids[5].len() != ids[10].len());
        assert(ids[6].len() != ids[7].len());
        assert(ids[6].len() != ids[8].len());
        assert(ids[6].len() != ids[9].len());
        assert(ids[6].len() != ids[10].len());
        assert(ids[7][0] != ids[8][0]);
        assert(ids[7].len() != ids[9].len());
        assert(ids[7].len() != ids[10].len());
        assert(ids[8].len() != ids[9].len());
        assert(ids[8].len() != ids[10].len());
        assert(ids[9][1] != ids[10][1]);
    }

    /// Whether the registry holds every block of the game as the game
    /// defines it.
    pub open spec fn has_game_blocks(self) -> bool {
        let m = self.view();
        &&& m.contains_key("air"@) && defines(m["air"@], "air"@, TextureCoords::uniform(TexTile::Default), true, true)
        &&& m.contains_key("dirt"@) && defines(m["dirt"@], "dirt"@, TextureCoords::uniform(tile(0)), false, false)
        &&& m.contains_key("grass"@) && defines(
            m["grass"@],
            "grass"@,
            TextureCoords { up: tile(2), down: tile(0), ..TextureCoords::uniform(tile(1)) },
            false,
            false,
        )
        &&& m.contains_key("stone"@) && defines(m["stone"@], "stone"@, TextureCoords::uniform(tile(3)), false, false)
        &&& m.contains_key("log"@) && defines(m["log"@], "log"@, TextureCoords::uniform(tile(4)), false, false)
        &&& m.contains_key("cobble"@) && defines(m["cobble"@], "cobble"@, TextureCoords::uniform(tile(5)), false, false)
        &&& m.contains_key("leaves"@) && defines(m["leaves"@], "leaves"@, TextureCoords::uniform(tile(6)), false, true)
        &&& m.contains_key("glass"@) && defines(m["glass"@], "glass"@, TextureCoords::uniform(tile(7)), false, true)
        &&& m.contains_key("plank"@) && defines(m["plank"@], "plank"@, TextureCoords::uniform(tile(8)), false, false)
        &&& m.contains_key("sand"@) && defines(m["sand"@], "sand"@, TextureCoords::uniform(tile(9)), false, false)
        &&& m.contains_key("snow"@) && defines(m["snow"@], "snow"@, TextureCoords::uniform(tile(10)), false, false)
    }

    /// Registers the blocks of the game: air, dirt, grass, stone, log,
    /// cobble, leaves, glass, plank, sand and snow.
    pub fn add_all_types(&mut self)
        requires
            old(self).wf(),
        ensures
            final(self).wf(),
            final(self).has_game_blocks(),
            final(self).view().dom() == old(self).view().dom() + BlockRegistry::game_ids().to_set(),
            forall|k: Seq<char>|
                !BlockRegistry::game_ids().contains(k) && old(self).view().contains_key(k)
                    ==> final(self).view()[k] == old(self).view()[k],
    {
        let air = BlockType {
            id: "air".to_string(),
            tex_coords: TextureCoords::new_default(),
            is_air: true,
            is_transparent: true,
            is_default_model: true,
        };
        let dirt = BlockType {
            id: "dirt".to_string(),
            tex_coords: TextureCoords::new_from_one(TexTile::At { column: 0, row: 0 }),
            is_air: false,
            is_transparent: false,
            is_default_model: true,
        };
        let grass = BlockType {
            id: "grass".to_string(),
            tex_coords: TextureCoords::new_sides_top_bottom(
                TexTile::At { column: 1, row: 0 },
                TexTile::At { column: 2, row: 0 },
                TexTile::At { column: 0, row: 0 },
            ),
            is_air: false,
            is_transparent: false,
            is_default_model: true,
        };
        let stone = BlockType {
            id: "stone".to_string(),
            tex_coords: TextureCoords::new_from_one(TexTile::At { column: 3, row: 0 }),
            is_air: false,
            is_transparent: false,
            is_default_model: true,
        };
        let log = BlockType {
            id: "log".to_string(),
            tex_coords: TextureCoords::new_from_one(TexTile::At { column: 4, row: 0 }),
            is_air: false,
            is_transparent: false,
            is_default_model: true,
        };
        let cobble = BlockType {
            id: "cobble".to_string(),
            tex_coords: TextureCoords::new_from_one(TexTile::At { column: 5, row: 0 }),
            is_air: false,
            is_transparent: false,
            is_default_model: true,
        };
        let leaves = BlockType {
            id: "leaves".to_string(),
            tex_coords: TextureCoords::new_from_one(TexTile::At { column: 6, row: 0 }),
            is_air: false,
            is_transparent: true,
            is_default_model: true,
        };
        let glass = BlockType {
            id: "glass".to_string(),
            tex_coords: TextureCoords::new_from_one(TexTile::At { column: 7, row: 0 }),
            is_air: false,
            is_transparent: true,
            is_default_model: true,
        };
        let plank = BlockType {
            id: "plank".to_string(),
            tex_coords: TextureCoords::new_from_one(TexTile::At { column: 8, row: 0 }),
            is_air: false,
            is_transparent: false,
            is_default_model: true,
        };
        let sand = BlockType {
            id: "sand".to_string(),
            tex_coords: TextureCoords::new_from_one(TexTile::At { column: 9, row: 0 }),
            is_air: false,
            is_transparent: false,
            is_default_model: true,
        };
        let snow = BlockType {
            id: "snow".to_string(),
            tex_coords: TextureCoords::new_from_one(TexTile::At { column: 10, row: 0 }),
            is_air: false,
            is_transparent: false,
            is_default_model: true,
        };
        let types = vec![air, dirt, grass, stone, log, cobble, leaves, glass, plank, sand, snow];
        let ghost ts = types@;
        self.register_all(types);
        proof {
            let m0 = old(self).view();
            let ids = BlockRegistry::game_ids();
            assert(ts.len() == 11);
            reveal_strlit("air");
            reveal_strlit("dirt");
            reveal_strlit("grass");
            reveal_strlit("stone");
            reveal_strlit("log");
            reveal_strlit("cobble");
            reveal_strlit("leaves");
            reveal_strlit("glass");
            reveal_strlit("plank");
            reveal_strlit("sand");
            reveal_strlit("snow");
            assert forall|i: int| 0 <= i < 11 implies #[trigger] ts[i].id@ == ids[i] by {}
            BlockRegistry::lemma_game_ids_distinct();
            assert forall|i: int| 0 <= i < 11 implies #[trigger] self.view().contains_key(ids[i])
                && self.view()[ids[i]] == ts[i] by {
                lemma_registered_last(m0, ts, i);
            }
            assert(self.view().contains_key(ids[0]) && ids[0] == "air"@);
            assert(self.view().contains_key(ids[1]) && ids[1] == "dirt"@);
            assert(self.view().contains_key(ids[2]) && ids[2] == "grass"@);
            assert(self.view().contains_key(ids[3]) && ids[3] == "stone"@);
            assert(self.view().contains_key(ids[4]) && ids[4] == "log"@);
            assert(self.view().contains_key(ids[5]) && ids[5] == "cobble"@);
            assert(self.view().contains_key(ids[6]) && ids[6] == "leaves"@);
            assert(self.view().contains_key(ids[7]) && ids[7] == "glass"@);
            assert(self.view().contains_key(ids[8]) && ids[8] == "plank"@);
            assert(self.view().contains_key(ids[9]) && ids[9] == "sand"@);
            assert(self.view().contains_key(ids[10]) && ids[10] == "snow"@);
            assert(self.view().dom() =~= m0.dom() + ids.to_set()) by {
                assert forall|k: Seq<char>| #[trigger] self.view().contains_key(k) <==> (m0.contains_key(k) || ids.to_set().contains(k)) by {
                    lemma_registered_dom(m0, ts, k);
                    if ids.contains(k) {
                        let i = choose|i: int| 0 <= i < ids.len() && ids[i] == k;
                        assert(ts[i].id@ == k);
                    }
                    if exists|j: int| 0 <= j < ts.len() && (#[trigger] ts[j]).id@ == k {
                        let j = choose|j: int| 0 <= j < ts.len() && (#[trigger] ts[j]).id@ == k;
                        assert(ids[j] == k);
                    }
                }
                assert forall|k: Seq<char>| ids.to_set().contains(k) implies ids.contains(k) by {}
                assert forall|k: Seq<char>| ids.contains(k) implies ids.to_set().contains(k) by {
                    let i = choose|i: int| 0 <= i < ids.len() && ids[i] == k;
                    assert(ts[i].id@ == k);
                }
            }
            assert forall|k: Seq<char>|
                !ids.contains(k) && m0.contains_key(k) implies self.view()[k] == m0[k] by {
                lemma_registered_other(m0, ts, k);
            }
        }
    }

    /// The block type named `id`.
    pub fn get(&self, id: &str) -> (r: Option<Arc<BlockType>>)
        requires
            self.wf(),
        ensures
            r matches Some(b) ==> self.view().contains_key(id@) && self.view()[id@] == *b,
            r is None ==> !self.view().contains_key(id@),
    {
        let key = id.to_string();
        match self.find(&key) {
            Some(i) => {
                proof {
                    self.lemma_view_at(i as int);
                }
                Some(share(&self.blocks[i]))
            },
            None => None,
        }
    }

    /// The block type named `id`, which must be registered.
    pub fn block(&self, id: &str) -> (r: Arc<BlockType>)
        requires
            self.wf(),
            self.view().contains_key(id@),
        ensures
            *r == self.view()[id@],
    {
        self.get(id).unwrap()
    }
}

} // verus!
