use vstd::prelude::*;

use std::sync::Arc;

use vstd::arithmetic::div_mod::{lemma_fundamental_div_mod, lemma_fundamental_div_mod_converse};

use crate::block::block_type::BlockType;
use crate::block::location::BlockLocation;
use crate::random::random_below;
use crate::shared::share;
use crate::world::chunk::chunk::{layer_of, Chunk, ChunkLocation, DEPTH, HEIGHT, LAYERS, WIDTH};
use crate::world::chunk::chunk_mesh::{mesh_faces, mesh_fits, mesh_indices, ChunkMesh, MeshData};
use crate::world::chunk::render_chunk::{face_shows, law_face_culling, RenderChunkLocation};

verus! {

/// `v / 16` rounded down, as `floor` of the quotient does.
pub open spec fn floor_div16(v: i32) -> i32 {
    ((v as int) / 16) as i32
}

/// The column that holds world location `l`.
pub open spec fn column_of(l: BlockLocation) -> ChunkLocation {
    ChunkLocation { x: floor_div16(l.x), z: floor_div16(l.z) }
}

/// `v / 16` rounded down.
pub fn floor_div_16(v: i32) -> (r: i32)
    ensures
        r == floor_div16(v),
{
    if v >= 0 {
        v / 16
    } else {
        let w: i32 = -(v + 1);
        assert((v as int) / 16 == -((w as int) / 16) - 1) by (nonlinear_arith)
            requires
                w == -(v + 1),
                v < 0,
        {
        }
        -(w / 16) - 1
    }
}

/// Whether no two chunks of `chunks` share a location.
pub open spec fn unique_locations(chunks: Seq<Arc<Chunk>>) -> bool {
    forall|i: int, j: int|
        0 <= i < j < chunks.len() ==> (#[trigger] chunks[i]).location != (#[trigger] chunks[j]).location
}

/// Whether a chunk of `chunks` stands at `loc`.
pub open spec fn has_chunk(chunks: Seq<Arc<Chunk>>, loc: ChunkLocation) -> bool {
    exists|i: int| 0 <= i < chunks.len() && (#[trigger] chunks[i]).location == loc
}

/// The chunk of `chunks` at `loc`, if there is one.
pub open spec fn chunk_at(chunks: Seq<Arc<Chunk>>, loc: ChunkLocation) -> Option<Chunk> {
    if has_chunk(chunks, loc) {
        Some(
            *chunks[choose|i: int| 0 <= i < chunks.len() && (#[trigger] chunks[i]).location == loc],
        )
    } else {
        None
    }
}

/// Whether every chunk of `chunks` is well formed.
pub open spec fn all_wf(chunks: Seq<Arc<Chunk>>) -> bool {
    forall|i: int| 0 <= i < chunks.len() ==> (#[trigger] chunks[i]).wf()
}

/// With unique locations, the chunk at index `i` is the one its location
/// finds.
pub proof fn lemma_chunk_at_index(chunks: Seq<Arc<Chunk>>, i: int)
    requires
        unique_locations(chunks),
        0 <= i < chunks.len(),
    ensures
        chunk_at(chunks, chunks[i].location) == Some(*chunks[i]),
{
    let loc = chunks[i].location;
    assert(has_chunk(chunks, loc));
    let j = choose|j: int| 0 <= j < chunks.len() && (#[trigger] chunks[j]).location == loc;
    if i < j {
        assert(chunks[i].location != chunks[j].location);
    } else if j < i {
        assert(chunks[j].location != chunks[i].location);
    }
}

/// The index of the chunk of `chunks` at `loc`.
pub fn find_chunk(chunks: &Vec<Arc<Chunk>>, loc: &ChunkLocation) -> (r: Option<usize>)
    requires
        unique_locations(chunks@),
    ensures
        r matches Some(i) ==> i < chunks@.len() && chunks@[i as int].location == *loc
            && chunk_at(chunks@, *loc) == Some(*chunks@[i as int]),
        r is None ==> !has_chunk(chunks@, *loc) && chunk_at(chunks@, *loc) is None,
{
    let mut i: usize = 0;
    while i < chunks.len()
        invariant
            i <= chunks@.len(),
            unique_locations(chunks@),
            forall|k: int| 0 <= k < i ==> (#[trigger] chunks@[k]).location != *loc,
        decreases chunks@.len() - i,
    {
        if chunks[i].location.equals(loc) {
            proof {
                lemma_chunk_at_index(chunks@, i as int);
            }
            return Some(i);
        }
        i = i + 1;
    }
    None
}

/// Whether every chunk of `chunks` stands where its world coordinates fit.
pub open spec fn all_meshable(chunks: Seq<Arc<Chunk>>) -> bool {
    forall|i: int| 0 <= i < chunks.len() ==> (#[trigger] chunks[i]).location.meshable()
}

/// Places `c` among `chunks`: over the chunk at its location, or after the
/// others where there is none.
fn put_chunk(chunks: &mut Vec<Arc<Chunk>>, c: Arc<Chunk>)
    requires
        unique_locations(old(chunks)@),
    ensures
        unique_locations(final(chunks)@),
        forall|l: ChunkLocation|
            #[trigger] chunk_at(final(chunks)@, l) == if l == c.location {
                Some(*c)
            } else {
                chunk_at(old(chunks)@, l)
            },
        forall|l: ChunkLocation|
            #[trigger] has_chunk(final(chunks)@, l) == (l == c.location || has_chunk(
                old(chunks)@,
                l,
            )),
        all_wf(old(chunks)@) && c.wf() ==> all_wf(final(chunks)@),
        all_meshable(old(chunks)@) && c.location.meshable() ==> all_meshable(final(chunks)@),
{
    let ghost before = chunks@;
    let ghost cv = c;
    match find_chunk(chunks, &c.location) {
        Some(i) => {
            chunks[i] = c;
            proof {
                let after = chunks@;
                assert(after == before.update(i as int, cv));
                assert forall|a: int, b: int| 0 <= a < b < after.len() implies (#[trigger] after[a]).location
                    != (#[trigger] after[b]).location by {
                    assert(before[a].location != before[b].location);
                }
                lemma_chunk_at_index(after, i as int);
                assert forall|l: ChunkLocation| l != cv.location implies #[trigger] has_chunk(after, l)
                    == has_chunk(before, l) && chunk_at(after, l) == chunk_at(before, l) by {
                    if has_chunk(before, l) {
                        let j = choose|j: int| 0 <= j < before.len() && (#[trigger] before[j]).location == l;
                        assert(after[j] == before[j]);
                        lemma_chunk_at_index(after, j);
                        lemma_chunk_at_index(before, j);
                    }
                    if has_chunk(after, l) {
                        let j = choose|j: int| 0 <= j < after.len() && (#[trigger] after[j]).location == l;
                        assert(before[j] == after[j]);
                    }
                }
            }
        },
        None => {
            chunks.push(c);
            proof {
                let after = chunks@;
                let n = before.len() as int;
                assert(after == before.push(cv));
                assert forall|a: int, b: int| 0 <= a < b < after.len() implies (#[trigger] after[a]).location
                    != (#[trigger] after[b]).location by {
                    if b < n {
                        assert(before[a].location != before[b].location);
                    } else {
                        assert(after[a] == before[a]);
                    }
                }
                lemma_chunk_at_index(after, n);
                assert forall|l: ChunkLocation| l != cv.location implies #[trigger] has_chunk(after, l)
                    == has_chunk(before, l) && chunk_at(after, l) == chunk_at(before, l) by {
                    if has_chunk(before, l) {
                        let j = choose|j: int| 0 <= j < before.len() && (#[trigger] before[j]).location == l;
                        assert(after[j] == before[j]);
                        lemma_chunk_at_index(after, j);
                        lemma_chunk_at_index(before, j);
                    }
                    if has_chunk(after, l) {
                        let j = choose|j: int| 0 <= j < after.len() && (#[trigger] after[j]).location == l;
                        assert(before[j] == after[j]);
                    }
                }
            }
        },
    }
}

/// Takes the chunk at `loc` out of `chunks`, keeping the others in order.
fn take_chunk(chunks: &mut Vec<Arc<Chunk>>, loc: &ChunkLocation) -> (r: Option<Arc<Chunk>>)
    requires
        unique_locations(old(chunks)@),
    ensures
        unique_locations(final(chunks)@),
        r matches Some(c) ==> chunk_at(old(chunks)@, *loc) == Some(*c),
        r is None ==> !has_chunk(old(chunks)@, *loc),
        forall|l: ChunkLocation|
            #[trigger] chunk_at(final(chunks)@, l) == if l == *loc {
                None
            } else {
                chunk_at(old(chunks)@, l)
            },
        forall|l: ChunkLocation|
            #[trigger] has_chunk(final(chunks)@, l) == (l != *loc && has_chunk(old(chunks)@, l)),
        all_wf(old(chunks)@) ==> all_wf(final(chunks)@),
        all_meshable(old(chunks)@) ==> all_meshable(final(chunks)@),
{
    let ghost before = chunks@;
    match find_chunk(chunks, loc) {
        Some(i) => {
            let c = chunks.remove(i);
            proof {
                let after = chunks@;
                let i = i as int;
                assert(after == before.remove(i));
                assert forall|a: int, b: int| 0 <= a < b < after.len() implies (#[trigger] after[a]).location
                    != (#[trigger] after[b]).location by {
                    if b < i {
                    } else if a < i {
                        assert(before[a].location != before[b + 1].location);
                    } else {
                        assert(before[a + 1].location != before[b + 1].location);
                    }
                }
                assert forall|l: ChunkLocation| #[trigger] has_chunk(after, l) == (l != *loc
                    && has_chunk(before, l)) && chunk_at(after, l) == if l == *loc {
                    None
                } else {
                    chunk_at(before, l)
                } by {
                    if has_chunk(after, l) {
                        let j = choose|j: int| 0 <= j < after.len() && (#[trigger] after[j]).location == l;
                        let k = if j < i { j } else { j + 1 };
                        assert(before[k] == after[j]);
                        assert(k != i);
                        assert(before[k].location != before[i].location);
                        lemma_chunk_at_index(after, j);
                        lemma_chunk_at_index(before, k);
                    }
                    if l != *loc && has_chunk(before, l) {
                        let k = choose|k: int| 0 <= k < before.len() && (#[trigger] before[k]).location == l;
                        assert(k != i);
                        let j = if k < i { k } else { k - 1 };
                        assert(after[j] == before[k]);
                    }
                }
            }
            Some(c)
        },
        None => None,
    }
}

/// The block at world location `l` among `chunks`, if its column is there.
pub open spec fn world_block(chunks: Seq<Arc<Chunk>>, l: BlockLocation) -> Option<BlockType> {
    match chunk_at(chunks, column_of(l)) {
        Some(c) => c.block_at(l.chunk_values_spec(c.location)),
        None => None,
    }
}

/// Whether a face of a block of type `t` towards world location `l` is
/// seen, looking only at `chunks`: true where the column is missing.
pub open spec fn world_face_shows(chunks: Seq<Arc<Chunk>>, t: BlockType, l: BlockLocation) -> bool {
    match world_block(chunks, l) {
        Some(a) => face_shows(a, t),
        None => true,
    }
}

/// Every location lies in the column that `column_of` names: relative to
/// it, x and z lie in `0..16`, and the conversion fits the coordinate type.
pub proof fn law_column_holds_block(l: BlockLocation)
    ensures
        l.chunk_values_fit(column_of(l)),
        0 <= l.chunk_values_spec(column_of(l)).x < WIDTH,
        0 <= l.chunk_values_spec(column_of(l)).z < DEPTH,
{
    assert(0 <= l.x - floor_div16(l.x) * 16 < 16) by (nonlinear_arith)
        requires
            floor_div16(l.x) == (l.x as int) / 16,
    {
    }
    assert(0 <= l.z - floor_div16(l.z) * 16 < 16) by (nonlinear_arith)
        requires
            floor_div16(l.z) == (l.z as int) / 16,
    {
    }
}

/// A face towards a world location shows where the location holds
/// see-through air or its column is not loaded, whatever the block of the
/// face; it never shows towards an opaque block.
pub proof fn law_world_face_toward_air(chunks: Seq<Arc<Chunk>>, t: BlockType, l: BlockLocation)
    ensures
        (world_block(chunks, l) matches Some(a) && a.is_air && a.is_transparent)
            ==> world_face_shows(chunks, t, l),
        world_block(chunks, l) is None ==> world_face_shows(chunks, t, l),
        (world_block(chunks, l) matches Some(a) && !a.is_transparent) ==> !world_face_shows(
            chunks,
            t,
            l,
        ),
{
    if let Some(a) = world_block(chunks, l) {
        law_face_culling(a, t);
    }
}

/// A world location holds a block exactly where its column is loaded and
/// its height lies within the column.
pub proof fn law_block_present(h: ChunkHandler, l: BlockLocation)
    requires
        h.wf(),
    ensures
        h.block_at(l) is Some <==> has_chunk(h.loaded_chunks@, column_of(l)) && 0 <= l.y
            < HEIGHT,
{
    law_column_holds_block(l);
    if has_chunk(h.loaded_chunks@, column_of(l)) {
        lemma_chunk_at_found(h.loaded_chunks@, column_of(l));
    }
}

/// The block at world `loc` among `chunks`.
fn block_in(chunks: &Vec<Arc<Chunk>>, loc: &BlockLocation) -> (r: Option<Arc<BlockType>>)
    requires
        unique_locations(chunks@),
        all_wf(chunks@),
    ensures
        r matches Some(b) ==> world_block(chunks@, *loc) == Some(*b),
        r is None ==> world_block(chunks@, *loc) is None,
{
    proof {
        law_column_holds_block(*loc);
    }
    let cl = ChunkLocation::new(floor_div_16(loc.x), floor_div_16(loc.z));
    match find_chunk(chunks, &cl) {
        Some(i) => {
            let c: &Arc<Chunk> = &chunks[i];
            let chunk_pos = loc.get_chunk_values(&c.location);
            c.get_block_at(&chunk_pos)
        },
        None => None,
    }
}

/// The `i`-th column of the square of side `2d + 1` around `center`,
/// counting along z first, then along x.
pub open spec fn square_at(center: ChunkLocation, d: int, i: int) -> ChunkLocation {
    let n = 2 * d + 1;
    ChunkLocation { x: (center.x - d + i / n) as i32, z: (center.z - d + i % n) as i32 }
}

/// The columns at most `d` columns from `center` along x and along z: x
/// from low to high, and for each x, z from low to high. Empty for a
/// negative `d`.
pub open spec fn loading_square(center: ChunkLocation, d: int) -> Seq<ChunkLocation> {
    let n = 2 * d + 1;
    Seq::new(if d >= 0 { (n * n) as nat } else { 0 }, |i: int| square_at(center, d, i))
}

/// Whether the square's size, and the coordinates of its columns, fit the
/// coordinate type.
pub open spec fn square_fits(center: ChunkLocation, d: int) -> bool {
    &&& -46340 <= 2 * d + 1 <= 46340
    &&& d >= 0 ==> i32::MIN <= center.x - d && center.x + d <= i32::MAX
    &&& d >= 0 ==> i32::MIN <= center.z - d && center.z + d <= i32::MAX
}

/// The number of columns in a square of side `2d + 1`.
pub open spec fn square_size(d: int) -> int {
    (2 * d + 1) * (2 * d + 1)
}

/// The square of columns around `center` has `(2d + 1)²` columns, each
/// once, and holds exactly the columns at most `d` columns from `center`
/// along x and along z. Its size is what the first generation waits for.
pub proof fn law_loading_square(center: ChunkLocation, d: int)
    requires
        square_fits(center, d),
        d >= 0,
    ensures
        loading_square(center, d).len() == square_size(d),
        loading_square(center, d).no_duplicates(),
        forall|l: ChunkLocation|
            #[trigger] loading_square(center, d).contains(l) <==> (center.x - d <= l.x <= center.x
                + d && center.z - d <= l.z <= center.z + d),
{
    let n = 2 * d + 1;
    let s = loading_square(center, d);
    assert forall|i: int| 0 <= i < s.len() implies 0 <= i / n < n && 0 <= #[trigger] (i % n) < n by {
        assert(0 <= i / n < n) by (nonlinear_arith)
            requires
                0 <= i < n * n,
                n > 0,
        ;
    }
    assert forall|i: int, j: int| 0 <= i < j < s.len() implies s[i] != s[j] by {
        lemma_fundamental_div_mod(i, n);
        lemma_fundamental_div_mod(j, n);
        assert(0 <= i / n < n && 0 <= i % n < n);
        assert(0 <= j / n < n && 0 <= j % n < n);
        if s[i] == s[j] {
            assert(i / n == j / n);
            assert(i % n == j % n);
            assert(i == j);
        }
    }
    assert forall|l: ChunkLocation|
        #[trigger] s.contains(l) <==> (center.x - d <= l.x <= center.x + d && center.z - d <= l.z
            <= center.z + d) by {
        if s.contains(l) {
            let i = choose|i: int| 0 <= i < s.len() && s[i] == l;
            assert(0 <= i / n < n && 0 <= i % n < n);
        }
        if center.x - d <= l.x <= center.x + d && center.z - d <= l.z <= center.z + d {
            let q = l.x - center.x + d;
            let r = l.z - center.z + d;
            let i = q * n + r;
            lemma_fundamental_div_mod_converse(i, n, q, r);
            assert(0 <= i < n * n) by (nonlinear_arith)
                requires
                    0 <= q < n,
                    0 <= r < n,
                    i == q * n + r,
            ;
            assert(s[i] == l);
        }
    }
}

/// The columns of `loading_square(center, d)`, in its order.
fn square_around(center: &ChunkLocation, chunk_distance: i32) -> (r: Vec<ChunkLocation>)
    requires
        square_fits(*center, chunk_distance as int),
    ensures
        r@ == loading_square(*center, chunk_distance as int),
{
    let d = chunk_distance;
    let mut r: Vec<ChunkLocation> = Vec::new();
    if d < 0 {
        assert(r@ =~= loading_square(*center, d as int));
        return r;
    }
    let ghost n: int = 2 * d + 1;
    let mut x: i32 = -d;
    assert((x + d) * n == 0) by (nonlinear_arith)
        requires
            x + d == 0,
    ;
    while x < d + 1
        invariant
            0 <= d,
            n == 2 * d + 1,
            square_fits(*center, d as int),
            -d <= x <= d + 1,
            r@.len() == (x + d) * n,
            forall|i: int| 0 <= i < r@.len() ==> #[trigger] r@[i] == square_at(*center, d as int, i),
        decreases d + 1 - x,
    {
        let mut z: i32 = -d;
        while z < d + 1
            invariant
                0 <= d,
                n == 2 * d + 1,
                square_fits(*center, d as int),
                -d <= x < d + 1,
                -d <= z <= d + 1,
                r@.len() == (x + d) * n + (z + d),
                forall|i: int| 0 <= i < r@.len() ==> #[trigger] r@[i] == square_at(*center, d as int, i),
            decreases d + 1 - z,
        {
            let ghost i: int = r@.len() as int;
            proof {
                lemma_fundamental_div_mod_converse(i, n, x + d, z + d);
            }
            r.push(ChunkLocation::new(x + center.x, z + center.z));
            z = z + 1;
        }
        assert((x + d) * n + (d + d + 1) == (x + 1 + d) * n) by (nonlinear_arith)
            requires
                n == 2 * d + 1,
        ;
        x = x + 1;
    }
    assert(r@ =~= loading_square(*center, d as int));
    r
}

/// The columns of `square` that `chunks` does not hold, in order.
fn not_loaded(square: &Vec<ChunkLocation>, chunks: &Vec<Arc<Chunk>>) -> (r: Vec<ChunkLocation>)
    requires
        unique_locations(chunks@),
    ensures
        r@ == square@.filter(|l: ChunkLocation| !has_chunk(chunks@, l)),
{
    let ghost pred = |l: ChunkLocation| !has_chunk(chunks@, l);
    let mut r: Vec<ChunkLocation> = Vec::new();
    let mut k: usize = 0;
    while k < square.len()
        invariant
            k <= square@.len(),
            unique_locations(chunks@),
            pred == (|l: ChunkLocation| !has_chunk(chunks@, l)),
            r@ == square@.take(k as int).filter(pred),
        decreases square@.len() - k,
    {
        proof {
            assert(square@.take(k + 1).drop_last() =~= square@.take(k as int));
            reveal(Seq::filter);
        }
        if find_chunk(chunks, &square[k]).is_none() {
            r.push(square[k]);
        }
        k = k + 1;
    }
    assert(square@.take(square@.len() as int) =~= square@);
    r
}

/// The neighbours of `loc`, north, east, south and west, that `chunks`
/// holds.
pub open spec fn loaded_around(chunks: Seq<Arc<Chunk>>, loc: ChunkLocation) -> Seq<ChunkLocation> {
    loc.surrounding().filter(|l: ChunkLocation| has_chunk(chunks, l))
}

/// Whether `t` meshes a column of `chunks`, as `chunks` holds it, with the
/// neighbours `chunks` holds.
pub open spec fn task_for(t: MeshCreationTask, chunks: Seq<Arc<Chunk>>) -> bool {
    &&& t.wf()
    &&& t.group.gathers(chunks)
    &&& chunk_at(chunks, t.chunk.location) == Some(*t.chunk)
}

/// A chunk that `chunks` holds is found at its location, well formed and
/// meshable where `chunks` is.
proof fn lemma_chunk_at_found(chunks: Seq<Arc<Chunk>>, loc: ChunkLocation)
    requires
        has_chunk(chunks, loc),
        unique_locations(chunks),
    ensures
        chunk_at(chunks, loc) matches Some(c) && c.location == loc
            && (all_wf(chunks) ==> c.wf()) && (all_meshable(chunks) ==> c.location.meshable()),
{
    let j = choose|j: int| 0 <= j < chunks.len() && (#[trigger] chunks[j]).location == loc;
    lemma_chunk_at_index(chunks, j);
}

/// The index of `loc` in `draw`.
fn find_draw(draw: &Vec<RenderChunkLocation>, loc: &RenderChunkLocation) -> (r: Option<usize>)
    ensures
        r matches Some(i) ==> i < draw@.len() && draw@[i as int] == *loc,
        r is None ==> !draw@.contains(*loc),
{
    let mut i: usize = 0;
    while i < draw.len()
        invariant
            i <= draw@.len(),
            forall|k: int| 0 <= k < i ==> draw@[k] != *loc,
        decreases draw@.len() - i,
    {
        if draw[i].equals(loc) {
            return Some(i);
        }
        i = i + 1;
    }
    None
}

/// The locations of the chunks among the first `n` of `chunks` whose
/// entry in `in_range` is false, in order.
pub open spec fn columns_out_of_range(chunks: Seq<Arc<Chunk>>, in_range: Seq<bool>, n: int) -> Seq<
    ChunkLocation,
>
    decreases n,
{
    if n <= 0 {
        seq![]
    } else {
        let before = columns_out_of_range(chunks, in_range, n - 1);
        if !in_range[n - 1] {
            before.push(chunks[n - 1].location)
        } else {
            before
        }
    }
}

/// Whether render chunk `d` is one of the six of a column of `cols`.
pub open spec fn in_columns(cols: Seq<ChunkLocation>, d: RenderChunkLocation) -> bool {
    cols.contains(d.chunk_location_spec()) && 0 <= d.y < LAYERS
}

/// For each column of `cols` in turn, its neighbours that `chunks` holds,
/// north, east, south, west.
pub open spec fn loaded_around_all(cols: Seq<ChunkLocation>, chunks: Seq<Arc<Chunk>>) -> Seq<
    ChunkLocation,
>
    decreases cols.len(),
{
    if cols.len() == 0 {
        seq![]
    } else {
        loaded_around_all(cols.drop_last(), chunks) + loaded_around(chunks, cols.last())
    }
}

/// Whether `s` is one of the four columns beside `u`: north (z + 1), east
/// (x + 1), south (z - 1) or west (x - 1).
pub open spec fn beside(u: ChunkLocation, s: ChunkLocation) -> bool {
    ||| s.x == u.x && (s.z == u.z + 1 || s.z == u.z - 1)
    ||| s.z == u.z && (s.x == u.x + 1 || s.x == u.x - 1)
}

/// What filtering keeps comes from the sequence and meets the predicate.
proof fn lemma_filter_from<A>(s: Seq<A>, p: spec_fn(A) -> bool)
    ensures
        forall|x: A| #[trigger] s.filter(p).contains(x) ==> s.contains(x) && p(x),
        forall|i: int| 0 <= i < s.len() && p(s[i]) ==> #[trigger] s.filter(p).contains(s[i]),
    decreases s.len(),
{
    reveal(Seq::filter);
    broadcast use vstd::seq_lib::group_filter_ensures;
    if s.len() > 0 {
        lemma_filter_from(s.drop_last(), p);
        assert forall|x: A| #[trigger] s.filter(p).contains(x) implies s.contains(x) && p(x) by {
            let f = s.drop_last().filter(p);
            if f.contains(x) {
                let j = choose|j: int| 0 <= j < s.drop_last().len() && s.drop_last()[j] == x;
                assert(s[j] == x);
            } else {
                let out = s.filter(p);
                let j = choose|j: int| 0 <= j < out.len() && out[j] == x;
                if p(s.last()) {
                    assert(out == f.push(s.last()));
                    if j < f.len() {
                        assert(f[j] == x);
                    }
                    assert(s[s.len() - 1] == x);
                } else {
                    assert(out == f);
                }
            }
        }
    }
}

/// The loaded neighbours of `u` are exactly its loaded columns beside it.
proof fn lemma_loaded_around(chunks: Seq<Arc<Chunk>>, u: ChunkLocation)
    requires
        u.neighbours_fit(),
    ensures
        forall|s: ChunkLocation|
            #[trigger] loaded_around(chunks, u).contains(s) <==> beside(u, s) && has_chunk(chunks, s),
{
    let around = u.surrounding();
    let p = |l: ChunkLocation| has_chunk(chunks, l);
    lemma_filter_from(around, p);
    assert forall|s: ChunkLocation|
        #[trigger] loaded_around(chunks, u).contains(s) <==> beside(u, s) && has_chunk(chunks, s) by {
        if beside(u, s) && has_chunk(chunks, s) {
            if s.x == u.x && s.z == u.z + 1 {
                assert(around[0] == s);
            } else if s.x == u.x + 1 && s.z == u.z {
                assert(around[1] == s);
            } else if s.x == u.x && s.z == u.z - 1 {
                assert(around[2] == s);
            } else {
                assert(around[3] == s);
            }
        }
        if loaded_around(chunks, u).contains(s) {
            assert(around.contains(s));
            let j = choose|j: int| 0 <= j < around.len() && around[j] == s;
            assert(j == 0 || j == 1 || j == 2 || j == 3);
        }
    }
}

/// The remeshing after unloading reaches every loaded column beside an
/// unloaded one, north, east, south and west alike, and nothing else.
pub proof fn law_unload_remeshes_neighbours(
    gone: Seq<ChunkLocation>,
    chunks: Seq<Arc<Chunk>>,
    remeshed: Seq<ChunkLocation>,
)
    requires
        remeshed == loaded_around_all(gone, chunks),
        forall|i: int| 0 <= i < gone.len() ==> (#[trigger] gone[i]).neighbours_fit(),
    ensures
        forall|u: ChunkLocation, s: ChunkLocation|
            gone.contains(u) && beside(u, s) && has_chunk(chunks, s) ==> #[trigger] remeshed.contains(s)
                && #[trigger] gone.contains(u),
        forall|s: ChunkLocation|
            #[trigger] remeshed.contains(s) ==> has_chunk(chunks, s) && exists|u: ChunkLocation|
                gone.contains(u) && #[trigger] beside(u, s),
    decreases gone.len(),
{
    if gone.len() > 0 {
        let prev = gone.drop_last();
        let u0 = gone.last();
        let rest = loaded_around_all(prev, chunks);
        let last = loaded_around(chunks, u0);
        assert(remeshed == rest + last);
        assert forall|i: int| 0 <= i < prev.len() implies (#[trigger] prev[i]).neighbours_fit() by {
            assert(prev[i] == gone[i]);
        }
        law_unload_remeshes_neighbours(prev, chunks, rest);
        lemma_loaded_around(chunks, u0);
        assert forall|u: ChunkLocation, s: ChunkLocation|
            gone.contains(u) && beside(u, s) && has_chunk(chunks, s) implies #[trigger] remeshed.contains(s)
                && #[trigger] gone.contains(u) by {
            let j = choose|j: int| 0 <= j < gone.len() && gone[j] == u;
            if j == gone.len() - 1 {
                assert(last.contains(s));
                let k = choose|k: int| 0 <= k < last.len() && last[k] == s;
                assert(remeshed[rest.len() + k] == s);
            } else {
                assert(prev[j] == u);
                assert(prev.contains(u));
                assert(rest.contains(s));
                let k = choose|k: int| 0 <= k < rest.len() && rest[k] == s;
                assert(remeshed[k] == s);
            }
        }
        assert forall|s: ChunkLocation| #[trigger] remeshed.contains(s) implies has_chunk(chunks, s)
            && exists|u: ChunkLocation| gone.contains(u) && #[trigger] beside(u, s) by {
            let k = choose|k: int| 0 <= k < remeshed.len() && remeshed[k] == s;
            if k < rest.len() {
                assert(rest[k] == s);
                assert(rest.contains(s));
                let u = choose|u: ChunkLocation| prev.contains(u) && #[trigger] beside(u, s);
                let j = choose|j: int| 0 <= j < prev.len() && prev[j] == u;
                assert(gone[j] == u);
                assert(gone.contains(u));
            } else {
                assert(last[k - rest.len()] == s);
                assert(last.contains(s));
                assert(gone[gone.len() - 1] == u0);
                assert(gone.contains(u0) && beside(u0, s));
            }
        }
    }
}

/// Removing one entry of a sequence without duplicates leaves the others.
proof fn lemma_remove_distinct<A>(s: Seq<A>, j: int)
    requires
        s.no_duplicates(),
        0 <= j < s.len(),
    ensures
        s.remove(j).no_duplicates(),
        forall|d: A| #[trigger] s.remove(j).contains(d) == (s.contains(d) && d != s[j]),
{
    let t = s.remove(j);
    assert forall|a: int, b: int| 0 <= a < b < t.len() implies t[a] != t[b] by {
        let a2 = if a < j { a } else { a + 1 };
        let b2 = if b < j { b } else { b + 1 };
        assert(t[a] == s[a2] && t[b] == s[b2]);
    }
    assert forall|d: A| #[trigger] t.contains(d) == (s.contains(d) && d != s[j]) by {
        if t.contains(d) {
            let a = choose|a: int| 0 <= a < t.len() && t[a] == d;
            let a2 = if a < j { a } else { a + 1 };
            assert(s[a2] == d);
        }
        if s.contains(d) && d != s[j] {
            let a = choose|a: int| 0 <= a < s.len() && s[a] == d;
            let a2 = if a < j { a } else { a - 1 };
            assert(t[a2] == d);
        }
    }
}

/// What the once-a-second update hands back: the drawn render chunks that
/// were dropped, the meshing tasks for the neighbours of the dropped
/// columns, and the columns to generate.
pub struct SecondUpdate {
    pub freed: Vec<RenderChunkLocation>,
    pub remesh: Vec<MeshCreationTask>,
    pub to_generate: Vec<ChunkLocation>,
}

/// The render chunk that holds world location `l`.
pub open spec fn render_chunk_of(l: BlockLocation) -> RenderChunkLocation {
    RenderChunkLocation { x: floor_div16(l.x), y: layer_of(l.y) as i32, z: floor_div16(l.z) }
}

/// Whether the height of `l` lies within a column.
pub open spec fn has_layer(l: BlockLocation) -> bool {
    0 <= layer_of(l.y) < LAYERS
}

/// `done` with the render chunk of `l` after it, unless `l`'s height lies
/// outside a column or `done` has that render chunk already.
pub open spec fn with_render_chunk_of(done: Seq<RenderChunkLocation>, l: BlockLocation) -> Seq<
    RenderChunkLocation,
> {
    if has_layer(l) && !done.contains(render_chunk_of(l)) {
        done.push(render_chunk_of(l))
    } else {
        done
    }
}

/// The render chunks of the locations of `ls`, in order, each once, where
/// their height lies within a column.
pub open spec fn render_chunks_of(ls: Seq<BlockLocation>) -> Seq<RenderChunkLocation>
    decreases ls.len(),
{
    if ls.len() == 0 {
        seq![]
    } else {
        with_render_chunk_of(render_chunks_of(ls.drop_last()), ls.last())
    }
}

/// The render chunks that a change at `l` shows in: that of `l`, then
/// those of its six neighbours and of `l` itself.
pub open spec fn touched_by(l: BlockLocation) -> Seq<RenderChunkLocation> {
    render_chunks_of(seq![l] + l.neighbours().push(l))
}

/// Whether `n` is `l` or one of its six face neighbours: up, down, north
/// (z - 1), west (x - 1), south (z + 1), east (x + 1).
pub open spec fn self_or_face_neighbour(l: BlockLocation, n: BlockLocation) -> bool {
    ||| n == l
    ||| n == l.offset(0, 1, 0)
    ||| n == l.offset(0, -1, 0)
    ||| n == l.offset(0, 0, -1)
    ||| n == l.offset(-1, 0, 0)
    ||| n == l.offset(0, 0, 1)
    ||| n == l.offset(1, 0, 0)
}

/// The render chunks of `ls` hold the render chunk of each location of
/// `ls` whose height lies in a column, each once, and nothing else.
proof fn lemma_render_chunks_of(ls: Seq<BlockLocation>)
    ensures
        forall|i: int|
            0 <= i < ls.len() && has_layer(ls[i]) ==> #[trigger] render_chunks_of(ls).contains(
                render_chunk_of(ls[i]),
            ),
        forall|r: RenderChunkLocation|
            #[trigger] render_chunks_of(ls).contains(r) ==> exists|i: int|
                0 <= i < ls.len() && has_layer(ls[i]) && r == #[trigger] render_chunk_of(ls[i]),
        render_chunks_of(ls).no_duplicates(),
    decreases ls.len(),
{
    if ls.len() > 0 {
        let prev_ls = ls.drop_last();
        let prev = render_chunks_of(prev_ls);
        let l = ls.last();
        lemma_render_chunks_of(prev_ls);
        let out = render_chunks_of(ls);
        assert(out == with_render_chunk_of(prev, l));
        assert forall|i: int|
            0 <= i < ls.len() && has_layer(ls[i]) implies #[trigger] out.contains(render_chunk_of(ls[i])) by {
            if i < ls.len() - 1 {
                assert(prev_ls[i] == ls[i]);
                assert(prev.contains(render_chunk_of(prev_ls[i])));
                let k = choose|k: int| 0 <= k < prev.len() && prev[k] == render_chunk_of(ls[i]);
                assert(out[k] == prev[k]);
            } else if !prev.contains(render_chunk_of(l)) {
                assert(out[prev.len() as int] == render_chunk_of(l));
            } else {
                assert(out == prev);
            }
        }
        assert forall|r: RenderChunkLocation| #[trigger] out.contains(r) implies exists|i: int|
            0 <= i < ls.len() && has_layer(ls[i]) && r == #[trigger] render_chunk_of(ls[i]) by {
            let k = choose|k: int| 0 <= k < out.len() && out[k] == r;
            if k < prev.len() {
                assert(prev[k] == r);
                assert(prev.contains(r));
                let i = choose|i: int|
                    0 <= i < prev_ls.len() && has_layer(prev_ls[i]) && r == #[trigger] render_chunk_of(
                        prev_ls[i],
                    );
                assert(ls[i] == prev_ls[i]);
            } else {
                assert(r == render_chunk_of(ls[ls.len() - 1]));
            }
        }
        assert forall|a: int, b: int| 0 <= a < b < out.len() implies out[a] != out[b] by {
            if b >= prev.len() {
                assert(prev.contains(out[a]));
            }
        }
    }
}

/// Placing a block remeshes the render chunk of the location and of each
/// of its six face neighbours, north and south as well as the others,
/// where the height lies in a column; each once, and no other.
pub proof fn law_set_block_remeshes_neighbours(loc: BlockLocation, touched: Seq<RenderChunkLocation>)
    requires
        touched == touched_by(loc),
    ensures
        forall|n: BlockLocation|
            self_or_face_neighbour(loc, n) && has_layer(n) ==> #[trigger] touched.contains(
                render_chunk_of(n),
            ),
        forall|r: RenderChunkLocation|
            #[trigger] touched.contains(r) ==> exists|n: BlockLocation|
                self_or_face_neighbour(loc, n) && has_layer(n) && r == #[trigger] render_chunk_of(n),
        touched.no_duplicates(),
{
    let ls = seq![loc] + loc.neighbours().push(loc);
    lemma_render_chunks_of(ls);
    assert(ls[0] == loc);
    assert(ls[1] == loc.offset(0, 1, 0));
    assert(ls[2] == loc.offset(0, -1, 0));
    assert(ls[3] == loc.offset(0, 0, -1));
    assert(ls[4] == loc.offset(-1, 0, 0));
    assert(ls[5] == loc.offset(0, 0, 1));
    assert(ls[6] == loc.offset(1, 0, 0));
    assert(ls.len() == 8);
    assert forall|n: BlockLocation|
        self_or_face_neighbour(loc, n) && has_layer(n) implies #[trigger] touched.contains(
            render_chunk_of(n),
        ) by {
        if n == ls[0] {
        } else if n == ls[1] {
        } else if n == ls[2] {
        } else if n == ls[3] {
        } else if n == ls[4] {
        } else if n == ls[5] {
        } else {
            assert(n == ls[6]);
        }
    }
    assert forall|r: RenderChunkLocation| #[trigger] touched.contains(r) implies exists|n: BlockLocation|
        self_or_face_neighbour(loc, n) && has_layer(n) && r == #[trigger] render_chunk_of(n) by {
        let i = choose|i: int| 0 <= i < ls.len() && has_layer(ls[i]) && r == #[trigger] render_chunk_of(ls[i]);
        assert(self_or_face_neighbour(loc, ls[i]));
    }
}

/// Whether `m` is the mesh of render chunk `rl` as the columns of `chunks`
/// show it: meshed within its column, with the neighbours `chunks` holds.
pub open spec fn mesh_shown(chunks: Seq<Arc<Chunk>>, rl: RenderChunkLocation, m: MeshData) -> bool {
    match chunk_at(chunks, rl.chunk_location_spec()) {
        Some(big) => exists|g: ChunkGroup|
            {
                &&& g.wf()
                &&& g.base == big.location
                &&& g.gathers(chunks)
                &&& m.faces@ == mesh_faces(&big, &big.render_chunks@[rl.y as int], &g)
                &&& m.indecies@ == mesh_indices(m.faces@.len())
            },
        None => false,
    }
}

/// The chunk behind `a`, to change in place.
///
/// Calls `Arc::make_mut`. As std documents, where other handles share the
/// allocation the value is first cloned into a new one that `a` then
/// points to, so the reference handed out starts equal to the value, and
/// what is left in it is what `a` holds afterwards. `Chunk`'s `Clone` is
/// derived, so the clone equals the value it was made from.
#[verifier::external_body]
fn make_mut_chunk(a: &mut Arc<Chunk>) -> (r: &mut Chunk)
    ensures
        *r == **old(a),
        **final(a) == *final(r),
{
    Arc::make_mut(a)
}

/// What becomes of a finished mesh.
pub enum MeshPlacement {
    /// It replaces the mesh of a render chunk already drawn.
    Replace,
    /// A drawn render chunk is made for it.
    Create,
    /// Its column is no longer loaded; it is dropped.
    Skip,
}

/// The columns around a base column that a mesh of it looks into.
pub struct ChunkGroup {
    pub chunks: Vec<Arc<Chunk>>,
    pub base: ChunkLocation,
}

impl ChunkGroup {
    pub open spec fn wf(self) -> bool {
        &&& unique_locations(self.chunks@)
        &&& all_wf(self.chunks@)
    }

    /// Whether `chunks` holds, in the order north, east, south, west, those
    /// neighbours of `base` found in `loaded`, and nothing else.
    pub open spec fn gathers(self, loaded: Seq<Arc<Chunk>>) -> bool {
        let s = self.base.surrounding();
        &&& forall|i: int|
            0 <= i < 4 ==> (has_chunk(loaded, #[trigger] s[i]) <==> has_chunk(self.chunks@, s[i]))
        &&& forall|i: int|
            0 <= i < 4 ==> chunk_at(self.chunks@, #[trigger] s[i]) == chunk_at(loaded, s[i])
        &&& forall|i: int|
            0 <= i < self.chunks@.len() ==> s.contains(#[trigger] self.chunks@[i].location)
    }

    /// The group of the loaded neighbours of `base`.
    pub fn new(base: &Arc<Chunk>, chunk_handler: &ChunkHandler) -> (r: ChunkGroup)
        requires
            chunk_handler.wf(),
            base.location.neighbours_fit(),
        ensures
            r.wf(),
            r.base == base.location,
            r.gathers(chunk_handler.loaded_chunks@),
    {
        let loaded = &chunk_handler.loaded_chunks;
        let around = base.location.get_surrounding_chunks();
        let mut chunks: Vec<Arc<Chunk>> = Vec::new();
        assert(forall|a: int, b: int| 0 <= a < b < 4 ==> around@[a] != around@[b]);
        let mut k: usize = 0;
        while k < 4
            invariant
                k <= 4,
                around@ == base.location.surrounding(),
                forall|a: int, b: int| 0 <= a < b < around@.len() ==> around@[a] != around@[b],
                unique_locations(loaded@),
                all_wf(loaded@),
                unique_locations(chunks@),
                all_wf(chunks@),
                forall|i: int|
                    0 <= i < k ==> (has_chunk(loaded@, #[trigger] around@[i]) <==> has_chunk(
                        chunks@,
                        around@[i],
                    )),
                forall|i: int|
                    0 <= i < k ==> chunk_at(chunks@, #[trigger] around@[i]) == chunk_at(
                        loaded@,
                        around@[i],
                    ),
                forall|i: int|
                    0 <= i < chunks@.len() ==> exists|j: int|
                        0 <= j < k && (#[trigger] chunks@[i]).location == around@[j],
            decreases 4 - k,
        {
            let ghost before = chunks@;
            match find_chunk(loaded, &around[k]) {
                Some(i) => {
                    let c = share(&loaded[i]);
                    chunks.push(c);
                    proof {
                        let n = before.len() as int;
                        assert forall|a: int, b: int| 0 <= a < b < chunks@.len() implies (#[trigger] chunks@[a]).location
                            != (#[trigger] chunks@[b]).location by {
                            if b == n {
                                let j = choose|j: int| 0 <= j < k && (#[trigger] before[a]).location == around@[j];
                                assert(around@[j] != around@[k as int]);
                            }
                        }
                        lemma_chunk_at_index(chunks@, n);
                        assert(chunks@.drop_last() =~= before);
                        assert forall|i: int| 0 <= i < k + 1 implies (has_chunk(loaded@, #[trigger] around@[i]) <==> has_chunk(
                            chunks@,
                            around@[i],
                        )) && chunk_at(chunks@, around@[i]) == chunk_at(loaded@, around@[i]) by {
                            lemma_group_step(before, chunks@, around@, i, k as int);
                        }
                        assert forall|i: int| 0 <= i < chunks@.len() implies exists|j: int|
                            0 <= j < k + 1 && (#[trigger] chunks@[i]).location == around@[j] by {
                            if i < n {
                                let j = choose|j: int| 0 <= j < k && (#[trigger] before[i]).location == around@[j];
                                assert(chunks@[i] == before[i]);
                            } else {
                                assert(chunks@[i].location == around@[k as int]);
                            }
                        }
                    }
                },
                None => {},
            }
            k = k + 1;
        }
        ChunkGroup { chunks, base: base.location }
    }

    /// The column that holds world `loc`, if the group has it.
    pub fn get_chunk_for_block(&self, loc: &BlockLocation) -> (r: Option<Arc<Chunk>>)
        requires
            self.wf(),
        ensures
            r matches Some(c) ==> chunk_at(self.chunks@, column_of(*loc)) == Some(*c),
            r is None ==> chunk_at(self.chunks@, column_of(*loc)) is None,
    {
        let chunk_loc = ChunkLocation::new(floor_div_16(loc.x), floor_div_16(loc.z));
        match find_chunk(&self.chunks, &chunk_loc) {
            Some(i) => Some(share(&self.chunks[i])),
            None => None,
        }
    }

    pub fn is_transparent_and_self(&self, t: Arc<BlockType>, loc: &BlockLocation) -> (r: bool)
        requires
            self.wf(),
        ensures
            r == world_face_shows(self.chunks@, *t, *loc),
    {
        proof {
            law_column_holds_block(*loc);
        }
        match block_in(&self.chunks, loc) {
            Some(a) => a.is_transparent && a.is_air && t.is_transparent || a.is_transparent
                && !t.is_transparent,
            None => true,
        }
    }
}

/// Adding a chunk for the `k`-th neighbour keeps the group's lookups equal
/// to the loaded ones for the neighbours seen so far.
proof fn lemma_group_step(
    before: Seq<Arc<Chunk>>,
    after: Seq<Arc<Chunk>>,
    around: Seq<ChunkLocation>,
    i: int,
    k: int,
)
    requires
        0 <= i <= k,
        after.len() == before.len() + 1,
        after.drop_last() == before,
        after.last().location == around[k],
        unique_locations(after),
        forall|a: int, b: int| 0 <= a < b < around.len() ==> around[a] != around[b],
        k < around.len(),
    ensures
        i < k ==> (has_chunk(after, around[i]) <==> has_chunk(before, around[i])),
        i < k ==> chunk_at(after, around[i]) == chunk_at(before, around[i]),
        has_chunk(after, around[k]),
{
    assert(after[after.len() - 1].location == around[k]);
    if i < k {
        let l = around[i];
        if has_chunk(before, l) {
            let j = choose|j: int| 0 <= j < before.len() && (#[trigger] before[j]).location == l;
            assert(after[j] == before[j]);
            lemma_chunk_at_index(after, j);
            lemma_chunk_at_index(before, j);
        }
        if has_chunk(after, l) {
            let j = choose|j: int| 0 <= j < after.len() && (#[trigger] after[j]).location == l;
            if j == after.len() - 1 {
                assert(around[i] != around[k]);
            }
            assert(before[j] == after[j]);
        }
    }
}

/// Progress of the first generation of the world, shared with the loading
/// screen.
pub struct ChunkLoadingStatistic {
    pub chunks_max: i32,
    pub chunks_generated: i32,
    pub meshes_generated: i32,
    pub has_generated: bool,
}

impl ChunkLoadingStatistic {
    pub fn new() -> (r: ChunkLoadingStatistic)
        ensures
            r.chunks_max == 0,
            r.chunks_generated == 0,
            r.meshes_generated == 0,
            !r.has_generated,
    {
        ChunkLoadingStatistic {
            chunks_max: 0,
            chunks_generated: 0,
            meshes_generated: 0,
            has_generated: false,
        }
    }
}

/// A column waiting to be generated.
pub struct ChunkCreationTask {
    pub loc: ChunkLocation,
}

/// A column waiting to be meshed, with its neighbours.
pub struct MeshCreationTask {
    pub chunk: Arc<Chunk>,
    pub group: ChunkGroup,
}

impl MeshCreationTask {
    /// A well-formed column, meshable where it stands, and a group of its
    /// neighbours.
    pub open spec fn wf(self) -> bool {
        &&& self.chunk.wf()
        &&& self.chunk.location.meshable()
        &&& self.group.wf()
        &&& self.group.base == self.chunk.location
    }
}

/// A column that generation has finished.
pub struct ChunkCreationResult {
    pub chunk: Chunk,
}

/// The meshes of the render chunks of a column.
pub struct MeshCreationResult {
    pub data: Vec<(RenderChunkLocation, MeshData)>,
}

/// The loaded chunk columns and the decisions about generating, meshing
/// and unloading them.
pub struct ChunkHandler {
    pub loaded_chunks: Vec<Arc<Chunk>>,
    pub draw_chunks: Vec<RenderChunkLocation>,
    pub chunk_distance: i32,
    pub player_chunk_loc: ChunkLocation,
    pub seed: u32,
    pub generated_chunks_count: i32,
    pub has_generated_start: bool,
    pub to_generate: i32,
}

impl ChunkHandler {
    pub open spec fn wf(self) -> bool {
        &&& unique_locations(self.loaded_chunks@)
        &&& all_wf(self.loaded_chunks@)
        &&& all_meshable(self.loaded_chunks@)
        &&& self.draw_chunks@.no_duplicates()
    }

    /// A handler with nothing loaded and a fresh seed below `u32::MAX`.
    pub fn new(chunk_distance: i32) -> (r: ChunkHandler)
        ensures
            r.wf(),
            r.drawn_are_loaded(),
            r.loaded_chunks@.len() == 0,
            r.draw_chunks@.len() == 0,
            r.chunk_distance == chunk_distance,
            r.player_chunk_loc == (ChunkLocation { x: 0, z: 0 }),
            r.seed < u32::MAX,
            r.generated_chunks_count == 0,
            !r.has_generated_start,
            r.to_generate == 0,
    {
        let seed = random_below(u32::MAX);
        ChunkHandler {
            loaded_chunks: Vec::new(),
            draw_chunks: Vec::new(),
            chunk_distance,
            player_chunk_loc: ChunkLocation::new(0, 0),
            seed,
            generated_chunks_count: 0,
            has_generated_start: false,
            to_generate: 0,
        }
    }

    /// The first generation: every column of the square of `chunk_distance`
    /// around `player_chunk_loc` is to be generated, and their number is
    /// what the start waits for.
    pub fn generate(
        &mut self,
        chunk_loading_statistic: &mut ChunkLoadingStatistic,
        chunk_distance: i32,
        player_chunk_loc: ChunkLocation,
    ) -> (r: Vec<ChunkLocation>)
        requires
            square_fits(player_chunk_loc, chunk_distance as int),
        ensures
            r@ == loading_square(player_chunk_loc, chunk_distance as int),
            final(self).to_generate == square_size(chunk_distance as int),
            *final(self) == (ChunkHandler { to_generate: final(self).to_generate, ..*old(self) }),
            *final(chunk_loading_statistic) == (ChunkLoadingStatistic {
                chunks_max: square_size(chunk_distance as int) as i32,
                ..*old(chunk_loading_statistic)
            }),
    {
        assert(-46340 * 46340 <= (2 * chunk_distance + 1) * (2 * chunk_distance + 1) <= 46340
            * 46340) by (nonlinear_arith)
            requires
                -46340 <= 2 * chunk_distance + 1 <= 46340,
        ;
        let max_size = (chunk_distance + chunk_distance + 1) * (chunk_distance + chunk_distance + 1);
        self.to_generate = max_size;
        chunk_loading_statistic.chunks_max = max_size;
        square_around(&player_chunk_loc, chunk_distance)
    }

    /// The columns of the square of `chunk_distance` around the player's
    /// column that are not loaded yet.
    pub fn generate_new_chunks(&self, chunk_distance: i32) -> (r: Vec<ChunkLocation>)
        requires
            self.wf(),
            square_fits(self.player_chunk_loc, chunk_distance as int),
        ensures
            r@ == self.missing_columns(chunk_distance as int),
    {
        let square = square_around(&self.player_chunk_loc, chunk_distance);
        not_loaded(&square, &self.loaded_chunks)
    }

    /// The columns of the square of `d` around the player's column that are
    /// not loaded, in the square's order.
    pub open spec fn missing_columns(self, d: int) -> Seq<ChunkLocation> {
        loading_square(self.player_chunk_loc, d).filter(
            |l: ChunkLocation| !has_chunk(self.loaded_chunks@, l),
        )
    }

    /// Starts the world: keeps `chunk_distance`, marks the loading
    /// statistic as generating and generates around the player's column.
    pub fn start(
        &mut self,
        chunk_loading_stats: &mut ChunkLoadingStatistic,
        chunk_distance: i32,
    ) -> (r: Vec<ChunkLocation>)
        requires
            square_fits(old(self).player_chunk_loc, chunk_distance as int),
        ensures
            r@ == loading_square(old(self).player_chunk_loc, chunk_distance as int),
            *final(self) == (ChunkHandler {
                chunk_distance,
                to_generate: square_size(chunk_distance as int) as i32,
                ..*old(self)
            }),
            *final(chunk_loading_stats) == (ChunkLoadingStatistic {
                chunks_max: square_size(chunk_distance as int) as i32,
                has_generated: true,
                ..*old(chunk_loading_stats)
            }),
    {
        self.chunk_distance = chunk_distance;
        chunk_loading_stats.has_generated = true;
        let p = self.player_chunk_loc;
        self.generate(chunk_loading_stats, chunk_distance, p)
    }

    /// Takes in what arrived from the generators: the player's column is
    /// set from `player_block_pos`; a generated column is loaded, over any
    /// column at its location, and meshing tasks follow for it and then
    /// for each of its loaded neighbours, north, east, south, west. Until
    /// the start is complete, each generated column counts towards it.
    pub fn update(&mut self, player_block_pos: &BlockLocation, created: Option<ChunkCreationResult>) -> (r: Vec<
        MeshCreationTask,
    >)
        requires
            old(self).wf(),
            created matches Some(c) ==> c.chunk.wf() && c.chunk.location.meshable(),
            created is Some && !old(self).has_generated_start ==> old(self).generated_chunks_count
                < i32::MAX,
        ensures
            final(self).wf(),
            old(self).drawn_are_loaded() ==> final(self).drawn_are_loaded(),
            final(self).player_chunk_loc == column_of(*player_block_pos),
            final(self).draw_chunks == old(self).draw_chunks,
            final(self).chunk_distance == old(self).chunk_distance,
            final(self).seed == old(self).seed,
            final(self).to_generate == old(self).to_generate,
            created is None ==> {
                &&& r@.len() == 0
                &&& final(self).loaded_chunks == old(self).loaded_chunks
                &&& final(self).generated_chunks_count == old(self).generated_chunks_count
                &&& final(self).has_generated_start == old(self).has_generated_start
            },
            created matches Some(c) ==> {
                &&& forall|l: ChunkLocation|
                    #[trigger] chunk_at(final(self).loaded_chunks@, l) == if l == c.chunk.location {
                        Some(c.chunk)
                    } else {
                        chunk_at(old(self).loaded_chunks@, l)
                    }
                &&& r@.map_values(|t: MeshCreationTask| t.chunk.location) == seq![c.chunk.location]
                    + loaded_around(final(self).loaded_chunks@, c.chunk.location)
                &&& forall|i: int|
                    0 <= i < r@.len() ==> task_for(#[trigger] r@[i], final(self).loaded_chunks@)
                &&& old(self).has_generated_start ==> {
                    &&& final(self).generated_chunks_count == old(self).generated_chunks_count
                    &&& final(self).has_generated_start
                }
                &&& !old(self).has_generated_start ==> {
                    &&& final(self).generated_chunks_count == old(self).generated_chunks_count + 1
                    &&& final(self).has_generated_start == (old(self).generated_chunks_count + 1
                        == old(self).to_generate)
                }
            },
    {
        self.player_chunk_loc = self.get_chunk_loc_for_block(player_block_pos);
        let mut tasks: Vec<MeshCreationTask> = Vec::new();
        match created {
            Some(result) => {
                let chunk_arc = Arc::new(result.chunk);
                put_chunk(&mut self.loaded_chunks, share(&chunk_arc));
                proof {
                    lemma_chunk_at_found(self.loaded_chunks@, chunk_arc.location);
                }
                let first = self.remesh_chunk_queue(share(&chunk_arc));
                tasks.push(first);
                let around = chunk_arc.location.get_surrounding_chunks();
                let ghost loc = chunk_arc.location;
                let ghost pred = |l: ChunkLocation| has_chunk(self.loaded_chunks@, l);
                let mut k: usize = 0;
                while k < 4
                    invariant
                        k <= 4,
                        self.wf(),
                        around@ == loc.surrounding(),
                        pred == (|l: ChunkLocation| has_chunk(self.loaded_chunks@, l)),
                        tasks@.map_values(|t: MeshCreationTask| t.chunk.location) == seq![loc]
                            + around@.take(k as int).filter(pred),
                        forall|i: int|
                            0 <= i < tasks@.len() ==> task_for(#[trigger] tasks@[i], self.loaded_chunks@),
                    decreases 4 - k,
                {
                    let ghost before = tasks@;
                    proof {
                        assert(around@.take(k + 1).drop_last() =~= around@.take(k as int));
                        reveal(Seq::filter);
                    }
                    match find_chunk(&self.loaded_chunks, &around[k]) {
                        Some(i) => {
                            proof {
                                assert(self.loaded_chunks@[i as int].wf());
                                assert(self.loaded_chunks@[i as int].location.meshable());
                            }
                            let t = self.remesh_chunk_queue(share(&self.loaded_chunks[i]));
                            tasks.push(t);
                            proof {
                                assert(has_chunk(self.loaded_chunks@, around@[k as int]));
                                assert(tasks@.map_values(|t: MeshCreationTask| t.chunk.location)
                                    =~= before.map_values(|t: MeshCreationTask| t.chunk.location).push(
                                    around@[k as int],
                                ));
                            }
                        },
                        None => {},
                    }
                    k = k + 1;
                }
                assert(around@.take(4) =~= around@);
                if !self.has_generated_start {
                    self.generated_chunks_count = self.generated_chunks_count + 1;
                    if self.generated_chunks_count == self.to_generate {
                        self.has_generated_start = true;
                    }
                }
            },
            None => {},
        }
        tasks
    }

    /// Where the mesh of render chunk `loc` goes: over the mesh of a drawn
    /// render chunk, into a new drawn render chunk where its column is
    /// loaded, or nowhere.
    pub fn place_mesh(&mut self, loc: &RenderChunkLocation) -> (r: MeshPlacement)
        requires
            old(self).wf(),
        ensures
            final(self).wf(),
            old(self).drawn_are_loaded() && 0 <= loc.y < LAYERS ==> final(self).drawn_are_loaded(),
            old(self).draw_chunks@.contains(*loc) ==> r is Replace && *final(self) == *old(self),
            !old(self).draw_chunks@.contains(*loc) && has_chunk(
                old(self).loaded_chunks@,
                loc.chunk_location_spec(),
            ) ==> r is Create && final(self).draw_chunks@ == old(self).draw_chunks@.push(*loc)
                && *final(self) == (ChunkHandler {
                draw_chunks: final(self).draw_chunks,
                ..*old(self)
            }),
            !old(self).draw_chunks@.contains(*loc) && !has_chunk(
                old(self).loaded_chunks@,
                loc.chunk_location_spec(),
            ) ==> r is Skip && *final(self) == *old(self),
    {
        match find_draw(&self.draw_chunks, loc) {
            Some(_) => MeshPlacement::Replace,
            None => {
                if self.chunk_is_loaded(&loc.get_chunk_location()) {
                    self.draw_chunks.push(*loc);
                    MeshPlacement::Create
                } else {
                    MeshPlacement::Skip
                }
            },
        }
    }

    /// Once the start is complete: unloads each loaded column whose entry
    /// in `in_range` (one per loaded column, in order) is false, with its
    /// drawn render chunks; remeshes the loaded neighbours of each unloaded
    /// column; and lists the columns around the player still to generate.
    /// Before that, nothing changes.
    pub fn update_on_second(&mut self, in_range: &Vec<bool>) -> (r: SecondUpdate)
        requires
            old(self).wf(),
            in_range@.len() == old(self).loaded_chunks@.len(),
            old(self).has_generated_start ==> square_fits(
                old(self).player_chunk_loc,
                old(self).chunk_distance as int,
            ),
        ensures
            final(self).wf(),
            old(self).drawn_are_loaded() ==> final(self).drawn_are_loaded(),
            !old(self).has_generated_start ==> {
                &&& *final(self) == *old(self)
                &&& r.freed@.len() == 0
                &&& r.remesh@.len() == 0
                &&& r.to_generate@.len() == 0
            },
            old(self).has_generated_start ==> {
                let gone = columns_out_of_range(
                    old(self).loaded_chunks@,
                    in_range@,
                    in_range@.len() as int,
                );
                &&& forall|l: ChunkLocation|
                    #[trigger] chunk_at(final(self).loaded_chunks@, l) == if gone.contains(l) {
                        None
                    } else {
                        chunk_at(old(self).loaded_chunks@, l)
                    }
                &&& forall|d: RenderChunkLocation|
                    #[trigger] final(self).draw_chunks@.contains(d) == (old(
                        self,
                    ).draw_chunks@.contains(d) && !in_columns(gone, d))
                &&& r.freed@.no_duplicates()
                &&& forall|d: RenderChunkLocation|
                    #[trigger] r.freed@.contains(d) == (old(self).draw_chunks@.contains(d)
                        && in_columns(gone, d))
                &&& r.remesh@.map_values(|t: MeshCreationTask| t.chunk.location)
                    == loaded_around_all(gone, final(self).loaded_chunks@)
                &&& forall|i: int|
                    0 <= i < r.remesh@.len() ==> task_for(
                        #[trigger] r.remesh@[i],
                        final(self).loaded_chunks@,
                    )
                &&& r.to_generate@ == final(self).missing_columns(final(self).chunk_distance as int)
                &&& *final(self) == (ChunkHandler {
                    loaded_chunks: final(self).loaded_chunks,
                    draw_chunks: final(self).draw_chunks,
                    ..*old(self)
                })
            },
    {
        if !self.has_generated_start {
            return SecondUpdate { freed: Vec::new(), remesh: Vec::new(), to_generate: Vec::new() };
        }
        let ghost old_loaded = self.loaded_chunks@;
        let ghost old_draw = self.draw_chunks@;
        let mut gone: Vec<ChunkLocation> = Vec::new();
        let mut i: usize = 0;
        while i < self.loaded_chunks.len()
            invariant
                self.wf(),
                self.loaded_chunks@ == old_loaded,
                in_range@.len() == old_loaded.len(),
                i <= old_loaded.len(),
                gone@ == columns_out_of_range(old_loaded, in_range@, i as int),
                gone@.no_duplicates(),
                forall|a: int|
                    0 <= a < gone@.len() ==> exists|j: int|
                        0 <= j < i && #[trigger] gone@[a] == old_loaded[j].location,
            decreases old_loaded.len() - i,
        {
            if !in_range[i] {
                let ghost before = gone@;
                gone.push(self.loaded_chunks[i].location);
                proof {
                    assert forall|a: int, b: int| 0 <= a < b < gone@.len() implies gone@[a]
                        != gone@[b] by {
                        if b == before.len() {
                            let j = choose|j: int| 0 <= j < i && #[trigger] before[a] == old_loaded[j].location;
                            assert(old_loaded[j].location != old_loaded[i as int].location);
                        }
                    }
                    assert forall|a: int| 0 <= a < gone@.len() implies exists|j: int|
                        0 <= j < i + 1 && #[trigger] gone@[a] == old_loaded[j].location by {
                        if a < before.len() {
                            let j = choose|j: int| 0 <= j < i && #[trigger] before[a] == old_loaded[j].location;
                            assert(gone@[a] == old_loaded[j].location);
                        } else {
                            assert(gone@[a] == old_loaded[i as int].location);
                        }
                    }
                }
            }
            i = i + 1;
        }
        let ghost all_gone = gone@;
        let mut freed: Vec<RenderChunkLocation> = Vec::new();
        let mut k: usize = 0;
        while k < gone.len()
            invariant
                self.wf(),
                gone@ == all_gone,
                all_gone.no_duplicates(),
                forall|a: int|
                    0 <= a < all_gone.len() ==> exists|j: int|
                        0 <= j < old_loaded.len() && #[trigger] all_gone[a] == old_loaded[j].location,
                unique_locations(old_loaded),
                k <= all_gone.len(),
                forall|l: ChunkLocation|
                    #[trigger] chunk_at(self.loaded_chunks@, l) == if all_gone.take(k as int).contains(l) {
                        None
                    } else {
                        chunk_at(old_loaded, l)
                    },
                forall|d: RenderChunkLocation|
                    #[trigger] self.draw_chunks@.contains(d) == (old_draw.contains(d) && !in_columns(
                        all_gone.take(k as int),
                        d,
                    )),
                freed@.no_duplicates(),
                forall|d: RenderChunkLocation|
                    #[trigger] freed@.contains(d) == (old_draw.contains(d) && in_columns(
                        all_gone.take(k as int),
                        d,
                    )),
                self.has_generated_start == old(self).has_generated_start,
                self.chunk_distance == old(self).chunk_distance,
                self.player_chunk_loc == old(self).player_chunk_loc,
                self.seed == old(self).seed,
                self.generated_chunks_count == old(self).generated_chunks_count,
                self.to_generate == old(self).to_generate,
            decreases all_gone.len() - k,
        {
            let ghost u = all_gone[k as int];
            let ghost prev = all_gone.take(k as int);
            let ghost next = all_gone.take(k + 1);
            proof {
                assert(next == prev.push(u));
                assert(!prev.contains(u)) by {
                    if prev.contains(u) {
                        let a = choose|a: int| 0 <= a < prev.len() && prev[a] == u;
                        assert(all_gone[a] == all_gone[k as int]);
                    }
                }
                let j = choose|j: int| 0 <= j < old_loaded.len() && #[trigger] all_gone[k as int] == old_loaded[j].location;
                lemma_chunk_at_index(old_loaded, j);
                assert(has_chunk(old_loaded, u));
            }
            let ghost loaded_k = self.loaded_chunks@;
            proof {
                assert(chunk_at(loaded_k, u) == chunk_at(old_loaded, u));
                assert(has_chunk(loaded_k, u));
                assert forall|l: ChunkLocation| #[trigger] next.contains(l) == (prev.contains(l) || l == u) by {
                    if next.contains(l) {
                        let a = choose|a: int| 0 <= a < next.len() && next[a] == l;
                        if a < prev.len() {
                            assert(prev[a] == l);
                        }
                    }
                    if prev.contains(l) {
                        let a = choose|a: int| 0 <= a < prev.len() && prev[a] == l;
                        assert(next[a] == l);
                    }
                    if l == u {
                        assert(next[k as int] == l);
                    }
                }
            }
            let taken = take_chunk(&mut self.loaded_chunks, &gone[k]);
            match taken {
                Some(c) => {
                    let ghost draw_k = self.draw_chunks@;
                    let ghost freed_k = freed@;
                    let ghost before_inner = *self;
                    proof {
                        assert(chunk_at(old_loaded, u) == Some(*c));
                        lemma_chunk_at_found(old_loaded, u);
                    }
                    let mut y: usize = 0;
                    while y < c.render_chunks.len()
                        invariant
                            c.wf(),
                            c.location == u,
                            y <= LAYERS,
                            *self == (ChunkHandler { draw_chunks: self.draw_chunks, ..before_inner }),
                            self.draw_chunks@.no_duplicates(),
                            freed@.no_duplicates(),
                            forall|d: RenderChunkLocation|
                                #[trigger] self.draw_chunks@.contains(d) == (draw_k.contains(d) && !(
                                d.chunk_location_spec() == u && 0 <= d.y < y)),
                            forall|d: RenderChunkLocation|
                                #[trigger] freed@.contains(d) == (freed_k.contains(d) || (draw_k.contains(d)
                                    && d.chunk_location_spec() == u && 0 <= d.y < y)),
                            forall|d: RenderChunkLocation|
                                #[trigger] freed_k.contains(d) ==> !draw_k.contains(d),
                        decreases LAYERS - y,
                    {
                        let rl = c.render_chunks[y].location;
                        proof {
                            assert(c.render_chunks@[y as int].location == RenderChunkLocation {
                                x: u.x,
                                y: y as i32,
                                z: u.z,
                            });
                        }
                        match find_draw(&self.draw_chunks, &rl) {
                            Some(j) => {
                                let ghost draw_y = self.draw_chunks@;
                                let ghost freed_y = freed@;
                                proof {
                                    lemma_remove_distinct(self.draw_chunks@, j as int);
                                    assert(self.draw_chunks@.contains(rl));
                                    assert(draw_k.contains(rl));
                                    assert(!freed@.contains(rl));
                                }
                                self.draw_chunks.remove(j);
                                freed.push(rl);
                                proof {
                                    assert forall|d: RenderChunkLocation| #[trigger] freed@.contains(d)
                                        == (freed_y.contains(d) || d == rl) by {
                                        if freed@.contains(d) {
                                            let a = choose|a: int| 0 <= a < freed@.len() && freed@[a] == d;
                                            if a < freed_y.len() {
                                                assert(freed_y[a] == d);
                                            }
                                        }
                                        if freed_y.contains(d) {
                                            let a = choose|a: int| 0 <= a < freed_y.len() && freed_y[a] == d;
                                            assert(freed@[a] == d);
                                        }
                                        if d == rl {
                                            assert(freed@[freed_y.len() as int] == d);
                                        }
                                    }
                                    assert forall|a: int, b: int| 0 <= a < b < freed@.len() implies freed@[a]
                                        != freed@[b] by {
                                        if b == freed_y.len() {
                                            assert(freed_y.contains(freed@[a]));
                                        }
                                    }
                                }
                            },
                            None => {},
                        }
                        y = y + 1;
                    }
                },
                None => {
                    proof {
                        assert(false);
                    }
                },
            }
            k = k + 1;
        }

        assert(all_gone.take(all_gone.len() as int) =~= all_gone);
        let ghost settled = *self;
        let mut remesh: Vec<MeshCreationTask> = Vec::new();
        let mut k: usize = 0;
        while k < gone.len()
            invariant
                self.wf(),
                *self == settled,
                gone@ == all_gone,
                all_meshable(old_loaded),
                forall|a: int|
                    0 <= a < all_gone.len() ==> exists|j: int|
                        0 <= j < old_loaded.len() && #[trigger] all_gone[a] == old_loaded[j].location,
                k <= all_gone.len(),
                remesh@.map_values(|t: MeshCreationTask| t.chunk.location) == loaded_around_all(
                    all_gone.take(k as int),
                    self.loaded_chunks@,
                ),
                forall|i: int|
                    0 <= i < remesh@.len() ==> task_for(#[trigger] remesh@[i], self.loaded_chunks@),
            decreases all_gone.len() - k,
        {
            proof {
                let j = choose|j: int| 0 <= j < old_loaded.len() && #[trigger] all_gone[k as int] == old_loaded[j].location;
                assert(old_loaded[j].location.meshable());
                assert(all_gone.take(k + 1).drop_last() =~= all_gone.take(k as int));
            }
            let around = gone[k].get_surrounding_chunks();
            let ghost u = all_gone[k as int];
            let ghost base = remesh@.map_values(|t: MeshCreationTask| t.chunk.location);
            let ghost pred = |l: ChunkLocation| has_chunk(self.loaded_chunks@, l);
            let mut j: usize = 0;
            while j < 4
                invariant
                    j <= 4,
                    self.wf(),
                    around@ == u.surrounding(),
                    pred == (|l: ChunkLocation| has_chunk(self.loaded_chunks@, l)),
                    remesh@.map_values(|t: MeshCreationTask| t.chunk.location) == base
                        + around@.take(j as int).filter(pred),
                    forall|i: int|
                        0 <= i < remesh@.len() ==> task_for(#[trigger] remesh@[i], self.loaded_chunks@),
                decreases 4 - j,
            {
                let ghost before = remesh@;
                proof {
                    assert(around@.take(j + 1).drop_last() =~= around@.take(j as int));
                    reveal(Seq::filter);
                }
                match find_chunk(&self.loaded_chunks, &around[j]) {
                    Some(i) => {
                        proof {
                            assert(self.loaded_chunks@[i as int].wf());
                            assert(self.loaded_chunks@[i as int].location.meshable());
                        }
                        let t = self.remesh_chunk_queue(share(&self.loaded_chunks[i]));
                        remesh.push(t);
                        proof {
                            assert(has_chunk(self.loaded_chunks@, around@[j as int]));
                            assert(remesh@.map_values(|t: MeshCreationTask| t.chunk.location)
                                =~= before.map_values(|t: MeshCreationTask| t.chunk.location).push(
                                around@[j as int],
                            ));
                        }
                    },
                    None => {},
                }
                j = j + 1;
            }
            proof {
                assert(around@.take(4) =~= around@);
            }
            k = k + 1;
        }
        proof {
            if old(self).drawn_are_loaded() {
                assert forall|i: int| 0 <= i < self.draw_chunks@.len() implies has_chunk(
                    self.loaded_chunks@,
                    (#[trigger] self.draw_chunks@[i]).chunk_location_spec(),
                ) && 0 <= self.draw_chunks@[i].y < LAYERS by {
                    let d = self.draw_chunks@[i];
                    let col = d.chunk_location_spec();
                    assert(self.draw_chunks@.contains(d));
                    assert(old_draw.contains(d) && !in_columns(all_gone, d));
                    let j = choose|j: int| 0 <= j < old_draw.len() && old_draw[j] == d;
                    assert(has_chunk(old_loaded, old_draw[j].chunk_location_spec()));
                    assert(!all_gone.contains(col));
                    assert(chunk_at(self.loaded_chunks@, col) == chunk_at(old_loaded, col));
                }
            }
        }
        let to_generate = self.generate_new_chunks(self.chunk_distance);
        SecondUpdate { freed, remesh, to_generate }
    }

    /// Meshes the render chunk that holds world `l` after those of
    /// `meshes`, unless its height lies outside the column or `meshes` has
    /// it already.
    fn remesh_block_chunk(&self, l: &BlockLocation, meshes: &mut Vec<(RenderChunkLocation, MeshData)>)
        requires
            self.wf(),
            has_chunk(self.loaded_chunks@, column_of(*l)),
            forall|i: int|
                0 <= i < old(meshes)@.len() ==> mesh_shown(
                    self.loaded_chunks@,
                    #[trigger] old(meshes)@[i].0,
                    old(meshes)@[i].1,
                ),
        ensures
            final(meshes)@.map_values(|p: (RenderChunkLocation, MeshData)| p.0)
                == with_render_chunk_of(
                old(meshes)@.map_values(|p: (RenderChunkLocation, MeshData)| p.0),
                *l,
            ),
            forall|i: int|
                0 <= i < final(meshes)@.len() ==> mesh_shown(
                    self.loaded_chunks@,
                    #[trigger] final(meshes)@[i].0,
                    final(meshes)@[i].1,
                ),
    {
        let ghost done = meshes@.map_values(|p: (RenderChunkLocation, MeshData)| p.0);
        proof {
            lemma_chunk_at_found(self.loaded_chunks@, column_of(*l));
        }
        let base_chunk = match self.get_chunk_for_block(l) {
            Some(c) => c,
            None => {
                return;
            },
        };
        proof {
            base_chunk.lemma_lookup(*l);
        }
        match base_chunk.get_render_chunk_for_loc(l) {
            Some(rc) => {
                let rl = rc.location;
                assert(rl == render_chunk_of(*l));
                let mut i: usize = 0;
                while i < meshes.len()
                    invariant
                        i <= meshes@.len(),
                        meshes@ == old(meshes)@,
                        done == meshes@.map_values(|p: (RenderChunkLocation, MeshData)| p.0),
                        rl == render_chunk_of(*l),
                        has_layer(*l),
                        forall|k: int| 0 <= k < i ==> meshes@[k].0 != rl,
                        forall|i: int|
                            0 <= i < old(meshes)@.len() ==> mesh_shown(
                                self.loaded_chunks@,
                                #[trigger] old(meshes)@[i].0,
                                old(meshes)@[i].1,
                            ),
                    decreases meshes@.len() - i,
                {
                    if meshes[i].0.equals(&rl) {
                        assert(done[i as int] == rl);
                        assert(done.contains(rl));
                        return;
                    }
                    i = i + 1;
                }
                assert(!done.contains(rl)) by {
                    if done.contains(rl) {
                        let k = choose|k: int| 0 <= k < done.len() && done[k] == rl;
                        assert(meshes@[k].0 == rl);
                    }
                }
                let group = ChunkGroup::new(&base_chunk, self);
                assert(mesh_fits(&*base_chunk, rc));
                let mesh = ChunkMesh::new_data(&base_chunk, rc, &group);
                let ghost before = meshes@;
                meshes.push((rl, mesh));
                proof {
                    assert(meshes@.map_values(|p: (RenderChunkLocation, MeshData)| p.0)
                        =~= done.push(rl));
                    assert forall|i: int|
                        0 <= i < meshes@.len() implies mesh_shown(
                        self.loaded_chunks@,
                        #[trigger] meshes@[i].0,
                        meshes@[i].1,
                    ) by {
                        if i == before.len() {
                            assert(rl.chunk_location_spec() == base_chunk.location);
                            assert(base_chunk.render_chunks@[rl.y as int] == *rc);
                        } else {
                            assert(meshes@[i] == before[i]);
                        }
                    }
                }
            },
            None => {},
        }
    }

    /// Places `t` at world `loc`, where its column is loaded, and gives
    /// back the new mesh of each render chunk the change shows in: that of
    /// `loc`, then those of its six neighbours, each once. The columns of
    /// the neighbours of a loaded column must be loaded.
    pub fn set_block_at(&mut self, t: Arc<BlockType>, loc: &BlockLocation) -> (r: Vec<
        (RenderChunkLocation, MeshData),
    >)
        requires
            old(self).wf(),
            loc.steps_fit(),
            has_chunk(old(self).loaded_chunks@, column_of(*loc)) ==> forall|i: int|
                0 <= i < 6 ==> has_chunk(
                    old(self).loaded_chunks@,
                    column_of(#[trigger] loc.neighbours()[i]),
                ),
        ensures
            final(self).wf(),
            old(self).drawn_are_loaded() ==> final(self).drawn_are_loaded(),
            forall|l: BlockLocation|
                #[trigger] final(self).block_at(l) == if l == *loc && old(self).block_at(*loc) is Some {
                    Some(*t)
                } else {
                    old(self).block_at(l)
                },
            *final(self) == (ChunkHandler { loaded_chunks: final(self).loaded_chunks, ..*old(self) }),
            !has_chunk(old(self).loaded_chunks@, column_of(*loc)) ==> r@.len() == 0
                && final(self).loaded_chunks == old(self).loaded_chunks,
            has_chunk(old(self).loaded_chunks@, column_of(*loc)) ==> {
                &&& r@.map_values(|p: (RenderChunkLocation, MeshData)| p.0) == touched_by(*loc)
                &&& forall|i: int|
                    0 <= i < r@.len() ==> mesh_shown(
                        final(self).loaded_chunks@,
                        #[trigger] r@[i].0,
                        r@[i].1,
                    )
            },
    {
        let mut meshes: Vec<(RenderChunkLocation, MeshData)> = Vec::new();
        let ghost old_loaded = self.loaded_chunks@;
        let mut arc = match self.get_chunk_for_block(loc) {
            Some(a) => a,
            None => {
                return meshes;
            },
        };
        proof {
            lemma_chunk_at_found(old_loaded, column_of(*loc));
            law_column_holds_block(*loc);
        }
        let ghost old_arc = arc;
        let c = make_mut_chunk(&mut arc);
        let chunk_pos = loc.get_chunk_values(&c.location);
        c.set_block_at(t, &chunk_pos);
        put_chunk(&mut self.loaded_chunks, arc);
        proof {
            assert forall|l: BlockLocation|
                #[trigger] self.block_at(l) == if l == *loc && old(self).block_at(*loc) is Some {
                    Some(*t)
                } else {
                    old(self).block_at(l)
                } by {
                law_column_holds_block(l);
                if column_of(l) == column_of(*loc) && l != *loc {
                    assert(l.chunk_values_spec(old_arc.location) != chunk_pos);
                }
            }
            assert forall|i: int| 0 <= i < 6 implies has_chunk(
                self.loaded_chunks@,
                column_of(#[trigger] loc.neighbours()[i]),
            ) by {
                assert(has_chunk(old_loaded, column_of(loc.neighbours()[i])));
            }
        }
        assert(meshes@.map_values(|p: (RenderChunkLocation, MeshData)| p.0) =~= seq![]);
        self.remesh_block_chunk(loc, &mut meshes);
        let around = loc.get_neighbours_and_self();
        let ghost cands = seq![*loc] + loc.neighbours().push(*loc);
        proof {
            assert(seq![*loc].drop_last() =~= seq![]);
            assert(cands.take(1) =~= seq![*loc]);
            assert(render_chunks_of(seq![*loc].drop_last()) =~= seq![]);
            assert(render_chunks_of(cands.take(1)) == with_render_chunk_of(seq![], *loc));
        }
        let mut k: usize = 0;
        while k < around.len()
            invariant
                self.wf(),
                around@ == loc.neighbours().push(*loc),
                cands == seq![*loc] + loc.neighbours().push(*loc),
                k <= 7,
                has_chunk(self.loaded_chunks@, column_of(*loc)),
                forall|i: int|
                    0 <= i < 6 ==> has_chunk(
                        self.loaded_chunks@,
                        column_of(#[trigger] loc.neighbours()[i]),
                    ),
                meshes@.map_values(|p: (RenderChunkLocation, MeshData)| p.0) == render_chunks_of(
                    cands.take(k + 1),
                ),
                forall|i: int|
                    0 <= i < meshes@.len() ==> mesh_shown(
                        self.loaded_chunks@,
                        #[trigger] meshes@[i].0,
                        meshes@[i].1,
                    ),
            decreases 7 - k,
        {
            proof {
                assert(cands.take(k + 2).drop_last() =~= cands.take(k + 1));
                assert(cands.take(k + 2).last() == around@[k as int]);
                if k < 6 {
                    assert(has_chunk(self.loaded_chunks@, column_of(loc.neighbours()[k as int])));
                }
            }
            self.remesh_block_chunk(&around[k], &mut meshes);
            k = k + 1;
        }
        proof {
            assert(cands.take(8) =~= cands);
        }
        meshes
    }

    /// The task of meshing `chunk` with its loaded neighbours.
    pub fn remesh_chunk_queue(&self, chunk: Arc<Chunk>) -> (r: MeshCreationTask)
        requires
            self.wf(),
            chunk.wf(),
            chunk.location.meshable(),
        ensures
            r.wf(),
            r.chunk == chunk,
            r.group.gathers(self.loaded_chunks@),
    {
        let group = ChunkGroup::new(&chunk, self);
        MeshCreationTask { chunk, group }
    }

    /// Meshes every render chunk of the task's column.
    pub fn remesh_chunk(mt: MeshCreationTask) -> (r: MeshCreationResult)
        requires
            mt.wf(),
        ensures
            r.data@.len() == LAYERS,
            forall|i: int|
                0 <= i < LAYERS ==> {
                    &&& (#[trigger] r.data@[i]).0 == mt.chunk.render_chunks@[i].location
                    &&& r.data@[i].1.faces@ == mesh_faces(
                        &*mt.chunk,
                        &mt.chunk.render_chunks@[i],
                        &mt.group,
                    )
                    &&& r.data@[i].1.indecies@ == mesh_indices(r.data@[i].1.faces@.len())
                },
    {
        let chunk = mt.chunk;
        let meshes = chunk.generate_meshes(&mt.group);
        MeshCreationResult { data: meshes }
    }

    /// Whether every drawn render chunk is one of the six of a loaded
    /// column.
    pub open spec fn drawn_are_loaded(self) -> bool {
        forall|i: int|
            0 <= i < self.draw_chunks@.len() ==> has_chunk(
                self.loaded_chunks@,
                (#[trigger] self.draw_chunks@[i]).chunk_location_spec(),
            ) && 0 <= self.draw_chunks@[i].y < LAYERS
    }

    /// The block at world location `l`, where its column is loaded.
    pub open spec fn block_at(self, l: BlockLocation) -> Option<BlockType> {
        world_block(self.loaded_chunks@, l)
    }

    /// The column that holds world `loc`: x and z divided by 16, rounded
    /// down.
    pub fn get_chunk_loc_for_block(&self, loc: &BlockLocation) -> (r: ChunkLocation)
        ensures
            r == column_of(*loc),
    {
        ChunkLocation { x: floor_div_16(loc.x), z: floor_div_16(loc.z) }
    }

    pub fn get_chunk_for_block_xy(&self, x: i32, z: i32) -> (r: Option<Arc<Chunk>>)
        requires
            self.wf(),
        ensures
            r matches Some(c) ==> chunk_at(self.loaded_chunks@, ChunkLocation { x, z }) == Some(*c),
            r is None ==> chunk_at(self.loaded_chunks@, ChunkLocation { x, z }) is None,
    {
        let loc = ChunkLocation::new(x, z);
        match find_chunk(&self.loaded_chunks, &loc) {
            Some(i) => Some(share(&self.loaded_chunks[i])),
            None => None,
        }
    }

    pub fn get_chunk_for_block(&self, loc: &BlockLocation) -> (r: Option<Arc<Chunk>>)
        requires
            self.wf(),
        ensures
            r matches Some(c) ==> chunk_at(self.loaded_chunks@, column_of(*loc)) == Some(*c),
            r is None ==> chunk_at(self.loaded_chunks@, column_of(*loc)) is None,
    {
        let chunk_x = floor_div_16(loc.x);
        let chunk_z = floor_div_16(loc.z);
        self.get_chunk_for_block_xy(chunk_x, chunk_z)
    }

    pub fn chunk_is_loaded(&self, loc: &ChunkLocation) -> (r: bool)
        requires
            self.wf(),
        ensures
            r == has_chunk(self.loaded_chunks@, *loc),
    {
        find_chunk(&self.loaded_chunks, loc).is_some()
    }

    pub fn get_type(&self, loc: &BlockLocation) -> (r: Option<Arc<BlockType>>)
        requires
            self.wf(),
        ensures
            r matches Some(b) ==> self.block_at(*loc) == Some(*b),
            r is None ==> self.block_at(*loc) is None,
    {
        block_in(&self.loaded_chunks, loc)
    }

    /// Air where the column is not loaded, else whether the block is air.
    pub open spec fn is_air_spec(self, l: BlockLocation) -> bool {
        match self.block_at(l) {
            Some(b) => b.is_air,
            None => true,
        }
    }

    pub fn is_air(&self, loc: &BlockLocation) -> (r: bool)
        requires
            self.wf(),
        ensures
            r == self.is_air_spec(*loc),
    {
        match self.get_type(loc) {
            Some(b) => b.is_air,
            None => true,
        }
    }

    pub fn is_transparent(&self, loc: &BlockLocation) -> (r: bool)
        requires
            self.wf(),
        ensures
            r == match self.block_at(*loc) {
                Some(b) => b.is_transparent,
                None => true,
            },
    {
        match self.get_type(loc) {
            Some(b) => b.is_transparent,
            None => true,
        }
    }

    pub fn is_transparent_and_self(&self, t: Arc<BlockType>, loc: &BlockLocation) -> (r: bool)
        requires
            self.wf(),
        ensures
            r == world_face_shows(self.loaded_chunks@, *t, *loc),
    {
        match self.get_type(loc) {
            Some(a) => a.is_transparent && a.is_air && t.is_transparent || a.is_transparent
                && !t.is_transparent,
            None => true,
        }
    }

    /// True when none of the six face neighbours of `loc` is air.
    pub fn is_surrounded_by_solid(&self, loc: &BlockLocation) -> (r: bool)
        requires
            self.wf(),
            loc.steps_fit(),
        ensures
            r == (forall|i: int| 0 <= i < 6 ==> !self.is_air_spec(#[trigger] loc.neighbours()[i])),
    {
        let neighbours = loc.get_neighbours();
        let mut i: usize = 0;
        while i < neighbours.len()
            invariant
                self.wf(),
                neighbours@ == loc.neighbours(),
                i <= 6,
                forall|k: int| 0 <= k < i ==> !self.is_air_spec(#[trigger] loc.neighbours()[k]),
            decreases 6 - i,
        {
            if self.is_air(&neighbours[i]) {
                return false;
            }
            i = i + 1;
        }
        true
    }
}

} // verus!
