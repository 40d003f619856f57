use vstd::prelude::*;

use std::sync::Arc;

use crate::block::block_type::{quad_indices, BlockType};
use crate::block::location::{block_loc, BlockLocation, Direction};
use crate::shared::share;
use crate::world::chunk::chunk::{Chunk, DEPTH, WIDTH};
use crate::world::chunk::chunk_handler::{world_face_shows, ChunkGroup};
use crate::world::chunk::render_chunk::{in_render_chunk, RenderChunk, HEIGHT as RC_HEIGHT};

verus! {

/// One visible face of a block of a render chunk: the block's position
/// relative to the render chunk, the way the face points, and the block.
pub struct Face {
    pub x: i32,
    pub y: i32,
    pub z: i32,
    pub direction: Direction,
    pub block: Arc<BlockType>,
}

/// The faces of a render chunk's mesh, and the indices of the two triangles
/// of each face's quad, the quads' vertices being numbered four per face.
pub struct MeshData {
    pub faces: Vec<Face>,
    pub indecies: Vec<u16>,
}

/// The step to the neighbour a face pointing in `d` looks at.
pub open spec fn step(l: BlockLocation, d: Direction) -> BlockLocation {
    match d {
        Direction::DOWN => l.offset(0, -1, 0),
        Direction::UP => l.offset(0, 1, 0),
        Direction::EAST => l.offset(1, 0, 0),
        Direction::SOUTH => l.offset(0, 0, 1),
        Direction::NORTH => l.offset(0, 0, -1),
        Direction::WEST => l.offset(-1, 0, 0),
    }
}

/// The indices for `n` quads whose vertices are numbered four per quad
/// from 0, the number of the first vertex of each quad taken modulo 65536.
pub open spec fn mesh_indices(n: nat) -> Seq<u16> {
    Seq::new(6 * n, |i: int| quad_indices(((4 * (i / 6)) % 65536) as u16)[i % 6])
}

/// Whether the world coordinates that meshing `rc` inside `big` computes
/// fit the coordinate type.
pub open spec fn mesh_fits(big: &Chunk, rc: &RenderChunk) -> bool {
    &&& i32::MIN < rc.location.x * WIDTH as int
    &&& rc.location.x * WIDTH as int + WIDTH as int <= i32::MAX
    &&& i32::MIN < rc.location.z * DEPTH as int
    &&& rc.location.z * DEPTH as int + DEPTH as int <= i32::MAX
    &&& i32::MIN < rc.location.y * RC_HEIGHT as int
    &&& rc.location.y * RC_HEIGHT as int + RC_HEIGHT as int <= i32::MAX
    &&& i32::MIN <= big.location.x * WIDTH as int <= i32::MAX
    &&& i32::MIN <= big.location.z * DEPTH as int <= i32::MAX
    &&& i32::MIN <= rc.location.x * WIDTH as int - 1 - big.location.x * WIDTH as int
    &&& rc.location.x * WIDTH as int + WIDTH as int - big.location.x * WIDTH as int <= i32::MAX
    &&& i32::MIN <= rc.location.z * DEPTH as int - 1 - big.location.z * DEPTH as int
    &&& rc.location.z * DEPTH as int + DEPTH as int - big.location.z * DEPTH as int <= i32::MAX
}

/// The world location of `(x, y, z)` of `rc`.
pub open spec fn world_of(rc: &RenderChunk, x: int, y: int, z: int) -> BlockLocation {
    block_loc(
        x + rc.location.x * WIDTH as int,
        y + rc.location.y * RC_HEIGHT as int,
        z + rc.location.z * DEPTH as int,
    )
}

/// Whether the face of a block of type `t` at `(x, y, z)` of `rc` that
/// points in `d` is seen: a neighbour beside the render chunk's column is
/// looked up in the group, one in the render chunk in the render chunk, and
/// one above or below it in the column.
pub open spec fn face_seen(
    big: &Chunk,
    rc: &RenderChunk,
    group: &ChunkGroup,
    t: BlockType,
    x: int,
    y: int,
    z: int,
    d: Direction,
) -> bool {
    let test = step(world_of(rc, x, y, z), d);
    let normal = step(block_loc(x, y, z), d);
    if test.outside_x_z_spec(rc) {
        world_face_shows(group.chunks@, t, test)
    } else if !test.outside_y_spec(rc) {
        rc.transparent_and_self_spec(t, normal)
    } else {
        big.transparent_and_self_spec(t, test.chunk_values_spec(big.location))
    }
}

/// The face of the block at `(x, y, z)` of `rc` that points in `d`.
pub open spec fn face_of(rc: &RenderChunk, x: int, y: int, z: int, d: Direction) -> Face {
    Face { x: x as i32, y: y as i32, z: z as i32, direction: d, block: rc.blocks@[y]@[x]@[z] }
}

/// The face pointing in `d` if it is seen, else nothing.
pub open spec fn face_if_seen(
    big: &Chunk,
    rc: &RenderChunk,
    group: &ChunkGroup,
    x: int,
    y: int,
    z: int,
    d: Direction,
) -> Seq<Face> {
    if face_seen(big, rc, group, *rc.blocks@[y]@[x]@[z], x, y, z, d) {
        seq![face_of(rc, x, y, z, d)]
    } else {
        seq![]
    }
}

/// The faces the block at `(x, y, z)` of `rc` adds to the mesh: none for
/// air; for a cube, each seen face, down, up, east, south, north, west; for
/// any other model, its up face.
pub open spec fn block_faces(
    big: &Chunk,
    rc: &RenderChunk,
    group: &ChunkGroup,
    x: int,
    y: int,
    z: int,
) -> Seq<Face> {
    let b = *rc.blocks@[y]@[x]@[z];
    if b.is_air {
        seq![]
    } else if b.is_default_model {
        face_if_seen(big, rc, group, x, y, z, Direction::DOWN) + face_if_seen(
            big,
            rc,
            group,
            x,
            y,
            z,
            Direction::UP,
        ) + face_if_seen(big, rc, group, x, y, z, Direction::EAST) + face_if_seen(
            big,
            rc,
            group,
            x,
            y,
            z,
            Direction::SOUTH,
        ) + face_if_seen(big, rc, group, x, y, z, Direction::NORTH) + face_if_seen(
            big,
            rc,
            group,
            x,
            y,
            z,
            Direction::WEST,
        )
    } else {
        seq![face_of(rc, x, y, z, Direction::UP)]
    }
}

/// The faces of the first `k` blocks of `rc`, walked with y outermost and
/// z innermost.
pub open spec fn faces_before(big: &Chunk, rc: &RenderChunk, group: &ChunkGroup, k: int) -> Seq<
    Face,
>
    decreases k,
{
    if k <= 0 {
        seq![]
    } else {
        faces_before(big, rc, group, k - 1) + block_faces(
            big,
            rc,
            group,
            ((k - 1) / 16) % 16,
            (k - 1) / 256,
            (k - 1) % 16,
        )
    }
}

/// The mesh of `rc`, the `y`-th render chunk of `big`, whose neighbouring
/// columns are in `group`.
pub open spec fn mesh_faces(big: &Chunk, rc: &RenderChunk, group: &ChunkGroup) -> Seq<Face> {
    faces_before(big, rc, group, 4096)
}

/// The faces a cell adds stay in the faces of every longer walk.
proof fn lemma_block_faces_kept(big: &Chunk, rc: &RenderChunk, group: &ChunkGroup, k0: int, k: int)
    requires
        0 <= k0 < k,
    ensures
        forall|f: Face|
            #[trigger] block_faces(big, rc, group, (k0 / 16) % 16, k0 / 256, k0 % 16).contains(f)
                ==> faces_before(big, rc, group, k).contains(f),
    decreases k,
{
    let prev = faces_before(big, rc, group, k - 1);
    let last = block_faces(big, rc, group, ((k - 1) / 16) % 16, (k - 1) / 256, (k - 1) % 16);
    assert(faces_before(big, rc, group, k) == prev + last);
    if k0 < k - 1 {
        lemma_block_faces_kept(big, rc, group, k0, k - 1);
    }
    assert forall|f: Face|
        #[trigger] block_faces(big, rc, group, (k0 / 16) % 16, k0 / 256, k0 % 16).contains(f)
            implies faces_before(big, rc, group, k).contains(f) by {
        if k0 == k - 1 {
            let j = choose|j: int| 0 <= j < last.len() && last[j] == f;
            assert((prev + last)[prev.len() + j] == f);
        } else {
            assert(prev.contains(f));
            let j = choose|j: int| 0 <= j < prev.len() && prev[j] == f;
            assert((prev + last)[j] == f);
        }
    }
}

/// A face of a cube block that points at see-through air inside its
/// render chunk is in the render chunk's mesh, whatever the block is, see-
/// through or not: a lone block in air shows all six faces.
pub proof fn law_face_toward_air_is_meshed(
    big: Chunk,
    rc: RenderChunk,
    group: ChunkGroup,
    m: MeshData,
    x: int,
    y: int,
    z: int,
    d: Direction,
)
    requires
        rc.wf(),
        mesh_fits(&big, &rc),
        m.faces@ == mesh_faces(&big, &rc, &group),
        0 <= x < 16,
        0 <= y < 16,
        0 <= z < 16,
        !rc.block(x, y, z).is_air,
        rc.block(x, y, z).is_default_model,
        rc.block_at(step(block_loc(x, y, z), d)) matches Some(a) && a.is_air && a.is_transparent,
    ensures
        exists|i: int|
            0 <= i < m.faces@.len() && (#[trigger] m.faces@[i]).x == x && m.faces@[i].y == y
                && m.faces@[i].z == z && m.faces@[i].direction == d && *m.faces@[i].block
                == rc.block(x, y, z),
{
    let k0 = y * 256 + x * 16 + z;
    lemma_cell(k0, x, y, z);
    let t = *rc.blocks@[y]@[x]@[z];
    let normal = step(block_loc(x, y, z), d);
    let test = step(world_of(&rc, x, y, z), d);
    assert(in_render_chunk(normal));
    assert(!test.outside_x_z_spec(&rc) && !test.outside_y_spec(&rc));
    assert(rc.transparent_and_self_spec(t, normal));
    assert(face_seen(&big, &rc, &group, t, x, y, z, d));
    let f = face_of(&rc, x, y, z, d);
    assert(face_if_seen(&big, &rc, &group, x, y, z, d) == seq![f]);
    let bf = block_faces(&big, &rc, &group, x, y, z);
    let s0 = face_if_seen(&big, &rc, &group, x, y, z, Direction::DOWN);
    let s1 = face_if_seen(&big, &rc, &group, x, y, z, Direction::UP);
    let s2 = face_if_seen(&big, &rc, &group, x, y, z, Direction::EAST);
    let s3 = face_if_seen(&big, &rc, &group, x, y, z, Direction::SOUTH);
    let s4 = face_if_seen(&big, &rc, &group, x, y, z, Direction::NORTH);
    let s5 = face_if_seen(&big, &rc, &group, x, y, z, Direction::WEST);
    assert(bf == s0 + s1 + s2 + s3 + s4 + s5);
    assert(bf.contains(f)) by {
        match d {
            Direction::DOWN => {
                assert(bf[0] == f);
            },
            Direction::UP => {
                assert(bf[s0.len() as int] == f);
            },
            Direction::EAST => {
                assert(bf[(s0.len() + s1.len()) as int] == f);
            },
            Direction::SOUTH => {
                assert(bf[(s0.len() + s1.len() + s2.len()) as int] == f);
            },
            Direction::NORTH => {
                assert(bf[(s0.len() + s1.len() + s2.len() + s3.len()) as int] == f);
            },
            Direction::WEST => {
                assert(bf[(s0.len() + s1.len() + s2.len() + s3.len() + s4.len()) as int] == f);
            },
        }
    }
    lemma_block_faces_kept(&big, &rc, &group, k0, 4096);
    assert(m.faces@.contains(f));
    let i = choose|i: int| 0 <= i < m.faces@.len() && m.faces@[i] == f;
    assert(m.faces@[i].x == x);
}

/// Four times `n`, modulo 65536, leaves room for a quad's four vertices.
proof fn lemma_quad_start(n: int)
    requires
        0 <= n,
    ensures
        (4 * n) % 65536 + 3 <= u16::MAX,
{
    assert((4 * n) % 65536 <= 65532) by (nonlinear_arith)
        requires
            0 <= n,
    {
    }
}

/// One more quad adds its six indices at the end.
proof fn lemma_mesh_indices_push(n: nat)
    ensures
        mesh_indices(n + 1) =~= mesh_indices(n) + quad_indices(((4 * n) % 65536) as u16),
{
    let a = mesh_indices(n + 1);
    let b = mesh_indices(n) + quad_indices(((4 * n) % 65536) as u16);
    assert forall|i: int| 0 <= i < 6 * (n + 1) implies a[i] == b[i] by {
        if i >= 6 * n {
            assert(i / 6 == n);
            assert(i % 6 == i - 6 * n);
        }
    }
}

/// Whether a face of a block of type `t` is seen, `loc_test` being the
/// world location it looks at and `normal_loc` the same relative to `chunk`.
fn is_transparent_and_self(
    t: &Arc<BlockType>,
    loc_test: &BlockLocation,
    chunk: &RenderChunk,
    big_chunk: &Chunk,
    normal_loc: &BlockLocation,
    group: &ChunkGroup,
) -> (r: bool)
    requires
        chunk.wf(),
        big_chunk.wf(),
        group.wf(),
        mesh_fits(big_chunk, chunk),
        chunk.location.x * WIDTH as int - 1 <= loc_test.x <= chunk.location.x * WIDTH as int
            + WIDTH as int,
        chunk.location.z * DEPTH as int - 1 <= loc_test.z <= chunk.location.z * DEPTH as int
            + DEPTH as int,
    ensures
        r == if loc_test.outside_x_z_spec(chunk) {
            world_face_shows(group.chunks@, **t, *loc_test)
        } else if !loc_test.outside_y_spec(chunk) {
            chunk.transparent_and_self_spec(**t, *normal_loc)
        } else {
            big_chunk.transparent_and_self_spec(**t, loc_test.chunk_values_spec(big_chunk.location))
        },
{
    if loc_test.is_outside_of_x_z(chunk) {
        group.is_transparent_and_self(share(t), loc_test)
    } else {
        if !loc_test.is_outside_of_y(chunk) {
            chunk.is_transparent_and_self(share(t), normal_loc)
        } else {
            big_chunk.is_transparent_and_self(share(t), &loc_test.get_chunk_values(&big_chunk.location))
        }
    }
}


/// The cell reached after `k` steps of the walk is `(x, y, z)`.
proof fn lemma_cell(k: int, x: int, y: int, z: int)
    requires
        k == y * 256 + x * 16 + z,
        0 <= x < 16,
        0 <= y < 16,
        0 <= z < 16,
    ensures
        k / 256 == y,
        (k / 16) % 16 == x,
        k % 16 == z,
{
    assert(k / 256 == y && (k / 16) % 16 == x && k % 16 == z) by (nonlinear_arith)
        requires
            k == y * 256 + x * 16 + z,
            0 <= x < 16,
            0 <= y < 16,
            0 <= z < 16,
    {
    }
}

/// Adds the face of the block at `(x, y, z)` of `chunk` that points in
/// `d`, if it is seen; `loc_test` and `normal_loc` are the neighbour it
/// looks at, in world coordinates and relative to `chunk`.
fn face_step(
    big_chunk: &Chunk,
    chunk: &RenderChunk,
    group: &ChunkGroup,
    b: &Arc<BlockType>,
    x: i32,
    y: i32,
    z: i32,
    d: Direction,
    loc_test: &BlockLocation,
    normal_loc: &BlockLocation,
    mesh: &mut MeshData,
)
    requires
        chunk.wf(),
        big_chunk.wf(),
        group.wf(),
        mesh_fits(big_chunk, chunk),
        0 <= x < 16,
        0 <= y < 16,
        0 <= z < 16,
        *b == chunk.blocks@[y as int]@[x as int]@[z as int],
        *loc_test == step(world_of(chunk, x as int, y as int, z as int), d),
        *normal_loc == step(block_loc(x as int, y as int, z as int), d),
        old(mesh).indecies@ == mesh_indices(old(mesh).faces@.len()),
        old(mesh).faces@.len() < 99990,
    ensures
        final(mesh).faces@ == old(mesh).faces@ + face_if_seen(
            big_chunk,
            chunk,
            group,
            x as int,
            y as int,
            z as int,
            d,
        ),
        final(mesh).indecies@ == mesh_indices(final(mesh).faces@.len()),
        final(mesh).faces@.len() <= old(mesh).faces@.len() + 1,
{
    if is_transparent_and_self(b, loc_test, chunk, big_chunk, normal_loc, group) {
        mesh.push_face(b, x, y, z, d);
        assert(mesh.faces@ =~= old(mesh).faces@ + face_if_seen(
            big_chunk,
            chunk,
            group,
            x as int,
            y as int,
            z as int,
            d,
        ));
    } else {
        assert(mesh.faces@ =~= old(mesh).faces@ + face_if_seen(
            big_chunk,
            chunk,
            group,
            x as int,
            y as int,
            z as int,
            d,
        ));
    }
}

/// Adds the faces of the block at `(x, y, z)` of `chunk`.
fn block_mesh(
    big_chunk: &Chunk,
    chunk: &RenderChunk,
    group: &ChunkGroup,
    x: usize,
    y: usize,
    z: usize,
    mesh: &mut MeshData,
)
    requires
        chunk.wf(),
        big_chunk.wf(),
        group.wf(),
        mesh_fits(big_chunk, chunk),
        x < 16,
        y < 16,
        z < 16,
        old(mesh).indecies@ == mesh_indices(old(mesh).faces@.len()),
        old(mesh).faces@.len() < 99000,
    ensures
        final(mesh).faces@ == old(mesh).faces@ + block_faces(
            big_chunk,
            chunk,
            group,
            x as int,
            y as int,
            z as int,
        ),
        final(mesh).indecies@ == mesh_indices(final(mesh).faces@.len()),
        final(mesh).faces@.len() <= old(mesh).faces@.len() + 6,
{
    let b = share(&chunk.blocks[y][x][z]);
    if !b.is_air {
        let xi = x as i32;
        let yi = y as i32;
        let zi = z as i32;
        let loc = BlockLocation::new_from(xi, yi, zi);
        let loc_test = BlockLocation::new_from(
            xi + chunk.location.x * WIDTH as i32,
            yi + chunk.location.y * RC_HEIGHT as i32,
            zi + chunk.location.z * DEPTH as i32,
        );
        if b.is_default_model {
            let ghost f0 = mesh.faces@;
            face_step(big_chunk, chunk, group, &b, xi, yi, zi, Direction::DOWN, &loc_test.down(), &loc.down(), mesh);
            face_step(big_chunk, chunk, group, &b, xi, yi, zi, Direction::UP, &loc_test.up(), &loc.up(), mesh);
            face_step(big_chunk, chunk, group, &b, xi, yi, zi, Direction::EAST, &loc_test.east(), &loc.east(), mesh);
            face_step(big_chunk, chunk, group, &b, xi, yi, zi, Direction::SOUTH, &loc_test.south(), &loc.south(), mesh);
            face_step(big_chunk, chunk, group, &b, xi, yi, zi, Direction::NORTH, &loc_test.north(), &loc.north(), mesh);
            face_step(big_chunk, chunk, group, &b, xi, yi, zi, Direction::WEST, &loc_test.west(), &loc.west(), mesh);
            assert(mesh.faces@ =~= f0 + block_faces(big_chunk, chunk, group, x as int, y as int, z as int));
        } else {
            mesh.push_face(&b, xi, yi, zi, Direction::UP);
            assert(mesh.faces@ =~= old(mesh).faces@ + block_faces(big_chunk, chunk, group, x as int, y as int, z as int));
        }
    } else {
        assert(mesh.faces@ =~= old(mesh).faces@ + block_faces(big_chunk, chunk, group, x as int, y as int, z as int));
    }
}

/// The mesh of a render chunk, kept until it is drawn.
pub struct ChunkMesh {
    pub mesh: MeshData,
}

impl ChunkMesh {

/// The mesh of `chunk`, a render chunk of `big_chunk`, looking into the
/// columns of `group` at the column's sides.
pub fn new_data(big_chunk: &Chunk, chunk: &RenderChunk, group: &ChunkGroup) -> (r: MeshData)
    requires
        chunk.wf(),
        big_chunk.wf(),
        group.wf(),
        mesh_fits(big_chunk, chunk),
    ensures
        r.faces@ == mesh_faces(big_chunk, chunk, group),
        r.indecies@ == mesh_indices(r.faces@.len()),
{
    let mut mesh = MeshData { faces: Vec::new(), indecies: Vec::new() };
    assert(mesh.indecies@ =~= mesh_indices(0));
    let mut y: usize = 0;
    while y < 16
        invariant
            chunk.wf(),
            big_chunk.wf(),
            group.wf(),
            mesh_fits(big_chunk, chunk),
            y <= 16,
            mesh.faces@ == faces_before(big_chunk, chunk, group, y * 256),
            mesh.faces@.len() <= 6 * (y * 256),
            mesh.indecies@ == mesh_indices(mesh.faces@.len()),
        decreases 16 - y,
    {
        let mut x: usize = 0;
        while x < 16
            invariant
                chunk.wf(),
                big_chunk.wf(),
                group.wf(),
                mesh_fits(big_chunk, chunk),
                y < 16,
                x <= 16,
                mesh.faces@ == faces_before(big_chunk, chunk, group, y * 256 + x * 16),
                mesh.faces@.len() <= 6 * (y * 256 + x * 16),
                mesh.indecies@ == mesh_indices(mesh.faces@.len()),
            decreases 16 - x,
        {
            let mut z: usize = 0;
            while z < 16
                invariant
                    chunk.wf(),
                    big_chunk.wf(),
                    group.wf(),
                    mesh_fits(big_chunk, chunk),
                    y < 16,
                    x < 16,
                    z <= 16,
                    mesh.faces@ == faces_before(big_chunk, chunk, group, y * 256 + x * 16 + z),
                    mesh.faces@.len() <= 6 * (y * 256 + x * 16 + z),
                    mesh.indecies@ == mesh_indices(mesh.faces@.len()),
                decreases 16 - z,
            {
                proof {
                    lemma_cell((y * 256 + x * 16 + z) as int, x as int, y as int, z as int);
                }
                block_mesh(big_chunk, chunk, group, x, y, z, &mut mesh);
                z = z + 1;
            }
            x = x + 1;
        }
        y = y + 1;
    }
    mesh
}

}

impl MeshData {
    /// Adds the face of the block at `(x, y, z)` pointing in `d`, and its
    /// quad's indices.
    fn push_face(&mut self, b: &Arc<BlockType>, x: i32, y: i32, z: i32, d: Direction)
        requires
            old(self).indecies@ == mesh_indices(old(self).faces@.len()),
            old(self).faces@.len() < 100000,
        ensures
            final(self).faces@ == old(self).faces@.push(
                Face { x, y, z, direction: d, block: *b },
            ),
            final(self).indecies@ == mesh_indices(final(self).faces@.len()),
    {
        let n = self.faces.len();
        proof {
            lemma_quad_start(n as int);
            lemma_mesh_indices_push(n as nat);
        }
        let start = ((n * 4) % 65536) as u16;
        b.get_indecies(start, &mut self.indecies);
        self.faces.push(Face { x, y, z, direction: d, block: share(b) });
    }
}

} // verus!
