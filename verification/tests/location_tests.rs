use block_world::block::location::BlockLocation;
use block_world::world::chunk::chunk::ChunkLocation;
use block_world::world::chunk::render_chunk::RenderChunkLocation;

fn at(x: i32, y: i32, z: i32) -> BlockLocation {
    BlockLocation::new_from(x, y, z)
}

fn same(a: &BlockLocation, b: &BlockLocation) -> bool {
    a.equals(b)
}

#[test]
fn null_is_origin() {
    let n = BlockLocation::null();
    assert_eq!((n.x, n.y, n.z), (0, 0, 0));
}

#[test]
fn new_from_and_copy_keep_coordinates() {
    let a = at(3, -4, 5);
    assert_eq!((a.x, a.y, a.z), (3, -4, 5));
    let b = BlockLocation::from_other_block_loc(&a);
    assert!(same(&a, &b));
}

#[test]
fn add_and_subtract_offsets() {
    let a = at(1, 2, 3);
    let b = a.add(10, -20, 30);
    assert_eq!((b.x, b.y, b.z), (11, -18, 33));
    let c = b.subtract(10, -20, 30);
    assert!(same(&a, &c));
}

#[test]
fn single_steps_follow_the_axes() {
    let a = at(0, 0, 0);
    assert!(same(&a.up(), &at(0, 1, 0)));
    assert!(same(&a.down(), &at(0, -1, 0)));
    assert!(same(&a.north(), &at(0, 0, -1)));
    assert!(same(&a.west(), &at(-1, 0, 0)));
    assert!(same(&a.south(), &at(0, 0, 1)));
    assert!(same(&a.east(), &at(1, 0, 0)));
    assert!(same(&a.up().down(), &a));
    assert!(same(&a.north().south(), &a));
    assert!(same(&a.west().east(), &a));
}

#[test]
fn neighbour_lists_keep_their_order() {
    let a = at(5, 6, 7);
    let n = a.get_neighbours();
    let want = [at(5, 7, 7), at(5, 5, 7), at(5, 6, 6), at(4, 6, 7), at(5, 6, 8), at(6, 6, 7)];
    assert_eq!(n.len(), 6);
    for i in 0..6 {
        assert!(same(&n[i], &want[i]));
    }
    let ns = a.get_neighbours_and_self();
    assert_eq!(ns.len(), 7);
    assert!(same(&ns[6], &a));

    let sides = a.get_side_neighbours();
    let want_sides = [
        at(5, 6, 6),
        at(4, 6, 7),
        at(5, 6, 8),
        at(6, 6, 7),
        at(6, 6, 6),
        at(6, 6, 8),
        at(4, 6, 8),
        at(4, 6, 6),
    ];
    assert_eq!(sides.len(), 8);
    for i in 0..8 {
        assert!(same(&sides[i], &want_sides[i]));
    }
    let sides_self = a.get_side_neighbours_and_self();
    assert_eq!(sides_self.len(), 9);
    assert!(same(&sides_self[8], &a));

    let around = a.get_surrounding_sides();
    assert_eq!(around.len(), 4);
    for i in 0..4 {
        assert!(same(&around[i], &want_sides[i]));
    }
    let around_self = a.get_surrounding_sides_and_self();
    assert_eq!(around_self.len(), 5);
    assert!(same(&around_self[4], &a));
    let around_up = a.get_surrounding_sides_and_up();
    assert_eq!(around_up.len(), 5);
    assert!(same(&around_up[4], &at(5, 7, 7)));
}

#[test]
fn chunk_values_and_back() {
    let world = at(-1, 5, 17);
    let column = ChunkLocation::new(-1, 1);
    let rel = world.get_chunk_values(&column);
    assert_eq!((rel.x, rel.y, rel.z), (15, 5, 1));
    let back = rel.get_global_values(&column);
    assert!(same(&back, &world));
}

#[test]
fn display_text_writes_decimal_coordinates() {
    assert_eq!(at(-3, 0, 42).display_text(), "-3,0,42");
    assert_eq!(at(2147483647, -2147483648, 7).display_text(), "2147483647,-2147483648,7");
}

#[test]
fn chunk_location_steps() {
    let c = ChunkLocation::new(2, 3);
    assert_eq!(c.north(), ChunkLocation::new(2, 4));
    assert_eq!(c.east(), ChunkLocation::new(3, 3));
    assert_eq!(c.south(), ChunkLocation::new(2, 2));
    assert_eq!(c.west(), ChunkLocation::new(1, 3));
    let around = c.get_surrounding_chunks();
    assert_eq!(around, vec![c.north(), c.east(), c.south(), c.west()]);
    assert!(c.equals(&ChunkLocation::new(2, 3)));
    assert!(!c.equals(&ChunkLocation::new(3, 2)));
}

#[test]
fn render_chunk_location_steps() {
    let r = RenderChunkLocation::new(2, 1, 3);
    assert_eq!(r.north(), RenderChunkLocation::new(2, 1, 4));
    assert_eq!(r.east(), RenderChunkLocation::new(3, 1, 3));
    assert_eq!(r.south(), RenderChunkLocation::new(2, 1, 2));
    assert_eq!(r.west(), RenderChunkLocation::new(1, 1, 3));
    assert_eq!(r.get_surrounding_chunks(), vec![r.north(), r.east(), r.south(), r.west()]);
    assert_eq!(r.get_chunk_location(), ChunkLocation::new(2, 3));
    assert!(r.equals(&RenderChunkLocation::new(2, 1, 3)));
    assert!(!r.equals(&RenderChunkLocation::new(2, 2, 3)));
}
