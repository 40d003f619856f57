use vstd::prelude::*;

use crate::world::chunk::chunk::{ChunkLocation, DEPTH, WIDTH};
use crate::world::chunk::render_chunk::{RenderChunk, HEIGHT as RC_HEIGHT};

verus! {

/// Location of a single block; in world coordinates or relative to a chunk,
/// depending on where it is used.
#[derive(Clone, Copy, PartialEq, Eq, Structural, Debug, Hash)]
pub struct BlockLocation {
    pub x: i32,
    pub y: i32,
    pub z: i32,
}

/// The location `(x, y, z)`, written as a spec value.
pub open spec fn block_loc(x: int, y: int, z: int) -> BlockLocation {
    BlockLocation { x: x as i32, y: y as i32, z: z as i32 }
}

/// Whether `(x, y, z)` fits in the coordinate type.
pub open spec fn fits(x: int, y: int, z: int) -> bool {
    i32::MIN <= x <= i32::MAX && i32::MIN <= y <= i32::MAX && i32::MIN <= z <= i32::MAX
}

impl BlockLocation {
    /// The location shifted by `(dx, dy, dz)`.
    pub open spec fn offset(self, dx: int, dy: int, dz: int) -> BlockLocation {
        block_loc(self.x + dx, self.y + dy, self.z + dz)
    }

    /// Whether every location within one step (also diagonally) fits.
    pub open spec fn steps_fit(self) -> bool {
        i32::MIN < self.x < i32::MAX && i32::MIN < self.y < i32::MAX && i32::MIN < self.z
            < i32::MAX
    }

    pub open spec fn up_spec(self) -> BlockLocation {
        self.offset(0, 1, 0)
    }

    pub open spec fn down_spec(self) -> BlockLocation {
        self.offset(0, -1, 0)
    }

    pub open spec fn north_spec(self) -> BlockLocation {
        self.offset(0, 0, -1)
    }

    pub open spec fn west_spec(self) -> BlockLocation {
        self.offset(-1, 0, 0)
    }

    pub open spec fn south_spec(self) -> BlockLocation {
        self.offset(0, 0, 1)
    }

    pub open spec fn east_spec(self) -> BlockLocation {
        self.offset(1, 0, 0)
    }

    /// The six face neighbours: up, down, north, west, south, east.
    pub open spec fn neighbours(self) -> Seq<BlockLocation> {
        seq![
            self.up_spec(),
            self.down_spec(),
            self.north_spec(),
            self.west_spec(),
            self.south_spec(),
            self.east_spec(),
        ]
    }

    /// The eight neighbours in the horizontal plane: north, west, south,
    /// east, then north-east, south-east, south-west, north-west.
    pub open spec fn side_neighbours(self) -> Seq<BlockLocation> {
        seq![
            self.north_spec(),
            self.west_spec(),
            self.south_spec(),
            self.east_spec(),
            self.offset(1, 0, -1),
            self.offset(1, 0, 1),
            self.offset(-1, 0, 1),
            self.offset(-1, 0, -1),
        ]
    }

    /// The four horizontal face neighbours: north, west, south, east.
    pub open spec fn surrounding_sides(self) -> Seq<BlockLocation> {
        seq![self.north_spec(), self.west_spec(), self.south_spec(), self.east_spec()]
    }

    pub fn null() -> (r: BlockLocation)
        ensures
            r == block_loc(0, 0, 0),
    {
        BlockLocation { x: 0, y: 0, z: 0 }
    }

    pub fn new_from(x: i32, y: i32, z: i32) -> (r: BlockLocation)
        ensures
            r.x == x,
            r.y == y,
            r.z == z,
    {
        BlockLocation { x, y, z }
    }

    pub fn from_other_block_loc(other: &BlockLocation) -> (r: BlockLocation)
        ensures
            r == *other,
    {
        BlockLocation::new_from(other.x, other.y, other.z)
    }

    pub fn subtract(&self, x: i32, y: i32, z: i32) -> (r: BlockLocation)
        requires
            fits(self.x - x, self.y - y, self.z - z),
        ensures
            r == self.offset(-x, -y, -z),
    {
        BlockLocation::new_from(self.x - x, self.y - y, self.z - z)
    }

    pub fn add(&self, x: i32, y: i32, z: i32) -> (r: BlockLocation)
        requires
            fits(self.x + x, self.y + y, self.z + z),
        ensures
            r == self.offset(x as int, y as int, z as int),
    {
        BlockLocation::new_from(self.x + x, self.y + y, self.z + z)
    }

    /// The location relative to the chunk column at `chunk_loc`, from world
    /// coordinates.
    pub open spec fn chunk_values_spec(self, chunk_loc: ChunkLocation) -> BlockLocation {
        block_loc(
            self.x - chunk_loc.x * WIDTH as int,
            self.y as int,
            self.z - chunk_loc.z * DEPTH as int,
        )
    }

    /// Whether converting to and from coordinates relative to `chunk_loc`
    /// stays within the coordinate type.
    pub open spec fn chunk_values_fit(self, chunk_loc: ChunkLocation) -> bool {
        &&& i32::MIN <= chunk_loc.x * WIDTH as int <= i32::MAX
        &&& i32::MIN <= chunk_loc.z * DEPTH as int <= i32::MAX
        &&& fits(self.x - chunk_loc.x * WIDTH as int, 0, self.z - chunk_loc.z * DEPTH as int)
    }

    pub fn get_chunk_values(&self, chunk_loc: &ChunkLocation) -> (r: BlockLocation)
        requires
            self.chunk_values_fit(*chunk_loc),
        ensures
            r == self.chunk_values_spec(*chunk_loc),
    {
        BlockLocation::new_from(
            self.x - chunk_loc.x * WIDTH as i32,
            self.y,
            self.z - chunk_loc.z * DEPTH as i32,
        )
    }

    /// The world location of a location relative to the column at `chunk_loc`.
    pub open spec fn global_values_spec(self, chunk_loc: ChunkLocation) -> BlockLocation {
        block_loc(
            self.x + chunk_loc.x * WIDTH as int,
            self.y as int,
            self.z + chunk_loc.z * DEPTH as int,
        )
    }

    pub fn get_global_values(&self, chunk_loc: &ChunkLocation) -> (r: BlockLocation)
        requires
            i32::MIN <= chunk_loc.x * WIDTH as int <= i32::MAX,
            i32::MIN <= chunk_loc.z * DEPTH as int <= i32::MAX,
            fits(self.x + chunk_loc.x * WIDTH as int, 0, self.z + chunk_loc.z * DEPTH as int),
        ensures
            r == self.global_values_spec(*chunk_loc),
    {
        BlockLocation::new_from(
            self.x + chunk_loc.x * WIDTH as i32,
            self.y,
            self.z + chunk_loc.z * DEPTH as i32,
        )
    }

    pub fn up(&self) -> (r: BlockLocation)
        requires
            self.y < i32::MAX,
        ensures
            r == self.up_spec(),
    {
        BlockLocation::new_from(self.x, self.y + 1, self.z)
    }

    pub fn down(&self) -> (r: BlockLocation)
        requires
            self.y > i32::MIN,
        ensures
            r == self.down_spec(),
    {
        BlockLocation::new_from(self.x, self.y - 1, self.z)
    }

    pub fn north(&self) -> (r: BlockLocation)
        requires
            self.z > i32::MIN,
        ensures
            r == self.north_spec(),
    {
        BlockLocation::new_from(self.x, self.y, self.z - 1)
    }

    pub fn west(&self) -> (r: BlockLocation)
        requires
            self.x > i32::MIN,
        ensures
            r == self.west_spec(),
    {
        BlockLocation::new_from(self.x - 1, self.y, self.z)
    }

    pub fn south(&self) -> (r: BlockLocation)
        requires
            self.z < i32::MAX,
        ensures
            r == self.south_spec(),
    {
        BlockLocation::new_from(self.x, self.y, self.z + 1)
    }

    pub fn east(&self) -> (r: BlockLocation)
        requires
            self.x < i32::MAX,
        ensures
            r == self.east_spec(),
    {
        BlockLocation::new_from(self.x + 1, self.y, self.z)
    }

    pub fn get_neighbours(&self) -> (r: Vec<BlockLocation>)
        requires
            self.steps_fit(),
        ensures
            r@ == self.neighbours(),
    {
        let v = vec![self.up(), self.down(), self.north(), self.west(), self.south(), self.east()];
        assert(v@ =~= self.neighbours());
        v
    }

    pub fn get_neighbours_and_self(&self) -> (r: Vec<BlockLocation>)
        requires
            self.steps_fit(),
        ensures
            r@ == self.neighbours().push(*self),
    {
        let v = vec![
            self.up(),
            self.down(),
            self.north(),
            self.west(),
            self.south(),
            self.east(),
            BlockLocation::from_other_block_loc(self),
        ];
        assert(v@ =~= self.neighbours().push(*self));
        v
    }

    pub fn get_side_neighbours_and_self(&self) -> (r: Vec<BlockLocation>)
        requires
            self.steps_fit(),
        ensures
            r@ == self.side_neighbours().push(*self),
    {
        let v = vec![
            self.north(),
            self.west(),
            self.south(),
            self.east(),
            self.north().east(),
            self.south().east(),
            self.south().west(),
            self.north().west(),
            BlockLocation::from_other_block_loc(self),
        ];
        assert(v@ =~= self.side_neighbours().push(*self));
        v
    }

    pub fn get_side_neighbours(&self) -> (r: Vec<BlockLocation>)
        requires
            self.steps_fit(),
        ensures
            r@ == self.side_neighbours(),
    {
        let v = vec![
            self.north(),
            self.west(),
            self.south(),
            self.east(),
            self.north().east(),
            self.south().east(),
            self.south().west(),
            self.north().west(),
        ];
        assert(v@ =~= self.side_neighbours());
        v
    }

    pub fn get_surrounding_sides(&self) -> (r: Vec<BlockLocation>)
        requires
            self.steps_fit(),
        ensures
            r@ == self.surrounding_sides(),
    {
        let v = vec![self.north(), self.west(), self.south(), self.east()];
        assert(v@ =~= self.surrounding_sides());
        v
    }

    pub fn get_surrounding_sides_and_self(&self) -> (r: Vec<BlockLocation>)
        requires
            self.steps_fit(),
        ensures
            r@ == self.surrounding_sides().push(*self),
    {
        let v = vec![
            self.north(),
            self.west(),
            self.south(),
            self.east(),
            BlockLocation::from_other_block_loc(self),
        ];
        assert(v@ =~= self.surrounding_sides().push(*self));
        v
    }

    pub fn get_surrounding_sides_and_up(&self) -> (r: Vec<BlockLocation>)
        requires
            self.steps_fit(),
        ensures
            r@ == self.surrounding_sides().push(self.up_spec()),
    {
        let v = vec![self.north(), self.west(), self.south(), self.east(), self.up()];
        assert(v@ =~= self.surrounding_sides().push(self.up_spec()));
        v
    }

    /// The location relative to `render_chunk`: y is shifted down by the
    /// render chunk's layer.
    pub open spec fn render_chunk_values_spec(self, layer: i32) -> BlockLocation {
        block_loc(self.x as int, self.y - layer * RC_HEIGHT as int, self.z as int)
    }

    pub fn get_render_chunk_values(&self, render_chunk: &RenderChunk) -> (r: BlockLocation)
        requires
            i32::MIN <= render_chunk.location.y * RC_HEIGHT as int <= i32::MAX,
            i32::MIN <= self.y - render_chunk.location.y * RC_HEIGHT as int <= i32::MAX,
        ensures
            r == self.render_chunk_values_spec(render_chunk.location.y),
    {
        BlockLocation::new_from(
            self.x,
            self.y - render_chunk.location.y * RC_HEIGHT as i32,
            self.z,
        )
    }

    /// Whether every bound that the outside tests compute for `chunk` fits.
    pub open spec fn bounds_fit(chunk: &RenderChunk) -> bool {
        &&& i32::MIN <= chunk.location.x * WIDTH as int
        &&& chunk.location.x * WIDTH as int + WIDTH as int <= i32::MAX
        &&& i32::MIN <= chunk.location.z * DEPTH as int
        &&& chunk.location.z * DEPTH as int + DEPTH as int <= i32::MAX
        &&& i32::MIN <= chunk.location.y * RC_HEIGHT as int
        &&& chunk.location.y * RC_HEIGHT as int + RC_HEIGHT as int <= i32::MAX
    }

    /// Outside the render chunk's x and z range.
    pub open spec fn outside_x_z_spec(self, chunk: &RenderChunk) -> bool {
        ||| self.x < chunk.location.x * WIDTH as int
        ||| self.x > WIDTH as int + chunk.location.x * WIDTH as int - 1
        ||| self.z < chunk.location.z * DEPTH as int
        ||| self.z > DEPTH as int + chunk.location.z * DEPTH as int - 1
    }

    /// Outside the render chunk's y range.
    pub open spec fn outside_y_spec(self, chunk: &RenderChunk) -> bool {
        ||| self.y < chunk.location.y * RC_HEIGHT as int
        ||| self.y > RC_HEIGHT as int + chunk.location.y * RC_HEIGHT as int - 1
    }

    /// Outside the render chunk, where the lowest x of its range counts as
    /// outside too.
    pub fn is_outside_of(&self, chunk: &RenderChunk) -> (r: bool)
        requires
            BlockLocation::bounds_fit(chunk),
        ensures
            r == (self.x < chunk.location.x * WIDTH as int + 1 || self.x > WIDTH as int
                + chunk.location.x * WIDTH as int - 1 || self.z < chunk.location.z * DEPTH as int
                || self.z > DEPTH as int + chunk.location.z * DEPTH as int - 1
                || self.outside_y_spec(chunk)),
    {
        if self.x < chunk.location.x * WIDTH as i32 + 1 {
            return true;
        }
        if self.x > WIDTH as i32 + chunk.location.x * WIDTH as i32 - 1 {
            return true;
        }
        if self.z < chunk.location.z * DEPTH as i32 {
            return true;
        }
        if self.z > DEPTH as i32 + chunk.location.z * DEPTH as i32 - 1 {
            return true;
        }
        if self.y < chunk.location.y * RC_HEIGHT as i32 {
            return true;
        }
        if self.y > RC_HEIGHT as i32 + chunk.location.y * RC_HEIGHT as i32 - 1 {
            return true;
        }
        false
    }

    pub fn is_outside_of_x_z(&self, chunk: &RenderChunk) -> (r: bool)
        requires
            BlockLocation::bounds_fit(chunk),
        ensures
            r == self.outside_x_z_spec(chunk),
    {
        if self.x < chunk.location.x * WIDTH as i32 {
            return true;
        }
        if self.x > WIDTH as i32 + chunk.location.x * WIDTH as i32 - 1 {
            return true;
        }
        if self.z < chunk.location.z * DEPTH as i32 {
            return true;
        }
        if self.z > DEPTH as i32 + chunk.location.z * DEPTH as i32 - 1 {
            return true;
        }
        false
    }

    pub fn is_outside_of_y(&self, chunk: &RenderChunk) -> (r: bool)
        requires
            BlockLocation::bounds_fit(chunk),
        ensures
            r == self.outside_y_spec(chunk),
    {
        if self.y < chunk.location.y * RC_HEIGHT as i32 {
            return true;
        }
        if self.y > RC_HEIGHT as i32 + chunk.location.y * RC_HEIGHT as i32 - 1 {
            return true;
        }
        false
    }

    pub fn equals(&self, other: &BlockLocation) -> (r: bool)
        ensures
            r == (*self == *other),
    {
        self.x == other.x && self.y == other.y && self.z == other.z
    }

    /// The location as text: `x,y,z` in decimal.
    pub fn display_text(&self) -> (r: String)
        ensures
            r@ == decimal(self.x as int) + seq![','] + decimal(self.y as int) + seq![',']
                + decimal(self.z as int),
    {
        coords_text(self.x, self.y, self.z)
    }
}

/// Moving a location into the coordinates of a column and back gives the
/// location again.
pub proof fn law_chunk_values_round_trip(l: BlockLocation, c: ChunkLocation)
    requires
        l.chunk_values_fit(c),
    ensures
        l.chunk_values_spec(c).global_values_spec(c) == l,
{
}

/// A step and the opposite step lead back: up and down, north and south,
/// west and east.
pub proof fn law_opposite_steps(l: BlockLocation)
    requires
        l.steps_fit(),
    ensures
        l.up_spec().down_spec() == l,
        l.down_spec().up_spec() == l,
        l.north_spec().south_spec() == l,
        l.south_spec().north_spec() == l,
        l.west_spec().east_spec() == l,
        l.east_spec().west_spec() == l,
{
}

/// Adding an offset and subtracting it again gives the location back.
pub proof fn law_add_subtract(l: BlockLocation, x: i32, y: i32, z: i32)
    requires
        fits(l.x + x, l.y + y, l.z + z),
    ensures
        l.offset(x as int, y as int, z as int).offset(-x, -y, -z) == l,
{
}

/// The decimal digit of `d`, for `d` below ten.
pub open spec fn digit_char(d: nat) -> char {
    (('0' as nat) + d) as char
}

/// The decimal digits of `n`, most significant first, with no leading
/// zero.
pub open spec fn digits(n: nat) -> Seq<char>
    decreases n,
{
    if n < 10 {
        seq![digit_char(n)]
    } else {
        digits(n / 10).push(digit_char(n % 10))
    }
}

/// `n` in decimal, with a minus sign in front where it is negative.
pub open spec fn decimal(n: int) -> Seq<char> {
    if n < 0 {
        seq!['-'] + digits((-n) as nat)
    } else {
        digits(n as nat)
    }
}

/// `x,y,z` in decimal.
///
/// Calls `format!` with `"{},{},{}"`. As std documents `Display` for the
/// integer types, each number is written in decimal with no leading zero,
/// a negative one after a `-`.
#[verifier::external_body]
fn coords_text(x: i32, y: i32, z: i32) -> (r: String)
    ensures
        r@ == decimal(x as int) + seq![','] + decimal(y as int) + seq![','] + decimal(z as int),
{
    format!("{},{},{}", x, y, z)
}

/// The six directions a block face can point to.
#[derive(Clone, Copy, PartialEq, Eq, Structural, Debug)]
pub enum Direction {
    NORTH,
    SOUTH,
    EAST,
    WEST,
    UP,
    DOWN,
}

} // verus!
