use vstd::prelude::*;

verus! {

/// Which picture of the texture atlas a block face shows: the atlas's
/// default region, or the tile at a column and row of the atlas grid.
#[derive(Clone, Copy, PartialEq, Eq, Structural, Debug)]
pub enum TexTile {
    Default,
    At { column: u32, row: u32 },
}

/// The tile shown on each of the six faces of a block.
#[derive(Clone, Copy, PartialEq, Eq, Structural, Debug)]
pub struct TextureCoords {
    pub up: TexTile,
    pub down: TexTile,
    pub north: TexTile,
    pub east: TexTile,
    pub south: TexTile,
    pub west: TexTile,
}

impl TextureCoords {
    /// The same tile on all six faces.
    pub open spec fn uniform(t: TexTile) -> TextureCoords {
        TextureCoords { up: t, down: t, north: t, east: t, south: t, west: t }
    }

    pub fn new_default() -> (r: TextureCoords)
        ensures
            r == TextureCoords::uniform(TexTile::Default),
    {
        let default = TexTile::Default;
        TextureCoords {
            up: default,
            down: default,
            north: default,
            east: default,
            south: default,
            west: default,
        }
    }

    pub fn new_from_one(tex_coord: TexTile) -> (r: TextureCoords)
        ensures
            r == TextureCoords::uniform(tex_coord),
    {
        TextureCoords {
            up: tex_coord,
            down: tex_coord,
            north: tex_coord,
            east: tex_coord,
            south: tex_coord,
            west: tex_coord,
        }
    }

    pub fn new_sides_top(sides: TexTile, top: TexTile) -> (r: TextureCoords)
        ensures
            r == (TextureCoords { up: top, ..TextureCoords::uniform(sides) }),
    {
        TextureCoords { up: top, down: sides, north: sides, east: sides, south: sides, west: sides }
    }

    pub fn new_sides_top_bottom(sides: TexTile, top: TexTile, down: TexTile) -> (r: TextureCoords)
        ensures
            r == (TextureCoords { up: top, down: down, ..TextureCoords::uniform(sides) }),
    {
        TextureCoords { up: top, down, north: sides, east: sides, south: sides, west: sides }
    }
}

} // verus!
