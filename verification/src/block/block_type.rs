use vstd::prelude::*;

use crate::block::texture_coords::TextureCoords;

verus! {

/// A kind of block: its name, its textures and how it lets light and
/// faces through.
pub struct BlockType {
    pub id: String,
    pub tex_coords: TextureCoords,
    pub is_air: bool,
    pub is_transparent: bool,
    pub is_default_model: bool,
}

/// The six indices of the two triangles of a quad whose four vertices start
/// at `start`.
pub open spec fn quad_indices(start: u16) -> Seq<u16> {
    seq![
        start,
        (start + 1) as u16,
        (start + 3) as u16,
        (start + 3) as u16,
        (start + 1) as u16,
        (start + 2) as u16,
    ]
}

impl BlockType {
    pub fn get_indecies(&self, start: u16, indecies: &mut Vec<u16>)
        requires
            start + 3 <= u16::MAX,
        ensures
            final(indecies)@ == old(indecies)@ + quad_indices(start),
    {
        indecies.push(start);
        indecies.push(start + 1);
        indecies.push(start + 3);
        indecies.push(start + 3);
        indecies.push(start + 1);
        indecies.push(start + 2);
        assert(indecies@ =~= old(indecies)@ + quad_indices(start));
    }
}

} // verus!
