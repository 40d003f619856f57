use vstd::prelude::*;

use std::collections::HashMap;

use crate::block::location::BlockLocation;
use crate::world::chunk::lighting::light_source::LightSource;
use crate::world::chunk::lighting::light_state::LightState;

verus! {

/// The light of a chunk: the level reaching each lit block, and the blocks
/// that give off light.
pub struct LightMap {
    states: HashMap<BlockLocation, LightState>,
    sources: HashMap<BlockLocation, LightSource>,
}

} // verus!
