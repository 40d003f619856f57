use vstd::prelude::*;

use std::sync::Arc;

use crate::block::block_type::BlockType;

verus! {

/// One slot of an inventory and the block it holds.
pub struct Slot {
    pub block: Arc<BlockType>,
}

impl Slot {
    pub fn new(t: Arc<BlockType>) -> (r: Slot)
        ensures
            r.block == t,
    {
        Slot { block: t }
    }

    pub fn set_block(&mut self, block: Arc<BlockType>)
        ensures
            final(self).block == block,
    {
        self.block = block;
    }
}

} // verus!
