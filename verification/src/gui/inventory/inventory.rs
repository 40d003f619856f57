use vstd::prelude::*;

use std::sync::Arc;

use crate::block::block_registry::BlockRegistry;
use crate::block::block_type::BlockType;
use crate::gui::inventory::slot::Slot;

verus! {

/// A grid of slots, `width` columns by `height` rows; the slot of column
/// `w` and row `h` comes at `w * height + h`.
pub struct Inventory {
    pub slots: Vec<Slot>,
    pub width: i32,
    pub height: i32,
}

impl Inventory {
    /// A `width` by `height` inventory of empty slots: each holds air.
    pub fn new(width: i32, height: i32, block_registry: &BlockRegistry) -> (r: Inventory)
        requires
            block_registry.wf(),
            block_registry.view().contains_key("air"@),
        ensures
            r.width == width,
            r.height == height,
            r.slots@.len() == if width > 0 && height > 0 {
                width * height
            } else {
                0
            },
            forall|i: int|
                0 <= i < r.slots@.len() ==> *(#[trigger] r.slots@[i]).block
                    == block_registry.view()["air"@],
    {
        let air = block_registry.block("air");
        let mut slots: Vec<Slot> = Vec::new();
        let mut w: i32 = 0;
        assert(0 * height == 0);
        while w < width
            invariant
                0 <= w,
                w <= width || w == 0,
                slots@.len() == if height > 0 {
                    w * height
                } else {
                    0
                },
                *air == block_registry.view()["air"@],
                forall|i: int|
                    0 <= i < slots@.len() ==> *(#[trigger] slots@[i]).block
                        == block_registry.view()["air"@],
            decreases width - w,
        {
            let mut h: i32 = 0;
            while h < height
                invariant
                    0 <= w < width,
                    0 <= h,
                    h <= height || height <= 0,
                    slots@.len() == if height > 0 {
                        w * height + h
                    } else {
                        0
                    },
                    *air == block_registry.view()["air"@],
                    forall|i: int|
                        0 <= i < slots@.len() ==> *(#[trigger] slots@[i]).block
                            == block_registry.view()["air"@],
                decreases height - h,
            {
                slots.push(Slot::new(air.clone()));
                h = h + 1;
            }
            assert(height > 0 ==> w * height + height == (w + 1) * height) by (nonlinear_arith);
            w = w + 1;
        }
        assert(0 * height == 0);
        Inventory { slots, width, height }
    }

    pub fn set_block_in_slot(&mut self, block: Arc<BlockType>, id: usize)
        requires
            id < old(self).slots@.len(),
        ensures
            final(self).slots@.len() == old(self).slots@.len(),
            final(self).slots@[id as int].block == block,
            forall|i: int|
                0 <= i < old(self).slots@.len() && i != id ==> #[trigger] final(self).slots@[i]
                    == old(self).slots@[i],
            final(self).width == old(self).width,
            final(self).height == old(self).height,
    {
        self.slots[id].set_block(block);
    }

    pub fn get_block_in_slot(&self, slot: usize) -> (r: Arc<BlockType>)
        requires
            slot < self.slots@.len(),
        ensures
            r == self.slots@[slot as int].block,
    {
        self.slots[slot].block.clone()
    }
}

} // verus!
