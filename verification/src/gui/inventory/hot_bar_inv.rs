use vstd::prelude::*;

use std::sync::Arc;

use crate::block::block_registry::BlockRegistry;
use crate::block::block_type::BlockType;
use crate::gui::inventory::inventory::Inventory;
use crate::shared::share;

verus! {

/// The slot that selecting `id` lands on in a bar `width` slots wide: one
/// bar width back from past the end, one bar width on from before the
/// start.
pub open spec fn wrap_slot(id: int, width: int) -> int {
    if id > width - 1 {
        id - width
    } else if id < 0 {
        width + id
    } else {
        id
    }
}

/// The selection after the number keys of `keys` were clicked in order:
/// the last clicked key's slot, or `selected` where none was.
pub open spec fn after_keys(selected: int, keys: Seq<bool>, n: int) -> int
    decreases n,
{
    if n <= 0 {
        selected
    } else if keys[n - 1] {
        n - 1
    } else {
        after_keys(selected, keys, n - 1)
    }
}

/// The selection after a scroll: up moves one slot back, down one slot
/// on, in a bar of ten.
pub open spec fn after_scroll(selected: int, scroll: Option<bool>) -> int {
    match scroll {
        Some(true) => wrap_slot(selected - 1, 10),
        Some(false) => wrap_slot(selected + 1, 10),
        None => selected,
    }
}

/// Scrolling up and then down, or down and then up, comes back to the
/// slot of the bar where it started.
pub proof fn law_scroll_round_trip(selected: int)
    requires
        0 <= selected < 10,
    ensures
        after_scroll(after_scroll(selected, Some(true)), Some(false)) == selected,
        after_scroll(after_scroll(selected, Some(false)), Some(true)) == selected,
{
}

/// Whatever the keys and the scroll, the selection stays within the bar's
/// first row.
pub proof fn law_selection_in_bar(selected: int, keys: Seq<bool>, scroll: Option<bool>)
    requires
        0 <= selected < 10,
        keys.len() == 10,
    ensures
        0 <= after_scroll(after_keys(selected, keys, 10), scroll) < 10,
{
    lemma_after_keys_in_bar(selected, keys, 10);
}

proof fn lemma_after_keys_in_bar(selected: int, keys: Seq<bool>, n: int)
    requires
        0 <= selected < 10,
        0 <= n <= 10,
        keys.len() == 10,
    ensures
        0 <= after_keys(selected, keys, n) < 10,
    decreases n,
{
    if n > 0 {
        lemma_after_keys_in_bar(selected, keys, n - 1);
    }
}

/// The blocks the hot bar offers: the registry's blocks other than air,
/// in the registry's order.
pub open spec fn offered_blocks(block_registry: &BlockRegistry) -> Seq<Arc<BlockType>> {
    block_registry.blocks@.filter(|b: Arc<BlockType>| !b.is_air)
}

/// Filtering a prefix keeps no more than filtering the whole.
proof fn lemma_filter_prefix_len<A>(s: Seq<A>, p: spec_fn(A) -> bool, k: int)
    requires
        0 <= k <= s.len(),
    ensures
        s.take(k).filter(p).len() <= s.filter(p).len(),
    decreases s.len() - k,
{
    if k == s.len() {
        assert(s.take(k) =~= s);
    } else {
        lemma_filter_prefix_len(s, p, k + 1);
        reveal(Seq::filter);
        assert(s.take(k + 1).drop_last() =~= s.take(k));
    }
}

/// The bar of ten slots at the bottom of the screen, two rows deep, with
/// one slot selected.
pub struct HotBarInventory {
    pub inv: Inventory,
    pub selected_slot: i32,
}

impl HotBarInventory {
    pub open spec fn wf(self) -> bool {
        &&& self.inv.width == 10
        &&& self.inv.height == 2
        &&& self.inv.slots@.len() == 20
        &&& 0 <= self.selected_slot < 20
    }

    /// A bar whose first slots hold the registry's blocks other than air,
    /// in the registry's order, and whose other slots hold air; the first
    /// slot is selected.
    pub fn new(block_registry: &BlockRegistry) -> (r: HotBarInventory)
        requires
            block_registry.wf(),
            block_registry.view().contains_key("air"@),
            offered_blocks(block_registry).len() <= 20,
        ensures
            r.wf(),
            r.selected_slot == 0,
            forall|i: int|
                0 <= i < 20 ==> *(#[trigger] r.inv.slots@[i]).block == if i < offered_blocks(
                    block_registry,
                ).len() {
                    *offered_blocks(block_registry)[i]
                } else {
                    block_registry.view()["air"@]
                },
    {
        let mut inv = Inventory::new(10, 2, block_registry);
        let ghost blocks = block_registry.blocks@;
        let ghost pred = |b: Arc<BlockType>| !b.is_air;
        let mut a: usize = 0;
        let mut k: usize = 0;
        while k < block_registry.blocks.len()
            invariant
                k <= blocks.len(),
                blocks == block_registry.blocks@,
                pred == (|b: Arc<BlockType>| !b.is_air),
                blocks.filter(pred).len() <= 20,
                inv.width == 10,
                inv.height == 2,
                inv.slots@.len() == 20,
                a == blocks.take(k as int).filter(pred).len(),
                forall|i: int|
                    0 <= i < 20 ==> *(#[trigger] inv.slots@[i]).block == if i < a {
                        *blocks.take(k as int).filter(pred)[i]
                    } else {
                        block_registry.view()["air"@]
                    },
            decreases blocks.len() - k,
        {
            proof {
                assert(blocks.take(k + 1).drop_last() =~= blocks.take(k as int));
                assert(blocks.take(k + 1).last() == blocks[k as int]);
                reveal(Seq::filter);
                lemma_filter_prefix_len(blocks, pred, k + 1);
            }
            let b = &block_registry.blocks[k];
            if !b.is_air {
                inv.set_block_in_slot(share(b), a);
                a = a + 1;
            }
            k = k + 1;
        }
        assert(blocks.take(blocks.len() as int) =~= blocks);
        HotBarInventory { inv, selected_slot: 0 }
    }

    /// Selects slot `id`, wrapped back into the bar where it lies one bar
    /// width beyond either end.
    pub fn select_slot(&mut self, id: i32)
        requires
            i32::MIN < old(self).inv.width,
            id > old(self).inv.width - 1 ==> i32::MIN <= id - old(self).inv.width <= i32::MAX,
            id < 0 && id <= old(self).inv.width - 1 ==> old(self).inv.width + id <= i32::MAX,
            0 <= wrap_slot(id as int, old(self).inv.width as int) < old(self).inv.slots@.len(),
        ensures
            final(self).selected_slot == wrap_slot(id as int, old(self).inv.width as int),
            final(self).inv == old(self).inv,
    {
        let mut real_id = id;
        if id > self.inv.width - 1 {
            real_id = id - self.inv.width;
        } else if id < 0 {
            real_id = self.inv.width + id;
        }
        self.selected_slot = real_id;
    }

    pub fn get_selected_block(&self) -> (r: Arc<BlockType>)
        requires
            0 <= self.selected_slot < self.inv.slots@.len(),
        ensures
            r == self.inv.slots@[self.selected_slot as int].block,
    {
        self.inv.get_block_in_slot(self.selected_slot as usize)
    }

    /// Follows the input: number keys one to nine and zero select slots
    /// zero to nine, `keys_clicked` telling which were clicked, in that
    /// order; then a scroll up selects the slot before, a scroll down the
    /// slot after.
    pub fn process_input(&mut self, keys_clicked: &Vec<bool>, scroll: Option<bool>)
        requires
            old(self).wf(),
            keys_clicked@.len() == 10,
        ensures
            final(self).wf(),
            final(self).inv == old(self).inv,
            final(self).selected_slot == after_scroll(
                after_keys(old(self).selected_slot as int, keys_clicked@, 10),
                scroll,
            ),
    {
        let mut i: usize = 0;
        while i < 10
            invariant
                self.wf(),
                self.inv == old(self).inv,
                i <= 10,
                keys_clicked@.len() == 10,
                self.selected_slot == after_keys(old(self).selected_slot as int, keys_clicked@, i as int),
            decreases 10 - i,
        {
            if keys_clicked[i] {
                self.select_slot(i as i32);
            }
            i = i + 1;
        }
        match scroll {
            Some(up) => {
                if up {
                    let s = self.selected_slot - 1;
                    self.select_slot(s);
                } else {
                    let s = self.selected_slot + 1;
                    self.select_slot(s);
                }
            },
            None => {},
        }
    }
}

} // verus!
