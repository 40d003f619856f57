use block_world::block::block_registry::BlockRegistry;
use block_world::gui::inventory::hot_bar_inv::HotBarInventory;
use block_world::gui::inventory::inventory::Inventory;
use block_world::gui::inventory::slot::Slot;

fn game_registry() -> BlockRegistry {
    let mut reg = BlockRegistry::new();
    reg.add_all_types();
    reg
}

#[test]
fn a_new_inventory_holds_air() {
    let reg = game_registry();
    let inv = Inventory::new(3, 2, &reg);
    assert_eq!(inv.slots.len(), 6);
    assert_eq!((inv.width, inv.height), (3, 2));
    assert!(inv.slots.iter().all(|s| s.block.id == "air"));
    assert!(Inventory::new(0, 5, &reg).slots.is_empty());
    assert!(Inventory::new(4, -1, &reg).slots.is_empty());
}

#[test]
fn slots_keep_what_is_put_in() {
    let reg = game_registry();
    let mut inv = Inventory::new(2, 2, &reg);
    inv.set_block_in_slot(reg.block("glass"), 3);
    assert_eq!(inv.get_block_in_slot(3).id, "glass");
    assert_eq!(inv.get_block_in_slot(2).id, "air");
    let mut s = Slot::new(reg.block("dirt"));
    assert_eq!(s.block.id, "dirt");
    s.set_block(reg.block("sand"));
    assert_eq!(s.block.id, "sand");
}

#[test]
fn the_hot_bar_offers_the_solid_blocks_in_order() {
    let reg = game_registry();
    let bar = HotBarInventory::new(&reg);
    assert_eq!(bar.selected_slot, 0);
    assert_eq!(bar.inv.slots.len(), 20);
    let ids: Vec<String> = bar.inv.slots.iter().map(|s| s.block.id.clone()).collect();
    let want = [
        "dirt", "grass", "stone", "log", "cobble", "leaves", "glass", "plank", "sand", "snow",
    ];
    for i in 0..10 {
        assert_eq!(ids[i], want[i]);
    }
    for i in 10..20 {
        assert_eq!(ids[i], "air");
    }
    assert_eq!(bar.get_selected_block().id, "dirt");
}

#[test]
fn selecting_wraps_around_the_bar() {
    let reg = game_registry();
    let mut bar = HotBarInventory::new(&reg);
    bar.select_slot(3);
    assert_eq!(bar.selected_slot, 3);
    bar.select_slot(10);
    assert_eq!(bar.selected_slot, 0);
    bar.select_slot(-1);
    assert_eq!(bar.selected_slot, 9);
    bar.select_slot(15);
    assert_eq!(bar.selected_slot, 5);
    bar.select_slot(25);
    assert_eq!(bar.selected_slot, 15);
    assert_eq!(bar.get_selected_block().id, "air");
}

#[test]
fn keys_and_scroll_select_slots() {
    let reg = game_registry();
    let mut bar = HotBarInventory::new(&reg);
    let mut keys = vec![false; 10];
    keys[4] = true;
    bar.process_input(&keys, None);
    assert_eq!(bar.selected_slot, 4);
    assert_eq!(bar.get_selected_block().id, "cobble");
    keys[2] = true;
    keys[9] = true;
    bar.process_input(&keys, None);
    assert_eq!(bar.selected_slot, 9);
    bar.process_input(&vec![false; 10], Some(false));
    assert_eq!(bar.selected_slot, 0);
    bar.process_input(&vec![false; 10], Some(true));
    assert_eq!(bar.selected_slot, 9);
    bar.process_input(&vec![false; 10], Some(true));
    assert_eq!(bar.selected_slot, 8);
    let mut only_one = vec![false; 10];
    only_one[0] = true;
    bar.process_input(&only_one, Some(true));
    assert_eq!(bar.selected_slot, 9);
}
