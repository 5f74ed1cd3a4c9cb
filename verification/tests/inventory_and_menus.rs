use dungeon_sim::inventory::{is_valid_range, ClickMode, ClickWindow, ClickedStack, Inventory, SetSlot};
use dungeon_sim::items::DungeonItems;
use dungeon_sim::menu::{
    on_click, on_menu_update, ContainerPacket, ContainerPlayer, DungeonMenu, Menu, MenuItem, MortClick,
    MortMenu, OpenContainer,
};

fn click(slot_id: i16, used_button: i8, mode: ClickMode, clicked_item: ClickedStack) -> ClickWindow {
    ClickWindow { window_id: 0, slot_id, used_button, mode, clicked_item }
}

#[test]
fn valid_click_range_is_storage_and_hotbar() {
    assert!(!is_valid_range(8));
    assert!(is_valid_range(9));
    assert!(is_valid_range(44));
    assert!(!is_valid_range(45));
}

#[test]
fn new_inventory_is_empty_and_slots_can_be_set() {
    let mut inv = Inventory::new();
    assert_eq!(inv.items.len(), 45);
    assert!(inv.items.iter().all(|i| i.is_none()));
    inv.set_slot(37, Some(DungeonItems::Hyperion));
    inv.set_slot(45, Some(DungeonItems::Pickaxe));
    assert_eq!(inv.items[37], Some(DungeonItems::Hyperion));
    assert_eq!(inv.get_hotbar_slot(1), Some(DungeonItems::Hyperion));
    assert_eq!(inv.get_hotbar_slot(0), None);
    assert_eq!(inv.get_hotbar_slot(9), None);
}

#[test]
fn normal_click_picks_up_and_puts_back() {
    let mut inv = Inventory::new();
    inv.set_slot(20, Some(DungeonItems::Pickaxe));
    let mut out: Vec<SetSlot> = Vec::new();
    let sync = inv.handle_packet(&click(20, 0, ClickMode::NormalClick, ClickedStack::Item(DungeonItems::Pickaxe)), &mut out);
    assert!(!sync);
    assert_eq!(inv.items[20], None);
    assert_eq!(inv.dragged_item, Some(DungeonItems::Pickaxe));
    let sync = inv.handle_packet(&click(20, 0, ClickMode::NormalClick, ClickedStack::Empty), &mut out);
    assert!(!sync);
    assert_eq!(inv.items[20], Some(DungeonItems::Pickaxe));
    assert_eq!(inv.dragged_item, None);
    assert!(out.is_empty());
}

#[test]
fn normal_click_outside_the_window_sends_the_cursor() {
    let mut inv = Inventory::new();
    let mut out: Vec<SetSlot> = Vec::new();
    assert!(!inv.handle_packet(&click(-999, 0, ClickMode::NormalClick, ClickedStack::Empty), &mut out));
    assert_eq!(out, vec![SetSlot { window_id: -1, slot: 0, item: None }]);
}

#[test]
fn a_stale_client_stack_asks_for_a_resync() {
    let mut inv = Inventory::new();
    inv.set_slot(20, Some(DungeonItems::Pickaxe));
    let mut out: Vec<SetSlot> = Vec::new();
    assert!(inv.handle_packet(&click(20, 0, ClickMode::NormalClick, ClickedStack::Unrecognised), &mut out));
    assert_eq!(inv.dragged_item, Some(DungeonItems::Pickaxe));
}

#[test]
fn the_magical_map_stays_in_place() {
    let mut inv = Inventory::new();
    inv.set_slot(44, Some(DungeonItems::MagicalMap));
    let mut out: Vec<SetSlot> = Vec::new();
    assert!(inv.handle_packet(&click(44, 0, ClickMode::NormalClick, ClickedStack::Item(DungeonItems::MagicalMap)), &mut out));
    assert_eq!(inv.items[44], Some(DungeonItems::MagicalMap));
    assert!(inv.handle_packet(&click(44, 0, ClickMode::ShiftClick, ClickedStack::Item(DungeonItems::MagicalMap)), &mut out));
    assert_eq!(inv.items[44], Some(DungeonItems::MagicalMap));
    assert!(!DungeonItems::MagicalMap.can_move_in_inventory());
    assert!(DungeonItems::Hyperion.can_move_in_inventory());
}

#[test]
fn shift_click_moves_between_hotbar_and_storage() {
    let mut inv = Inventory::new();
    inv.set_slot(40, Some(DungeonItems::EnderPearl));
    inv.set_slot(9, Some(DungeonItems::Pickaxe));
    let mut out: Vec<SetSlot> = Vec::new();
    assert!(!inv.handle_packet(&click(40, 0, ClickMode::ShiftClick, ClickedStack::Item(DungeonItems::EnderPearl)), &mut out));
    assert_eq!(inv.items[40], None);
    assert_eq!(inv.items[10], Some(DungeonItems::EnderPearl));
    assert!(!inv.handle_packet(&click(9, 0, ClickMode::ShiftClick, ClickedStack::Item(DungeonItems::Pickaxe)), &mut out));
    assert_eq!(inv.items[36], Some(DungeonItems::Pickaxe));
}

#[test]
fn number_key_swaps_with_the_hotbar_and_twice_restores() {
    let mut inv = Inventory::new();
    inv.set_slot(12, Some(DungeonItems::Hyperion));
    inv.set_slot(38, Some(DungeonItems::SpiritSceptre));
    let mut out: Vec<SetSlot> = Vec::new();
    let key = click(12, 2, ClickMode::NumberKey, ClickedStack::Item(DungeonItems::Hyperion));
    assert!(!inv.handle_packet(&key, &mut out));
    assert_eq!(inv.items[12], Some(DungeonItems::SpiritSceptre));
    assert_eq!(inv.items[38], Some(DungeonItems::Hyperion));
    assert!(!inv.handle_packet(&key, &mut out));
    assert_eq!(inv.items[12], Some(DungeonItems::Hyperion));
    assert_eq!(inv.items[38], Some(DungeonItems::SpiritSceptre));
    // the key of the slot itself sends the slot back
    let same = click(38, 2, ClickMode::NumberKey, ClickedStack::Item(DungeonItems::SpiritSceptre));
    assert!(!inv.handle_packet(&same, &mut out));
    assert_eq!(out, vec![SetSlot { window_id: 0, slot: 38, item: Some(DungeonItems::SpiritSceptre) }]);
}

#[test]
fn dropping_resyncs() {
    let mut inv = Inventory::new();
    let mut out: Vec<SetSlot> = Vec::new();
    assert!(inv.handle_packet(&click(20, 0, ClickMode::Drop, ClickedStack::Empty), &mut out));
    assert!(!inv.handle_packet(&click(20, 0, ClickMode::DoubleClick, ClickedStack::Empty), &mut out));
}

fn player(ready: bool) -> ContainerPlayer {
    ContainerPlayer { inventory: Inventory::new(), window_id: 1, is_ready: ready, packets: Vec::new() }
}

#[test]
fn opening_the_ready_menu() {
    let mut p = player(false);
    let mut menu = OpenContainer::Menu(DungeonMenu::Mort);
    menu.open(&mut p);
    assert_eq!(p.packets.len(), 2);
    match &p.packets[0] {
        ContainerPacket::OpenWindow { window_id, title, slot_count } => {
            assert_eq!(*window_id, 1);
            assert_eq!(title, "Ready Up");
            assert_eq!(*slot_count, 54);
        },
        other => panic!("unexpected {:?}", other),
    }
    match &p.packets[1] {
        ContainerPacket::WindowItems { items, .. } => {
            assert_eq!(items.len(), 54);
            assert_eq!(items[0], Some(MenuItem::Background));
            assert_eq!(items[4], Some(MenuItem::PlayerHead));
            assert_eq!(items[13], Some(MenuItem::ReadyIndicator { ready: false }));
        },
        other => panic!("unexpected {:?}", other),
    }
}

#[test]
fn clicking_the_ready_indicator_toggles_readiness() {
    let mut p = player(false);
    let mut menu = OpenContainer::Menu(DungeonMenu::Mort);
    let c = ClickWindow { window_id: 1, slot_id: 13, used_button: 0, mode: ClickMode::NormalClick, clicked_item: ClickedStack::Unrecognised };
    menu.click_window(&mut p, &c);
    assert!(p.is_ready);
    assert!(matches!(p.packets[0], ContainerPacket::ToggleReady));
    match &p.packets[1] {
        ContainerPacket::WindowItems { items, .. } => assert_eq!(items[13], Some(MenuItem::ReadyIndicator { ready: true })),
        other => panic!("unexpected {:?}", other),
    }
    // a click for another window does nothing
    let other = ClickWindow { window_id: 7, ..c };
    menu.click_window(&mut p, &other);
    assert!(p.is_ready);
    assert_eq!(p.packets.len(), 3);
}

#[test]
fn clicking_with_no_window_resyncs_the_inventory() {
    let mut p = player(false);
    let mut menu = OpenContainer::Closed;
    let c = ClickWindow { window_id: 0, slot_id: 13, used_button: 0, mode: ClickMode::NormalClick, clicked_item: ClickedStack::Empty };
    menu.click_window(&mut p, &c);
    assert!(matches!(p.packets[..], [ContainerPacket::SyncInventory]));
}

#[test]
fn syncing_the_inventory_sends_the_cursor() {
    let mut p = player(false);
    p.inventory.dragged_item = Some(DungeonItems::Pickaxe);
    let mut inv = OpenContainer::Inventory;
    inv.sync_container(&mut p);
    assert!(matches!(p.packets[..], [ContainerPacket::SetSlot(SetSlot { window_id: -1, slot: 0, item: Some(DungeonItems::Pickaxe) })]));
}

#[test]
fn mort_menu_with_its_close_button() {
    let items = on_menu_update(true);
    assert_eq!(items[49], Some(MenuItem::Close));
    assert_eq!(items[13], Some(MenuItem::ReadyIndicator { ready: true }));
    assert_eq!(on_click(4), MortClick::ToggleReady);
    assert_eq!(on_click(13), MortClick::ToggleReady);
    assert_eq!(on_click(49), MortClick::Close);
    assert_eq!(on_click(0), MortClick::Nothing);
    let mut mort = MortMenu;
    assert!(mort.click_window(4));
    assert!(!mort.click_window(49));
    assert_eq!(mort.container_items(false)[49], Some(MenuItem::Background));
    assert_eq!(MenuItem::ReadyIndicator { ready: true }.stack_id(), (95, 13));
    assert_eq!(MenuItem::ReadyIndicator { ready: false }.stack_id(), (95, 14));
    assert_eq!(MenuItem::Close.stack_id(), (166, 0));
}
