use dungeon_sim::inventory::Inventory;
use dungeon_sim::items::DungeonItems;
use dungeon_sim::menu::{DungeonMenu, MenuItem, OpenContainer};

#[test]
fn item_stacks_of_the_dungeon_items() {
    let hyperion = DungeonItems::Hyperion.item_stack();
    assert_eq!(hyperion.item_id, 267);
    assert_eq!(hyperion.stack_size, 1);
    assert_eq!(hyperion.name, "§dHyperion");
    assert_eq!(hyperion.lore.len(), 12);
    assert_eq!(hyperion.lore[0], "");
    assert_eq!(hyperion.lore[1], "§aScroll Abilities:");
    assert_eq!(hyperion.lore[11], "§d§l§kE§r§d§l MYTHIC DUNGEON SWORD §kE");
    assert!(hyperion.unbreakable && hyperion.hide_flags);

    let aotv = DungeonItems::AspectOfTheVoid.item_stack();
    assert_eq!(aotv.item_id, 277);
    assert_eq!(aotv.skyblock_id, Some("ASPECT_OF_THE_VOID"));
    assert_eq!(aotv.lore[3], "§7gain §a+50 §r✦ Speed §7for §a3 seconds.");

    let map = DungeonItems::MagicalMap.item_stack();
    assert_eq!((map.item_id, map.metadata), (358, 1));
    assert_eq!(map.lore, vec!["§7Shows the layout of the Dungeon as", "§7it is explored and completed."]);

    let tnt = DungeonItems::SuperboomTNT.item_stack();
    assert_eq!((tnt.item_id, tnt.stack_size), (46, 64));
    assert_eq!(tnt.name, "§9Superboom TNT");

    let pickaxe = DungeonItems::Pickaxe.item_stack();
    assert_eq!(pickaxe.item_id, 278);
    assert_eq!(pickaxe.enchantment, Some((32, 10)));
    assert_eq!(pickaxe.lore[2], "§9Efficiency X");

    let tactical = DungeonItems::TacticalInsertion.item_stack();
    assert_eq!(tactical.item_id, 369);
    assert_eq!(tactical.skyblock_id, Some("TACTICAL_INSERTION"));
    assert!(!tactical.unbreakable);

    let menu = DungeonItems::SkyblockMenu.item_stack();
    assert_eq!(menu.item_id, 399);
    assert_eq!(menu.name, "§aSkyBlock Menu");
    assert_eq!(menu.lore.len(), 3);
}

#[test]
fn menu_entry_names() {
    assert_eq!(MenuItem::Background.name("Steve"), "");
    assert_eq!(MenuItem::PlayerHead.name("Steve"), "§7Steve");
    assert_eq!(MenuItem::ReadyIndicator { ready: true }.name("Steve"), "§aReady");
    assert_eq!(MenuItem::ReadyIndicator { ready: false }.name("Steve"), "§cNot Ready");
    assert_eq!(MenuItem::Close.name("Steve"), "§cClose");
}

#[test]
fn a_joining_player_gets_their_items_and_the_map_at_the_start() {
    let mut inv = Inventory::new();
    inv.add_items();
    assert_eq!(inv.items[37], Some(DungeonItems::AspectOfTheVoid));
    assert_eq!(inv.items[39], Some(DungeonItems::Pickaxe));
    assert_eq!(inv.items[44], Some(DungeonItems::SkyblockMenu));
    assert_eq!(inv.items.iter().filter(|i| i.is_some()).count(), 3);
    inv.give_map();
    assert_eq!(inv.items[44], Some(DungeonItems::MagicalMap));
    assert_eq!(inv.get_hotbar_slot(8), Some(DungeonItems::MagicalMap));
}

#[test]
fn the_start_closes_open_menus() {
    let mut menu = OpenContainer::Menu(DungeonMenu::Mort);
    menu.close_menu();
    assert_eq!(menu, OpenContainer::Closed);
    let mut inventory = OpenContainer::Inventory;
    inventory.close_menu();
    assert_eq!(inventory, OpenContainer::Inventory);
}
