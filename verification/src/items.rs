use vstd::prelude::*;

verus! {

/// The items that a player can hold in the dungeon.
#[derive(Clone, Copy, Debug, PartialEq, Eq, Structural)]
pub enum DungeonItems {
    TacticalInsertion,
    AspectOfTheVoid,
    SpiritSceptre,
    SkyblockMenu,
    SuperboomTNT,
    MagicalMap,
    EnderPearl,
    Hyperion,
    Pickaxe,
}

/// Only the magical map is fixed in its inventory slot.
pub open spec fn spec_can_move(item: DungeonItems) -> bool {
    item != DungeonItems::MagicalMap
}

impl DungeonItems {
    /// Whether the item may be moved around the inventory.
    pub fn can_move_in_inventory(&self) -> (r: bool)
        ensures
            r == spec_can_move(*self),
    {
        match self {
            DungeonItems::MagicalMap => false,
            _ => true,
        }
    }
}

/// How an item looks in an inventory: item id, metadata and stack size, its
/// display name and lore lines, its skyblock id, an enchantment (id and
/// level), and whether it is unbreakable and hides its tooltip flags.
#[derive(Clone, Debug)]
pub struct ItemStackData {
    pub item_id: u16,
    pub metadata: u16,
    pub stack_size: u8,
    pub name: &'static str,
    pub lore: Vec<&'static str>,
    pub skyblock_id: Option<&'static str>,
    pub enchantment: Option<(u16, u16)>,
    pub unbreakable: bool,
    pub hide_flags: bool,
}

/// The text of an item stack.
pub struct ItemStackView {
    pub item_id: u16,
    pub metadata: u16,
    pub stack_size: u8,
    pub name: Seq<char>,
    pub lore: Seq<Seq<char>>,
    pub skyblock_id: Option<Seq<char>>,
    pub enchantment: Option<(u16, u16)>,
    pub unbreakable: bool,
    pub hide_flags: bool,
}

pub open spec fn str_views(s: Seq<&str>) -> Seq<Seq<char>> {
    s.map_values(|x: &str| x@)
}

pub open spec fn opt_str_view(s: Option<&str>) -> Option<Seq<char>> {
    match s {
        Some(x) => Some(x@),
        None => None,
    }
}

impl View for ItemStackData {
    type V = ItemStackView;

    open spec fn view(&self) -> ItemStackView {
        ItemStackView {
            item_id: self.item_id,
            metadata: self.metadata,
            stack_size: self.stack_size,
            name: self.name@,
            lore: str_views(self.lore@),
            skyblock_id: opt_str_view(self.skyblock_id),
            enchantment: self.enchantment,
            unbreakable: self.unbreakable,
            hide_flags: self.hide_flags,
        }
    }
}

/// The spirit sceptre and the ender pearl have no stack of their own.
pub open spec fn has_item_stack(item: DungeonItems) -> bool {
    item != DungeonItems::SpiritSceptre && item != DungeonItems::EnderPearl
}

pub open spec fn spec_item_stack(item: DungeonItems) -> ItemStackView {
    match item {
        DungeonItems::Hyperion => ItemStackView {
            item_id: 267,
            metadata: 0,
            stack_size: 1,
            name: "§dHyperion"@,
            lore: seq![""@, "§aScroll Abilities:"@, "§6Ability: Wither Impact §e§lRIGHT CLICK"@, "§7Teleport §a10 blocks§7 ahead of you."@, "§7Then implode dealing §c10,000"@, "§7damage to nearby enemies. Also"@, "§7applies the wither shield scroll"@, "§7ability reducing damage taken and"@, "§7granting an absorption shield for §e5"@, "§7seconds."@, ""@, "§d§l§kE§r§d§l MYTHIC DUNGEON SWORD §kE"@],
            skyblock_id: None,
            enchantment: None,
            unbreakable: true,
            hide_flags: true,
        },
        DungeonItems::AspectOfTheVoid => ItemStackView {
            item_id: 277,
            metadata: 0,
            stack_size: 1,
            name: "§6Aspect of the Void"@,
            lore: seq![""@, "§6Ability: Instant Transmission §e§lRIGHT CLICK"@, "§7Teleport §a12 blocks §7ahead of you and"@, "§7gain §a+50 §r✦ Speed §7for §a3 seconds."@, ""@, "§6Ability: Ether Transmission §e§lSNEAK RIGHT CLICK"@, "§7Teleport to your targeted block up"@, "§7to §a61 blocks §7away"@, ""@, "§6§l§kU§r§6§l LEGENDARY SWORD §kU"@],
            skyblock_id: Some("ASPECT_OF_THE_VOID"@),
            enchantment: None,
            unbreakable: true,
            hide_flags: true,
        },
        DungeonItems::TacticalInsertion => ItemStackView {
            item_id: 369,
            metadata: 0,
            stack_size: 1,
            name: "§6Tactical Insertion"@,
            lore: seq!["§6Ability: Gorilla Tactics §e§lRIGHT CLICK"@, "§7Marks your location and teleport back there"@, "§7after §a3s§7."@, ""@, "§6§l§kU§r§6§l LEGENDARY §kU"@],
            skyblock_id: Some("TACTICAL_INSERTION"@),
            enchantment: None,
            unbreakable: false,
            hide_flags: false,
        },
        DungeonItems::MagicalMap => ItemStackView {
            item_id: 358,
            metadata: 1,
            stack_size: 1,
            name: "§bMagical Map"@,
            lore: seq!["§7Shows the layout of the Dungeon as"@, "§7it is explored and completed."@],
            skyblock_id: None,
            enchantment: None,
            unbreakable: false,
            hide_flags: false,
        },
        DungeonItems::SuperboomTNT => ItemStackView {
            item_id: 46,
            metadata: 0,
            stack_size: 64,
            name: "§9Superboom TNT"@,
            lore: seq!["§7Breaks weak walls. Can be used to"@, "§7blow up Crypts in §cThe Catacombs and"@, "§5Crystal Hollows§7."@, ""@, "§9§lRARE"@],
            skyblock_id: None,
            enchantment: None,
            unbreakable: false,
            hide_flags: false,
        },
        DungeonItems::Pickaxe => ItemStackView {
            item_id: 278,
            metadata: 0,
            stack_size: 1,
            name: "§9Diamond Pickaxe"@,
            lore: seq!["§8Breaking Power 4"@, ""@, "§9Efficiency X"@, "§7Increases how quickly your tool"@, "§7breaks blocks."@, ""@, "§9§l§kE§r§9§l RARE PICKAXE §kE"@],
            skyblock_id: None,
            enchantment: Some((32u16, 10u16)),
            unbreakable: true,
            hide_flags: true,
        },
        DungeonItems::SkyblockMenu => ItemStackView {
            item_id: 399,
            metadata: 0,
            stack_size: 1,
            name: "§aSkyBlock Menu"@,
            lore: seq!["§7View all of your SkyBlock progress,"@, "§7including your Skills, Collections,"@, "§7Recipes, and more!"@],
            skyblock_id: None,
            enchantment: None,
            unbreakable: false,
            hide_flags: false,
        },
        _ => ItemStackView {
            item_id: 0,
            metadata: 0,
            stack_size: 0,
            name: seq![],
            lore: seq![],
            skyblock_id: None,
            enchantment: None,
            unbreakable: false,
            hide_flags: false,
        },
    }
}

impl DungeonItems {
    /// The stack that shows this item in an inventory.
    pub fn item_stack(&self) -> (r: ItemStackData)
        requires
            has_item_stack(*self),
        ensures
            r@ == spec_item_stack(*self),
    {
        let r = match self {
            DungeonItems::Hyperion => ItemStackData {
                item_id: 267,
                metadata: 0,
                stack_size: 1,
                name: "§dHyperion",
                lore: vec!["", "§aScroll Abilities:", "§6Ability: Wither Impact §e§lRIGHT CLICK", "§7Teleport §a10 blocks§7 ahead of you.", "§7Then implode dealing §c10,000", "§7damage to nearby enemies. Also", "§7applies the wither shield scroll", "§7ability reducing damage taken and", "§7granting an absorption shield for §e5", "§7seconds.", "", "§d§l§kE§r§d§l MYTHIC DUNGEON SWORD §kE"],
                skyblock_id: None,
                enchantment: None,
                unbreakable: true,
                hide_flags: true,
            },
            DungeonItems::AspectOfTheVoid => ItemStackData {
                item_id: 277,
                metadata: 0,
                stack_size: 1,
                name: "§6Aspect of the Void",
                lore: vec!["", "§6Ability: Instant Transmission §e§lRIGHT CLICK", "§7Teleport §a12 blocks §7ahead of you and", "§7gain §a+50 §r✦ Speed §7for §a3 seconds.", "", "§6Ability: Ether Transmission §e§lSNEAK RIGHT CLICK", "§7Teleport to your targeted block up", "§7to §a61 blocks §7away", "", "§6§l§kU§r§6§l LEGENDARY SWORD §kU"],
                skyblock_id: Some("ASPECT_OF_THE_VOID"),
                enchantment: None,
                unbreakable: true,
                hide_flags: true,
            },
            DungeonItems::TacticalInsertion => ItemStackData {
                item_id: 369,
                metadata: 0,
                stack_size: 1,
                name: "§6Tactical Insertion",
                lore: vec!["§6Ability: Gorilla Tactics §e§lRIGHT CLICK", "§7Marks your location and teleport back there", "§7after §a3s§7.", "", "§6§l§kU§r§6§l LEGENDARY §kU"],
                skyblock_id: Some("TACTICAL_INSERTION"),
                enchantment: None,
                unbreakable: false,
                hide_flags: false,
            },
            DungeonItems::MagicalMap => ItemStackData {
                item_id: 358,
                metadata: 1,
                stack_size: 1,
                name: "§bMagical Map",
                lore: vec!["§7Shows the layout of the Dungeon as", "§7it is explored and completed."],
                skyblock_id: None,
                enchantment: None,
                unbreakable: false,
                hide_flags: false,
            },
            DungeonItems::SuperboomTNT => ItemStackData {
                item_id: 46,
                metadata: 0,
                stack_size: 64,
                name: "§9Superboom TNT",
                lore: vec!["§7Breaks weak walls. Can be used to", "§7blow up Crypts in §cThe Catacombs and", "§5Crystal Hollows§7.", "", "§9§lRARE"],
                skyblock_id: None,
                enchantment: None,
                unbreakable: false,
                hide_flags: false,
            },
            DungeonItems::Pickaxe => ItemStackData {
                item_id: 278,
                metadata: 0,
                stack_size: 1,
                name: "§9Diamond Pickaxe",
                lore: vec!["§8Breaking Power 4", "", "§9Efficiency X", "§7Increases how quickly your tool", "§7breaks blocks.", "", "§9§l§kE§r§9§l RARE PICKAXE §kE"],
                skyblock_id: None,
                enchantment: Some((32, 10)),
                unbreakable: true,
                hide_flags: true,
            },
            DungeonItems::SkyblockMenu => ItemStackData {
                item_id: 399,
                metadata: 0,
                stack_size: 1,
                name: "§aSkyBlock Menu",
                lore: vec!["§7View all of your SkyBlock progress,", "§7including your Skills, Collections,", "§7Recipes, and more!"],
                skyblock_id: None,
                enchantment: None,
                unbreakable: false,
                hide_flags: false,
            },
            _ => ItemStackData {
                item_id: 0,
                metadata: 0,
                stack_size: 0,
                name: "",
                lore: Vec::new(),
                skyblock_id: None,
                enchantment: None,
                unbreakable: false,
                hide_flags: false,
            },
        };
        assert(str_views(r.lore@) =~= spec_item_stack(*self).lore);
        r
    }
}

} // verus!
