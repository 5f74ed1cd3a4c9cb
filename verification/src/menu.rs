use vstd::prelude::*;
use vstd::string::StringExecFns;

use crate::inventory::{spec_handle_click, click_overruns, ClickWindow, Inventory, SetSlot};
use crate::items::DungeonItems;

verus! {

/// An item shown in a menu window.
#[derive(Clone, Copy, Debug, PartialEq, Eq, Structural)]
pub enum MenuItem {
    /// Dark glass pane filling the unused slots.
    Background,
    /// The viewing player's own head.
    PlayerHead,
    /// Green when the player is ready, red when not.
    ReadyIndicator { ready: bool },
    /// Barrier that closes the menu.
    Close,
}

/// The display name of a menu entry, for the viewing player `username`.
pub open spec fn spec_menu_item_name(item: MenuItem, username: Seq<char>) -> Seq<char> {
    match item {
        MenuItem::Background => ""@,
        MenuItem::PlayerHead => "§7"@ + username,
        MenuItem::ReadyIndicator { ready } => if ready {
            "§aReady"@
        } else {
            "§cNot Ready"@
        },
        MenuItem::Close => "§cClose"@,
    }
}

impl MenuItem {
    /// The display name of this entry for the player `username`: the head
    /// shows the player's name, the indicator whether they are ready.
    pub fn name(&self, username: &str) -> (r: String)
        ensures
            r@ == spec_menu_item_name(*self, username@),
    {
        match self {
            MenuItem::Background => String::from_str(""),
            MenuItem::PlayerHead => {
                let mut s = String::from_str("§7");
                s.append(username);
                s
            },
            MenuItem::ReadyIndicator { ready } => if *ready {
                String::from_str("§aReady")
            } else {
                String::from_str("§cNot Ready")
            },
            MenuItem::Close => String::from_str("§cClose"),
        }
    }

    /// Item id and metadata of the stack that shows this entry.
    pub fn stack_id(&self) -> (r: (u16, u8))
        ensures
            r == spec_stack_id(*self),
    {
        match self {
            MenuItem::Background => (160, 15),
            MenuItem::PlayerHead => (397, 3),
            MenuItem::ReadyIndicator { ready } => if *ready { (95, 13) } else { (95, 14) },
            MenuItem::Close => (166, 0),
        }
    }
}

pub open spec fn spec_stack_id(item: MenuItem) -> (u16, u8) {
    match item {
        MenuItem::Background => (160, 15),
        MenuItem::PlayerHead => (397, 3),
        MenuItem::ReadyIndicator { ready } => if ready { (95, 13) } else { (95, 14) },
        MenuItem::Close => (166, 0),
    }
}

/// What a window sends to or asks of the player.
#[derive(Clone, Debug)]
pub enum ContainerPacket {
    SetSlot(SetSlot),
    OpenWindow { window_id: i8, title: String, slot_count: u8 },
    WindowItems { window_id: i8, items: Vec<Option<MenuItem>> },
    /// The whole player inventory must be sent again.
    SyncInventory,
    /// The player toggled their ready status.
    ToggleReady,
}

pub enum ContainerPacketView {
    SetSlot(SetSlot),
    OpenWindow { window_id: i8, title: Seq<char>, slot_count: u8 },
    WindowItems { window_id: i8, items: Seq<Option<MenuItem>> },
    SyncInventory,
    ToggleReady,
}

impl View for ContainerPacket {
    type V = ContainerPacketView;

    open spec fn view(&self) -> ContainerPacketView {
        match self {
            ContainerPacket::SetSlot(s) => ContainerPacketView::SetSlot(*s),
            ContainerPacket::OpenWindow { window_id, title, slot_count } =>
                ContainerPacketView::OpenWindow {
                window_id: *window_id,
                title: title@,
                slot_count: *slot_count,
            },
            ContainerPacket::WindowItems { window_id, items } => ContainerPacketView::WindowItems {
                window_id: *window_id,
                items: items@,
            },
            ContainerPacket::SyncInventory => ContainerPacketView::SyncInventory,
            ContainerPacket::ToggleReady => ContainerPacketView::ToggleReady,
        }
    }
}

pub open spec fn packet_views(v: Seq<ContainerPacket>) -> Seq<ContainerPacketView> {
    v.map_values(|p: ContainerPacket| p@)
}

/// The parts of a player that windows read and write.
#[derive(Clone, Debug)]
pub struct ContainerPlayer {
    pub inventory: Inventory,
    pub window_id: i8,
    pub is_ready: bool,
    pub packets: Vec<ContainerPacket>,
}

/// A menu window that a player can open.
pub trait Menu: Sized {
    spec fn spec_items(&self, is_ready: bool) -> Seq<Option<MenuItem>>;

    spec fn spec_clicked(&self, slot_id: i16) -> bool;

    fn container_name(&self) -> (r: String)
        ensures
            r@ == spec_menu_title(),
    ;

    fn container_items(&self, is_ready: bool) -> (r: Vec<Option<MenuItem>>)
        ensures
            r@ == self.spec_items(is_ready),
            r@.len() == 54,
    ;

    /// Whether a click on `slot_id` toggles the player's ready status.
    fn click_window(&mut self, slot_id: i16) -> (r: bool)
        ensures
            r == old(self).spec_clicked(slot_id),
            *final(self) == *old(self),
    ;
}

pub open spec fn spec_menu_title() -> Seq<char> {
    seq!['R', 'e', 'a', 'd', 'y', ' ', 'U', 'p']
}

/// The menus of the dungeon.
#[derive(Clone, Copy, Debug, PartialEq, Eq, Structural)]
pub enum DungeonMenu {
    /// Mort's ready-up menu in the entrance room.
    Mort,
}

/// Layout of the ready-up menu: background everywhere, the player's head in
/// slot 4 and the ready indicator in slot 13.
pub open spec fn spec_mort_items(is_ready: bool) -> Seq<Option<MenuItem>> {
    Seq::new(54, |i: int| Some(MenuItem::Background)).update(4, Some(MenuItem::PlayerHead)).update(
        13,
        Some(MenuItem::ReadyIndicator { ready: is_ready }),
    )
}

fn filled_menu(n: usize, item: MenuItem) -> (r: Vec<Option<MenuItem>>)
    ensures
        r@ == Seq::new(n as nat, |i: int| Some(item)),
{
    let mut items: Vec<Option<MenuItem>> = Vec::new();
    let mut i: usize = 0;
    while i < n
        invariant
            i <= n,
            items@ == Seq::new(i as nat, |k: int| Some(item)),
        decreases n - i,
    {
        items.push(Some(item));
        i = i + 1;
    }
    items
}

fn menu_title() -> (r: String)
    ensures
        r@ == spec_menu_title(),
{
    proof {
        reveal_strlit("Ready Up");
    }
    String::from_str("Ready Up")
}

impl Menu for DungeonMenu {
    open spec fn spec_items(&self, is_ready: bool) -> Seq<Option<MenuItem>> {
        spec_mort_items(is_ready)
    }

    open spec fn spec_clicked(&self, slot_id: i16) -> bool {
        slot_id == 4 || slot_id == 13
    }

    fn container_name(&self) -> (r: String) {
        menu_title()
    }

    fn container_items(&self, is_ready: bool) -> (r: Vec<Option<MenuItem>>) {
        let mut items = filled_menu(54, MenuItem::Background);
        items.set(4, Some(MenuItem::PlayerHead));
        items.set(13, Some(MenuItem::ReadyIndicator { ready: is_ready }));
        items
    }

    fn click_window(&mut self, slot_id: i16) -> (r: bool) {
        slot_id == 4 || slot_id == 13
    }
}

/// The window a player has open.
#[derive(Clone, Copy, Debug, PartialEq, Eq, Structural)]
pub enum OpenContainer {
    /// No window is open.
    Closed,
    Inventory,
    Menu(DungeonMenu),
}

pub open spec fn cursor_packet(dragged: Option<DungeonItems>) -> ContainerPacketView {
    ContainerPacketView::SetSlot(SetSlot { window_id: -1i8, slot: 0i16, item: dragged })
}

pub open spec fn wrap_slots(v: Seq<SetSlot>) -> Seq<ContainerPacketView> {
    v.map_values(|s: SetSlot| ContainerPacketView::SetSlot(s))
}

/// Packets that opening a window sends.
pub open spec fn spec_open_packets(c: OpenContainer, window_id: i8, dragged: Option<DungeonItems>, is_ready: bool) -> Seq<
    ContainerPacketView,
> {
    match c {
        OpenContainer::Closed => seq![],
        OpenContainer::Inventory => if dragged is Some {
            seq![cursor_packet(dragged)]
        } else {
            seq![]
        },
        OpenContainer::Menu(m) => seq![
            ContainerPacketView::OpenWindow { window_id, title: spec_menu_title(), slot_count: 54 },
            ContainerPacketView::WindowItems { window_id, items: m.spec_items(is_ready) },
        ],
    }
}

/// Packets that bring an open window up to date.
pub open spec fn spec_sync_packets(c: OpenContainer, window_id: i8, dragged: Option<DungeonItems>, is_ready: bool) -> Seq<
    ContainerPacketView,
> {
    match c {
        OpenContainer::Closed => seq![],
        OpenContainer::Inventory => seq![cursor_packet(dragged)],
        OpenContainer::Menu(m) => seq![
            ContainerPacketView::WindowItems { window_id, items: m.spec_items(is_ready) },
            cursor_packet(None),
        ],
    }
}

proof fn lemma_push_views(v: Seq<ContainerPacket>, p: ContainerPacket)
    ensures
        packet_views(v.push(p)) == packet_views(v).push(p@),
{
    assert(packet_views(v.push(p)) =~= packet_views(v).push(p@));
}

impl OpenContainer {
    /// Shows the window to the player.
    pub fn open(&mut self, player: &mut ContainerPlayer)
        ensures
            *final(self) == *old(self),
            final(player).inventory == old(player).inventory,
            final(player).window_id == old(player).window_id,
            final(player).is_ready == old(player).is_ready,
            packet_views(final(player).packets@) == packet_views(old(player).packets@) + spec_open_packets(
                *old(self),
                old(player).window_id,
                old(player).inventory.dragged_item,
                old(player).is_ready,
            ),
    {
        let ghost before = player.packets@;
        match self {
            OpenContainer::Closed => {
                assert(packet_views(player.packets@) =~= packet_views(before) + seq![]);
            },
            OpenContainer::Inventory => {
                if player.inventory.dragged_item.is_some() {
                    let p = ContainerPacket::SetSlot(
                        SetSlot { window_id: -1, slot: 0, item: player.inventory.dragged_item },
                    );
                    proof {
                        lemma_push_views(player.packets@, p);
                    }
                    player.packets.push(p);
                } else {
                    assert(packet_views(player.packets@) =~= packet_views(before) + seq![]);
                }
            },
            OpenContainer::Menu(menu) => {
                let name = menu.container_name();
                let items = menu.container_items(player.is_ready);
                let p1 = ContainerPacket::OpenWindow {
                    window_id: player.window_id,
                    title: name,
                    slot_count: items.len() as u8,
                };
                proof {
                    lemma_push_views(player.packets@, p1);
                }
                player.packets.push(p1);
                let p2 = ContainerPacket::WindowItems { window_id: player.window_id, items };
                proof {
                    lemma_push_views(player.packets@, p2);
                }
                player.packets.push(p2);
                assert(packet_views(player.packets@) =~= packet_views(before) + spec_open_packets(
                    *old(self),
                    old(player).window_id,
                    old(player).inventory.dragged_item,
                    old(player).is_ready,
                ));
            },
        }
    }

    /// When the run starts, an open menu is closed; other windows stay.
    pub fn close_menu(&mut self)
        ensures
            *old(self) is Menu ==> *final(self) == OpenContainer::Closed,
            !(*old(self) is Menu) ==> *final(self) == *old(self),
    {
        if let OpenContainer::Menu(_) = self {
            *self = OpenContainer::Closed;
        }
    }

    /// Brings the open window up to date on the client.
    pub fn sync_container(&mut self, player: &mut ContainerPlayer)
        ensures
            *final(self) == *old(self),
            final(player).inventory == old(player).inventory,
            final(player).window_id == old(player).window_id,
            final(player).is_ready == old(player).is_ready,
            packet_views(final(player).packets@) == packet_views(old(player).packets@) + spec_sync_packets(
                *old(self),
                old(player).window_id,
                old(player).inventory.dragged_item,
                old(player).is_ready,
            ),
    {
        let ghost before = player.packets@;
        match self {
            OpenContainer::Closed => {
                assert(packet_views(player.packets@) =~= packet_views(before) + seq![]);
            },
            OpenContainer::Inventory => {
                let p = ContainerPacket::SetSlot(
                    SetSlot { window_id: -1, slot: 0, item: player.inventory.dragged_item },
                );
                proof {
                    lemma_push_views(player.packets@, p);
                }
                player.packets.push(p);
                assert(packet_views(player.packets@) =~= packet_views(before) + spec_sync_packets(
                    *old(self),
                    old(player).window_id,
                    old(player).inventory.dragged_item,
                    old(player).is_ready,
                ));
            },
            OpenContainer::Menu(menu) => {
                let items = menu.container_items(player.is_ready);
                let p1 = ContainerPacket::WindowItems { window_id: player.window_id, items };
                proof {
                    lemma_push_views(player.packets@, p1);
                }
                player.packets.push(p1);
                let p2 = ContainerPacket::SetSlot(SetSlot { window_id: -1, slot: 0, item: None });
                proof {
                    lemma_push_views(player.packets@, p2);
                }
                player.packets.push(p2);
                assert(packet_views(player.packets@) =~= packet_views(before) + spec_sync_packets(
                    *old(self),
                    old(player).window_id,
                    old(player).inventory.dragged_item,
                    old(player).is_ready,
                ));
            },
        }
    }

    /// Handles a click in the open window: with no window open the inventory
    /// is sent again; in the inventory the click moves items; in a menu of
    /// this window the click may toggle the player's ready status, and the
    /// menu is brought up to date.
    pub fn click_window(&mut self, player: &mut ContainerPlayer, packet: &ClickWindow)
        requires
            old(player).inventory.wf(),
            *old(self) == OpenContainer::Inventory ==> !click_overruns(
                old(player).inventory.items@,
                *packet,
            ),
        ensures
            *final(self) == *old(self),
            final(player).window_id == old(player).window_id,
            final(player).inventory.wf(),
            match *old(self) {
                OpenContainer::Closed => {
                    &&& final(player).inventory == old(player).inventory
                    &&& final(player).is_ready == old(player).is_ready
                    &&& packet_views(final(player).packets@) == packet_views(old(player).packets@).push(
                        ContainerPacketView::SyncInventory,
                    )
                },
                OpenContainer::Inventory => {
                    let (items, dragged, out, sync) = spec_handle_click(
                        old(player).inventory.items@,
                        old(player).inventory.dragged_item,
                        *packet,
                    );
                    &&& final(player).inventory.items@ == items
                    &&& final(player).inventory.dragged_item == dragged
                    &&& final(player).is_ready == old(player).is_ready
                    &&& packet_views(final(player).packets@) == packet_views(old(player).packets@)
                        + wrap_slots(out) + if sync {
                        seq![ContainerPacketView::SyncInventory, cursor_packet(dragged)]
                    } else {
                        seq![]
                    }
                },
                OpenContainer::Menu(m) => {
                    &&& final(player).inventory == old(player).inventory
                    &&& if old(player).window_id != packet.window_id {
                        &&& final(player).is_ready == old(player).is_ready
                        &&& final(player).packets@ == old(player).packets@
                    } else {
                        let toggled = m.spec_clicked(packet.slot_id);
                        let ready = if toggled { !old(player).is_ready } else { old(player).is_ready };
                        &&& final(player).is_ready == ready
                        &&& packet_views(final(player).packets@) == packet_views(old(player).packets@)
                            + (if toggled { seq![ContainerPacketView::ToggleReady] } else { seq![] })
                            + spec_sync_packets(*old(self), old(player).window_id, old(player).inventory.dragged_item, ready)
                    }
                },
            },
    {
        let ghost before = player.packets@;
        match *self {
            OpenContainer::Closed => {
                proof {
                    lemma_push_views(player.packets@, ContainerPacket::SyncInventory);
                }
                player.packets.push(ContainerPacket::SyncInventory);
            },
            OpenContainer::Inventory => {
                let mut buffer: Vec<SetSlot> = Vec::new();
                let sync = player.inventory.handle_packet(packet, &mut buffer);
                let ghost out = buffer@;
                let mut i: usize = 0;
                while i < buffer.len()
                    invariant
                        i <= buffer.len(),
                        buffer@ == out,
                        player.window_id == old(player).window_id,
                        player.is_ready == old(player).is_ready,
                        player.inventory.wf(),
                        player.inventory.items@ == spec_handle_click(
                            old(player).inventory.items@,
                            old(player).inventory.dragged_item,
                            *packet,
                        ).0,
                        player.inventory.dragged_item == spec_handle_click(
                            old(player).inventory.items@,
                            old(player).inventory.dragged_item,
                            *packet,
                        ).1,
                        packet_views(player.packets@) == packet_views(before) + wrap_slots(
                            out.take(i as int),
                        ),
                    decreases buffer.len() - i,
                {
                    let p = ContainerPacket::SetSlot(buffer[i]);
                    proof {
                        lemma_push_views(player.packets@, p);
                        assert(wrap_slots(out.take(i + 1)) =~= wrap_slots(out.take(i as int)).push(
                            p@,
                        ));
                    }
                    player.packets.push(p);
                    i = i + 1;
                }
                assert(out.take(out.len() as int) == out);
                if sync {
                    proof {
                        lemma_push_views(player.packets@, ContainerPacket::SyncInventory);
                    }
                    player.packets.push(ContainerPacket::SyncInventory);
                    let p = ContainerPacket::SetSlot(
                        SetSlot { window_id: -1, slot: 0, item: player.inventory.dragged_item },
                    );
                    proof {
                        lemma_push_views(player.packets@, p);
                    }
                    player.packets.push(p);
                    assert(packet_views(player.packets@) =~= packet_views(before) + wrap_slots(out)
                        + seq![ContainerPacketView::SyncInventory, cursor_packet(player.inventory.dragged_item)]);
                } else {
                    assert(packet_views(player.packets@) =~= packet_views(before) + wrap_slots(out)
                        + seq![]);
                }
            },
            OpenContainer::Menu(menu) => {
                if player.window_id != packet.window_id {
                    return;
                }
                let mut menu = menu;
                let toggled = menu.click_window(packet.slot_id);
                if toggled {
                    proof {
                        lemma_push_views(player.packets@, ContainerPacket::ToggleReady);
                    }
                    player.packets.push(ContainerPacket::ToggleReady);
                    player.is_ready = !player.is_ready;
                }
                let ghost mid = player.packets@;
                let mut container = OpenContainer::Menu(menu);
                container.sync_container(player);
                assert(packet_views(player.packets@) =~= packet_views(before) + (if toggled {
                    seq![ContainerPacketView::ToggleReady]
                } else {
                    seq![]
                }) + spec_sync_packets(*old(self), player.window_id, old(player).inventory.dragged_item, player.is_ready));
            },
        }
    }
}

/// Mort's ready-up menu.
#[derive(Clone, Copy, Debug, PartialEq, Eq, Structural)]
pub struct MortMenu;

impl Menu for MortMenu {
    open spec fn spec_items(&self, is_ready: bool) -> Seq<Option<MenuItem>> {
        spec_mort_items(is_ready)
    }

    open spec fn spec_clicked(&self, slot_id: i16) -> bool {
        slot_id == 4 || slot_id == 13
    }

    fn container_name(&self) -> (r: String) {
        menu_title()
    }

    fn container_items(&self, is_ready: bool) -> (r: Vec<Option<MenuItem>>) {
        DungeonMenu::Mort.container_items(is_ready)
    }

    fn click_window(&mut self, slot_id: i16) -> (r: bool) {
        slot_id == 4 || slot_id == 13
    }
}

/// The ready-up menu as the dungeon shows it while updating it: background
/// everywhere, the player's head in slot 4, the ready indicator in slot 13 and
/// the close button in slot 49.
pub open spec fn spec_mort_menu_items(is_ready: bool) -> Seq<Option<MenuItem>> {
    spec_mort_items(is_ready).update(49, Some(MenuItem::Close))
}

/// Fills the ready-up menu for a player whose ready status is `is_ready`.
pub fn on_menu_update(is_ready: bool) -> (r: Vec<Option<MenuItem>>)
    ensures
        r@ == spec_mort_menu_items(is_ready),
{
    let mut items = filled_menu(54, MenuItem::Background);
    items.set(4, Some(MenuItem::PlayerHead));
    items.set(13, Some(MenuItem::ReadyIndicator { ready: is_ready }));
    items.set(49, Some(MenuItem::Close));
    items
}

/// What a click in the ready-up menu does.
#[derive(Clone, Copy, Debug, PartialEq, Eq, Structural)]
pub enum MortClick {
    /// The player's ready status toggles and the menu is filled again.
    ToggleReady,
    /// The menu closes.
    Close,
    Nothing,
}

/// A click on `slot` of the ready-up menu: the head or the indicator toggles
/// the player's ready status, the close button closes the menu.
pub fn on_click(slot: i16) -> (r: MortClick)
    ensures
        r == (if slot == 4 || slot == 13 {
            MortClick::ToggleReady
        } else if slot == 49 {
            MortClick::Close
        } else {
            MortClick::Nothing
        }),
{
    if slot == 4 || slot == 13 {
        MortClick::ToggleReady
    } else if slot == 49 {
        MortClick::Close
    } else {
        MortClick::Nothing
    }
}

} // verus!
