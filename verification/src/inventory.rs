use vstd::multiset::Multiset;
use vstd::prelude::*;

use crate::items::{spec_can_move, DungeonItems};

verus! {

/// Number of slots of a player inventory window (crafting, armour, storage, hotbar).
pub const INVENTORY_SLOTS: usize = 45;

/// How the client clicked in an inventory window.
#[derive(Clone, Copy, Debug, PartialEq, Eq, Structural)]
pub enum ClickMode {
    NormalClick,
    ShiftClick,
    NumberKey,
    MiddleClick,
    Drop,
    Drag,
    DoubleClick,
}

/// The item stack that the client says was in the clicked slot.
#[derive(Clone, Copy, Debug, PartialEq, Eq, Structural)]
pub enum ClickedStack {
    Empty,
    Item(DungeonItems),
    /// A stack that is not one of the dungeon's items.
    Unrecognised,
}

/// A click in an open window, as sent by the client.
#[derive(Clone, Copy, Debug, PartialEq, Eq, Structural)]
pub struct ClickWindow {
    pub window_id: i8,
    pub slot_id: i16,
    pub used_button: i8,
    pub mode: ClickMode,
    pub clicked_item: ClickedStack,
}

/// A packet that sets one slot of a window on the client (`window_id` -1,
/// slot 0 is the item held on the cursor).
#[derive(Clone, Copy, Debug, PartialEq, Eq, Structural)]
pub struct SetSlot {
    pub window_id: i8,
    pub slot: i16,
    pub item: Option<DungeonItems>,
}

/// A player's inventory: 45 slots and the item held on the cursor.
#[derive(Clone, Debug)]
pub struct Inventory {
    pub items: Vec<Option<DungeonItems>>,
    pub dragged_item: Option<DungeonItems>,
}

/// What the client's stack says agrees with the item in the slot.
pub open spec fn stack_matches(item: Option<DungeonItems>, clicked: ClickedStack) -> bool {
    match (item, clicked) {
        (None, ClickedStack::Empty) => true,
        (Some(a), ClickedStack::Item(b)) => a == b,
        _ => false,
    }
}

/// Slots that clicks may act on: storage and hotbar.
pub open spec fn spec_is_valid_range(index: int) -> bool {
    9 <= index <= 44
}

pub open spec fn fixed_item(item: Option<DungeonItems>) -> bool {
    match item {
        Some(i) => !spec_can_move(i),
        None => false,
    }
}

/// Slot index that a click names; negative slot numbers name no slot (they
/// become indices far past the inventory), written here as -1.
pub open spec fn slot_index(slot_id: i16) -> int {
    if slot_id < 0 { -1 } else { slot_id as int }
}

/// Hotbar button of a number-key click; negative buttons are out of range,
/// written here as a large value.
pub open spec fn button_index(button: i8) -> int {
    if button < 0 { 256 } else { button as int }
}

/// The first empty slot in `[from, to)`, or -1.
pub open spec fn first_empty(items: Seq<Option<DungeonItems>>, from: int, to: int) -> int
    decreases to - from,
{
    if from >= to {
        -1
    } else if items[from] is None {
        from
    } else {
        first_empty(items, from + 1, to)
    }
}

/// Inventory after a click, with the packets sent and whether the whole
/// inventory must be sent again: `(items, cursor, packets, resync)`.
pub open spec fn spec_handle_click(
    items: Seq<Option<DungeonItems>>,
    dragged: Option<DungeonItems>,
    p: ClickWindow,
) -> (Seq<Option<DungeonItems>>, Option<DungeonItems>, Seq<SetSlot>, bool) {
    let slot = slot_index(p.slot_id);
    match p.mode {
        ClickMode::NormalClick => {
            if p.slot_id < 0 {
                (items, dragged, seq![SetSlot { window_id: -1i8, slot: 0i16, item: dragged }], false)
            } else if !spec_is_valid_range(slot) {
                (items, dragged, seq![], false)
            } else if fixed_item(items[slot]) {
                (items, dragged, seq![], true)
            } else {
                (items.update(slot, dragged), items[slot], seq![], !stack_matches(items[slot], p.clicked_item))
            }
        },
        ClickMode::ShiftClick => {
            if !spec_is_valid_range(slot) {
                (items, dragged, seq![], false)
            } else if fixed_item(items[slot]) {
                (items, dragged, seq![], true)
            } else {
                let item = items[slot];
                let taken = items.update(slot, None);
                let (from, to) = if slot >= 36 { (9int, 36int) } else { (36int, 45int) };
                let target = first_empty(taken, from, to);
                let placed = if target >= 0 { taken.update(target, item) } else { taken };
                (placed, dragged, seq![], !stack_matches(item, p.clicked_item))
            }
        },
        ClickMode::NumberKey => {
            let button = button_index(p.used_button);
            if !(spec_is_valid_range(slot) && button <= 9) {
                (items, dragged, seq![], false)
            } else if fixed_item(items[slot]) {
                (items, dragged, seq![], true)
            } else {
                let to_slot = 36 + button;
                if to_slot == slot {
                    (
                        items,
                        dragged,
                        seq![SetSlot { window_id: 0i8, slot: slot as i16, item: items[slot] }],
                        false,
                    )
                } else {
                    (items.update(to_slot, items[slot]).update(slot, items[to_slot]), dragged, seq![], false)
                }
            }
        },
        ClickMode::Drop => (items, dragged, seq![], true),
        _ => (items, dragged, seq![], false),
    }
}

/// A number-key click on a movable slot with button 9 names slot 45, past the end.
pub open spec fn click_overruns(items: Seq<Option<DungeonItems>>, p: ClickWindow) -> bool {
    p.mode == ClickMode::NumberKey && spec_is_valid_range(slot_index(p.slot_id)) && p.used_button
        == 9 && !fixed_item(items[slot_index(p.slot_id)])
}

pub fn is_valid_range(index: usize) -> (r: bool)
    ensures
        r == spec_is_valid_range(index as int),
{
    index >= 9 && index <= 44
}

fn matches_stack(item: Option<DungeonItems>, clicked: ClickedStack) -> (r: bool)
    ensures
        r == stack_matches(item, clicked),
{
    match (item, clicked) {
        (None, ClickedStack::Empty) => true,
        (Some(a), ClickedStack::Item(b)) => a == b,
        _ => false,
    }
}

fn is_fixed(item: Option<DungeonItems>) -> (r: bool)
    ensures
        r == fixed_item(item),
{
    match item {
        Some(i) => !i.can_move_in_inventory(),
        None => false,
    }
}

fn slot_as_index(slot_id: i16) -> (r: usize)
    ensures
        slot_id >= 0 ==> r as int == slot_index(slot_id),
        slot_id < 0 ==> !spec_is_valid_range(r as int),
{
    if slot_id < 0 {
        usize::MAX
    } else {
        slot_id as usize
    }
}

fn button_as_index(button: i8) -> (r: usize)
    ensures
        button >= 0 ==> r as int == button_index(button),
        button < 0 ==> r > 9,
{
    if button < 0 {
        usize::MAX
    } else {
        button as usize
    }
}

/// The first empty slot in `[from, to)`.
fn find_first_empty(items: &Vec<Option<DungeonItems>>, from: usize, to: usize) -> (r: Option<usize>)
    requires
        from <= to <= items.len(),
    ensures
        match r {
            Some(i) => i as int == first_empty(items@, from as int, to as int) && from <= i < to,
            None => first_empty(items@, from as int, to as int) == -1,
        },
{
    let mut index = from;
    while index < to
        invariant
            from <= index <= to <= items.len(),
            first_empty(items@, from as int, to as int) == first_empty(
                items@,
                index as int,
                to as int,
            ),
        decreases to - index,
    {
        if items[index].is_none() {
            return Some(index);
        }
        index = index + 1;
    }
    None
}

impl Inventory {
    pub open spec fn wf(&self) -> bool {
        self.items@.len() == INVENTORY_SLOTS
    }

    /// An empty inventory.
    pub fn new() -> (r: Inventory)
        ensures
            r.wf(),
            forall|i: int| 0 <= i < INVENTORY_SLOTS ==> r.items@[i] is None,
            r.dragged_item is None,
    {
        let mut items: Vec<Option<DungeonItems>> = Vec::new();
        let mut i: usize = 0;
        while i < INVENTORY_SLOTS
            invariant
                i <= INVENTORY_SLOTS,
                items@.len() == i,
                forall|k: int| 0 <= k < i ==> items@[k] is None,
            decreases INVENTORY_SLOTS - i,
        {
            items.push(None);
            i = i + 1;
        }
        Inventory { items, dragged_item: None }
    }

    /// Puts `item` into slot `index`; indices past the last slot are ignored.
    pub fn set_slot(&mut self, index: usize, item: Option<DungeonItems>)
        requires
            old(self).wf(),
        ensures
            final(self).wf(),
            index < INVENTORY_SLOTS ==> final(self).items@ == old(self).items@.update(index as int, item),
            index >= INVENTORY_SLOTS ==> final(self).items@ == old(self).items@,
            final(self).dragged_item == old(self).dragged_item,
    {
        if index >= INVENTORY_SLOTS {
            return;
        }
        self.items.set(index, item);
    }

    /// The items that a joining player is given: the aspect of the void in
    /// hotbar slot 1, the pickaxe in hotbar slot 3 and the skyblock menu in
    /// hotbar slot 8.
    pub fn add_items(&mut self)
        requires
            old(self).wf(),
        ensures
            final(self).wf(),
            final(self).items@ == old(self).items@.update(37, Some(DungeonItems::AspectOfTheVoid)).update(
                39,
                Some(DungeonItems::Pickaxe),
            ).update(44, Some(DungeonItems::SkyblockMenu)),
            final(self).dragged_item == old(self).dragged_item,
    {
        self.set_slot(37, Some(DungeonItems::AspectOfTheVoid));
        self.set_slot(39, Some(DungeonItems::Pickaxe));
        self.set_slot(44, Some(DungeonItems::SkyblockMenu));
    }

    /// When the run starts, the last hotbar slot holds the magical map.
    pub fn give_map(&mut self)
        requires
            old(self).wf(),
        ensures
            final(self).wf(),
            final(self).items@ == old(self).items@.update(44, Some(DungeonItems::MagicalMap)),
            final(self).dragged_item == old(self).dragged_item,
    {
        self.set_slot(44, Some(DungeonItems::MagicalMap));
    }

    /// The item in hotbar slot `index` (0 to 8), or nothing for other indices.
    pub fn get_hotbar_slot(&self, index: usize) -> (r: Option<DungeonItems>)
        requires
            self.wf(),
            index + 36 <= usize::MAX,
        ensures
            index <= 8 ==> r == self.items@[index + 36],
            index > 8 ==> r is None,
    {
        let index = index + 36;
        if index >= 36 && index <= 44 {
            return self.items[index];
        }
        None
    }

    /// Applies a click of the player's own inventory window: moves items
    /// between slots and the cursor, writes the packets that the client needs
    /// into `packet_buffer`, and returns whether the whole inventory must be
    /// sent again because the client's view is wrong.
    pub fn handle_packet(&mut self, packet: &ClickWindow, packet_buffer: &mut Vec<SetSlot>) -> (r:
        bool)
        requires
            old(self).wf(),
            !click_overruns(old(self).items@, *packet),
        ensures
            final(self).wf(),
            ({
                let (items, dragged, out, sync) = spec_handle_click(
                    old(self).items@,
                    old(self).dragged_item,
                    *packet,
                );
                &&& final(self).items@ == items
                &&& final(self).dragged_item == dragged
                &&& final(packet_buffer)@ == old(packet_buffer)@ + out
                &&& r == sync
            }),
    {
        let ghost items0 = self.items@;
        let mut requires_sync = false;
        match packet.mode {
            ClickMode::NormalClick => {
                if packet.slot_id < 0 {
                    packet_buffer.push(SetSlot { window_id: -1, slot: 0, item: self.dragged_item });
                } else {
                    let slot = slot_as_index(packet.slot_id);
                    if is_valid_range(slot) {
                        let item = self.items[slot];
                        if is_fixed(item) {
                            return true;
                        }
                        if !matches_stack(item, packet.clicked_item) {
                            requires_sync = true;
                        }
                        let dragged = self.dragged_item;
                        self.items.set(slot, dragged);
                        self.dragged_item = item;
                    }
                }
            },
            ClickMode::ShiftClick => {
                let slot = slot_as_index(packet.slot_id);
                if is_valid_range(slot) {
                    let item = self.items[slot];
                    if is_fixed(item) {
                        return true;
                    }
                    self.items.set(slot, None);
                    if !matches_stack(item, packet.clicked_item) {
                        requires_sync = true;
                    }
                    let (from, to): (usize, usize) = if slot >= 36 { (9, 36) } else { (36, 45) };
                    match find_first_empty(&self.items, from, to) {
                        Some(index) => {
                            self.items.set(index, item);
                        },
                        None => {},
                    }
                }
            },
            ClickMode::NumberKey => {
                let slot = slot_as_index(packet.slot_id);
                let button = button_as_index(packet.used_button);
                if is_valid_range(slot) && button <= 9 {
                    let to_slot = 36 + button;
                    let item = self.items[slot];
                    if is_fixed(item) {
                        return true;
                    }
                    if to_slot == slot {
                        packet_buffer.push(SetSlot { window_id: 0, slot: slot as i16, item });
                    } else {
                        let item_to = self.items[to_slot];
                        self.items.set(to_slot, item);
                        self.items.set(slot, item_to);
                    }
                }
            },
            ClickMode::Drop => {
                requires_sync = true;
            },
            _ => {},
        }
        requires_sync
    }
}


/// Everything the player holds: the slots and the cursor.
pub open spec fn held_items(items: Seq<Option<DungeonItems>>, dragged: Option<DungeonItems>) -> Multiset<
    Option<DungeonItems>,
> {
    items.push(dragged).to_multiset()
}

/// Pressing the same number key twice on a slot puts both items back, unless
/// the hotbar item is fixed in place.
pub proof fn lemma_number_key_twice_restores(
    items: Seq<Option<DungeonItems>>,
    dragged: Option<DungeonItems>,
    p: ClickWindow,
)
    requires
        items.len() == INVENTORY_SLOTS,
        p.mode == ClickMode::NumberKey,
        !click_overruns(items, p),
        0 <= button_index(p.used_button) <= 8,
        !fixed_item(items[36 + button_index(p.used_button)]),
    ensures
        ({
            let once = spec_handle_click(items, dragged, p);
            let twice = spec_handle_click(once.0, once.1, p);
            twice.0 == items && twice.1 == dragged
        }),
{
    let once = spec_handle_click(items, dragged, p);
    let slot = slot_index(p.slot_id);
    let to = 36 + button_index(p.used_button);
    if spec_is_valid_range(slot) && !fixed_item(items[slot]) && to != slot {
        assert(once.0[slot] == items[to]);
        assert(once.0[to] == items[slot]);
        assert(once.0.update(to, once.0[slot]).update(slot, once.0[to]) =~= items);
    }
}

/// Clicking the same slot twice with a normal click puts the item and the
/// cursor back, as long as neither is fixed in place.
pub proof fn lemma_normal_click_twice_restores(
    items: Seq<Option<DungeonItems>>,
    dragged: Option<DungeonItems>,
    p: ClickWindow,
)
    requires
        items.len() == INVENTORY_SLOTS,
        p.mode == ClickMode::NormalClick,
        p.slot_id >= 0,
        !fixed_item(dragged),
    ensures
        ({
            let once = spec_handle_click(items, dragged, p);
            let twice = spec_handle_click(once.0, once.1, p);
            twice.0 == items && twice.1 == dragged
        }),
{
    let once = spec_handle_click(items, dragged, p);
    let slot = slot_index(p.slot_id);
    if spec_is_valid_range(slot) && !fixed_item(items[slot]) {
        assert(once.0.update(slot, once.1) =~= items);
    }
}

/// Normal and number-key clicks only move items around: what the player holds,
/// counted over the slots and the cursor, stays the same.
pub proof fn lemma_click_keeps_items(
    items: Seq<Option<DungeonItems>>,
    dragged: Option<DungeonItems>,
    p: ClickWindow,
)
    requires
        items.len() == INVENTORY_SLOTS,
        p.mode == ClickMode::NormalClick || p.mode == ClickMode::NumberKey,
        !click_overruns(items, p),
    ensures
        ({
            let after = spec_handle_click(items, dragged, p);
            held_items(after.0, after.1) == held_items(items, dragged)
        }),
{
    broadcast use vstd::seq_lib::group_to_multiset_ensures;
    broadcast use vstd::multiset::group_multiset_axioms;
    let after = spec_handle_click(items, dragged, p);
    let slot = slot_index(p.slot_id);
    let all = items.push(dragged);
    if p.mode == ClickMode::NormalClick {
        if p.slot_id >= 0 && spec_is_valid_range(slot) && !fixed_item(items[slot]) {
            let a = items[slot];
            assert(after.0.push(after.1) =~= all.update(slot, dragged).update(45, a));
            assert(all.update(slot, dragged).to_multiset() == all.to_multiset().insert(dragged).remove(a));
            assert(all.update(slot, dragged)[45] == dragged);
            assert(all.update(slot, dragged).update(45, a).to_multiset() == all.update(slot, dragged).to_multiset().insert(a).remove(dragged));
            assert(held_items(after.0, after.1) =~= held_items(items, dragged));
        }
    } else {
        let button = button_index(p.used_button);
        let to = 36 + button;
        if spec_is_valid_range(slot) && button <= 9 && !fixed_item(items[slot]) && to != slot {
            let a = items[slot];
            let b = items[to];
            assert(to < 45);
            assert(after.0.push(after.1) =~= all.update(to, a).update(slot, b));
            assert(all.update(to, a).to_multiset() == all.to_multiset().insert(a).remove(b));
            assert(all.update(to, a)[slot] == a);
            assert(all.update(to, a).update(slot, b).to_multiset() == all.update(to, a).to_multiset().insert(b).remove(a));
            assert(held_items(after.0, after.1) =~= held_items(items, dragged));
        }
    }
}

} // verus!
