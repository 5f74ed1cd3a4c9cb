use vstd::prelude::*;

use crate::geometry::BlockPos;

verus! {

/// World `x` of the north-west corner of the dungeon's 6x6 room grid.
pub const DUNGEON_ORIGIN_X: i32 = -200;

/// World `z` of the north-west corner of the dungeon's 6x6 room grid.
pub const DUNGEON_ORIGIN_Z: i32 = -200;

/// Number of cells of the room grid.
pub const GRID_CELLS: usize = 36;

/// Grid index (`x + 6 z`) of the cell that contains a world column, for
/// columns east and south of the origin; the index is not checked against
/// the grid's size.
pub open spec fn spec_grid_position(x: i32, z: i32) -> Option<int> {
    if x < DUNGEON_ORIGIN_X || z < DUNGEON_ORIGIN_Z {
        None
    } else {
        Some((x - DUNGEON_ORIGIN_X) / 32 + ((z - DUNGEON_ORIGIN_Z) / 32) * 6)
    }
}

/// Grid index of the cell that holds the world column `(x, z)`.
pub fn grid_position(x: i32, z: i32) -> (r: Option<usize>)
    ensures
        match spec_grid_position(x, z) {
            Some(i) => r == Some(i as usize),
            None => r is None,
        },
{
    if x < DUNGEON_ORIGIN_X || z < DUNGEON_ORIGIN_Z {
        return None;
    }
    let gx: u32 = ((x as i64 - DUNGEON_ORIGIN_X as i64) / 32) as u32;
    let gz: u32 = ((z as i64 - DUNGEON_ORIGIN_Z as i64) / 32) as u32;
    Some(gx as usize + (gz as usize) * 6)
}

/// Which room (by entity id) covers each cell of the 6x6 grid.
#[derive(Clone, Debug)]
pub struct RoomGridLookup {
    pub cells: Vec<Option<u64>>,
}

/// Index of a grid position; columns past the sixth run into the next row.
pub open spec fn spec_cell_index(gx: usize, gz: usize) -> int {
    gx + gz * 6
}

impl RoomGridLookup {
    pub open spec fn wf(&self) -> bool {
        self.cells@.len() == GRID_CELLS
    }

    pub open spec fn spec_get(&self, gx: usize, gz: usize) -> Option<u64> {
        let i = spec_cell_index(gx, gz);
        if i >= GRID_CELLS { None } else { self.cells@[i] }
    }

    /// An empty grid.
    pub fn new() -> (r: RoomGridLookup)
        ensures
            r.wf(),
            forall|i: int| 0 <= i < GRID_CELLS ==> r.cells@[i] is None,
    {
        let mut cells: Vec<Option<u64>> = Vec::new();
        let mut i: usize = 0;
        while i < GRID_CELLS
            invariant
                i <= GRID_CELLS,
                cells@.len() == i,
                forall|k: int| 0 <= k < i ==> cells@[k] is None,
            decreases GRID_CELLS - i,
        {
            cells.push(None);
            i = i + 1;
        }
        RoomGridLookup { cells }
    }

    /// The room covering grid position `(gx, gz)`, if the index is inside the grid.
    pub fn get(&self, gx: usize, gz: usize) -> (r: Option<u64>)
        requires
            self.wf(),
            gx + gz * 6 <= usize::MAX,
        ensures
            r == self.spec_get(gx, gz),
    {
        let index = gx + gz * 6;
        if index >= GRID_CELLS {
            return None;
        }
        self.cells[index]
    }

    /// Records that `entity` covers grid position `(gx, gz)`; positions whose
    /// index falls outside the grid are ignored.
    pub fn set(&mut self, gx: usize, gz: usize, entity: u64)
        requires
            old(self).wf(),
            gx + gz * 6 <= usize::MAX,
        ensures
            final(self).wf(),
            spec_cell_index(gx, gz) < GRID_CELLS ==> final(self).cells@ == old(self).cells@.update(
                spec_cell_index(gx, gz),
                Some(entity),
            ),
            spec_cell_index(gx, gz) >= GRID_CELLS ==> final(self).cells@ == old(self).cells@,
    {
        let index = gx + gz * 6;
        if index >= GRID_CELLS {
            return;
        }
        self.cells.set(index, Some(entity));
    }

    /// The room covering the block column of a world position.
    pub fn get_from_world(&self, position: BlockPos) -> (r: Option<u64>)
        requires
            self.wf(),
        ensures
            position.x < DUNGEON_ORIGIN_X || position.z < DUNGEON_ORIGIN_Z ==> r is None,
            position.x >= DUNGEON_ORIGIN_X && position.z >= DUNGEON_ORIGIN_Z ==> r == self.spec_get(
                ((position.x - DUNGEON_ORIGIN_X) / 32) as usize,
                ((position.z - DUNGEON_ORIGIN_Z) / 32) as usize,
            ),
    {
        if position.x < DUNGEON_ORIGIN_X || position.z < DUNGEON_ORIGIN_Z {
            return None;
        }
        let gx: usize = ((position.x as i64 - DUNGEON_ORIGIN_X as i64) / 32) as usize;
        let gz: usize = ((position.z as i64 - DUNGEON_ORIGIN_Z as i64) / 32) as usize;
        self.get(gx, gz)
    }
}

/// Setting a cell and reading it back gives the room that was set, and leaves
/// every other cell as it was.
pub proof fn lemma_set_then_get(
    before: RoomGridLookup,
    after: RoomGridLookup,
    gx: usize,
    gz: usize,
    entity: u64,
    ox: usize,
    oz: usize,
)
    requires
        before.wf(),
        spec_cell_index(gx, gz) < GRID_CELLS,
        after.cells@ == before.cells@.update(spec_cell_index(gx, gz), Some(entity)),
    ensures
        after.wf(),
        after.spec_get(gx, gz) == Some(entity),
        spec_cell_index(ox, oz) != spec_cell_index(gx, gz) ==> after.spec_get(ox, oz)
            == before.spec_get(ox, oz),
{
}

} // verus!
