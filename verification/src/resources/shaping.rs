//! Walls and floor shapes: what each cell becomes once the rooms are carved.

use crate::components::tile::{FloorVariant, TileVariant};
use crate::resources::carving::{carved, room_area};
use crate::resources::grid::{
    all_floor, ceiling_at, cell, column_of, floor_at, floor_kept, in_grid, lemma_cell_index,
    lemma_same_cells, row_of, solid_at, CELLS, UNIT_HEIGHT,
};
use crate::resources::map::Room;
use crate::resources::paths::{connected_from, lemma_same_floor_connected};
use vstd::prelude::*;

verus! {

/// The cell `(x, y)` once the walls of column `x` were raised for the floor
/// cells below row `upto`.
///
/// Ceiling right above floor becomes a bare wall. The cell two further up
/// from such a wall becomes ceiling, whatever it was, so that every wall has
/// rock behind it; where both apply, the cell is wall.
pub open spec fn walled_cell_upto(g: Seq<TileVariant>, x: int, y: int, upto: int) -> TileVariant {
    if y - 1 < upto && floor_at(g, (x, y - 1)) && cell(g, x, y) is Ceiling {
        TileVariant::Wall(None)
    } else if y - 3 < upto && floor_at(g, (x, y - 3)) && ceiling_at(g, x, y - 2) {
        TileVariant::Ceiling
    } else {
        cell(g, x, y)
    }
}

/// The cell `(x, y)` once the walls were raised.
pub open spec fn walled_cell(g: Seq<TileVariant>, x: int, y: int) -> TileVariant {
    walled_cell_upto(g, x, y, UNIT_HEIGHT as int)
}

/// The grid once the walls were raised.
pub open spec fn walled(g: Seq<TileVariant>) -> Seq<TileVariant> {
    Seq::new(g.len(), |i: int| walled_cell(g, column_of(i), row_of(i)))
}

/// The shape of the floor cell `(x, y)`, which had the shape `current`.
///
/// The neighbours are looked at in a fixed order and the first that is
/// solid decides: the left one, then the right one, each together with the
/// one above and the one below; then the one above; then the one below;
/// then the four diagonal ones. A cell with no solid neighbour keeps its shape.
pub open spec fn shape(g: Seq<TileVariant>, x: int, y: int, current: FloorVariant) -> FloorVariant {
    if solid_at(g, x - 1, y) {
        if solid_at(g, x, y + 1) {
            FloorVariant::TLCorner
        } else if ceiling_at(g, x, y - 1) {
            FloorVariant::BLCorner
        } else {
            FloorVariant::LEdge
        }
    } else if solid_at(g, x + 1, y) {
        if solid_at(g, x, y + 1) {
            FloorVariant::TRCorner
        } else if solid_at(g, x, y - 1) {
            FloorVariant::BRCorner
        } else {
            FloorVariant::REdge
        }
    } else if solid_at(g, x, y + 1) {
        FloorVariant::TEdge
    } else if solid_at(g, x, y - 1) {
        FloorVariant::BEdge
    } else if solid_at(g, x - 1, y + 1) {
        FloorVariant::TLOCorner
    } else if solid_at(g, x + 1, y - 1) {
        FloorVariant::BROCorner
    } else if solid_at(g, x + 1, y + 1) {
        FloorVariant::TROCorner
    } else if solid_at(g, x - 1, y - 1) {
        FloorVariant::BLOCorner
    } else {
        current
    }
}

/// The cell `(x, y)` once the floor was shaped: floor takes its shape, everything else stays.
pub open spec fn detailed_cell(g: Seq<TileVariant>, x: int, y: int) -> TileVariant {
    match cell(g, x, y) {
        TileVariant::Floor(current) => TileVariant::Floor(shape(g, x, y, current)),
        other => other,
    }
}

/// The grid once the floor was shaped.
pub open spec fn detailed(g: Seq<TileVariant>) -> Seq<TileVariant> {
    Seq::new(g.len(), |i: int| detailed_cell(g, column_of(i), row_of(i)))
}

/// The cells of a grid once the floor was shaped.
pub proof fn lemma_detailed_cells(g: Seq<TileVariant>)
    requires
        g.len() == CELLS,
    ensures
        detailed(g).len() == CELLS,
        forall|x: int, y: int|
            in_grid(x, y) ==> #[trigger] cell(detailed(g), x, y) == detailed_cell(g, x, y),
{
    assert forall|x: int, y: int| in_grid(x, y) implies #[trigger] cell(detailed(g), x, y)
        == detailed_cell(g, x, y) by {
        lemma_cell_index(x, y);
    }
}

/// The cells of a grid once the walls were raised.
pub proof fn lemma_walled_cells(g: Seq<TileVariant>)
    requires
        g.len() == CELLS,
    ensures
        walled(g).len() == CELLS,
        forall|x: int, y: int| in_grid(x, y) ==> #[trigger] cell(walled(g), x, y) == walled_cell(g, x, y),
        floor_kept(walled(g), g),
{
    assert forall|x: int, y: int| in_grid(x, y) implies #[trigger] cell(walled(g), x, y)
        == walled_cell(g, x, y) by {
        lemma_cell_index(x, y);
    }
}

/// Shaping the floor is idempotent: shaping a grid whose floor was shaped changes no cell.
pub proof fn lemma_detail_idempotent(g: Seq<TileVariant>)
    requires
        g.len() == CELLS,
    ensures
        detailed(detailed(g)) == detailed(g),
{
    let d = detailed(g);
    lemma_detailed_cells(g);
    lemma_detailed_cells(d);
    // Shaping leaves every cell as solid as it was, so a second pass finds the same neighbours.
    assert forall|x: int, y: int| solid_at(d, x, y) == solid_at(g, x, y) && ceiling_at(d, x, y)
        == ceiling_at(g, x, y) by {}
    lemma_same_cells(detailed(d), d);
}

/// Raising the walls keeps a grid connected, provided that no floor cell is
/// lost to the rock that is put behind a wall.
pub proof fn lemma_walls_keep_connected(g: Seq<TileVariant>, origin: (int, int))
    requires
        g.len() == CELLS,
        connected_from(g, origin),
        floor_kept(g, walled(g)),
    ensures
        connected_from(walled(g), origin),
{
    lemma_walled_cells(g);
    lemma_same_floor_connected(g, walled(g), origin);
}

/// Shaping the floor keeps a grid connected: it turns floor into floor and leaves the rest.
pub proof fn lemma_detail_keeps_connected(g: Seq<TileVariant>, origin: (int, int))
    requires
        g.len() == CELLS,
        connected_from(g, origin),
    ensures
        connected_from(detailed(g), origin),
{
    lemma_detailed_cells(g);
    let d = detailed(g);
    assert forall|x: int, y: int| floor_at(g, (x, y)) == floor_at(d, (x, y)) by {}
    lemma_same_floor_connected(g, d, origin);
}

/// The grid that the builder leaves: the rooms carved, the walls raised, the floor shaped.
pub open spec fn finished(g: Seq<TileVariant>, rooms: Seq<Room>, flips: Seq<bool>) -> Seq<TileVariant> {
    detailed(walled(carved(g, rooms, flips)))
}

/// In the finished grid every floor cell can be reached from `origin` over
/// floor, if that was so when the rooms had been carved and no floor cell
/// was lost to the rock that is put behind a wall.
pub proof fn lemma_finished_connected(g: Seq<TileVariant>, origin: (int, int))
    requires
        g.len() == CELLS,
        connected_from(g, origin),
        floor_kept(g, walled(g)),
    ensures
        connected_from(detailed(walled(g)), origin),
{
    lemma_walls_keep_connected(g, origin);
    lemma_walled_cells(g);
    lemma_detail_keeps_connected(walled(g), origin);
}

/// The centre of a room is floor in the finished grid: the rock put behind
/// a wall reaches at most two rows into a room from below.
pub proof fn lemma_room_center_stays(g: Seq<TileVariant>, room: Room)
    requires
        g.len() == CELLS,
        room.wf(),
        all_floor(g, room_area(room)),
    ensures
        floor_at(detailed(walled(g)), room.center_spec()),
{
    let c = room.center_spec();
    lemma_walled_cells(g);
    lemma_detailed_cells(walled(g));
    assert(room_area(room).holds(c.0, c.1));
    assert(room_area(room).holds(c.0, c.1 - 2));
}

} // verus!
