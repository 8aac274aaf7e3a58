//! Walks over floor: what it means that one cell can be reached from
//! another, and why laying floor next to floor keeps everything in reach.

use crate::components::tile::TileVariant;
use crate::resources::grid::{
    all_floor, cell, floor_at, floor_kept, lemma_stamped_cells, stamped, Area, CELLS,
};
use vstd::prelude::*;

verus! {

/// Whether two cells share a side.
pub open spec fn adjacent(a: (int, int), b: (int, int)) -> bool {
    ||| (a.0 == b.0 && (a.1 == b.1 + 1 || b.1 == a.1 + 1))
    ||| (a.1 == b.1 && (a.0 == b.0 + 1 || b.0 == a.0 + 1))
}

/// Whether `path` is a walk over floor: each of its cells is floor, and each shares a side with the next.
pub open spec fn is_path(g: Seq<TileVariant>, path: Seq<(int, int)>) -> bool {
    &&& path.len() > 0
    &&& forall|k: int| 0 <= k < path.len() ==> floor_at(g, #[trigger] path[k])
    &&& forall|k: int| 0 <= k < path.len() - 1 ==> adjacent(#[trigger] path[k], path[k + 1])
}

/// Whether one can walk from `a` to `b` over floor.
pub open spec fn joined(g: Seq<TileVariant>, a: (int, int), b: (int, int)) -> bool {
    exists|path: Seq<(int, int)>| is_path(g, path) && path[0] == a && path.last() == b
}

/// Whether every floor cell of the grid can be reached from `origin` over floor.
pub open spec fn connected_from(g: Seq<TileVariant>, origin: (int, int)) -> bool {
    forall|x: int, y: int| floor_at(g, (x, y)) ==> joined(g, origin, (x, y))
}

/// A walk from `a` to `b` followed by one from `b` to `c` is a walk from `a` to `c`.
pub proof fn lemma_joined_trans(g: Seq<TileVariant>, a: (int, int), b: (int, int), c: (int, int))
    requires
        joined(g, a, b),
        joined(g, b, c),
    ensures
        joined(g, a, c),
{
    let p = choose|path: Seq<(int, int)>| is_path(g, path) && path[0] == a && path.last() == b;
    let q = choose|path: Seq<(int, int)>| is_path(g, path) && path[0] == b && path.last() == c;
    let r = p + q.subrange(1, q.len() as int);
    assert(is_path(g, r) && r[0] == a && r.last() == c);
}

/// A walk stays a walk when floor is added to the grid.
pub proof fn lemma_joined_mono(g: Seq<TileVariant>, h: Seq<TileVariant>, a: (int, int), b: (int, int))
    requires
        joined(g, a, b),
        floor_kept(g, h),
    ensures
        joined(h, a, b),
{
    let p = choose|path: Seq<(int, int)>| is_path(g, path) && path[0] == a && path.last() == b;
    assert(is_path(h, p));
}

/// Two grids with floor in the same cells are connected alike.
pub proof fn lemma_same_floor_connected(g: Seq<TileVariant>, h: Seq<TileVariant>, origin: (int, int))
    requires
        connected_from(g, origin),
        floor_kept(g, h),
        floor_kept(h, g),
    ensures
        connected_from(h, origin),
{
    assert forall|x: int, y: int| floor_at(h, (x, y)) implies joined(h, origin, (x, y)) by {
        lemma_joined_mono(g, h, origin, (x, y));
    }
}

/// Within an area that is all floor, one can walk from any cell to any other.
pub proof fn lemma_area_joined(g: Seq<TileVariant>, area: Area, a: (int, int), b: (int, int))
    requires
        all_floor(g, area),
        area.holds(a.0, a.1),
        area.holds(b.0, b.1),
    ensures
        joined(g, a, b),
    decreases crate::units::abs(a.0 - b.0) + crate::units::abs(a.1 - b.1),
{
    if a == b {
        let p = seq![a];
        assert(is_path(g, p) && p[0] == a && p.last() == b);
    } else {
        let next: (int, int) = if a.0 < b.0 {
            (a.0 + 1, a.1)
        } else if a.0 > b.0 {
            (a.0 - 1, a.1)
        } else if a.1 < b.1 {
            (a.0, a.1 + 1)
        } else {
            (a.0, a.1 - 1)
        };
        lemma_area_joined(g, area, next, b);
        let p = seq![a, next];
        assert(is_path(g, p) && p[0] == a && p.last() == next);
        lemma_joined_trans(g, a, next, b);
    }
}

/// Floor laid over an area that touches the floor already there leaves the
/// grid connected: if every floor cell could be reached from `origin`, and
/// the area holds a cell `anchor` that was floor (or holds `origin`
/// itself), every floor cell can still be reached from `origin`.
pub proof fn lemma_stamp_connected(g: Seq<TileVariant>, area: Area, origin: (int, int), anchor: (int, int))
    requires
        g.len() == CELLS,
        area.in_grid(),
        connected_from(g, origin),
        area.holds(anchor.0, anchor.1),
        floor_at(g, anchor) || area.holds(origin.0, origin.1),
    ensures
        connected_from(stamped(g, area), origin),
{
    let h = stamped(g, area);
    lemma_stamped_cells(g, area);
    if floor_at(g, anchor) {
        lemma_joined_mono(g, h, origin, anchor);
    } else {
        lemma_area_joined(h, area, origin, anchor);
    }
    assert forall|x: int, y: int| floor_at(h, (x, y)) implies joined(h, origin, (x, y)) by {
        if area.holds(x, y) {
            lemma_area_joined(h, area, anchor, (x, y));
            lemma_joined_trans(h, origin, anchor, (x, y));
        } else {
            assert(floor_at(g, (x, y)));
            lemma_joined_mono(g, h, origin, (x, y));
        }
    }
}

} // verus!
