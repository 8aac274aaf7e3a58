//! Carving: the floor of rooms and of the tunnels between them.

use crate::components::tile::{FloorVariant, TileVariant};
use crate::resources::grid::{
    all_floor, cell, column_of, floor_at, in_grid, lemma_cell_index, lemma_same_cells,
    lemma_stamped_cells, lemma_stamps_commute, no_floor, row_of, stamped, Area, Grid, CELLS,
};
use crate::resources::map::{Room, MAX_ROOM_X, MAX_ROOM_Y, MIN_ROOM_X, MIN_ROOM_Y};
use crate::resources::paths::{connected_from, joined, lemma_stamp_connected};
use vstd::prelude::*;

verus! {

/// The cells of a room.
pub open spec fn room_area(room: Room) -> Area {
    Area {
        left: room.dimensions.x as int,
        right: room.dimensions.x + room.dimensions.width,
        bottom: room.dimensions.y as int,
        top: room.dimensions.y + room.dimensions.height,
    }
}

/// The smaller of two integers.
pub open spec fn min(a: int, b: int) -> int {
    if a <= b {
        a
    } else {
        b
    }
}

/// The larger of two integers.
pub open spec fn max(a: int, b: int) -> int {
    if a >= b {
        a
    } else {
        b
    }
}

/// The cells of a tunnel along row `y` between the columns `x1` and `x2`: three rows wide.
pub open spec fn h_tunnel_area(x1: int, x2: int, y: int) -> Area {
    Area { left: min(x1, x2), right: max(x1, x2), bottom: y - 1, top: y + 1 }
}

/// The cells of a tunnel along column `x` between the rows `y1` and `y2`: three columns wide.
pub open spec fn v_tunnel_area(y1: int, y2: int, x: int) -> Area {
    Area { left: x - 1, right: x + 1, bottom: min(y1, y2), top: max(y1, y2) }
}

/// Lays the floor of a room.
pub fn initialize_room(map: &mut Grid, room: &Room)
    requires
        old(map).wf(),
        room_area(*room).in_grid(),
    ensures
        final(map)@ == stamped(old(map)@, room_area(*room)),
        final(map).wf(),
{
    let rect = &room.dimensions;
    let max_y = rect.y + rect.height;
    let max_x = rect.x + rect.width;
    let ghost area = room_area(*room);
    // Init floor
    let mut y = rect.y;
    while y <= max_y
        invariant
            map.wf(),
            area == room_area(*room),
            area.in_grid(),
            max_y == area.top,
            max_x == area.right,
            rect.x == area.left,
            area.bottom <= y <= max_y + 1,
            forall|cx: int, cy: int|
                in_grid(cx, cy) ==> #[trigger] cell(map@, cx, cy) == (if area.holds(cx, cy) && cy
                    < y {
                    TileVariant::Floor(FloorVariant::Empty)
                } else {
                    cell(old(map)@, cx, cy)
                }),
        decreases max_y + 1 - y,
    {
        let mut x = rect.x;
        while x <= max_x
            invariant
                map.wf(),
                area.in_grid(),
                max_y == area.top,
                max_x == area.right,
                rect.x == area.left,
                area.bottom <= y <= max_y,
                area.left <= x <= max_x + 1,
                forall|cx: int, cy: int|
                    in_grid(cx, cy) ==> #[trigger] cell(map@, cx, cy) == (if area.holds(cx, cy)
                        && (cy < y || (cy == y && cx < x)) {
                        TileVariant::Floor(FloorVariant::Empty)
                    } else {
                        cell(old(map)@, cx, cy)
                    }),
            decreases max_x + 1 - x,
        {
            map.set(x, y, TileVariant::Floor(FloorVariant::default()));
            x += 1;
        }
        y += 1;
    }
    proof {
        lemma_stamped_cells(old(map)@, area);
        lemma_same_cells(map@, stamped(old(map)@, area));
    }
}

/// Digs a tunnel along row `y` from column `x1` to column `x2`, three rows wide.
pub fn create_h_tunnel(x1: usize, x2: usize, y: usize, map: &mut Grid)
    requires
        old(map).wf(),
        h_tunnel_area(x1 as int, x2 as int, y as int).in_grid(),
    ensures
        final(map)@ == stamped(old(map)@, h_tunnel_area(x1 as int, x2 as int, y as int)),
        final(map).wf(),
{
    let first = if x1 <= x2 {
        x1
    } else {
        x2
    };
    let last = if x1 <= x2 {
        x2
    } else {
        x1
    };
    let ghost area = h_tunnel_area(x1 as int, x2 as int, y as int);
    let mut x = first;
    while x < last + 1
        invariant
            map.wf(),
            area == h_tunnel_area(x1 as int, x2 as int, y as int),
            area.in_grid(),
            first == area.left,
            last == area.right,
            first <= x <= last + 1,
            forall|cx: int, cy: int|
                in_grid(cx, cy) ==> #[trigger] cell(map@, cx, cy) == (if area.holds(cx, cy) && cx
                    < x {
                    TileVariant::Floor(FloorVariant::Empty)
                } else {
                    cell(old(map)@, cx, cy)
                }),
        decreases last + 1 - x,
    {
        map.set(x, y + 1, TileVariant::Floor(FloorVariant::default()));
        map.set(x, y, TileVariant::Floor(FloorVariant::default()));
        map.set(x, y - 1, TileVariant::Floor(FloorVariant::default()));
        x += 1;
    }
    proof {
        lemma_stamped_cells(old(map)@, area);
        lemma_same_cells(map@, stamped(old(map)@, area));
    }
}

/// Digs a tunnel along column `x` from row `y1` to row `y2`, three columns wide.
pub fn create_v_tunnel(y1: usize, y2: usize, x: usize, map: &mut Grid)
    requires
        old(map).wf(),
        v_tunnel_area(y1 as int, y2 as int, x as int).in_grid(),
    ensures
        final(map)@ == stamped(old(map)@, v_tunnel_area(y1 as int, y2 as int, x as int)),
        final(map).wf(),
{
    let first = if y1 <= y2 {
        y1
    } else {
        y2
    };
    let last = if y1 <= y2 {
        y2
    } else {
        y1
    };
    let ghost area = v_tunnel_area(y1 as int, y2 as int, x as int);
    let mut y = first;
    while y < last + 1
        invariant
            map.wf(),
            area == v_tunnel_area(y1 as int, y2 as int, x as int),
            area.in_grid(),
            first == area.bottom,
            last == area.top,
            first <= y <= last + 1,
            forall|cx: int, cy: int|
                in_grid(cx, cy) ==> #[trigger] cell(map@, cx, cy) == (if area.holds(cx, cy) && cy
                    < y {
                    TileVariant::Floor(FloorVariant::Empty)
                } else {
                    cell(old(map)@, cx, cy)
                }),
        decreases last + 1 - y,
    {
        map.set(x + 1, y, TileVariant::Floor(FloorVariant::default()));
        map.set(x, y, TileVariant::Floor(FloorVariant::default()));
        map.set(x - 1, y, TileVariant::Floor(FloorVariant::default()));
        y += 1;
    }
    proof {
        lemma_stamped_cells(old(map)@, area);
        lemma_same_cells(map@, stamped(old(map)@, area));
    }
}

/// The first leg of the tunnel from one room's centre to the next: along
/// the row of the first centre if `flip` is set, else along its column.
pub open spec fn first_leg(prev: Room, cur: Room, flip: bool) -> Area {
    let p = prev.center_spec();
    let c = cur.center_spec();
    if flip {
        h_tunnel_area(p.0, c.0, p.1)
    } else {
        v_tunnel_area(p.1, c.1, p.0)
    }
}

/// The second leg of the tunnel, which ends in the centre of the second room.
pub open spec fn second_leg(prev: Room, cur: Room, flip: bool) -> Area {
    let p = prev.center_spec();
    let c = cur.center_spec();
    if flip {
        v_tunnel_area(p.1, c.1, c.0)
    } else {
        h_tunnel_area(p.0, c.0, c.1)
    }
}

/// The cell at which the two legs of a tunnel meet.
pub open spec fn tunnel_corner(prev: Room, cur: Room, flip: bool) -> (int, int) {
    let p = prev.center_spec();
    let c = cur.center_spec();
    if flip {
        (c.0, p.1)
    } else {
        (p.0, c.1)
    }
}

/// Whether carving room `i` lays floor on the cell `(x, y)`: the cell lies
/// in the room, or in the tunnel that joins the room to the one before it.
pub open spec fn covers(rooms: Seq<Room>, flips: Seq<bool>, i: int, x: int, y: int) -> bool {
    ||| room_area(rooms[i]).holds(x, y)
    ||| (i > 0 && first_leg(rooms[i - 1], rooms[i], flips[i]).holds(x, y))
    ||| (i > 0 && second_leg(rooms[i - 1], rooms[i], flips[i]).holds(x, y))
}

/// Whether carving the first `n` rooms lays floor on the cell `(x, y)`.
pub open spec fn covered(rooms: Seq<Room>, flips: Seq<bool>, n: int, x: int, y: int) -> bool {
    exists|i: int| 0 <= i < n && #[trigger] covers(rooms, flips, i, x, y)
}

/// The grid after the rooms were carved into it, where `flips[i]` tells
/// which way the tunnel to room `i` turns: plain floor wherever a room or a
/// tunnel lies, and elsewhere what was there.
pub open spec fn carved(g: Seq<TileVariant>, rooms: Seq<Room>, flips: Seq<bool>) -> Seq<TileVariant> {
    Seq::new(
        g.len(),
        |i: int|
            if covered(rooms, flips, rooms.len() as int, column_of(i), row_of(i)) {
                TileVariant::Floor(FloorVariant::Empty)
            } else {
                g[i]
            },
    )
}

/// Whether an area lies within the margins in which floor may be laid.
pub open spec fn within_margins(area: Area) -> bool {
    &&& MIN_ROOM_X <= area.left
    &&& area.right <= MAX_ROOM_X
    &&& MIN_ROOM_Y <= area.bottom
    &&& area.top <= MAX_ROOM_Y
}

/// Whether all floor of the grid lies within the margins.
pub open spec fn floor_in_margins(g: Seq<TileVariant>) -> bool {
    forall|x: int, y: int|
        floor_at(g, (x, y)) ==> MIN_ROOM_X <= x <= MAX_ROOM_X && MIN_ROOM_Y <= y <= MAX_ROOM_Y
}

/// Carving one more room covers what was covered, and what that room covers.
pub proof fn lemma_covered_step(rooms: Seq<Room>, flips: Seq<bool>, n: int, x: int, y: int)
    requires
        0 <= n,
    ensures
        covered(rooms, flips, n + 1, x, y) == (covered(rooms, flips, n, x, y) || covers(
            rooms,
            flips,
            n,
            x,
            y,
        )),
{
    if covered(rooms, flips, n + 1, x, y) {
        let i = choose|i: int| 0 <= i < n + 1 && #[trigger] covers(rooms, flips, i, x, y);
        if i < n {
            assert(covered(rooms, flips, n, x, y));
        }
    }
    if covered(rooms, flips, n, x, y) {
        let i = choose|i: int| 0 <= i < n && #[trigger] covers(rooms, flips, i, x, y);
        assert(covers(rooms, flips, i, x, y));
    }
}

/// The legs of a tunnel between two rooms within the margins lie within the
/// margins; the first holds the first room's centre, the second the second
/// room's, and both hold the corner.
pub proof fn lemma_tunnel_legs(prev: Room, cur: Room, flip: bool)
    requires
        prev.wf(),
        cur.wf(),
    ensures
        within_margins(first_leg(prev, cur, flip)),
        within_margins(second_leg(prev, cur, flip)),
        within_margins(room_area(cur)),
        first_leg(prev, cur, flip).holds(prev.center_spec().0, prev.center_spec().1),
        first_leg(prev, cur, flip).holds(
            tunnel_corner(prev, cur, flip).0,
            tunnel_corner(prev, cur, flip).1,
        ),
        second_leg(prev, cur, flip).holds(
            tunnel_corner(prev, cur, flip).0,
            tunnel_corner(prev, cur, flip).1,
        ),
        second_leg(prev, cur, flip).holds(cur.center_spec().0, cur.center_spec().1),
        room_area(cur).holds(cur.center_spec().0, cur.center_spec().1),
{
}

/// Whether `g` is `start` with the first `n` rooms carved into it: plain
/// floor wherever one of those rooms or its tunnel lies, and elsewhere what
/// was there.
pub open spec fn carved_upto(
    start: Seq<TileVariant>,
    g: Seq<TileVariant>,
    rooms: Seq<Room>,
    flips: Seq<bool>,
    n: int,
) -> bool {
    &&& g.len() == CELLS
    &&& start.len() == CELLS
    &&& forall|x: int, y: int|
        in_grid(x, y) ==> #[trigger] cell(g, x, y) == (if covered(rooms, flips, n, x, y) {
            TileVariant::Floor(FloorVariant::Empty)
        } else {
            cell(start, x, y)
        })
}

/// The grid with room `i` carved into it: the floor of the room and, for
/// every room but the first, of the two legs of the tunnel that leads to it.
pub open spec fn with_room(g: Seq<TileVariant>, rooms: Seq<Room>, flips: Seq<bool>, i: int) -> Seq<
    TileVariant,
> {
    let room = stamped(g, room_area(rooms[i]));
    if i > 0 {
        stamped(
            stamped(room, first_leg(rooms[i - 1], rooms[i], flips[i])),
            second_leg(rooms[i - 1], rooms[i], flips[i]),
        )
    } else {
        room
    }
}

/// What carving one more room keeps: the cells are those of the rooms
/// carved so far, the floor stays within the margins, and on a grid that
/// had no floor every floor cell can be reached from the centre of the
/// first room. The areas that are laid lie in the grid.
pub proof fn lemma_carve_room(
    start: Seq<TileVariant>,
    g: Seq<TileVariant>,
    rooms: Seq<Room>,
    flips: Seq<bool>,
    i: int,
)
    requires
        0 <= i < rooms.len(),
        forall|j: int| 0 <= j < rooms.len() ==> (#[trigger] rooms[j]).wf(),
        carved_upto(start, g, rooms, flips, i),
        no_floor(start) && i > 0 ==> connected_from(g, rooms[0].center_spec()),
        floor_in_margins(start) ==> floor_in_margins(g),
    ensures
        carved_upto(start, with_room(g, rooms, flips, i), rooms, flips, i + 1),
        no_floor(start) ==> connected_from(with_room(g, rooms, flips, i), rooms[0].center_spec()),
        floor_in_margins(start) ==> floor_in_margins(with_room(g, rooms, flips, i)),
        room_area(rooms[i]).in_grid(),
        i > 0 ==> first_leg(rooms[i - 1], rooms[i], flips[i]).in_grid() && second_leg(
            rooms[i - 1],
            rooms[i],
            flips[i],
        ).in_grid(),
{
    let cur = rooms[i];
    assert(cur.wf());
    let room = room_area(cur);
    let g1 = stamped(g, room);
    let after = with_room(g, rooms, flips, i);
    let origin = rooms[0].center_spec();
    lemma_stamped_cells(g, room);
    if i > 0 {
        let prev = rooms[i - 1];
        assert(prev.wf());
        let flip = flips[i];
        let leg_a = first_leg(prev, cur, flip);
        let leg_b = second_leg(prev, cur, flip);
        lemma_tunnel_legs(prev, cur, flip);
        let g2 = stamped(g1, leg_a);
        lemma_stamped_cells(g1, leg_a);
        lemma_stamped_cells(g2, leg_b);
        assert forall|x: int, y: int| in_grid(x, y) implies #[trigger] cell(after, x, y) == (if room.holds(
            x,
            y,
        ) || leg_a.holds(x, y) || leg_b.holds(x, y) {
            TileVariant::Floor(FloorVariant::Empty)
        } else {
            cell(g, x, y)
        }) by {
            assert(cell(g2, x, y) == (if leg_a.holds(x, y) {
                TileVariant::Floor(FloorVariant::Empty)
            } else {
                cell(g1, x, y)
            }));
            assert(cell(g1, x, y) == (if room.holds(x, y) {
                TileVariant::Floor(FloorVariant::Empty)
            } else {
                cell(g, x, y)
            }));
        }
        assert forall|x: int, y: int| in_grid(x, y) implies #[trigger] cell(after, x, y) == (if covered(
            rooms,
            flips,
            i + 1,
            x,
            y,
        ) {
            TileVariant::Floor(FloorVariant::Empty)
        } else {
            cell(start, x, y)
        }) by {
            lemma_covered_step(rooms, flips, i, x, y);
            assert(cell(g, x, y) == (if covered(rooms, flips, i, x, y) {
                TileVariant::Floor(FloorVariant::Empty)
            } else {
                cell(start, x, y)
            }));
        }
        if floor_in_margins(start) {
            assert forall|x: int, y: int| floor_at(after, (x, y)) implies MIN_ROOM_X <= x
                <= MAX_ROOM_X && MIN_ROOM_Y <= y <= MAX_ROOM_Y by {
                if !leg_b.holds(x, y) && !leg_a.holds(x, y) && !room.holds(x, y) {
                    assert(cell(after, x, y) == cell(g, x, y));
                    assert(floor_at(g, (x, y)));
                }
            }
        }
        if no_floor(start) {
            let p = prev.center_spec();
            let corner = tunnel_corner(prev, cur, flip);
            let c = cur.center_spec();
            // The centre of the room before this one is floor already.
            assert(covers(rooms, flips, i - 1, p.0, p.1));
            assert(covered(rooms, flips, i, p.0, p.1));
            assert(cell(g, p.0, p.1).floor());
            assert(floor_at(g, p));
            lemma_stamp_connected(g, leg_a, origin, p);
            let ha = stamped(g, leg_a);
            lemma_stamped_cells(g, leg_a);
            assert(floor_at(ha, corner));
            lemma_stamp_connected(ha, leg_b, origin, corner);
            let hb = stamped(ha, leg_b);
            lemma_stamped_cells(ha, leg_b);
            assert(floor_at(hb, c));
            lemma_stamp_connected(hb, room, origin, c);
            // The order in which the three were laid does not matter.
            lemma_stamps_commute(g, room, leg_a);
            lemma_stamps_commute(stamped(g, leg_a), room, leg_b);
            assert(after == stamped(hb, room));
        }
    } else {
        assert forall|x: int, y: int| in_grid(x, y) implies #[trigger] cell(after, x, y) == (if covered(
            rooms,
            flips,
            i + 1,
            x,
            y,
        ) {
            TileVariant::Floor(FloorVariant::Empty)
        } else {
            cell(start, x, y)
        }) by {
            lemma_covered_step(rooms, flips, i, x, y);
            assert(cell(g, x, y) == (if covered(rooms, flips, i, x, y) {
                TileVariant::Floor(FloorVariant::Empty)
            } else {
                cell(start, x, y)
            }));
        }
        if floor_in_margins(start) {
            assert forall|x: int, y: int| floor_at(after, (x, y)) implies MIN_ROOM_X <= x
                <= MAX_ROOM_X && MIN_ROOM_Y <= y <= MAX_ROOM_Y by {
                if !room.holds(x, y) {
                    assert(cell(after, x, y) == cell(g, x, y));
                    assert(floor_at(g, (x, y)));
                }
            }
        }
        if no_floor(start) {
            assert forall|x: int, y: int| floor_at(g, (x, y)) implies joined(g, origin, (x, y)) by {
                assert(!covered(rooms, flips, 0, x, y));
                assert(cell(g, x, y) == cell(start, x, y));
                assert(floor_at(start, (x, y)));
            }
            lemma_stamp_connected(g, room, origin, origin);
        }
    }
}

/// A grid into which all rooms were carved is the carved grid, and each room is all floor in it.
pub proof fn lemma_carved_all(
    start: Seq<TileVariant>,
    g: Seq<TileVariant>,
    rooms: Seq<Room>,
    flips: Seq<bool>,
)
    requires
        forall|j: int| 0 <= j < rooms.len() ==> (#[trigger] rooms[j]).wf(),
        carved_upto(start, g, rooms, flips, rooms.len() as int),
    ensures
        g == carved(start, rooms, flips),
        forall|k: int| 0 <= k < rooms.len() ==> all_floor(g, room_area(#[trigger] rooms[k])),
{
    assert forall|x: int, y: int| in_grid(x, y) implies cell(g, x, y) == cell(
        carved(start, rooms, flips),
        x,
        y,
    ) by {
        lemma_cell_index(x, y);
    }
    lemma_same_cells(g, carved(start, rooms, flips));
    assert forall|k: int| 0 <= k < rooms.len() implies all_floor(g, room_area(#[trigger] rooms[k])) by {
        assert(rooms[k].wf());
        assert forall|x: int, y: int| room_area(rooms[k]).holds(x, y) implies floor_at(g, (x, y)) by {
            assert(covers(rooms, flips, k, x, y));
            assert(in_grid(x, y));
            assert(cell(g, x, y).floor());
        }
    }
}

} // verus!
