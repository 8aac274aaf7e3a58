//! The rooms of the dungeon: where the player starts, and where the boss waits.

use crate::resources::map::{
    Rect, Room, BOSS_SPAWN_CHANCE, MAX_ROOMS, MAX_ROOM_X, MAX_ROOM_Y, MIN_ROOM_X, MIN_ROOM_Y,
    ROOM_SPAWN_CHANCE, SPAWN_ROOM_HEIGHT, SPAWN_ROOM_WIDTH,
};
use vstd::prelude::*;

verus! {

/// The four places at which the player's room may lie: one in each corner of the margins.
pub open spec fn spawn_candidate(k: int) -> Room {
    Room {
        dimensions: Rect {
            x: if k < 2 {
                MIN_ROOM_X
            } else {
                (MAX_ROOM_X - SPAWN_ROOM_WIDTH) as usize
            },
            y: if k % 2 == 0 {
                MIN_ROOM_Y
            } else {
                (MAX_ROOM_Y - SPAWN_ROOM_HEIGHT) as usize
            },
            width: SPAWN_ROOM_WIDTH,
            height: SPAWN_ROOM_HEIGHT,
        },
        safe: true,
        enemy_spawn_chance: 0,
    }
}

/// A room made hostile: enemies are placed in it with the largest chance.
pub open spec fn hostile(room: Room) -> Room {
    Room { safe: false, enemy_spawn_chance: BOSS_SPAWN_CHANCE, ..room }
}

/// Square of the distance between the centres of two rooms, in tiles.
pub open spec fn center_distance_squared(a: Room, b: Room) -> int {
    let ca = a.center_spec();
    let cb = b.center_spec();
    (ca.0 - cb.0) * (ca.0 - cb.0) + (ca.1 - cb.1) * (ca.1 - cb.1)
}

/// Whether corner `j` is the one farthest from `spawn`: no corner room's
/// centre is farther from the centre of `spawn`, and of the corners at that
/// distance it is the first.
pub open spec fn is_farthest_corner(spawn: Room, j: int) -> bool {
    &&& 0 <= j < 4
    &&& forall|k: int|
        0 <= k < 4 ==> center_distance_squared(spawn, #[trigger] spawn_candidate(k))
            <= center_distance_squared(spawn, spawn_candidate(j))
    &&& forall|k: int|
        0 <= k < j ==> center_distance_squared(spawn, #[trigger] spawn_candidate(k))
            < center_distance_squared(spawn, spawn_candidate(j))
}

/// Whether `boss` is the corner room farthest from `spawn`, made hostile.
pub open spec fn is_boss_room(spawn: Room, boss: Room) -> bool {
    exists|j: int| is_farthest_corner(spawn, j) && boss == hostile(#[trigger] spawn_candidate(j))
}

/// The four places at which the player's room may lie.
pub fn potential_spawn_rooms() -> (rooms: Vec<Room>)
    ensures
        rooms@.len() == 4,
        forall|k: int| 0 <= k < 4 ==> rooms@[k] == spawn_candidate(k),
{
    let spawn_room_size = [SPAWN_ROOM_WIDTH, SPAWN_ROOM_HEIGHT];
    let potential_spawns = [
        [MIN_ROOM_X, MIN_ROOM_Y],
        [MIN_ROOM_X, (MAX_ROOM_Y - spawn_room_size[1])],
        [(MAX_ROOM_X - spawn_room_size[0]), MIN_ROOM_Y],
        [(MAX_ROOM_X - spawn_room_size[0]), (MAX_ROOM_Y - spawn_room_size[1])],
    ];
    let mut potential_spawn_rooms: Vec<Room> = Vec::new();
    let mut k: usize = 0;
    while k < 4
        invariant
            k <= 4,
            potential_spawn_rooms@.len() == k,
            spawn_room_size[0] == SPAWN_ROOM_WIDTH,
            spawn_room_size[1] == SPAWN_ROOM_HEIGHT,
            potential_spawns[0][0] == MIN_ROOM_X,
            potential_spawns[0][1] == MIN_ROOM_Y,
            potential_spawns[1][0] == MIN_ROOM_X,
            potential_spawns[1][1] == MAX_ROOM_Y - SPAWN_ROOM_HEIGHT,
            potential_spawns[2][0] == MAX_ROOM_X - SPAWN_ROOM_WIDTH,
            potential_spawns[2][1] == MIN_ROOM_Y,
            potential_spawns[3][0] == MAX_ROOM_X - SPAWN_ROOM_WIDTH,
            potential_spawns[3][1] == MAX_ROOM_Y - SPAWN_ROOM_HEIGHT,
            forall|j: int| 0 <= j < k ==> potential_spawn_rooms@[j] == spawn_candidate(j),
        decreases 4 - k,
    {
        let s = potential_spawns[k];
        potential_spawn_rooms.push(
            Room {
                dimensions: Rect::new(s[0], s[1], spawn_room_size[0], spawn_room_size[1]),
                safe: true,
                enemy_spawn_chance: 0,
            },
        );
        k += 1;
    }
    potential_spawn_rooms
}

/// Square of the distance between the centres of two rooms, in tiles.
pub fn room_distance(a: &Room, b: &Room) -> (d: u64)
    requires
        a.wf(),
        b.wf(),
    ensures
        d == center_distance_squared(*a, *b),
{
    let ca = a.center();
    let cb = b.center();
    let distance_x: i64 = ca[0] as i64 - cb[0] as i64;
    let distance_y: i64 = ca[1] as i64 - cb[1] as i64;
    assert(0 <= distance_x * distance_x <= 6400) by (nonlinear_arith)
        requires
            -80 <= distance_x <= 80,
    ;
    assert(0 <= distance_y * distance_y <= 1600) by (nonlinear_arith)
        requires
            -40 <= distance_y <= 40,
    ;
    (distance_x * distance_x + distance_y * distance_y) as u64
}

/// The boss room for a given player's room: of the four corner rooms the one
/// whose centre is farthest from the centre of the player's room, made hostile.
pub fn boss_room(spawn: &Room) -> (boss: Room)
    requires
        spawn.wf(),
    ensures
        is_boss_room(*spawn, boss),
        boss.wf(),
        !boss.safe,
{
    let potential_spawn_rooms = potential_spawn_rooms();
    let mut max_distance: (u64, Room) = (0, potential_spawn_rooms[0]);
    let ghost mut best: int = 0;
    let mut k: usize = 0;
    while k < 4
        invariant
            k <= 4,
            spawn.wf(),
            potential_spawn_rooms@.len() == 4,
            forall|j: int| 0 <= j < 4 ==> potential_spawn_rooms@[j] == spawn_candidate(j),
            0 <= best < 4,
            k > 0 ==> best < k && max_distance.1 == hostile(spawn_candidate(best)),
            max_distance.0 == if k == 0 {
                0
            } else {
                center_distance_squared(*spawn, spawn_candidate(best))
            },
            forall|j: int|
                0 <= j < k ==> center_distance_squared(*spawn, #[trigger] spawn_candidate(j))
                    <= max_distance.0,
            forall|j: int|
                0 <= j < best ==> center_distance_squared(*spawn, #[trigger] spawn_candidate(j))
                    < max_distance.0,
        decreases 4 - k,
    {
        let room = &potential_spawn_rooms[k];
        let mut clone = *room;
        clone.safe = false;
        clone.enemy_spawn_chance = BOSS_SPAWN_CHANCE;
        assert(*room == spawn_candidate(k as int));
        let distance = room_distance(spawn, room);
        if distance > max_distance.0 || k == 0 {
            max_distance = (distance, clone);
            proof {
                best = k as int;
            }
        }
        k += 1;
    }
    assert(spawn_candidate(best).wf());
    assert(is_farthest_corner(*spawn, best));
    max_distance.1
}

/// Whether `rooms` is a layout as the builder defines it: the player's room
/// in one of the corners, then the rooms of random size and place, and last
/// the boss room in the corner farthest from the player's.
pub open spec fn is_layout(rooms: Seq<Room>) -> bool {
    &&& rooms.len() == MAX_ROOMS + 1
    &&& exists|k: int| 0 <= k < 4 && rooms[0] == #[trigger] spawn_candidate(k)
    &&& forall|i: int|
        1 <= i < MAX_ROOMS ==> {
            &&& (#[trigger] rooms[i]).wf()
            &&& !rooms[i].safe
            &&& rooms[i].enemy_spawn_chance == ROOM_SPAWN_CHANCE
        }
    &&& is_boss_room(rooms[0], rooms[MAX_ROOMS as int])
}

/// Every room of a layout keeps to the bounds on its size and lies within
/// the margins of the grid, and the first room alone is safe.
pub proof fn lemma_layout_rooms(rooms: Seq<Room>)
    requires
        is_layout(rooms),
    ensures
        forall|i: int| 0 <= i < rooms.len() ==> (#[trigger] rooms[i]).wf(),
        forall|i: int| 0 <= i < rooms.len() ==> ((#[trigger] rooms[i]).safe <==> i == 0),
{
    let k = choose|k: int| 0 <= k < 4 && rooms[0] == #[trigger] spawn_candidate(k);
    assert(spawn_candidate(k).wf());
    let boss = rooms[MAX_ROOMS as int];
    let j = choose|j: int|
        is_farthest_corner(rooms[0], j) && boss == hostile(#[trigger] spawn_candidate(j));
    assert(spawn_candidate(j).wf());
    assert forall|i: int| 0 <= i < rooms.len() implies (#[trigger] rooms[i]).wf() && (rooms[i].safe
        <==> i == 0) by {
        if i >= MAX_ROOMS {
            assert(rooms[i] == boss);
        }
    }
}

} // verus!
