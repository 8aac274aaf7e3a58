//! Movement and collision: turns each unit's velocity into a new position,
//! unless a blocking tile is in the way.

use crate::components::Transform;
use crate::components::animated::WalkAnimation;
use crate::components::npc::Npc;
use crate::components::tile::Tile;
use crate::units::{clamp_i32, isqrt, negate, saturate, sqrt_floor, trunc_div};
use crate::world::{Components, Entity, Time, World};
use vstd::prelude::*;

verus! {

/// How close to its destination a unit counts as arrived, on each axis.
pub const EQUAL_MARGIN: i32 = 2_000;

/// How far above a tile's hit box a unit is stopped.
pub const HIT_BOX_BUFFER_TOP: i32 = 20_000;

/// How far below and beside a tile's hit box a unit is stopped.
pub const HIT_BOX_BUFFER_BOT: i32 = 10_000;

/// Only tiles whose centre lies within this distance of a unit's next position can stop it.
pub const PROXIMITY: i32 = 30_000;

/// Square of the distance between two points.
pub open spec fn distance_squared(a: [i32; 2], b: [i32; 2]) -> int {
    (b[0] - a[0]) * (b[0] - a[0]) + (b[1] - a[1]) * (b[1] - a[1])
}

/// Whether two points lie no further apart than `reach`. No point is within a negative reach.
pub open spec fn within_reach(a: [i32; 2], b: [i32; 2], reach: int) -> bool {
    0 <= reach && distance_squared(a, b) <= reach * reach
}

/// Whether `point` lies within the arrival margin of `target` on both axes.
pub open spec fn near(target: [i32; 2], point: [i32; 2]) -> bool {
    &&& target[0] - EQUAL_MARGIN <= point[0] <= target[0] + EQUAL_MARGIN
    &&& target[1] - EQUAL_MARGIN <= point[1] <= target[1] + EQUAL_MARGIN
}

/// Square of the distance between two points, exactly.
pub fn point_distance_squared(a: [i32; 2], b: [i32; 2]) -> (d: u128)
    ensures
        d == distance_squared(a, b),
        d <= 0x1_ffff_fffc_0000_0002,
{
    let dx: i128 = b[0] as i128 - a[0] as i128;
    let dy: i128 = b[1] as i128 - a[1] as i128;
    assert(0 <= dx * dx <= 0xffff_fffe_0000_0001) by (nonlinear_arith)
        requires
            -0xffff_ffff <= dx <= 0xffff_ffff,
    ;
    assert(0 <= dy * dy <= 0xffff_fffe_0000_0001) by (nonlinear_arith)
        requires
            -0xffff_ffff <= dy <= 0xffff_ffff,
    ;
    (dx * dx + dy * dy) as u128
}

/// Distance between two points, rounded down to a whole thousandth.
pub fn point_distance(a: [i32; 2], b: [i32; 2]) -> (d: u64)
    ensures
        d == sqrt_floor(distance_squared(a, b)),
{
    isqrt(point_distance_squared(a, b))
}

/// Whether two points lie no further apart than `reach`; the comparison is exact.
pub fn point_within_reach(a: [i32; 2], b: [i32; 2], reach: i32) -> (within: bool)
    ensures
        within == within_reach(a, b, reach as int),
{
    if reach < 0 {
        return false;
    }
    let r: u128 = reach as u128;
    assert(r * r <= 0x3fff_ffff_0000_0001) by (nonlinear_arith)
        requires
            0 <= r <= 0x7fff_ffff,
    ;
    point_distance_squared(a, b) <= r * r
}

/// Whether a point is close enough to a target to count as having reached it.
pub fn point_within(target: [i32; 2], point: [i32; 2]) -> (b: bool)
    ensures
        b == near(target, point),
{
    let margin: i64 = EQUAL_MARGIN as i64;
    let within_x = point[0] as i64 >= target[0] as i64 - margin && point[0] as i64 <= target[0] as i64
        + margin;
    let within_y = point[1] as i64 >= target[1] as i64 - margin && point[1] as i64 <= target[1] as i64
        + margin;
    within_x && within_y
}

/// How far a unit with the given speed along one axis gets in `delta` thousandths of a second.
pub open spec fn displacement(velocity: i32, delta: u32) -> int {
    trunc_div(velocity * delta, 1000)
}

/// Where a unit would stand after this tick if nothing stopped it.
pub open spec fn candidate(transform: Transform, npc: Npc, delta: u32) -> [i32; 2] {
    [
        clamp_i32(transform.x + displacement(npc.velocity[0], delta)) as i32,
        clamp_i32(transform.y + displacement(npc.velocity[1], delta)) as i32,
    ]
}

/// Whether a point overlaps a tile's hit box widened by the buffers: more above than elsewhere.
pub open spec fn overlaps(point: [i32; 2], hit_box: [[i32; 2]; 2]) -> bool {
    &&& point[0] >= hit_box[0][0] - HIT_BOX_BUFFER_BOT
    &&& point[0] <= hit_box[1][0] + HIT_BOX_BUFFER_BOT
    &&& point[1] >= hit_box[0][1] - HIT_BOX_BUFFER_BOT
    &&& point[1] <= hit_box[1][1] + HIT_BOX_BUFFER_TOP
}

/// Whether the tile stops a unit from standing at `point`.
pub open spec fn tile_stops(tile: Tile, point: [i32; 2]) -> bool {
    &&& tile.blocking
    &&& within_reach(point, tile.center, PROXIMITY as int)
    &&& overlaps(point, tile.hit_box)
}

/// The tile that the entity in a slot carries, if the slot holds an entity and it is a tile.
pub open spec fn tile_of(slot: Option<Components>) -> Option<Tile> {
    match slot {
        Some(c) => c.tile,
        None => None,
    }
}

/// Whether the entity in a slot is a tile that stops a unit from standing at `point`.
pub open spec fn slot_stops(slot: Option<Components>, point: [i32; 2]) -> bool {
    slot matches Some(c) && c.tile matches Some(tile) && tile_stops(tile, point)
}

/// Whether any tile of the store stops a unit from standing at `point`.
pub open spec fn blocked(store: Seq<Option<Components>>, point: [i32; 2]) -> bool {
    exists|j: int| 0 <= j < store.len() && slot_stops(#[trigger] store[j], point)
}

/// Whether the movement pass looks at an entity: it has a place, mobility,
/// a walk cycle and a sprite.
pub open spec fn mobile(c: Components) -> bool {
    c.transform is Some && c.npc is Some && c.walk is Some && c.sprite is Some
}

/// The transform after a committed move to `to`: the sprite is mirrored when
/// it moved horizontally against the way it faced.
pub open spec fn stepped(transform: Transform, to: [i32; 2]) -> Transform {
    let dx = to[0] - transform.x;
    let placed = Transform { x: to[0], y: to[1], ..transform };
    if (dx < 0 && transform.scale_x > 0) || (dx > 0 && transform.scale_x < 0) {
        Transform {
            scale_x: clamp_i32(-transform.scale_x) as i32,
            scale_y: 1000,
            scale_z: 1000,
            ..placed
        }
    } else {
        placed
    }
}

/// One unit after the movement pass, given whether a tile is in its way.
///
/// A unit at rest is left alone. A moving unit's walk cycle advances. If a
/// tile is in the way the unit stops where it is; otherwise it steps to the
/// candidate position. A unit that then stands within the margin of its
/// destination stops and its walk cycle is reset.
pub open spec fn moved(c: Components, is_blocked: bool, delta: u32) -> Components {
    if !mobile(c) || c.npc->0.at_rest() {
        c
    } else {
        let npc = c.npc->0;
        let transform = c.transform->0;
        let walk = c.walk->0.anim;
        let walked = walk.animated(delta);
        let sprite = walk.animated_sprite(delta, c.sprite->0);
        let to = candidate(transform, npc, delta);
        let transform_after = if is_blocked {
            transform
        } else {
            stepped(transform, to)
        };
        let arrived = near(npc.move_coords, [transform_after.x, transform_after.y]);
        Components {
            transform: Some(transform_after),
            npc: Some(
                if is_blocked || arrived {
                    Npc { velocity: [0i32, 0i32], ..npc }
                } else {
                    npc
                },
            ),
            walk: Some(
                WalkAnimation {
                    anim: if arrived {
                        walked.rewound()
                    } else {
                        walked
                    },
                },
            ),
            sprite: Some(sprite),
            ..c
        }
    }
}

/// One slot of the store after the movement pass.
pub open spec fn moved_slot(
    store: Seq<Option<Components>>,
    slot: Option<Components>,
    delta: u32,
) -> Option<Components> {
    match slot {
        Some(c) => if mobile(c) {
            Some(moved(c, blocked(store, candidate(c.transform->0, c.npc->0, delta)), delta))
        } else {
            Some(c)
        },
        None => None,
    }
}

/// The store after the movement pass: every unit moved against the tiles of the store.
pub open spec fn movement_pass(store: Seq<Option<Components>>, delta: u32) -> Seq<
    Option<Components>,
> {
    Seq::new(store.len(), |i: int| moved_slot(store, store[i], delta))
}

/// Where a unit would stand after this tick if nothing stopped it.
pub fn next_position(transform: &Transform, npc: &Npc, delta: u32) -> (to: [i32; 2])
    ensures
        to == candidate(*transform, *npc, delta),
{
    let step_x = step_length(npc.velocity[0], delta);
    let step_y = step_length(npc.velocity[1], delta);
    let new_x = saturate(transform.x as i64 + step_x);
    let new_y = saturate(transform.y as i64 + step_y);
    [new_x, new_y]
}

/// How far a unit with the given speed along one axis gets in `delta` thousandths of a second.
pub fn step_length(velocity: i32, delta: u32) -> (d: i64)
    ensures
        d == displacement(velocity, delta),
        -0x40_0000_0000_0000 <= d <= 0x40_0000_0000_0000,
{
    let v: i64 = velocity as i64;
    let t: i64 = delta as i64;
    assert(-0x8000_0000_0000_0000 < v * t < 0x8000_0000_0000_0000
        && -0x8000_0000 * 0xffff_ffff <= v * t <= 0x8000_0000 * 0xffff_ffff) by (nonlinear_arith)
        requires
            -0x8000_0000 <= v <= 0x7fff_ffff,
            0 <= t <= 0xffff_ffff,
    ;
    (v * t) / 1000
}

/// Whether the tile stops a unit from standing at `point`.
pub fn tile_blocks(tile: &Tile, point: [i32; 2]) -> (b: bool)
    ensures
        b == tile_stops(*tile, point),
{
    if !tile.blocking {
        return false;
    }
    if !point_within_reach(point, tile.center, PROXIMITY) {
        return false;
    }
    let lower_left = tile.hit_box[0];
    let upper_right = tile.hit_box[1];
    let new_x = point[0] as i64;
    let new_y = point[1] as i64;
    new_x >= lower_left[0] as i64 - HIT_BOX_BUFFER_BOT as i64 && new_x <= upper_right[0] as i64
        + HIT_BOX_BUFFER_BOT as i64 && new_y >= lower_left[1] as i64 - HIT_BOX_BUFFER_BOT as i64
        && new_y <= upper_right[1] as i64 + HIT_BOX_BUFFER_TOP as i64
}

/// Whether any tile of the world stops a unit from standing at `point`.
pub fn is_blocked(world: &World, point: [i32; 2]) -> (b: bool)
    ensures
        b == blocked(world@, point),
{
    let n = world.len();
    let mut i: usize = 0;
    while i < n
        invariant
            n == world@.len(),
            i <= n,
            forall|j: int| 0 <= j < i ==> !slot_stops(#[trigger] world@[j], point),
        decreases n - i,
    {
        match world.get(Entity { id: i }) {
            Some(c) => match c.tile {
                Some(tile) => {
                    if tile_blocks(&tile, point) {
                        return true;
                    }
                },
                None => {},
            },
            None => {},
        }
        i += 1;
    }
    false
}

/// Moves one unit by one tick, given whether a tile is in its way.
pub fn move_unit(c: &mut Components, is_blocked: bool, delta: u32)
    requires
        old(c).wf(),
    ensures
        *final(c) == moved(*old(c), is_blocked, delta),
        final(c).wf(),
        final(c).tile == old(c).tile,
{
    let (mut transform, mut npc, mut anim, mut render) = match (c.transform, c.npc, c.walk, c.sprite) {
        (Some(t), Some(n), Some(a), Some(r)) => (t, n, a, r),
        _ => { return ; },
    };
    if npc.is_at_rest() {
        return ;
    }
    anim.anim.animate(delta, &mut render);
    let to = next_position(&transform, &npc, delta);
    if is_blocked {
        npc.velocity = [0, 0];
    } else {
        let delta_x: i64 = to[0] as i64 - transform.x as i64;
        let scale_x = transform.scale_x;
        transform.x = to[0];
        transform.y = to[1];
        if delta_x < 0 && scale_x > 0 || delta_x > 0 && scale_x < 0 {
            transform.scale_x = negate(scale_x);
            transform.scale_y = 1000;
            transform.scale_z = 1000;
        }
    }
    if point_within(npc.move_coords, [transform.x, transform.y]) {
        npc.velocity = [0, 0];
        anim.anim.reset();
    }
    c.transform = Some(transform);
    c.npc = Some(npc);
    c.walk = Some(anim);
    c.sprite = Some(render);
}

/// The movement and collision pass.
#[derive(Clone, Copy, Debug)]
pub struct MovementSystem;

impl MovementSystem {
    /// Moves every unit by one tick.
    ///
    /// Each entity with a place, mobility, a walk cycle and a sprite that is
    /// not at rest steps by its velocity times the tick's length, unless a
    /// blocking tile near the new position overlaps it: then it stays and
    /// its velocity becomes zero. Tiles do not change, so every unit is
    /// tested against the same tiles.
    pub fn run(&mut self, world: &mut World, time: &Time)
        requires
            old(world).wf(),
        ensures
            final(world)@ == movement_pass(old(world)@, time.delta),
            final(world).wf(),
    {
        let n = world.len();
        let delta = time.delta;
        let mut i: usize = 0;
        while i < n
            invariant
                n == world@.len(),
                n == old(world)@.len(),
                i <= n,
                world.wf(),
                forall|j: int|
                    0 <= j < i ==> #[trigger] world@[j] == moved_slot(
                        old(world)@,
                        old(world)@[j],
                        delta,
                    ),
                forall|j: int| i <= j < n ==> #[trigger] world@[j] == old(world)@[j],
                forall|j: int| 0 <= j < n ==> tile_of(#[trigger] world@[j]) == tile_of(old(world)@[j]),
            decreases n - i,
        {
            let e = Entity { id: i };
            match world.get(e) {
                Some(c) => {
                    let mut c = c;
                    match (c.transform, c.npc, c.walk, c.sprite) {
                        (Some(t), Some(npc), Some(_), Some(_)) => {
                            let to = next_position(&t, &npc, delta);
                            let b = is_blocked(world, to);
                            proof {
                                lemma_blocked_by_same_tiles(world@, old(world)@, to);
                            }
                            move_unit(&mut c, b, delta);
                            world.update(e, c);
                        },
                        _ => {},
                    }
                },
                None => {},
            }
            i += 1;
        }
    }
}

/// Two stores whose slots hold the same tiles stop a unit at the same points.
pub proof fn lemma_blocked_by_same_tiles(
    a: Seq<Option<Components>>,
    b: Seq<Option<Components>>,
    point: [i32; 2],
)
    requires
        a.len() == b.len(),
        forall|j: int| 0 <= j < a.len() ==> tile_of(#[trigger] a[j]) == tile_of(b[j]),
    ensures
        blocked(a, point) == blocked(b, point),
{
    if blocked(a, point) {
        let j = choose|j: int| 0 <= j < a.len() && slot_stops(#[trigger] a[j], point);
    }
    if blocked(b, point) {
        let j = choose|j: int| 0 <= j < b.len() && slot_stops(#[trigger] b[j], point);
        assert(slot_stops(a[j], point));
    }
}

/// A point with no blocking tile's centre within the proximity radius is not blocked.
pub proof fn lemma_no_tile_near(store: Seq<Option<Components>>, point: [i32; 2])
    requires
        forall|j: int|
            0 <= j < store.len() ==> (tile_of(#[trigger] store[j]) matches Some(tile) ==> !(
            tile.blocking && within_reach(point, tile.center, PROXIMITY as int))),
    ensures
        !blocked(store, point),
{
    if blocked(store, point) {
        let j = choose|j: int| 0 <= j < store.len() && slot_stops(#[trigger] store[j], point);
        assert(tile_of(store[j]) is Some);
    }
}

/// A moving unit with no tile in its way ends the tick at its candidate
/// position: where that lies within the range of coordinates, it has moved
/// by exactly its velocity times the length of the tick.
pub proof fn lemma_free_unit_advances(c: Components, delta: u32)
    requires
        mobile(c),
        !c.npc->0.at_rest(),
    ensures
        mobile(moved(c, false, delta)),
        moved(c, false, delta).transform->0.x == clamp_i32(
            c.transform->0.x + displacement(c.npc->0.velocity[0], delta),
        ),
        moved(c, false, delta).transform->0.y == clamp_i32(
            c.transform->0.y + displacement(c.npc->0.velocity[1], delta),
        ),
{
}

/// A moving unit with a tile in its way ends the tick where it was, and at rest.
pub proof fn lemma_blocked_unit_stops(c: Components, delta: u32)
    requires
        mobile(c),
        !c.npc->0.at_rest(),
    ensures
        moved(c, true, delta).transform == c.transform,
        moved(c, true, delta).npc->0.at_rest(),
{
}

/// The walk cycle advances only for what moves: the pass leaves a unit at rest as it is.
pub proof fn lemma_walk_only_on_the_move(c: Components, is_blocked: bool, delta: u32)
    requires
        mobile(c),
        c.npc->0.at_rest(),
    ensures
        moved(c, is_blocked, delta) == c,
{
}

} // verus!
