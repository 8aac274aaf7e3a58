//! The player's commands: a click on an enemy makes the selected units
//! attack it, a click on open ground sends them there.

use crate::components::{Sprite, SpriteSheets, Transform};
use crate::components::npc::{CanTarget, Npc};
use crate::systems::movement::{distance_squared, point_distance};
use crate::units::{clamp_i32, mul_div, saturate, sqrt_floor, trunc_div};
use crate::world::{Components, Entity, World};
use vstd::prelude::*;

verus! {

/// A move order aims this far above the point clicked, so that a unit's feet end up on it.
pub const CLICK_LIFT: i32 = 15_000;

/// One component of the velocity of length `speed` along a direction whose
/// component is `d` and whose length is `dist`.
pub open spec fn velocity_component(d: int, speed: int, dist: int) -> i32 {
    clamp_i32(trunc_div(d * speed, dist)) as i32
}

/// The velocity of the given speed from `current_pos` toward `target_pos`.
///
/// The direction is divided by its length rounded down to a whole
/// thousandth. Where the two points coincide there is no direction, and the
/// velocity is zero.
pub open spec fn velocity_toward(current_pos: [i32; 2], target_pos: [i32; 2], move_speed: i32) -> [i32; 2] {
    let dist = sqrt_floor(distance_squared(current_pos, target_pos));
    if dist == 0 {
        [0i32, 0i32]
    } else {
        [
            velocity_component(target_pos[0] - current_pos[0], move_speed as int, dist),
            velocity_component(target_pos[1] - current_pos[1], move_speed as int, dist),
        ]
    }
}

/// The velocity with which a unit at `current_pos` heads for `target_pos` at `move_speed`.
pub fn calc_velocity_vec(current_pos: [i32; 2], target_pos: [i32; 2], move_speed: i32) -> (v: [i32; 2])
    ensures
        v == velocity_toward(current_pos, target_pos, move_speed),
{
    let direct_velocity_x: i64 = target_pos[0] as i64 - current_pos[0] as i64;
    let direct_velocity_y: i64 = target_pos[1] as i64 - current_pos[1] as i64;
    let direct_velocity = point_distance(current_pos, target_pos);
    if direct_velocity == 0 {
        return [0, 0];
    }
    proof {
        lemma_distance_bound(current_pos, target_pos);
    }
    let new_x = mul_div(direct_velocity_x, move_speed as i64, direct_velocity as i64);
    let new_y = mul_div(direct_velocity_y, move_speed as i64, direct_velocity as i64);
    [new_x, new_y]
}

/// The distance between two points, rounded down, is below two to the power of 33.
pub proof fn lemma_distance_bound(a: [i32; 2], b: [i32; 2])
    ensures
        0 <= sqrt_floor(distance_squared(a, b)) < 0x2_0000_0000,
{
    let dx = b[0] - a[0];
    let dy = b[1] - a[1];
    let n = distance_squared(a, b);
    assert(0 <= dx * dx <= 0xffff_fffe_0000_0001) by (nonlinear_arith)
        requires
            -0xffff_ffff <= dx <= 0xffff_ffff,
    ;
    assert(0 <= dy * dy <= 0xffff_fffe_0000_0001) by (nonlinear_arith)
        requires
            -0xffff_ffff <= dy <= 0xffff_ffff,
    ;
    crate::units::lemma_sqrt_floor_exists(n);
    let r = sqrt_floor(n);
    if r >= 0x2_0000_0000 {
        assert(r * r >= 0x2_0000_0000 * 0x2_0000_0000) by (nonlinear_arith)
            requires
                r >= 0x2_0000_0000,
        ;
    }
}

/// What the input and camera services report for one tick.
#[derive(Clone, Copy, Debug)]
pub struct CommandInput {
    /// The pointer's place in the world, in thousandths of a unit; `None`
    /// where there is no pointer, no active camera, or the pointer's ray
    /// misses the plane of the world.
    pub pointer: Option<[i32; 2]>,
    /// Whether the primary button is held.
    pub button_down: bool,
}

/// Whether `point` lies strictly inside the sprite of the given size centred on the transform.
pub open spec fn inside(transform: Transform, size: Sprite, point: [i32; 2]) -> bool {
    &&& 2 * point[0] > 2 * transform.x - size.width
    &&& 2 * point[0] < 2 * transform.x + size.width
    &&& 2 * point[1] > 2 * transform.y - size.height
    &&& 2 * point[1] < 2 * transform.y + size.height
}

/// Whether a click at `point` hits the entity: a unit with a place and a
/// sprite of known size under the point.
pub open spec fn hit(c: Components, sheets: SpriteSheets, point: [i32; 2]) -> bool {
    &&& c.sprite matches Some(render)
    &&& c.npc is Some
    &&& c.transform matches Some(transform)
    &&& sheets.size_of(render) matches Some(size)
    &&& inside(transform, size, point)
}

/// Whether the slot holds one of the player's units that a click at `point` hits.
pub open spec fn hits_own(slot: Option<Components>, sheets: SpriteSheets, point: [i32; 2]) -> bool {
    slot matches Some(c) && hit(c, sheets, point) && c.player_controlled is Some
}

/// Whether the slot holds a unit not the player's that a click at `point` hits.
pub open spec fn hits_other(slot: Option<Components>, sheets: SpriteSheets, point: [i32; 2]) -> bool {
    slot matches Some(c) && hit(c, sheets, point) && c.player_controlled is None
}

/// The unit not the player's that a click at `point` picks among the first
/// `n` entities: where sprites overlap, the one created last.
pub open spec fn clicked_other(
    store: Seq<Option<Components>>,
    sheets: SpriteSheets,
    point: [i32; 2],
    n: int,
) -> Option<Entity>
    decreases n,
{
    if n <= 0 {
        None
    } else if hits_other(store[n - 1], sheets, point) {
        Some(Entity { id: (n - 1) as usize })
    } else {
        clicked_other(store, sheets, point, n - 1)
    }
}

/// Whether a click at `point` hits one of the player's units.
pub open spec fn clicked_own(store: Seq<Option<Components>>, sheets: SpriteSheets, point: [i32; 2]) -> bool {
    exists|i: int| 0 <= i < store.len() && hits_own(#[trigger] store[i], sheets, point)
}

/// Whether the command pass gives orders to an entity: a selected unit that has a place and can target.
pub open spec fn commanded(c: Components) -> bool {
    c.npc matches Some(npc) && npc.selected && c.can_target is Some && c.transform is Some
}

/// Where a move order for a click at `point` sends a unit.
pub open spec fn destination(point: [i32; 2]) -> [i32; 2] {
    [point[0], clamp_i32(point[1] + CLICK_LIFT) as i32]
}

/// One entity after a click at `point` that picked `target` and, if it
/// picked none, may (`should_move`) be a move order.
///
/// A selected unit takes the target. Without a target it drops the one it
/// had and heads for the destination, unless the click was on one of the
/// player's own units: then nothing changes.
pub open spec fn ordered(c: Components, target: Option<Entity>, should_move: bool, point: [i32; 2]) -> Components {
    if !commanded(c) {
        c
    } else if target is Some {
        Components { can_target: Some(CanTarget { target }), ..c }
    } else if should_move {
        let npc = c.npc->0;
        let transform = c.transform->0;
        let to = destination(point);
        Components {
            can_target: Some(CanTarget { target: None }),
            npc: Some(
                Npc {
                    velocity: velocity_toward([transform.x, transform.y], to, npc.move_speed),
                    move_coords: to,
                    ..npc
                },
            ),
            ..c
        }
    } else {
        c
    }
}

/// One slot of the store after a click at `point`.
pub open spec fn ordered_slot(
    store: Seq<Option<Components>>,
    sheets: SpriteSheets,
    point: [i32; 2],
    slot: Option<Components>,
) -> Option<Components> {
    match slot {
        Some(c) => Some(
            ordered(
                c,
                clicked_other(store, sheets, point, store.len() as int),
                !clicked_own(store, sheets, point),
                point,
            ),
        ),
        None => None,
    }
}

/// The store after a click at `point`.
pub open spec fn command_pass(store: Seq<Option<Components>>, sheets: SpriteSheets, point: [i32; 2]) -> Seq<
    Option<Components>,
> {
    Seq::new(store.len(), |i: int| ordered_slot(store, sheets, point, store[i]))
}

/// Whether a click at `point` hits the entity.
pub fn is_hit(c: &Components, sheets: &SpriteSheets, point: [i32; 2]) -> (b: bool)
    ensures
        b == hit(*c, *sheets, point),
{
    match (c.sprite, c.npc, c.transform) {
        (Some(render), Some(_), Some(transform)) => {
            match sheets.sprite_size(&render) {
                Some(sprite) => {
                    let px: i64 = 2 * (point[0] as i64);
                    let py: i64 = 2 * (point[1] as i64);
                    let cx: i64 = 2 * (transform.x as i64);
                    let cy: i64 = 2 * (transform.y as i64);
                    let (min_x, max_x, min_y, max_y) = {
                        (
                            cx - sprite.width as i64,
                            cx + sprite.width as i64,
                            cy - sprite.height as i64,
                            cy + sprite.height as i64,
                        )
                    };
                    px > min_x && px < max_x && py > min_y && py < max_y
                },
                None => false,
            }
        },
        _ => false,
    }
}

/// Gives one entity its orders after a click at `point`.
pub fn order_unit(c: &mut Components, target: Option<Entity>, should_move: bool, point: [i32; 2])
    ensures
        *final(c) == ordered(*old(c), target, should_move, point),
        old(c).wf() ==> final(c).wf(),
{
    let (mut npc, transform) = match (c.npc, c.can_target, c.transform) {
        (Some(n), Some(_), Some(t)) => (n, t),
        _ => { return ; },
    };
    if !npc.selected {
        return ;
    }
    match target {
        Some(_) => {
            c.can_target = Some(CanTarget { target });
        },
        None => {
            if should_move {
                let modified_y = saturate(point[1] as i64 + CLICK_LIFT as i64);
                let velocity = calc_velocity_vec(
                    [transform.x, transform.y],
                    [point[0], modified_y],
                    npc.move_speed,
                );
                c.can_target = Some(CanTarget { target: None });
                npc.velocity = velocity;
                npc.move_coords = [point[0], modified_y];
                c.npc = Some(npc);
            }
        },
    }
}

/// The command pass. It remembers whether the button was held, to tell the
/// moment of its release.
#[derive(Clone, Copy, Debug)]
pub struct CommandSystem {
    pub mouse_was_down: bool,
}

impl Default for CommandSystem {
    fn default() -> (s: CommandSystem)
        ensures
            !s.mouse_was_down,
    {
        CommandSystem { mouse_was_down: false }
    }
}

impl CommandSystem {
    /// Whether this tick is the one in which the held button is released over the world.
    pub open spec fn released(self, input: CommandInput) -> bool {
        input.pointer is Some && !input.button_down && self.mouse_was_down
    }

    /// The pass's memory of the button after a tick with the given input.
    pub open spec fn after(self, input: CommandInput) -> CommandSystem {
        if input.pointer is None {
            self
        } else {
            CommandSystem { mouse_was_down: input.button_down }
        }
    }

    /// Turns the release of the button into orders for the selected units.
    ///
    /// Without a pointer in the world the tick is skipped. While the button
    /// is held the pass only remembers that. On the tick of the release the
    /// click is tested against every unit's sprite: a unit not the player's
    /// that is hit becomes the target of every selected unit; if none is
    /// hit and the click is not on one of the player's own units, every
    /// selected unit drops its target and heads for the point clicked.
    pub fn run(&mut self, world: &mut World, input: &CommandInput, sheets: &SpriteSheets)
        ensures
            *final(self) == old(self).after(*input),
            final(world)@ == if old(self).released(*input) {
                command_pass(old(world)@, *sheets, input.pointer->0)
            } else {
                old(world)@
            },
            old(world).wf() ==> final(world).wf(),
    {
        let point = match input.pointer {
            Some(p) => p,
            None => { return ; },
        };
        if input.button_down {
            self.mouse_was_down = true;
            return ;
        }
        if !self.mouse_was_down {
            return ;
        }
        self.mouse_was_down = false;
        let n = world.len();
        let mut target: Option<Entity> = None;
        let mut should_move = true;
        let mut i: usize = 0;
        while i < n
            invariant
                n == world@.len(),
                world@ == old(world)@,
                i <= n,
                target == clicked_other(world@, *sheets, point, i as int),
                should_move == !(exists|j: int|
                    0 <= j < i && hits_own(#[trigger] world@[j], *sheets, point)),
            decreases n - i,
        {
            let entity = Entity { id: i };
            match world.get(entity) {
                Some(c) => {
                    if is_hit(&c, sheets, point) {
                        if c.player_controlled.is_some() {
                            should_move = false;
                        } else {
                            target = Some(entity);
                        }
                    }
                },
                None => {},
            }
            i += 1;
        }
        let mut k: usize = 0;
        while k < n
            invariant
                n == world@.len(),
                n == old(world)@.len(),
                k <= n,
                old(world).wf() ==> world.wf(),
                forall|j: int|
                    0 <= j < k ==> #[trigger] world@[j] == (match old(world)@[j] {
                        Some(c) => Some(ordered(c, target, should_move, point)),
                        None => None,
                    }),
                forall|j: int| k <= j < n ==> #[trigger] world@[j] == old(world)@[j],
            decreases n - k,
        {
            let entity = Entity { id: k };
            match world.get(entity) {
                Some(c) => {
                    let mut c = c;
                    order_unit(&mut c, target, should_move, point);
                    world.update(entity, c);
                },
                None => {},
            }
            k += 1;
        }
    }
}

} // verus!
