//! Combat: units in reach of their target hit it, the others close in; and
//! health bars follow the health of the units they belong to.

use crate::components::Transform;
use crate::components::animated::FightAnimation;
use crate::components::npc::{Attackable, CanTarget, Npc};
use crate::systems::commands::{calc_velocity_vec, velocity_toward};
use crate::systems::movement::{point_within_reach, within_reach};
use crate::units::{clamp_i32, mul_div, saturate, trunc_div};
use crate::world::{all_wf, lookup, Components, Entity, Time, World};
use vstd::prelude::*;

verus! {

/// Length of a full health bar, in thousandths.
pub const FULL_BAR: i32 = 1000;

/// The fraction of its health that a unit has left, in thousandths, rounded toward zero.
pub open spec fn health_ratio(attackable: Attackable) -> i32 {
    clamp_i32(trunc_div(attackable.health * FULL_BAR, attackable.total_health as int)) as i32
}

/// Whether an entity is a health bar with a place whose parent is alive and can be hurt.
pub open spec fn shows_health(store: Seq<Option<Components>>, c: Components) -> bool {
    &&& c.health_bar is Some
    &&& c.transform is Some
    &&& c.parent is Some
    &&& lookup(store, c.parent->0.entity) is Some
    &&& lookup(store, c.parent->0.entity)->0.attackable is Some
}

/// One entity after the health bar pass.
///
/// A health bar whose parent is alive and can be hurt is as long as the
/// fraction of health that the parent has left. Any other entity, and a bar
/// without such a parent, is left as it is.
pub open spec fn measured(store: Seq<Option<Components>>, c: Components) -> Components {
    if shows_health(store, c) {
        let parent = lookup(store, c.parent->0.entity)->0;
        Components {
            transform: Some(
                Transform {
                    scale_x: health_ratio(parent.attackable->0),
                    scale_y: 1000,
                    scale_z: 1000,
                    ..c.transform->0
                },
            ),
            ..c
        }
    } else {
        c
    }
}

/// One slot of the store after the health bar pass.
pub open spec fn measured_slot(store: Seq<Option<Components>>, slot: Option<Components>) -> Option<Components> {
    match slot {
        Some(c) => Some(measured(store, c)),
        None => None,
    }
}

/// The store after the health bar pass.
pub open spec fn health_bar_pass(store: Seq<Option<Components>>) -> Seq<Option<Components>> {
    Seq::new(store.len(), |i: int| measured_slot(store, store[i]))
}

/// What a slot says of the health of the entity in it.
pub open spec fn health_of(slot: Option<Components>) -> Option<Attackable> {
    match slot {
        Some(c) => c.attackable,
        None => None,
    }
}

/// The health bar pass.
#[derive(Clone, Copy, Debug)]
pub struct HealthBarSystem;

impl HealthBarSystem {
    /// Sets the length of every health bar to the fraction of health that its unit has left.
    pub fn run(&mut self, world: &mut World)
        requires
            old(world).wf(),
        ensures
            final(world)@ == health_bar_pass(old(world)@),
            final(world).wf(),
    {
        let n = world.len();
        let mut i: usize = 0;
        while i < n
            invariant
                n == world@.len(),
                n == old(world)@.len(),
                i <= n,
                world.wf(),
                forall|j: int|
                    0 <= j < i ==> #[trigger] world@[j] == measured_slot(old(world)@, old(world)@[j]),
                forall|j: int| i <= j < n ==> #[trigger] world@[j] == old(world)@[j],
                forall|j: int| 0 <= j < n ==> health_of(#[trigger] world@[j]) == health_of(old(world)@[j]),
            decreases n - i,
        {
            let entity = Entity { id: i };
            match world.get(entity) {
                Some(c) => {
                    match (c.health_bar, c.transform, c.parent) {
                        (Some(_), Some(transform), Some(parent)) => {
                            // Does the parent still exist, and can it be hurt?
                            let parent_entity = parent.entity;
                            match world.get(parent_entity) {
                                Some(p) => {
                                    match p.attackable {
                                        Some(attackable) => {
                                            let health_ratio = mul_div(
                                                attackable.health as i64,
                                                FULL_BAR as i64,
                                                attackable.total_health as i64,
                                            );
                                            let mut transform = transform;
                                            transform.scale_x = health_ratio;
                                            transform.scale_y = 1000;
                                            transform.scale_z = 1000;
                                            let mut c = c;
                                            c.transform = Some(transform);
                                            world.update(entity, c);
                                        },
                                        None => {},
                                    }
                                },
                                None => {},
                            }
                        },
                        _ => {},
                    }
                },
                None => {},
            }
            i += 1;
        }
    }
}

/// Whether the combat pass looks at an entity: a unit with a place that can
/// attack and target and has a fight cycle and a sprite.
pub open spec fn fights(c: Components) -> bool {
    &&& c.npc is Some
    &&& c.attacker is Some
    &&& c.can_target is Some
    &&& c.transform is Some
    &&& c.fight is Some
    &&& c.sprite is Some
}

/// The entity that a fighter is after, if that entity is alive, can be hurt and has a place.
pub open spec fn quarry(store: Seq<Option<Components>>, c: Components) -> Option<Entity> {
    if fights(c) && c.can_target->0.target is Some {
        let target = c.can_target->0.target->0;
        match lookup(store, target) {
            Some(t) => if t.attackable is Some && t.transform is Some {
                Some(target)
            } else {
                None
            },
            None => None,
        }
    } else {
        None
    }
}

/// Whether a hit falls on the tick with the given number: every `attack_speed` ticks.
pub open spec fn attack_tick(frame_number: u64, attack_speed: u64) -> bool {
    frame_number % attack_speed == 0
}

/// Health after a blow.
pub open spec fn health_after(health: i32, attack: i32) -> i32 {
    clamp_i32(health - attack) as i32
}

/// The store after the entity `target` took a blow: it has that much less
/// health, and with none left it is gone.
pub open spec fn struck(store: Seq<Option<Components>>, target: Entity, attack: i32) -> Seq<Option<Components>> {
    let t = store[target.id as int]->0;
    let attackable = t.attackable->0;
    let left = health_after(attackable.health, attack);
    if left <= 0 {
        store.update(target.id as int, None)
    } else {
        store.update(
            target.id as int,
            Some(Components { attackable: Some(Attackable { health: left, ..attackable }), ..t }),
        )
    }
}

/// Where a unit at `from` with the given reach goes to get at a target at
/// `at`: three quarters of its reach short of the target, on the side it comes from.
pub open spec fn approach(from: [i32; 2], at: [i32; 2], attack_range: i32) -> [i32; 2] {
    let gap = trunc_div(3 * attack_range, 4);
    if at[0] > from[0] {
        [clamp_i32(at[0] - gap) as i32, at[1]]
    } else {
        [clamp_i32(at[0] + gap) as i32, at[1]]
    }
}

/// A fighter whose target is in reach: its fight cycle advances, and on the
/// tick of a kill it lets go of its target.
pub open spec fn striking(c: Components, delta: u32, kills: bool) -> Components {
    let anim = c.fight->0.anim;
    Components {
        fight: Some(FightAnimation { anim: anim.animated(delta) }),
        sprite: Some(anim.animated_sprite(delta, c.sprite->0)),
        can_target: if kills {
            Some(CanTarget { target: None })
        } else {
            c.can_target
        },
        ..c
    }
}

/// A fighter whose target is out of reach: its fight cycle is reset and it heads for the target.
pub open spec fn closing_in(c: Components, at: [i32; 2]) -> Components {
    let npc = c.npc->0;
    let transform = c.transform->0;
    let from = [transform.x, transform.y];
    let dest = approach(from, at, c.attacker->0.attack_range);
    Components {
        fight: Some(FightAnimation { anim: c.fight->0.anim.rewound() }),
        npc: Some(
            Npc { velocity: velocity_toward(from, dest, npc.move_speed), move_coords: dest, ..npc },
        ),
        ..c
    }
}

/// The store after the entity in slot `i` had its turn in the combat pass.
///
/// An entity that does not fight, or whose target is gone or cannot be
/// hurt, changes nothing. A fighter in reach of its target advances its
/// fight cycle and, on an attack tick, strikes; a target left without
/// health is removed at once and the fighter lets go of it. A fighter out
/// of reach resets its fight cycle and heads for its target.
pub open spec fn combat_turn(store: Seq<Option<Components>>, i: int, time: Time) -> Seq<Option<Components>> {
    if 0 <= i < store.len() && store[i] is Some && quarry(store, store[i]->0) is Some {
        let c = store[i]->0;
        let target = quarry(store, c)->0;
        let t = store[target.id as int]->0;
        let attacker = c.attacker->0;
        let transform = c.transform->0;
        let from = [transform.x, transform.y];
        let at = [t.transform->0.x, t.transform->0.y];
        if within_reach(from, at, attacker.attack_range as int) {
            if attack_tick(time.frame_number, attacker.attack_speed) {
                let kills = health_after(t.attackable->0.health, attacker.attack) <= 0;
                struck(store.update(i, Some(striking(c, time.delta, kills))), target, attacker.attack)
            } else {
                store.update(i, Some(striking(c, time.delta, false)))
            }
        } else {
            store.update(i, Some(closing_in(c, at)))
        }
    } else {
        store
    }
}

/// The store after the first `n` entities had their turn, in the order of their creation.
pub open spec fn combat_pass(store: Seq<Option<Components>>, time: Time, n: int) -> Seq<Option<Components>>
    decreases n,
{
    if n <= 0 {
        store
    } else {
        combat_turn(combat_pass(store, time, n - 1), n - 1, time)
    }
}

/// A unit that takes a blow is removed exactly when the blow leaves it no
/// health; otherwise it stays, with the health that is left and nothing else changed.
pub proof fn lemma_struck(store: Seq<Option<Components>>, target: Entity, attack: i32)
    requires
        lookup(store, target) matches Some(t) && t.attackable is Some,
    ensures
        struck(store, target, attack).len() == store.len(),
        lookup(struck(store, target, attack), target) is None <==> health_after(
            store[target.id as int]->0.attackable->0.health,
            attack,
        ) <= 0,
        lookup(struck(store, target, attack), target) matches Some(after) ==> after.attackable
            == Some(
            Attackable {
                health: health_after(store[target.id as int]->0.attackable->0.health, attack),
                total_health: store[target.id as int]->0.attackable->0.total_health,
            },
        ),
        forall|j: int|
            0 <= j < store.len() && j != target.id ==> struck(store, target, attack)[j] == store[j],
{
}

/// The fight cycle advances only within reach: the turn of a fighter whose
/// target is out of reach puts its fight cycle back to the start, leaves
/// its sprite alone and changes no other entity.
pub proof fn lemma_fight_only_in_reach(store: Seq<Option<Components>>, i: int, time: Time)
    requires
        0 <= i < store.len(),
        store[i] is Some,
        quarry(store, store[i]->0) matches Some(target) && !within_reach(
            [store[i]->0.transform->0.x, store[i]->0.transform->0.y],
            [store[target.id as int]->0.transform->0.x, store[target.id as int]->0.transform->0.y],
            store[i]->0.attacker->0.attack_range as int,
        ),
    ensures
        combat_turn(store, i, time).len() == store.len(),
        combat_turn(store, i, time)[i] matches Some(after) && after.fight->0.anim.at_start()
            && after.sprite == store[i]->0.sprite,
        forall|j: int| 0 <= j < store.len() && j != i ==> combat_turn(store, i, time)[j] == store[j],
{
}

/// Where a unit at `from` with the given reach goes to get at a target at `at`.
pub fn approach_point(from: [i32; 2], at: [i32; 2], attack_range: i32) -> (dest: [i32; 2])
    ensures
        dest == approach(from, at, attack_range),
{
    let gap: i64 = (3 * (attack_range as i64)) / 4;
    if at[0] > from[0] {
        [saturate(at[0] as i64 - gap), at[1]]
    } else {
        [saturate(at[0] as i64 + gap), at[1]]
    }
}

/// A turn of the combat pass leaves the number of slots as it is and keeps the store well formed.
pub proof fn lemma_combat_turn_keeps_wf(store: Seq<Option<Components>>, i: int, time: Time)
    requires
        all_wf(store),
    ensures
        all_wf(combat_turn(store, i, time)),
        combat_turn(store, i, time).len() == store.len(),
{
    if 0 <= i < store.len() && store[i] is Some && quarry(store, store[i]->0) is Some {
        let c = store[i]->0;
        let target = quarry(store, c)->0;
        // The fighter's cycle stays well formed as it advances, and a blow
        // that is not negative leaves no more health than there was.
        crate::components::animated::lemma_advance_then_zero(c.fight->0.anim, time.delta);
        let after = combat_turn(store, i, time);
        assert forall|j: int| 0 <= j < after.len() implies (#[trigger] after[j] matches Some(x)
            ==> x.wf()) by {
            assert(store[j] matches Some(x) ==> x.wf());
            assert(store[target.id as int]->0.wf());
        }
    }
}

/// The combat pass leaves the number of slots as it is and keeps the store well formed.
pub proof fn lemma_combat_pass_keeps_wf(store: Seq<Option<Components>>, time: Time, n: int)
    requires
        all_wf(store),
    ensures
        all_wf(combat_pass(store, time, n)),
        combat_pass(store, time, n).len() == store.len(),
    decreases n,
{
    if n > 0 {
        lemma_combat_pass_keeps_wf(store, time, n - 1);
        lemma_combat_turn_keeps_wf(combat_pass(store, time, n - 1), n - 1, time);
    }
}

/// Lets one entity have its turn in the combat pass.
pub fn take_turn(world: &mut World, entity: Entity, time: &Time)
    requires
        old(world).wf(),
    ensures
        final(world)@ == combat_turn(old(world)@, entity.id as int, *time),
        final(world).wf(),
{
    proof {
        lemma_combat_turn_keeps_wf(old(world)@, entity.id as int, *time);
    }
    let mut c = match world.get(entity) {
        Some(c) => c,
        None => { return ; },
    };
    let (mut npc, attacker, targeter, transform, mut anim, mut render) = match (
        c.npc,
        c.attacker,
        c.can_target,
        c.transform,
        c.fight,
        c.sprite,
    ) {
        (Some(n), Some(a), Some(ct), Some(t), Some(f), Some(r)) => (n, a, ct, t, f, r),
        _ => { return ; },
    };
    let target = match targeter.target {
        Some(target) => target,
        None => { return ; },
    };
    // Is the target still there, can it be hurt, and does it have a place?
    let mut t = match world.get(target) {
        Some(t) => t,
        None => { return ; },
    };
    let (mut attackable, t_transform) = match (t.attackable, t.transform) {
        (Some(a), Some(tt)) => (a, tt),
        _ => { return ; },
    };
    let from = [transform.x, transform.y];
    let at = [t_transform.x, t_transform.y];
    if point_within_reach(from, at, attacker.attack_range) {
        anim.anim.animate(time.delta, &mut render);
        c.fight = Some(anim);
        c.sprite = Some(render);
        if time.frame_number % attacker.attack_speed == 0 {
            let left = saturate(attackable.health as i64 - attacker.attack as i64);
            if left <= 0 {
                c.can_target = Some(CanTarget { target: None });
            }
            world.update(entity, c);
            if left <= 0 {
                world.delete(target);
            } else {
                // The fighter may be its own target: take what the store holds now.
                let mut t = match world.get(target) {
                    Some(t) => t,
                    None => { return ; },
                };
                attackable.health = left;
                t.attackable = Some(attackable);
                world.update(target, t);
            }
        } else {
            world.update(entity, c);
        }
    } else {
        anim.anim.reset();
        // The target is out of reach: move toward it until it is within reach.
        let dest = approach_point(from, at, attacker.attack_range);
        let velocity = calc_velocity_vec(from, dest, npc.move_speed);
        npc.velocity = velocity;
        npc.move_coords = dest;
        c.fight = Some(anim);
        c.npc = Some(npc);
        world.update(entity, c);
    }
}

/// The combat pass.
#[derive(Clone, Copy, Debug)]
pub struct CombatSystem;

impl CombatSystem {
    /// Lets every fighter have its turn, in the order of creation.
    ///
    /// Each turn sees what the turns before it did: a unit killed earlier in
    /// the tick is gone for every fighter that comes later, whose target
    /// handle then finds nothing and whose turn changes nothing.
    pub fn run(&mut self, world: &mut World, time: &Time)
        requires
            old(world).wf(),
        ensures
            final(world)@ == combat_pass(old(world)@, *time, old(world)@.len() as int),
            final(world)@.len() == old(world)@.len(),
            final(world).wf(),
    {
        let n = world.len();
        let mut i: usize = 0;
        while i < n
            invariant
                n == old(world)@.len(),
                i <= n,
                world.wf(),
                world@ == combat_pass(old(world)@, *time, i as int),
                world@.len() == n,
            decreases n - i,
        {
            proof {
                lemma_combat_turn_keeps_wf(world@, i as int, *time);
            }
            take_turn(world, Entity { id: i }, time);
            i += 1;
        }
    }
}

} // verus!
