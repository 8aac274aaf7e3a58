//! Enemy targeting: every enemy picks the nearest of the player's units that it can see.

use crate::components::npc::CanTarget;
use crate::systems::movement::{distance_squared, point_distance_squared, within_reach};
use crate::world::{Components, Entity, World};
use vstd::prelude::*;

verus! {

/// Whether the targeting pass looks at an entity: an enemy with a place that can target.
pub open spec fn hunts(c: Components) -> bool {
    c.can_target is Some && c.enemy is Some && c.transform is Some
}

/// The place of the entity in a slot if it is one of the player's units, else `None`.
pub open spec fn prey_at(slot: Option<Components>) -> Option<[i32; 2]> {
    match slot {
        Some(c) => if c.player_controlled is Some && c.transform is Some {
            Some([c.transform->0.x, c.transform->0.y])
        } else {
            None
        },
        None => None,
    }
}

/// Whether the entity in a slot is one of the player's units within `radius` of `from`.
pub open spec fn in_sight(slot: Option<Components>, from: [i32; 2], radius: i32) -> bool {
    prey_at(slot) matches Some(at) && within_reach(from, at, radius as int)
}

/// Square of the distance from `from` to the unit in a slot that holds one of the player's units.
pub open spec fn range_squared(slot: Option<Components>, from: [i32; 2]) -> int {
    distance_squared(from, prey_at(slot)->0)
}

/// The nearest of the player's units among the first `n` entities that lies
/// within `radius` of `from`; of several at the same distance, the first.
pub open spec fn nearest(store: Seq<Option<Components>>, from: [i32; 2], radius: i32, n: int) -> Option<
    Entity,
>
    decreases n,
{
    if n <= 0 {
        None
    } else {
        let before = nearest(store, from, radius, n - 1);
        if !in_sight(store[n - 1], from, radius) {
            before
        } else if before matches Some(best) && range_squared(store[best.id as int], from)
            <= range_squared(store[n - 1], from) {
            before
        } else {
            Some(Entity { id: (n - 1) as usize })
        }
    }
}

/// One entity after the targeting pass: an enemy takes the nearest unit in
/// sight as its target, and keeps the target it had when none is in sight.
pub open spec fn targeted(store: Seq<Option<Components>>, c: Components) -> Components {
    if !hunts(c) {
        c
    } else {
        let transform = c.transform->0;
        match nearest(store, [transform.x, transform.y], c.enemy->0.fov_radius, store.len() as int) {
            Some(e) => Components { can_target: Some(CanTarget { target: Some(e) }), ..c },
            None => c,
        }
    }
}

/// One slot of the store after the targeting pass.
pub open spec fn targeted_slot(store: Seq<Option<Components>>, slot: Option<Components>) -> Option<Components> {
    match slot {
        Some(c) => Some(targeted(store, c)),
        None => None,
    }
}

/// The store after the targeting pass.
pub open spec fn targeting_pass(store: Seq<Option<Components>>) -> Seq<Option<Components>> {
    Seq::new(store.len(), |i: int| targeted_slot(store, store[i]))
}

/// What `nearest` picks is the nearest unit in sight, and the first of those at its distance.
///
/// If no unit among the first `n` entities is in sight the answer is `None`.
/// Otherwise it is a unit in sight; no unit in sight is nearer; and every
/// unit in sight at the same distance comes later in the store.
pub proof fn lemma_nearest_is_nearest(store: Seq<Option<Components>>, from: [i32; 2], radius: i32, n: int)
    requires
        0 <= n <= store.len(),
        n <= usize::MAX,
    ensures
        nearest(store, from, radius, n) is None <==> (forall|j: int|
            0 <= j < n ==> !in_sight(#[trigger] store[j], from, radius)),
        nearest(store, from, radius, n) matches Some(best) ==> {
            &&& best.id < n
            &&& in_sight(store[best.id as int], from, radius)
            &&& forall|j: int|
                0 <= j < n && in_sight(#[trigger] store[j], from, radius) ==> {
                    &&& range_squared(store[best.id as int], from) <= range_squared(store[j], from)
                    &&& range_squared(store[best.id as int], from) == range_squared(store[j], from)
                        ==> best.id <= j
                }
        },
    decreases n,
{
    if n > 0 {
        lemma_nearest_is_nearest(store, from, radius, n - 1);
    }
}

/// An enemy with none of the player's units in sight keeps the target it had.
pub proof fn lemma_nobody_in_sight_keeps_target(store: Seq<Option<Components>>, c: Components)
    requires
        store.len() <= usize::MAX,
        hunts(c),
        forall|j: int|
            0 <= j < store.len() ==> !in_sight(
                #[trigger] store[j],
                [c.transform->0.x, c.transform->0.y],
                c.enemy->0.fov_radius,
            ),
    ensures
        targeted(store, c) == c,
{
    lemma_nearest_is_nearest(
        store,
        [c.transform->0.x, c.transform->0.y],
        c.enemy->0.fov_radius,
        store.len() as int,
    );
}

/// An enemy with one of the player's units in sight takes as its target a
/// unit in sight than which none is nearer.
pub proof fn lemma_target_is_nearest(store: Seq<Option<Components>>, c: Components, seen: int)
    requires
        store.len() <= usize::MAX,
        hunts(c),
        0 <= seen < store.len(),
        in_sight(store[seen], [c.transform->0.x, c.transform->0.y], c.enemy->0.fov_radius),
    ensures
        targeted(store, c).can_target->0.target matches Some(e) && e.id < store.len() && in_sight(
            store[e.id as int],
            [c.transform->0.x, c.transform->0.y],
            c.enemy->0.fov_radius,
        ) && range_squared(store[e.id as int], [c.transform->0.x, c.transform->0.y])
            <= range_squared(store[seen], [c.transform->0.x, c.transform->0.y]),
{
    lemma_nearest_is_nearest(
        store,
        [c.transform->0.x, c.transform->0.y],
        c.enemy->0.fov_radius,
        store.len() as int,
    );
}

/// Stores that hold the player's units at the same places pick the same target.
pub proof fn lemma_nearest_of_same_prey(
    a: Seq<Option<Components>>,
    b: Seq<Option<Components>>,
    from: [i32; 2],
    radius: i32,
    n: int,
)
    requires
        0 <= n <= a.len(),
        n <= usize::MAX,
        a.len() == b.len(),
        forall|j: int| 0 <= j < a.len() ==> prey_at(#[trigger] a[j]) == prey_at(b[j]),
    ensures
        nearest(a, from, radius, n) == nearest(b, from, radius, n),
    decreases n,
{
    if n > 0 {
        lemma_nearest_of_same_prey(a, b, from, radius, n - 1);
        lemma_nearest_is_nearest(a, from, radius, n - 1);
    }
}

/// Finds the nearest of the player's units within `radius` of `from`; of
/// several at the same distance, the one created first.
pub fn find_nearest(world: &World, from: [i32; 2], radius: i32) -> (found: Option<Entity>)
    ensures
        found == nearest(world@, from, radius, world@.len() as int),
{
    let n = world.len();
    let mut closest: Option<Entity> = None;
    let mut closest_distance: u128 = 0;
    if radius < 0 {
        proof {
            lemma_nearest_is_nearest(world@, from, radius, n as int);
        }
        return None;
    }
    let reach: u128 = radius as u128;
    assert(reach * reach <= 0x3fff_ffff_0000_0001) by (nonlinear_arith)
        requires
            0 <= reach <= 0x7fff_ffff,
    ;
    let reach_squared = reach * reach;
    let mut i: usize = 0;
    while i < n
        invariant
            n == world@.len(),
            i <= n,
            0 <= radius,
            reach_squared == radius * radius,
            closest == nearest(world@, from, radius, i as int),
            closest matches Some(best) ==> best.id < i && closest_distance == range_squared(
                world@[best.id as int],
                from,
            ),
        decreases n - i,
    {
        proof {
            lemma_nearest_is_nearest(world@, from, radius, i as int);
        }
        let entity = Entity { id: i };
        match world.get(entity) {
            Some(c) => {
                match (c.player_controlled, c.transform) {
                    (Some(_), Some(transform)) => {
                        let distance = point_distance_squared(from, [transform.x, transform.y]);
                        if distance <= reach_squared {
                            let nearer = match closest {
                                Some(_) => distance < closest_distance,
                                None => true,
                            };
                            if nearer {
                                closest = Some(entity);
                                closest_distance = distance;
                            }
                        }
                    },
                    _ => {},
                }
            },
            None => {},
        }
        i += 1;
    }
    closest
}

/// The enemy targeting pass.
#[derive(Clone, Copy, Debug)]
pub struct EnemyTargetingSystem;

impl EnemyTargetingSystem {
    /// Gives every enemy the nearest of the player's units within its field
    /// of view as its target.
    ///
    /// The pass runs every tick and overwrites whatever target an enemy
    /// had. An enemy with no unit in sight keeps its target, even one that
    /// has since left its field of view or the world.
    pub fn run(&mut self, world: &mut World)
        ensures
            final(world)@ == targeting_pass(old(world)@),
            old(world).wf() ==> final(world).wf(),
    {
        let n = world.len();
        let mut i: usize = 0;
        while i < n
            invariant
                n == world@.len(),
                n == old(world)@.len(),
                i <= n,
                old(world).wf() ==> world.wf(),
                forall|j: int|
                    0 <= j < i ==> #[trigger] world@[j] == targeted_slot(old(world)@, old(world)@[j]),
                forall|j: int| i <= j < n ==> #[trigger] world@[j] == old(world)@[j],
                forall|j: int| 0 <= j < n ==> prey_at(#[trigger] world@[j]) == prey_at(old(world)@[j]),
            decreases n - i,
        {
            let entity = Entity { id: i };
            match world.get(entity) {
                Some(c) => {
                    match (c.can_target, c.enemy, c.transform) {
                        (Some(_), Some(enemy), Some(transform)) => {
                            let from = [transform.x, transform.y];
                            let found = find_nearest(world, from, enemy.fov_radius);
                            proof {
                                lemma_nearest_of_same_prey(
                                    world@,
                                    old(world)@,
                                    from,
                                    enemy.fov_radius,
                                    n as int,
                                );
                            }
                            match found {
                                Some(_) => {
                                    let mut c = c;
                                    c.can_target = Some(CanTarget { target: found });
                                    world.update(entity, c);
                                },
                                None => {},
                            }
                        },
                        _ => {},
                    }
                },
                None => {},
            }
            i += 1;
        }
    }
}

} // verus!
