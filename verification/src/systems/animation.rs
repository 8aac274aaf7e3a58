//! Idle animation: what stands still breathes.

use crate::components::animated::IdleAnimation;
use crate::world::{Components, Entity, Time, World};
use vstd::prelude::*;

verus! {

/// Whether the idle pass looks at an entity: it has a sprite and an idle cycle.
pub open spec fn idles(c: Components) -> bool {
    c.sprite is Some && c.idle is Some
}

/// One entity after the idle pass.
///
/// A unit at rest and an entity that cannot move at all advance their idle
/// cycle. A unit on the move does not: its idle cycle is put back to the
/// start, so that it begins there when the unit next stops.
pub open spec fn idled(c: Components, delta: u32) -> Components {
    if !idles(c) {
        c
    } else {
        let anim = c.idle->0.anim;
        if c.npc is None || c.npc->0.at_rest() {
            Components {
                idle: Some(IdleAnimation { anim: anim.animated(delta) }),
                sprite: Some(anim.animated_sprite(delta, c.sprite->0)),
                ..c
            }
        } else {
            Components { idle: Some(IdleAnimation { anim: anim.rewound() }), ..c }
        }
    }
}

/// One slot of the store after the idle pass.
pub open spec fn idled_slot(slot: Option<Components>, delta: u32) -> Option<Components> {
    match slot {
        Some(c) => Some(idled(c, delta)),
        None => None,
    }
}

/// The store after the idle pass.
pub open spec fn idle_pass(store: Seq<Option<Components>>, delta: u32) -> Seq<Option<Components>> {
    Seq::new(store.len(), |i: int| idled_slot(store[i], delta))
}

/// Advances or resets the idle cycle of one entity.
pub fn idle_entity(c: &mut Components, delta: u32)
    requires
        old(c).wf(),
    ensures
        *final(c) == idled(*old(c), delta),
        final(c).wf(),
{
    let (mut sprite_render, mut anim) = match (c.sprite, c.idle) {
        (Some(s), Some(a)) => (s, a),
        _ => { return ; },
    };
    if let Some(npc) = c.npc {
        if npc.is_at_rest() {
            anim.anim.animate(delta, &mut sprite_render);
        } else if !anim.anim.is_reset() {
            anim.anim.reset();
        }
    } else {
        anim.anim.animate(delta, &mut sprite_render);
    }
    c.sprite = Some(sprite_render);
    c.idle = Some(anim);
}

/// The idle animation pass.
#[derive(Clone, Copy, Debug)]
pub struct IdleAnimationSystem;

impl Default for IdleAnimationSystem {
    fn default() -> IdleAnimationSystem {
        IdleAnimationSystem
    }
}

impl IdleAnimationSystem {
    /// Advances the idle cycle of everything that stands still.
    pub fn run(&mut self, world: &mut World, time: &Time)
        requires
            old(world).wf(),
        ensures
            final(world)@ == idle_pass(old(world)@, time.delta),
            final(world).wf(),
    {
        let n = world.len();
        let delta = time.delta;
        let mut i: usize = 0;
        while i < n
            invariant
                n == world@.len(),
                n == old(world)@.len(),
                i <= n,
                world.wf(),
                forall|j: int| 0 <= j < i ==> #[trigger] world@[j] == idled_slot(old(world)@[j], delta),
                forall|j: int| i <= j < n ==> #[trigger] world@[j] == old(world)@[j],
            decreases n - i,
        {
            let entity = Entity { id: i };
            match world.get(entity) {
                Some(c) => {
                    let mut c = c;
                    idle_entity(&mut c, delta);
                    world.update(entity, c);
                },
                None => {},
            }
            i += 1;
        }
    }
}

/// The idle cycle advances only for what stands still: that of a unit on
/// the move is put back to its start, and its sprite is left alone.
pub proof fn lemma_idle_only_at_rest(c: Components, delta: u32)
    requires
        idles(c),
        c.npc is Some,
        !c.npc->0.at_rest(),
    ensures
        idled(c, delta).idle->0.anim.at_start(),
        idled(c, delta).sprite == c.sprite,
{
}

} // verus!
