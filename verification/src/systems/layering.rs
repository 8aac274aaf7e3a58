//! Layering: what stands lower on the screen is drawn in front.

use crate::components::Transform;
use crate::units::{trunc_div, UNIT};
use crate::ARENA_HEIGHT;
use crate::world::{Components, Entity, World};
use vstd::prelude::*;

verus! {

/// The arena's height in thousandths of a unit, times one thousand: the
/// dividend that gives a depth in thousandths from a height in thousandths.
pub const DEPTH_SCALE: i32 = ARENA_HEIGHT * UNIT * UNIT;

/// The draw depth for a vertical position: the arena's height divided by
/// the position, rounded toward zero. It grows without bound as the position
/// approaches zero; at zero it is the largest depth there is.
pub open spec fn layer_depth(y: i32) -> i32 {
    if y == 0 {
        i32::MAX
    } else {
        trunc_div(DEPTH_SCALE as int, y as int) as i32
    }
}

/// One entity after the layering pass: a layered entity with a place gets the depth of its height.
pub open spec fn layered(c: Components) -> Components {
    if c.layered is Some && c.transform is Some {
        let transform = c.transform->0;
        Components { transform: Some(Transform { z: layer_depth(transform.y), ..transform }), ..c }
    } else {
        c
    }
}

/// One slot of the store after the layering pass.
pub open spec fn layered_slot(slot: Option<Components>) -> Option<Components> {
    match slot {
        Some(c) => Some(layered(c)),
        None => None,
    }
}

/// The store after the layering pass.
pub open spec fn layering_pass(store: Seq<Option<Components>>) -> Seq<Option<Components>> {
    Seq::new(store.len(), |i: int| layered_slot(store[i]))
}

/// The draw depth for a vertical position.
pub fn depth_for(y: i32) -> (z: i32)
    ensures
        z == layer_depth(y),
{
    if y == 0 {
        i32::MAX
    } else if y > 0 {
        DEPTH_SCALE / y
    } else {
        let below: i64 = -(y as i64);
        let quotient: i64 = DEPTH_SCALE as i64 / below;
        assert(0 <= quotient <= 640_000_000) by (nonlinear_arith)
            requires
                quotient == 640_000_000int / (below as int),
                below >= 1,
        ;
        (-quotient) as i32
    }
}

/// Sets the draw depth of one entity.
pub fn layer_entity(c: &mut Components)
    ensures
        *final(c) == layered(*old(c)),
        old(c).wf() ==> final(c).wf(),
{
    match (c.layered, c.transform) {
        (Some(_), Some(transform)) => {
            let mut transform = transform;
            let y = transform.y;
            let new_z = depth_for(y);
            transform.z = new_z;
            c.transform = Some(transform);
        },
        _ => {},
    }
}

/// The layering pass.
#[derive(Clone, Copy, Debug)]
pub struct LayeringSystem;

impl LayeringSystem {
    /// Gives every layered entity the draw depth of its vertical position.
    pub fn run(&mut self, world: &mut World)
        ensures
            final(world)@ == layering_pass(old(world)@),
            old(world).wf() ==> final(world).wf(),
    {
        let n = world.len();
        let mut i: usize = 0;
        while i < n
            invariant
                n == world@.len(),
                n == old(world)@.len(),
                i <= n,
                old(world).wf() ==> world.wf(),
                forall|j: int| 0 <= j < i ==> #[trigger] world@[j] == layered_slot(old(world)@[j]),
                forall|j: int| i <= j < n ==> #[trigger] world@[j] == old(world)@[j],
            decreases n - i,
        {
            let entity = Entity { id: i };
            match world.get(entity) {
                Some(c) => {
                    let mut c = c;
                    layer_entity(&mut c);
                    world.update(entity, c);
                },
                None => {},
            }
            i += 1;
        }
    }
}

} // verus!
