//! Scenery: entities that stand in the dungeon and do nothing.

use crate::components::{Layered, SpriteRender, SpriteSheetId, Transform};
use crate::components::animated::{Animation, IdleAnimation};
use crate::world::{Components, Entity, World};
use vstd::prelude::*;

verus! {

/// Marks a camp fire, the anchor of an enemy group.
#[derive(Clone, Copy, Debug)]
pub struct CampFire;

/// Depth at which scenery is drawn, in thousandths.
pub const SCENERY_DEPTH: i32 = 750;

/// Everything a camp fire carries: it is drawn at half size and flickers through four frames.
pub open spec fn campfire_components(sheet: SpriteSheetId, coords: [i32; 2]) -> Components {
    Components {
        sprite: Some(SpriteRender { sprite_sheet: sheet, sprite_number: 0 }),
        transform: Some(
            Transform {
                x: coords[0],
                y: coords[1],
                z: SCENERY_DEPTH,
                scale_x: 500,
                scale_y: 500,
                scale_z: 0,
            },
        ),
        idle: Some(IdleAnimation { anim: Animation::fresh(0, 4, 200) }),
        layered: Some(Layered),
        camp_fire: Some(CampFire),
        ..Components::nothing()
    }
}

/// Puts a camp fire into the world at `coords` and returns its handle.
pub fn initialize_campfire(
    world: &mut World,
    sprite_sheet_handle: SpriteSheetId,
    coords: [i32; 2],
) -> (entity: Entity)
    ensures
        entity.id == old(world)@.len(),
        final(world)@ == old(world)@.push(
            Some(campfire_components(sprite_sheet_handle, coords)),
        ),
        old(world).wf() ==> final(world).wf(),
{
    let transform = Transform {
        x: coords[0],
        y: coords[1],
        z: SCENERY_DEPTH,
        scale_x: 500,
        scale_y: 500,
        scale_z: 0,
    };
    let render = SpriteRender { sprite_sheet: sprite_sheet_handle, sprite_number: 0 };
    world.create_entity(
        Components {
            sprite: Some(render),
            transform: Some(transform),
            idle: Some(IdleAnimation::new(0, 4, 200)),
            layered: Some(Layered),
            camp_fire: Some(CampFire),
            ..Components::empty()
        },
    )
}

} // verus!
