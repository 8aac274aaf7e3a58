//! The units of the game and what they can do.

use crate::components::{Layered, SpriteRender, SpriteSheetId, Transform};
use crate::components::animated::{Animation, FightAnimation, IdleAnimation, WalkAnimation};
use crate::random::flip_coin;
use crate::world::{Components, Entity, Parent, World};
use rand::rngs::StdRng;
use vstd::prelude::*;

verus! {

/// Marks the ring drawn under a selected unit.
#[derive(Clone, Copy, Debug)]
pub struct SelectAura;

/// Marks a health bar; its `Parent` names the unit whose health it shows.
#[derive(Clone, Copy, Debug)]
pub struct HealthBar;

/// A unit that can be hurt. Health is in thousandths of a point.
#[derive(Clone, Copy, Debug)]
pub struct Attackable {
    pub health: i32,
    pub total_health: i32,
}

impl Attackable {
    /// The unit has a positive total and no more health than that.
    pub open spec fn wf(self) -> bool {
        0 < self.total_health && self.health <= self.total_health
    }

    /// Whether the record is well formed (see [`Attackable::wf`]).
    pub fn is_valid(&self) -> (b: bool)
        ensures
            b == self.wf(),
    {
        0 < self.total_health && self.health <= self.total_health
    }
}

/// A unit that can hurt. `attack` is the damage of one hit in thousandths of
/// a point, `attack_speed` the number of ticks from one hit to the next,
/// `attack_range` the reach in thousandths of a unit.
#[derive(Clone, Copy, Debug)]
pub struct Attacker {
    pub attack: i32,
    pub attack_speed: u64,
    pub attack_range: i32,
}

impl Attacker {
    /// A hit does no negative damage, and hits come at a positive number of ticks.
    pub open spec fn wf(self) -> bool {
        0 <= self.attack && 0 < self.attack_speed
    }

    /// Whether the record is well formed (see [`Attacker::wf`]).
    pub fn is_valid(&self) -> (b: bool)
        ensures
            b == self.wf(),
    {
        0 <= self.attack && 0 < self.attack_speed
    }
}

/// The unit's target, if it has one. The handle may outlive the entity it names.
#[derive(Clone, Copy, Debug)]
pub struct CanTarget {
    pub target: Option<Entity>,
}

impl Default for CanTarget {
    fn default() -> (c: CanTarget)
        ensures
            c.target is None,
    {
        CanTarget { target: None }
    }
}

/// Marks a unit that takes the player's commands.
#[derive(Clone, Copy, Debug)]
pub struct PlayerControlled;

impl Default for PlayerControlled {
    fn default() -> PlayerControlled {
        PlayerControlled
    }
}

/// A unit that picks its targets itself, among the player's units within `fov_radius`.
#[derive(Clone, Copy, Debug)]
pub struct Enemy {
    pub fov_radius: i32,
}

impl Default for Enemy {
    fn default() -> (e: Enemy)
        ensures
            e.fov_radius == 100_000,
    {
        Enemy { fov_radius: 100_000 }
    }
}

/// The kinds of unit.
#[derive(Clone, Copy, Debug)]
pub enum NpcVariant {
    Normal,
    Orc,
}

/// A unit that moves: where it is headed, how fast it goes, and whether the
/// player has it selected. Lengths are in thousandths of a unit, speeds in
/// thousandths of a unit per second.
#[derive(Clone, Copy, Debug)]
pub struct Npc {
    pub move_coords: [i32; 2],
    pub velocity: [i32; 2],
    pub move_speed: i32,
    pub selected: bool,
}

impl Npc {
    /// A unit at rest with the given speed.
    pub open spec fn resting(move_speed: i32, selected: bool) -> Npc {
        Npc { move_coords: [0i32, 0i32], velocity: [0i32, 0i32], move_speed, selected }
    }

    /// The unit of the given kind as it enters the world: the player's units
    /// are fast and selected, the others slow and not selected.
    pub open spec fn of_variant(variant: NpcVariant) -> Npc {
        match variant {
            NpcVariant::Normal => Npc::resting(100_000, true),
            NpcVariant::Orc => Npc::resting(50_000, false),
        }
    }

    /// Whether the unit stands still.
    pub open spec fn at_rest(self) -> bool {
        self.velocity[0] == 0 && self.velocity[1] == 0
    }

    /// Whether the unit stands still.
    pub fn is_at_rest(&self) -> (b: bool)
        ensures
            b == self.at_rest(),
    {
        self.velocity[0] == 0 && self.velocity[1] == 0
    }
}

impl Default for Npc {
    fn default() -> (n: Npc)
        ensures
            n == Npc::resting(100_000, true),
    {
        Npc { move_coords: [0, 0], velocity: [0, 0], move_speed: 100_000, selected: true }
    }
}

impl vstd::std_specs::convert::FromSpecImpl<&NpcVariant> for Npc {
    open spec fn obeys_from_spec() -> bool {
        true
    }

    open spec fn from_spec(variant: &NpcVariant) -> Npc {
        Npc::of_variant(*variant)
    }
}

impl From<&NpcVariant> for Npc {
    fn from(variant: &NpcVariant) -> (n: Npc) {
        match variant {
            NpcVariant::Normal => {
                Npc { move_coords: [0, 0], velocity: [0, 0], move_speed: 100_000, selected: true }
            },
            _ => {
                Npc { move_coords: [0, 0], velocity: [0, 0], move_speed: 50_000, selected: false }
            },
        }
    }
}

/// Depth at which units are drawn, in thousandths.
pub const NPC_DEPTH: i32 = 500;

/// Where a selection ring lies relative to its unit: below its feet and just behind it.
pub const AURA_OFFSET_Y: i32 = -14_000;

pub const AURA_OFFSET_Z: i32 = -100;

/// First frame of the second orc on the orc sheet.
pub const ORC_ALTERNATE_FRAME: usize = 50;

/// First frame of a unit on its sheet: the orc sheet holds two orcs.
pub open spec fn first_frame(variant: NpcVariant, alternate: bool) -> usize {
    match variant {
        NpcVariant::Normal => 0,
        NpcVariant::Orc => if alternate {
            ORC_ALTERNATE_FRAME
        } else {
            0
        },
    }
}

/// What a hit of a unit of the given kind does, and how often and how far.
pub open spec fn attacker_of(variant: NpcVariant) -> Attacker {
    match variant {
        NpcVariant::Normal => Attacker { attack: 20_000, attack_speed: 30, attack_range: 25_000 },
        NpcVariant::Orc => Attacker { attack: 5_000, attack_speed: 30, attack_range: 25_000 },
    }
}

/// The health with which a unit of the given kind enters the world: all of it.
pub open spec fn attackable_of(variant: NpcVariant) -> Attackable {
    match variant {
        NpcVariant::Normal => Attackable { health: 150_000, total_health: 150_000 },
        NpcVariant::Orc => Attackable { health: 50_000, total_health: 50_000 },
    }
}

/// Everything a new unit carries: its sprite, its stats at full health, no
/// target, its three cycles at their start, and its place.
pub open spec fn unit_components(
    variant: NpcVariant,
    sheet: SpriteSheetId,
    coords: [i32; 2],
    alternate: bool,
) -> Components {
    let first = first_frame(variant, alternate);
    Components {
        sprite: Some(SpriteRender { sprite_sheet: sheet, sprite_number: first }),
        npc: Some(Npc::of_variant(variant)),
        player_controlled: if variant is Normal {
            Some(PlayerControlled)
        } else {
            None
        },
        enemy: if variant is Orc {
            Some(Enemy { fov_radius: 100_000 })
        } else {
            None
        },
        can_target: Some(CanTarget { target: None }),
        attacker: Some(attacker_of(variant)),
        attackable: Some(attackable_of(variant)),
        idle: Some(IdleAnimation { anim: Animation::fresh(first, 20, 300) }),
        walk: Some(WalkAnimation { anim: Animation::fresh((first + 20) as usize, 10, 100) }),
        fight: Some(FightAnimation { anim: Animation::fresh((first + 30) as usize, 10, 100) }),
        transform: Some(Transform::placed(coords[0], coords[1], NPC_DEPTH)),
        layered: Some(Layered),
        ..Components::nothing()
    }
}

/// The selection ring of the unit `parent`.
pub open spec fn aura_components(sheet: SpriteSheetId, parent: Entity) -> Components {
    Components {
        sprite: Some(SpriteRender { sprite_sheet: sheet, sprite_number: 0 }),
        transform: Some(Transform::placed(0, AURA_OFFSET_Y, AURA_OFFSET_Z)),
        parent: Some(Parent { entity: parent }),
        ..Components::nothing()
    }
}

/// The store after a new unit entered it: the unit comes last, followed by
/// its selection ring where the unit is selected.
pub open spec fn with_unit(
    store: Seq<Option<Components>>,
    variant: NpcVariant,
    sheet: SpriteSheetId,
    aura: SpriteSheetId,
    coords: [i32; 2],
    alternate: bool,
) -> Seq<Option<Components>> {
    let unit = store.push(Some(unit_components(variant, sheet, coords, alternate)));
    if Npc::of_variant(variant).selected {
        unit.push(Some(aura_components(aura, Entity { id: store.len() as usize })))
    } else {
        unit
    }
}

/// Builds the components of a new unit. `alternate` picks the second orc of
/// the orc sheet; the player's units have one look only.
pub fn new_unit(variant: NpcVariant, sheet: SpriteSheetId, coords: [i32; 2], alternate: bool) -> (c:
    Components)
    ensures
        c == unit_components(variant, sheet, coords, alternate),
        c.wf(),
{
    let transform = Transform::at(coords[0], coords[1], NPC_DEPTH);
    let npc = Npc::from(&variant);
    match variant {
        NpcVariant::Normal => {
            let sprite_render = SpriteRender { sprite_sheet: sheet, sprite_number: 0 };
            Components {
                sprite: Some(sprite_render),
                npc: Some(npc),
                player_controlled: Some(PlayerControlled::default()),
                can_target: Some(CanTarget { target: None }),
                attacker: Some(Attacker { attack: 20_000, attack_speed: 30, attack_range: 25_000 }),
                attackable: Some(Attackable { health: 150_000, total_health: 150_000 }),
                idle: Some(IdleAnimation::new(0, 20, 300)),
                walk: Some(WalkAnimation::new(20, 10, 100)),
                fight: Some(FightAnimation::new(30, 10, 100)),
                transform: Some(transform),
                layered: Some(Layered),
                ..Components::empty()
            }
        },
        NpcVariant::Orc => {
            let mut sprite_index: usize = 0;
            if alternate {
                sprite_index += ORC_ALTERNATE_FRAME;
            }
            let sprite_render = SpriteRender { sprite_sheet: sheet, sprite_number: sprite_index };
            Components {
                sprite: Some(sprite_render),
                npc: Some(npc),
                enemy: Some(Enemy { fov_radius: 100_000 }),
                can_target: Some(CanTarget { target: None }),
                attacker: Some(Attacker { attack: 5_000, attack_speed: 30, attack_range: 25_000 }),
                attackable: Some(Attackable { health: 50_000, total_health: 50_000 }),
                idle: Some(IdleAnimation::new(sprite_index, 20, 300)),
                walk: Some(WalkAnimation::new(sprite_index + 20, 10, 100)),
                fight: Some(FightAnimation::new(sprite_index + 30, 10, 100)),
                transform: Some(transform),
                layered: Some(Layered),
                ..Components::empty()
            }
        },
    }
}

/// Puts a new unit of the given kind into the world at `coords` and returns
/// its handle. `alternate` picks the second orc of the orc sheet.
///
/// The unit starts at full health, at rest and without a target. A unit that
/// starts selected gets a selection ring, an entity of its own whose parent
/// it is.
pub fn place_npc(
    world: &mut World,
    variant: NpcVariant,
    sprite_sheet_handle: SpriteSheetId,
    aura_handle: SpriteSheetId,
    coords: [i32; 2],
    alternate: bool,
) -> (entity: Entity)
    ensures
        entity.id == old(world)@.len(),
        final(world)@ == with_unit(
            old(world)@,
            variant,
            sprite_sheet_handle,
            aura_handle,
            coords,
            alternate,
        ),
        old(world).wf() ==> final(world).wf(),
{
    let unit = new_unit(variant, sprite_sheet_handle, coords, alternate);
    let selected = match unit.npc {
        Some(npc) => npc.selected,
        None => false,
    };
    let entity = world.create_entity(unit);
    if selected {
        let aura = Components {
            sprite: Some(SpriteRender { sprite_sheet: aura_handle, sprite_number: 0 }),
            transform: Some(Transform::at(0, AURA_OFFSET_Y, AURA_OFFSET_Z)),
            parent: Some(Parent { entity }),
            ..Components::empty()
        };
        world.create_entity(aura);
    }
    entity
}

/// Puts a new unit of the given kind into the world at `coords` and returns
/// its handle. An orc takes one of the two orcs of its sheet at random.
pub fn initialize_npc(
    world: &mut World,
    variant: NpcVariant,
    sprite_sheet_handle: SpriteSheetId,
    aura_handle: SpriteSheetId,
    coords: [i32; 2],
    rng: &mut StdRng,
) -> (entity: Entity)
    ensures
        entity.id == old(world)@.len(),
        exists|alternate: bool|
            final(world)@ == with_unit(
                old(world)@,
                variant,
                sprite_sheet_handle,
                aura_handle,
                coords,
                alternate,
            ),
        variant is Normal ==> final(world)@ == with_unit(
            old(world)@,
            variant,
            sprite_sheet_handle,
            aura_handle,
            coords,
            false,
        ),
        old(world).wf() ==> final(world).wf(),
{
    let alternate = match variant {
        NpcVariant::Normal => false,
        NpcVariant::Orc => flip_coin(rng),
    };
    place_npc(world, variant, sprite_sheet_handle, aura_handle, coords, alternate)
}

} // verus!
