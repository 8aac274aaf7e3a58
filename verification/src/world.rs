//! The entity store: every entity of the simulation with the components it carries.
//!
//! An entity is a handle into the store. Handles are never issued twice, so
//! a handle kept after its entity was deleted finds nothing: a lookup of it
//! is answered with `None`, never with another entity's data.

use crate::components::{Layered, SpriteRender, Transform};
use crate::components::animated::{FightAnimation, IdleAnimation, WalkAnimation};
use crate::components::npc::{
    Attackable, Attacker, CanTarget, Enemy, HealthBar, Npc, PlayerControlled, SelectAura,
};
use crate::components::scenary::CampFire;
use crate::components::tile::Tile;
use vstd::prelude::*;

verus! {

/// Handle of an entity. It does not keep the entity alive.
#[derive(Clone, Copy, Debug, PartialEq, Eq, Structural)]
pub struct Entity {
    pub id: usize,
}

/// Names the entity from whose state this one's appearance is derived.
#[derive(Clone, Copy, Debug)]
pub struct Parent {
    pub entity: Entity,
}

/// The frame clock's reading for one tick.
#[derive(Clone, Copy, Debug)]
pub struct Time {
    /// Time since the last tick, in thousandths of a second.
    pub delta: u32,
    /// Number of the tick; it grows by one each tick.
    pub frame_number: u64,
}

/// Everything one entity carries. A component that the entity lacks is `None`.
#[derive(Clone, Copy, Debug)]
pub struct Components {
    pub transform: Option<Transform>,
    pub sprite: Option<SpriteRender>,
    pub tile: Option<Tile>,
    pub npc: Option<Npc>,
    pub can_target: Option<CanTarget>,
    pub player_controlled: Option<PlayerControlled>,
    pub enemy: Option<Enemy>,
    pub attackable: Option<Attackable>,
    pub attacker: Option<Attacker>,
    pub idle: Option<IdleAnimation>,
    pub walk: Option<WalkAnimation>,
    pub fight: Option<FightAnimation>,
    pub layered: Option<Layered>,
    pub parent: Option<Parent>,
    pub health_bar: Option<HealthBar>,
    pub select_aura: Option<SelectAura>,
    pub camp_fire: Option<CampFire>,
}

impl Components {
    /// An entity that carries nothing.
    pub open spec fn nothing() -> Components {
        Components {
            transform: None,
            sprite: None,
            tile: None,
            npc: None,
            can_target: None,
            player_controlled: None,
            enemy: None,
            attackable: None,
            attacker: None,
            idle: None,
            walk: None,
            fight: None,
            layered: None,
            parent: None,
            health_bar: None,
            select_aura: None,
            camp_fire: None,
        }
    }

    /// Every component present is well formed.
    pub open spec fn wf(self) -> bool {
        &&& self.idle matches Some(a) ==> a.anim.wf()
        &&& self.walk matches Some(a) ==> a.anim.wf()
        &&& self.fight matches Some(a) ==> a.anim.wf()
        &&& self.attackable matches Some(a) ==> a.wf()
        &&& self.attacker matches Some(a) ==> a.wf()
    }

    /// An entity that carries nothing yet.
    pub fn empty() -> (c: Components)
        ensures
            c == Components::nothing(),
            c.wf(),
    {
        Components {
            transform: None,
            sprite: None,
            tile: None,
            npc: None,
            can_target: None,
            player_controlled: None,
            enemy: None,
            attackable: None,
            attacker: None,
            idle: None,
            walk: None,
            fight: None,
            layered: None,
            parent: None,
            health_bar: None,
            select_aura: None,
            camp_fire: None,
        }
    }

    /// Whether every component present is well formed (see [`Components::wf`]).
    pub fn is_valid(&self) -> (b: bool)
        ensures
            b == self.wf(),
    {
        let idle_ok = match &self.idle {
            Some(a) => a.anim.is_valid(),
            None => true,
        };
        let walk_ok = match &self.walk {
            Some(a) => a.anim.is_valid(),
            None => true,
        };
        let fight_ok = match &self.fight {
            Some(a) => a.anim.is_valid(),
            None => true,
        };
        let attackable_ok = match &self.attackable {
            Some(a) => a.is_valid(),
            None => true,
        };
        let attacker_ok = match &self.attacker {
            Some(a) => a.is_valid(),
            None => true,
        };
        idle_ok && walk_ok && fight_ok && attackable_ok && attacker_ok
    }
}

/// The store. Slot `i` holds the components of the entity with id `i`, or
/// `None` once that entity was deleted.
pub struct World {
    slots: Vec<Option<Components>>,
}

impl View for World {
    type V = Seq<Option<Components>>;

    closed spec fn view(&self) -> Seq<Option<Components>> {
        self.slots@
    }
}

/// The components of `e` in a store's contents, or `None` where `e` names no living entity.
pub open spec fn lookup(store: Seq<Option<Components>>, e: Entity) -> Option<Components> {
    if e.id < store.len() {
        store[e.id as int]
    } else {
        None
    }
}

/// Every living entity of the store's contents is well formed.
pub open spec fn all_wf(store: Seq<Option<Components>>) -> bool {
    forall|i: int| 0 <= i < store.len() ==> (#[trigger] store[i] matches Some(c) ==> c.wf())
}

impl World {
    /// Every living entity is well formed.
    pub open spec fn wf(&self) -> bool {
        all_wf(self@)
    }

    /// A store without entities.
    pub fn new() -> (w: World)
        ensures
            w@ == Seq::<Option<Components>>::empty(),
            w.wf(),
    {
        World { slots: Vec::new() }
    }

    /// Whether every living entity is well formed (see [`World::wf`]).
    pub fn is_valid(&self) -> (b: bool)
        ensures
            b == self.wf(),
    {
        let n = self.slots.len();
        let mut i: usize = 0;
        while i < n
            invariant
                n == self.slots@.len(),
                i <= n,
                forall|j: int| 0 <= j < i ==> (#[trigger] self.slots@[j] matches Some(c) ==> c.wf()),
            decreases n - i,
        {
            match &self.slots[i] {
                Some(c) => {
                    if !c.is_valid() {
                        return false;
                    }
                },
                None => {},
            }
            i += 1;
        }
        true
    }

    /// Number of handles issued so far: the ids below it are the ones in use.
    pub fn len(&self) -> (n: usize)
        ensures
            n == self@.len(),
    {
        self.slots.len()
    }

    /// Adds an entity with the given components and returns its handle.
    pub fn create_entity(&mut self, components: Components) -> (e: Entity)
        ensures
            final(self)@ == old(self)@.push(Some(components)),
            e.id == old(self)@.len(),
            old(self).wf() && components.wf() ==> final(self).wf(),
    {
        let id = self.slots.len();
        self.slots.push(Some(components));
        Entity { id }
    }

    /// Whether `e` names a living entity.
    pub fn is_alive(&self, e: Entity) -> (b: bool)
        ensures
            b == (lookup(self@, e) is Some),
    {
        e.id < self.slots.len() && self.slots[e.id].is_some()
    }

    /// The components of `e`, or `None` where `e` names no living entity.
    pub fn get(&self, e: Entity) -> (c: Option<Components>)
        ensures
            c == lookup(self@, e),
    {
        if e.id < self.slots.len() {
            self.slots[e.id]
        } else {
            None
        }
    }

    /// Replaces the components of a living entity. Of a handle that names no
    /// living entity nothing is stored, and the answer is `false`.
    pub fn update(&mut self, e: Entity, components: Components) -> (stored: bool)
        ensures
            stored == (lookup(old(self)@, e) is Some),
            stored ==> final(self)@ == old(self)@.update(e.id as int, Some(components)),
            !stored ==> final(self)@ == old(self)@,
            old(self).wf() && components.wf() ==> final(self).wf(),
    {
        if e.id < self.slots.len() && self.slots[e.id].is_some() {
            self.slots[e.id] = Some(components);
            true
        } else {
            false
        }
    }

    /// Removes an entity with all its components. The answer tells whether
    /// the handle named a living entity.
    pub fn delete(&mut self, e: Entity) -> (deleted: bool)
        ensures
            deleted == (lookup(old(self)@, e) is Some),
            deleted ==> final(self)@ == old(self)@.update(e.id as int, None),
            !deleted ==> final(self)@ == old(self)@,
            old(self).wf() ==> final(self).wf(),
    {
        if e.id < self.slots.len() && self.slots[e.id].is_some() {
            self.slots[e.id] = None;
            true
        } else {
            false
        }
    }
}

} // verus!
