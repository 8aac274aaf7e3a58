use tactics_core::components::npc::{Attackable, Attacker};
use tactics_core::components::animated::IdleAnimation;
use tactics_core::components::Transform;
use tactics_core::world::{Components, Entity, World};

#[test]
fn a_new_world_is_empty() {
    let world = World::new();
    assert_eq!(world.len(), 0);
    assert!(!world.is_alive(Entity { id: 0 }));
    assert!(world.get(Entity { id: 0 }).is_none());
}

#[test]
fn entities_get_the_next_id() {
    let mut world = World::new();
    let a = world.create_entity(Components::empty());
    let mut c = Components::empty();
    c.transform = Some(Transform::at(1, 2, 3));
    let b = world.create_entity(c);
    assert_eq!(a, Entity { id: 0 });
    assert_eq!(b, Entity { id: 1 });
    assert_eq!(world.len(), 2);
    assert!(world.is_alive(a));
    assert!(world.is_alive(b));
    assert!(world.get(a).unwrap().transform.is_none());
    let t = world.get(b).unwrap().transform.unwrap();
    assert_eq!((t.x, t.y, t.z), (1, 2, 3));
    assert_eq!((t.scale_x, t.scale_y, t.scale_z), (1000, 1000, 1000));
}

#[test]
fn a_deleted_entity_is_absent_and_its_id_is_not_reused() {
    let mut world = World::new();
    let a = world.create_entity(Components::empty());
    let b = world.create_entity(Components::empty());
    assert!(world.delete(a));
    assert!(!world.is_alive(a));
    assert!(world.get(a).is_none());
    assert!(world.is_alive(b));
    assert!(!world.delete(a));
    assert!(!world.update(a, Components::empty()));
    let c = world.create_entity(Components::empty());
    assert_eq!(c, Entity { id: 2 });
    assert!(!world.is_alive(a));
    assert_eq!(world.len(), 3);
}

#[test]
fn update_replaces_the_components_of_a_living_entity() {
    let mut world = World::new();
    let a = world.create_entity(Components::empty());
    let mut c = Components::empty();
    c.attackable = Some(Attackable { health: 5, total_health: 9 });
    assert!(world.update(a, c));
    let got = world.get(a).unwrap().attackable.unwrap();
    assert_eq!(got.health, 5);
    assert_eq!(got.total_health, 9);
    assert!(!world.update(Entity { id: 7 }, c));
    assert_eq!(world.len(), 1);
}

#[test]
fn validity_of_components() {
    assert!(Components::empty().is_valid());
    let mut c = Components::empty();
    c.attackable = Some(Attackable { health: 10, total_health: 10 });
    c.attacker = Some(Attacker { attack: 0, attack_speed: 1, attack_range: 0 });
    c.idle = Some(IdleAnimation::new(0, 4, 200));
    assert!(c.is_valid());
    let mut bad = c;
    bad.attackable = Some(Attackable { health: 11, total_health: 10 });
    assert!(!bad.is_valid());
    let mut bad = c;
    bad.attackable = Some(Attackable { health: 0, total_health: 0 });
    assert!(!bad.is_valid());
    let mut bad = c;
    bad.attacker = Some(Attacker { attack: 1, attack_speed: 0, attack_range: 0 });
    assert!(!bad.is_valid());
    let mut bad = c;
    bad.attacker = Some(Attacker { attack: -1, attack_speed: 1, attack_range: 0 });
    assert!(!bad.is_valid());
    let mut bad = c;
    bad.idle = Some(IdleAnimation::new(0, 0, 200));
    assert!(!bad.is_valid());
}

#[test]
fn a_world_is_valid_while_all_its_living_entities_are() {
    let mut world = World::new();
    assert!(world.is_valid());
    let good = world.create_entity(Components::empty());
    assert!(world.is_valid());
    let mut bad = Components::empty();
    bad.idle = Some(IdleAnimation::new(0, 0, 200));
    let bad = world.create_entity(bad);
    assert!(!world.is_valid());
    assert!(world.is_alive(good));
    world.delete(bad);
    assert!(world.is_valid());
}
