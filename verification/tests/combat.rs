use tactics_core::components::animated::FightAnimation;
use tactics_core::components::npc::{Attackable, Attacker, CanTarget, HealthBar, Npc};
use tactics_core::components::{SpriteRender, SpriteSheetId, Transform};
use tactics_core::systems::combat::{approach_point, take_turn, CombatSystem, HealthBarSystem};
use tactics_core::world::{Components, Entity, Parent, Time, World};

fn fighter(at: [i32; 2], attack: i32, target: Option<Entity>) -> Components {
    let mut c = Components::empty();
    c.transform = Some(Transform::at(at[0], at[1], 500));
    c.npc = Some(Npc { move_coords: [0, 0], velocity: [0, 0], move_speed: 100_000, selected: true });
    c.attacker = Some(Attacker { attack, attack_speed: 30, attack_range: 25_000 });
    c.can_target = Some(CanTarget { target });
    c.fight = Some(FightAnimation::new(30, 10, 100));
    c.sprite = Some(SpriteRender { sprite_sheet: SpriteSheetId::Warrior, sprite_number: 0 });
    c
}

fn victim(at: [i32; 2], health: i32) -> Components {
    let mut c = Components::empty();
    c.transform = Some(Transform::at(at[0], at[1], 500));
    c.attackable = Some(Attackable { health, total_health: health });
    c
}

fn health(world: &World, e: Entity) -> i32 {
    world.get(e).unwrap().attackable.unwrap().health
}

#[test]
fn three_blows_of_ten_kill_a_unit_of_twenty_five() {
    let mut world = World::new();
    let target = world.create_entity(victim([10_000, 0], 25_000));
    let attacker = world.create_entity(fighter([0, 0], 10_000, Some(target)));
    for frame in 1..=90u64 {
        CombatSystem.run(&mut world, &Time { delta: 16, frame_number: frame });
        if frame < 30 {
            assert_eq!(health(&world, target), 25_000);
        } else if frame < 60 {
            assert_eq!(health(&world, target), 15_000);
        } else if frame < 90 {
            assert_eq!(health(&world, target), 5_000);
            assert_eq!(world.get(attacker).unwrap().can_target.unwrap().target, Some(target));
        } else {
            assert!(!world.is_alive(target));
            assert!(world.get(target).is_none());
        }
    }
    let c = world.get(attacker).unwrap();
    assert_eq!(c.can_target.unwrap().target, None);
    assert_eq!(c.fight.unwrap().anim.elapsed_time, 90 * 16);
    assert_eq!(world.len(), 2);
    CombatSystem.run(&mut world, &Time { delta: 16, frame_number: 120 });
    assert_eq!(world.get(attacker).unwrap().fight.unwrap().anim.elapsed_time, 90 * 16);
}

#[test]
fn tick_zero_is_an_attack_tick() {
    let mut world = World::new();
    let target = world.create_entity(victim([10_000, 0], 25_000));
    world.create_entity(fighter([0, 0], 10_000, Some(target)));
    CombatSystem.run(&mut world, &Time { delta: 16, frame_number: 0 });
    assert_eq!(health(&world, target), 15_000);
    CombatSystem.run(&mut world, &Time { delta: 16, frame_number: 31 });
    assert_eq!(health(&world, target), 15_000);
}

#[test]
fn a_blow_that_leaves_no_health_kills() {
    let mut world = World::new();
    let target = world.create_entity(victim([10_000, 0], 10_000));
    let attacker = world.create_entity(fighter([0, 0], 10_000, Some(target)));
    CombatSystem.run(&mut world, &Time { delta: 16, frame_number: 30 });
    assert!(!world.is_alive(target));
    assert_eq!(world.get(attacker).unwrap().can_target.unwrap().target, None);
}

#[test]
fn a_unit_killed_earlier_in_the_tick_is_gone_for_those_who_come_later() {
    let mut world = World::new();
    let target = world.create_entity(victim([10_000, 0], 10_000));
    let first = world.create_entity(fighter([0, 0], 10_000, Some(target)));
    let second = world.create_entity(fighter([0, 10_000], 10_000, Some(target)));
    CombatSystem.run(&mut world, &Time { delta: 16, frame_number: 30 });
    assert!(!world.is_alive(target));
    assert_eq!(world.get(first).unwrap().can_target.unwrap().target, None);
    assert_eq!(world.get(first).unwrap().fight.unwrap().anim.elapsed_time, 16);
    let late = world.get(second).unwrap();
    assert_eq!(late.can_target.unwrap().target, Some(target));
    assert_eq!(late.fight.unwrap().anim.elapsed_time, 0);
    assert_eq!(late.npc.unwrap().velocity, [0, 0]);
}

#[test]
fn two_fighters_hit_the_same_unit_in_one_tick() {
    let mut world = World::new();
    let target = world.create_entity(victim([10_000, 0], 25_000));
    world.create_entity(fighter([0, 0], 10_000, Some(target)));
    world.create_entity(fighter([0, 10_000], 7_000, Some(target)));
    CombatSystem.run(&mut world, &Time { delta: 16, frame_number: 60 });
    assert_eq!(health(&world, target), 8_000);
}

#[test]
fn a_fighter_out_of_reach_closes_in() {
    let mut world = World::new();
    let target = world.create_entity(victim([100_000, 0], 25_000));
    let mut c = fighter([0, 0], 10_000, Some(target));
    let mut fight = c.fight.unwrap();
    fight.anim.elapsed_time = 450;
    fight.anim.current_frame = 4;
    c.fight = Some(fight);
    let attacker = world.create_entity(c);
    CombatSystem.run(&mut world, &Time { delta: 16, frame_number: 30 });
    assert_eq!(health(&world, target), 25_000);
    let c = world.get(attacker).unwrap();
    assert_eq!(c.npc.unwrap().move_coords, [81_250, 0]);
    assert_eq!(c.npc.unwrap().velocity, [100_000, 0]);
    assert!(c.fight.unwrap().anim.is_reset());
    assert_eq!(c.can_target.unwrap().target, Some(target));
    assert_eq!(c.transform.unwrap().x, 0);
}

#[test]
fn a_fighter_approaches_from_its_own_side() {
    assert_eq!(approach_point([0, 0], [100_000, 50_000], 25_000), [81_250, 50_000]);
    assert_eq!(approach_point([0, 0], [-100_000, 50_000], 25_000), [-81_250, 50_000]);
    assert_eq!(approach_point([0, 0], [0, 50_000], 25_000), [18_750, 50_000]);
    assert_eq!(approach_point([0, 0], [100_000, 0], 10), [99_993, 0]);
    assert_eq!(approach_point([0, 0], [100_000, 0], -10), [100_007, 0]);
    assert_eq!(approach_point([0, 0], [i32::MAX, 0], -25_000), [i32::MAX, 0]);
    assert_eq!(approach_point([0, 0], [i32::MIN, 0], -25_000), [i32::MIN, 0]);
}

#[test]
fn reach_includes_its_rim() {
    let mut world = World::new();
    let at_rim = world.create_entity(victim([15_000, 20_000], 25_000));
    let beyond = world.create_entity(victim([15_000, 20_001], 25_000));
    world.create_entity(fighter([0, 0], 10_000, Some(at_rim)));
    let chaser = world.create_entity(fighter([0, 0], 10_000, Some(beyond)));
    CombatSystem.run(&mut world, &Time { delta: 16, frame_number: 30 });
    assert_eq!(health(&world, at_rim), 15_000);
    assert_eq!(health(&world, beyond), 25_000);
    assert_eq!(world.get(chaser).unwrap().npc.unwrap().move_coords, [-3_750, 20_001]);
}

#[test]
fn a_target_that_is_gone_or_cannot_be_hurt_changes_nothing() {
    let mut world = World::new();
    let gone = world.create_entity(victim([10_000, 0], 25_000));
    world.delete(gone);
    let mut tough = victim([10_000, 0], 25_000);
    tough.attackable = None;
    let tough = world.create_entity(tough);
    let mut nowhere = victim([10_000, 0], 25_000);
    nowhere.transform = None;
    let nowhere = world.create_entity(nowhere);
    let fighters = [
        world.create_entity(fighter([0, 0], 10_000, Some(gone))),
        world.create_entity(fighter([0, 0], 10_000, Some(tough))),
        world.create_entity(fighter([0, 0], 10_000, Some(nowhere))),
        world.create_entity(fighter([0, 0], 10_000, Some(Entity { id: 1_000 }))),
        world.create_entity(fighter([0, 0], 10_000, None)),
    ];
    CombatSystem.run(&mut world, &Time { delta: 16, frame_number: 30 });
    for f in fighters.iter() {
        let c = world.get(*f).unwrap();
        assert_eq!(c.fight.unwrap().anim.elapsed_time, 0);
        assert_eq!(c.npc.unwrap().velocity, [0, 0]);
        assert_eq!(c.npc.unwrap().move_coords, [0, 0]);
    }
    assert_eq!(world.get(fighters[0]).unwrap().can_target.unwrap().target, Some(gone));
    assert_eq!(health(&world, nowhere), 25_000);
}

#[test]
fn a_fighter_may_be_its_own_target() {
    let mut world = World::new();
    let mut c = fighter([0, 0], 10_000, Some(Entity { id: 0 }));
    c.attackable = Some(Attackable { health: 15_000, total_health: 15_000 });
    let e = world.create_entity(c);
    take_turn(&mut world, e, &Time { delta: 16, frame_number: 30 });
    let after = world.get(e).unwrap();
    assert_eq!(after.attackable.unwrap().health, 5_000);
    assert_eq!(after.fight.unwrap().anim.elapsed_time, 16);
    assert_eq!(after.can_target.unwrap().target, Some(e));
    take_turn(&mut world, e, &Time { delta: 16, frame_number: 60 });
    assert!(!world.is_alive(e));
}

#[test]
fn health_stops_at_the_end_of_its_range() {
    let mut world = World::new();
    let mut v = victim([0, 0], i32::MAX);
    v.attackable = Some(Attackable { health: i32::MIN + 1, total_health: 1 });
    let target = world.create_entity(v);
    world.create_entity(fighter([0, 0], i32::MAX, Some(target)));
    CombatSystem.run(&mut world, &Time { delta: 16, frame_number: 30 });
    assert!(!world.is_alive(target));
}

#[test]
fn a_health_bar_is_as_long_as_the_health_that_is_left() {
    let mut world = World::new();
    let mut unit = victim([0, 0], 25_000);
    unit.attackable = Some(Attackable { health: 15_000, total_health: 25_000 });
    let unit = world.create_entity(unit);
    let mut bar = Components::empty();
    bar.health_bar = Some(HealthBar);
    bar.parent = Some(Parent { entity: unit });
    bar.transform = Some(Transform { x: 1, y: 2, z: 3, scale_x: 1000, scale_y: 300, scale_z: 400 });
    let bar = world.create_entity(bar);
    HealthBarSystem.run(&mut world);
    let t = world.get(bar).unwrap().transform.unwrap();
    assert_eq!((t.scale_x, t.scale_y, t.scale_z), (600, 1000, 1000));
    assert_eq!((t.x, t.y, t.z), (1, 2, 3));
    let mut hurt = world.get(unit).unwrap();
    hurt.attackable = Some(Attackable { health: 1, total_health: 3 });
    world.update(unit, hurt);
    HealthBarSystem.run(&mut world);
    assert_eq!(world.get(bar).unwrap().transform.unwrap().scale_x, 333);
    hurt.attackable = Some(Attackable { health: -5_000, total_health: 25_000 });
    world.update(unit, hurt);
    HealthBarSystem.run(&mut world);
    assert_eq!(world.get(bar).unwrap().transform.unwrap().scale_x, -200);
}

#[test]
fn a_health_bar_without_a_living_parent_stays_as_it_is() {
    let mut world = World::new();
    let unit = world.create_entity(victim([0, 0], 25_000));
    let mut plain = victim([0, 0], 25_000);
    plain.attackable = None;
    let plain = world.create_entity(plain);
    let mut bars = Vec::new();
    for parent in [Some(unit), Some(plain), Some(Entity { id: 77 }), None].iter() {
        let mut bar = Components::empty();
        bar.health_bar = Some(HealthBar);
        bar.parent = parent.map(|entity| Parent { entity });
        bar.transform = Some(Transform { x: 0, y: 0, z: 0, scale_x: 123, scale_y: 456, scale_z: 789 });
        bars.push(world.create_entity(bar));
    }
    let mut no_bar = Components::empty();
    no_bar.parent = Some(Parent { entity: unit });
    no_bar.transform = Some(Transform { x: 0, y: 0, z: 0, scale_x: 123, scale_y: 456, scale_z: 789 });
    let no_bar = world.create_entity(no_bar);
    world.delete(unit);
    HealthBarSystem.run(&mut world);
    for bar in bars.iter().chain([no_bar].iter()) {
        let t = world.get(*bar).unwrap().transform.unwrap();
        assert_eq!((t.scale_x, t.scale_y, t.scale_z), (123, 456, 789));
    }
}
