use tactics_core::components::npc::{new_unit, NpcVariant};
use tactics_core::components::{Sprite, SpriteRender, SpriteSheet, SpriteSheetId, SpriteSheets};
use tactics_core::systems::commands::{
    calc_velocity_vec, is_hit, order_unit, CommandInput, CommandSystem,
};
use tactics_core::world::{Entity, World};

fn sheet(frames: usize, width: i32, height: i32) -> Option<SpriteSheet> {
    Some(SpriteSheet { sprites: vec![Sprite { width, height }; frames] })
}

fn sheets() -> SpriteSheets {
    SpriteSheets {
        auras: None,
        floor: None,
        ceiling: None,
        walls: None,
        warrior: sheet(40, 32_000, 32_000),
        orc: sheet(100, 32_000, 48_000),
        camp_fire: None,
    }
}

fn click(at: [i32; 2]) -> [CommandInput; 2] {
    [
        CommandInput { pointer: Some(at), button_down: true },
        CommandInput { pointer: Some(at), button_down: false },
    ]
}

fn scene() -> (World, Entity, Entity) {
    let mut world = World::new();
    let own = world.create_entity(new_unit(
        NpcVariant::Normal,
        SpriteSheetId::Warrior,
        [100_000, 100_000],
        false,
    ));
    let orc = world.create_entity(new_unit(NpcVariant::Orc, SpriteSheetId::Orc, [200_000, 100_000], false));
    (world, own, orc)
}

#[test]
fn velocity_points_at_the_target_with_the_given_speed() {
    assert_eq!(calc_velocity_vec([0, 0], [3_000, 4_000], 100_000), [60_000, 80_000]);
    assert_eq!(calc_velocity_vec([0, 0], [-3_000, -4_000], 100_000), [-60_000, -80_000]);
    assert_eq!(calc_velocity_vec([10_000, 10_000], [10_000, 70_000], 50_000), [0, 50_000]);
    assert_eq!(calc_velocity_vec([10_000, 10_000], [-20_000, 10_000], 50_000), [-50_000, 0]);
    assert_eq!(calc_velocity_vec([0, 0], [3_000, 4_000], -100_000), [-60_000, -80_000]);
    assert_eq!(calc_velocity_vec([0, 0], [3_000, 4_000], 0), [0, 0]);
    assert_eq!(calc_velocity_vec([0, 0], [1_000, 1_000], 1_000), [707, 707]);
}

#[test]
fn velocity_toward_the_place_where_one_stands_is_zero() {
    assert_eq!(calc_velocity_vec([0, 0], [0, 0], 100_000), [0, 0]);
    assert_eq!(calc_velocity_vec([5, -7], [5, -7], i32::MAX), [0, 0]);
    assert_eq!(calc_velocity_vec([i32::MIN, i32::MAX], [i32::MIN, i32::MAX], i32::MIN), [0, 0]);
}

#[test]
fn velocity_over_the_longest_distances() {
    assert_eq!(
        calc_velocity_vec([i32::MIN, 0], [i32::MAX, 0], i32::MAX),
        [i32::MAX, 0]
    );
    assert_eq!(
        calc_velocity_vec([i32::MAX, 0], [i32::MIN, 0], i32::MIN),
        [i32::MAX, 0]
    );
    assert_eq!(
        calc_velocity_vec([i32::MAX, 0], [i32::MIN, 0], i32::MAX),
        [-i32::MAX, 0]
    );
    let v = calc_velocity_vec([i32::MIN, i32::MIN], [i32::MAX, i32::MAX], 1_000_000);
    assert_eq!(v, [707_106, 707_106]);
}

#[test]
fn a_click_on_an_enemy_makes_it_the_target_of_the_selected_units() {
    let (mut world, own, orc) = scene();
    let mut system = CommandSystem::default();
    let steps = click([205_000, 110_000]);
    system.run(&mut world, &steps[0], &sheets());
    assert!(system.mouse_was_down);
    assert!(world.get(own).unwrap().can_target.unwrap().target.is_none());
    system.run(&mut world, &steps[1], &sheets());
    assert!(!system.mouse_was_down);
    let c = world.get(own).unwrap();
    assert_eq!(c.can_target.unwrap().target, Some(orc));
    assert_eq!(c.npc.unwrap().velocity, [0, 0]);
    assert_eq!(c.npc.unwrap().move_coords, [0, 0]);
    assert!(world.get(orc).unwrap().can_target.unwrap().target.is_none());
}

#[test]
fn a_click_on_open_ground_sends_the_selected_units_there() {
    let (mut world, own, orc) = scene();
    let mut c = world.get(own).unwrap();
    let mut targeter = c.can_target.unwrap();
    targeter.target = Some(orc);
    c.can_target = Some(targeter);
    world.update(own, c);
    let mut system = CommandSystem::default();
    for step in click([100_000, 385_000]).iter() {
        system.run(&mut world, step, &sheets());
    }
    let c = world.get(own).unwrap();
    assert_eq!(c.can_target.unwrap().target, None);
    assert_eq!(c.npc.unwrap().move_coords, [100_000, 400_000]);
    assert_eq!(c.npc.unwrap().velocity, [0, 100_000]);
    let t = c.transform.unwrap();
    assert_eq!((t.x, t.y), (100_000, 100_000));
    let o = world.get(orc).unwrap();
    assert_eq!(o.npc.unwrap().velocity, [0, 0]);
    assert_eq!(o.npc.unwrap().move_coords, [0, 0]);
}

#[test]
fn a_click_on_one_of_the_players_units_orders_nothing() {
    let (mut world, own, orc) = scene();
    let mut c = world.get(own).unwrap();
    let mut targeter = c.can_target.unwrap();
    targeter.target = Some(orc);
    c.can_target = Some(targeter);
    world.update(own, c);
    let mut system = CommandSystem::default();
    for step in click([110_000, 90_000]).iter() {
        system.run(&mut world, step, &sheets());
    }
    let c = world.get(own).unwrap();
    assert_eq!(c.can_target.unwrap().target, Some(orc));
    assert_eq!(c.npc.unwrap().velocity, [0, 0]);
    assert_eq!(c.npc.unwrap().move_coords, [0, 0]);
    assert!(!system.mouse_was_down);
}

#[test]
fn orders_are_given_on_release_only() {
    let (mut world, own, _orc) = scene();
    let mut system = CommandSystem::default();
    let released = CommandInput { pointer: Some([100_000, 385_000]), button_down: false };
    system.run(&mut world, &released, &sheets());
    assert_eq!(world.get(own).unwrap().npc.unwrap().velocity, [0, 0]);
    let held = CommandInput { pointer: Some([100_000, 385_000]), button_down: true };
    for _ in 0..3 {
        system.run(&mut world, &held, &sheets());
        assert_eq!(world.get(own).unwrap().npc.unwrap().velocity, [0, 0]);
        assert!(system.mouse_was_down);
    }
    system.run(&mut world, &released, &sheets());
    assert_eq!(world.get(own).unwrap().npc.unwrap().velocity, [0, 100_000]);
    let mut c = world.get(own).unwrap();
    let mut npc = c.npc.unwrap();
    npc.velocity = [1, 2];
    c.npc = Some(npc);
    world.update(own, c);
    system.run(&mut world, &released, &sheets());
    assert_eq!(world.get(own).unwrap().npc.unwrap().velocity, [1, 2]);
}

#[test]
fn without_a_pointer_the_tick_is_skipped() {
    let (mut world, own, _orc) = scene();
    let mut system = CommandSystem { mouse_was_down: true };
    let nothing = CommandInput { pointer: None, button_down: false };
    system.run(&mut world, &nothing, &sheets());
    assert!(system.mouse_was_down);
    assert_eq!(world.get(own).unwrap().npc.unwrap().velocity, [0, 0]);
    let mut fresh = CommandSystem::default();
    let held = CommandInput { pointer: None, button_down: true };
    fresh.run(&mut world, &held, &sheets());
    assert!(!fresh.mouse_was_down);
}

#[test]
fn a_sprite_is_hit_strictly_inside_its_bounds() {
    let (world, own, orc) = scene();
    let own = world.get(own).unwrap();
    let orc = world.get(orc).unwrap();
    let s = sheets();
    assert!(is_hit(&own, &s, [100_000, 100_000]));
    assert!(is_hit(&own, &s, [115_999, 84_001]));
    assert!(!is_hit(&own, &s, [116_000, 100_000]));
    assert!(!is_hit(&own, &s, [84_000, 100_000]));
    assert!(!is_hit(&own, &s, [100_000, 116_000]));
    assert!(!is_hit(&own, &s, [100_000, 84_000]));
    assert!(is_hit(&orc, &s, [200_000, 123_999]));
    assert!(!is_hit(&orc, &s, [200_000, 124_000]));
    assert!(!is_hit(&orc, &s, [100_000, 100_000]));
}

#[test]
fn a_sprite_of_unknown_size_is_never_hit() {
    let (world, own, orc) = scene();
    let mut own = world.get(own).unwrap();
    let orc = world.get(orc).unwrap();
    let mut s = sheets();
    s.orc = None;
    assert!(!is_hit(&orc, &s, [200_000, 100_000]));
    own.sprite = Some(SpriteRender { sprite_sheet: SpriteSheetId::Warrior, sprite_number: 40 });
    assert!(!is_hit(&own, &s, [100_000, 100_000]));
    own.sprite = Some(SpriteRender { sprite_sheet: SpriteSheetId::Warrior, sprite_number: 39 });
    assert!(is_hit(&own, &s, [100_000, 100_000]));
    own.npc = None;
    assert!(!is_hit(&own, &s, [100_000, 100_000]));
    let size = s.sprite_size(&SpriteRender { sprite_sheet: SpriteSheetId::Warrior, sprite_number: 3 });
    assert_eq!(size.map(|sprite| (sprite.width, sprite.height)), Some((32_000, 32_000)));
    assert!(s.sprite_size(&SpriteRender { sprite_sheet: SpriteSheetId::Floor, sprite_number: 0 }).is_none());
}

#[test]
fn where_sprites_overlap_the_unit_created_last_is_picked() {
    let (mut world, own, first) = scene();
    let second = world.create_entity(new_unit(NpcVariant::Orc, SpriteSheetId::Orc, [210_000, 100_000], true));
    let mut system = CommandSystem::default();
    for step in click([205_000, 100_000]).iter() {
        system.run(&mut world, step, &sheets());
    }
    assert_eq!(world.get(own).unwrap().can_target.unwrap().target, Some(second));
    world.delete(second);
    for step in click([205_000, 100_000]).iter() {
        system.run(&mut world, step, &sheets());
    }
    assert_eq!(world.get(own).unwrap().can_target.unwrap().target, Some(first));
}

#[test]
fn only_selected_units_take_orders() {
    let (world, own, orc) = scene();
    let mut c = world.get(orc).unwrap();
    order_unit(&mut c, Some(own), true, [0, 0]);
    assert!(c.can_target.unwrap().target.is_none());
    order_unit(&mut c, None, true, [0, 0]);
    assert_eq!(c.npc.unwrap().velocity, [0, 0]);
    let mut c = world.get(own).unwrap();
    order_unit(&mut c, None, false, [0, 0]);
    assert_eq!(c.npc.unwrap().velocity, [0, 0]);
    order_unit(&mut c, None, true, [100_000, i32::MAX]);
    assert_eq!(c.npc.unwrap().move_coords, [100_000, i32::MAX]);
    let mut no_targeting = world.get(own).unwrap();
    no_targeting.can_target = None;
    order_unit(&mut no_targeting, None, true, [0, 0]);
    assert_eq!(no_targeting.npc.unwrap().velocity, [0, 0]);
}
