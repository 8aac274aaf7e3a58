use tactics_core::components::animated::IdleAnimation;
use tactics_core::components::npc::{new_unit, Npc, NpcVariant};
use tactics_core::components::{Layered, SpriteRender, SpriteSheetId, SpriteSheets, Transform};
use tactics_core::systems::animation::IdleAnimationSystem;
use tactics_core::systems::commands::CommandInput;
use tactics_core::systems::Passes;
use tactics_core::systems::layering::{depth_for, LayeringSystem};
use tactics_core::world::{Components, Time, World};

fn idler(velocity: Option<[i32; 2]>) -> Components {
    let mut c = Components::empty();
    c.sprite = Some(SpriteRender { sprite_sheet: SpriteSheetId::CampFire, sprite_number: 0 });
    c.idle = Some(IdleAnimation::new(0, 4, 200));
    c.npc = velocity.map(|v| Npc { move_coords: [0, 0], velocity: v, move_speed: 1, selected: false });
    c
}

#[test]
fn what_stands_still_or_cannot_move_idles() {
    let mut world = World::new();
    let fire = world.create_entity(idler(None));
    let resting = world.create_entity(idler(Some([0, 0])));
    let mut system = IdleAnimationSystem::default();
    system.run(&mut world, &Time { delta: 250, frame_number: 1 });
    for e in [fire, resting].iter() {
        let c = world.get(*e).unwrap();
        assert_eq!(c.idle.unwrap().anim.elapsed_time, 250);
        assert_eq!(c.idle.unwrap().anim.current_frame, 1);
        assert_eq!(c.sprite.unwrap().sprite_number, 1);
    }
}

#[test]
fn what_moves_has_its_idle_cycle_reset() {
    let mut world = World::new();
    let mut c = idler(Some([0, 5]));
    let mut idle = c.idle.unwrap();
    idle.anim.elapsed_time = 450;
    idle.anim.current_frame = 2;
    c.idle = Some(idle);
    c.sprite = Some(SpriteRender { sprite_sheet: SpriteSheetId::CampFire, sprite_number: 2 });
    let moving = world.create_entity(c);
    IdleAnimationSystem.run(&mut world, &Time { delta: 250, frame_number: 1 });
    let c = world.get(moving).unwrap();
    assert!(c.idle.unwrap().anim.is_reset());
    assert_eq!(c.sprite.unwrap().sprite_number, 2);
    IdleAnimationSystem.run(&mut world, &Time { delta: 250, frame_number: 2 });
    assert!(world.get(moving).unwrap().idle.unwrap().anim.is_reset());
}

#[test]
fn idling_needs_a_sprite_and_a_cycle() {
    let mut world = World::new();
    let mut no_sprite = idler(None);
    no_sprite.sprite = None;
    let no_sprite = world.create_entity(no_sprite);
    let mut no_cycle = idler(None);
    no_cycle.idle = None;
    let no_cycle = world.create_entity(no_cycle);
    IdleAnimationSystem.run(&mut world, &Time { delta: 250, frame_number: 1 });
    assert_eq!(world.get(no_sprite).unwrap().idle.unwrap().anim.elapsed_time, 0);
    assert_eq!(world.get(no_cycle).unwrap().sprite.unwrap().sprite_number, 0);
}

#[test]
fn depth_is_the_height_of_the_arena_over_the_position() {
    assert_eq!(depth_for(320_000), 2_000);
    assert_eq!(depth_for(640_000), 1_000);
    assert_eq!(depth_for(1_000), 640_000);
    assert_eq!(depth_for(1), 640_000_000);
    assert_eq!(depth_for(3), 213_333_333);
    assert_eq!(depth_for(-3), -213_333_333);
    assert_eq!(depth_for(-320_000), -2_000);
    assert_eq!(depth_for(i32::MAX), 0);
    assert_eq!(depth_for(i32::MIN), 0);
    assert_eq!(depth_for(0), i32::MAX);
}

#[test]
fn what_stands_lower_is_drawn_in_front() {
    let mut world = World::new();
    let mut low = Components::empty();
    low.layered = Some(Layered);
    low.transform = Some(Transform::at(5, 100_000, 500));
    let mut high = low;
    high.transform = Some(Transform::at(5, 400_000, 500));
    let mut flat = low;
    flat.layered = None;
    let mut nowhere = low;
    nowhere.transform = None;
    let low = world.create_entity(low);
    let high = world.create_entity(high);
    let flat = world.create_entity(flat);
    let nowhere = world.create_entity(nowhere);
    LayeringSystem.run(&mut world);
    let l = world.get(low).unwrap().transform.unwrap();
    let h = world.get(high).unwrap().transform.unwrap();
    assert_eq!((l.x, l.y, l.z), (5, 100_000, 6_400));
    assert_eq!((h.x, h.y, h.z), (5, 400_000, 1_600));
    assert!(l.z > h.z);
    assert_eq!(world.get(flat).unwrap().transform.unwrap().z, 500);
    assert!(world.get(nowhere).unwrap().transform.is_none());
}

#[test]
fn a_tick_runs_the_passes_in_their_order() {
    let mut world = World::new();
    let player = world.create_entity(new_unit(
        NpcVariant::Normal,
        SpriteSheetId::Warrior,
        [0, 320_000],
        false,
    ));
    let orc = world.create_entity(new_unit(NpcVariant::Orc, SpriteSheetId::Orc, [80_000, 320_000], false));
    let sheets = SpriteSheets {
        auras: None,
        floor: None,
        ceiling: None,
        walls: None,
        warrior: None,
        orc: None,
        camp_fire: None,
    };
    let input = CommandInput { pointer: None, button_down: false };
    let mut passes = Passes::new();

    // Targeting comes before combat: the orc sees the unit and sets out in
    // the same tick. Movement came before both: it has not moved yet.
    passes.run(&mut world, &input, &sheets, &Time { delta: 100, frame_number: 1 });
    let o = world.get(orc).unwrap();
    assert_eq!(o.can_target.unwrap().target, Some(player));
    assert_eq!(o.npc.unwrap().velocity, [-50_000, 0]);
    assert_eq!(o.npc.unwrap().move_coords, [18_750, 320_000]);
    let t = o.transform.unwrap();
    assert_eq!((t.x, t.y, t.z, t.scale_x), (80_000, 320_000, 2_000, 1000));
    assert!(o.idle.unwrap().anim.is_reset());
    let p = world.get(player).unwrap();
    assert_eq!(p.idle.unwrap().anim.elapsed_time, 100);
    assert_eq!(p.transform.unwrap().z, 2_000);
    assert!(p.can_target.unwrap().target.is_none());

    passes.run(&mut world, &input, &sheets, &Time { delta: 100, frame_number: 2 });
    let o = world.get(orc).unwrap();
    let t = o.transform.unwrap();
    assert_eq!((t.x, t.y, t.scale_x), (75_000, 320_000, -1000));
    assert_eq!(o.sprite.unwrap().sprite_number, 21);
    assert_eq!(o.walk.unwrap().anim.elapsed_time, 100);

    // The orc walks until the unit is within its reach, then hits it every thirty ticks.
    for frame in 3..=200 {
        passes.run(&mut world, &input, &sheets, &Time { delta: 100, frame_number: frame });
    }
    let o = world.get(orc).unwrap();
    assert_eq!(o.transform.unwrap().x, 20_000);
    assert_eq!(o.npc.unwrap().velocity, [0, 0]);
    let p = world.get(player).unwrap();
    assert_eq!(p.attackable.unwrap().health, 150_000 - 6 * 5_000);
    assert_eq!(world.len(), 2);
}
