use tactics_core::components::animated::WalkAnimation;
use tactics_core::components::npc::Npc;
use tactics_core::components::tile::{FloorVariant, Tile, TileVariant};
use tactics_core::components::{SpriteRender, SpriteSheetId, Transform};
use tactics_core::systems::movement::{
    is_blocked, move_unit, next_position, point_distance, point_distance_squared, point_within,
    point_within_reach, step_length, tile_blocks, MovementSystem,
};
use tactics_core::world::{Components, Entity, Time, World};

fn mover(at: [i32; 2], velocity: [i32; 2], heading_for: [i32; 2]) -> Components {
    let mut c = Components::empty();
    c.transform = Some(Transform::at(at[0], at[1], 500));
    c.npc = Some(Npc { move_coords: heading_for, velocity, move_speed: 100_000, selected: true });
    c.walk = Some(WalkAnimation::new(20, 10, 100));
    c.sprite = Some(SpriteRender { sprite_sheet: SpriteSheetId::Warrior, sprite_number: 0 });
    c
}

fn rock(center: [i32; 2]) -> Components {
    let mut c = Components::empty();
    c.tile = Some(Tile::new(TileVariant::Ceiling, center));
    c
}

fn ground(center: [i32; 2]) -> Components {
    let mut c = Components::empty();
    c.tile = Some(Tile::new(TileVariant::Floor(FloorVariant::Empty), center));
    c
}

fn tick(delta: u32) -> Time {
    Time { delta, frame_number: 1 }
}

#[test]
fn distances_are_exact_when_squared_and_rounded_down_otherwise() {
    assert_eq!(point_distance_squared([0, 0], [3, 4]), 25);
    assert_eq!(point_distance([0, 0], [3, 4]), 5);
    assert_eq!(point_distance([0, 0], [1, 1]), 1);
    assert_eq!(point_distance([5, 5], [5, 5]), 0);
    assert_eq!(point_distance([-3_000, 0], [0, -4_000]), 5_000);
    assert_eq!(
        point_distance_squared([i32::MIN, i32::MIN], [i32::MAX, i32::MAX]),
        2 * (u32::MAX as u128) * (u32::MAX as u128)
    );
    assert_eq!(point_distance([i32::MIN, 0], [i32::MAX, 0]), u32::MAX as u64);
}

#[test]
fn reach_is_compared_exactly() {
    assert!(point_within_reach([0, 0], [3, 4], 5));
    assert!(!point_within_reach([0, 0], [3, 4], 4));
    assert!(point_within_reach([0, 0], [0, 0], 0));
    assert!(!point_within_reach([0, 0], [0, 0], -1));
    assert!(point_within_reach([0, 0], [30_000, 0], 30_000));
    assert!(!point_within_reach([0, 0], [30_000, 1], 30_000));
    assert!(point_within_reach([i32::MIN, 0], [i32::MAX, 0], i32::MAX) == false);
}

#[test]
fn arrival_has_a_margin_of_two_units_on_each_axis() {
    assert!(point_within([100_000, 100_000], [100_000, 100_000]));
    assert!(point_within([100_000, 100_000], [102_000, 98_000]));
    assert!(point_within([100_000, 100_000], [98_000, 102_000]));
    assert!(!point_within([100_000, 100_000], [102_001, 100_000]));
    assert!(!point_within([100_000, 100_000], [100_000, 97_999]));
    assert!(!point_within([i32::MAX, 0], [i32::MIN, 0]));
    assert!(point_within([i32::MAX, i32::MIN], [i32::MAX - 2_000, i32::MIN + 2_000]));
}

#[test]
fn a_step_is_speed_times_time() {
    assert_eq!(step_length(10_000, 16), 160);
    assert_eq!(step_length(-10_000, 16), -160);
    assert_eq!(step_length(100_000, 17), 1_700);
    assert_eq!(step_length(1, 999), 0);
    assert_eq!(step_length(-1, 999), 0);
    assert_eq!(step_length(7, 1_500), 10);
    assert_eq!(step_length(-7, 1_500), -10);
    assert_eq!(step_length(0, u32::MAX), 0);
    let t = Transform::at(i32::MAX - 10, i32::MIN + 10, 0);
    let npc = Npc { move_coords: [0, 0], velocity: [1_000, -1_000], move_speed: 0, selected: false };
    assert_eq!(next_position(&t, &npc, 1_000), [i32::MAX, i32::MIN]);
    assert_eq!(next_position(&t, &npc, 5), [i32::MAX - 5, i32::MIN + 5]);
}

#[test]
fn an_unhindered_unit_moves_by_speed_times_time() {
    let mut world = World::new();
    let e = world.create_entity(mover([100_000, 100_000], [10_000, 0], [500_000, 100_000]));
    world.create_entity(rock([200_000, 100_000]));
    MovementSystem.run(&mut world, &tick(16));
    let c = world.get(e).unwrap();
    let t = c.transform.unwrap();
    assert_eq!((t.x, t.y), (100_160, 100_000));
    assert_eq!(t.scale_x, 1000);
    assert_eq!(c.npc.unwrap().velocity, [10_000, 0]);
    assert_eq!(c.walk.unwrap().anim.elapsed_time, 16);
    MovementSystem.run(&mut world, &tick(1_000));
    let t = world.get(e).unwrap().transform.unwrap();
    assert_eq!((t.x, t.y), (110_160, 100_000));
}

#[test]
fn a_unit_that_would_overlap_a_blocking_tile_stops_where_it_is() {
    let mut world = World::new();
    world.create_entity(rock([120_000, 100_000]));
    let e = world.create_entity(mover([101_900, 100_000], [10_000, 0], [500_000, 100_000]));
    MovementSystem.run(&mut world, &tick(16));
    let c = world.get(e).unwrap();
    let t = c.transform.unwrap();
    assert_eq!((t.x, t.y), (101_900, 100_000));
    assert_eq!(c.npc.unwrap().velocity, [0, 0]);
    assert_eq!(c.npc.unwrap().move_coords, [500_000, 100_000]);
    assert_eq!(c.walk.unwrap().anim.elapsed_time, 16);
    MovementSystem.run(&mut world, &tick(16));
    let c = world.get(e).unwrap();
    assert_eq!(c.transform.unwrap().x, 101_900);
    assert_eq!(c.walk.unwrap().anim.elapsed_time, 16);
}

#[test]
fn floor_tiles_stop_nobody() {
    let mut world = World::new();
    world.create_entity(ground([120_000, 100_000]));
    let e = world.create_entity(mover([101_900, 100_000], [10_000, 0], [500_000, 100_000]));
    MovementSystem.run(&mut world, &tick(16));
    let c = world.get(e).unwrap();
    assert_eq!(c.transform.unwrap().x, 102_060);
    assert_eq!(c.npc.unwrap().velocity, [10_000, 0]);
}

#[test]
fn the_buffers_around_a_hit_box() {
    let tile = Tile::new(TileVariant::Ceiling, [120_000, 100_000]);
    assert!(tile_blocks(&tile, [102_000, 100_000]));
    assert!(!tile_blocks(&tile, [101_999, 100_000]));
    assert!(tile_blocks(&tile, [138_000, 100_000]));
    assert!(!tile_blocks(&tile, [138_001, 100_000]));
    assert!(tile_blocks(&tile, [120_000, 82_000]));
    assert!(!tile_blocks(&tile, [120_000, 81_999]));
    assert!(tile_blocks(&tile, [120_000, 128_000]));
    assert!(!tile_blocks(&tile, [120_000, 128_001]));
}

#[test]
fn tiles_further_than_thirty_units_are_not_looked_at() {
    let tile = Tile::new(TileVariant::Ceiling, [120_000, 100_000]);
    assert!(tile_blocks(&tile, [130_000, 128_000]));
    assert!(!tile_blocks(&tile, [138_000, 128_000]));
    assert!(!tile_blocks(&tile, [102_000, 128_000]));
    let mut wide = tile;
    wide.hit_box = [[0, 0], [400_000, 400_000]];
    assert!(tile_blocks(&wide, [120_000, 130_000]));
    assert!(!tile_blocks(&wide, [120_000, 130_001]));
    let mut open = tile;
    open.blocking = false;
    assert!(!tile_blocks(&open, [120_000, 100_000]));
}

#[test]
fn any_blocking_tile_of_the_world_blocks() {
    let mut world = World::new();
    assert!(!is_blocked(&world, [0, 0]));
    world.create_entity(ground([0, 0]));
    world.create_entity(mover([0, 0], [0, 0], [0, 0]));
    assert!(!is_blocked(&world, [0, 0]));
    let far = world.create_entity(rock([500_000, 500_000]));
    assert!(!is_blocked(&world, [0, 0]));
    assert!(is_blocked(&world, [500_000, 500_000]));
    world.create_entity(rock([16_000, 0]));
    assert!(is_blocked(&world, [0, 0]));
    world.delete(far);
    assert!(!is_blocked(&world, [500_000, 500_000]));
}

#[test]
fn a_unit_at_rest_is_left_alone() {
    let mut world = World::new();
    let e = world.create_entity(mover([100_000, 100_000], [0, 0], [100_000, 100_000]));
    MovementSystem.run(&mut world, &tick(16));
    let c = world.get(e).unwrap();
    assert_eq!(c.transform.unwrap().x, 100_000);
    assert_eq!(c.walk.unwrap().anim.elapsed_time, 0);
    assert_eq!(c.sprite.unwrap().sprite_number, 0);
}

#[test]
fn a_unit_that_arrives_stops_and_its_walk_is_reset() {
    let mut world = World::new();
    let e = world.create_entity(mover([100_000, 100_000], [0, 50_000], [100_000, 103_000]));
    MovementSystem.run(&mut world, &tick(20));
    let c = world.get(e).unwrap();
    assert_eq!(c.transform.unwrap().y, 101_000);
    assert_eq!(c.npc.unwrap().velocity, [0, 0]);
    assert!(c.walk.unwrap().anim.is_reset());
    let f = world.create_entity(mover([0, 0], [0, 50_000], [0, 3_001]));
    MovementSystem.run(&mut world, &tick(20));
    let c = world.get(f).unwrap();
    assert_eq!(c.transform.unwrap().y, 1_000);
    assert_eq!(c.npc.unwrap().velocity, [0, 50_000]);
    assert_eq!(c.walk.unwrap().anim.elapsed_time, 20);
}

#[test]
fn a_blocked_unit_at_its_destination_resets_its_walk() {
    let mut c = mover([101_900, 100_000], [10_000, 0], [101_900, 100_000]);
    move_unit(&mut c, true, 250);
    assert_eq!(c.transform.unwrap().x, 101_900);
    assert_eq!(c.npc.unwrap().velocity, [0, 0]);
    assert!(c.walk.unwrap().anim.is_reset());
    assert_eq!(c.sprite.unwrap().sprite_number, 22);
}

#[test]
fn a_unit_turns_to_face_the_way_it_goes() {
    let mut c = mover([100_000, 100_000], [-10_000, 0], [0, 100_000]);
    move_unit(&mut c, false, 100);
    let t = c.transform.unwrap();
    assert_eq!(t.x, 99_000);
    assert_eq!((t.scale_x, t.scale_y, t.scale_z), (-1000, 1000, 1000));
    move_unit(&mut c, false, 100);
    assert_eq!(c.transform.unwrap().scale_x, -1000);
    let mut npc = c.npc.unwrap();
    npc.velocity = [10_000, 0];
    c.npc = Some(npc);
    move_unit(&mut c, false, 100);
    assert_eq!(c.transform.unwrap().scale_x, 1000);
    let mut up = mover([0, 0], [0, 10_000], [0, 900_000]);
    let mut t = up.transform.unwrap();
    t.scale_x = -1000;
    t.scale_y = 700;
    up.transform = Some(t);
    move_unit(&mut up, false, 100);
    let t = up.transform.unwrap();
    assert_eq!((t.scale_x, t.scale_y), (-1000, 700));
    let mut blocked = mover([100_000, 100_000], [-10_000, 0], [0, 100_000]);
    move_unit(&mut blocked, true, 100);
    assert_eq!(blocked.transform.unwrap().scale_x, 1000);
}

#[test]
fn entities_that_lack_a_part_do_not_move() {
    let mut world = World::new();
    let mut no_walk = mover([0, 0], [10_000, 0], [900_000, 0]);
    no_walk.walk = None;
    let mut no_sprite = mover([0, 0], [10_000, 0], [900_000, 0]);
    no_sprite.sprite = None;
    let a = world.create_entity(no_walk);
    let b = world.create_entity(no_sprite);
    let gone = world.create_entity(mover([0, 0], [10_000, 0], [900_000, 0]));
    world.delete(gone);
    MovementSystem.run(&mut world, &tick(100));
    assert_eq!(world.get(a).unwrap().transform.unwrap().x, 0);
    assert_eq!(world.get(b).unwrap().transform.unwrap().x, 0);
    assert!(world.get(gone).is_none());
    assert_eq!(world.len(), 3);
    assert!(!world.is_alive(Entity { id: 2 }));
}
