use tactics_core::components::animated::{Animation, FightAnimation, IdleAnimation, WalkAnimation};
use tactics_core::components::{SpriteRender, SpriteSheetId};

fn sprite(number: usize) -> SpriteRender {
    SpriteRender { sprite_sheet: SpriteSheetId::Warrior, sprite_number: number }
}

#[test]
fn new_animations_start_at_rest() {
    let idle = IdleAnimation::new(0, 20, 300);
    assert_eq!(idle.anim.start_sprite_index, 0);
    assert_eq!(idle.anim.frames, 20);
    assert_eq!(idle.anim.time_per_frame, 300);
    assert_eq!(idle.anim.current_frame, 0);
    assert_eq!(idle.anim.elapsed_time, 0);
    assert!(idle.anim.is_reset());
    let walk = WalkAnimation::new(20, 10, 100);
    assert_eq!(walk.anim.start_sprite_index, 20);
    assert!(walk.anim.is_reset());
    let fight = FightAnimation::new(30, 10, 100);
    assert_eq!(fight.anim.start_sprite_index, 30);
    assert_eq!(fight.anim.frames, 10);
    assert!(fight.anim.is_reset());
}

#[test]
fn animate_picks_the_frame_for_the_elapsed_time() {
    let mut walk = WalkAnimation::new(20, 10, 100);
    let mut render = sprite(20);
    walk.anim.animate(250, &mut render);
    assert_eq!(walk.anim.elapsed_time, 250);
    assert_eq!(walk.anim.current_frame, 2);
    assert_eq!(render.sprite_number, 22);
    walk.anim.animate(49, &mut render);
    assert_eq!(walk.anim.elapsed_time, 299);
    assert_eq!(walk.anim.current_frame, 2);
    assert_eq!(render.sprite_number, 22);
    walk.anim.animate(1, &mut render);
    assert_eq!(walk.anim.current_frame, 3);
    assert_eq!(render.sprite_number, 23);
}

#[test]
fn animate_wraps_around_the_cycle() {
    let mut walk = WalkAnimation::new(20, 10, 100);
    let mut render = sprite(20);
    walk.anim.animate(950, &mut render);
    assert_eq!(walk.anim.current_frame, 9);
    assert_eq!(render.sprite_number, 29);
    walk.anim.animate(100, &mut render);
    assert_eq!(walk.anim.elapsed_time, 1050);
    assert_eq!(walk.anim.current_frame, 0);
    assert_eq!(render.sprite_number, 20);
}

#[test]
fn animate_leaves_the_sprite_while_the_frame_stays() {
    let mut idle = IdleAnimation::new(5, 4, 200);
    let mut render = sprite(99);
    idle.anim.animate(100, &mut render);
    assert_eq!(idle.anim.current_frame, 0);
    assert_eq!(render.sprite_number, 99);
    assert_eq!(render.sprite_sheet, SpriteSheetId::Warrior);
    idle.anim.animate(100, &mut render);
    assert_eq!(idle.anim.current_frame, 1);
    assert_eq!(render.sprite_number, 6);
}

#[test]
fn reset_after_animate_restores_the_start() {
    let mut fight = FightAnimation::new(30, 10, 100);
    let mut render = sprite(30);
    fight.anim.animate(777, &mut render);
    assert!(!fight.anim.is_reset());
    fight.anim.reset();
    assert_eq!(fight.anim.current_frame, 0);
    assert_eq!(fight.anim.elapsed_time, 0);
    assert!(fight.anim.is_reset());
    assert_eq!(fight.anim.start_sprite_index, 30);
    assert_eq!(fight.anim.frames, 10);
    assert_eq!(fight.anim.time_per_frame, 100);
}

#[test]
fn animate_by_nothing_never_changes_the_frame() {
    let mut walk = WalkAnimation::new(20, 10, 100);
    let mut render = sprite(20);
    walk.anim.animate(430, &mut render);
    let frame = walk.anim.current_frame;
    let number = render.sprite_number;
    for _ in 0..25 {
        walk.anim.animate(0, &mut render);
        assert_eq!(walk.anim.current_frame, frame);
        assert_eq!(walk.anim.elapsed_time, 430);
        assert_eq!(render.sprite_number, number);
    }
    let mut fresh = IdleAnimation::new(0, 20, 300);
    let mut other = sprite(7);
    for _ in 0..5 {
        fresh.anim.animate(0, &mut other);
        assert_eq!(fresh.anim.current_frame, 0);
        assert_eq!(other.sprite_number, 7);
    }
}

#[test]
fn is_reset_needs_both_frame_and_time_at_zero() {
    let mut a = Animation {
        start_sprite_index: 0,
        frames: 4,
        current_frame: 0,
        time_per_frame: 100,
        elapsed_time: 50,
    };
    assert!(!a.is_reset());
    a.elapsed_time = 0;
    a.current_frame = 1;
    assert!(!a.is_reset());
    a.current_frame = 0;
    assert!(a.is_reset());
}

#[test]
fn the_clock_stops_at_the_end_of_its_range() {
    let mut a = Animation {
        start_sprite_index: 0,
        frames: 7,
        current_frame: 0,
        time_per_frame: 1,
        elapsed_time: u64::MAX - 5,
    };
    let mut render = sprite(0);
    a.animate(10, &mut render);
    assert_eq!(a.elapsed_time, u64::MAX);
    assert_eq!(a.current_frame, (u64::MAX % 7) as usize);
    a.animate(10, &mut render);
    assert_eq!(a.elapsed_time, u64::MAX);
}

#[test]
fn validity_of_animations() {
    assert!(IdleAnimation::new(0, 20, 300).anim.is_valid());
    assert!(!IdleAnimation::new(0, 0, 300).anim.is_valid());
    assert!(!IdleAnimation::new(0, 20, 0).anim.is_valid());
    assert!(!IdleAnimation::new(usize::MAX, 1, 300).anim.is_valid());
    assert!(IdleAnimation::new(usize::MAX - 1, 1, 300).anim.is_valid());
}
