use flappy_core::bird::Bird;
use flappy_core::{BIRD_SIZE, SCREEN_HEIGHT, TERMINAL_VELOCITY, VEL_MAX};

#[test]
fn frozen_bird_ignores_physics() {
    let mut b = Bird::new(50, 120);
    for _ in 0..10 {
        b.handle_movement(true);
    }
    assert_eq!(b.rect.pos.y, 120);
    assert_eq!(b.vel.y, 0);
    assert_eq!(b.accel.y, 0);
}

#[test]
fn flap_gives_exact_early_trajectory() {
    let mut b = Bird::new(50, 120);
    b.moving = true;
    b.handle_movement(true);
    assert_eq!((b.rect.pos.y, b.vel.y, b.accel.y), (117, 0, -285));
    b.handle_movement(false);
    assert_eq!((b.rect.pos.y, b.vel.y, b.accel.y), (115, 0, -270));
    b.handle_movement(false);
    assert_eq!((b.rect.pos.y, b.vel.y, b.accel.y), (113, 0, -255));
}

#[test]
fn bird_settles_at_floor_with_terminal_velocity() {
    // One flap, then a hundred frames of free fall: the bird ends resting
    // on the floor, falling at exactly the terminal rate.
    let mut b = Bird::new(50, SCREEN_HEIGHT * 3 / 4);
    b.moving = true;
    b.handle_movement(true);
    for _ in 0..100 {
        b.handle_movement(false);
    }
    assert_eq!(b.vel.y, TERMINAL_VELOCITY);
    assert_eq!(b.rect.pos.y, SCREEN_HEIGHT - BIRD_SIZE);
}

#[test]
fn bird_stays_on_screen_under_any_inputs() {
    // Constant flapping drives the bird to the ceiling; it never leaves
    // the screen in either direction.
    let mut b = Bird::new(50, 120);
    b.moving = true;
    for i in 0..500 {
        let flap = i % 2 == 0;
        b.handle_movement(flap);
        assert!(b.rect.pos.y >= 0);
        assert!(b.rect.pos.y <= SCREEN_HEIGHT - BIRD_SIZE);
        assert!(b.vel.y >= 0 && b.vel.y <= VEL_MAX);
    }
}

#[test]
fn ceiling_clamp_holds() {
    let mut b = Bird::new(50, 0);
    b.moving = true;
    for _ in 0..50 {
        b.handle_movement(true);
        assert!(b.rect.pos.y >= 0);
    }
    assert_eq!(b.rect.pos.y, 0);
}
