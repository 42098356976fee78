use flappy_core::geometry::Vec2;
use flappy_core::pipe::{Obstacle, Pipe};
use flappy_core::rng::RandomSource;
use flappy_core::{GAP, MAX_PIPE_HEIGHT, PIPE_WIDTH, SCREEN_HEIGHT, SCREEN_WIDTH, TILE};

#[test]
fn placement_gap_is_exact() {
    let mut rng = RandomSource::new_with_seed([10, 13, 14, 15]);
    for _ in 0..50 {
        let p = Obstacle::create_pipe_pos_and_height(&mut rng);
        assert_eq!(p.bot_pipe_top - (p.top_pipe_top + p.top_pipe_height), GAP);
        assert!(0 <= p.top_pipe_top + p.top_pipe_height);
        assert!(p.top_pipe_top + p.top_pipe_height <= SCREEN_HEIGHT);
        assert_eq!(p.top_pipe_height, MAX_PIPE_HEIGHT);
        assert!(p.top_pipe_top <= 0);
        assert_eq!(p.bot_pipe_top + p.bot_pipe_height, SCREEN_HEIGHT);
    }
}

#[test]
fn placement_known_values_for_fixed_seed() {
    let mut rng = RandomSource::new_with_seed([10, 13, 14, 15]);
    let p = Obstacle::create_pipe_pos_and_height(&mut rng);
    // First draw is 30845; 30845 % 56 == 45.
    assert_eq!(p.top_pipe_top, -45);
    assert_eq!(p.bot_pipe_top, 75);
    assert_eq!(p.bot_pipe_height, 85);
}

#[test]
fn new_obstacle_pipes_are_aligned_with_gap() {
    let mut rng = RandomSource::new_with_seed([10, 13, 14, 15]);
    let o = Obstacle::new(&mut rng, 100);
    assert_eq!(o.top_pipe.rect.pos.x, 100);
    assert_eq!(o.bot_pipe.rect.pos.x, 100);
    assert_eq!(
        o.bot_pipe.rect.pos.y,
        o.top_pipe.rect.pos.y + o.top_pipe.rect.size.y + GAP
    );
    assert!(o.bot_pipe.rect.pos.y + o.bot_pipe.rect.size.y <= SCREEN_HEIGHT);
    assert!(!o.top_pipe.moving && !o.bot_pipe.moving && !o.passed);
}

#[test]
fn set_height_drives_bounding_box() {
    let mut p = Pipe::new();
    assert_eq!(p.rect.size, Vec2 { x: PIPE_WIDTH, y: 0 });
    p.set_height(7);
    assert_eq!(p.height, 7);
    assert_eq!(p.rect.size, Vec2 { x: PIPE_WIDTH, y: 7 * TILE });
}

#[test]
fn move_tick_scrolls_left_while_moving() {
    let mut rng = RandomSource::new_with_seed([1, 2, 3, 4]);
    let mut o = Obstacle::new(&mut rng, 100);
    let before = o;
    o.move_tick(&mut rng);
    // Not moving yet: nothing changes.
    assert_eq!(o, before);
    o.top_pipe.moving = true;
    o.bot_pipe.moving = true;
    o.move_tick(&mut rng);
    assert_eq!(o.top_pipe.rect.pos.x, 99);
    assert_eq!(o.bot_pipe.rect.pos.x, 99);
    // The vertical placement is untouched by plain scrolling.
    assert_eq!(o.top_pipe.rect.pos.y, before.top_pipe.rect.pos.y);
}

#[test]
fn wraparound_recycles_with_fresh_placement() {
    let mut rng = RandomSource::new_with_seed([10, 13, 14, 15]);
    let mut o = Obstacle::new(&mut rng, 0);
    o.top_pipe.moving = true;
    o.bot_pipe.moving = true;
    o.passed = true;
    let rng_before = rng;
    let old_top_y = o.top_pipe.rect.pos.y;
    // Walk the obstacle off the left edge; it must reappear at the right.
    let mut wrapped = false;
    for _ in 0..(PIPE_WIDTH + 2) {
        o.move_tick(&mut rng);
        if o.top_pipe.rect.pos.x == SCREEN_WIDTH {
            wrapped = true;
            break;
        }
    }
    assert!(wrapped);
    // Recycling drew a fresh placement and cleared the pass credit.
    assert_ne!(rng, rng_before);
    assert!(!o.passed);
    assert!(o.top_pipe.moving && o.bot_pipe.moving);
    // The second draw of this seed gives offset 2051 % 56 == 35.
    assert_eq!(o.top_pipe.rect.pos.y, -35);
    assert_ne!(o.top_pipe.rect.pos.y, old_top_y);
    assert_eq!(
        o.bot_pipe.rect.pos.y,
        o.top_pipe.rect.pos.y + o.top_pipe.rect.size.y + GAP
    );
}
