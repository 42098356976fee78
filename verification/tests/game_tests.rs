use flappy_core::game::{collides_any, gs_frame, gs_init, gs_reset, gs_set_moving, GameState};
use flappy_core::{
    BIRD_START_X, BIRD_START_Y, OBSTACLE_X0, OBSTACLE_X1, SCORE_PER_OBSTACLE, SCREEN_WIDTH,
};

fn states_equal(a: &GameState, b: &GameState) -> bool {
    a.frame_counter == b.frame_counter
        && a.bird == b.bird
        && a.obstacles == b.obstacles
        && a.score == b.score
        && a.rng == b.rng
}

#[test]
fn init_snapshot() {
    let gs = gs_init([10, 13, 14, 15]);
    assert_eq!(gs.frame_counter, 0);
    assert_eq!(gs.score, 0);
    assert_eq!(gs.bird.rect.pos.x, BIRD_START_X);
    assert_eq!(gs.bird.rect.pos.y, BIRD_START_Y);
    assert_eq!(gs.bird.vel.y, 0);
    assert_eq!(gs.bird.accel.y, 0);
    assert!(!gs.bird.moving);
    assert_eq!(gs.obstacles.len(), 2);
    assert_eq!(gs.obstacles[0].top_pipe.rect.pos.x, OBSTACLE_X0);
    assert_eq!(gs.obstacles[1].top_pipe.rect.pos.x, OBSTACLE_X1);
    for o in gs.obstacles.iter() {
        assert!(!o.top_pipe.moving && !o.bot_pipe.moving && !o.passed);
    }
    // The two obstacles drew distinct placements from the seed.
    assert_eq!(gs.obstacles[0].top_pipe.rect.pos.y, -45);
    assert_eq!(gs.obstacles[1].top_pipe.rect.pos.y, -35);
}

#[test]
fn idle_frames_change_nothing_but_the_counter() {
    let mut gs = gs_init([10, 13, 14, 15]);
    let snapshot = gs_init([10, 13, 14, 15]);
    for _ in 0..10 {
        gs_frame(&mut gs, false);
    }
    assert_eq!(gs.frame_counter, 10);
    assert_eq!(gs.bird, snapshot.bird);
    assert_eq!(gs.obstacles, snapshot.obstacles);
    assert_eq!(gs.score, 0);
}

#[test]
fn flap_starts_everything_moving() {
    let mut gs = gs_init([10, 13, 14, 15]);
    gs_frame(&mut gs, true);
    assert!(gs.bird.moving);
    for o in gs.obstacles.iter() {
        assert!(o.top_pipe.moving && o.bot_pipe.moving);
    }
    // Obstacles stepped one unit leftward on that same frame.
    assert_eq!(gs.obstacles[0].top_pipe.rect.pos.x, OBSTACLE_X0 - 1);
    assert_eq!(gs.obstacles[1].top_pipe.rect.pos.x, OBSTACLE_X1 - 1);
    // The bird took the flap impulse on that same frame.
    assert_eq!(gs.bird.rect.pos.y, BIRD_START_Y - 3);
}

#[test]
fn deterministic_replay_bit_identical() {
    let mut a = gs_init([10, 13, 14, 15]);
    let mut b = gs_init([10, 13, 14, 15]);
    assert!(states_equal(&a, &b));
    for i in 0..200usize {
        let flap = i == 0 || i % 37 == 0;
        gs_frame(&mut a, flap);
        gs_frame(&mut b, flap);
        assert!(states_equal(&a, &b));
    }
}

#[test]
fn reset_restores_initial_snapshot() {
    let mut gs = gs_init([10, 13, 14, 15]);
    let snapshot = gs_init([10, 13, 14, 15]);
    // Play a while so the state is well scrambled.
    gs_frame(&mut gs, true);
    for _ in 0..20 {
        gs_frame(&mut gs, false);
    }
    gs_reset(&mut gs);
    assert_eq!(gs.bird, snapshot.bird);
    assert!(!gs.bird.moving);
    assert_eq!(gs.obstacles[0].top_pipe.rect.pos.x, OBSTACLE_X0);
    assert_eq!(gs.obstacles[1].top_pipe.rect.pos.x, OBSTACLE_X1);
    for o in gs.obstacles.iter() {
        assert!(!o.top_pipe.moving && !o.bot_pipe.moving && !o.passed);
    }
}

#[test]
fn collision_triggers_full_reset() {
    let mut gs = gs_init([10, 13, 14, 15]);
    gs_set_moving(&mut gs, true);
    // Put the bird low and an obstacle overlapping it: the second
    // obstacle's bottom pipe spans y in [85, 157) at this seed.
    gs.bird.rect.pos.y = 150;
    let mut o1 = gs.obstacles[1];
    o1.set_pos(40);
    gs.obstacles[1] = o1;
    assert!(collides_any(&gs.bird, &gs.obstacles));
    gs_frame(&mut gs, false);
    // Reset: bird back at the start, everything frozen.
    assert_eq!(gs.bird.rect.pos.y, BIRD_START_Y);
    assert_eq!(gs.bird.vel.y, 0);
    assert_eq!(gs.bird.accel.y, 0);
    assert!(!gs.bird.moving);
    assert_eq!(gs.obstacles[0].top_pipe.rect.pos.x, OBSTACLE_X0);
    assert_eq!(gs.obstacles[1].top_pipe.rect.pos.x, OBSTACLE_X1);
    for o in gs.obstacles.iter() {
        assert!(!o.top_pipe.moving && !o.bot_pipe.moving);
    }
    assert_eq!(gs.frame_counter, 1);
}

#[test]
fn run_after_flap_ends_in_reset_idle_state() {
    // One flap, then free fall: the bird sinks to the floor and the second
    // obstacle reaches it, so the round ends in a collision reset and the
    // remaining frames are frozen.
    let mut gs = gs_init([10, 13, 14, 15]);
    let snapshot = gs_init([10, 13, 14, 15]);
    gs_frame(&mut gs, true);
    for _ in 0..99 {
        gs_frame(&mut gs, false);
    }
    assert_eq!(gs.frame_counter, 100);
    assert_eq!(gs.bird, snapshot.bird);
    assert!(!gs.bird.moving);
    assert_eq!(gs.obstacles[0].top_pipe.rect.pos.x, OBSTACLE_X0);
    assert_eq!(gs.obstacles[1].top_pipe.rect.pos.x, OBSTACLE_X1);
    assert_eq!(gs.score, 0);
}

#[test]
fn passing_an_obstacle_scores_once() {
    let mut gs = gs_init([10, 13, 14, 15]);
    // Stand an obstacle just behind the bird: trailing edge 49 < 50.
    let mut o0 = gs.obstacles[0];
    o0.set_pos(25);
    gs.obstacles[0] = o0;
    gs_frame(&mut gs, false);
    assert_eq!(gs.score, SCORE_PER_OBSTACLE);
    assert!(gs.obstacles[0].passed);
    // Further frames do not award the same obstacle again.
    gs_frame(&mut gs, false);
    gs_frame(&mut gs, false);
    assert_eq!(gs.score, SCORE_PER_OBSTACLE);
}

#[test]
fn obstacle_not_yet_passed_scores_nothing() {
    let mut gs = gs_init([10, 13, 14, 15]);
    // Trailing edge exactly at the bird's position: not yet passed.
    let mut o0 = gs.obstacles[0];
    o0.set_pos(26);
    gs.obstacles[0] = o0;
    gs_frame(&mut gs, false);
    assert_eq!(gs.score, 0);
    assert!(!gs.obstacles[0].passed);
}

#[test]
fn score_is_monotone_over_a_run() {
    let mut gs = gs_init([10, 13, 14, 15]);
    let mut last = gs.score;
    gs_frame(&mut gs, true);
    for _ in 0..300 {
        gs_frame(&mut gs, false);
        assert!(gs.score >= last);
        last = gs.score;
    }
}

#[test]
fn frame_counter_advances_every_frame() {
    let mut gs = gs_init([1, 2, 3, 4]);
    for expected in 1..=25u32 {
        gs_frame(&mut gs, expected % 3 == 0);
        assert_eq!(gs.frame_counter, expected);
    }
}

#[test]
fn collides_any_reports_no_hit_at_start() {
    let gs = gs_init([10, 13, 14, 15]);
    assert!(!collides_any(&gs.bird, &gs.obstacles));
    assert_eq!(gs.obstacles[0].top_pipe.rect.pos.x, SCREEN_WIDTH);
}
