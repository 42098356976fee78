//! The game state and the per-frame update: obstacles scroll, the bird
//! integrates one step, a collision resets the game to its idle start
//! state, passing an obstacle scores points, and the frame counter
//! advances.  The whole frame is a mathematical function of the previous
//! state and the frame's flap input, so a run is replayable from the seed
//! and the input script alone.

use vstd::prelude::*;

use crate::bird::{spec_step, Bird};
use crate::geometry::{collides, spec_overlaps, Rect, Vec2};
use crate::pipe::{spec_obstacle_tick, Obstacle};
use crate::rng::RandomSource;
use crate::{BIRD_SIZE, BIRD_START_X, BIRD_START_Y, OBSTACLE_COUNT, OBSTACLE_X0, OBSTACLE_X1,
    PIPE_WIDTH, SCORE_PER_OBSTACLE, SCREEN_WIDTH};

verus! {

/// The root of the simulation: the bird, the live obstacles, the score,
/// the frame counter and the random generator that places obstacle gaps.
pub struct GameState {
    pub frame_counter: u32,
    pub bird: Bird,
    pub obstacles: Vec<Obstacle>,
    pub score: u32,
    pub rng: RandomSource,
}

/// The mathematical model of a game state: the same fields with the
/// obstacle vector abstracted to a sequence.
#[verifier::ext_equal]
pub struct GameModel {
    pub frame_counter: u32,
    pub bird: Bird,
    pub obstacles: Seq<Obstacle>,
    pub score: u32,
    pub rng: RandomSource,
}

impl View for GameState {
    type V = GameModel;

    open spec fn view(&self) -> GameModel {
        GameModel {
            frame_counter: self.frame_counter,
            bird: self.bird,
            obstacles: self.obstacles@,
            score: self.score,
            rng: self.rng,
        }
    }
}

impl GameModel {
    /// A game state is well formed: the bird is well formed, the fixed
    /// number of obstacles are all well formed, and every entity agrees
    /// with the bird on whether the game is running.
    pub open spec fn wf(self) -> bool {
        &&& self.bird.wf()
        &&& self.obstacles.len() == OBSTACLE_COUNT
        &&& forall|i: int| 0 <= i < self.obstacles.len() ==> (#[trigger] self.obstacles[i]).wf()
        &&& forall|i: int|
            0 <= i < self.obstacles.len() ==> (#[trigger] self.obstacles[i]).top_pipe.moving
                == self.bird.moving
    }
}

impl GameState {
    /// Well-formedness of the state, through its model.
    pub open spec fn wf(self) -> bool {
        self@.wf()
    }
}

/// The bird as it stands at startup and after every reset.
pub open spec fn spec_initial_bird() -> Bird {
    Bird {
        rect: Rect {
            pos: Vec2 { x: BIRD_START_X, y: BIRD_START_Y },
            size: Vec2 { x: BIRD_SIZE, y: BIRD_SIZE },
        },
        vel: Vec2 { x: 0, y: 0 },
        accel: Vec2 { x: 0, y: 0 },
        moving: false,
    }
}

/// `o` with both pipes' `moving` flags set to `moving`.
pub open spec fn spec_obstacle_with_moving(o: Obstacle, moving: bool) -> Obstacle {
    Obstacle {
        top_pipe: crate::pipe::Pipe { height: o.top_pipe.height, rect: o.top_pipe.rect, moving },
        bot_pipe: crate::pipe::Pipe { height: o.bot_pipe.height, rect: o.bot_pipe.rect, moving },
        passed: o.passed,
    }
}

/// The model with every entity's `moving` flag set to `moving`.
pub open spec fn spec_set_moving(m: GameModel, moving: bool) -> GameModel {
    GameModel {
        frame_counter: m.frame_counter,
        bird: Bird { rect: m.bird.rect, vel: m.bird.vel, accel: m.bird.accel, moving },
        obstacles: m.obstacles.map_values(|o: Obstacle| spec_obstacle_with_moving(o, moving)),
        score: m.score,
        rng: m.rng,
    }
}

/// The horizontal position obstacle `i` is reset to: the obstacles stand
/// staggered, the first at the right screen edge, the rest at half the
/// screen width.
pub open spec fn spec_reset_x(i: int) -> i32 {
    if i == 0 {
        OBSTACLE_X0
    } else {
        OBSTACLE_X1
    }
}

/// `o` recycled for a fresh round: moved to `x`, frozen, not yet passed;
/// its vertical placement is kept.
pub open spec fn spec_obstacle_reset(o: Obstacle, x: i32) -> Obstacle {
    Obstacle {
        top_pipe: crate::pipe::Pipe {
            height: o.top_pipe.height,
            rect: Rect { pos: Vec2 { x, y: o.top_pipe.rect.pos.y }, size: o.top_pipe.rect.size },
            moving: false,
        },
        bot_pipe: crate::pipe::Pipe {
            height: o.bot_pipe.height,
            rect: Rect { pos: Vec2 { x, y: o.bot_pipe.rect.pos.y }, size: o.bot_pipe.rect.size },
            moving: false,
        },
        passed: false,
    }
}

/// The model after a full reset: the bird back at its start state, every
/// obstacle at its staggered start position with its vertical placement
/// kept, everything frozen.  Score, frame counter and generator state are
/// untouched.
pub open spec fn spec_reset(m: GameModel) -> GameModel {
    GameModel {
        frame_counter: m.frame_counter,
        bird: spec_initial_bird(),
        obstacles: Seq::new(
            m.obstacles.len(),
            |i: int| spec_obstacle_reset(m.obstacles[i], spec_reset_x(i)),
        ),
        score: m.score,
        rng: m.rng,
    }
}

/// True when the bird's box overlaps either of the obstacle's pipes.
pub open spec fn spec_obstacle_hit(b: Bird, o: Obstacle) -> bool {
    spec_overlaps(b.rect, o.top_pipe.rect) || spec_overlaps(b.rect, o.bot_pipe.rect)
}

/// True when the bird overlaps any pipe of any obstacle.
pub open spec fn spec_collides_any(b: Bird, obs: Seq<Obstacle>) -> bool {
    exists|i: int| 0 <= i < obs.len() && #[trigger] spec_obstacle_hit(b, obs[i])
}

/// The first `i` obstacles ticked in order, threading the generator state
/// through the recycling draws.
pub open spec fn spec_tick_prefix(obs: Seq<Obstacle>, rng: RandomSource, i: int) -> (Seq<
    Obstacle,
>, RandomSource)
    decreases i,
{
    if i <= 0 {
        (Seq::<Obstacle>::empty(), rng)
    } else {
        let prior = spec_tick_prefix(obs, rng, i - 1);
        let next = spec_obstacle_tick(obs[i - 1], prior.1);
        (prior.0.push(next.0), next.1)
    }
}

/// All obstacles ticked in order.
pub open spec fn spec_tick_obstacles(obs: Seq<Obstacle>, rng: RandomSource) -> (Seq<
    Obstacle,
>, RandomSource) {
    spec_tick_prefix(obs, rng, obs.len() as int)
}

/// True when the bird has newly passed obstacle `o`: the obstacle's
/// trailing edge is strictly left of the bird and no points have been
/// awarded for it yet.
pub open spec fn spec_passes(o: Obstacle, bird_x: int) -> bool {
    !o.passed && bird_x > o.top_pipe.rect.pos.x + PIPE_WIDTH
}

/// `o` with its pass recorded.
pub open spec fn spec_mark_passed(o: Obstacle) -> Obstacle {
    Obstacle { top_pipe: o.top_pipe, bot_pipe: o.bot_pipe, passed: true }
}

/// The score raised by one obstacle's worth of points, saturating at the
/// counter's maximum so the displayed score never moves backward.
pub open spec fn spec_score_add(s: u32) -> u32 {
    if s + SCORE_PER_OBSTACLE <= 0xffff_ffffu32 {
        (s + SCORE_PER_OBSTACLE) as u32
    } else {
        0xffff_ffffu32
    }
}

/// Scoring applied to the first `i` obstacles: each newly passed obstacle
/// is marked and awards its points exactly once.
pub open spec fn spec_score_prefix(obs: Seq<Obstacle>, bird_x: int, score: u32, i: int) -> (Seq<
    Obstacle,
>, u32)
    decreases i,
{
    if i <= 0 {
        (Seq::<Obstacle>::empty(), score)
    } else {
        let prior = spec_score_prefix(obs, bird_x, score, i - 1);
        let o = obs[i - 1];
        if spec_passes(o, bird_x) {
            (prior.0.push(spec_mark_passed(o)), spec_score_add(prior.1))
        } else {
            (prior.0.push(o), prior.1)
        }
    }
}

/// Scoring applied to all obstacles.
pub open spec fn spec_apply_scoring(obs: Seq<Obstacle>, bird_x: int, score: u32) -> (Seq<
    Obstacle,
>, u32) {
    spec_score_prefix(obs, bird_x, score, obs.len() as int)
}

/// The frame counter advanced by one, wrapping at the counter's maximum.
pub open spec fn spec_wrap_inc(c: u32) -> u32 {
    if c == 0xffff_ffffu32 {
        0
    } else {
        (c + 1) as u32
    }
}

/// One whole frame as a mathematical function: on a flap everything is set
/// moving; the obstacles tick; the bird integrates one step; a collision
/// triggers a full reset; newly passed obstacles score; the frame counter
/// advances.
pub open spec fn spec_frame(m: GameModel, flap: bool) -> GameModel {
    let m1 = if flap {
        spec_set_moving(m, true)
    } else {
        m
    };
    let ticked = spec_tick_obstacles(m1.obstacles, m1.rng);
    let bird2 = spec_step(m1.bird, flap);
    let m2 = GameModel {
        frame_counter: m.frame_counter,
        bird: bird2,
        obstacles: ticked.0,
        score: m.score,
        rng: ticked.1,
    };
    let m3 = if spec_collides_any(bird2, ticked.0) {
        spec_reset(m2)
    } else {
        m2
    };
    let scored = spec_apply_scoring(m3.obstacles, m3.bird.rect.pos.x as int, m3.score);
    GameModel {
        frame_counter: spec_wrap_inc(m.frame_counter),
        bird: m3.bird,
        obstacles: scored.0,
        score: scored.1,
        rng: m3.rng,
    }
}

/// The model after a whole run: `inputs[k]` is frame `k`'s flap input.
pub open spec fn spec_run_frames(m: GameModel, inputs: Seq<bool>) -> GameModel
    decreases inputs.len(),
{
    if inputs.len() == 0 {
        m
    } else {
        spec_run_frames(spec_frame(m, inputs.first()), inputs.drop_first())
    }
}

/// The freshly constructed game for a seed: bird at its start position,
/// two obstacles drawn from the seeded generator and then reset to their
/// staggered start positions, everything frozen, score and counter zero.
pub open spec fn spec_init(seed: [u32; 4]) -> GameModel {
    let rng0 = RandomSource { s0: seed[0], s1: seed[1], s2: seed[2], s3: seed[3] };
    let o0 = crate::pipe::spec_obstacle_at(crate::rng::spec_next_value(rng0), 0, false);
    let rng1 = crate::rng::spec_next_state(rng0);
    let o1 = crate::pipe::spec_obstacle_at(crate::rng::spec_next_value(rng1), 0, false);
    let rng2 = crate::rng::spec_next_state(rng1);
    spec_reset(
        GameModel {
            frame_counter: 0,
            bird: spec_initial_bird(),
            obstacles: seq![o0, o1],
            score: 0,
            rng: rng2,
        },
    )
}

/// True exactly when the bird overlaps some pipe of some obstacle.
pub fn collides_any(bird: &Bird, obstacles: &Vec<Obstacle>) -> (r: bool)
    ensures
        r == spec_collides_any(*bird, obstacles@),
{
    let n = obstacles.len();
    let mut i: usize = 0;
    while i < n
        invariant
            i <= n,
            n == obstacles@.len(),
            forall|j: int| 0 <= j < i ==> !#[trigger] spec_obstacle_hit(*bird, obstacles@[j]),
        decreases n - i,
    {
        let o = &obstacles[i];
        if collides(bird, &o.top_pipe) || collides(bird, &o.bot_pipe) {
            assert(spec_obstacle_hit(*bird, obstacles@[i as int]));
            return true;
        }
        i += 1;
    }
    false
}

/// Sets every entity's `moving` flag: `true` starts the run, `false`
/// freezes the game into its idle state.
pub fn gs_set_moving(gs: &mut GameState, moving: bool)
    requires
        old(gs)@.obstacles.len() == OBSTACLE_COUNT,
    ensures
        final(gs)@ == spec_set_moving(old(gs)@, moving),
        old(gs).wf() ==> final(gs).wf(),
{
    gs.bird.moving = moving;
    let mut o0 = gs.obstacles[0];
    o0.top_pipe.moving = moving;
    o0.bot_pipe.moving = moving;
    gs.obstacles[0] = o0;
    let mut o1 = gs.obstacles[1];
    o1.top_pipe.moving = moving;
    o1.bot_pipe.moving = moving;
    gs.obstacles[1] = o1;
    proof {
        assert(gs@.obstacles =~= spec_set_moving(old(gs)@, moving).obstacles);
        assert(gs@ =~= spec_set_moving(old(gs)@, moving));
    }
}

/// Full reset: the bird back to its start state, the obstacles to their
/// staggered start positions with their vertical placement kept, their
/// pass credits cleared, and everything frozen.  Score, frame counter and
/// generator state stay as they are.
pub fn gs_reset(gs: &mut GameState)
    requires
        old(gs)@.obstacles.len() == OBSTACLE_COUNT,
        forall|i: int| 0 <= i < old(gs)@.obstacles.len() ==> (#[trigger] old(
            gs,
        )@.obstacles[i]).wf(),
    ensures
        final(gs)@ == spec_reset(old(gs)@),
        final(gs).wf(),
{
    gs.bird = Bird::new(BIRD_START_X, BIRD_START_Y);
    let mut o0 = gs.obstacles[0];
    o0.set_pos(OBSTACLE_X0);
    o0.passed = false;
    gs.obstacles[0] = o0;
    let mut o1 = gs.obstacles[1];
    o1.set_pos(OBSTACLE_X1);
    o1.passed = false;
    gs.obstacles[1] = o1;
    gs_set_moving(gs, false);
    proof {
        assert(gs@.obstacles =~= spec_reset(old(gs)@).obstacles);
        assert(gs@ =~= spec_reset(old(gs)@));
    }
}

/// Builds the game for a seed: the bird at its start position, two
/// freshly drawn obstacles reset to their staggered start positions,
/// everything frozen, score and frame counter zero.
pub fn gs_init(seed: [u32; 4]) -> (r: GameState)
    ensures
        r@ == spec_init(seed),
        r.wf(),
{
    let mut rng = RandomSource::new_with_seed(seed);
    let bird = Bird::new(BIRD_START_X, BIRD_START_Y);
    let o0 = Obstacle::new(&mut rng, 0);
    let o1 = Obstacle::new(&mut rng, 0);
    let mut obstacles: Vec<Obstacle> = Vec::new();
    obstacles.push(o0);
    obstacles.push(o1);
    let mut r = GameState { frame_counter: 0, bird, obstacles, score: 0, rng };
    proof {
        assert(r@.obstacles =~= seq![o0, o1]);
    }
    gs_reset(&mut r);
    proof {
        assert(r@ =~= spec_init(seed));
    }
    r
}

/// One whole frame: on a flap everything is set moving; the obstacles
/// scroll one tick each, recycling with fresh placements as they leave
/// the screen; the bird integrates one step; on a collision the game
/// resets to its idle start state; newly passed obstacles score; the
/// frame counter advances.
pub fn gs_frame(gs: &mut GameState, flap: bool)
    requires
        old(gs).wf(),
    ensures
        final(gs)@ == spec_frame(old(gs)@, flap),
        final(gs).wf(),
{
    if flap {
        gs_set_moving(gs, true);
    }
    let ghost m1 = gs@;
    assert(m1 == if flap { spec_set_moving(old(gs)@, true) } else { old(gs)@ });
    assert(m1.wf());

    // Obstacles advance one tick each, threading the generator.
    let ghost obs_before = gs.obstacles@;
    let ghost rng_before = gs.rng;
    let n = gs.obstacles.len();
    let mut i: usize = 0;
    while i < n
        invariant
            i <= n,
            n == gs.obstacles@.len(),
            n == obs_before.len(),
            forall|j: int| 0 <= j < n ==> (#[trigger] obs_before[j]).wf(),
            forall|j: int| i <= j < n ==> gs.obstacles@[j] == obs_before[j],
            gs.obstacles@.take(i as int) == spec_tick_prefix(obs_before, rng_before, i as int).0,
            gs.rng == spec_tick_prefix(obs_before, rng_before, i as int).1,
            forall|j: int| 0 <= j < i ==> (#[trigger] gs.obstacles@[j]).wf(),
            forall|j: int|
                0 <= j < i ==> (#[trigger] gs.obstacles@[j]).top_pipe.moving
                    == obs_before[j].top_pipe.moving,
            gs.bird == m1.bird,
            gs.frame_counter == m1.frame_counter,
            gs.score == m1.score,
        decreases n - i,
    {
        let ghost pre = gs.obstacles@;
        let mut ob = gs.obstacles[i];
        proof {
            assert(ob == obs_before[i as int]);
            assert(obs_before[i as int].wf());
        }
        ob.move_tick(&mut gs.rng);
        gs.obstacles[i] = ob;
        proof {
            assert(gs.obstacles@.take(i as int) =~= pre.take(i as int));
            assert(gs.obstacles@.take(i + 1 as int) =~= pre.take(i as int).push(ob));
        }
        i += 1;
    }
    proof {
        assert(gs.obstacles@.take(n as int) =~= gs.obstacles@);
    }
    let ghost ticked = spec_tick_obstacles(m1.obstacles, m1.rng);
    assert(gs.obstacles@ == ticked.0);
    assert(gs.rng == ticked.1);

    // The bird integrates one step.
    gs.bird.handle_movement(flap);
    assert(gs.bird == spec_step(m1.bird, flap));

    // Collision ends the round: full reset.
    let hit = collides_any(&gs.bird, &gs.obstacles);
    if hit {
        gs_reset(gs);
    }
    let ghost m3 = gs@;

    // Newly passed obstacles score, once each.
    let ghost obs_mid = gs.obstacles@;
    let ghost score_mid = gs.score;
    let ghost bx = gs.bird.rect.pos.x as int;
    let mut k: usize = 0;
    let n2 = gs.obstacles.len();
    while k < n2
        invariant
            k <= n2,
            n2 == gs.obstacles@.len(),
            n2 == obs_mid.len(),
            forall|j: int| 0 <= j < n2 ==> (#[trigger] obs_mid[j]).wf(),
            forall|j: int| k <= j < n2 ==> gs.obstacles@[j] == obs_mid[j],
            gs.obstacles@.take(k as int) == spec_score_prefix(obs_mid, bx, score_mid, k as int).0,
            gs.score == spec_score_prefix(obs_mid, bx, score_mid, k as int).1,
            forall|j: int| 0 <= j < k ==> (#[trigger] gs.obstacles@[j]).wf(),
            forall|j: int|
                0 <= j < k ==> (#[trigger] gs.obstacles@[j]).top_pipe.moving
                    == obs_mid[j].top_pipe.moving,
            gs.bird == m3.bird,
            bx == gs.bird.rect.pos.x as int,
            gs.frame_counter == m3.frame_counter,
            gs.rng == m3.rng,
        decreases n2 - k,
    {
        let ghost pre = gs.obstacles@;
        let o = gs.obstacles[k];
        proof {
            assert(o == obs_mid[k as int]);
            assert(obs_mid[k as int].wf());
        }
        if !o.passed && gs.bird.rect.pos.x > o.top_pipe.rect.pos.x + PIPE_WIDTH {
            let mut o2 = o;
            o2.passed = true;
            gs.obstacles[k] = o2;
            if gs.score <= 0xffff_ffffu32 - SCORE_PER_OBSTACLE {
                gs.score = gs.score + SCORE_PER_OBSTACLE;
            } else {
                gs.score = 0xffff_ffffu32;
            }
            proof {
                assert(gs.obstacles@.take(k as int) =~= pre.take(k as int));
                assert(gs.obstacles@.take(k + 1 as int) =~= pre.take(k as int).push(o2));
            }
        } else {
            proof {
                assert(gs.obstacles@.take(k + 1 as int) =~= pre.take(k as int).push(o));
            }
        }
        k += 1;
    }
    proof {
        assert(gs.obstacles@.take(n2 as int) =~= gs.obstacles@);
    }

    // The frame counter advances, wrapping at its maximum.
    if gs.frame_counter == 0xffff_ffffu32 {
        gs.frame_counter = 0;
    } else {
        gs.frame_counter = gs.frame_counter + 1;
    }
    proof {
        assert(gs@ =~= spec_frame(old(gs)@, flap));
    }
}

/// The game is deterministic: one seed and one input script give one run.
/// Two runs from equal states under equal inputs pass through equal
/// states, frame for frame.
pub proof fn lemma_deterministic_replay(a: GameModel, b: GameModel, inputs: Seq<bool>)
    requires
        a == b,
    ensures
        spec_run_frames(a, inputs) == spec_run_frames(b, inputs),
{
}

/// Setting every `moving` flag keeps the model well formed.
pub proof fn lemma_set_moving_wf(m: GameModel, moving: bool)
    requires
        m.wf(),
    ensures
        spec_set_moving(m, moving).wf(),
{
    let after = spec_set_moving(m, moving);
    assert forall|i: int| 0 <= i < after.obstacles.len() implies (
    #[trigger] after.obstacles[i]).wf() by {
        assert(after.obstacles[i] == spec_obstacle_with_moving(m.obstacles[i], moving));
        assert(m.obstacles[i].wf());
    }
}

/// Ticking the first `i` obstacles of a well-formed row yields `i` well-
/// formed obstacles with their `moving` flags kept.
pub proof fn lemma_tick_prefix_wf(obs: Seq<Obstacle>, rng: RandomSource, i: int)
    requires
        0 <= i <= obs.len(),
        forall|j: int| 0 <= j < obs.len() ==> (#[trigger] obs[j]).wf(),
    ensures
        spec_tick_prefix(obs, rng, i).0.len() == i,
        forall|j: int| 0 <= j < i ==> (#[trigger] spec_tick_prefix(obs, rng, i).0[j]).wf(),
        forall|j: int|
            0 <= j < i ==> (#[trigger] spec_tick_prefix(obs, rng, i).0[j]).top_pipe.moving
                == obs[j].top_pipe.moving,
    decreases i,
{
    if i > 0 {
        lemma_tick_prefix_wf(obs, rng, i - 1);
        crate::pipe::lemma_obstacle_tick_wf(obs[i - 1], spec_tick_prefix(obs, rng, i - 1).1);
    }
}

/// Scoring the first `i` obstacles of a well-formed row yields `i` well-
/// formed obstacles with their `moving` flags kept.
pub proof fn lemma_score_prefix_wf(obs: Seq<Obstacle>, bird_x: int, score: u32, i: int)
    requires
        0 <= i <= obs.len(),
        forall|j: int| 0 <= j < obs.len() ==> (#[trigger] obs[j]).wf(),
    ensures
        spec_score_prefix(obs, bird_x, score, i).0.len() == i,
        forall|j: int|
            0 <= j < i ==> (#[trigger] spec_score_prefix(obs, bird_x, score, i).0[j]).wf(),
        forall|j: int|
            0 <= j < i ==> (#[trigger] spec_score_prefix(
                obs,
                bird_x,
                score,
                i,
            ).0[j]).top_pipe.moving == obs[j].top_pipe.moving,
    decreases i,
{
    if i > 0 {
        lemma_score_prefix_wf(obs, bird_x, score, i - 1);
    }
}

/// A reset of a model with a well-formed obstacle row is well formed.
pub proof fn lemma_reset_wf(m: GameModel)
    requires
        m.obstacles.len() == OBSTACLE_COUNT,
        forall|i: int| 0 <= i < m.obstacles.len() ==> (#[trigger] m.obstacles[i]).wf(),
    ensures
        spec_reset(m).wf(),
{
    let after = spec_reset(m);
    assert forall|i: int| 0 <= i < after.obstacles.len() implies (
    #[trigger] after.obstacles[i]).wf() by {
        assert(after.obstacles[i] == spec_obstacle_reset(m.obstacles[i], spec_reset_x(i)));
        assert(m.obstacles[i].wf());
    }
}

/// A frame of a well-formed model is well formed: the bird stays on
/// screen and within its clamps, and the obstacle row keeps its shape,
/// whatever the input and whatever the collision and scoring outcomes.
pub proof fn lemma_frame_preserves_wf(m: GameModel, flap: bool)
    requires
        m.wf(),
    ensures
        spec_frame(m, flap).wf(),
{
    let m1 = if flap {
        spec_set_moving(m, true)
    } else {
        m
    };
    if flap {
        lemma_set_moving_wf(m, true);
    }
    let ticked = spec_tick_obstacles(m1.obstacles, m1.rng);
    lemma_tick_prefix_wf(m1.obstacles, m1.rng, m1.obstacles.len() as int);
    let bird2 = spec_step(m1.bird, flap);
    crate::bird::lemma_step_preserves_wf(m1.bird, flap);
    let m2 = GameModel {
        frame_counter: m.frame_counter,
        bird: bird2,
        obstacles: ticked.0,
        score: m.score,
        rng: ticked.1,
    };
    assert(m2.wf());
    let m3 = if spec_collides_any(bird2, ticked.0) {
        spec_reset(m2)
    } else {
        m2
    };
    if spec_collides_any(bird2, ticked.0) {
        lemma_reset_wf(m2);
    }
    lemma_score_prefix_wf(
        m3.obstacles,
        m3.bird.rect.pos.x as int,
        m3.score,
        m3.obstacles.len() as int,
    );
}

/// Over any whole run the game stays well formed; in particular the bird
/// never leaves the screen, whatever the input script.
pub proof fn lemma_run_stays_wf(m: GameModel, inputs: Seq<bool>)
    requires
        m.wf(),
    ensures
        spec_run_frames(m, inputs).wf(),
        0 <= spec_run_frames(m, inputs).bird.rect.pos.y <= crate::SCREEN_HEIGHT - BIRD_SIZE,
    decreases inputs.len(),
{
    if inputs.len() > 0 {
        lemma_frame_preserves_wf(m, inputs.first());
        lemma_run_stays_wf(spec_frame(m, inputs.first()), inputs.drop_first());
    }
}

/// Scoring can only raise the score, however many obstacles it credits.
pub proof fn lemma_score_prefix_monotone(obs: Seq<Obstacle>, bird_x: int, score: u32, i: int)
    ensures
        spec_score_prefix(obs, bird_x, score, i).1 >= score,
    decreases i,
{
    if i > 0 {
        lemma_score_prefix_monotone(obs, bird_x, score, i - 1);
    }
}

/// The exposed score never moves backward: no frame — scrolling, falling,
/// collision reset or scoring — lowers it.
pub proof fn lemma_score_never_decreases(m: GameModel, flap: bool)
    ensures
        spec_frame(m, flap).score >= m.score,
{
    let m1 = if flap {
        spec_set_moving(m, true)
    } else {
        m
    };
    let ticked = spec_tick_obstacles(m1.obstacles, m1.rng);
    let bird2 = spec_step(m1.bird, flap);
    let m2 = GameModel {
        frame_counter: m.frame_counter,
        bird: bird2,
        obstacles: ticked.0,
        score: m.score,
        rng: ticked.1,
    };
    let m3 = if spec_collides_any(bird2, ticked.0) {
        spec_reset(m2)
    } else {
        m2
    };
    lemma_score_prefix_monotone(
        m3.obstacles,
        m3.bird.rect.pos.x as int,
        m3.score,
        m3.obstacles.len() as int,
    );
}

/// Ticking a frozen obstacle row changes nothing and draws nothing.
pub proof fn lemma_tick_prefix_frozen(obs: Seq<Obstacle>, rng: RandomSource, i: int)
    requires
        0 <= i <= obs.len(),
        forall|j: int| 0 <= j < obs.len() ==> !(#[trigger] obs[j]).top_pipe.moving,
    ensures
        spec_tick_prefix(obs, rng, i).0 == obs.take(i),
        spec_tick_prefix(obs, rng, i).1 == rng,
    decreases i,
{
    if i > 0 {
        lemma_tick_prefix_frozen(obs, rng, i - 1);
        assert(obs.take(i - 1).push(obs[i - 1]) =~= obs.take(i));
    } else {
        assert(spec_tick_prefix(obs, rng, i).0 =~= obs.take(i));
    }
}

/// Scoring a row in which nothing is newly passed changes nothing.
pub proof fn lemma_score_prefix_no_pass(obs: Seq<Obstacle>, bird_x: int, score: u32, i: int)
    requires
        0 <= i <= obs.len(),
        forall|j: int| 0 <= j < obs.len() ==> !spec_passes(#[trigger] obs[j], bird_x),
    ensures
        spec_score_prefix(obs, bird_x, score, i).0 == obs.take(i),
        spec_score_prefix(obs, bird_x, score, i).1 == score,
    decreases i,
{
    if i > 0 {
        lemma_score_prefix_no_pass(obs, bird_x, score, i - 1);
        assert(obs.take(i - 1).push(obs[i - 1]) =~= obs.take(i));
    } else {
        assert(spec_score_prefix(obs, bird_x, score, i).0 =~= obs.take(i));
    }
}

/// In the idle state — everything frozen, no overlap standing, nothing
/// left to score — a frame without input advances the frame counter and
/// nothing else.
pub proof fn lemma_idle_frame_only_counts(m: GameModel)
    requires
        m.wf(),
        !m.bird.moving,
        !spec_collides_any(m.bird, m.obstacles),
        forall|i: int|
            0 <= i < m.obstacles.len() ==> !spec_passes(
                #[trigger] m.obstacles[i],
                m.bird.rect.pos.x as int,
            ),
    ensures
        spec_frame(m, false).bird == m.bird,
        spec_frame(m, false).obstacles == m.obstacles,
        spec_frame(m, false).score == m.score,
        spec_frame(m, false).rng == m.rng,
        spec_frame(m, false).frame_counter == spec_wrap_inc(m.frame_counter),
{
    let len = m.obstacles.len() as int;
    lemma_tick_prefix_frozen(m.obstacles, m.rng, len);
    assert(m.obstacles.take(len) =~= m.obstacles);
    lemma_score_prefix_no_pass(m.obstacles, m.bird.rect.pos.x as int, m.score, len);
}

/// A reset returns the game to its startup snapshot, up to the vertical
/// placement the obstacles drew: the bird is exactly the freshly
/// constructed bird, and every obstacle stands frozen, not yet passed, at
/// the same staggered start position a fresh game gives it.
pub proof fn lemma_reset_matches_init(m: GameModel, seed: [u32; 4])
    ensures
        spec_reset(m).bird == spec_init(seed).bird,
        !spec_reset(m).bird.moving,
        spec_reset(m).obstacles.len() == m.obstacles.len(),
        forall|i: int|
            0 <= i < spec_reset(m).obstacles.len() ==> !(#[trigger] spec_reset(
                m,
            ).obstacles[i]).top_pipe.moving && !spec_reset(m).obstacles[i].bot_pipe.moving
                && !spec_reset(m).obstacles[i].passed,
        forall|i: int|
            0 <= i < spec_reset(m).obstacles.len() && i < spec_init(seed).obstacles.len() ==> (
            #[trigger] spec_reset(m).obstacles[i]).top_pipe.rect.pos.x == spec_init(
                seed,
            ).obstacles[i].top_pipe.rect.pos.x,
        spec_reset(m).frame_counter == m.frame_counter,
        spec_reset(m).score == m.score,
        spec_reset(m).rng == m.rng,
{
}

} // verus!
