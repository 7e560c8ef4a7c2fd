//! The whole simulation: its state, and the tick that advances it.

use vstd::prelude::*;
use crate::bird::{
    apply_bird_gravity, apply_bird_velocity, bird_pipe_collisions, bird_point_collisions,
    game_start, move_bird, Bird, BirdCollisionEvent, BirdState,
};
use crate::config::{within, Role, SimConfig, PARAM_LIMIT};
use crate::geometry::Point;
use crate::game_over::restart;
use crate::heights::HeightSource;
use crate::high_score::{best, update_highscore, HighScore};
use crate::pipes::{
    advance_all, apply_pipes_velocity, arranged, heights_fit, ints, pair_ok, placed_anew,
    restart_all, scroll_all, scroll_pipes, spawn_all, spawn_pairs, states, Obstacle,
    ObstacleState,
};
use crate::scoreboard::Scoreboard;
use crate::AppState;

verus! {

/// Everything the simulation holds between two ticks.
pub struct SimContext {
    pub config: SimConfig,
    pub state: AppState,
    pub bird: Bird,
    pub obstacles: Vec<Obstacle>,
    pub scoreboard: Scoreboard,
    pub high_score: HighScore,
}

/// What a [`SimContext`] stands for, apart from its constants.
pub struct SimState {
    pub state: AppState,
    pub bird: BirdState,
    pub obstacles: Seq<ObstacleState>,
    pub score: int,
    pub high_score: int,
}

impl View for SimContext {
    type V = SimState;

    open spec fn view(&self) -> SimState {
        SimState {
            state: self.state,
            bird: self.bird@,
            obstacles: states(self.obstacles@),
            score: self.scoreboard.score as int,
            high_score: self.high_score.highscore as int,
        }
    }
}

/// What comes into a tick from outside.
#[derive(Clone, Copy, Debug, PartialEq, Eq, Structural)]
pub struct TickInput {
    /// Whether a jump was requested in this tick: true only in the tick in
    /// which the key or button went down.
    pub jump: bool,
}

/// What a tick reports.
#[derive(Clone, Copy, Debug, PartialEq, Eq, Structural)]
pub struct TickResult {
    /// The state after the tick.
    pub state: AppState,
    /// Whether the bird ran into a pipe in this tick.
    pub collision: Option<BirdCollisionEvent>,
    /// The number of markers that scored in this tick.
    pub points: i128,
}

impl SimState {
    /// The state at the start, for the heights `hs`, one for each pair.
    pub open spec fn fresh(cfg: SimConfig, hs: Seq<int>) -> SimState {
        SimState {
            state: AppState::MainMenu,
            bird: BirdState::spawned(cfg),
            obstacles: spawn_all(cfg, hs),
            score: 0,
            high_score: 0,
        }
    }

    /// The state after a tick in the main menu: a jump request starts the
    /// game and moves the bird as a jump during the game does; nothing else
    /// moves.
    pub open spec fn started(self, cfg: SimConfig, jump: bool) -> SimState {
        SimState {
            state: if jump {
                AppState::InGame
            } else {
                self.state
            },
            bird: self.bird.jumped(cfg, jump),
            ..self
        }
    }

    /// The state after the motion of a tick in the game: the bird's jump and
    /// gravity steps, the obstacles' scroll step for the height `h`, and then
    /// every velocity added to its position.
    pub open spec fn moved(self, cfg: SimConfig, jump: bool, h: int) -> SimState {
        SimState {
            bird: self.bird.jumped(cfg, jump).pulled(cfg).advanced(),
            obstacles: advance_all(scroll_all(cfg, self.obstacles, h)),
            ..self
        }
    }

    /// Whether the bird's box overlaps that of a pipe.
    pub open spec fn collides(self, cfg: SimConfig) -> bool {
        self.bird.hits_any(cfg, self.obstacles)
    }

    /// The number of markers that score now.
    pub open spec fn gain(self, cfg: SimConfig) -> nat {
        self.bird.points(cfg, self.obstacles)
    }

    /// The state after the scoring step: the markers that score are flagged
    /// and counted, and the high score follows the score.
    pub open spec fn scored(self, cfg: SimConfig) -> SimState {
        SimState {
            obstacles: self.bird.mark_all(cfg, self.obstacles),
            score: self.score + self.gain(cfg),
            high_score: best(self.high_score, self.score + self.gain(cfg)),
            ..self
        }
    }

    /// The state after a restart with the heights `hs`, one for each pair:
    /// the main menu, no score, the bird and the obstacles back at the start.
    /// The high score stays.
    pub open spec fn restarted(self, cfg: SimConfig, hs: Seq<int>) -> SimState {
        SimState {
            state: AppState::MainMenu,
            bird: self.bird.restarted(cfg),
            obstacles: restart_all(cfg, self.obstacles, hs),
            score: 0,
            high_score: self.high_score,
        }
    }

    /// The state after one tick with the request `jump`, the height `h`
    /// drawn for the obstacles placed anew and the heights `hs` drawn for a
    /// restart. In the game the order is: motion, collision test, scoring,
    /// and the restart if there was a collision.
    pub open spec fn tick(self, cfg: SimConfig, jump: bool, h: int, hs: Seq<int>) -> SimState {
        match self.state {
            AppState::MainMenu => self.started(cfg, jump),
            AppState::InGame => {
                let m = self.moved(cfg, jump, h);
                if m.collides(cfg) {
                    m.scored(cfg).restarted(cfg, hs)
                } else {
                    m.scored(cfg)
                }
            },
        }
    }

    /// Whether the state is one that the simulation can be in: the bird and
    /// the obstacles are within the limits and each pair stands together.
    pub open spec fn wf(self, cfg: SimConfig) -> bool {
        &&& self.bird.wf()
        &&& arranged(cfg, self.obstacles)
    }

    /// Whether one more tick stays within the machine's integers.
    pub open spec fn has_room(self) -> bool {
        &&& self.bird.has_room()
        &&& self.score + self.obstacles.len() <= i128::MAX
    }

    /// Whether the draws `h` and `hs` can be used for a tick from this state.
    /// In the main menu nothing is drawn, and any will do.
    pub open spec fn accepts(self, cfg: SimConfig, h: int, hs: Seq<int>) -> bool {
        self.state == AppState::InGame ==> cfg.admits(h) && heights_fit(cfg, hs)
    }
}

/// Whether `h` and `hs` are draws that `cfg` allows: each a height that a
/// pair can be placed at, and `hs` with one for each pair.
pub open spec fn cfg_draws(cfg: SimConfig, h: int, hs: Seq<int>) -> bool {
    cfg.admits(h) && heights_fit(cfg, hs)
}

/// What the tick from `s` reports.
pub open spec fn outcome(s: SimState, cfg: SimConfig, jump: bool, h: int, hs: Seq<int>) -> TickResult {
    let m = s.moved(cfg, jump, h);
    TickResult {
        state: s.tick(cfg, jump, h, hs).state,
        collision: if s.state == AppState::InGame && m.collides(cfg) {
            Some(BirdCollisionEvent)
        } else {
            None
        },
        points: if s.state == AppState::InGame {
            m.gain(cfg) as i128
        } else {
            0
        },
    }
}

/// A tick leaves a state that the simulation can be in.
pub proof fn lemma_tick_wf(s: SimState, cfg: SimConfig, jump: bool, h: int, hs: Seq<int>)
    requires
        cfg.wf(),
        s.wf(cfg),
        s.accepts(cfg, h, hs),
    ensures
        s.tick(cfg, jump, h, hs).wf(cfg),
{
    crate::bird::lemma_bird_stays_wf(s.bird, cfg, jump);
    if s.state == AppState::InGame {
        let m = s.moved(cfg, jump, h);
        crate::pipes::lemma_move_arranged(cfg, s.obstacles, h);
        crate::bird::lemma_mark_arranged(m.bird, cfg, m.obstacles);
        crate::bird::lemma_bird_stays_wf(m.bird, cfg, jump);
        if m.collides(cfg) {
            crate::pipes::lemma_restart_arranged(cfg, m.scored(cfg).obstacles, hs);
        }
    }
}

/// What comes into one tick: the request, and the heights drawn in it.
pub struct Draw {
    pub jump: bool,
    pub height: int,
    pub heights: Seq<int>,
}

impl SimState {
    /// The state after the tick that `d` comes into.
    pub open spec fn after(self, cfg: SimConfig, d: Draw) -> SimState {
        self.tick(cfg, d.jump, d.height, d.heights)
    }

    /// The state after the ticks that `ticks` come into, one after the other.
    pub open spec fn run(self, cfg: SimConfig, ticks: Seq<Draw>) -> SimState
        decreases ticks.len(),
    {
        if ticks.len() == 0 {
            self
        } else {
            self.run(cfg, ticks.drop_last()).after(cfg, ticks.last())
        }
    }

    /// Whether the tick that `d` comes into is one of play in which no jump
    /// is requested and the bird hits no pipe.
    pub open spec fn quiet(self, cfg: SimConfig, d: Draw) -> bool {
        &&& self.state == AppState::InGame
        &&& !d.jump
        &&& !self.moved(cfg, d.jump, d.height).collides(cfg)
    }

    /// Whether every one of the ticks is quiet.
    pub open spec fn quiet_run(self, cfg: SimConfig, ticks: Seq<Draw>) -> bool
        decreases ticks.len(),
    {
        ticks.len() > 0 ==> self.quiet_run(cfg, ticks.drop_last()) && self.run(
            cfg,
            ticks.drop_last(),
        ).quiet(cfg, ticks.last())
    }

    /// Whether in the tick that `d` comes into, a tick of play, the bird
    /// hits no pipe and is over the marker at place `i`, which is not placed
    /// anew in that tick, and no other marker scores.
    pub open spec fn lingers(self, cfg: SimConfig, d: Draw, i: int) -> bool {
        let m = self.moved(cfg, d.jump, d.height);
        &&& self.state == AppState::InGame
        &&& 0 <= i < self.obstacles.len()
        &&& self.obstacles[i].role == Role::PointMarker
        &&& !self.obstacles[i].recycles(cfg)
        &&& !m.collides(cfg)
        &&& m.bird.touches(cfg, m.obstacles[i])
        &&& forall|j: int|
            0 <= j < m.obstacles.len() && j != i ==> !m.bird.scores(cfg, #[trigger] m.obstacles[j])
    }

    /// Whether the bird lingers over the marker at place `i` in every one of
    /// the ticks.
    pub open spec fn lingers_throughout(self, cfg: SimConfig, ticks: Seq<Draw>, i: int) -> bool
        decreases ticks.len(),
    {
        ticks.len() > 0 ==> self.lingers_throughout(cfg, ticks.drop_last(), i) && self.run(
            cfg,
            ticks.drop_last(),
        ).lingers(cfg, ticks.last(), i)
    }

    /// Whether every one of the ticks comes with draws that can be used.
    pub open spec fn accepts_run(self, cfg: SimConfig, ticks: Seq<Draw>) -> bool
        decreases ticks.len(),
    {
        ticks.len() > 0 ==> self.accepts_run(cfg, ticks.drop_last()) && self.run(
            cfg,
            ticks.drop_last(),
        ).accepts(cfg, ticks.last().height, ticks.last().heights)
    }
}

/// Any number of ticks leaves a state that the simulation can be in.
pub proof fn lemma_run_wf(s: SimState, cfg: SimConfig, ticks: Seq<Draw>)
    requires
        cfg.wf(),
        s.wf(cfg),
        s.accepts_run(cfg, ticks),
    ensures
        s.run(cfg, ticks).wf(cfg),
    decreases ticks.len(),
{
    if ticks.len() > 0 {
        lemma_run_wf(s, cfg, ticks.drop_last());
        let d = ticks.last();
        lemma_tick_wf(s.run(cfg, ticks.drop_last()), cfg, d.jump, d.height, d.heights);
    }
}

/// The high score never goes down: not in a tick, whatever it brings, and
/// so not over any number of ticks, with any number of collisions and
/// restarts among them. After a tick of play it is the greater of what it
/// was and the score reached in the tick.
pub proof fn lemma_high_score_never_falls(s: SimState, cfg: SimConfig, ticks: Seq<Draw>)
    ensures
        s.run(cfg, ticks).high_score >= s.high_score,
        forall|d: Draw| (#[trigger] s.after(cfg, d)).high_score >= s.high_score,
        forall|d: Draw|
            s.state == AppState::InGame ==> (#[trigger] s.after(cfg, d)).high_score == best(
                s.high_score,
                s.score + s.moved(cfg, d.jump, d.height).gain(cfg),
            ),
    decreases ticks.len(),
{
    if ticks.len() > 0 {
        let p = s.run(cfg, ticks.drop_last());
        lemma_high_score_never_falls(s, cfg, ticks.drop_last());
        lemma_high_score_never_falls(p, cfg, Seq::<Draw>::empty());
        assert(p.after(cfg, ticks.last()).high_score >= p.high_score);
    }
}

/// In the main menu nothing moves: a tick without a jump request changes
/// nothing, and a tick with one starts the game and does to the bird what
/// a jump does, leaving it and every obstacle in place.
pub proof fn lemma_menu_tick(s: SimState, cfg: SimConfig, jump: bool, h: int, hs: Seq<int>)
    requires
        s.state == AppState::MainMenu,
    ensures
        !jump ==> s.tick(cfg, jump, h, hs) == s,
        jump ==> s.tick(cfg, jump, h, hs).state == AppState::InGame,
        jump && s.bird.may_jump() ==> s.tick(cfg, jump, h, hs).bird.velocity.y
            == cfg.spec_jump_velocity(),
        s.tick(cfg, jump, h, hs).bird.position == s.bird.position,
        s.tick(cfg, jump, h, hs).obstacles == s.obstacles,
        s.tick(cfg, jump, h, hs).score == s.score,
        s.tick(cfg, jump, h, hs).high_score == s.high_score,
{
}

/// A collision ends the game in the tick in which it happens: the state is
/// the main menu, the score is nought, the bird rests at its starting
/// place, every obstacle rests on the line its pair started from, at the
/// new height of its pair, and no marker is flagged.
pub proof fn lemma_collision_restarts(s: SimState, cfg: SimConfig, d: Draw)
    requires
        cfg.wf(),
        s.wf(cfg),
        s.state == AppState::InGame,
        s.accepts(cfg, d.height, d.heights),
        s.moved(cfg, d.jump, d.height).collides(cfg),
    ensures
        s.after(cfg, d).state == AppState::MainMenu,
        s.after(cfg, d).score == 0,
        s.after(cfg, d).bird.position == cfg.bird_start@,
        s.after(cfg, d).bird.velocity == (Point { x: 0, y: 0 }),
        s.after(cfg, d).obstacles.len() == s.obstacles.len(),
        forall|i: int|
            0 <= i < s.obstacles.len() ==> {
                let o = s.obstacles[i];
                let n = #[trigger] s.after(cfg, d).obstacles[i];
                &&& n.position.x == o.start.x + cfg.spec_shift(o.role)
                &&& n.position.y == d.heights[o.pair - 1] + o.offset
                &&& n.velocity == (Point { x: 0, y: 0 })
                &&& o.role == Role::PointMarker ==> !n.scored
            },
{
    let m = s.moved(cfg, d.jump, d.height);
    let p = m.scored(cfg);
    crate::pipes::lemma_move_arranged(cfg, s.obstacles, d.height);
    crate::bird::lemma_mark_arranged(m.bird, cfg, m.obstacles);
    assert forall|i: int| 0 <= i < s.obstacles.len() implies {
        let o = s.obstacles[i];
        let n = #[trigger] s.after(cfg, d).obstacles[i];
        &&& n.position.x == o.start.x + cfg.spec_shift(o.role)
        &&& n.position.y == d.heights[o.pair - 1] + o.offset
        &&& n.velocity == (Point { x: 0, y: 0 })
        &&& o.role == Role::PointMarker ==> !n.scored
    } by {
        crate::pipes::lemma_arranged_at(cfg, s.obstacles, i);
        crate::pipes::lemma_arranged_at(cfg, p.obstacles, i);
        assert(m.obstacles[i] == scroll_all(cfg, s.obstacles, d.height)[i].advanced());
        assert(pair_ok(cfg, s.obstacles, i / 3));
    }
}

/// Over quiet ticks the bird falls as [`BirdState::fallen`] says, so its
/// vertical velocity goes down strictly until it is at or below the gravity
/// cap and then stays.
pub proof fn lemma_quiet_run_falls(s: SimState, cfg: SimConfig, ticks: Seq<Draw>)
    requires
        cfg.wf(),
        s.quiet_run(cfg, ticks),
    ensures
        s.run(cfg, ticks).bird == s.bird.fallen(cfg, ticks.len()),
        ticks.len() > 0 ==> s.run(cfg, ticks).state == AppState::InGame,
    decreases ticks.len(),
{
    if ticks.len() > 0 {
        lemma_quiet_run_falls(s, cfg, ticks.drop_last());
    }
}

/// A jump request made while the bird rises at least as fast as its speed
/// cap is ignored: the bird, the obstacles and the scores come out of the
/// tick as they would without the request, and in play the vertical
/// velocity does not go up unless a collision puts the bird to rest.
pub proof fn lemma_jump_spam_ignored(s: SimState, cfg: SimConfig, h: int, hs: Seq<int>)
    requires
        cfg.wf(),
        !s.bird.may_jump(),
    ensures
        s.tick(cfg, true, h, hs).bird == s.tick(cfg, false, h, hs).bird,
        s.tick(cfg, true, h, hs).obstacles == s.tick(cfg, false, h, hs).obstacles,
        s.tick(cfg, true, h, hs).score == s.tick(cfg, false, h, hs).score,
        s.tick(cfg, true, h, hs).high_score == s.tick(cfg, false, h, hs).high_score,
        s.state == AppState::InGame ==> s.tick(cfg, true, h, hs) == s.tick(cfg, false, h, hs),
        s.state == AppState::MainMenu || !s.moved(cfg, true, h).collides(cfg) ==> s.tick(
            cfg,
            true,
            h,
            hs,
        ).bird.velocity.y <= s.bird.velocity.y,
{
    crate::bird::lemma_jump_ignored_at_cap(s.bird, cfg);
}

/// However often a jump is requested, the vertical velocity never gets
/// above the greatest of what it was, the jump velocity and rest.
pub proof fn lemma_run_climb_bounded(s: SimState, cfg: SimConfig, ticks: Seq<Draw>)
    requires
        cfg.wf(),
    ensures
        s.run(cfg, ticks).bird.velocity.y <= best(
            best(s.bird.velocity.y, cfg.spec_jump_velocity()),
            0,
        ),
    decreases ticks.len(),
{
    if ticks.len() > 0 {
        lemma_run_climb_bounded(s, cfg, ticks.drop_last());
        let p = s.run(cfg, ticks.drop_last());
        crate::bird::lemma_climb_bounded(p.bird, cfg, ticks.last().jump);
    }
}

/// In a tick of play without a collision, a pair of which one obstacle has
/// reached its left boundary is placed anew as a whole: after the tick each
/// of its three obstacles stands one scroll step left of the right
/// boundary, at the one height drawn in the tick plus its own offset.
pub proof fn lemma_tick_recycles_pair(
    s: SimState,
    cfg: SimConfig,
    d: Draw,
    k: int,
)
    requires
        cfg.wf(),
        s.wf(cfg),
        s.state == AppState::InGame,
        !s.moved(cfg, d.jump, d.height).collides(cfg),
        0 <= k < cfg.pairs,
        s.obstacles[3 * k].recycles(cfg) || s.obstacles[3 * k + 1].recycles(cfg) || s.obstacles[3
            * k + 2].recycles(cfg),
    ensures
        forall|i: int|
            3 * k <= i < 3 * k + 3 ==> (#[trigger] s.after(cfg, d).obstacles[i]).position
                == placed_anew(cfg, s.obstacles[i], d.height),
{
    crate::pipes::lemma_pair_recycles_together(cfg, s.obstacles, d.height, k);
    let m = s.moved(cfg, d.jump, d.height);
    assert forall|i: int| 3 * k <= i < 3 * k + 3 implies (#[trigger] s.after(
        cfg,
        d,
    ).obstacles[i]).position == placed_anew(cfg, s.obstacles[i], d.height) by {
        assert(s.obstacles[i].recycles(cfg));
        assert(s.after(cfg, d).obstacles[i] == m.bird.marked(cfg, m.obstacles[i]));
    }
}

/// A marker scores once however long the bird stays over it: over one or
/// more ticks in each of which the bird lingers over the marker at place
/// `i`, not flagged at the start, the score goes up by exactly one.
pub proof fn lemma_marker_scores_once(s: SimState, cfg: SimConfig, ticks: Seq<Draw>, i: int)
    requires
        ticks.len() >= 1,
        0 <= i < s.obstacles.len(),
        !s.obstacles[i].scored,
        s.lingers_throughout(cfg, ticks, i),
    ensures
        s.run(cfg, ticks).score == s.score + 1,
        s.run(cfg, ticks).obstacles[i].scored,
        s.run(cfg, ticks).state == AppState::InGame,
    decreases ticks.len(),
{
    let rest = ticks.drop_last();
    let d = ticks.last();
    let p = s.run(cfg, rest);
    if rest.len() == 0 {
        assert(p == s);
    } else {
        lemma_marker_scores_once(s, cfg, rest, i);
    }
    let m = p.moved(cfg, d.jump, d.height);
    assert(m.obstacles[i] == scroll_all(cfg, p.obstacles, d.height)[i].advanced());
    crate::bird::lemma_points_single(m.bird, cfg, m.obstacles, i);
    assert(p.after(cfg, d) == m.scored(cfg));
    assert(m.scored(cfg).obstacles[i] == m.bird.marked(cfg, m.obstacles[i]));
}

/// In an arranged list every offset is within the limit on constants.
proof fn lemma_offsets_fit(cfg: SimConfig, obs: Seq<ObstacleState>)
    requires
        arranged(cfg, obs),
    ensures
        crate::pipes::offsets_fit(obs),
{
    assert forall|i: int| 0 <= i < obs.len() implies within(
        (#[trigger] obs[i]).offset,
        PARAM_LIMIT as int,
    ) by {
        crate::pipes::lemma_arranged_at(cfg, obs, i);
    }
}

/// After the scroll step of an arranged list the velocities can be added.
proof fn lemma_can_advance(cfg: SimConfig, obs: Seq<ObstacleState>, h: int)
    requires
        cfg.wf(),
        arranged(cfg, obs),
        cfg.admits(h),
    ensures
        crate::pipes::can_advance(scroll_all(cfg, obs, h)),
{
    let next = scroll_all(cfg, obs, h);
    assert forall|i: int| 0 <= i < next.len() implies {
        &&& i64::MIN <= (#[trigger] next[i]).position.x + next[i].velocity.x <= i64::MAX
        &&& i64::MIN <= next[i].position.y + next[i].velocity.y <= i64::MAX
    } by {
        crate::pipes::lemma_arranged_at(cfg, obs, i);
    }
}

impl SimContext {
    /// The simulation at the start, for the heights `heights`, one for each
    /// pair: the main menu, no score and no high score.
    pub fn with_heights(cfg: SimConfig, heights: &Vec<i64>) -> (ctx: SimContext)
        requires
            cfg.wf(),
            heights_fit(cfg, ints(heights@)),
        ensures
            ctx.config == cfg,
            ctx@ == SimState::fresh(cfg, ints(heights@)),
            ctx@.wf(cfg),
            ctx@.has_room(),
    {
        SimContext {
            config: cfg,
            state: AppState::MainMenu,
            bird: crate::bird::setup(&cfg),
            obstacles: spawn_pairs(&cfg, heights),
            scoreboard: Scoreboard { score: 0 },
            high_score: HighScore { highscore: 0 },
        }
    }

    /// The simulation at the start, each pair at a height drawn from `rng`.
    pub fn new(cfg: SimConfig, rng: &mut HeightSource) -> (ctx: SimContext)
        requires
            cfg.wf(),
        ensures
            ctx.config == cfg,
            exists|hs: Seq<int>|
                heights_fit(cfg, hs) && ctx@ == #[trigger] SimState::fresh(cfg, hs),
            ctx@.wf(cfg),
            ctx@.has_room(),
    {
        let heights: Vec<i64> = rng.draw_many(cfg.height_min, cfg.height_max, cfg.pairs);
        SimContext::with_heights(cfg, &heights)
    }
}

/// Advances the simulation by one tick, with `height` for the obstacles that
/// are placed anew in it and `heights`, one for each pair, for the restart
/// after a collision. In the main menu neither is used.
pub fn step(ctx: &mut SimContext, input: TickInput, height: i64, heights: &Vec<i64>) -> (result:
    TickResult)
    requires
        old(ctx).config.wf(),
        old(ctx)@.wf(old(ctx).config),
        old(ctx)@.has_room(),
        old(ctx)@.accepts(old(ctx).config, height as int, ints(heights@)),
    ensures
        final(ctx).config == old(ctx).config,
        final(ctx)@ == old(ctx)@.tick(
            old(ctx).config,
            input.jump,
            height as int,
            ints(heights@),
        ),
        final(ctx)@.wf(old(ctx).config),
        result == outcome(
            old(ctx)@,
            old(ctx).config,
            input.jump,
            height as int,
            ints(heights@),
        ),
{
    let cfg: SimConfig = ctx.config;
    let ghost s = ctx@;
    proof {
        lemma_tick_wf(s, cfg, input.jump, height as int, ints(heights@));
    }
    match ctx.state {
        AppState::MainMenu => {
            game_start(&mut ctx.bird, &mut ctx.state, input.jump, &cfg);
            TickResult { state: ctx.state, collision: None, points: 0 }
        },
        AppState::InGame => {
            let ghost m = s.moved(cfg, input.jump, height as int);
            proof {
                crate::bird::lemma_bird_stays_wf(s.bird, cfg, input.jump);
                crate::pipes::lemma_move_arranged(cfg, s.obstacles, height as int);
                crate::bird::lemma_points_bounded(m.bird, cfg, m.obstacles);
                crate::bird::lemma_mark_arranged(m.bird, cfg, m.obstacles);
            }
            move_bird(&mut ctx.bird, input.jump, &cfg);
            apply_bird_gravity(&mut ctx.bird, &cfg);
            proof {
                lemma_offsets_fit(cfg, s.obstacles);
            }
            scroll_pipes(&mut ctx.obstacles, &cfg, height);
            apply_bird_velocity(&mut ctx.bird);
            proof {
                lemma_can_advance(cfg, s.obstacles, height as int);
            }
            apply_pipes_velocity(&mut ctx.obstacles);
            assert(ctx@ == m);
            let collision: Option<BirdCollisionEvent> = bird_pipe_collisions(
                &ctx.bird,
                &ctx.obstacles,
                &cfg,
            );
            let before: i128 = ctx.scoreboard.score;
            bird_point_collisions(&ctx.bird, &mut ctx.obstacles, &mut ctx.scoreboard, &cfg);
            let points: i128 = ctx.scoreboard.score - before;
            assert(collision == outcome(s, cfg, input.jump, height as int, ints(heights@)).collision);
            update_highscore(&ctx.scoreboard, &mut ctx.high_score);
            assert(ctx@ == m.scored(cfg));
            if collision.is_some() {
                restart(ctx, heights);
            }
            TickResult { state: ctx.state, collision, points }
        },
    }
}

/// Advances the simulation by one tick. In the game one height is drawn
/// from `rng` for the obstacles that are placed anew, and one for each pair
/// for the restart after a collision; in the main menu nothing is drawn.
pub fn advance_tick(ctx: &mut SimContext, input: TickInput, rng: &mut HeightSource) -> (result:
    TickResult)
    requires
        old(ctx).config.wf(),
        old(ctx)@.wf(old(ctx).config),
        old(ctx)@.has_room(),
    ensures
        final(ctx).config == old(ctx).config,
        exists|h: int, hs: Seq<int>|
            {
                &&& cfg_draws(old(ctx).config, h, hs)
                &&& final(ctx)@ == #[trigger] old(ctx)@.tick(old(ctx).config, input.jump, h, hs)
                &&& result == outcome(old(ctx)@, old(ctx).config, input.jump, h, hs)
            },
        final(ctx)@.wf(old(ctx).config),
{
    let cfg: SimConfig = ctx.config;
    match ctx.state {
        AppState::MainMenu => {
            let none: Vec<i64> = Vec::new();
            let result: TickResult = step(ctx, input, 0, &none);
            proof {
                let h = cfg.height_min as int;
                let hs = Seq::new(cfg.pairs as nat, |k: int| h);
                assert(cfg_draws(cfg, h, hs));
                assert(final(ctx)@ == old(ctx)@.tick(cfg, input.jump, h, hs));
                assert(result == outcome(old(ctx)@, cfg, input.jump, h, hs));
            }
            result
        },
        AppState::InGame => {
            let height: i64 = rng.draw(cfg.height_min, cfg.height_max);
            let heights: Vec<i64> = rng.draw_many(cfg.height_min, cfg.height_max, cfg.pairs);
            let result: TickResult = step(ctx, input, height, &heights);
            assert(cfg_draws(cfg, height as int, ints(heights@)));
            result
        },
    }
}

impl SimContext {
    /// Tests whether the constants can be used and the state is one that
    /// the simulation can be in.
    pub fn is_valid(&self) -> (valid: bool)
        ensures
            valid == (self.config.wf() && self@.wf(self.config)),
    {
        self.config.is_valid() && self.bird.is_valid() && crate::pipes::is_arranged(
            &self.obstacles,
            &self.config,
        )
    }

    /// Tests whether one more tick stays within the machine's integers.
    pub fn has_room(&self) -> (yes: bool)
        ensures
            yes == self@.has_room(),
    {
        let n: usize = self.obstacles.len();
        self.bird.has_room() && self.scoreboard.score <= i128::MAX - (n as i128)
    }
}

/// Advances the simulation by one tick if it can be advanced: if the
/// context is valid and has room for the tick. If not, nothing changes and
/// nothing is reported.
pub fn checked_tick(ctx: &mut SimContext, input: TickInput, rng: &mut HeightSource) -> (result:
    Option<TickResult>)
    ensures
        final(ctx).config == old(ctx).config,
        result.is_some() == (old(ctx).config.wf() && old(ctx)@.wf(old(ctx).config) && old(
            ctx,
        )@.has_room()),
        result.is_none() ==> final(ctx)@ == old(ctx)@,
        result.is_some() ==> final(ctx)@.wf(old(ctx).config) && exists|h: int, hs: Seq<int>|
            {
                &&& cfg_draws(old(ctx).config, h, hs)
                &&& final(ctx)@ == #[trigger] old(ctx)@.tick(old(ctx).config, input.jump, h, hs)
                &&& result.unwrap() == outcome(old(ctx)@, old(ctx).config, input.jump, h, hs)
            },
{
    if ctx.is_valid() && ctx.has_room() {
        Some(advance_tick(ctx, input, rng))
    } else {
        None
    }
}

} // verus!
