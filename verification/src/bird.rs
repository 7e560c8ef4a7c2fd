//! The bird: its jumps, its fall, and what it runs into.

use vstd::prelude::*;
use crate::config::{fits, within, Role, SimConfig, COORD_LIMIT, PARAM_LIMIT};
use crate::geometry::{collide, overlaps, Point, Vec2};
use crate::pipes::{arranged, pair_ok, states, BeenAdded, Obstacle, ObstacleState};
use crate::scoreboard::Scoreboard;
use crate::{AppState, Velocity};

verus! {

/// The vertical velocity at or below which gravity no longer acts.
#[derive(Clone, Copy, Debug, PartialEq, Eq, Structural)]
pub struct GravityCap(pub i64);

/// The velocity at or above which a jump request is ignored.
#[derive(Clone, Copy, Debug, PartialEq, Eq, Structural)]
pub struct SpeedCap(pub Vec2);

/// The bird has run into a pipe.
#[derive(Clone, Copy, Debug, PartialEq, Eq, Structural)]
pub struct BirdCollisionEvent;

/// The bird.
#[derive(Clone, Copy, Debug, PartialEq, Eq, Structural)]
pub struct Bird {
    pub position: Vec2,
    pub velocity: Velocity,
    pub gravity_cap: GravityCap,
    pub speed_cap: SpeedCap,
}

/// What a [`Bird`] stands for.
pub struct BirdState {
    pub position: Point,
    pub velocity: Point,
    pub gravity_cap: int,
    pub speed_cap: Point,
}

impl View for Bird {
    type V = BirdState;

    open spec fn view(&self) -> BirdState {
        BirdState {
            position: self.position@,
            velocity: self.velocity.0@,
            gravity_cap: self.gravity_cap.0 as int,
            speed_cap: self.speed_cap.0@,
        }
    }
}

impl BirdState {
    /// The bird as it is made at the start: at rest at its starting place,
    /// with the caps of the configuration.
    pub open spec fn spawned(cfg: SimConfig) -> BirdState {
        BirdState {
            position: cfg.bird_start@,
            velocity: Point { x: 0, y: 0 },
            gravity_cap: cfg.gravity_cap as int,
            speed_cap: cfg.speed_cap@,
        }
    }

    /// Whether a jump request is honoured: the bird rises more slowly than
    /// its speed cap.
    pub open spec fn may_jump(self) -> bool {
        self.velocity.y < self.speed_cap.y
    }

    /// The bird with the vertical velocity `vy`.
    pub open spec fn with_climb(self, vy: int) -> BirdState {
        BirdState { velocity: Point { x: self.velocity.x, y: vy }, ..self }
    }

    /// The bird after the jump step: a request that is honoured sets the
    /// vertical velocity to the jump velocity, and nothing else changes
    /// anything.
    pub open spec fn jumped(self, cfg: SimConfig, jump: bool) -> BirdState {
        if jump && self.may_jump() {
            self.with_climb(cfg.spec_jump_velocity())
        } else {
            self
        }
    }

    /// The bird after the gravity step: above the gravity cap the vertical
    /// velocity takes one step of gravity, at or below the cap it stays.
    pub open spec fn pulled(self, cfg: SimConfig) -> BirdState {
        if self.velocity.y > self.gravity_cap {
            self.with_climb(self.velocity.y + cfg.spec_gravity_step())
        } else {
            self
        }
    }

    /// The bird after its velocity was added to its position.
    pub open spec fn advanced(self) -> BirdState {
        BirdState { position: self.position.plus(self.velocity), ..self }
    }

    /// The bird after a restart: at rest at its starting place.
    pub open spec fn restarted(self, cfg: SimConfig) -> BirdState {
        BirdState { position: cfg.bird_start@, velocity: Point { x: 0, y: 0 }, ..self }
    }

    /// The bird after `n` ticks of play in which no jump was requested:
    /// each is a gravity step and then the velocity added to the position.
    pub open spec fn fallen(self, cfg: SimConfig, n: nat) -> BirdState
        decreases n,
    {
        if n == 0 {
            self
        } else {
            self.fallen(cfg, (n - 1) as nat).jumped(cfg, false).pulled(cfg).advanced()
        }
    }

    /// Whether the bird's box and the obstacle's box overlap.
    pub open spec fn touches(self, cfg: SimConfig, o: ObstacleState) -> bool {
        overlaps(
            self.position,
            cfg.bird_half_extents@,
            o.position,
            cfg.spec_half_extents(o.role)@,
        )
    }

    /// Whether the bird's box overlaps that of pipe `o`.
    pub open spec fn hits(self, cfg: SimConfig, o: ObstacleState) -> bool {
        o.role != Role::PointMarker && self.touches(cfg, o)
    }

    /// Whether the bird's box overlaps that of a pipe.
    pub open spec fn hits_any(self, cfg: SimConfig, obs: Seq<ObstacleState>) -> bool {
        exists|i: int| 0 <= i < obs.len() && self.hits(cfg, #[trigger] obs[i])
    }

    /// Whether `o` is a marker that scores now: one that the bird's box
    /// overlaps and that has not scored since it was placed.
    pub open spec fn scores(self, cfg: SimConfig, o: ObstacleState) -> bool {
        o.role == Role::PointMarker && !o.scored && self.touches(cfg, o)
    }

    /// The obstacle after the scoring step: a marker that scores is flagged.
    pub open spec fn marked(self, cfg: SimConfig, o: ObstacleState) -> ObstacleState {
        if self.scores(cfg, o) {
            ObstacleState { scored: true, ..o }
        } else {
            o
        }
    }

    /// The obstacles after the scoring step.
    pub open spec fn mark_all(self, cfg: SimConfig, obs: Seq<ObstacleState>) -> Seq<
        ObstacleState,
    > {
        Seq::new(obs.len(), |i: int| self.marked(cfg, obs[i]))
    }

    /// The number of markers among `obs` that score now.
    pub open spec fn points(self, cfg: SimConfig, obs: Seq<ObstacleState>) -> nat
        decreases obs.len(),
    {
        if obs.len() == 0 {
            0
        } else {
            self.points(cfg, obs.drop_last()) + if self.scores(cfg, obs.last()) {
                1nat
            } else {
                0nat
            }
        }
    }

    /// Whether the velocity and the gravity cap are within the limits.
    pub open spec fn wf(self) -> bool {
        &&& within(self.velocity.x, 2 * PARAM_LIMIT)
        &&& within(self.velocity.y, 2 * PARAM_LIMIT)
        &&& within(self.gravity_cap, PARAM_LIMIT as int)
    }

    /// Whether the position leaves room for a tick.
    pub open spec fn has_room(self) -> bool {
        &&& within(self.position.x, COORD_LIMIT as int)
        &&& within(self.position.y, COORD_LIMIT as int)
    }
}

/// The number of markers that score is at most the number of obstacles.
pub proof fn lemma_points_bounded(bird: BirdState, cfg: SimConfig, obs: Seq<ObstacleState>)
    ensures
        bird.points(cfg, obs) <= obs.len(),
    decreases obs.len(),
{
    if obs.len() > 0 {
        lemma_points_bounded(bird, cfg, obs.drop_last());
    }
}

/// Without a jump request the vertical velocity goes down by a step of
/// gravity in every tick in which it is above the gravity cap, and stays
/// as it is in every tick in which it is at or below the cap.
pub proof fn lemma_fall_step(b: BirdState, cfg: SimConfig)
    requires
        cfg.wf(),
    ensures
        b.jumped(cfg, false) == b,
        b.velocity.y > b.gravity_cap ==> b.pulled(cfg).velocity.y == b.velocity.y
            + cfg.spec_gravity_step() && b.pulled(cfg).velocity.y < b.velocity.y,
        b.velocity.y <= b.gravity_cap ==> b.pulled(cfg) == b,
        b.pulled(cfg).advanced().velocity == b.pulled(cfg).velocity,
        b.pulled(cfg).gravity_cap == b.gravity_cap,
{
}

/// Over any number of ticks without a jump request the vertical velocity
/// never goes up; it goes down strictly while it is above the gravity cap,
/// and once it is at or below the cap it stays there for good. It never
/// gets further below the cap than one step of gravity, unless it started
/// there.
pub proof fn lemma_fall_monotone(b: BirdState, cfg: SimConfig, n: nat)
    requires
        cfg.wf(),
    ensures
        b.fallen(cfg, n).gravity_cap == b.gravity_cap,
        b.fallen(cfg, n).velocity.y <= b.velocity.y,
        b.fallen(cfg, n).velocity.y > b.gravity_cap ==> b.fallen(cfg, n + 1).velocity.y
            < b.fallen(cfg, n).velocity.y,
        b.fallen(cfg, n).velocity.y <= b.gravity_cap ==> b.fallen(cfg, n + 1).velocity.y
            == b.fallen(cfg, n).velocity.y,
        b.fallen(cfg, n).velocity.y == b.velocity.y || b.fallen(cfg, n).velocity.y
            > b.gravity_cap + cfg.spec_gravity_step(),
    decreases n,
{
    if n > 0 {
        lemma_fall_monotone(b, cfg, (n - 1) as nat);
        lemma_fall_step(b.fallen(cfg, (n - 1) as nat), cfg);
    }
    lemma_fall_step(b.fallen(cfg, n), cfg);
}

/// A bird whose vertical velocity lies a whole number `q` of gravity steps
/// above the gravity cap loses one step in each of the next `q` ticks
/// without a jump request, and from then on has exactly the velocity of
/// the cap.
pub proof fn lemma_fall_reaches_cap(b: BirdState, cfg: SimConfig, q: nat, n: nat)
    requires
        cfg.wf(),
        b.velocity.y == b.gravity_cap - q * cfg.spec_gravity_step(),
    ensures
        n <= q ==> b.fallen(cfg, n).velocity.y == b.velocity.y + n * cfg.spec_gravity_step(),
        n >= q ==> b.fallen(cfg, n).velocity.y == b.gravity_cap,
    decreases n,
{
    let g = cfg.spec_gravity_step();
    if n > 0 {
        let m = (n - 1) as nat;
        lemma_fall_reaches_cap(b, cfg, q, m);
        lemma_fall_monotone(b, cfg, m);
        lemma_fall_step(b.fallen(cfg, m), cfg);
        if m < q {
            assert(b.velocity.y + m * g == b.gravity_cap - (q - m) * g) by (nonlinear_arith)
                requires
                    b.velocity.y == b.gravity_cap - q * g,
            ;
            assert((q - m) * g < 0) by (nonlinear_arith)
                requires
                    q - m >= 1,
                    g < 0,
            ;
            assert(b.velocity.y + n * g == b.velocity.y + m * g + g) by (nonlinear_arith)
                requires
                    n == m + 1,
            ;
            if n == q {
                assert((q - m) * g == g) by (nonlinear_arith)
                    requires
                        q - m == 1,
                ;
            }
        }
    } else {
        if q == 0 {
            assert(q * g == 0) by (nonlinear_arith)
                requires
                    q == 0,
            ;
        }
        assert(n * g == 0) by (nonlinear_arith)
            requires
                n == 0,
        ;
    }
}

/// A jump request made while the bird rises at least as fast as its speed
/// cap changes nothing: the tick goes as it would without the request, and
/// the vertical velocity does not go up in it.
pub proof fn lemma_jump_ignored_at_cap(b: BirdState, cfg: SimConfig)
    requires
        cfg.wf(),
        b.velocity.y >= b.speed_cap.y,
    ensures
        b.jumped(cfg, true) == b,
        b.jumped(cfg, true).pulled(cfg).advanced() == b.jumped(cfg, false).pulled(
            cfg,
        ).advanced(),
        b.jumped(cfg, true).pulled(cfg).advanced().velocity.y <= b.velocity.y,
{
}

/// Whatever is requested, a tick of play leaves the vertical velocity no
/// greater than the greater of what it was and the jump velocity.
pub proof fn lemma_climb_bounded(b: BirdState, cfg: SimConfig, jump: bool)
    requires
        cfg.wf(),
    ensures
        b.jumped(cfg, jump).pulled(cfg).advanced().velocity.y <= b.velocity.y || b.jumped(
            cfg,
            jump,
        ).pulled(cfg).advanced().velocity.y <= cfg.spec_jump_velocity(),
{
}

/// The steps of a tick keep the bird within the limits.
pub proof fn lemma_bird_stays_wf(b: BirdState, cfg: SimConfig, jump: bool)
    requires
        cfg.wf(),
        b.wf(),
    ensures
        b.jumped(cfg, jump).wf(),
        b.jumped(cfg, jump).pulled(cfg).wf(),
        b.jumped(cfg, jump).pulled(cfg).advanced().wf(),
        b.restarted(cfg).wf(),
{
}

/// The scoring step keeps the obstacles arranged.
pub proof fn lemma_mark_arranged(b: BirdState, cfg: SimConfig, obs: Seq<ObstacleState>)
    requires
        arranged(cfg, obs),
    ensures
        arranged(cfg, b.mark_all(cfg, obs)),
{
    let next = b.mark_all(cfg, obs);
    assert forall|k: int| 0 <= k < cfg.pairs implies #[trigger] pair_ok(cfg, next, k) by {
        assert(pair_ok(cfg, obs, k));
    }
}

/// Where no marker but the one at place `i` can score, the number of
/// markers that score is one if that one does and none if it does not.
pub proof fn lemma_points_single(b: BirdState, cfg: SimConfig, obs: Seq<ObstacleState>, i: int)
    requires
        forall|j: int| 0 <= j < obs.len() && j != i ==> !b.scores(cfg, #[trigger] obs[j]),
    ensures
        b.points(cfg, obs) == if 0 <= i < obs.len() && b.scores(cfg, obs[i]) {
            1nat
        } else {
            0nat
        },
    decreases obs.len(),
{
    if obs.len() > 0 {
        let rest = obs.drop_last();
        assert forall|j: int| 0 <= j < rest.len() && j != i implies !b.scores(
            cfg,
            #[trigger] rest[j],
        ) by {
            assert(rest[j] == obs[j]);
        }
        lemma_points_single(b, cfg, rest, i);
        if 0 <= i < rest.len() {
            assert(rest[i] == obs[i]);
        }
    }
}

/// Makes the bird: at rest at its starting place, with the caps of `cfg`.
pub fn setup(cfg: &SimConfig) -> (bird: Bird)
    ensures
        bird@ == BirdState::spawned(*cfg),
{
    Bird {
        position: cfg.bird_start,
        velocity: Velocity(Vec2 { x: 0, y: 0 }),
        gravity_cap: GravityCap(cfg.gravity_cap),
        speed_cap: SpeedCap(cfg.speed_cap),
    }
}

/// The jump step. `jump` says whether a jump was requested in this tick; it
/// is honoured only while the bird rises more slowly than its speed cap.
pub fn move_bird(bird: &mut Bird, jump: bool, cfg: &SimConfig)
    requires
        cfg.wf(),
    ensures
        final(bird)@ == old(bird)@.jumped(*cfg, jump),
{
    if jump {
        if bird.velocity.0.y < bird.speed_cap.0.y {
            bird.velocity.0.y = cfg.jump_velocity();
        }
    }
}

/// The gravity step.
pub fn apply_bird_gravity(bird: &mut Bird, cfg: &SimConfig)
    requires
        cfg.wf(),
        old(bird)@.wf(),
    ensures
        final(bird)@ == old(bird)@.pulled(*cfg),
{
    if bird.velocity.0.y > bird.gravity_cap.0 {
        bird.velocity.0.y = bird.velocity.0.y + cfg.gravity_step();
    }
}

/// Adds the bird's velocity to its position.
pub fn apply_bird_velocity(bird: &mut Bird)
    requires
        i64::MIN <= old(bird)@.position.x + old(bird)@.velocity.x <= i64::MAX,
        i64::MIN <= old(bird)@.position.y + old(bird)@.velocity.y <= i64::MAX,
    ensures
        final(bird)@ == old(bird)@.advanced(),
{
    bird.position.x = bird.position.x + bird.velocity.0.x;
    bird.position.y = bird.position.y + bird.velocity.0.y;
}

/// The step of the main menu: a jump request starts the game, and moves
/// the bird as a jump during the game does.
pub fn game_start(bird: &mut Bird, state: &mut AppState, jump: bool, cfg: &SimConfig)
    requires
        cfg.wf(),
    ensures
        final(bird)@ == old(bird)@.jumped(*cfg, jump),
        *final(state) == if jump {
            AppState::InGame
        } else {
            *old(state)
        },
{
    if jump {
        move_bird(bird, jump, cfg);
        *state = AppState::InGame;
    }
}

/// Whether the bird's box and the obstacle's box overlap.
fn touching(bird: &Bird, o: &Obstacle, cfg: &SimConfig) -> (hit: bool)
    ensures
        hit == bird@.touches(*cfg, o@),
{
    collide(bird.position, cfg.bird_half_extents, o.position, cfg.half_extents(o.role))
}

/// Looks for a pipe whose box the bird's box overlaps. However many there
/// are, they raise one event; markers raise none.
pub fn bird_pipe_collisions(bird: &Bird, obstacles: &Vec<Obstacle>, cfg: &SimConfig) -> (event:
    Option<BirdCollisionEvent>)
    ensures
        event.is_some() == bird@.hits_any(*cfg, states(obstacles@)),
{
    let n: usize = obstacles.len();
    let mut i: usize = 0;
    while i < n
        invariant
            obstacles.len() == n,
            i <= n,
            forall|j: int| 0 <= j < i ==> !bird@.hits(*cfg, #[trigger] states(obstacles@)[j]),
        decreases n - i,
    {
        let is_pipe: bool = match obstacles[i].role {
            Role::PointMarker => false,
            _ => true,
        };
        if is_pipe && touching(bird, &obstacles[i], cfg) {
            assert(bird@.hits(*cfg, states(obstacles@)[i as int]));
            return Some(BirdCollisionEvent);
        }
        i = i + 1;
    }
    None
}

/// The scoring step: every marker that the bird's box overlaps and that has
/// not scored since it was placed adds one to the score and is flagged.
pub fn bird_point_collisions(
    bird: &Bird,
    obstacles: &mut Vec<Obstacle>,
    scoreboard: &mut Scoreboard,
    cfg: &SimConfig,
)
    requires
        old(scoreboard).score + old(obstacles).len() <= i128::MAX,
    ensures
        states(final(obstacles)@) == bird@.mark_all(*cfg, states(old(obstacles)@)),
        final(scoreboard).score == old(scoreboard).score + bird@.points(
            *cfg,
            states(old(obstacles)@),
        ),
        arranged(*cfg, states(old(obstacles)@)) ==> arranged(*cfg, states(final(obstacles)@)),
{
    let ghost before = states(obstacles@);
    proof {
        if arranged(*cfg, before) {
            lemma_mark_arranged(bird@, *cfg, before);
        }
    }
    let ghost score = scoreboard.score;
    let n: usize = obstacles.len();
    let mut i: usize = 0;
    assert(before.take(0) =~= Seq::<ObstacleState>::empty());
    while i < n
        invariant
            before.len() == n,
            obstacles.len() == n,
            i <= n,
            score + n <= i128::MAX,
            scoreboard.score == score + bird@.points(*cfg, before.take(i as int)),
            bird@.points(*cfg, before.take(i as int)) <= i,
            forall|j: int|
                0 <= j < i ==> (#[trigger] obstacles[j])@ == bird@.marked(*cfg, before[j]),
            forall|j: int| i <= j < n ==> (#[trigger] obstacles[j])@ == before[j],
        decreases n - i,
    {
        let mut o: Obstacle = obstacles[i];
        proof {
            let next = before.take(i + 1);
            assert(next.drop_last() =~= before.take(i as int));
            assert(next.last() == before[i as int]);
        }
        let is_marker: bool = match o.role {
            Role::PointMarker => true,
            _ => false,
        };
        if is_marker && !o.been_added.0 && touching(bird, &o, cfg) {
            scoreboard.score = scoreboard.score + 1;
            o.been_added = BeenAdded(true);
            obstacles.set(i, o);
        }
        i = i + 1;
    }
    assert(before.take(n as int) =~= before);
    assert(states(obstacles@) =~= bird@.mark_all(*cfg, before));
}

impl Bird {
    /// Tests whether the velocity and the gravity cap are within the limits.
    pub fn is_valid(&self) -> (valid: bool)
        ensures
            valid == self@.wf(),
    {
        fits(self.velocity.0.x, 2 * PARAM_LIMIT) && fits(self.velocity.0.y, 2 * PARAM_LIMIT)
            && fits(self.gravity_cap.0, PARAM_LIMIT)
    }

    /// Tests whether the position leaves room for a tick.
    pub fn has_room(&self) -> (yes: bool)
        ensures
            yes == self@.has_room(),
    {
        fits(self.position.x, COORD_LIMIT) && fits(self.position.y, COORD_LIMIT)
    }
}

} // verus!
