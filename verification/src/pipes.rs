//! The obstacles: pairs of pipes, each with the marker that scores the
//! passage between them.

use vstd::prelude::*;
use crate::config::{fits, within, Role, SimConfig, COORD_LIMIT, PARAM_LIMIT};
use crate::geometry::{Point, Vec2};
use crate::heights::HeightSource;
use crate::Velocity;

verus! {

/// The height of an obstacle above the height of its pair.
#[derive(Clone, Copy, Debug, PartialEq, Eq, Structural)]
pub struct Offset(pub i64);

/// Whether a point marker has scored since it was last placed.
#[derive(Clone, Copy, Debug, PartialEq, Eq, Structural)]
pub struct BeenAdded(pub bool);

/// Where the pipes of an obstacle's pair stood at the start.
#[derive(Clone, Copy, Debug, PartialEq, Eq, Structural)]
pub struct StartingPosition(pub Vec2);

/// The number of the pair an obstacle belongs to, counted from one.
#[derive(Clone, Copy, Debug, PartialEq, Eq, Structural)]
pub struct NumberOf(pub usize);

/// One obstacle: a pipe or a point marker.
#[derive(Clone, Copy, Debug, PartialEq, Eq, Structural)]
pub struct Obstacle {
    pub role: Role,
    pub position: Vec2,
    pub velocity: Velocity,
    pub offset: Offset,
    pub number_of: NumberOf,
    pub starting_position: StartingPosition,
    pub been_added: BeenAdded,
}

/// What an [`Obstacle`] stands for.
pub struct ObstacleState {
    pub role: Role,
    pub position: Point,
    pub velocity: Point,
    pub offset: int,
    pub pair: int,
    pub start: Point,
    pub scored: bool,
}

impl View for Obstacle {
    type V = ObstacleState;

    open spec fn view(&self) -> ObstacleState {
        ObstacleState {
            role: self.role,
            position: self.position@,
            velocity: self.velocity.0@,
            offset: self.offset.0 as int,
            pair: self.number_of.0 as int,
            start: self.starting_position.0@,
            scored: self.been_added.0,
        }
    }
}

/// What a list of obstacles stands for.
pub open spec fn states(obstacles: Seq<Obstacle>) -> Seq<ObstacleState> {
    Seq::new(obstacles.len(), |i: int| obstacles[i]@)
}

/// The heights of a list as integers.
pub open spec fn ints(hs: Seq<i64>) -> Seq<int> {
    Seq::new(hs.len(), |i: int| hs[i] as int)
}

/// The role of the obstacle at place `i` of the list: a pair takes three
/// places in a row, for its top pipe, its bottom pipe and its marker.
pub open spec fn role_at(i: int) -> Role {
    if i % 3 == 0 {
        Role::TopPipe
    } else if i % 3 == 1 {
        Role::BottomPipe
    } else {
        Role::PointMarker
    }
}

impl ObstacleState {
    /// Where the pipes of this obstacle's pair stand, if it stands with them.
    pub open spec fn anchor(self, cfg: SimConfig) -> int {
        self.position.x - cfg.spec_shift(self.role)
    }

    /// The height of this obstacle's pair, going by where the obstacle is.
    pub open spec fn base(self) -> int {
        self.position.y - self.offset
    }

    /// Whether the obstacle has reached the left boundary. For a marker the
    /// boundary lies as far right of the pipes' boundary as the marker stands
    /// right of its pipes.
    pub open spec fn recycles(self, cfg: SimConfig) -> bool {
        self.anchor(cfg) <= cfg.left_threshold
    }

    /// The flag after the obstacle was placed anew.
    pub open spec fn cleared(self) -> bool {
        self.role != Role::PointMarker && self.scored
    }

    /// The obstacle after the scroll step of a tick in which `h` was drawn:
    /// it has the scroll velocity, and if it had reached the left boundary
    /// it stands at the right boundary at height `h`.
    pub open spec fn scrolled(self, cfg: SimConfig, h: int) -> ObstacleState {
        let velocity = Point { x: cfg.spec_scroll_step(), y: self.velocity.y };
        if self.recycles(cfg) {
            ObstacleState {
                position: Point {
                    x: cfg.right_start + cfg.spec_shift(self.role),
                    y: h + self.offset,
                },
                velocity,
                scored: self.cleared(),
                ..self
            }
        } else {
            ObstacleState { velocity, ..self }
        }
    }

    /// The obstacle after its velocity was added to its position.
    pub open spec fn advanced(self) -> ObstacleState {
        ObstacleState { position: self.position.plus(self.velocity), ..self }
    }

    /// The obstacle after a restart with the heights `hs`, one for each pair:
    /// it rests where its pair started, at the new height of its pair.
    pub open spec fn restarted(self, cfg: SimConfig, hs: Seq<int>) -> ObstacleState {
        ObstacleState {
            position: Point {
                x: self.start.x + cfg.spec_shift(self.role),
                y: hs[self.pair - 1] + self.offset,
            },
            velocity: Point { x: 0, y: 0 },
            scored: self.cleared(),
            ..self
        }
    }

    /// The obstacle with role `role` of pair `pair`, as it is made at the
    /// start for the height `h`.
    pub open spec fn spawned(cfg: SimConfig, role: Role, pair: int, h: int) -> ObstacleState {
        let x = pair * cfg.pair_spacing;
        let y = h + cfg.spec_offset(role);
        ObstacleState {
            role,
            position: Point { x: x + cfg.spec_shift(role), y },
            velocity: Point { x: 0, y: 0 },
            offset: cfg.spec_offset(role),
            pair,
            start: Point { x, y },
            scored: false,
        }
    }

    /// Whether the obstacle is within the limits of the simulation: it
    /// belongs to a pair that exists, does not move vertically, and its
    /// coordinates leave room for a tick.
    pub open spec fn wf(self, cfg: SimConfig) -> bool {
        &&& 1 <= self.pair <= cfg.pairs
        &&& within(self.position.x, COORD_LIMIT as int)
        &&& within(self.position.y, COORD_LIMIT as int)
        &&& within(self.start.x, COORD_LIMIT - PARAM_LIMIT)
        &&& within(self.offset, PARAM_LIMIT as int)
        &&& self.velocity.y == 0
    }

    /// Whether two obstacles of one pair stand together: on the same
    /// vertical line but for the marker's shift, at the same height of the
    /// pair, and with the same starting line.
    pub open spec fn together(self, other: ObstacleState, cfg: SimConfig) -> bool {
        &&& self.anchor(cfg) == other.anchor(cfg)
        &&& self.base() == other.base()
        &&& self.start.x == other.start.x
    }
}

/// The obstacles made at the start for the heights `hs`, one for each pair.
pub open spec fn spawn_all(cfg: SimConfig, hs: Seq<int>) -> Seq<ObstacleState> {
    Seq::new(
        (3 * cfg.pairs) as nat,
        |i: int| ObstacleState::spawned(cfg, role_at(i), i / 3 + 1, hs[i / 3]),
    )
}

/// The obstacles after the scroll step of a tick in which `h` was drawn.
pub open spec fn scroll_all(cfg: SimConfig, obs: Seq<ObstacleState>, h: int) -> Seq<
    ObstacleState,
> {
    Seq::new(obs.len(), |i: int| obs[i].scrolled(cfg, h))
}

/// The obstacles after each one's velocity was added to its position.
pub open spec fn advance_all(obs: Seq<ObstacleState>) -> Seq<ObstacleState> {
    Seq::new(obs.len(), |i: int| obs[i].advanced())
}

/// The obstacles after a restart with the heights `hs`, one for each pair.
pub open spec fn restart_all(cfg: SimConfig, obs: Seq<ObstacleState>, hs: Seq<int>) -> Seq<
    ObstacleState,
> {
    Seq::new(obs.len(), |i: int| obs[i].restarted(cfg, hs))
}

/// Whether every height of `hs` can be drawn under `cfg`, and there is one
/// for each pair.
pub open spec fn heights_fit(cfg: SimConfig, hs: Seq<int>) -> bool {
    &&& hs.len() == cfg.pairs
    &&& forall|k: int| 0 <= k < hs.len() ==> cfg.admits(#[trigger] hs[k])
}

/// Whether the three obstacles of pair `k`, counted from zero, are in their
/// places in the list, within the limits, and stand together.
pub open spec fn pair_ok(cfg: SimConfig, obs: Seq<ObstacleState>, k: int) -> bool {
    let top = obs[3 * k];
    let bottom = obs[3 * k + 1];
    let marker = obs[3 * k + 2];
    &&& top.role == Role::TopPipe
    &&& bottom.role == Role::BottomPipe
    &&& marker.role == Role::PointMarker
    &&& top.pair == k + 1
    &&& bottom.pair == k + 1
    &&& marker.pair == k + 1
    &&& top.wf(cfg)
    &&& bottom.wf(cfg)
    &&& marker.wf(cfg)
    &&& bottom.together(top, cfg)
    &&& marker.together(top, cfg)
}

/// Whether the list holds the obstacles of `cfg.pairs` pairs in order, each
/// within the limits and each pair standing together.
pub open spec fn arranged(cfg: SimConfig, obs: Seq<ObstacleState>) -> bool {
    &&& obs.len() == 3 * cfg.pairs
    &&& forall|k: int| 0 <= k < cfg.pairs ==> #[trigger] pair_ok(cfg, obs, k)
}

/// In an arranged list every obstacle is within the limits and has the role
/// and the pair that its place gives it.
pub proof fn lemma_arranged_at(cfg: SimConfig, obs: Seq<ObstacleState>, i: int)
    requires
        arranged(cfg, obs),
        0 <= i < obs.len(),
    ensures
        obs[i].wf(cfg),
        obs[i].role == role_at(i),
        obs[i].pair == i / 3 + 1,
{
    assert(pair_ok(cfg, obs, i / 3));
}

/// A pair's starting line lies well within the limits.
proof fn lemma_start_line(cfg: SimConfig, pair: int)
    requires
        cfg.wf(),
        0 <= pair <= cfg.pairs,
    ensures
        within(pair * cfg.pair_spacing, 0x100_0000_0000_0000),
{
    assert(within(pair * cfg.pair_spacing, 0x100_0000_0000_0000)) by (nonlinear_arith)
        requires
            0 <= pair <= 0x1_0000,
            within(cfg.pair_spacing as int, 0x100_0000_0000),
    ;
}

/// The obstacles made at the start are arranged.
pub proof fn lemma_spawn_arranged(cfg: SimConfig, hs: Seq<int>)
    requires
        cfg.wf(),
        heights_fit(cfg, hs),
    ensures
        arranged(cfg, spawn_all(cfg, hs)),
{
    let obs = spawn_all(cfg, hs);
    assert forall|k: int| 0 <= k < cfg.pairs implies #[trigger] pair_ok(cfg, obs, k) by {
        lemma_start_line(cfg, k + 1);
        assert(cfg.admits(hs[k]));
    }
}

/// The scroll step keeps the obstacles arranged.
pub proof fn lemma_scroll_arranged(cfg: SimConfig, obs: Seq<ObstacleState>, h: int)
    requires
        cfg.wf(),
        arranged(cfg, obs),
        cfg.admits(h),
    ensures
        arranged(cfg, scroll_all(cfg, obs, h)),
{
    let next = scroll_all(cfg, obs, h);
    assert forall|k: int| 0 <= k < cfg.pairs implies #[trigger] pair_ok(cfg, next, k) by {
        assert(pair_ok(cfg, obs, k));
    }
}

/// A whole move, the scroll step and then the velocities added, keeps the
/// obstacles arranged.
pub proof fn lemma_move_arranged(cfg: SimConfig, obs: Seq<ObstacleState>, h: int)
    requires
        cfg.wf(),
        arranged(cfg, obs),
        cfg.admits(h),
    ensures
        arranged(cfg, advance_all(scroll_all(cfg, obs, h))),
{
    let mid = scroll_all(cfg, obs, h);
    let next = advance_all(mid);
    assert forall|k: int| 0 <= k < cfg.pairs implies #[trigger] pair_ok(cfg, next, k) by {
        assert(pair_ok(cfg, obs, k));
        assert(next[3 * k] == mid[3 * k].advanced());
        assert(next[3 * k + 1] == mid[3 * k + 1].advanced());
        assert(next[3 * k + 2] == mid[3 * k + 2].advanced());
    }
}

/// A restart keeps the obstacles arranged.
pub proof fn lemma_restart_arranged(cfg: SimConfig, obs: Seq<ObstacleState>, hs: Seq<int>)
    requires
        cfg.wf(),
        arranged(cfg, obs),
        heights_fit(cfg, hs),
    ensures
        arranged(cfg, restart_all(cfg, obs, hs)),
{
    let next = restart_all(cfg, obs, hs);
    assert forall|k: int| 0 <= k < cfg.pairs implies #[trigger] pair_ok(cfg, next, k) by {
        assert(pair_ok(cfg, obs, k));
        assert(cfg.admits(hs[k]));
    }
}

/// Where the obstacle at place `i` stands after a whole move in which `h`
/// was drawn, if it was placed anew in it: one scroll step left of the right
/// boundary, a marker as far right of that as it stands right of its pipes,
/// at the height `h` plus its offset.
pub open spec fn placed_anew(cfg: SimConfig, o: ObstacleState, h: int) -> Point {
    Point {
        x: cfg.right_start + cfg.spec_shift(o.role) + cfg.spec_scroll_step(),
        y: h + o.offset,
    }
}

/// An obstacle at or left of its left boundary is placed anew by the scroll
/// step, at the right boundary and at the height drawn plus its offset; one
/// that is right of its left boundary stays where it is.
pub proof fn lemma_recycle(cfg: SimConfig, o: ObstacleState, h: int)
    ensures
        o.recycles(cfg) <==> o.position.x <= cfg.left_threshold + cfg.spec_shift(o.role),
        o.recycles(cfg) ==> o.scrolled(cfg, h).position == (Point {
            x: cfg.right_start + cfg.spec_shift(o.role),
            y: h + o.offset,
        }),
        o.recycles(cfg) && o.role == Role::PointMarker ==> !o.scrolled(cfg, h).scored,
        !o.recycles(cfg) ==> o.scrolled(cfg, h).position == o.position && o.scrolled(
            cfg,
            h,
        ).scored == o.scored,
        o.scrolled(cfg, h).velocity.x == cfg.spec_scroll_step(),
{
}

/// The three obstacles of a pair reach their left boundaries in the same
/// tick: if one of them is placed anew, all three are, at the same height
/// drawn, each with its own offset. This holds after the scroll step and
/// after the whole move.
pub proof fn lemma_pair_recycles_together(
    cfg: SimConfig,
    obs: Seq<ObstacleState>,
    h: int,
    k: int,
)
    requires
        cfg.wf(),
        arranged(cfg, obs),
        0 <= k < cfg.pairs,
        obs[3 * k].recycles(cfg) || obs[3 * k + 1].recycles(cfg) || obs[3 * k + 2].recycles(cfg),
    ensures
        forall|i: int|
            3 * k <= i < 3 * k + 3 ==> {
                &&& (#[trigger] obs[i]).recycles(cfg)
                &&& scroll_all(cfg, obs, h)[i].position == (Point {
                    x: cfg.right_start + cfg.spec_shift(obs[i].role),
                    y: h + obs[i].offset,
                })
                &&& advance_all(scroll_all(cfg, obs, h))[i].position == placed_anew(
                    cfg,
                    obs[i],
                    h,
                )
            },
{
    assert(pair_ok(cfg, obs, k));
    let mid = scroll_all(cfg, obs, h);
    assert forall|i: int| 3 * k <= i < 3 * k + 3 implies {
        &&& (#[trigger] obs[i]).recycles(cfg)
        &&& mid[i].position == (Point {
            x: cfg.right_start + cfg.spec_shift(obs[i].role),
            y: h + obs[i].offset,
        })
        &&& advance_all(mid)[i].position == placed_anew(cfg, obs[i], h)
    } by {
        assert(i == 3 * k || i == 3 * k + 1 || i == 3 * k + 2);
        assert(advance_all(mid)[i] == mid[i].advanced());
    }
}

/// Makes the obstacle with role `role` of pair `pair` for the height `h`.
fn spawn_one(cfg: &SimConfig, role: Role, pair: usize, h: i64) -> (o: Obstacle)
    requires
        cfg.wf(),
        1 <= pair <= cfg.pairs,
        cfg.admits(h as int),
    ensures
        o@ == ObstacleState::spawned(*cfg, role, pair as int, h as int),
{
    proof {
        lemma_start_line(*cfg, pair as int);
    }
    let x: i64 = (pair as i64) * cfg.pair_spacing;
    let offset: i64 = cfg.offset(role);
    let y: i64 = h + offset;
    Obstacle {
        role,
        position: Vec2 { x: x + cfg.shift(role), y },
        velocity: Velocity(Vec2 { x: 0, y: 0 }),
        offset: Offset(offset),
        number_of: NumberOf(pair),
        starting_position: StartingPosition(Vec2 { x, y }),
        been_added: BeenAdded(false),
    }
}

/// Makes the obstacles of all pairs for the given heights: pair `k`, counted
/// from one, starts `k` spacings right of the origin at the height
/// `heights[k - 1]`, its marker half a pipe's width further right.
pub fn spawn_pairs(cfg: &SimConfig, heights: &Vec<i64>) -> (obstacles: Vec<Obstacle>)
    requires
        cfg.wf(),
        heights_fit(*cfg, ints(heights@)),
    ensures
        states(obstacles@) == spawn_all(*cfg, ints(heights@)),
        arranged(*cfg, states(obstacles@)),
{
    let mut obstacles: Vec<Obstacle> = Vec::new();
    let mut k: usize = 0;
    while k < cfg.pairs
        invariant
            cfg.wf(),
            heights_fit(*cfg, ints(heights@)),
            k <= cfg.pairs,
            obstacles.len() == 3 * k,
            forall|i: int|
                0 <= i < obstacles.len() ==> (#[trigger] obstacles[i])@ == ObstacleState::spawned(
                    *cfg,
                    role_at(i),
                    i / 3 + 1,
                    heights[i / 3] as int,
                ),
        decreases cfg.pairs - k,
    {
        let h: i64 = heights[k];
        assert(cfg.admits(ints(heights@)[k as int]));
        obstacles.push(spawn_one(cfg, Role::TopPipe, k + 1, h));
        obstacles.push(spawn_one(cfg, Role::BottomPipe, k + 1, h));
        obstacles.push(spawn_one(cfg, Role::PointMarker, k + 1, h));
        k = k + 1;
    }
    proof {
        assert(states(obstacles@) =~= spawn_all(*cfg, ints(heights@)));
        lemma_spawn_arranged(*cfg, ints(heights@));
    }
    obstacles
}

/// Makes the obstacles of all pairs, each pair at a height drawn from `rng`.
pub fn setup(cfg: &SimConfig, rng: &mut HeightSource) -> (obstacles: Vec<Obstacle>)
    requires
        cfg.wf(),
    ensures
        exists|hs: Seq<int>|
            heights_fit(*cfg, hs) && states(obstacles@) == #[trigger] spawn_all(*cfg, hs),
        arranged(*cfg, states(obstacles@)),
{
    let heights: Vec<i64> = rng.draw_many(cfg.height_min, cfg.height_max, cfg.pairs);
    spawn_pairs(cfg, &heights)
}

/// Whether adding each obstacle's velocity to its position stays within
/// the machine's integers.
pub open spec fn can_advance(obs: Seq<ObstacleState>) -> bool {
    forall|i: int|
        0 <= i < obs.len() ==> {
            &&& i64::MIN <= (#[trigger] obs[i]).position.x + obs[i].velocity.x <= i64::MAX
            &&& i64::MIN <= obs[i].position.y + obs[i].velocity.y <= i64::MAX
        }
}

/// Whether every offset is within the limit on constants.
pub open spec fn offsets_fit(obs: Seq<ObstacleState>) -> bool {
    forall|i: int| 0 <= i < obs.len() ==> within((#[trigger] obs[i]).offset, PARAM_LIMIT as int)
}

impl Obstacle {
    /// Gives the obstacle the scroll velocity and, if it has reached the
    /// left boundary, places it at the right boundary at the height `h`.
    fn scroll(&mut self, cfg: &SimConfig, h: i64)
        requires
            cfg.wf(),
            cfg.admits(h as int),
            within(old(self)@.offset, PARAM_LIMIT as int),
        ensures
            final(self)@ == old(self)@.scrolled(*cfg, h as int),
    {
        self.velocity.0.x = cfg.scroll_step();
        let shift: i64 = cfg.shift(self.role);
        if self.position.x <= cfg.left_threshold + shift {
            self.position.x = cfg.right_start + shift;
            self.position.y = h + self.offset.0;
            match self.role {
                Role::PointMarker => {
                    self.been_added.0 = false;
                },
                _ => {},
            }
        }
    }

    /// Adds the obstacle's velocity to its position.
    fn advance(&mut self)
        requires
            i64::MIN <= old(self)@.position.x + old(self)@.velocity.x <= i64::MAX,
            i64::MIN <= old(self)@.position.y + old(self)@.velocity.y <= i64::MAX,
        ensures
            final(self)@ == old(self)@.advanced(),
    {
        self.position.x = self.position.x + self.velocity.0.x;
        self.position.y = self.position.y + self.velocity.0.y;
    }
}

/// The scroll step on every obstacle, for the height `height`: each gets the
/// scroll velocity, and each that has reached the left boundary is placed
/// at the right boundary at `height` plus its offset, a marker with its
/// flag cleared.
pub fn scroll_pipes(obstacles: &mut Vec<Obstacle>, cfg: &SimConfig, height: i64)
    requires
        cfg.wf(),
        cfg.admits(height as int),
        offsets_fit(states(old(obstacles)@)),
    ensures
        states(final(obstacles)@) == scroll_all(*cfg, states(old(obstacles)@), height as int),
        arranged(*cfg, states(old(obstacles)@)) ==> arranged(*cfg, states(final(obstacles)@)),
{
    let ghost before = obstacles@;
    proof {
        if arranged(*cfg, states(before)) {
            lemma_scroll_arranged(*cfg, states(before), height as int);
        }
    }
    let n: usize = obstacles.len();
    let mut i: usize = 0;
    while i < n
        invariant
            cfg.wf(),
            cfg.admits(height as int),
            offsets_fit(states(before)),
            obstacles.len() == n,
            before.len() == n,
            i <= n,
            forall|j: int|
                0 <= j < i ==> (#[trigger] obstacles[j])@ == before[j]@.scrolled(
                    *cfg,
                    height as int,
                ),
            forall|j: int| i <= j < n ==> #[trigger] obstacles[j] == before[j],
        decreases n - i,
    {
        let mut o: Obstacle = obstacles[i];
        assert(within(states(before)[i as int].offset, PARAM_LIMIT as int));
        o.scroll(cfg, height);
        obstacles.set(i, o);
        i = i + 1;
    }
    assert(states(obstacles@) =~= scroll_all(*cfg, states(before), height as int));
}

/// The scroll step on every obstacle, for one height drawn from `rng` and
/// shared by all that are placed anew in this step.
pub fn move_pipes(obstacles: &mut Vec<Obstacle>, cfg: &SimConfig, rng: &mut HeightSource)
    requires
        cfg.wf(),
        offsets_fit(states(old(obstacles)@)),
    ensures
        exists|h: int|
            cfg.admits(h) && states(final(obstacles)@) == #[trigger] scroll_all(
                *cfg,
                states(old(obstacles)@),
                h,
            ),
        arranged(*cfg, states(old(obstacles)@)) ==> arranged(*cfg, states(final(obstacles)@)),
{
    let height: i64 = rng.draw(cfg.height_min, cfg.height_max);
    scroll_pipes(obstacles, cfg, height);
}

/// Adds each obstacle's velocity to its position.
pub fn apply_pipes_velocity(obstacles: &mut Vec<Obstacle>)
    requires
        can_advance(states(old(obstacles)@)),
    ensures
        states(final(obstacles)@) == advance_all(states(old(obstacles)@)),
{
    let ghost before = obstacles@;
    let n: usize = obstacles.len();
    let mut i: usize = 0;
    while i < n
        invariant
            can_advance(states(before)),
            obstacles.len() == n,
            before.len() == n,
            i <= n,
            forall|j: int| 0 <= j < i ==> (#[trigger] obstacles[j])@ == before[j]@.advanced(),
            forall|j: int| i <= j < n ==> #[trigger] obstacles[j] == before[j],
        decreases n - i,
    {
        let mut o: Obstacle = obstacles[i];
        assert(states(before)[i as int] == o@);
        o.advance();
        obstacles.set(i, o);
        i = i + 1;
    }
    assert(states(obstacles@) =~= advance_all(states(before)));
}

impl Obstacle {
    /// Tests whether the obstacle is within the limits of the simulation.
    pub fn is_valid(&self, cfg: &SimConfig) -> (valid: bool)
        ensures
            valid == self@.wf(*cfg),
    {
        1 <= self.number_of.0 && self.number_of.0 <= cfg.pairs && fits(
            self.position.x,
            COORD_LIMIT,
        ) && fits(self.position.y, COORD_LIMIT) && fits(
            self.starting_position.0.x,
            COORD_LIMIT - PARAM_LIMIT,
        ) && fits(self.offset.0, PARAM_LIMIT) && self.velocity.0.y == 0
    }

    /// Tests whether the obstacle stands together with `other`. Both are
    /// within the limits.
    fn stands_with(&self, other: &Obstacle, cfg: &SimConfig) -> (yes: bool)
        requires
            cfg.wf(),
            self@.wf(*cfg),
            other@.wf(*cfg),
        ensures
            yes == self@.together(other@, *cfg),
    {
        self.position.x - cfg.shift(self.role) == other.position.x - cfg.shift(other.role)
            && self.position.y - self.offset.0 == other.position.y - other.offset.0
            && self.starting_position.0.x == other.starting_position.0.x
    }
}

/// Tests whether the three obstacles from place `3 * k` on are pair `k`,
/// counted from zero, in order, within the limits and standing together.
fn pair_holds(obstacles: &Vec<Obstacle>, cfg: &SimConfig, k: usize) -> (yes: bool)
    requires
        cfg.wf(),
        3 * k + 2 < obstacles.len(),
        k < cfg.pairs,
    ensures
        yes == pair_ok(*cfg, states(obstacles@), k as int),
{
    let top: &Obstacle = &obstacles[3 * k];
    let bottom: &Obstacle = &obstacles[3 * k + 1];
    let marker: &Obstacle = &obstacles[3 * k + 2];
    let roles: bool = match (top.role, bottom.role, marker.role) {
        (Role::TopPipe, Role::BottomPipe, Role::PointMarker) => true,
        _ => false,
    };
    roles && top.number_of.0 == k + 1 && bottom.number_of.0 == k + 1 && marker.number_of.0 == k
        + 1 && top.is_valid(cfg) && bottom.is_valid(cfg) && marker.is_valid(cfg)
        && bottom.stands_with(top, cfg) && marker.stands_with(top, cfg)
}

/// Tests whether the list holds the obstacles of `cfg.pairs` pairs in order,
/// each within the limits and each pair standing together.
pub fn is_arranged(obstacles: &Vec<Obstacle>, cfg: &SimConfig) -> (yes: bool)
    requires
        cfg.wf(),
    ensures
        yes == arranged(*cfg, states(obstacles@)),
{
    if obstacles.len() != 3 * cfg.pairs {
        return false;
    }
    let mut k: usize = 0;
    while k < cfg.pairs
        invariant
            cfg.wf(),
            obstacles.len() == 3 * cfg.pairs,
            k <= cfg.pairs,
            forall|j: int| 0 <= j < k ==> #[trigger] pair_ok(*cfg, states(obstacles@), j),
        decreases cfg.pairs - k,
    {
        if !pair_holds(obstacles, cfg, k) {
            return false;
        }
        k = k + 1;
    }
    true
}

} // verus!
