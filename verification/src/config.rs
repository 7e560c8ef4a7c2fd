//! The constants of a simulation, and the limits within which it computes.

use vstd::prelude::*;
use crate::geometry::Vec2;

verus! {

/// No constant of a configuration is larger in magnitude than this.
pub const PARAM_LIMIT: i64 = 0x100_0000_0000;

/// No coordinate that the simulation starts a tick from is larger in
/// magnitude than this.
pub const COORD_LIMIT: i64 = 0x1000_0000_0000_0000;

/// The largest number of obstacle pairs.
pub const PAIR_LIMIT: usize = 0x1_0000;

/// The part an obstacle plays in its pair.
#[derive(Clone, Copy, Debug, PartialEq, Eq, Structural)]
pub enum Role {
    TopPipe,
    BottomPipe,
    PointMarker,
}

/// The constants of a simulation.
///
/// Speeds and accelerations are given per time quantum; a tick lasts `tick`
/// quanta, so what a tick adds is the constant times `tick`.
#[derive(Clone, Copy, Debug, PartialEq, Eq, Structural)]
pub struct SimConfig {
    /// The duration of one tick, in time quanta.
    pub tick: i64,
    /// What gravity adds to the bird's vertical velocity in one quantum (negative).
    pub gravity: i64,
    /// The vertical velocity a jump gives, per quantum.
    pub jump_impulse: i64,
    /// The vertical velocity at or below which gravity no longer acts.
    pub gravity_cap: i64,
    /// The velocity at or above which a jump request is ignored.
    pub speed_cap: Vec2,
    /// Where the bird stands at the start and after a reset.
    pub bird_start: Vec2,
    /// The half-extents of the bird's collider.
    pub bird_half_extents: Vec2,
    /// The horizontal velocity of every obstacle, per quantum (negative).
    pub scroll_speed: i64,
    /// The number of obstacle pairs.
    pub pairs: usize,
    /// The least height a pair can be placed at.
    pub height_min: i64,
    /// The greatest height a pair can be placed at.
    pub height_max: i64,
    /// The horizontal distance between one pair and the next at the start.
    pub pair_spacing: i64,
    /// The vertical distance between the two pipes of a pair.
    pub pair_gap: i64,
    /// The half-extents of a pipe's collider.
    pub pipe_half_extents: Vec2,
    /// The half-extents of a point marker's collider.
    pub marker_half_extents: Vec2,
    /// A pipe at or left of this is moved back to the right.
    pub left_threshold: i64,
    /// Where a pipe that is moved back to the right is put.
    pub right_start: i64,
}

/// Whether `v` is at most `limit` in magnitude.
pub open spec fn within(v: int, limit: int) -> bool {
    -limit <= v <= limit
}

impl SimConfig {
    /// The vertical velocity that a jump sets.
    pub open spec fn spec_jump_velocity(self) -> int {
        self.jump_impulse * self.tick
    }

    /// What gravity adds to the vertical velocity in one tick.
    pub open spec fn spec_gravity_step(self) -> int {
        self.gravity * self.tick
    }

    /// The horizontal velocity of every obstacle.
    pub open spec fn spec_scroll_step(self) -> int {
        self.scroll_speed * self.tick
    }

    /// How far right of its pipes a point marker stands: half a pipe's width.
    pub open spec fn spec_shift(self, role: Role) -> int {
        match role {
            Role::PointMarker => self.pipe_half_extents.x as int,
            _ => 0,
        }
    }

    /// The height of an obstacle above the height of its pair.
    pub open spec fn spec_offset(self, role: Role) -> int {
        match role {
            Role::TopPipe => 0,
            Role::BottomPipe => -self.pair_gap,
            Role::PointMarker => -(self.pair_gap / 2),
        }
    }

    /// The half-extents of the collider of an obstacle.
    pub open spec fn spec_half_extents(self, role: Role) -> Vec2 {
        match role {
            Role::PointMarker => self.marker_half_extents,
            _ => self.pipe_half_extents,
        }
    }

    /// Whether the constants are within the limits and have the signs that
    /// the simulation relies on.
    pub open spec fn wf(self) -> bool {
        &&& 1 <= self.tick <= PARAM_LIMIT
        &&& -PARAM_LIMIT <= self.spec_gravity_step() < 0
        &&& within(self.spec_jump_velocity(), PARAM_LIMIT as int)
        &&& -PARAM_LIMIT <= self.spec_scroll_step() < 0
        &&& within(self.gravity_cap as int, PARAM_LIMIT as int)
        &&& within(self.speed_cap.x as int, PARAM_LIMIT as int)
        &&& within(self.speed_cap.y as int, PARAM_LIMIT as int)
        &&& within(self.bird_start.x as int, PARAM_LIMIT as int)
        &&& within(self.bird_start.y as int, PARAM_LIMIT as int)
        &&& within(self.bird_half_extents.x as int, PARAM_LIMIT as int)
        &&& within(self.bird_half_extents.y as int, PARAM_LIMIT as int)
        &&& self.pairs <= PAIR_LIMIT
        &&& self.height_min <= self.height_max
        &&& within(self.height_min as int, PARAM_LIMIT as int)
        &&& within(self.height_max as int, PARAM_LIMIT as int)
        &&& within(self.pair_spacing as int, PARAM_LIMIT as int)
        &&& 0 <= self.pair_gap <= PARAM_LIMIT
        &&& within(self.pipe_half_extents.x as int, PARAM_LIMIT as int)
        &&& within(self.pipe_half_extents.y as int, PARAM_LIMIT as int)
        &&& within(self.marker_half_extents.x as int, PARAM_LIMIT as int)
        &&& within(self.marker_half_extents.y as int, PARAM_LIMIT as int)
        &&& within(self.left_threshold as int, PARAM_LIMIT as int)
        &&& within(self.right_start as int, PARAM_LIMIT as int)
    }

    /// Whether `h` is a height that a pair can be placed at.
    pub open spec fn admits(self, h: int) -> bool {
        self.height_min <= h <= self.height_max
    }

    /// The usual constants, for sixty ticks a second: a length unit is a
    /// sixtieth of a pixel and a tick lasts one quantum.
    pub fn standard() -> (cfg: SimConfig)
        ensures
            cfg.wf(),
            cfg.tick == 1,
            cfg.gravity == -40,
            cfg.jump_impulse == 800,
            cfg.gravity_cap == -4200,
            cfg.speed_cap == (Vec2 { x: 0, y: 1500 }),
            cfg.bird_start == (Vec2 { x: 0, y: 0 }),
            cfg.bird_half_extents == (Vec2 { x: 600, y: 600 }),
            cfg.scroll_speed == -300,
            cfg.pairs == 6,
            cfg.height_min == 12000,
            cfg.height_max == 42000,
            cfg.pair_spacing == 30000,
            cfg.pair_gap == 60000,
            cfg.pipe_half_extents == (Vec2 { x: 2700, y: 22500 }),
            cfg.marker_half_extents == (Vec2 { x: 300, y: 7500 }),
            cfg.left_threshold == -60000,
            cfg.right_start == 120000,
    {
        SimConfig {
            tick: 1,
            gravity: -40,
            jump_impulse: 800,
            gravity_cap: -4200,
            speed_cap: Vec2 { x: 0, y: 1500 },
            bird_start: Vec2 { x: 0, y: 0 },
            bird_half_extents: Vec2 { x: 600, y: 600 },
            scroll_speed: -300,
            pairs: 6,
            height_min: 12000,
            height_max: 42000,
            pair_spacing: 30000,
            pair_gap: 60000,
            pipe_half_extents: Vec2 { x: 2700, y: 22500 },
            marker_half_extents: Vec2 { x: 300, y: 7500 },
            left_threshold: -60000,
            right_start: 120000,
        }
    }

    /// Tests whether the constants can be used.
    pub fn is_valid(&self) -> (valid: bool)
        ensures
            valid == self.wf(),
    {
        if !(1 <= self.tick && self.tick <= PARAM_LIMIT) {
            return false;
        }
        let steps = product_fits(self.gravity, self.tick) && self.gravity < 0 && product_fits(
            self.jump_impulse,
            self.tick,
        ) && product_fits(self.scroll_speed, self.tick) && self.scroll_speed < 0;
        proof {
            if within(self.spec_gravity_step(), PARAM_LIMIT as int) {
                lemma_factor_bounded(self.gravity as int, self.tick as int);
            }
            if within(self.spec_scroll_step(), PARAM_LIMIT as int) {
                lemma_factor_bounded(self.scroll_speed as int, self.tick as int);
            }
        }
        steps && fits(self.gravity_cap, PARAM_LIMIT) && fits(self.speed_cap.x, PARAM_LIMIT) && fits(
            self.speed_cap.y,
            PARAM_LIMIT,
        ) && fits(self.bird_start.x, PARAM_LIMIT) && fits(self.bird_start.y, PARAM_LIMIT) && fits(
            self.bird_half_extents.x,
            PARAM_LIMIT,
        ) && fits(self.bird_half_extents.y, PARAM_LIMIT) && self.pairs <= PAIR_LIMIT
            && self.height_min <= self.height_max && fits(self.height_min, PARAM_LIMIT) && fits(
            self.height_max,
            PARAM_LIMIT,
        ) && fits(self.pair_spacing, PARAM_LIMIT) && 0 <= self.pair_gap && self.pair_gap
            <= PARAM_LIMIT && fits(self.pipe_half_extents.x, PARAM_LIMIT) && fits(
            self.pipe_half_extents.y,
            PARAM_LIMIT,
        ) && fits(self.marker_half_extents.x, PARAM_LIMIT) && fits(
            self.marker_half_extents.y,
            PARAM_LIMIT,
        ) && fits(self.left_threshold, PARAM_LIMIT) && fits(self.right_start, PARAM_LIMIT)
    }

    /// The vertical velocity that a jump sets.
    pub fn jump_velocity(&self) -> (v: i64)
        requires
            self.wf(),
        ensures
            v == self.spec_jump_velocity(),
    {
        self.jump_impulse * self.tick
    }

    /// What gravity adds to the vertical velocity in one tick.
    pub fn gravity_step(&self) -> (v: i64)
        requires
            self.wf(),
        ensures
            v == self.spec_gravity_step(),
    {
        self.gravity * self.tick
    }

    /// The horizontal velocity of every obstacle.
    pub fn scroll_step(&self) -> (v: i64)
        requires
            self.wf(),
        ensures
            v == self.spec_scroll_step(),
    {
        self.scroll_speed * self.tick
    }

    /// How far right of its pipes a point marker stands.
    pub fn shift(&self, role: Role) -> (v: i64)
        ensures
            v == self.spec_shift(role),
    {
        match role {
            Role::PointMarker => self.pipe_half_extents.x,
            _ => 0,
        }
    }

    /// The height of an obstacle above the height of its pair.
    pub fn offset(&self, role: Role) -> (v: i64)
        requires
            self.wf(),
        ensures
            v == self.spec_offset(role),
    {
        match role {
            Role::TopPipe => 0,
            Role::BottomPipe => -self.pair_gap,
            Role::PointMarker => -(self.pair_gap / 2),
        }
    }

    /// The half-extents of the collider of an obstacle.
    pub fn half_extents(&self, role: Role) -> (v: Vec2)
        ensures
            v == self.spec_half_extents(role),
    {
        match role {
            Role::PointMarker => self.marker_half_extents,
            _ => self.pipe_half_extents,
        }
    }
}

/// Whether `v` is at most `limit` in magnitude.
pub(crate) fn fits(v: i64, limit: i64) -> (ok: bool)
    requires
        0 <= limit,
    ensures
        ok == within(v as int, limit as int),
{
    -limit <= v && v <= limit
}

/// A product of a constant and the tick's duration lies within `PARAM_LIMIT`
/// only if the constant does.
proof fn lemma_factor_bounded(c: int, t: int)
    requires
        1 <= t,
        within(c * t, PARAM_LIMIT as int),
    ensures
        within(c, PARAM_LIMIT as int),
        c * t < 0 <==> c < 0,
{
    assert(c > PARAM_LIMIT ==> c * t > PARAM_LIMIT) by (nonlinear_arith)
        requires
            1 <= t,
    ;
    assert(c < -PARAM_LIMIT ==> c * t < -PARAM_LIMIT) by (nonlinear_arith)
        requires
            1 <= t,
    ;
    assert(c < 0 ==> c * t < 0) by (nonlinear_arith)
        requires
            1 <= t,
    ;
    assert(c >= 0 ==> c * t >= 0) by (nonlinear_arith)
        requires
            1 <= t,
    ;
}

/// Whether `c * t` is within `PARAM_LIMIT`, for a tick's duration `t`.
fn product_fits(c: i64, t: i64) -> (ok: bool)
    requires
        1 <= t <= PARAM_LIMIT,
    ensures
        ok == within(c * t, PARAM_LIMIT as int),
{
    if !fits(c, PARAM_LIMIT) {
        proof {
            if within(c * t, PARAM_LIMIT as int) {
                lemma_factor_bounded(c as int, t as int);
            }
        }
        return false;
    }
    assert(within(c * t, PARAM_LIMIT * PARAM_LIMIT)) by (nonlinear_arith)
        requires
            1 <= t <= PARAM_LIMIT,
            within(c as int, PARAM_LIMIT as int),
    ;
    let p: i128 = (c as i128) * (t as i128);
    -(PARAM_LIMIT as i128) <= p && p <= PARAM_LIMIT as i128
}

} // verus!
