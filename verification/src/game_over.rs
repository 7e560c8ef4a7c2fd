//! The restart that follows a collision.

use vstd::prelude::*;
use crate::bird::BirdCollisionEvent;
use crate::config::{Role, SimConfig};
use crate::geometry::Vec2;
use crate::heights::HeightSource;
use crate::pipes::{arranged, heights_fit, ints, restart_all, states, Obstacle};
use crate::sim::SimContext;
use crate::{AppState, Velocity};

verus! {

/// Puts the obstacle to rest where its pair started, at the new height of
/// its pair.
fn restart_one(o: &mut Obstacle, cfg: &SimConfig, heights: &Vec<i64>)
    requires
        cfg.wf(),
        old(o)@.wf(*cfg),
        heights_fit(*cfg, ints(heights@)),
    ensures
        final(o)@ == old(o)@.restarted(*cfg, ints(heights@)),
{
    let h: i64 = heights[o.number_of.0 - 1];
    assert(cfg.admits(ints(heights@)[o.number_of.0 - 1]));
    o.position.x = o.starting_position.0.x + cfg.shift(o.role);
    o.position.y = h + o.offset.0;
    o.velocity = Velocity(Vec2 { x: 0, y: 0 });
    match o.role {
        Role::PointMarker => {
            o.been_added.0 = false;
        },
        _ => {},
    }
}

/// Puts every obstacle to rest where its pair started, pair `k`, counted
/// from one, at the height `heights[k - 1]`, and clears the markers' flags.
pub fn restart_pipes(obstacles: &mut Vec<Obstacle>, cfg: &SimConfig, heights: &Vec<i64>)
    requires
        cfg.wf(),
        arranged(*cfg, states(old(obstacles)@)),
        heights_fit(*cfg, ints(heights@)),
    ensures
        states(final(obstacles)@) == restart_all(*cfg, states(old(obstacles)@), ints(heights@)),
        arranged(*cfg, states(final(obstacles)@)),
{
    let ghost before = obstacles@;
    proof {
        crate::pipes::lemma_restart_arranged(*cfg, states(before), ints(heights@));
    }
    let n: usize = obstacles.len();
    let mut i: usize = 0;
    while i < n
        invariant
            cfg.wf(),
            arranged(*cfg, states(before)),
            heights_fit(*cfg, ints(heights@)),
            obstacles.len() == n,
            before.len() == n,
            i <= n,
            forall|j: int|
                0 <= j < i ==> (#[trigger] obstacles[j])@ == before[j]@.restarted(
                    *cfg,
                    ints(heights@),
                ),
            forall|j: int| i <= j < n ==> #[trigger] obstacles[j] == before[j],
        decreases n - i,
    {
        let mut o: Obstacle = obstacles[i];
        proof {
            crate::pipes::lemma_arranged_at(*cfg, states(before), i as int);
        }
        restart_one(&mut o, cfg, heights);
        obstacles.set(i, o);
        i = i + 1;
    }
    assert(states(obstacles@) =~= restart_all(*cfg, states(before), ints(heights@)));
}

/// Restarts the game: the main menu, no score, the bird at rest at its
/// starting place, and the obstacles where they started, at the heights
/// `heights`. The high score stays.
pub fn restart(ctx: &mut SimContext, heights: &Vec<i64>)
    requires
        old(ctx).config.wf(),
        arranged(old(ctx).config, old(ctx)@.obstacles),
        heights_fit(old(ctx).config, ints(heights@)),
    ensures
        final(ctx).config == old(ctx).config,
        final(ctx)@ == old(ctx)@.restarted(old(ctx).config, ints(heights@)),
        arranged(old(ctx).config, final(ctx)@.obstacles),
{
    let cfg: SimConfig = ctx.config;
    ctx.scoreboard.score = 0;
    ctx.bird.position = cfg.bird_start;
    ctx.bird.velocity = Velocity(Vec2 { x: 0, y: 0 });
    restart_pipes(&mut ctx.obstacles, &cfg, heights);
    ctx.state = AppState::MainMenu;
}

/// Restarts the game if there was a collision, at heights drawn from `rng`,
/// one for each pair; without a collision nothing changes.
pub fn game_over(ctx: &mut SimContext, event: Option<BirdCollisionEvent>, rng: &mut HeightSource)
    requires
        old(ctx).config.wf(),
        arranged(old(ctx).config, old(ctx)@.obstacles),
    ensures
        final(ctx).config == old(ctx).config,
        event.is_none() ==> final(ctx)@ == old(ctx)@,
        event.is_some() ==> exists|hs: Seq<int>|
            heights_fit(old(ctx).config, hs) && final(ctx)@ == #[trigger] old(ctx)@.restarted(
                old(ctx).config,
                hs,
            ),
        arranged(old(ctx).config, final(ctx)@.obstacles),
{
    let heights: Vec<i64> = rng.draw_many(
        ctx.config.height_min,
        ctx.config.height_max,
        ctx.config.pairs,
    );
    if event.is_some() {
        restart(ctx, &heights);
    }
}

} // verus!
