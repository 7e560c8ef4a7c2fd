use flappy::bird::{bird_pipe_collisions, bird_point_collisions, setup, BirdCollisionEvent};
use flappy::config::{Role, SimConfig};
use flappy::geometry::Vec2;
use flappy::pipes::{BeenAdded, NumberOf, Obstacle, Offset, StartingPosition};
use flappy::scoreboard::Scoreboard;
use flappy::sim::{step, SimContext, TickInput};
use flappy::{AppState, Velocity};

fn obstacle(role: Role, x: i64, y: i64) -> Obstacle {
    Obstacle {
        role,
        position: Vec2::new(x, y),
        velocity: Velocity(Vec2::new(0, 0)),
        offset: Offset(0),
        number_of: NumberOf(1),
        starting_position: StartingPosition(Vec2::new(0, 0)),
        been_added: BeenAdded(false),
    }
}

/// A game in progress whose bird hovers at the level of the gaps.
fn hovering_game() -> (SimContext, Vec<i64>) {
    let mut cfg = SimConfig::standard();
    cfg.gravity_cap = 0;
    let heights = vec![30000; 6];
    let mut ctx = SimContext::with_heights(cfg, &heights);
    ctx.state = AppState::InGame;
    (ctx, heights)
}

const QUIET: TickInput = TickInput { jump: false };

#[test]
fn a_pipe_in_reach_raises_the_event() {
    let cfg = SimConfig::standard();
    let bird = setup(&cfg);
    let near = vec![obstacle(Role::TopPipe, 3299, 23099)];
    assert_eq!(bird_pipe_collisions(&bird, &near, &cfg), Some(BirdCollisionEvent));
    let below = vec![obstacle(Role::BottomPipe, -3299, -23099)];
    assert_eq!(bird_pipe_collisions(&bird, &below, &cfg), Some(BirdCollisionEvent));
}

#[test]
fn a_pipe_just_out_of_reach_raises_none() {
    let cfg = SimConfig::standard();
    let bird = setup(&cfg);
    let beside = vec![obstacle(Role::TopPipe, 3300, 0)];
    assert_eq!(bird_pipe_collisions(&bird, &beside, &cfg), None);
    let above = vec![obstacle(Role::TopPipe, 0, 23100)];
    assert_eq!(bird_pipe_collisions(&bird, &above, &cfg), None);
}

#[test]
fn a_marker_raises_no_event() {
    let cfg = SimConfig::standard();
    let bird = setup(&cfg);
    let markers = vec![obstacle(Role::PointMarker, 0, 0)];
    assert_eq!(bird_pipe_collisions(&bird, &markers, &cfg), None);
}

#[test]
fn no_obstacles_no_event() {
    let cfg = SimConfig::standard();
    let bird = setup(&cfg);
    assert_eq!(bird_pipe_collisions(&bird, &Vec::new(), &cfg), None);
}

#[test]
fn several_pipes_in_reach_raise_one_event() {
    let cfg = SimConfig::standard();
    let bird = setup(&cfg);
    let pipes = vec![
        obstacle(Role::TopPipe, 100000, 0),
        obstacle(Role::TopPipe, 10, 10),
        obstacle(Role::BottomPipe, -10, -10),
        obstacle(Role::TopPipe, 0, 0),
    ];
    assert_eq!(bird_pipe_collisions(&bird, &pipes, &cfg), Some(BirdCollisionEvent));
}

#[test]
fn a_marker_in_reach_scores_once() {
    let cfg = SimConfig::standard();
    let bird = setup(&cfg);
    let mut obstacles = vec![obstacle(Role::PointMarker, 899, 8099)];
    let mut board = Scoreboard { score: 4 };
    bird_point_collisions(&bird, &mut obstacles, &mut board, &cfg);
    assert_eq!(board.score, 5);
    assert_eq!(obstacles[0].been_added, BeenAdded(true));
    for _ in 0..10 {
        bird_point_collisions(&bird, &mut obstacles, &mut board, &cfg);
    }
    assert_eq!(board.score, 5);
    assert_eq!(obstacles[0].been_added, BeenAdded(true));
}

#[test]
fn a_marker_out_of_reach_does_not_score() {
    let cfg = SimConfig::standard();
    let bird = setup(&cfg);
    let mut obstacles =
        vec![obstacle(Role::PointMarker, 900, 0), obstacle(Role::PointMarker, 0, 8100)];
    let mut board = Scoreboard { score: 0 };
    bird_point_collisions(&bird, &mut obstacles, &mut board, &cfg);
    assert_eq!(board.score, 0);
    assert_eq!(obstacles[0].been_added, BeenAdded(false));
    assert_eq!(obstacles[1].been_added, BeenAdded(false));
}

#[test]
fn a_pipe_in_reach_does_not_score() {
    let cfg = SimConfig::standard();
    let bird = setup(&cfg);
    let mut obstacles = vec![obstacle(Role::TopPipe, 0, 0), obstacle(Role::BottomPipe, 0, 0)];
    let mut board = Scoreboard { score: 0 };
    bird_point_collisions(&bird, &mut obstacles, &mut board, &cfg);
    assert_eq!(board.score, 0);
    assert_eq!(obstacles[0].been_added, BeenAdded(false));
}

#[test]
fn each_marker_in_reach_scores() {
    let cfg = SimConfig::standard();
    let bird = setup(&cfg);
    let mut flagged = obstacle(Role::PointMarker, 0, 0);
    flagged.been_added = BeenAdded(true);
    let mut obstacles = vec![
        obstacle(Role::PointMarker, 0, 0),
        flagged,
        obstacle(Role::PointMarker, 5000, 0),
        obstacle(Role::PointMarker, -100, 100),
    ];
    let mut board = Scoreboard { score: 0 };
    bird_point_collisions(&bird, &mut obstacles, &mut board, &cfg);
    assert_eq!(board.score, 2);
    assert_eq!(obstacles[0].been_added, BeenAdded(true));
    assert_eq!(obstacles[1].been_added, BeenAdded(true));
    assert_eq!(obstacles[2].been_added, BeenAdded(false));
    assert_eq!(obstacles[3].been_added, BeenAdded(true));
}

#[test]
fn staying_over_a_marker_for_five_ticks_scores_one() {
    let (mut ctx, heights) = hovering_game();
    for _ in 0..106 {
        let r = step(&mut ctx, QUIET, 30000, &heights);
        assert_eq!(r.points, 0);
        assert_eq!(r.collision, None);
    }
    assert_eq!(ctx.scoreboard.score, 0);
    assert_eq!(ctx.obstacles[2].position, Vec2::new(900, 0));
    let r = step(&mut ctx, QUIET, 30000, &heights);
    assert_eq!(r.points, 1);
    assert_eq!(ctx.scoreboard.score, 1);
    assert_eq!(ctx.obstacles[2].been_added, BeenAdded(true));
    for _ in 0..4 {
        let r = step(&mut ctx, QUIET, 30000, &heights);
        assert_eq!(r.points, 0);
        assert_eq!(r.collision, None);
        assert_eq!(ctx.scoreboard.score, 1);
        let x = ctx.obstacles[2].position.x;
        assert!(-900 < x && x < 900);
    }
    assert_eq!(ctx.obstacles[2].position, Vec2::new(-600, 0));
    for _ in 0..95 {
        step(&mut ctx, QUIET, 30000, &heights);
        assert_eq!(ctx.scoreboard.score, 1);
    }
    let r = step(&mut ctx, QUIET, 30000, &heights);
    assert_eq!(r.points, 1);
    assert_eq!(ctx.scoreboard.score, 2);
    assert_eq!(ctx.state, AppState::InGame);
    assert!(ctx.is_valid());
}

#[test]
fn a_marker_placed_anew_can_score_again() {
    let (mut ctx, heights) = hovering_game();
    for _ in 0..107 {
        step(&mut ctx, QUIET, 30000, &heights);
    }
    assert_eq!(ctx.obstacles[2].been_added, BeenAdded(true));
    for _ in 107..300 {
        step(&mut ctx, QUIET, 30000, &heights);
    }
    assert_eq!(ctx.obstacles[2].position.x, -57300);
    assert_eq!(ctx.obstacles[2].been_added, BeenAdded(true));
    step(&mut ctx, QUIET, 30000, &heights);
    assert_eq!(ctx.obstacles[2].position.x, 122400);
    assert_eq!(ctx.obstacles[2].been_added, BeenAdded(false));
}

#[test]
fn the_high_score_never_goes_down_across_restarts() {
    let (mut ctx, heights) = hovering_game();
    let mut best = 0;
    for _ in 0..107 {
        step(&mut ctx, QUIET, 30000, &heights);
        assert!(ctx.high_score.highscore >= best);
        best = ctx.high_score.highscore;
    }
    assert_eq!(ctx.scoreboard.score, 1);
    assert_eq!(ctx.high_score.highscore, 1);

    ctx.bird.position = ctx.obstacles[0].position;
    let r = step(&mut ctx, QUIET, 30000, &heights);
    assert_eq!(r.collision, Some(BirdCollisionEvent));
    assert_eq!(r.state, AppState::MainMenu);
    assert_eq!(ctx.scoreboard.score, 0);
    assert_eq!(ctx.high_score.highscore, 1);

    ctx.state = AppState::InGame;
    for n in 1..=207 {
        step(&mut ctx, QUIET, 30000, &heights);
        assert!(ctx.high_score.highscore >= best);
        best = ctx.high_score.highscore;
        if n == 107 {
            assert_eq!(ctx.scoreboard.score, 1);
            assert_eq!(ctx.high_score.highscore, 1);
        }
    }
    assert_eq!(ctx.scoreboard.score, 2);
    assert_eq!(ctx.high_score.highscore, 2);

    ctx.bird.position = ctx.obstacles[4].position;
    let r = step(&mut ctx, QUIET, 30000, &heights);
    assert_eq!(r.collision, Some(BirdCollisionEvent));
    assert_eq!(ctx.scoreboard.score, 0);
    assert_eq!(ctx.high_score.highscore, 2);

    ctx.state = AppState::InGame;
    for _ in 0..107 {
        step(&mut ctx, QUIET, 30000, &heights);
        assert_eq!(ctx.high_score.highscore, 2);
    }
    assert_eq!(ctx.scoreboard.score, 1);
}

#[test]
fn a_point_scored_in_the_tick_of_a_collision_counts_for_the_high_score() {
    let (mut ctx, heights) = hovering_game();
    ctx.obstacles[0].position = Vec2::new(300, 0);
    ctx.obstacles[1].position = Vec2::new(300, -60000);
    ctx.obstacles[2].position = Vec2::new(3000, -30000);
    ctx.bird.position = Vec2::new(2700, -23000);
    assert!(ctx.is_valid());
    let r = step(&mut ctx, QUIET, 30000, &heights);
    assert_eq!(r.points, 1);
    assert_eq!(r.collision, Some(BirdCollisionEvent));
    assert_eq!(ctx.scoreboard.score, 0);
    assert_eq!(ctx.high_score.highscore, 1);
    assert_eq!(ctx.state, AppState::MainMenu);
}
