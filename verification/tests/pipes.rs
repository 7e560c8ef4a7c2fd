use flappy::config::{Role, SimConfig};
use flappy::geometry::Vec2;
use flappy::heights::HeightSource;
use flappy::pipes::{
    apply_pipes_velocity, is_arranged, move_pipes, scroll_pipes, setup, spawn_pairs, BeenAdded,
    NumberOf, Obstacle, Offset, StartingPosition,
};
use flappy::Velocity;

fn six_heights() -> Vec<i64> {
    vec![12000, 20000, 30000, 42000, 15000, 25000]
}

fn marker_at(x: i64, scored: bool) -> Obstacle {
    Obstacle {
        role: Role::PointMarker,
        position: Vec2::new(x, -18000),
        velocity: Velocity(Vec2::new(0, 0)),
        offset: Offset(-30000),
        number_of: NumberOf(1),
        starting_position: StartingPosition(Vec2::new(30000, -18000)),
        been_added: BeenAdded(scored),
    }
}

fn top_pipe_at(x: i64) -> Obstacle {
    Obstacle {
        role: Role::TopPipe,
        position: Vec2::new(x, 12000),
        velocity: Velocity(Vec2::new(0, 0)),
        offset: Offset(0),
        number_of: NumberOf(1),
        starting_position: StartingPosition(Vec2::new(30000, 12000)),
        been_added: BeenAdded(false),
    }
}

fn bottom_pipe_at(x: i64) -> Obstacle {
    Obstacle {
        role: Role::BottomPipe,
        position: Vec2::new(x, -48000),
        velocity: Velocity(Vec2::new(0, 0)),
        offset: Offset(-60000),
        number_of: NumberOf(1),
        starting_position: StartingPosition(Vec2::new(30000, -48000)),
        been_added: BeenAdded(false),
    }
}

#[test]
fn each_pair_is_made_of_a_top_pipe_a_bottom_pipe_and_a_marker() {
    let cfg = SimConfig::standard();
    let obstacles = spawn_pairs(&cfg, &six_heights());
    assert_eq!(obstacles.len(), 18);
    assert_eq!(obstacles[0], top_pipe_at(30000));
    assert_eq!(obstacles[1], bottom_pipe_at(30000));
    assert_eq!(obstacles[2], marker_at(32700, false));
    for k in 0..6 {
        assert_eq!(obstacles[3 * k].role, Role::TopPipe);
        assert_eq!(obstacles[3 * k + 1].role, Role::BottomPipe);
        assert_eq!(obstacles[3 * k + 2].role, Role::PointMarker);
    }
}

#[test]
fn pairs_start_one_spacing_apart_at_their_heights() {
    let cfg = SimConfig::standard();
    let heights = six_heights();
    let obstacles = spawn_pairs(&cfg, &heights);
    for k in 0..6 {
        let x = 30000 * (k as i64 + 1);
        let h = heights[k];
        let top = obstacles[3 * k];
        let bottom = obstacles[3 * k + 1];
        let marker = obstacles[3 * k + 2];
        assert_eq!(top.position, Vec2::new(x, h));
        assert_eq!(bottom.position, Vec2::new(x, h - 60000));
        assert_eq!(marker.position, Vec2::new(x + 2700, h - 30000));
        assert_eq!(top.starting_position, StartingPosition(Vec2::new(x, h)));
        assert_eq!(bottom.starting_position, StartingPosition(Vec2::new(x, h - 60000)));
        assert_eq!(marker.starting_position, StartingPosition(Vec2::new(x, h - 30000)));
        for o in [top, bottom, marker] {
            assert_eq!(o.number_of, NumberOf(k + 1));
            assert_eq!(o.velocity, Velocity(Vec2::new(0, 0)));
            assert_eq!(o.been_added, BeenAdded(false));
        }
    }
    assert_eq!(obstacles[17].position, Vec2::new(182700, -5000));
}

#[test]
fn no_pairs_no_obstacles() {
    let mut cfg = SimConfig::standard();
    cfg.pairs = 0;
    assert!(cfg.is_valid());
    let obstacles = spawn_pairs(&cfg, &Vec::new());
    assert!(obstacles.is_empty());
    assert!(is_arranged(&obstacles, &cfg));
}

#[test]
fn the_obstacles_made_at_the_start_are_arranged() {
    let cfg = SimConfig::standard();
    let obstacles = spawn_pairs(&cfg, &six_heights());
    assert!(is_arranged(&obstacles, &cfg));
}

#[test]
fn a_list_with_a_pair_torn_apart_is_not_arranged() {
    let cfg = SimConfig::standard();
    let good = spawn_pairs(&cfg, &six_heights());

    let mut moved = good.clone();
    moved[4].position.x += 1;
    assert!(!is_arranged(&moved, &cfg));

    let mut lifted = good.clone();
    lifted[5].position.y += 1;
    assert!(!is_arranged(&lifted, &cfg));

    let mut short = good.clone();
    short.pop();
    assert!(!is_arranged(&short, &cfg));

    let mut swapped = good.clone();
    swapped.swap(0, 1);
    assert!(!is_arranged(&swapped, &cfg));

    let mut renumbered = good.clone();
    renumbered[7].number_of = NumberOf(2);
    assert!(!is_arranged(&renumbered, &cfg));

    let mut drifting = good.clone();
    drifting[9].velocity.0.y = 1;
    assert!(!is_arranged(&drifting, &cfg));

    let mut restarted_elsewhere = good.clone();
    restarted_elsewhere[2].starting_position.0.x += 5;
    assert!(!is_arranged(&restarted_elsewhere, &cfg));

    let mut far = good;
    far[0].position.x = i64::MAX;
    assert!(!is_arranged(&far, &cfg));
}

#[test]
fn an_obstacle_out_of_the_limits_is_not_valid() {
    let cfg = SimConfig::standard();
    assert!(top_pipe_at(0).is_valid(&cfg));
    let mut o = top_pipe_at(0);
    o.number_of = NumberOf(0);
    assert!(!o.is_valid(&cfg));
    o.number_of = NumberOf(7);
    assert!(!o.is_valid(&cfg));
    o.number_of = NumberOf(6);
    assert!(o.is_valid(&cfg));
    o.offset = Offset(0x100_0000_0001);
    assert!(!o.is_valid(&cfg));
}

#[test]
fn every_obstacle_scrolls_left_at_the_scroll_velocity() {
    let cfg = SimConfig::standard();
    let mut obstacles = spawn_pairs(&cfg, &six_heights());
    let before = obstacles.clone();
    scroll_pipes(&mut obstacles, &cfg, 20000);
    for (o, b) in obstacles.iter().zip(before.iter()) {
        assert_eq!(o.velocity, Velocity(Vec2::new(-300, 0)));
        assert_eq!(o.position, b.position);
    }
    apply_pipes_velocity(&mut obstacles);
    for (o, b) in obstacles.iter().zip(before.iter()) {
        assert_eq!(o.position, Vec2::new(b.position.x - 300, b.position.y));
    }
}

#[test]
fn a_pipe_at_the_left_boundary_goes_to_the_right_boundary() {
    let cfg = SimConfig::standard();
    let mut obstacles = vec![top_pipe_at(-60000), bottom_pipe_at(-60000)];
    scroll_pipes(&mut obstacles, &cfg, 33333);
    assert_eq!(obstacles[0].position, Vec2::new(120000, 33333));
    assert_eq!(obstacles[1].position, Vec2::new(120000, 33333 - 60000));
    assert_eq!(obstacles[0].velocity, Velocity(Vec2::new(-300, 0)));
}

#[test]
fn a_pipe_right_of_the_left_boundary_stays() {
    let cfg = SimConfig::standard();
    let mut obstacles = vec![top_pipe_at(-59999), bottom_pipe_at(-59999)];
    scroll_pipes(&mut obstacles, &cfg, 33333);
    assert_eq!(obstacles[0].position, Vec2::new(-59999, 12000));
    assert_eq!(obstacles[1].position, Vec2::new(-59999, -48000));
}

#[test]
fn a_marker_has_its_boundaries_half_a_pipe_further_right() {
    let cfg = SimConfig::standard();
    let mut obstacles = vec![marker_at(-57300, true), marker_at(-57299, true)];
    scroll_pipes(&mut obstacles, &cfg, 40000);
    assert_eq!(obstacles[0].position, Vec2::new(122700, 10000));
    assert_eq!(obstacles[0].been_added, BeenAdded(false));
    assert_eq!(obstacles[1].position, Vec2::new(-57299, -18000));
    assert_eq!(obstacles[1].been_added, BeenAdded(true));
}

#[test]
fn a_pair_is_placed_anew_as_a_whole_at_one_height() {
    let cfg = SimConfig::standard();
    let mut obstacles = vec![top_pipe_at(-60000), bottom_pipe_at(-60000), marker_at(-57300, true)];
    scroll_pipes(&mut obstacles, &cfg, 12345);
    apply_pipes_velocity(&mut obstacles);
    assert_eq!(obstacles[0].position, Vec2::new(119700, 12345));
    assert_eq!(obstacles[1].position, Vec2::new(119700, 12345 - 60000));
    assert_eq!(obstacles[2].position, Vec2::new(122400, 12345 - 30000));
    assert_eq!(obstacles[2].been_added, BeenAdded(false));
}

#[test]
fn the_velocity_of_each_obstacle_is_added_to_its_position() {
    let mut a = top_pipe_at(100);
    a.velocity = Velocity(Vec2::new(-7, 3));
    let mut b = marker_at(-5, false);
    b.velocity = Velocity(Vec2::new(11, -2));
    let mut obstacles = vec![a, b];
    apply_pipes_velocity(&mut obstacles);
    assert_eq!(obstacles[0].position, Vec2::new(93, 12003));
    assert_eq!(obstacles[1].position, Vec2::new(6, -18002));
    assert_eq!(obstacles[0].velocity, Velocity(Vec2::new(-7, 3)));
}

#[test]
fn a_drawn_height_is_shared_by_all_that_are_placed_anew() {
    let cfg = SimConfig::standard();
    let mut rng = HeightSource::seeded(11);
    for _ in 0..50 {
        let mut obstacles =
            vec![top_pipe_at(-60000), bottom_pipe_at(-60300), marker_at(-57300, true)];
        move_pipes(&mut obstacles, &cfg, &mut rng);
        let h = obstacles[0].position.y;
        assert!(12000 <= h && h <= 42000);
        assert_eq!(obstacles[1].position.y, h - 60000);
        assert_eq!(obstacles[2].position.y, h - 30000);
        assert_eq!(obstacles[0].position.x, 120000);
        assert_eq!(obstacles[1].position.x, 120000);
        assert_eq!(obstacles[2].position.x, 122700);
    }
}

#[test]
fn the_obstacles_set_up_from_a_source_are_arranged_at_heights_in_range() {
    let cfg = SimConfig::standard();
    let mut rng = HeightSource::seeded(2024);
    let obstacles = setup(&cfg, &mut rng);
    assert_eq!(obstacles.len(), 18);
    assert!(is_arranged(&obstacles, &cfg));
    for k in 0..6 {
        let h = obstacles[3 * k].position.y;
        assert!(12000 <= h && h <= 42000);
        assert_eq!(obstacles[3 * k + 1].position.y, h - 60000);
        assert_eq!(obstacles[3 * k + 2].position.y, h - 30000);
    }
}
