use flappy::bird::{
    apply_bird_gravity, apply_bird_velocity, game_start, move_bird, setup, Bird, GravityCap,
    SpeedCap,
};
use flappy::config::SimConfig;
use flappy::geometry::Vec2;
use flappy::{AppState, Velocity};

fn bird_with_climb(vy: i64) -> Bird {
    Bird {
        position: Vec2::new(0, 0),
        velocity: Velocity(Vec2::new(0, vy)),
        gravity_cap: GravityCap(-4200),
        speed_cap: SpeedCap(Vec2::new(0, 1500)),
    }
}

#[test]
fn the_bird_starts_at_rest_with_the_caps_of_the_configuration() {
    let cfg = SimConfig::standard();
    let bird = setup(&cfg);
    assert_eq!(bird.position, Vec2::new(0, 0));
    assert_eq!(bird.velocity, Velocity(Vec2::new(0, 0)));
    assert_eq!(bird.gravity_cap, GravityCap(-4200));
    assert_eq!(bird.speed_cap, SpeedCap(Vec2::new(0, 1500)));
    assert!(bird.is_valid());
    assert!(bird.has_room());
}

#[test]
fn the_standard_steps_are_the_constants_times_the_tick() {
    let cfg = SimConfig::standard();
    assert_eq!(cfg.jump_velocity(), 800);
    assert_eq!(cfg.gravity_step(), -40);
    assert_eq!(cfg.scroll_step(), -300);
    let mut slow = cfg;
    slow.tick = 2;
    assert!(slow.is_valid());
    assert_eq!(slow.jump_velocity(), 1600);
    assert_eq!(slow.gravity_step(), -80);
    assert_eq!(slow.scroll_step(), -600);
}

#[test]
fn gravity_takes_one_step_a_tick_down_to_the_cap_and_stops_there() {
    let cfg = SimConfig::standard();
    let mut bird = bird_with_climb(800);
    let mut last = bird.velocity.0.y;
    for n in 1..=125 {
        apply_bird_gravity(&mut bird, &cfg);
        assert_eq!(bird.velocity.0.y, 800 - 40 * n);
        assert!(bird.velocity.0.y < last);
        last = bird.velocity.0.y;
    }
    assert_eq!(bird.velocity.0.y, -4200);
    for _ in 0..50 {
        apply_bird_gravity(&mut bird, &cfg);
        assert_eq!(bird.velocity.0.y, -4200);
    }
}

#[test]
fn gravity_acts_on_the_velocity_not_on_its_result() {
    let cfg = SimConfig::standard();
    let mut bird = bird_with_climb(-4199);
    apply_bird_gravity(&mut bird, &cfg);
    assert_eq!(bird.velocity.0.y, -4239);
    apply_bird_gravity(&mut bird, &cfg);
    assert_eq!(bird.velocity.0.y, -4239);
}

#[test]
fn a_jump_sets_the_jump_velocity() {
    let cfg = SimConfig::standard();
    let mut bird = bird_with_climb(-300);
    move_bird(&mut bird, true, &cfg);
    assert_eq!(bird.velocity.0.y, 800);
    assert_eq!(bird.velocity.0.x, 0);
    assert_eq!(bird.position, Vec2::new(0, 0));
}

#[test]
fn no_request_no_jump() {
    let cfg = SimConfig::standard();
    let mut bird = bird_with_climb(-300);
    move_bird(&mut bird, false, &cfg);
    assert_eq!(bird, bird_with_climb(-300));
}

#[test]
fn a_jump_at_or_above_the_speed_cap_is_ignored() {
    let cfg = SimConfig::standard();
    let mut at_cap = bird_with_climb(1500);
    move_bird(&mut at_cap, true, &cfg);
    assert_eq!(at_cap.velocity.0.y, 1500);
    let mut above = bird_with_climb(2000);
    move_bird(&mut above, true, &cfg);
    assert_eq!(above.velocity.0.y, 2000);
    let mut below = bird_with_climb(1499);
    move_bird(&mut below, true, &cfg);
    assert_eq!(below.velocity.0.y, 800);
}

#[test]
fn jump_spam_above_the_speed_cap_never_raises_the_velocity() {
    let cfg = SimConfig::standard();
    let mut bird = bird_with_climb(2000);
    let mut last = bird.velocity.0.y;
    for _ in 0..13 {
        move_bird(&mut bird, true, &cfg);
        apply_bird_gravity(&mut bird, &cfg);
        apply_bird_velocity(&mut bird);
        assert!(bird.velocity.0.y <= last);
        last = bird.velocity.0.y;
    }
    assert_eq!(bird.velocity.0.y, 2000 - 13 * 40);
}

#[test]
fn the_velocity_is_added_to_the_position() {
    let mut bird = bird_with_climb(-120);
    bird.velocity.0.x = 7;
    bird.position = Vec2::new(10, 1000);
    apply_bird_velocity(&mut bird);
    assert_eq!(bird.position, Vec2::new(17, 880));
    assert_eq!(bird.velocity, Velocity(Vec2::new(7, -120)));
}

#[test]
fn a_jump_in_the_menu_starts_the_game() {
    let cfg = SimConfig::standard();
    let mut bird = setup(&cfg);
    let mut state = AppState::MainMenu;
    game_start(&mut bird, &mut state, false, &cfg);
    assert_eq!(state, AppState::MainMenu);
    assert_eq!(bird, setup(&cfg));
    game_start(&mut bird, &mut state, true, &cfg);
    assert_eq!(state, AppState::InGame);
    assert_eq!(bird.velocity.0.y, 800);
}
