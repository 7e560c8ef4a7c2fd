use flappy::heights::HeightSource;

#[test]
fn a_drawn_height_lies_in_the_range() {
    let mut rng = HeightSource::seeded(1);
    for _ in 0..1000 {
        let h = rng.draw(12000, 42000);
        assert!(12000 <= h && h <= 42000);
    }
}

#[test]
fn a_range_of_one_height_gives_that_height() {
    let mut rng = HeightSource::seeded(5);
    for _ in 0..20 {
        assert_eq!(rng.draw(-7, -7), -7);
    }
}

#[test]
fn drawn_heights_are_not_all_the_same() {
    let mut rng = HeightSource::seeded(3);
    let hs = rng.draw_many(0, 1_000_000, 64);
    assert_eq!(hs.len(), 64);
    assert!(hs.iter().any(|h| *h != 0));
    assert!(hs.iter().any(|h| *h != 1_000_000));
    assert!(hs.iter().any(|h| *h != hs[0]));
    assert!(hs.iter().all(|h| 0 <= *h && *h <= 1_000_000));
}

#[test]
fn a_range_of_two_heights_gives_both() {
    let mut rng = HeightSource::seeded(9);
    let hs = rng.draw_many(10, 11, 200);
    assert!(hs.iter().any(|h| *h == 10));
    assert!(hs.iter().any(|h| *h == 11));
    assert!(hs.iter().all(|h| *h == 10 || *h == 11));
}

#[test]
fn the_same_seed_gives_the_same_heights() {
    let mut a = HeightSource::seeded(77);
    let mut b = HeightSource::seeded(77);
    assert_eq!(a.draw_many(-500, 500, 32), b.draw_many(-500, 500, 32));
    assert_eq!(a.draw(0, 9), b.draw(0, 9));
}

#[test]
fn different_seeds_give_different_heights() {
    let mut a = HeightSource::seeded(1);
    let mut b = HeightSource::seeded(2);
    assert_ne!(a.draw_many(0, 1_000_000, 32), b.draw_many(0, 1_000_000, 32));
}

#[test]
fn no_heights_can_be_asked_for() {
    let mut rng = HeightSource::seeded(0);
    assert!(rng.draw_many(1, 2, 0).is_empty());
}

#[test]
fn negative_ranges_are_ranges_too() {
    let mut rng = HeightSource::seeded(4);
    for _ in 0..100 {
        let h = rng.draw(-42000, -12000);
        assert!(-42000 <= h && h <= -12000);
    }
}
