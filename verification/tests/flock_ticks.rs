use flocking::boid::{Boid, BOID_SIZE, MAX_SPEED};
use flocking::fixed::SCALE;
use flocking::flock::{ConfigError, Flock};

fn boid(x: i64, y: i64, vx: i64, vy: i64) -> Boid {
    Boid::at(x, y, vx, vy).unwrap()
}

fn states(flock: &Flock) -> Vec<((i64, i64), (i64, i64))> {
    let mut all = Vec::new();
    for i in 0..flock.len() {
        let b = flock.boid(i).unwrap();
        all.push((b.position(), b.velocity()));
    }
    all
}

#[test]
fn new_keeps_the_configuration() {
    let flock = Flock::new(100, 50, 2, 120).unwrap();
    assert_eq!(flock.width(), 100);
    assert_eq!(flock.height(), 50);
    assert_eq!(flock.ticks_per_second(), 120);
    assert_eq!(flock.len(), 2);
    assert_eq!(flock.snapshot().len(), 2);
}

#[test]
fn new_places_the_boids_on_the_canvas() {
    let flock = Flock::new(64, 48, 300, 60).unwrap();
    assert_eq!(flock.len(), 300);
    for i in 0..flock.len() {
        let b = flock.boid(i).unwrap();
        let (x, y) = b.position();
        let (vx, vy) = b.velocity();
        assert!(0 <= x && x < 64 * SCALE);
        assert!(0 <= y && y < 48 * SCALE);
        assert!(0 <= vx && vx < BOID_SIZE);
        assert!(0 <= vy && vy < BOID_SIZE);
    }
}

#[test]
fn new_rejects_an_empty_canvas() {
    assert_eq!(Flock::new(0, 100, 2, 120).err(), Some(ConfigError::EmptyCanvas));
    assert_eq!(Flock::new(100, 0, 2, 120).err(), Some(ConfigError::EmptyCanvas));
    assert_eq!(Flock::new(0, 0, 0, 0).err(), Some(ConfigError::EmptyCanvas));
}

#[test]
fn new_rejects_a_tick_rate_of_zero() {
    assert_eq!(Flock::new(100, 100, 2, 0).err(), Some(ConfigError::ZeroTickRate));
    assert_eq!(Flock::new(1, 1, 0, 0).err(), Some(ConfigError::ZeroTickRate));
}

#[test]
fn new_rejects_a_canvas_that_one_tick_can_cross() {
    // at one tick a second a boid moves up to 28 pixels a tick
    assert_eq!(Flock::new(27, 100, 2, 1).err(), Some(ConfigError::CanvasTooSmall));
    assert_eq!(Flock::new(100, 27, 2, 1).err(), Some(ConfigError::CanvasTooSmall));
    assert!(Flock::new(28, 28, 2, 1).is_ok());
    // at two ticks a second, 14 pixels
    assert_eq!(Flock::new(13, 100, 2, 2).err(), Some(ConfigError::CanvasTooSmall));
    assert!(Flock::new(14, 14, 2, 2).is_ok());
    // at 120 ticks a second, less than a pixel
    assert!(Flock::new(1, 1, 2, 120).is_ok());
    assert!(Flock::new(1, 1, 2, u64::MAX).is_ok());
}

#[test]
fn from_boids_keeps_the_boids_in_order() {
    let a = boid(1, 2, 3, 4);
    let b = boid(5, 6, 7, 8);
    let flock = Flock::from_boids(100, 100, 120, vec![a, b]).unwrap();
    assert_eq!(flock.len(), 2);
    assert_eq!(flock.boid(0), Some(a));
    assert_eq!(flock.boid(1), Some(b));
    assert_eq!(flock.boid(2), None);
    assert_eq!(flock.snapshot(), vec![(1, 2), (5, 6)]);
}

#[test]
fn from_boids_rejects_a_bad_configuration_first() {
    let outside = boid(-1, 0, 0, 0);
    assert_eq!(Flock::from_boids(0, 100, 120, vec![outside]).err(), Some(ConfigError::EmptyCanvas));
    assert_eq!(Flock::from_boids(100, 100, 0, vec![outside]).err(), Some(ConfigError::ZeroTickRate));
    assert_eq!(Flock::from_boids(10, 10, 1, vec![outside]).err(), Some(ConfigError::CanvasTooSmall));
    assert_eq!(Flock::from_boids(100, 100, 120, vec![outside]).err(), Some(ConfigError::BoidOutOfView));
}

#[test]
fn from_boids_rejects_a_boid_off_the_canvas() {
    let w = 100 * SCALE;
    let h = 50 * SCALE;
    let inside = boid(0, 0, 0, 0);
    for outside in [boid(-1, 0, 0, 0), boid(0, -1, 0, 0), boid(w + 1, 0, 0, 0), boid(0, h + 1, 0, 0)] {
        let r = Flock::from_boids(100, 50, 120, vec![inside, outside]);
        assert_eq!(r.err(), Some(ConfigError::BoidOutOfView));
    }
    // the edges belong to the canvas
    assert!(Flock::from_boids(100, 50, 120, vec![boid(w, h, 0, 0), boid(0, 0, 0, 0)]).is_ok());
}

#[test]
fn from_boids_takes_any_velocity() {
    let fast = boid(0, 0, 1 << 62, -(1 << 62));
    let mut flock = Flock::from_boids(100, 100, 120, vec![fast]).unwrap();
    flock.step();
    let b = flock.boid(0).unwrap();
    assert_eq!(b.velocity(), (MAX_SPEED, -MAX_SPEED));
}

#[test]
fn two_boids_side_by_side() {
    let created = Flock::new(100, 100, 2, 120).unwrap();
    assert_eq!(created.len(), 2);

    let a = boid(10_000_000, 10_000_000, 0, 0);
    let b = boid(12_000_000, 10_000_000, 0, 0);
    let before = [a, b];
    assert_eq!(a.distance_to(&b), 2_000_000);

    assert_eq!(a.align(&before), (0, 0));
    assert_eq!(b.align(&before), (0, 0));
    assert_eq!(a.cohere(&before), (2_000_000, 0));
    assert_eq!(b.cohere(&before), (-2_000_000, 0));
    assert_eq!(a.separate(&before), (-2_000_000, 0));
    assert_eq!(b.separate(&before), (2_000_000, 0));

    let mut flock = Flock::from_boids(100, 100, 120, vec![a, b]).unwrap();
    flock.step();

    // velocity: a fifth of the cohesion, all of the separation
    let a1 = flock.boid(0).unwrap();
    let b1 = flock.boid(1).unwrap();
    assert_eq!(a1.velocity(), (-1_600_000, 0));
    assert_eq!(b1.velocity(), (1_600_000, 0));
    // position: 1600000 / 120, rounded toward zero
    assert_eq!(a1.position(), (9_986_667, 10_000_000));
    assert_eq!(b1.position(), (12_013_333, 10_000_000));
    assert_eq!(flock.snapshot(), vec![(9_986_667, 10_000_000), (12_013_333, 10_000_000)]);
}

#[test]
fn every_boid_steers_by_the_flock_before_the_tick() {
    // the second boid must see the first where it was, not where it went
    let a = boid(10_000_000, 10_000_000, 0, 0);
    let b = boid(12_000_000, 10_000_000, 0, 0);
    let mut flock = Flock::from_boids(100, 100, 1, vec![a, b]).unwrap();
    flock.step();
    assert_eq!(flock.boid(0).unwrap().position(), (8_400_000, 10_000_000));
    assert_eq!(flock.boid(1).unwrap().position(), (13_600_000, 10_000_000));
}

#[test]
fn empty_flock_stays_empty() {
    let mut flock = Flock::new(100, 100, 0, 120).unwrap();
    assert_eq!(flock.len(), 0);
    assert_eq!(flock.snapshot(), vec![]);
    for _ in 0..10 {
        flock.step();
        assert_eq!(flock.snapshot(), vec![]);
        assert_eq!(flock.len(), 0);
    }
    let mut made = Flock::from_boids(100, 100, 120, vec![]).unwrap();
    made.step();
    assert_eq!(made.snapshot(), vec![]);
}

#[test]
fn isolated_boid_moves_by_its_velocity() {
    let me = boid(50_000_000, 50_000_000, 1_200_000, -2_400_000);
    let mut flock = Flock::from_boids(100, 100, 120, vec![me]).unwrap();
    flock.step();
    let after = flock.boid(0).unwrap();
    assert_eq!(after.velocity(), (1_200_000, -2_400_000));
    assert_eq!(after.position(), (50_010_000, 49_980_000));
}

#[test]
fn isolated_boid_among_distant_ones() {
    let me = boid(10_000_000, 10_000_000, 120, 240);
    let far = boid(500_000_000, 500_000_000, -120, -240);
    let mut flock = Flock::from_boids(600, 600, 120, vec![me, far]).unwrap();
    flock.step();
    assert_eq!(states(&flock), vec![
        ((10_000_001, 10_000_002), (120, 240)),
        ((499_999_999, 499_999_998), (-120, -240)),
    ]);
}

#[test]
fn isolated_boid_over_the_speed_limit_is_clipped() {
    let me = boid(50_000_000, 50_000_000, 40_000_000, -40_000_000);
    let mut flock = Flock::from_boids(100, 100, 100, vec![me]).unwrap();
    flock.step();
    let after = flock.boid(0).unwrap();
    assert_eq!(after.velocity(), (MAX_SPEED, -MAX_SPEED));
    assert_eq!(after.position(), (50_280_000, 49_720_000));
}

#[test]
fn displacement_is_rounded_toward_zero() {
    let me = boid(50_000_000, 50_000_000, 119, -119);
    let mut flock = Flock::from_boids(100, 100, 120, vec![me]).unwrap();
    flock.step();
    assert_eq!(flock.boid(0).unwrap().position(), (50_000_000, 50_000_000));
    let me = boid(50_000_000, 50_000_000, 250, -250);
    let mut flock = Flock::from_boids(100, 100, 120, vec![me]).unwrap();
    flock.step();
    assert_eq!(flock.boid(0).unwrap().position(), (50_000_002, 49_999_998));
}

#[test]
fn boid_leaving_on_the_far_side_comes_back_on_the_near_side() {
    let w = 100 * SCALE;
    let me = boid(w - 1, w - 5, 240, 1_200);
    let mut flock = Flock::from_boids(100, 100, 120, vec![me]).unwrap();
    flock.step();
    // x: w + 1 is shifted to 1; y: w + 5 to 5
    assert_eq!(flock.boid(0).unwrap().position(), (1, 5));
}

#[test]
fn boid_leaving_on_the_near_side_comes_back_on_the_far_side() {
    let w = 100 * SCALE;
    let me = boid(1, 0, -240, -120);
    let mut flock = Flock::from_boids(100, 100, 120, vec![me]).unwrap();
    flock.step();
    assert_eq!(flock.boid(0).unwrap().position(), (w - 1, w - 1));
}

#[test]
fn boid_landing_on_the_far_edge_stays_there() {
    let w = 100 * SCALE;
    let me = boid(w - 1, w - 2, 120, 240);
    let mut flock = Flock::from_boids(100, 100, 120, vec![me]).unwrap();
    flock.step();
    assert_eq!(flock.boid(0).unwrap().position(), (w, w));
    flock.step();
    assert_eq!(flock.boid(0).unwrap().position(), (1, 2));
}

#[test]
fn boid_on_the_smallest_canvas_that_one_tick_can_cross() {
    let w = 28 * SCALE;
    let me = boid(w, 0, MAX_SPEED, -MAX_SPEED);
    let mut flock = Flock::from_boids(28, 28, 1, vec![me]).unwrap();
    flock.step();
    // x: 2w is shifted to w; y: -w to 0
    assert_eq!(flock.boid(0).unwrap().position(), (w, 0));
}

#[test]
fn stay_in_view_shifts_once() {
    let flock = Flock::new(100, 50, 0, 120).unwrap();
    let w = 100 * SCALE;
    let h = 50 * SCALE;
    assert_eq!(flock.stay_in_view(0, 0), (0, 0));
    assert_eq!(flock.stay_in_view(w, h), (w, h));
    assert_eq!(flock.stay_in_view(w + 1, h + 1), (1, 1));
    assert_eq!(flock.stay_in_view(-1, -1), (w - 1, h - 1));
    assert_eq!(flock.stay_in_view(3, -7), (3, h - 7));
    assert_eq!(flock.stay_in_view(w + 9, 4), (9, 4));
    // further out than one canvas, one shift is not enough
    assert_eq!(flock.stay_in_view(3 * w, -3 * h), (2 * w, -2 * h));
    assert_eq!(flock.stay_in_view(i64::MAX, i64::MIN), (i64::MAX - w, i64::MIN + h));
}

#[test]
fn snapshot_lists_the_positions_in_order() {
    let boids = vec![boid(3, 4, 0, 0), boid(1, 2, 9, 9), boid(5, 6, -9, -9)];
    let flock = Flock::from_boids(100, 100, 120, boids).unwrap();
    assert_eq!(flock.snapshot(), vec![(3, 4), (1, 2), (5, 6)]);
}

#[test]
fn equal_flocks_stay_equal() {
    let mut boids = Vec::new();
    for i in 0..40 {
        let i = i as i64;
        boids.push(boid(
            (i * 7_919_000) % (200 * SCALE),
            (i * 104_729_000) % (150 * SCALE),
            (i % 7 - 3) * 5_000_000,
            (i % 5 - 2) * 9_000_000,
        ));
    }
    let mut one = Flock::from_boids(200, 150, 60, boids.clone()).unwrap();
    let mut two = Flock::from_boids(200, 150, 60, boids).unwrap();
    for _ in 0..50 {
        one.step();
        two.step();
        assert_eq!(states(&one), states(&two));
    }
}

#[test]
fn ticks_keep_boids_in_view_and_under_the_speed_limit() {
    let mut flock = Flock::new(120, 90, 60, 30).unwrap();
    let w = 120 * SCALE;
    let h = 90 * SCALE;
    for _ in 0..300 {
        flock.step();
        assert_eq!(flock.len(), 60);
        for ((x, y), (vx, vy)) in states(&flock) {
            assert!(0 <= x && x <= w);
            assert!(0 <= y && y <= h);
            assert!(-MAX_SPEED <= vx && vx <= MAX_SPEED);
            assert!(-MAX_SPEED <= vy && vy <= MAX_SPEED);
        }
    }
}

#[test]
fn ticks_on_a_narrow_canvas_keep_boids_in_view() {
    let mut flock = Flock::new(28, 28, 25, 1).unwrap();
    let w = 28 * SCALE;
    for _ in 0..200 {
        flock.step();
        for ((x, y), (vx, vy)) in states(&flock) {
            assert!(0 <= x && x <= w);
            assert!(0 <= y && y <= w);
            assert!(-MAX_SPEED <= vx && vx <= MAX_SPEED);
            assert!(-MAX_SPEED <= vy && vy <= MAX_SPEED);
        }
    }
}

#[test]
fn step_matches_the_rules_of_each_boid() {
    let boids = vec![
        boid(10_000_000, 10_000_000, 1_000_000, 0),
        boid(14_000_000, 12_000_000, 0, -2_000_000),
        boid(40_000_000, 30_000_000, -3_000_000, 3_000_000),
        boid(90_000_000, 90_000_000, 500, 500),
    ];
    let mut flock = Flock::from_boids(100, 100, 120, boids.clone()).unwrap();
    flock.step();
    for (i, b) in boids.iter().enumerate() {
        let (vx, vy) = b.flock(&boids);
        let (x, y) = b.position();
        let moved = flock.stay_in_view(x + vx / 120, y + vy / 120);
        let after = flock.boid(i).unwrap();
        assert_eq!(after.velocity(), (vx, vy));
        assert_eq!(after.position(), moved);
    }
}
