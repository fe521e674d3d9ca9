use gravity::config::Config;
use gravity::control::{Command, FrameLoop, FRAME_NANOS};
use gravity::force::Physics;
use gravity::simulation::{SetupError, Simulation};
use gravity::vector::Vector2;
use gravity::viewport::{Pixel, Viewport};
use gravity::{UNIT, WORLD_LIMIT};

#[test]
fn vector_arithmetic() {
    let a = Vector2::new(3, -4);
    let b = Vector2::new(10, 20);
    assert_eq!(a.add(b), Vector2::new(13, 16));
    assert_eq!(a.sub(b), Vector2::new(-7, -24));
    assert_eq!(Vector2::new(3 * UNIT, -5 * UNIT).scale(UNIT / 2), Vector2::new(1_500_000, -2_500_000));
    assert_eq!(Vector2::new(-7, 7).scale(UNIT / 2), Vector2::new(-3, 3));
}

#[test]
fn vector_length() {
    assert_eq!(Vector2::zero().length(), 0);
    assert_eq!(Vector2::new(3 * UNIT, 4 * UNIT).length(), 5 * UNIT as u64);
    assert_eq!(Vector2::new(1, 1).length(), 1);
    assert_eq!(Vector2::new(-2, 2).length(), 2);
    assert_eq!(Vector2::new(i64::MIN, i64::MIN).length(), 13_043_817_825_332_782_212);
}

#[test]
fn viewport_starts_at_window_center() {
    let v = Viewport::new(1200, 800);
    assert_eq!(v.project(Vector2::zero()), Pixel { x: 600, y: 400 });
    assert_eq!(v.project(Vector2::new(-10 * UNIT, 2 * UNIT)), Pixel { x: 590, y: 402 });
}

#[test]
fn viewport_rounds_to_nearest_pixel() {
    let v = Viewport::new(0, 0);
    assert_eq!(v.project(Vector2::new(UNIT / 2, -UNIT / 2)), Pixel { x: 1, y: -1 });
    assert_eq!(v.project(Vector2::new(UNIT / 2 - 1, -UNIT / 2 + 1)), Pixel { x: 0, y: 0 });
    assert_eq!(v.project(Vector2::new(WORLD_LIMIT, -WORLD_LIMIT)), Pixel { x: 35_184_372, y: -35_184_372 });
}

#[test]
fn viewport_recenter_round_trip() {
    let mut v = Viewport::new(1200, 800);
    let drift = Vector2::new(3_333_333, -123_456_789);
    v.recenter(drift);
    assert_eq!(v.project(drift), Pixel { x: 600, y: 400 });
    assert_eq!(v.project(Vector2::zero()), Pixel { x: 597, y: 523 });
    let mut odd = Viewport::new(5, 3);
    odd.recenter(drift);
    assert_eq!(odd.project(drift), Pixel { x: 3, y: 2 });
}

#[test]
fn frame_draws_origin_bodies_and_drift_then_recenters() {
    let initial = vec![(0, 0, UNIT), (10 * UNIT, 0, UNIT), (0, 10 * UNIT, UNIT)];
    let sim = Simulation::new(Physics::new(3_000, UNIT).unwrap(), &initial).unwrap();
    let mut v = Viewport::new(1200, 800);
    let points = v.frame(&sim);
    assert_eq!(
        points,
        vec![
            Pixel { x: 600, y: 400 },
            Pixel { x: 600, y: 400 },
            Pixel { x: 610, y: 400 },
            Pixel { x: 600, y: 410 },
            Pixel { x: 603, y: 403 },
        ]
    );
    assert_eq!(v.project(sim.drift()), Pixel { x: 600, y: 400 });
    assert_eq!(v.project(Vector2::zero()), Pixel { x: 597, y: 397 });
}

#[test]
fn scatter_places_bodies_within_ranges() {
    let config = Config::default();
    let sim = Simulation::scatter(&config).unwrap();
    assert_eq!(sim.bodies().len(), 90);
    assert_eq!(sim.physics(), config.physics);
    for b in sim.bodies() {
        assert!(b.position.x.abs() <= 280 * UNIT && b.position.y.abs() <= 280 * UNIT);
        assert!(b.mass >= UNIT / 10 && b.mass <= 100 * UNIT);
        assert_eq!(b.velocity, Vector2::zero());
    }
    let first = sim.bodies()[0];
    assert!(sim.bodies().iter().any(|b| b.position != first.position));
    assert!(sim.bodies().iter().any(|b| b.position.x != -280 * UNIT));
}

#[test]
fn scatter_rejects_bad_configs() {
    let mut c = Config::default();
    c.body_count = 0;
    assert_eq!(Simulation::scatter(&c).err(), Some(SetupError::NoBodies));
    let mut c = Config::default();
    c.min_mass = 0;
    assert_eq!(Simulation::scatter(&c).err(), Some(SetupError::InvalidRange));
    let mut c = Config::default();
    c.spread = -1;
    assert_eq!(Simulation::scatter(&c).err(), Some(SetupError::InvalidRange));
    let mut c = Config::default();
    c.physics.epsilon = 0;
    assert_eq!(Simulation::scatter(&c).err(), Some(SetupError::InvalidPhysics));
}

#[test]
fn config_variants() {
    let d = Config::default();
    assert_eq!(d.physics, Physics { gravity: 3_000, epsilon: UNIT });
    assert_eq!((d.body_count, d.window_width, d.window_height), (90, 1200, 800));
    assert_eq!((d.spread, d.min_mass, d.max_mass), (280_000_000, 100_000, 100_000_000));
    let s = Config::sparse();
    assert_eq!(s.physics.gravity, 200_000);
    assert_eq!(s.body_count, 15);
}

#[test]
fn frame_loop_commands() {
    let l = FrameLoop::new();
    assert!(l.running && l.paced);
    assert_eq!(l.pause_nanos(), FRAME_NANOS);
    let t = l.apply(Command::TogglePacing);
    assert_eq!(t, FrameLoop { running: true, paced: false });
    assert_eq!(t.pause_nanos(), 0);
    assert_eq!(t.apply(Command::Ignore), t);
    assert_eq!(t.apply(Command::Stop), FrameLoop { running: false, paced: false });
    assert_eq!(FRAME_NANOS, 16_666_666);
}
