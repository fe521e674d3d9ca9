use gravity::body::{Body, BodyError};
use gravity::force::{force_between, net_force_on, Force, Physics, PhysicsError};
use gravity::integrator::{integrate, StepError};
use gravity::simulation::{SetupError, Simulation};
use gravity::vector::Vector2;
use gravity::{MAX_BODIES, MAX_MASS, UNIT, WORLD_LIMIT};

fn physics() -> Physics {
    Physics::new(3_000, UNIT).unwrap()
}

#[test]
fn body_rejects_zero_and_negative_mass() {
    assert_eq!(Body::new(0, 0, 0), Err(BodyError::NonPositiveMass));
    assert_eq!(Body::new(0, 0, -5), Err(BodyError::NonPositiveMass));
    assert_eq!(Body::new(5, 5, i64::MIN), Err(BodyError::NonPositiveMass));
}

#[test]
fn body_rejects_excess_mass_and_far_positions() {
    assert_eq!(Body::new(0, 0, MAX_MASS + 1), Err(BodyError::MassTooLarge));
    assert_eq!(Body::new(WORLD_LIMIT + 1, 0, UNIT), Err(BodyError::OutOfWorld));
    assert_eq!(Body::new(0, -WORLD_LIMIT - 1, UNIT), Err(BodyError::OutOfWorld));
    let fast = Body::moving(Vector2::zero(), Vector2::new(0, WORLD_LIMIT + 1), UNIT);
    assert_eq!(fast, Err(BodyError::OutOfWorld));
}

#[test]
fn body_accepts_valid_values() {
    let b = Body::new(WORLD_LIMIT, -WORLD_LIMIT, MAX_MASS).unwrap();
    assert_eq!(b.position, Vector2::new(WORLD_LIMIT, -WORLD_LIMIT));
    assert_eq!(b.velocity, Vector2::zero());
    assert_eq!(b.mass, MAX_MASS);
}

#[test]
fn physics_rejects_out_of_range_constants() {
    assert_eq!(Physics::new(-1, UNIT), Err(PhysicsError::GravityOutOfRange));
    assert_eq!(Physics::new(gravity::MAX_GRAVITY + 1, UNIT), Err(PhysicsError::GravityOutOfRange));
    assert_eq!(Physics::new(3_000, 0), Err(PhysicsError::EpsilonOutOfRange));
    assert_eq!(Physics::new(3_000, WORLD_LIMIT + 1), Err(PhysicsError::EpsilonOutOfRange));
    assert_eq!(Physics::new(0, 1), Ok(Physics { gravity: 0, epsilon: 1 }));
}

#[test]
fn pair_force_follows_the_law() {
    // G = 0.003, masses 2 and 5, offset (3, 4): d² = 25,
    // force = (3, 4) * 0.003 * 10 / 25 = (0.0036, 0.0048).
    let a = Body::new(0, 0, 2 * UNIT).unwrap();
    let b = Body::new(3 * UNIT, 4 * UNIT, 5 * UNIT).unwrap();
    let f = force_between(&physics(), &a, &b);
    assert_eq!(f, Force { x: 3_600, y: 4_800 });
}

#[test]
fn pair_forces_are_equal_and_opposite() {
    let p = Physics::new(200_000, UNIT).unwrap();
    let a = Body::new(-17 * UNIT + 3, 250 * UNIT, 71 * UNIT).unwrap();
    let b = Body::new(101 * UNIT, -9 * UNIT + 7, 3 * UNIT / 10).unwrap();
    let ab = force_between(&p, &a, &b);
    let ba = force_between(&p, &b, &a);
    assert_ne!(ab, Force { x: 0, y: 0 });
    assert_eq!(ab.x, -ba.x);
    assert_eq!(ab.y, -ba.y);
}

#[test]
fn near_bodies_use_the_smallest_distance() {
    // Offset (0.5, 0) is below epsilon = 1, so d² is taken as 1:
    // force = (0.5, 0) * 0.003 * 1 * 1 / 1 = (0.0015, 0).
    let a = Body::new(0, 0, UNIT).unwrap();
    let b = Body::new(UNIT / 2, 0, UNIT).unwrap();
    assert_eq!(force_between(&physics(), &a, &b), Force { x: 1_500, y: 0 });
}

#[test]
fn net_force_sums_all_others() {
    let a = Body::new(0, 0, 2 * UNIT).unwrap();
    let b = Body::new(3 * UNIT, 4 * UNIT, 5 * UNIT).unwrap();
    let c = Body::new(-3 * UNIT, -4 * UNIT, 5 * UNIT).unwrap();
    let bodies = vec![a, b, c];
    assert_eq!(net_force_on(&physics(), &bodies, 0), Force { x: 0, y: 0 });
    let fb = net_force_on(&physics(), &bodies, 1);
    let expect_x = force_between(&physics(), &b, &a).x + force_between(&physics(), &b, &c).x;
    let expect_y = force_between(&physics(), &b, &a).y + force_between(&physics(), &b, &c).y;
    assert_eq!(fb, Force { x: expect_x, y: expect_y });
}

#[test]
fn integrate_updates_velocity_then_position() {
    // Force (1, 0) on a unit mass at rest at the origin.
    let b = Body::new(0, 0, UNIT).unwrap();
    let next = integrate(&b, Force { x: UNIT as i128, y: 0 }).unwrap();
    assert_eq!(next.velocity, Vector2::new(UNIT, 0));
    assert_eq!(next.position, Vector2::new(UNIT, 0));
    assert_eq!(next.mass, UNIT);
}

#[test]
fn integrate_divides_force_by_mass() {
    // Force (1, -3) on mass 4 moving at (2, 0) from (10, 10):
    // a = (0.25, -0.75), v = (2.25, -0.75), p = (12.25, 9.25).
    let b = Body::moving(Vector2::new(10 * UNIT, 10 * UNIT), Vector2::new(2 * UNIT, 0), 4 * UNIT).unwrap();
    let next = integrate(&b, Force { x: UNIT as i128, y: -3 * UNIT as i128 }).unwrap();
    assert_eq!(next.velocity, Vector2::new(2_250_000, -750_000));
    assert_eq!(next.position, Vector2::new(12_250_000, 9_250_000));
}

#[test]
fn integrate_refuses_to_leave_the_world() {
    let b = Body::moving(Vector2::new(WORLD_LIMIT, 0), Vector2::new(1, 0), UNIT).unwrap();
    assert_eq!(integrate(&b, Force { x: 0, y: 0 }), Err(StepError::LeftWorld));
}

#[test]
fn simulation_rejects_bad_setups() {
    let bad = Physics { gravity: -1, epsilon: UNIT };
    assert_eq!(Simulation::new(bad, &vec![(0, 0, UNIT)]).err(), Some(SetupError::InvalidPhysics));
    assert_eq!(Simulation::new(physics(), &vec![]).err(), Some(SetupError::NoBodies));
    let many = vec![(0, 0, UNIT); MAX_BODIES + 1];
    assert_eq!(Simulation::new(physics(), &many).err(), Some(SetupError::TooManyBodies));
    let initial = vec![(0, 0, UNIT), (1, 1, 0), (2, 2, -1)];
    assert_eq!(
        Simulation::new(physics(), &initial).err(),
        Some(SetupError::InvalidBody { index: 1, reason: BodyError::NonPositiveMass })
    );
}

#[test]
fn simulation_keeps_bodies_in_order() {
    let initial = vec![(1, 2, 3), (4, 5, 6)];
    let sim = Simulation::new(physics(), &initial).unwrap();
    assert_eq!(sim.bodies().len(), 2);
    assert_eq!(sim.bodies()[1], Body::new(4, 5, 6).unwrap());
    assert_eq!(sim.physics(), physics());
}

#[test]
fn single_body_step_is_a_no_op() {
    let mut sim = Simulation::new(physics(), &vec![(7 * UNIT, -3 * UNIT, 40 * UNIT)]).unwrap();
    let before = sim.bodies()[0];
    assert_eq!(sim.step(), Ok(()));
    assert_eq!(sim.bodies()[0], before);
}

#[test]
fn two_body_step_conserves_momentum() {
    let initial = vec![(-40 * UNIT, 10 * UNIT, 37 * UNIT), (25 * UNIT, -5 * UNIT, 81 * UNIT / 10)];
    let mut sim = Simulation::new(Physics::new(200_000, UNIT).unwrap(), &initial).unwrap();
    let momentum = |s: &Simulation| {
        let mut px: i128 = 0;
        let mut py: i128 = 0;
        for b in s.bodies() {
            px += b.mass as i128 * b.velocity.x as i128;
            py += b.mass as i128 * b.velocity.y as i128;
        }
        (px, py)
    };
    let total_mass = (37 * UNIT + 81 * UNIT / 10) as i128;
    let (px0, py0) = momentum(&sim);
    for _ in 0..3 {
        sim.step().unwrap();
        let (px, py) = momentum(&sim);
        assert!((px - px0).abs() < 3 * total_mass);
        assert!((py - py0).abs() < 3 * total_mass);
    }
    assert_ne!(sim.bodies()[0].velocity, Vector2::zero());
    let f0 = net_force_on(&sim.physics(), sim.bodies(), 0);
    let f1 = net_force_on(&sim.physics(), sim.bodies(), 1);
    assert_eq!((f0.x, f0.y), (-f1.x, -f1.y));
}

#[test]
fn drift_of_three_bodies() {
    let initial = vec![(0, 0, UNIT), (10 * UNIT, 0, 3 * UNIT), (0, 10 * UNIT, 50 * UNIT)];
    let sim = Simulation::new(physics(), &initial).unwrap();
    assert_eq!(sim.drift(), Vector2::new(3_333_333, 3_333_333));
}

#[test]
fn drift_rounds_toward_zero() {
    let initial = vec![(-1, -2, UNIT), (-1, 0, UNIT), (0, 0, UNIT)];
    let sim = Simulation::new(physics(), &initial).unwrap();
    assert_eq!(sim.drift(), Vector2::new(0, 0));
}

#[test]
fn coincident_bodies_stay_finite() {
    let initial = vec![(5 * UNIT, 5 * UNIT, 10 * UNIT), (5 * UNIT, 5 * UNIT, 20 * UNIT)];
    let mut sim = Simulation::new(physics(), &initial).unwrap();
    assert_eq!(sim.step(), Ok(()));
    for b in sim.bodies() {
        assert_eq!(b.velocity, Vector2::zero());
        assert_eq!(b.position, Vector2::new(5 * UNIT, 5 * UNIT));
    }
}

#[test]
fn step_matches_integration_of_net_forces() {
    let initial = vec![(0, 0, 2 * UNIT), (3 * UNIT, 4 * UNIT, 5 * UNIT), (-6 * UNIT, 0, UNIT)];
    let mut sim = Simulation::new(physics(), &initial).unwrap();
    let before: Vec<Body> = sim.bodies().clone();
    let expected: Vec<Body> = (0..3)
        .map(|i| integrate(&before[i], net_force_on(&physics(), &before, i)).unwrap())
        .collect();
    sim.step().unwrap();
    assert_eq!(sim.bodies(), &expected);
}

#[test]
fn step_that_leaves_the_world_changes_nothing() {
    let p = Physics::new(3_000, 1).unwrap();
    let initial = vec![(WORLD_LIMIT, 0, 100 * UNIT), (WORLD_LIMIT - 1, 0, 100 * UNIT)];
    let mut sim = Simulation::new(p, &initial).unwrap();
    let before: Vec<Body> = sim.bodies().clone();
    assert_eq!(sim.step(), Err(StepError::LeftWorld));
    assert_eq!(sim.bodies(), &before);
}
