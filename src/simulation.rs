//! The body set and one physics step over all of it.
use vstd::prelude::*;

use crate::arith::{div_toward_zero, trunc_div};
use crate::body::{in_world, Body, BodyError};
use crate::force::{force_sum, net_force, net_force_on, Force, Physics};
use crate::integrator::{accel, advance_fits, advanced, integrate, next_velocity, StepError};
use crate::vector::Vector2;
use crate::{MAX_BODIES, UNIT, WORLD_LIMIT};

verus! {

/// Why a simulation could not be set up.
#[derive(Clone, Copy, Debug, PartialEq, Eq, Structural)]
pub enum SetupError {
    /// The physical constants are out of range.
    InvalidPhysics,
    /// No bodies were given.
    NoBodies,
    /// More than `MAX_BODIES` bodies were given.
    TooManyBodies,
    /// The ranges that bodies are drawn from are empty or out of bounds.
    InvalidRange,
    /// The body at `index` was refused, for `reason`; all before it were accepted.
    InvalidBody { index: usize, reason: BodyError },
}

/// Whether every initial `(x, y, mass)` makes a valid body at rest.
pub open spec fn all_accepted(initial: Seq<(i64, i64, i64)>) -> bool {
    forall|j: int|
        0 <= j < initial.len() ==> Body::rejection(
            Vector2 { x: (#[trigger] initial[j]).0, y: initial[j].1 },
            Vector2 { x: 0, y: 0 },
            initial[j].2 as int,
        ) is None
}

/// The body at rest that an initial `(x, y, mass)` describes.
pub open spec fn body_at_rest(t: (i64, i64, i64)) -> Body {
    Body { position: Vector2 { x: t.0, y: t.1 }, velocity: Vector2 { x: 0, y: 0 }, mass: t.2 }
}

/// Whether every body stays within the world after one step.
pub open spec fn step_fits(p: Physics, bodies: Seq<Body>) -> bool {
    forall|i: int| 0 <= i < bodies.len() ==> advance_fits(#[trigger] bodies[i], net_force(p, bodies, i))
}

/// The bodies after one step: every net force is computed from the bodies
/// as they were at the start of the step, then every body is advanced.
pub open spec fn stepped(p: Physics, bodies: Seq<Body>) -> Seq<Body> {
    Seq::new(bodies.len(), |i: int| advanced(bodies[i], net_force(p, bodies, i)))
}

/// The sum of the first `n` positions, on each axis.
pub open spec fn position_sum(bodies: Seq<Body>, n: int) -> (int, int)
    decreases n,
{
    if n <= 0 {
        (0, 0)
    } else {
        let prev = position_sum(bodies, n - 1);
        (prev.0 + bodies[n - 1].position.x, prev.1 + bodies[n - 1].position.y)
    }
}

/// The mean position of the bodies, each component rounded toward zero.
pub open spec fn mean_position(bodies: Seq<Body>) -> (int, int) {
    let s = position_sum(bodies, bodies.len() as int);
    (trunc_div(s.0, bodies.len() as int), trunc_div(s.1, bodies.len() as int))
}

/// A fixed, ordered set of bodies under one force law.
pub struct Simulation {
    bodies: Vec<Body>,
    physics: Physics,
}

impl Simulation {
    #[verifier::type_invariant]
    spec fn inv(self) -> bool {
        &&& self.physics.wf()
        &&& 1 <= self.bodies.len() <= MAX_BODIES
        &&& forall|i: int| 0 <= i < self.bodies.len() ==> (#[trigger] self.bodies[i]).wf()
    }

    /// The bodies, in the order they were given.
    pub closed spec fn spec_bodies(self) -> Seq<Body> {
        self.bodies@
    }

    /// The force law.
    pub closed spec fn spec_physics(self) -> Physics {
        self.physics
    }

    /// A simulation of bodies at rest at the given `(x, y, mass)`, in that order.
    pub fn new(physics: Physics, initial: &Vec<(i64, i64, i64)>) -> (r: Result<Simulation, SetupError>)
        ensures
            !physics.wf() ==> r == Err::<Simulation, SetupError>(SetupError::InvalidPhysics),
            physics.wf() && initial.len() == 0 ==> r == Err::<Simulation, SetupError>(
                SetupError::NoBodies,
            ),
            physics.wf() && initial.len() > MAX_BODIES ==> r == Err::<Simulation, SetupError>(
                SetupError::TooManyBodies,
            ),
            physics.wf() && 1 <= initial.len() <= MAX_BODIES && all_accepted(initial@) ==> {
                &&& r is Ok
                &&& r->Ok_0.spec_physics() == physics
                &&& r->Ok_0.spec_bodies() == initial@.map_values(|t: (i64, i64, i64)| body_at_rest(t))
            },
            physics.wf() && 1 <= initial.len() <= MAX_BODIES && !all_accepted(initial@) ==> {
                &&& r is Err
                &&& r->Err_0 matches SetupError::InvalidBody { index, reason }
                &&& index < initial.len()
                &&& all_accepted(initial@.take(index as int))
                &&& Body::rejection(
                    Vector2 { x: initial[index as int].0, y: initial[index as int].1 },
                    Vector2 { x: 0, y: 0 },
                    initial[index as int].2 as int,
                ) == Some(reason)
            },
    {
        if physics.gravity < 0 || physics.gravity > crate::MAX_GRAVITY || physics.epsilon < 1
            || physics.epsilon > WORLD_LIMIT {
            return Err(SetupError::InvalidPhysics);
        }
        if initial.len() == 0 {
            return Err(SetupError::NoBodies);
        }
        if initial.len() > MAX_BODIES {
            return Err(SetupError::TooManyBodies);
        }
        let mut bodies: Vec<Body> = Vec::new();
        let mut i: usize = 0;
        while i < initial.len()
            invariant
                physics.wf(),
                1 <= initial.len() <= MAX_BODIES,
                i <= initial.len(),
                bodies.len() == i,
                all_accepted(initial@.take(i as int)),
                forall|j: int| 0 <= j < i ==> (#[trigger] bodies[j]).wf(),
                forall|j: int| 0 <= j < i ==> #[trigger] bodies[j] == body_at_rest(initial[j]),
            decreases initial.len() - i,
        {
            let (x, y, mass) = initial[i];
            match Body::new(x, y, mass) {
                Ok(b) => {
                    bodies.push(b);
                },
                Err(reason) => {
                    return Err(SetupError::InvalidBody { index: i, reason });
                },
            }
            proof {
                assert(initial@.take(i + 1) =~= initial@.take(i as int).push(initial[i as int]));
            }
            i = i + 1;
        }
        proof {
            assert(initial@.take(initial.len() as int) =~= initial@);
            assert(bodies@ =~= initial@.map_values(|t: (i64, i64, i64)| body_at_rest(t)));
        }
        Ok(Simulation { bodies, physics })
    }

    /// Runs one frame: computes the net force on every body from the bodies
    /// as they are at the start of the frame, then advances every body by
    /// that force. Where a body would leave the world, nothing changes.
    pub fn step(&mut self) -> (r: Result<(), StepError>)
        ensures
            final(self).spec_physics() == old(self).spec_physics(),
            step_fits(old(self).spec_physics(), old(self).spec_bodies()) ==> r is Ok
                && final(self).spec_bodies() == stepped(old(self).spec_physics(), old(self).spec_bodies()),
            !step_fits(old(self).spec_physics(), old(self).spec_bodies()) ==> r == Err::<(), StepError>(
                StepError::LeftWorld,
            ) && final(self).spec_bodies() == old(self).spec_bodies(),
    {
        proof {
            use_type_invariant(&*self);
        }
        let n = self.bodies.len();
        let mut forces: Vec<Force> = Vec::new();
        let mut i: usize = 0;
        while i < n
            invariant
                n == self.bodies.len(),
                self.physics.wf(),
                1 <= n <= MAX_BODIES,
                forall|j: int| 0 <= j < n ==> (#[trigger] self.bodies[j]).wf(),
                i <= n,
                forces.len() == i,
                forall|j: int| 0 <= j < i ==> (#[trigger] forces[j]).x == net_force(self.physics, self.bodies@, j).0
                    && forces[j].y == net_force(self.physics, self.bodies@, j).1,
                forall|j: int| 0 <= j < i ==> -crate::force::net_force_limit() <= (#[trigger] forces[j]).x <= crate::force::net_force_limit()
                    && -crate::force::net_force_limit() <= forces[j].y <= crate::force::net_force_limit(),
            decreases n - i,
        {
            let f = net_force_on(&self.physics, &self.bodies, i);
            forces.push(f);
            i = i + 1;
        }
        let mut next: Vec<Body> = Vec::new();
        let mut i: usize = 0;
        while i < n
            invariant
                n == self.bodies.len(),
                self.physics.wf(),
                1 <= n <= MAX_BODIES,
                forall|j: int| 0 <= j < n ==> (#[trigger] self.bodies[j]).wf(),
                forces.len() == n,
                forall|j: int| 0 <= j < n ==> (#[trigger] forces[j]).x == net_force(self.physics, self.bodies@, j).0
                    && forces[j].y == net_force(self.physics, self.bodies@, j).1,
                forall|j: int| 0 <= j < n ==> -crate::force::net_force_limit() <= (#[trigger] forces[j]).x <= crate::force::net_force_limit()
                    && -crate::force::net_force_limit() <= forces[j].y <= crate::force::net_force_limit(),
                i <= n,
                next.len() == i,
                forall|j: int| 0 <= j < i ==> advance_fits(#[trigger] self.bodies[j], net_force(self.physics, self.bodies@, j)),
                forall|j: int| 0 <= j < i ==> #[trigger] next[j] == advanced(self.bodies[j], net_force(self.physics, self.bodies@, j)),
                forall|j: int| 0 <= j < i ==> (#[trigger] next[j]).wf(),
            decreases n - i,
        {
            match integrate(&self.bodies[i], forces[i]) {
                Ok(b) => {
                    next.push(b);
                },
                Err(e) => {
                    proof {
                        assert(!advance_fits(self.bodies[i as int], net_force(self.physics, self.bodies@, i as int)));
                    }
                    return Err(e);
                },
            }
            i = i + 1;
        }
        proof {
            assert(next@ =~= stepped(self.physics, self.bodies@));
        }
        self.bodies = next;
        Ok(())
    }

    /// The mean position of the bodies, each component rounded toward zero.
    pub fn drift(&self) -> (r: Vector2)
        ensures
            (r.x as int, r.y as int) == mean_position(self.spec_bodies()),
            in_world(r.x as int, r.y as int),
    {
        proof {
            use_type_invariant(self);
        }
        let n = self.bodies.len();
        let mut sx: i128 = 0;
        let mut sy: i128 = 0;
        let mut i: usize = 0;
        while i < n
            invariant
                n == self.bodies.len(),
                1 <= n <= MAX_BODIES,
                forall|j: int| 0 <= j < n ==> (#[trigger] self.bodies[j]).wf(),
                i <= n,
                (sx as int, sy as int) == position_sum(self.bodies@, i as int),
                -i * WORLD_LIMIT <= sx <= i * WORLD_LIMIT,
                -i * WORLD_LIMIT <= sy <= i * WORLD_LIMIT,
            decreases n - i,
        {
            sx = sx + self.bodies[i].position.x as i128;
            sy = sy + self.bodies[i].position.y as i128;
            i = i + 1;
        }
        proof {
            lemma_mean_in_world(sx as int, n as int);
            lemma_mean_in_world(sy as int, n as int);
        }
        let x = div_toward_zero(sx, n as i128);
        let y = div_toward_zero(sy, n as i128);
        Vector2 { x: x as i64, y: y as i64 }
    }

    /// The bodies, in the order they were given.
    pub fn bodies(&self) -> (r: &Vec<Body>)
        ensures
            r@ == self.spec_bodies(),
            1 <= r.len() <= MAX_BODIES,
            forall|i: int| 0 <= i < r.len() ==> (#[trigger] r[i]).wf(),
    {
        proof {
            use_type_invariant(self);
        }
        &self.bodies
    }

    /// The force law.
    pub fn physics(&self) -> (r: Physics)
        ensures
            r == self.spec_physics(),
    {
        self.physics
    }
}

/// The mean of `n` values within the world lies within the world.
proof fn lemma_mean_in_world(s: int, n: int)
    requires
        n >= 1,
        -n * WORLD_LIMIT <= s <= n * WORLD_LIMIT,
    ensures
        -WORLD_LIMIT <= trunc_div(s, n) <= WORLD_LIMIT,
{
    if s >= 0 {
        assert(0 <= s / n <= WORLD_LIMIT) by (nonlinear_arith)
            requires
                n >= 1,
                0 <= s <= n * 0x2000_0000_0000,
        ;
    } else {
        assert(0 <= (-s) / n <= WORLD_LIMIT) by (nonlinear_arith)
            requires
                n >= 1,
                0 <= -s <= n * 0x2000_0000_0000,
        ;
    }
}

/// The total momentum `m * v` of the first `n` bodies, on each axis.
pub open spec fn momentum_upto(bodies: Seq<Body>, n: int) -> (int, int)
    decreases n,
{
    if n <= 0 {
        (0, 0)
    } else {
        let prev = momentum_upto(bodies, n - 1);
        let b = bodies[n - 1];
        (prev.0 + b.mass * b.velocity.x, prev.1 + b.mass * b.velocity.y)
    }
}

/// The total momentum of the bodies, on each axis.
pub open spec fn momentum(bodies: Seq<Body>) -> (int, int) {
    momentum_upto(bodies, bodies.len() as int)
}

/// A lone body feels no force: one step keeps its velocity and moves it by
/// exactly that velocity, so a lone body at rest stays where it is.
pub proof fn lemma_single_body_step(p: Physics, bodies: Seq<Body>)
    requires
        p.wf(),
        bodies.len() == 1,
        bodies[0].wf(),
    ensures
        net_force(p, bodies, 0) == (0int, 0int),
        next_velocity(bodies[0], net_force(p, bodies, 0)) == (
            bodies[0].velocity.x as int,
            bodies[0].velocity.y as int,
        ),
        step_fits(p, bodies) ==> {
            &&& stepped(p, bodies)[0].velocity == bodies[0].velocity
            &&& stepped(p, bodies)[0].position.x == bodies[0].position.x + bodies[0].velocity.x
            &&& stepped(p, bodies)[0].position.y == bodies[0].position.y + bodies[0].velocity.y
            &&& stepped(p, bodies)[0].mass == bodies[0].mass
        },
        bodies[0].velocity == (Vector2 { x: 0, y: 0 }) ==> step_fits(p, bodies) && stepped(p, bodies)
            == bodies,
{
    let m = bodies[0].mass as int;
    assert(0int * UNIT == 0);
    assert(0int / m == 0) by (nonlinear_arith)
        requires
            m >= 1,
    ;
    assert(accel(0, m) == 0);
    reveal_with_fuel(force_sum, 2);
    assert(net_force(p, bodies, 0) == (0int, 0int));
    if bodies[0].velocity == (Vector2 { x: 0, y: 0 }) {
        assert(advance_fits(bodies[0], net_force(p, bodies, 0)));
        assert(stepped(p, bodies) =~= bodies);
    }
}

/// `m * (n / m)`, rounded toward zero, differs from `n` by less than `m`.
proof fn lemma_trunc_div_mul_close(n: int, m: int)
    requires
        m >= 1,
    ensures
        n - m < m * trunc_div(n, m) <= n || n <= m * trunc_div(n, m) < n + m,
{
    if n >= 0 {
        assert(n - m < m * (n / m) <= n) by (nonlinear_arith)
            requires
                m >= 1,
                n >= 0,
        ;
    } else {
        assert(-n - m < m * ((-n) / m) <= -n) by (nonlinear_arith)
            requires
                m >= 1,
                -n >= 0,
        ;
        assert(m * -((-n) / m) == -(m * ((-n) / m))) by (nonlinear_arith);
    }
}

/// In a system of two bodies the two net forces are opposite, so one step
/// changes the total momentum, on each axis, only by the rounding of the two
/// accelerations: by less than the sum of the two masses.
pub proof fn lemma_pair_momentum(p: Physics, bodies: Seq<Body>)
    requires
        p.wf(),
        bodies.len() == 2,
        bodies[0].wf(),
        bodies[1].wf(),
        step_fits(p, bodies),
    ensures
        net_force(p, bodies, 0).0 == -net_force(p, bodies, 1).0,
        net_force(p, bodies, 0).1 == -net_force(p, bodies, 1).1,
        -(bodies[0].mass + bodies[1].mass) < momentum(stepped(p, bodies)).0 - momentum(bodies).0
            < bodies[0].mass + bodies[1].mass,
        -(bodies[0].mass + bodies[1].mass) < momentum(stepped(p, bodies)).1 - momentum(bodies).1
            < bodies[0].mass + bodies[1].mass,
{
    let b0 = bodies[0];
    let b1 = bodies[1];
    crate::force::lemma_pair_force_antisymmetric(p, b0, b1);
    reveal_with_fuel(force_sum, 3);
    assert(net_force(p, bodies, 0) == crate::force::pair_force(p, b0, b1));
    assert(net_force(p, bodies, 1) == crate::force::pair_force(p, b1, b0));
    let f0 = net_force(p, bodies, 0);
    let f1 = net_force(p, bodies, 1);
    let s = stepped(p, bodies);
    assert(advance_fits(bodies[0], f0));
    assert(advance_fits(bodies[1], f1));
    let m0 = b0.mass as int;
    let m1 = b1.mass as int;
    let ax0 = accel(f0.0, m0);
    let ax1 = accel(f1.0, m1);
    let ay0 = accel(f0.1, m0);
    let ay1 = accel(f1.1, m1);
    assert(s[0].velocity.x == b0.velocity.x + ax0);
    assert(s[1].velocity.x == b1.velocity.x + ax1);
    assert(s[0].velocity.y == b0.velocity.y + ay0);
    assert(s[1].velocity.y == b1.velocity.y + ay1);
    reveal_with_fuel(momentum_upto, 3);
    assert(m0 * (b0.velocity.x + ax0) == m0 * b0.velocity.x + m0 * ax0) by (nonlinear_arith);
    assert(m1 * (b1.velocity.x + ax1) == m1 * b1.velocity.x + m1 * ax1) by (nonlinear_arith);
    assert(m0 * (b0.velocity.y + ay0) == m0 * b0.velocity.y + m0 * ay0) by (nonlinear_arith);
    assert(m1 * (b1.velocity.y + ay1) == m1 * b1.velocity.y + m1 * ay1) by (nonlinear_arith);
    assert(momentum(s).0 - momentum(bodies).0 == m0 * ax0 + m1 * ax1);
    assert(momentum(s).1 - momentum(bodies).1 == m0 * ay0 + m1 * ay1);
    lemma_trunc_div_mul_close(f0.0 * UNIT, m0);
    lemma_trunc_div_mul_close(f1.0 * UNIT, m1);
    lemma_trunc_div_mul_close(f0.1 * UNIT, m0);
    lemma_trunc_div_mul_close(f1.1 * UNIT, m1);
    assert(f0.0 * UNIT == -(f1.0 * UNIT));
    assert(f0.1 * UNIT == -(f1.1 * UNIT));
}

/// Two bodies at rest at the same position stay as they are through a step:
/// the force between them is zero, so the step succeeds and every value stays
/// within the world.
pub proof fn lemma_coincident_pair_step(p: Physics, bodies: Seq<Body>)
    requires
        p.wf(),
        bodies.len() == 2,
        bodies[0].wf(),
        bodies[1].wf(),
        bodies[0].position == bodies[1].position,
        bodies[0].velocity == (Vector2 { x: 0, y: 0 }),
        bodies[1].velocity == (Vector2 { x: 0, y: 0 }),
    ensures
        step_fits(p, bodies),
        stepped(p, bodies) == bodies,
{
    crate::force::lemma_coincident_bodies_no_force(p, bodies[0], bodies[1]);
    crate::force::lemma_coincident_bodies_no_force(p, bodies[1], bodies[0]);
    reveal_with_fuel(force_sum, 3);
    assert(net_force(p, bodies, 0) == (0int, 0int));
    assert(net_force(p, bodies, 1) == (0int, 0int));
    let m0 = bodies[0].mass as int;
    let m1 = bodies[1].mass as int;
    assert(0int * UNIT == 0);
    assert(0int / m0 == 0 && 0int / m1 == 0) by (nonlinear_arith)
        requires
            m0 >= 1,
            m1 >= 1,
    ;
    assert(advance_fits(bodies[0], net_force(p, bodies, 0)));
    assert(advance_fits(bodies[1], net_force(p, bodies, 1)));
    assert(stepped(p, bodies) =~= bodies);
}

} // verus!
