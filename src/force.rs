//! The pairwise gravitational force kernel.
use vstd::prelude::*;

use crate::arith::{div_toward_zero, lemma_mul_le, lemma_mul_signed_le, lemma_trunc_div_neg, trunc_div};
use crate::body::Body;
use crate::{MAX_BODIES, MAX_GRAVITY, MAX_MASS, UNIT, WORLD_LIMIT};

verus! {

/// The constants of the force law.
#[derive(Clone, Copy, Debug, PartialEq, Eq, Structural)]
pub struct Physics {
    /// The gravitational constant, in millionths.
    pub gravity: i64,
    /// The smallest distance the force law uses: bodies closer than this
    /// attract as if they were this far apart.
    pub epsilon: i64,
}

/// Why a set of physical constants was refused.
#[derive(Clone, Copy, Debug, PartialEq, Eq, Structural)]
pub enum PhysicsError {
    /// The gravitational constant is negative or above `MAX_GRAVITY`.
    GravityOutOfRange,
    /// The smallest distance is not positive or is above `WORLD_LIMIT`.
    EpsilonOutOfRange,
}

impl Physics {
    /// The constants lie within the ranges that keep every step free of overflow.
    pub open spec fn wf(self) -> bool {
        &&& 0 <= self.gravity <= MAX_GRAVITY
        &&& 1 <= self.epsilon <= WORLD_LIMIT
    }

    /// The constants `gravity` and `epsilon`, if both are in range.
    pub fn new(gravity: i64, epsilon: i64) -> (r: Result<Physics, PhysicsError>)
        ensures
            !(0 <= gravity <= MAX_GRAVITY) ==> r == Err::<Physics, PhysicsError>(
                PhysicsError::GravityOutOfRange,
            ),
            0 <= gravity <= MAX_GRAVITY && !(1 <= epsilon <= WORLD_LIMIT) ==> r == Err::<
                Physics,
                PhysicsError,
            >(PhysicsError::EpsilonOutOfRange),
            0 <= gravity <= MAX_GRAVITY && 1 <= epsilon <= WORLD_LIMIT ==> r == Ok::<
                Physics,
                PhysicsError,
            >(Physics { gravity, epsilon }),
            r is Ok ==> r->Ok_0.wf(),
    {
        if gravity < 0 || gravity > MAX_GRAVITY {
            Err(PhysicsError::GravityOutOfRange)
        } else if epsilon < 1 || epsilon > WORLD_LIMIT {
            Err(PhysicsError::EpsilonOutOfRange)
        } else {
            Ok(Physics { gravity, epsilon })
        }
    }
}

/// A force, in millionths; wider than a position since forces sum over many pairs.
#[derive(Clone, Copy, Debug, PartialEq, Eq, Structural)]
pub struct Force {
    pub x: i128,
    pub y: i128,
}

/// Largest magnitude of one component of the force between two bodies.
pub open spec fn pair_force_limit() -> int {
    MAX_GRAVITY * MAX_MASS * MAX_MASS
}

/// Largest magnitude of one component of a net force.
pub open spec fn net_force_limit() -> int {
    MAX_BODIES * pair_force_limit()
}

/// `dx² + dy²`, raised to `eps²` where it is smaller.
pub open spec fn clamped_dist_sq(dx: int, dy: int, eps: int) -> int {
    let d2 = dx * dx + dy * dy;
    if d2 < eps * eps {
        eps * eps
    } else {
        d2
    }
}

/// The force that `b` exerts on `a`: the offset from `a` to `b` times
/// `G * m_a * m_b / d²`, with `d²` clamped from below by `epsilon²` and each
/// component rounded toward zero.
pub open spec fn pair_force(p: Physics, a: Body, b: Body) -> (int, int) {
    let dx = b.position.x - a.position.x;
    let dy = b.position.y - a.position.y;
    let k = p.gravity * a.mass * b.mass;
    let den = UNIT * clamped_dist_sq(dx, dy, p.epsilon as int);
    (trunc_div(k * dx, den), trunc_div(k * dy, den))
}

/// The sum of the forces on `bodies[i]` from `bodies[j]` for every `j < n`, `j != i`.
pub open spec fn force_sum(p: Physics, bodies: Seq<Body>, i: int, n: int) -> (int, int)
    decreases n,
{
    if n <= 0 {
        (0, 0)
    } else {
        let prev = force_sum(p, bodies, i, n - 1);
        let c = if n - 1 == i {
            (0int, 0int)
        } else {
            pair_force(p, bodies[i], bodies[n - 1])
        };
        (prev.0 + c.0, prev.1 + c.1)
    }
}

/// The net force on `bodies[i]` from all the other bodies.
pub open spec fn net_force(p: Physics, bodies: Seq<Body>, i: int) -> (int, int) {
    force_sum(p, bodies, i, bodies.len() as int)
}

/// A quotient whose numerator is at most `k` times a divisor of the denominator is at most `k`.
proof fn lemma_quotient_bound(a: int, k: int, d2: int, den: int)
    requires
        0 <= a <= k * d2,
        0 < d2 <= den,
        0 <= k,
    ensures
        a / den <= k,
{
    let q = a / den;
    assert(q * den <= a) by (nonlinear_arith)
        requires
            q == a / den,
            den > 0,
            a >= 0,
    ;
    assert(q <= k) by (nonlinear_arith)
        requires
            q * den <= a,
            a <= k * d2,
            0 < d2 <= den,
            0 <= k,
    ;
}

/// One component of the pair force is bounded by `k`.
proof fn lemma_component_bound(k: int, dx: int, d2: int, den: int)
    requires
        0 <= k,
        dx * dx <= d2,
        0 < d2 <= den,
    ensures
        -k <= trunc_div(k * dx, den) <= k,
{
    let ax = if dx >= 0 { dx } else { -dx };
    assert(ax * ax == dx * dx) by (nonlinear_arith)
        requires
            ax == dx || ax == -dx,
    ;
    assert(ax <= d2) by (nonlinear_arith)
        requires
            ax >= 0,
            ax * ax == dx * dx,
            dx * dx <= d2,
    ;
    assert(k * ax <= k * d2) by (nonlinear_arith)
        requires
            0 <= k,
            ax <= d2,
    ;
    assert(k * ax >= 0) by (nonlinear_arith)
        requires
            0 <= k,
            ax >= 0,
    ;
    if dx >= 0 {
        lemma_quotient_bound(k * dx, k, d2, den);
        assert(k * dx / den >= 0) by (nonlinear_arith)
            requires
                k * dx >= 0,
                den > 0,
        ;
    } else {
        assert(-(k * dx) == k * ax) by (nonlinear_arith)
            requires
                ax == -dx,
        ;
        lemma_quotient_bound(k * ax, k, d2, den);
        assert(k * ax / den >= 0) by (nonlinear_arith)
            requires
                k * ax >= 0,
                den > 0,
        ;
    }
}

/// The force that `b` exerts on `a`.
pub fn force_between(p: &Physics, a: &Body, b: &Body) -> (r: Force)
    requires
        p.wf(),
        a.wf(),
        b.wf(),
    ensures
        (r.x as int, r.y as int) == pair_force(*p, *a, *b),
        -pair_force_limit() <= r.x <= pair_force_limit(),
        -pair_force_limit() <= r.y <= pair_force_limit(),
{
    let dx: i128 = b.position.x as i128 - a.position.x as i128;
    let dy: i128 = b.position.y as i128 - a.position.y as i128;
    let eps: i128 = p.epsilon as i128;
    proof {
        assert(dx * dx <= 0x1_0000_0000_0000_0000_0000_0000) by (nonlinear_arith)
            requires
                -0x4000_0000_0000 <= dx <= 0x4000_0000_0000,
        ;
        assert(dy * dy <= 0x1_0000_0000_0000_0000_0000_0000) by (nonlinear_arith)
            requires
                -0x4000_0000_0000 <= dy <= 0x4000_0000_0000,
        ;
        assert(dx * dx >= 0 && dy * dy >= 0) by (nonlinear_arith);
        assert(eps * eps <= 0x1_0000_0000_0000_0000_0000_0000) by (nonlinear_arith)
            requires
                1 <= eps <= 0x2000_0000_0000,
        ;
        assert(eps * eps >= 1) by (nonlinear_arith)
            requires
                1 <= eps,
        ;
    }
    let mut d2: i128 = dx * dx + dy * dy;
    if d2 < eps * eps {
        d2 = eps * eps;
    }
    let den: i128 = UNIT as i128 * d2;
    let g: i128 = p.gravity as i128;
    let ma: i128 = a.mass as i128;
    let mb: i128 = b.mass as i128;
    proof {
        lemma_mul_le(g as int, ma as int, MAX_GRAVITY as int, MAX_MASS as int);
        lemma_mul_le(g * ma, mb as int, MAX_GRAVITY * MAX_MASS, MAX_MASS as int);
        assert(pair_force_limit() == 0x1_0000_0000_0000_0000_0000);
    }
    let k: i128 = g * ma * mb;
    proof {
        lemma_mul_signed_le(k as int, dx as int, pair_force_limit(), 2 * WORLD_LIMIT);
        lemma_mul_signed_le(k as int, dy as int, pair_force_limit(), 2 * WORLD_LIMIT);
        assert(d2 <= den) by (nonlinear_arith)
            requires
                den == 1_000_000 * d2,
                d2 >= 1,
        ;
        lemma_component_bound(k as int, dx as int, d2 as int, den as int);
        lemma_component_bound(k as int, dy as int, d2 as int, den as int);
    }
    let fx = div_toward_zero(k * dx, den);
    let fy = div_toward_zero(k * dy, den);
    Force { x: fx, y: fy }
}

/// The net force on `bodies[i]`: the sum of the forces of all the other bodies on it.
pub fn net_force_on(p: &Physics, bodies: &Vec<Body>, i: usize) -> (r: Force)
    requires
        p.wf(),
        bodies.len() <= MAX_BODIES,
        i < bodies.len(),
        forall|j: int| 0 <= j < bodies.len() ==> (#[trigger] bodies[j]).wf(),
    ensures
        (r.x as int, r.y as int) == net_force(*p, bodies@, i as int),
        -net_force_limit() <= r.x <= net_force_limit(),
        -net_force_limit() <= r.y <= net_force_limit(),
{
    let mut fx: i128 = 0;
    let mut fy: i128 = 0;
    let mut j: usize = 0;
    while j < bodies.len()
        invariant
            p.wf(),
            bodies.len() <= MAX_BODIES,
            i < bodies.len(),
            forall|j: int| 0 <= j < bodies.len() ==> (#[trigger] bodies[j]).wf(),
            j <= bodies.len(),
            (fx as int, fy as int) == force_sum(*p, bodies@, i as int, j as int),
            -j * 0x1_0000_0000_0000_0000_0000 <= fx <= j * 0x1_0000_0000_0000_0000_0000,
            -j * 0x1_0000_0000_0000_0000_0000 <= fy <= j * 0x1_0000_0000_0000_0000_0000,
        decreases bodies.len() - j,
    {
        proof {
            assert(pair_force_limit() == 0x1_0000_0000_0000_0000_0000);
        }
        if j != i {
            let c = force_between(p, &bodies[i], &bodies[j]);
            fx = fx + c.x;
            fy = fy + c.y;
        }
        j = j + 1;
    }
    assert(net_force_limit() == 0x1_0000_0000_0000_0000_0000_0000);
    Force { x: fx, y: fy }
}

/// Newton's third law: the force of `b` on `a` is the opposite of the force
/// of `a` on `b`, for any two bodies and any valid constants.
pub proof fn lemma_pair_force_antisymmetric(p: Physics, a: Body, b: Body)
    requires
        p.wf(),
    ensures
        pair_force(p, a, b).0 == -pair_force(p, b, a).0,
        pair_force(p, a, b).1 == -pair_force(p, b, a).1,
{
    let dx = b.position.x - a.position.x;
    let dy = b.position.y - a.position.y;
    let k = p.gravity * a.mass * b.mass;
    assert(p.gravity * a.mass * b.mass == p.gravity * b.mass * a.mass) by (nonlinear_arith);
    assert(k * (-dx) == -(k * dx)) by (nonlinear_arith);
    assert(k * (-dy) == -(k * dy)) by (nonlinear_arith);
    assert((-dx) * (-dx) == dx * dx) by (nonlinear_arith);
    assert((-dy) * (-dy) == dy * dy) by (nonlinear_arith);
    let c = clamped_dist_sq(dx, dy, p.epsilon as int);
    assert(c == clamped_dist_sq(-dx, -dy, p.epsilon as int));
    assert(c >= 1) by (nonlinear_arith)
        requires
            p.epsilon >= 1,
            c == clamped_dist_sq(dx, dy, p.epsilon as int),
    ;
    lemma_trunc_div_neg(k * dx, UNIT * c);
    lemma_trunc_div_neg(k * dy, UNIT * c);
}

/// Two bodies at the same position exert no force on each other: the
/// clamped distance keeps the quotient defined, and the offset is zero.
pub proof fn lemma_coincident_bodies_no_force(p: Physics, a: Body, b: Body)
    requires
        p.wf(),
        a.position == b.position,
    ensures
        pair_force(p, a, b) == (0int, 0int),
{
    let k = p.gravity * a.mass * b.mass;
    let c = clamped_dist_sq(0, 0, p.epsilon as int);
    assert(k * 0 == 0) by (nonlinear_arith);
    assert(c >= 1) by (nonlinear_arith)
        requires
            p.epsilon >= 1,
            c == clamped_dist_sq(0, 0, p.epsilon as int),
    ;
    let den = UNIT * c;
    assert(0int / den == 0) by (nonlinear_arith)
        requires
            den >= 1,
    ;
}

} // verus!
