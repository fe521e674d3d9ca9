//! Semi-implicit Euler integration with a time step of one frame.
use vstd::prelude::*;

use crate::arith::{div_toward_zero, lemma_mul_signed_le, trunc_div};
use crate::body::{in_world, Body};
use crate::force::{net_force_limit, Force};
use crate::vector::Vector2;
use crate::{UNIT, WORLD_LIMIT};

verus! {

/// Why a step could not be taken.
#[derive(Clone, Copy, Debug, PartialEq, Eq, Structural)]
pub enum StepError {
    /// A new position or velocity component would lie outside `[-WORLD_LIMIT, WORLD_LIMIT]`.
    LeftWorld,
}

/// The acceleration a force gives a mass: `f / m` in fixed point, rounded toward zero.
pub open spec fn accel(f: int, mass: int) -> int {
    trunc_div(f * UNIT, mass)
}

/// The velocity after one frame under force `f`: the old velocity plus the acceleration.
pub open spec fn next_velocity(b: Body, f: (int, int)) -> (int, int) {
    (b.velocity.x + accel(f.0, b.mass as int), b.velocity.y + accel(f.1, b.mass as int))
}

/// The position after one frame under force `f`: the old position plus the new velocity.
pub open spec fn next_position(b: Body, f: (int, int)) -> (int, int) {
    let v = next_velocity(b, f);
    (b.position.x + v.0, b.position.y + v.1)
}

/// Whether the state after one frame under `f` lies within the world.
pub open spec fn advance_fits(b: Body, f: (int, int)) -> bool {
    let v = next_velocity(b, f);
    let q = next_position(b, f);
    in_world(v.0, v.1) && in_world(q.0, q.1)
}

/// The body after one frame under `f`, where `advance_fits(b, f)`.
pub open spec fn advanced(b: Body, f: (int, int)) -> Body {
    let v = next_velocity(b, f);
    let q = next_position(b, f);
    Body {
        position: Vector2 { x: q.0 as i64, y: q.1 as i64 },
        velocity: Vector2 { x: v.0 as i64, y: v.1 as i64 },
        mass: b.mass,
    }
}

/// Advances `body` by one frame under `force`: velocity first, from the
/// force, then position, from the new velocity.
pub fn integrate(body: &Body, force: Force) -> (r: Result<Body, StepError>)
    requires
        body.wf(),
        -net_force_limit() <= force.x <= net_force_limit(),
        -net_force_limit() <= force.y <= net_force_limit(),
    ensures
        advance_fits(*body, (force.x as int, force.y as int)) ==> r == Ok::<Body, StepError>(
            advanced(*body, (force.x as int, force.y as int)),
        ),
        !advance_fits(*body, (force.x as int, force.y as int)) ==> r == Err::<Body, StepError>(
            StepError::LeftWorld,
        ),
        r is Ok ==> r->Ok_0.wf(),
{
    let m: i128 = body.mass as i128;
    proof {
        assert(net_force_limit() == 0x1_0000_0000_0000_0000_0000_0000);
        lemma_mul_signed_le(UNIT as int, force.x as int, UNIT as int, net_force_limit());
        lemma_mul_signed_le(UNIT as int, force.y as int, UNIT as int, net_force_limit());
        assert(force.x * UNIT == UNIT * force.x);
        assert(force.y * UNIT == UNIT * force.y);
    }
    let ax = div_toward_zero(force.x * UNIT as i128, m);
    let ay = div_toward_zero(force.y * UNIT as i128, m);
    proof {
        lemma_trunc_div_shrinks(force.x * UNIT, m as int);
        lemma_trunc_div_shrinks(force.y * UNIT, m as int);
    }
    let vx: i128 = body.velocity.x as i128 + ax;
    let vy: i128 = body.velocity.y as i128 + ay;
    if vx < -WORLD_LIMIT as i128 || vx > WORLD_LIMIT as i128 || vy < -WORLD_LIMIT as i128 || vy
        > WORLD_LIMIT as i128 {
        return Err(StepError::LeftWorld);
    }
    let px: i128 = body.position.x as i128 + vx;
    let py: i128 = body.position.y as i128 + vy;
    if px < -WORLD_LIMIT as i128 || px > WORLD_LIMIT as i128 || py < -WORLD_LIMIT as i128 || py
        > WORLD_LIMIT as i128 {
        return Err(StepError::LeftWorld);
    }
    Ok(
        Body {
            position: Vector2 { x: px as i64, y: py as i64 },
            velocity: Vector2 { x: vx as i64, y: vy as i64 },
            mass: body.mass,
        },
    )
}

/// Dividing by a positive number rounds toward zero, so it never grows the magnitude.
proof fn lemma_trunc_div_shrinks(n: int, d: int)
    requires
        d >= 1,
    ensures
        -n <= trunc_div(n, d) <= n || n <= trunc_div(n, d) <= -n,
{
    if n >= 0 {
        assert(0 <= n / d <= n) by (nonlinear_arith)
            requires
                n >= 0,
                d >= 1,
        ;
    } else {
        assert(0 <= (-n) / d <= -n) by (nonlinear_arith)
            requires
                -n >= 0,
                d >= 1,
        ;
    }
}

} // verus!
