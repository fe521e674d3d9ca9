//! Point masses.
use vstd::prelude::*;

use crate::vector::Vector2;
use crate::{MAX_MASS, WORLD_LIMIT};

verus! {

/// Whether both components `(x, y)` lie within `[-WORLD_LIMIT, WORLD_LIMIT]`.
pub open spec fn in_world(x: int, y: int) -> bool {
    -WORLD_LIMIT <= x <= WORLD_LIMIT && -WORLD_LIMIT <= y <= WORLD_LIMIT
}

/// One point mass.
#[derive(Clone, Copy, Debug, PartialEq, Eq, Structural)]
pub struct Body {
    pub position: Vector2,
    pub velocity: Vector2,
    pub mass: i64,
}

/// Why a body could not be made.
#[derive(Clone, Copy, Debug, PartialEq, Eq, Structural)]
pub enum BodyError {
    /// The mass is zero or negative.
    NonPositiveMass,
    /// The mass is above `MAX_MASS`.
    MassTooLarge,
    /// A component of the position or velocity lies outside `[-WORLD_LIMIT, WORLD_LIMIT]`.
    OutOfWorld,
}

impl Body {
    /// A body has a positive, bounded mass, and lies and moves within the world.
    pub open spec fn wf(self) -> bool {
        &&& 0 < self.mass <= MAX_MASS
        &&& in_world(self.position.x as int, self.position.y as int)
        &&& in_world(self.velocity.x as int, self.velocity.y as int)
    }

    /// The error that `moving` reports for these values, if any.
    pub open spec fn rejection(position: Vector2, velocity: Vector2, mass: int) -> Option<BodyError> {
        if mass <= 0 {
            Some(BodyError::NonPositiveMass)
        } else if mass > MAX_MASS {
            Some(BodyError::MassTooLarge)
        } else if !in_world(position.x as int, position.y as int)
            || !in_world(velocity.x as int, velocity.y as int) {
            Some(BodyError::OutOfWorld)
        } else {
            None
        }
    }

    /// A body with the given state, checked against the body invariant.
    pub fn moving(position: Vector2, velocity: Vector2, mass: i64) -> (r: Result<Body, BodyError>)
        ensures
            match Self::rejection(position, velocity, mass as int) {
                Some(e) => r == Err::<Body, BodyError>(e),
                None => r == Ok::<Body, BodyError>(Body { position, velocity, mass }),
            },
            r is Ok ==> r->Ok_0.wf(),
    {
        if mass <= 0 {
            Err(BodyError::NonPositiveMass)
        } else if mass > MAX_MASS {
            Err(BodyError::MassTooLarge)
        } else if position.x < -WORLD_LIMIT || position.x > WORLD_LIMIT || position.y < -WORLD_LIMIT
            || position.y > WORLD_LIMIT || velocity.x < -WORLD_LIMIT || velocity.x > WORLD_LIMIT
            || velocity.y < -WORLD_LIMIT || velocity.y > WORLD_LIMIT {
            Err(BodyError::OutOfWorld)
        } else {
            Ok(Body { position, velocity, mass })
        }
    }

    /// A body at rest at `(x, y)`.
    pub fn new(x: i64, y: i64, mass: i64) -> (r: Result<Body, BodyError>)
        ensures
            match Self::rejection(Vector2 { x, y }, Vector2 { x: 0, y: 0 }, mass as int) {
                Some(e) => r == Err::<Body, BodyError>(e),
                None => r == Ok::<Body, BodyError>(
                    Body { position: Vector2 { x, y }, velocity: Vector2 { x: 0, y: 0 }, mass },
                ),
            },
            r is Ok ==> r->Ok_0.wf(),
            mass <= 0 ==> r == Err::<Body, BodyError>(BodyError::NonPositiveMass),
    {
        Self::moving(Vector2::new(x, y), Vector2::zero(), mass)
    }
}

} // verus!
