//! Setting up a run with bodies at random places.
use vstd::prelude::*;

use rand::Rng;

use crate::config::Config;
use crate::simulation::{all_accepted, body_at_rest, SetupError, Simulation};
use crate::vector::Vector2;
use crate::{MAX_BODIES, MAX_GRAVITY, MAX_MASS, WORLD_LIMIT};

verus! {

/// Relies on `rand::thread_rng` and `Rng::gen_range` on an inclusive range of
/// `i64`, which returns a value within the range (it panics only on an empty
/// range, which `requires` leaves out).
#[verifier::external_body]
fn draw_between(lo: i64, hi: i64) -> (r: i64)
    requires
        lo <= hi,
    ensures
        lo <= r <= hi,
{
    rand::thread_rng().gen_range(lo..=hi)
}

impl Simulation {
    /// A run set up from `config`: `body_count` bodies at rest, each at a
    /// random place within `spread` of the origin on both axes, with a random
    /// mass between `min_mass` and `max_mass`.
    pub fn scatter(config: &Config) -> (r: Result<Simulation, SetupError>)
        ensures
            !config.physics.wf() ==> r == Err::<Simulation, SetupError>(SetupError::InvalidPhysics),
            config.physics.wf() && config.body_count == 0 ==> r == Err::<Simulation, SetupError>(
                SetupError::NoBodies,
            ),
            config.physics.wf() && config.body_count > MAX_BODIES ==> r == Err::<
                Simulation,
                SetupError,
            >(SetupError::TooManyBodies),
            config.physics.wf() && 1 <= config.body_count <= MAX_BODIES && !config.ranges_valid()
                ==> r == Err::<Simulation, SetupError>(SetupError::InvalidRange),
            config.physics.wf() && 1 <= config.body_count <= MAX_BODIES && config.ranges_valid()
                ==> {
                &&& r is Ok
                &&& r->Ok_0.spec_physics() == config.physics
                &&& r->Ok_0.spec_bodies().len() == config.body_count
                &&& forall|i: int|
                    0 <= i < config.body_count ==> {
                        let b = #[trigger] r->Ok_0.spec_bodies()[i];
                        &&& -config.spread <= b.position.x <= config.spread
                        &&& -config.spread <= b.position.y <= config.spread
                        &&& b.velocity == Vector2 { x: 0, y: 0 }
                        &&& config.min_mass <= b.mass <= config.max_mass
                    }
            },
    {
        let physics = config.physics;
        if physics.gravity < 0 || physics.gravity > MAX_GRAVITY || physics.epsilon < 1
            || physics.epsilon > WORLD_LIMIT {
            return Err(SetupError::InvalidPhysics);
        }
        if config.body_count == 0 {
            return Err(SetupError::NoBodies);
        }
        if config.body_count > MAX_BODIES {
            return Err(SetupError::TooManyBodies);
        }
        if config.spread < 0 || config.spread > WORLD_LIMIT || config.min_mass < 1
            || config.min_mass > config.max_mass || config.max_mass > MAX_MASS {
            return Err(SetupError::InvalidRange);
        }
        let mut initial: Vec<(i64, i64, i64)> = Vec::new();
        let mut i: usize = 0;
        while i < config.body_count
            invariant
                config.ranges_valid(),
                i <= config.body_count,
                initial.len() == i,
                forall|j: int|
                    0 <= j < i ==> {
                        let t = #[trigger] initial[j];
                        &&& -config.spread <= t.0 <= config.spread
                        &&& -config.spread <= t.1 <= config.spread
                        &&& config.min_mass <= t.2 <= config.max_mass
                    },
            decreases config.body_count - i,
        {
            let x = draw_between(-config.spread, config.spread);
            let y = draw_between(-config.spread, config.spread);
            let mass = draw_between(config.min_mass, config.max_mass);
            initial.push((x, y, mass));
            i = i + 1;
        }
        proof {
            assert(all_accepted(initial@));
        }
        let r = Simulation::new(physics, &initial);
        proof {
            let s = r->Ok_0.spec_bodies();
            assert forall|i: int| 0 <= i < config.body_count implies #[trigger] s[i] == body_at_rest(
                initial[i],
            ) by {}
        }
        r
    }
}

} // verus!
