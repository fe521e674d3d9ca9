//! The tunable constants of a run.
use vstd::prelude::*;

use crate::force::Physics;
use crate::{MAX_MASS, UNIT, WORLD_LIMIT};

verus! {

/// Everything a run is set up from. All lengths and masses are in millionths.
#[derive(Clone, Copy, Debug, PartialEq, Eq, Structural)]
pub struct Config {
    /// The force law.
    pub physics: Physics,
    /// The number of bodies.
    pub body_count: usize,
    /// Bodies start with each coordinate drawn from `[-spread, spread]`.
    pub spread: i64,
    /// Bodies start with a mass drawn from `[min_mass, max_mass]`.
    pub min_mass: i64,
    pub max_mass: i64,
    /// The window size in pixels, whose center the view is anchored at.
    pub window_width: u32,
    pub window_height: u32,
}

impl Config {
    /// Whether the ranges that bodies are drawn from give valid bodies.
    pub open spec fn ranges_valid(self) -> bool {
        &&& 0 <= self.spread <= WORLD_LIMIT
        &&& 1 <= self.min_mass <= self.max_mass <= MAX_MASS
    }

    /// Fifteen bodies under a stronger pull, `G = 0.2`; otherwise as the default.
    pub fn sparse() -> (r: Config)
        ensures
            r.physics.gravity == 200_000,
            r.physics.epsilon == UNIT,
            r.body_count == 15,
            r.spread == 280 * UNIT,
            r.min_mass == UNIT / 10,
            r.max_mass == 100 * UNIT,
            r.window_width == 1200,
            r.window_height == 800,
    {
        let d = Self::default();
        Config { physics: Physics { gravity: 200_000, epsilon: d.physics.epsilon }, body_count: 15, ..d }
    }
}

impl Default for Config {
    /// `G = 0.003`, ninety bodies within 280 units of the origin with masses
    /// from 0.1 to 100, a smallest distance of one unit, and a 1200 by 800 window.
    fn default() -> (r: Config)
        ensures
            r.physics.gravity == 3_000,
            r.physics.epsilon == UNIT,
            r.body_count == 90,
            r.spread == 280 * UNIT,
            r.min_mass == UNIT / 10,
            r.max_mass == 100 * UNIT,
            r.window_width == 1200,
            r.window_height == 800,
    {
        Config {
            physics: Physics { gravity: 3_000, epsilon: UNIT },
            body_count: 90,
            spread: 280 * UNIT,
            min_mass: UNIT / 10,
            max_mass: 100 * UNIT,
            window_width: 1200,
            window_height: 800,
        }
    }
}

} // verus!
