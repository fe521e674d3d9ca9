//! The transform from simulation coordinates to display pixels.
use vstd::prelude::*;

use crate::arith::{div_round, round_div};
use crate::body::in_world;
use crate::simulation::{mean_position, Simulation};
use crate::vector::Vector2;
use crate::{UNIT, WORLD_LIMIT};

verus! {

/// Largest magnitude of a window-center component: half of `u32::MAX` units.
pub const MAX_CENTER: i64 = 0x8_0000_0000_0000;

/// A display coordinate, in whole pixels.
#[derive(Clone, Copy, Debug, PartialEq, Eq, Structural)]
pub struct Pixel {
    pub x: i32,
    pub y: i32,
}

/// `v` clamped into the range of `i32`.
pub open spec fn saturate_i32(v: int) -> int {
    if v < i32::MIN {
        i32::MIN as int
    } else if v > i32::MAX {
        i32::MAX as int
    } else {
        v
    }
}

/// The pixel of a fixed-point point: each component rounded to the nearest
/// whole unit, halves away from zero, and clamped into `i32`.
pub open spec fn pixel_of(x: int, y: int) -> Pixel {
    Pixel {
        x: saturate_i32(round_div(x, UNIT as int)) as i32,
        y: saturate_i32(round_div(y, UNIT as int)) as i32,
    }
}

/// Maps simulation coordinates to display coordinates: a point is shifted
/// by the anchor, which is the window center minus the point the view is
/// centered on.
pub struct Viewport {
    center: Vector2,
    anchor: Vector2,
}

impl Viewport {
    #[verifier::type_invariant]
    spec fn inv(self) -> bool {
        &&& -MAX_CENTER <= self.center.x <= MAX_CENTER
        &&& -MAX_CENTER <= self.center.y <= MAX_CENTER
        &&& -(MAX_CENTER + WORLD_LIMIT) <= self.anchor.x <= MAX_CENTER + WORLD_LIMIT
        &&& -(MAX_CENTER + WORLD_LIMIT) <= self.anchor.y <= MAX_CENTER + WORLD_LIMIT
    }

    /// The window center, in fixed point.
    pub closed spec fn spec_center(self) -> Vector2 {
        self.center
    }

    /// The offset added to every point before rounding.
    pub closed spec fn spec_anchor(self) -> Vector2 {
        self.anchor
    }

    /// A view of a window of the given size in pixels, centered on the origin.
    pub fn new(width: u32, height: u32) -> (r: Viewport)
        ensures
            r.spec_center().x == width * UNIT / 2,
            r.spec_center().y == height * UNIT / 2,
            r.spec_anchor() == r.spec_center(),
    {
        let cx: i64 = (width as i64) * (UNIT / 2);
        let cy: i64 = (height as i64) * (UNIT / 2);
        let center = Vector2 { x: cx, y: cy };
        Viewport { center, anchor: center }
    }

    /// Centers the view on `drift`: the anchor becomes the window center minus `drift`.
    pub fn recenter(&mut self, drift: Vector2)
        requires
            in_world(drift.x as int, drift.y as int),
        ensures
            final(self).spec_center() == old(self).spec_center(),
            final(self).spec_anchor().x == old(self).spec_center().x - drift.x,
            final(self).spec_anchor().y == old(self).spec_center().y - drift.y,
    {
        proof {
            use_type_invariant(&*self);
        }
        self.anchor = Vector2 { x: self.center.x - drift.x, y: self.center.y - drift.y };
    }

    /// The pixel at which a point is drawn: the point plus the anchor, rounded.
    pub fn project(&self, p: Vector2) -> (r: Pixel)
        requires
            in_world(p.x as int, p.y as int),
        ensures
            r == pixel_of(self.spec_anchor().x + p.x, self.spec_anchor().y + p.y),
    {
        proof {
            use_type_invariant(self);
        }
        let x = to_display(self.anchor.x as i128 + p.x as i128);
        let y = to_display(self.anchor.y as i128 + p.y as i128);
        Pixel { x, y }
    }

    /// One frame's display points, with the view as it stands: the origin
    /// first, then every body in order, then the drift. The view is then
    /// centered on this frame's drift, for the next frame.
    pub fn frame(&mut self, sim: &Simulation) -> (r: Vec<Pixel>)
        ensures
            r.len() == sim.spec_bodies().len() + 2,
            r[0] == pixel_of(old(self).spec_anchor().x as int, old(self).spec_anchor().y as int),
            forall|i: int|
                0 <= i < sim.spec_bodies().len() ==> #[trigger] r[i + 1] == pixel_of(
                    old(self).spec_anchor().x + sim.spec_bodies()[i].position.x,
                    old(self).spec_anchor().y + sim.spec_bodies()[i].position.y,
                ),
            r[sim.spec_bodies().len() + 1int] == pixel_of(
                old(self).spec_anchor().x + mean_position(sim.spec_bodies()).0,
                old(self).spec_anchor().y + mean_position(sim.spec_bodies()).1,
            ),
            final(self).spec_center() == old(self).spec_center(),
            final(self).spec_anchor().x == old(self).spec_center().x - mean_position(sim.spec_bodies()).0,
            final(self).spec_anchor().y == old(self).spec_center().y - mean_position(sim.spec_bodies()).1,
    {
        let bodies = sim.bodies();
        let mut points: Vec<Pixel> = Vec::new();
        points.push(self.project(Vector2 { x: 0, y: 0 }));
        let mut i: usize = 0;
        while i < bodies.len()
            invariant
                bodies@ == sim.spec_bodies(),
                forall|j: int| 0 <= j < bodies.len() ==> (#[trigger] bodies[j]).wf(),
                i <= bodies.len(),
                points.len() == i + 1,
                points[0] == pixel_of(self.spec_anchor().x as int, self.spec_anchor().y as int),
                forall|j: int|
                    0 <= j < i ==> #[trigger] points[j + 1] == pixel_of(
                        self.spec_anchor().x + bodies[j].position.x,
                        self.spec_anchor().y + bodies[j].position.y,
                    ),
            decreases bodies.len() - i,
        {
            points.push(self.project(bodies[i].position));
            i = i + 1;
        }
        let drift = sim.drift();
        points.push(self.project(drift));
        self.recenter(drift);
        points
    }
}

/// Rounds a fixed-point coordinate to whole pixels and clamps it into `i32`.
fn to_display(n: i128) -> (r: i32)
    requires
        -0x10_0000_0000_0000 <= n <= 0x10_0000_0000_0000,
    ensures
        r as int == saturate_i32(round_div(n as int, UNIT as int)),
{
    let q = div_round(n, UNIT as i128);
    if q < i32::MIN as i128 {
        i32::MIN
    } else if q > i32::MAX as i128 {
        i32::MAX
    } else {
        q as i32
    }
}

/// Once the view is centered on a point, that point is drawn at the window
/// center: for a view `after` that `recenter(drift)` made from `before`,
/// projecting `drift` gives the pixel of the window center.
pub proof fn lemma_recenter_round_trip(before: Viewport, after: Viewport, drift: Vector2)
    requires
        after.spec_center() == before.spec_center(),
        after.spec_anchor().x == before.spec_center().x - drift.x,
        after.spec_anchor().y == before.spec_center().y - drift.y,
    ensures
        pixel_of(after.spec_anchor().x + drift.x, after.spec_anchor().y + drift.y) == pixel_of(
            after.spec_center().x as int,
            after.spec_center().y as int,
        ),
{
}

} // verus!
