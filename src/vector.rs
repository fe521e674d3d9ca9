//! Two-dimensional vectors with fixed-point components.
use vstd::prelude::*;

use crate::arith::{div_toward_zero, trunc_div};
use crate::UNIT;

verus! {

/// A vector whose components are counts of millionths of a unit.
#[derive(Clone, Copy, Debug, PartialEq, Eq, Structural)]
pub struct Vector2 {
    pub x: i64,
    pub y: i64,
}

/// Whether both components are representable as `i64`.
pub open spec fn fits_i64(x: int, y: int) -> bool {
    i64::MIN <= x <= i64::MAX && i64::MIN <= y <= i64::MAX
}

/// Whether `r` is the integer square root of `n`, rounded down.
pub open spec fn is_floor_sqrt(r: int, n: int) -> bool {
    0 <= r && r * r <= n < (r + 1) * (r + 1)
}

impl Vector2 {
    /// The squared Euclidean length, in squared millionths.
    pub open spec fn norm_sq(self) -> int {
        self.x * self.x + self.y * self.y
    }

    pub fn new(x: i64, y: i64) -> (r: Vector2)
        ensures
            r.x == x,
            r.y == y,
    {
        Vector2 { x, y }
    }

    pub fn zero() -> (r: Vector2)
        ensures
            r.x == 0,
            r.y == 0,
    {
        Vector2 { x: 0, y: 0 }
    }

    /// Componentwise sum.
    pub fn add(self, o: Vector2) -> (r: Vector2)
        requires
            fits_i64(self.x + o.x, self.y + o.y),
        ensures
            r.x == self.x + o.x,
            r.y == self.y + o.y,
    {
        Vector2 { x: self.x + o.x, y: self.y + o.y }
    }

    /// Componentwise difference.
    pub fn sub(self, o: Vector2) -> (r: Vector2)
        requires
            fits_i64(self.x - o.x, self.y - o.y),
        ensures
            r.x == self.x - o.x,
            r.y == self.y - o.y,
    {
        Vector2 { x: self.x - o.x, y: self.y - o.y }
    }

    /// Multiplication by the fixed-point factor `k` (that is, by `k / UNIT`),
    /// each component rounded toward zero.
    pub fn scale(self, k: i64) -> (r: Vector2)
        requires
            fits_i64(trunc_div(self.x * k, UNIT as int), trunc_div(self.y * k, UNIT as int)),
        ensures
            r.x == trunc_div(self.x * k, UNIT as int),
            r.y == trunc_div(self.y * k, UNIT as int),
    {
        proof {
            assert(-0x4000_0000_0000_0000_0000_0000_0000_0000 <= self.x * k
                <= 0x4000_0000_0000_0000_0000_0000_0000_0000) by (nonlinear_arith);
            assert(-0x4000_0000_0000_0000_0000_0000_0000_0000 <= self.y * k
                <= 0x4000_0000_0000_0000_0000_0000_0000_0000) by (nonlinear_arith);
        }
        let x = div_toward_zero(self.x as i128 * k as i128, UNIT as i128);
        let y = div_toward_zero(self.y as i128 * k as i128, UNIT as i128);
        Vector2 { x: x as i64, y: y as i64 }
    }

    /// The Euclidean length, rounded down, in millionths.
    pub fn length(self) -> (r: u64)
        ensures
            is_floor_sqrt(r as int, self.norm_sq()),
    {
        let ax: u128 = if self.x < 0 { (-(self.x as i128)) as u128 } else { self.x as u128 };
        let ay: u128 = if self.y < 0 { (-(self.y as i128)) as u128 } else { self.y as u128 };
        proof {
            assert(ax * ax == self.x * self.x) by (nonlinear_arith)
                requires
                    ax == self.x || ax == -self.x,
            ;
            assert(ay * ay == self.y * self.y) by (nonlinear_arith)
                requires
                    ay == self.y || ay == -self.y,
            ;
            assert(ax * ax <= 0x4000_0000_0000_0000_0000_0000_0000_0000) by (nonlinear_arith)
                requires
                    ax <= 0x8000_0000_0000_0000,
            ;
            assert(ay * ay <= 0x4000_0000_0000_0000_0000_0000_0000_0000) by (nonlinear_arith)
                requires
                    ay <= 0x8000_0000_0000_0000,
            ;
        }
        let n: u128 = ax * ax + ay * ay;
        let mut lo: u128 = 0;
        let mut hi: u128 = 0x1_0000_0000_0000_0000;
        assert(hi * hi > n) by (nonlinear_arith)
            requires
                hi == 0x1_0000_0000_0000_0000u128,
                n <= 0x8000_0000_0000_0000_0000_0000_0000_0000u128,
        ;
        while hi - lo > 1
            invariant
                lo < hi <= 0x1_0000_0000_0000_0000,
                lo * lo <= n,
                n < hi * hi,
            decreases hi - lo,
        {
            let mid: u128 = lo + (hi - lo) / 2;
            assert(mid * mid < 0x1_0000_0000_0000_0000_0000_0000_0000_0000) by (nonlinear_arith)
                requires
                    mid < 0x1_0000_0000_0000_0000,
            ;
            if mid * mid <= n {
                lo = mid;
            } else {
                hi = mid;
            }
        }
        assert(hi == lo + 1);
        proof {
            assert(lo < 0x1_0000_0000_0000_0000);
        }
        lo as u64
    }
}

} // verus!
