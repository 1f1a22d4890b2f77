//! A square-spiral walk over the plane: given a step number, the ring it
//! falls on and the grid position of that step. Useful for visiting chunks
//! closest-first around a center.

use vstd::prelude::*;
use vstd::arithmetic::div_mod::{lemma_fundamental_div_mod, lemma_mod_bound, lemma_div_pos_is_pos};
use crate::fixed::{isqrt_u64, sqrt_floor, lemma_sqrt_floor};

verus! {

/// A ring of the spiral: all positions whose step numbers fall on one square
/// ring of the given radius.
#[derive(Debug, Clone, Copy, PartialEq, Eq, Structural)]
pub struct Spiral {
    radius: i32,
}

/// The position on the ring of `radius` for offset `a` (the step's index
/// within the ring, already reduced modulo the ring length `8 * radius`):
/// the four sides of the square in order, each `2 * radius` steps long.
pub open spec fn spec_spiral_position(radius: int, a: int) -> (int, int, int) {
    let en = 2 * radius;
    let side = a / en;
    if side == 0 {
        (a - radius, -radius, radius)
    } else if side == 1 {
        (radius, a % en - radius, radius)
    } else if side == 2 {
        (radius - a % en, radius, radius)
    } else {
        (-radius, radius - a % en, radius)
    }
}

impl Spiral {
    pub closed spec fn spec_radius(self) -> int {
        self.radius as int
    }

    /// A spiral ring is usable when its radius is positive and small enough
    /// for the ring arithmetic to stay in `i32`.
    pub open spec fn wf(self) -> bool {
        1 <= self.spec_radius() <= 16000
    }

    /// Steps before the ring of this radius: the total length of all inner
    /// rings.
    pub open spec fn spec_ring_start(self) -> int {
        4 * self.spec_radius() * (self.spec_radius() - 1)
    }

    /// The ring on which step `n` falls: ring boundaries are at
    /// `4 r (r - 1)`, so the radius is derived from the floor square root of
    /// `n + 1`.
    pub fn new(n: i32) -> (s: Spiral)
        requires
            0 <= n <= 1000000000,
        ensures
            s.wf(),
            s.spec_radius() == (sqrt_floor((n + 1) as nat) - 1) / 2 + 1,
            s.spec_ring_start() <= n + 1,
    {
        let t = isqrt_u64((n + 1) as u64);
        proof {
            lemma_sqrt_floor((n + 1) as nat);
            assert(t >= 1) by (nonlinear_arith)
                requires
                    (t as int) * (t as int) <= n + 1,
                    n + 1 < ((t as int) + 1) * ((t as int) + 1),
                    n >= 0,
                    t >= 0,
            {}
            assert(t <= 31622) by (nonlinear_arith)
                requires
                    (t as int) * (t as int) <= n + 1,
                    n + 1 <= 1000000001,
                    t >= 0,
            {}
        }
        let radius = ((t as i32) - 1) / 2 + 1;
        proof {
            let ti = t as int;
            let r = (ti - 1) / 2 + 1;
            lemma_fundamental_div_mod(ti - 1, 2);
            lemma_mod_bound(ti - 1, 2);
            assert(2 * r - 1 <= ti);
            assert(r >= 1) by {
                lemma_div_pos_is_pos(ti - 1, 2);
            }
            assert(4 * r * (r - 1) + 1 == (2 * r - 1) * (2 * r - 1)) by (nonlinear_arith);
            assert((2 * r - 1) * (2 * r - 1) <= ti * ti) by (nonlinear_arith)
                requires
                    1 <= 2 * r - 1 <= ti,
            {}
        }
        Spiral { radius }
    }

    /// The grid position of step `n`, which must fall on or beyond this
    /// ring's start.
    pub fn calculate_position(&self, n: i32) -> (p: (i32, i32, i32))
        requires
            self.wf(),
            0 <= n <= 1000000000,
            self.spec_ring_start() <= n + 1,
        ensures
            ({
                let q = spec_spiral_position(
                    self.spec_radius(),
                    (1 + n - self.spec_ring_start()) % (8 * self.spec_radius()),
                );
                p.0 == q.0 && p.1 == q.1 && p.2 == q.2
            }),
    {
        let radius = self.radius as i64;
        proof {
            assert(0 <= 4 * radius * (radius - 1) <= 0x40000000 && 0 <= 8 * radius * (radius
                - 1) <= 0x80000000 && 8 * radius <= 128000) by (nonlinear_arith)
                requires
                    1 <= radius <= 16000,
            {}
        }
        let p = (8 * radius * (radius - 1)) / 2;
        let en = radius * 2;
        let a = (1 + n as i64 - p) % (radius * 8);
        proof {
            assert((8 * radius * (radius - 1)) / 2 == 4 * radius * (radius - 1))
                by (nonlinear_arith)
                requires
                    radius >= 1,
            {}
            lemma_mod_bound(1 + n as int - 4 * (radius as int) * (radius as int - 1),
                8 * radius as int);
            lemma_fundamental_div_mod(a as int, en as int);
            lemma_mod_bound(a as int, en as int);
            lemma_div_pos_is_pos(a as int, en as int);
            assert(a as int / (en as int) <= 3) by (nonlinear_arith)
                requires
                    0 <= a < 8 * (radius as int),
                    en == 2 * radius,
                    a as int == (en as int) * (a as int / (en as int)) + (a as int) % (en as int),
                    0 <= (a as int) % (en as int) < en,
                    radius >= 1,
            {}
        }
        let side = a / (radius * 2);
        let rem = a % en;
        let pos: (i64, i64, i64) = if side == 0 {
            (a - radius, -radius, radius)
        } else if side == 1 {
            (radius, rem - radius, radius)
        } else if side == 2 {
            (radius - rem, radius, radius)
        } else {
            (-radius, radius - rem, radius)
        };
        (pos.0 as i32, pos.1 as i32, pos.2 as i32)
    }
}

} // verus!
