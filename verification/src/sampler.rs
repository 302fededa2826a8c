//! The IFS sampler: the current point of the chaos game and one step of it.
//!
//! A step draws a uniform value r in [0, 1), picks one of four affine maps by
//! cumulative probability (1%, 85%, 7%, 7%), and applies it. The value r is
//! carried as an integer numerator over [`UNIT_RESOLUTION`], and coordinates
//! are carried as multiples of 1/[`SCALE`], so the maps — whose coefficients
//! are all multiples of one hundredth — are computed exactly, up to one floor
//! division by 100 per coordinate.

use vstd::arithmetic::div_mod::{
    lemma_div_is_ordered, lemma_div_nonincreasing, lemma_fundamental_div_mod,
    lemma_fundamental_div_mod_converse,
};
use vstd::prelude::*;

verus! {

/// Fixed-point unit: the number of `i64` ticks in 1.0 of fractal coordinate
/// space.
pub const SCALE: i64 = 1_000_000;

/// Resolution of the uniform random draws: a draw is an integer numerator r,
/// and the sampled value is r / UNIT_RESOLUTION, uniform in [0, 1).
pub const UNIT_RESOLUTION: u64 = 1_000_000_000;

/// The current point of the chaos game, in fixed-point fractal coordinates
/// (`x` and `y` count millionths of a unit).
#[derive(Clone, Copy, PartialEq, Eq, Structural, Debug)]
pub struct FractalPoint {
    pub x: i64,
    pub y: i64,
}

impl FractalPoint {
    /// All reachable points stay well inside these bounds: each of the four
    /// maps sends the box back into itself, so the arithmetic of a step can
    /// never overflow.
    pub open spec fn wf(self) -> bool {
        &&& -4 * SCALE <= self.x <= 4 * SCALE
        &&& -12 * SCALE <= self.y <= 12 * SCALE
    }

    /// The starting point (0, 0).
    pub fn origin() -> (p: FractalPoint)
        ensures
            p.x == 0 && p.y == 0,
            p.wf(),
    {
        FractalPoint { x: 0, y: 0 }
    }

    /// Builds a point from raw fixed-point coordinates; rejects coordinates
    /// outside the bounds that keep a sampler step free of overflow.
    pub fn from_scaled(x: i64, y: i64) -> (p: Option<FractalPoint>)
        ensures
            p is Some <==> (FractalPoint { x, y }).wf(),
            p is Some ==> p->0 == (FractalPoint { x, y }),
    {
        if -4 * SCALE <= x && x <= 4 * SCALE && -12 * SCALE <= y && y <= 12 * SCALE {
            Some(FractalPoint { x, y })
        } else {
            None
        }
    }
}

/// Which of the four affine maps a draw r selects: the branch thresholds
/// 0.01, 0.86 and 0.93 of the unit interval, as numerators over
/// [`UNIT_RESOLUTION`].
pub open spec fn branch_of(r: u64) -> int {
    if r < 10_000_000 {
        0
    } else if r < 860_000_000 {
        1
    } else if r < 930_000_000 {
        2
    } else {
        3
    }
}

/// One step of the iterated function system on fixed-point coordinates:
/// the map selected by r, with its six coefficients times 100, applied as
/// x' = (100a*x + 100b*y + 100e*SCALE) / 100 (floor), and likewise for y.
pub open spec fn step_spec(r: u64, x: int, y: int) -> (int, int) {
    let b = branch_of(r);
    if b == 0 {
        (0, (16 * y) / 100)
    } else if b == 1 {
        ((85 * x + 4 * y) / 100, (-4 * x + 85 * y + 160 * SCALE) / 100)
    } else if b == 2 {
        ((20 * x - 26 * y) / 100, (23 * x + 22 * y + 160 * SCALE) / 100)
    } else {
        ((-15 * x + 28 * y) / 100, (26 * x + 24 * y + 44 * SCALE) / 100)
    }
}

/// The four branches partition the space of draws exactly at the cumulative
/// probabilities 1%, 86% and 93%, so their widths within [0, UNIT_RESOLUTION)
/// are 1%, 85%, 7% and 7% of it.
pub proof fn lemma_branch_partition(r: u64)
    requires
        r < UNIT_RESOLUTION,
    ensures
        branch_of(r) == 0 <==> 0 <= r < UNIT_RESOLUTION / 100,
        branch_of(r) == 1 <==> UNIT_RESOLUTION / 100 <= r < 86 * (UNIT_RESOLUTION / 100),
        branch_of(r) == 2 <==> 86 * (UNIT_RESOLUTION / 100) <= r < 93 * (UNIT_RESOLUTION / 100),
        branch_of(r) == 3 <==> 93 * (UNIT_RESOLUTION / 100) <= r < UNIT_RESOLUTION,
{
}

/// Floor division of a bounded signed value by 100, carried out on unsigned
/// machine words.
fn div100_floor(a: i64) -> (q: i64)
    requires
        -4_000_000_000_000 <= a <= 4_000_000_000_000,
    ensures
        q == a as int / 100,
{
    if a >= 0 {
        let q0: u64 = (a as u64) / 100;
        proof {
            lemma_div_nonincreasing(a as int, 100);
        }
        q0 as i64
    } else {
        let m: u64 = (-a) as u64;
        let q0: u64 = m / 100;
        let r0: u64 = m % 100;
        proof {
            lemma_fundamental_div_mod(m as int, 100);
            if r0 == 0 {
                lemma_fundamental_div_mod_converse(a as int, 100, -(q0 as int), 0);
            } else {
                lemma_fundamental_div_mod_converse(
                    a as int,
                    100,
                    -(q0 as int) - 1,
                    100 - (r0 as int),
                );
            }
        }
        if r0 == 0 {
            -(q0 as i64)
        } else {
            -(q0 as i64) - 1
        }
    }
}

/// Floor division by 100 keeps a value between bounds that are themselves
/// multiples of 100.
proof fn lemma_div100_bounds(a: int, lo: int, hi: int)
    requires
        lo <= a <= hi,
        lo % 100 == 0,
        hi % 100 == 0,
    ensures
        lo / 100 <= a / 100 <= hi / 100,
{
    lemma_div_is_ordered(lo, a, 100);
    lemma_div_is_ordered(a, hi, 100);
}

/// One sampler step: applies to `p` the affine map that the draw `r`
/// selects. A pure function of its arguments — the same draw and point give
/// the same next point — and it keeps the point inside the bounds that
/// [`FractalPoint::wf`] states.
pub fn sample_step(r: u64, p: FractalPoint) -> (q: FractalPoint)
    requires
        r < UNIT_RESOLUTION,
        p.wf(),
    ensures
        (q.x as int, q.y as int) == step_spec(r, p.x as int, p.y as int),
        q.wf(),
{
    let x = p.x;
    let y = p.y;
    if r < 10_000_000 {
        let ny = div100_floor(16 * y);
        proof {
            lemma_div100_bounds(16 * y, -192 * SCALE, 192 * SCALE);
        }
        FractalPoint { x: 0, y: ny }
    } else if r < 860_000_000 {
        let nx = div100_floor(85 * x + 4 * y);
        let ny = div100_floor(-4 * x + 85 * y + 160 * SCALE);
        proof {
            lemma_div100_bounds(85 * x + 4 * y, -388 * SCALE, 388 * SCALE);
            lemma_div100_bounds(-4 * x + 85 * y + 160 * SCALE, -876 * SCALE, 1196 * SCALE);
        }
        FractalPoint { x: nx, y: ny }
    } else if r < 930_000_000 {
        let nx = div100_floor(20 * x - 26 * y);
        let ny = div100_floor(23 * x + 22 * y + 160 * SCALE);
        proof {
            lemma_div100_bounds(20 * x - 26 * y, -392 * SCALE, 392 * SCALE);
            lemma_div100_bounds(23 * x + 22 * y + 160 * SCALE, -196 * SCALE, 516 * SCALE);
        }
        FractalPoint { x: nx, y: ny }
    } else {
        let nx = div100_floor(-15 * x + 28 * y);
        let ny = div100_floor(26 * x + 24 * y + 44 * SCALE);
        proof {
            lemma_div100_bounds(-15 * x + 28 * y, -396 * SCALE, 396 * SCALE);
            lemma_div100_bounds(26 * x + 24 * y + 44 * SCALE, -348 * SCALE, 436 * SCALE);
        }
        FractalPoint { x: nx, y: ny }
    }
}

/// The branch index a draw selects, as an executable value; what it means is
/// pinned to [`branch_of`].
pub fn branch_index(r: u64) -> (b: u8)
    ensures
        b as int == branch_of(r),
{
    if r < 10_000_000 {
        0
    } else if r < 860_000_000 {
        1
    } else if r < 930_000_000 {
        2
    } else {
        3
    }
}

} // verus!
