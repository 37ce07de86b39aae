//! Fixed-point units and the integer arithmetic that the simulator rests on.
//!
//! Every length, speed and duration is an `i64` that counts sixty-five
//! thousand five hundred and thirty-sixths: `ONE` stands for one tile, for
//! one tile per tick, or for one tick.

use vstd::prelude::*;

verus! {

/// The number 1 in fixed point.
pub const ONE: i64 = 0x1_0000;

/// Pixels per tile.
pub const TILE_RES: i64 = 16;

/// How far an entity at rest is pushed out of a wall in one tick: a quarter
/// of a pixel.
pub const PUSH_OUT: i64 = 0x400;

/// The share of its speed that an entity keeps when it bounces off a wall,
/// in fixed point: one half.
pub const COLLISION_MULTIPLIER: i64 = 0x8000;

/// The world reaches this far from the origin along both axes, in both
/// directions: 2^31 tiles.
pub const WORLD_LIMIT: i64 = 0x8000_0000_0000;

/// The greatest sustain speed of an envelope: 256 tiles per tick.
pub const SUSTAIN_LIMIT: i64 = 0x100_0000;

/// No velocity component ever exceeds this magnitude. It is the greatest
/// rate that an envelope within `SUSTAIN_LIMIT` can have.
pub const SPEED_LIMIT: i64 = 0x100_0000_0000;

/// Whether `c` is a coordinate inside the world.
pub open spec fn in_world(c: int) -> bool {
    -WORLD_LIMIT <= c <= WORLD_LIMIT
}

/// `c`, moved to the nearest coordinate inside the world.
pub open spec fn spec_clamp_world(c: int) -> int {
    if c < -WORLD_LIMIT {
        -(WORLD_LIMIT as int)
    } else if c > WORLD_LIMIT {
        WORLD_LIMIT as int
    } else {
        c
    }
}

/// The quotient of `a` by `b`, rounded up.
pub open spec fn spec_div_ceil(a: int, b: int) -> int
    recommends
        0 <= a,
        0 < b,
{
    (a + b - 1) / b
}

/// The greatest `r` whose square does not exceed `n`.
pub open spec fn spec_isqrt(n: nat) -> nat
    decreases n,
{
    if n == 0 {
        0
    } else {
        let r = spec_isqrt((n - 1) as nat);
        if (r + 1) * (r + 1) <= n {
            r + 1
        } else {
            r
        }
    }
}

/// The distance between two points, rounded down to a whole unit.
pub open spec fn spec_distance_between(x1: int, y1: int, x2: int, y2: int) -> nat {
    spec_isqrt(((x1 - x2) * (x1 - x2) + (y1 - y2) * (y1 - y2)) as nat)
}

/// `spec_isqrt(n)` is a square root of `n` rounded down.
pub proof fn lemma_isqrt_bounds(n: nat)
    ensures
        spec_isqrt(n) * spec_isqrt(n) <= n < (spec_isqrt(n) + 1) * (spec_isqrt(n) + 1),
    decreases n,
{
    if n == 0 {
        assert(spec_isqrt(0) == 0);
        assert(0 * 0 == 0 && (0 + 1) * (0 + 1) == 1) by (nonlinear_arith);
    } else {
        lemma_isqrt_bounds((n - 1) as nat);
        let r = spec_isqrt((n - 1) as nat);
        if (r + 1) * (r + 1) <= n {
            assert(spec_isqrt(n) == r + 1);
            assert((r + 1) * (r + 1) < (r + 1 + 1) * (r + 1 + 1)) by (nonlinear_arith);
        } else {
            assert(spec_isqrt(n) == r);
        }
    }
}

/// Only one number is a square root of `n` rounded down.
pub proof fn lemma_isqrt_unique(n: nat, r: nat)
    requires
        r * r <= n < (r + 1) * (r + 1),
    ensures
        r == spec_isqrt(n),
{
    lemma_isqrt_bounds(n);
    let s = spec_isqrt(n);
    if r < s {
        assert((r + 1) * (r + 1) <= s * s) by (nonlinear_arith)
            requires
                r + 1 <= s,
        ;
    }
    if s < r {
        assert((s + 1) * (s + 1) <= r * r) by (nonlinear_arith)
            requires
                s + 1 <= r,
        ;
    }
}

/// The rounded-up quotient is the least number whose product with `b`
/// reaches `a`.
pub proof fn lemma_div_ceil(a: int, b: int)
    requires
        0 <= a,
        0 < b,
    ensures
        spec_div_ceil(a, b) * b >= a,
        (spec_div_ceil(a, b) - 1) * b < a,
        0 <= spec_div_ceil(a, b) <= a,
        0 < a ==> 0 < spec_div_ceil(a, b),
{
    let q = (a + b - 1) / b;
    let r = (a + b - 1) % b;
    assert(a + b - 1 == b * q + r && 0 <= r < b) by (nonlinear_arith)
        requires
            0 < b,
            q == (a + b - 1) / b,
            r == (a + b - 1) % b,
    ;
    assert(q * b == b * q) by (nonlinear_arith);
    assert((q - 1) * b == b * q - b) by (nonlinear_arith);
    assert(0 <= q) by (nonlinear_arith)
        requires
            0 < b,
            b * q + r >= 0,
            r < b,
    ;
    assert(0 < a ==> 0 < q) by (nonlinear_arith)
        requires
            0 < b,
            a + b - 1 == b * q + r,
            r < b,
            0 <= q,
    ;
    assert(q <= a) by (nonlinear_arith)
        requires
            0 < b,
            0 <= a,
            a + b - 1 == b * q + r,
            0 <= r,
    ;
}

/// Moves `c` to the nearest coordinate inside the world.
pub fn clamp_world(c: i64) -> (r: i64)
    ensures
        r == spec_clamp_world(c as int),
        in_world(r as int),
{
    if c < -WORLD_LIMIT {
        -WORLD_LIMIT
    } else if c > WORLD_LIMIT {
        WORLD_LIMIT
    } else {
        c
    }
}

/// Divides `a` by `b` and rounds up.
pub fn div_ceil(a: i64, b: i64) -> (q: i64)
    requires
        0 <= a,
        0 < b,
    ensures
        q == spec_div_ceil(a as int, b as int),
        q * b >= a,
        (q - 1) * b < a,
        0 <= q <= a,
        0 < a ==> 0 < q,
{
    let whole: i64 = a / b;
    let left: i64 = a % b;
    proof {
        let ai = a as int;
        let bi = b as int;
        assert(ai == bi * (ai / bi) + ai % bi && 0 <= ai % bi < bi) by (nonlinear_arith)
            requires
                0 < bi,
        ;
        assert(0 <= ai / bi <= ai) by (nonlinear_arith)
            requires
                0 <= ai,
                0 < bi,
        ;
        if left == 0 {
            assert((ai + bi - 1) / bi == ai / bi) by (nonlinear_arith)
                requires
                    0 < bi,
                    ai % bi == 0,
                    ai == bi * (ai / bi) + ai % bi,
            ;
            assert(0 < ai ==> 0 < ai / bi) by (nonlinear_arith)
                requires
                    0 < bi,
                    0 <= ai / bi,
                    ai == bi * (ai / bi),
            ;
        } else {
            assert((ai + bi - 1) / bi == ai / bi + 1) by (nonlinear_arith)
                requires
                    0 < bi,
                    0 < ai % bi < bi,
                    ai == bi * (ai / bi) + ai % bi,
            ;
            assert(ai / bi + 1 <= ai) by (nonlinear_arith)
                requires
                    0 < bi,
                    0 < ai % bi < bi,
                    0 <= ai / bi,
                    ai == bi * (ai / bi) + ai % bi,
            ;
        }
        assert((ai / bi) * bi == bi * (ai / bi)) by (nonlinear_arith);
        assert((ai / bi + 1) * bi == bi * (ai / bi) + bi) by (nonlinear_arith);
        assert((ai / bi - 1) * bi == bi * (ai / bi) - bi) by (nonlinear_arith);
    }
    if left == 0 {
        whole
    } else {
        whole + 1
    }
}

/// The square root of `n`, rounded down.
pub fn isqrt(n: u128) -> (r: u64)
    ensures
        r == spec_isqrt(n as nat),
        r * r <= n < (r + 1) * (r + 1),
{
    let mut low: u128 = 0;
    let mut high: u128 = 0x1_0000_0000_0000_0000;
    assert(0x1_0000_0000_0000_0000int * 0x1_0000_0000_0000_0000int
        == 0x1_0000_0000_0000_0000_0000_0000_0000_0000int) by (nonlinear_arith);
    while high - low > 1
        invariant
            low < high <= 0x1_0000_0000_0000_0000,
            low * low <= n < high * high,
        decreases high - low,
    {
        let mid: u128 = low + (high - low) / 2;
        assert(mid * mid <= 0xffff_ffff_ffff_ffffint * 0xffff_ffff_ffff_ffffint)
            by (nonlinear_arith)
            requires
                0 <= mid <= 0xffff_ffff_ffff_ffffint,
        ;
        assert(0xffff_ffff_ffff_ffffint * 0xffff_ffff_ffff_ffffint
            < 0x1_0000_0000_0000_0000_0000_0000_0000_0000int) by (nonlinear_arith);
        if mid * mid <= n {
            low = mid;
        } else {
            high = mid;
        }
    }
    proof {
        lemma_isqrt_unique(n as nat, low as nat);
    }
    low as u64
}

/// The distance between the points `(x1, y1)` and `(x2, y2)` of the world,
/// rounded down to a whole unit.
pub fn distance_between(x1: i64, y1: i64, x2: i64, y2: i64) -> (d: i64)
    requires
        in_world(x1 as int),
        in_world(y1 as int),
        in_world(x2 as int),
        in_world(y2 as int),
    ensures
        d == spec_distance_between(x1 as int, y1 as int, x2 as int, y2 as int),
        d * d <= (x1 - x2) * (x1 - x2) + (y1 - y2) * (y1 - y2) < (d + 1) * (d + 1),
{
    let dx: i64 = x1 - x2;
    let dy: i64 = y1 - y2;
    let ax: u128 = if dx < 0 { (-dx) as u128 } else { dx as u128 };
    let ay: u128 = if dy < 0 { (-dy) as u128 } else { dy as u128 };
    assert(ax * ax <= 0x1_0000_0000_0000int * 0x1_0000_0000_0000int) by (nonlinear_arith)
        requires
            0 <= ax <= 0x1_0000_0000_0000int,
    ;
    assert(ay * ay <= 0x1_0000_0000_0000int * 0x1_0000_0000_0000int) by (nonlinear_arith)
        requires
            0 <= ay <= 0x1_0000_0000_0000int,
    ;
    assert(0x1_0000_0000_0000int * 0x1_0000_0000_0000int
        == 0x1_0000_0000_0000_0000_0000_0000int) by (nonlinear_arith);
    assert(ax * ax == (x1 - x2) * (x1 - x2)) by (nonlinear_arith)
        requires
            ax == x1 - x2 || ax == -(x1 - x2),
    ;
    assert(ay * ay == (y1 - y2) * (y1 - y2)) by (nonlinear_arith)
        requires
            ay == y1 - y2 || ay == -(y1 - y2),
    ;
    let sum: u128 = ax * ax + ay * ay;
    let r: u64 = isqrt(sum);
    assert(r < 0x2_0000_0000_0000int) by (nonlinear_arith)
        requires
            r * r <= sum,
            sum <= 2 * 0x1_0000_0000_0000_0000_0000_0000int,
            0 <= r,
    ;
    r as i64
}

} // verus!
