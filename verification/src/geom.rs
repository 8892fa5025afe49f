//! Fixed-point arithmetic primitives: all on-screen coordinates are kept in
//! subpixels (1/1000 of a pixel), so easing and curve evaluation are exact
//! integer computations.

use vstd::prelude::*;

verus! {

/// Subpixels per pixel.
pub const SUBPIX: i64 = 1000;

/// Largest coordinate (in subpixels) that a layout target or pointer
/// position may take; pointer input is clamped into this range.
pub const COORD_LIMIT: i64 = 1_000_000_000;

/// Largest coordinate an animated item may reach: a target plus one
/// easing step of slack.
pub const POS_LIMIT: i64 = 1_010_000_000;

/// Integer square root, rounded down.
pub open spec fn sqrt_floor(x: nat) -> nat
    decreases x,
{
    if x == 0 {
        0
    } else {
        let r = sqrt_floor((x - 1) as nat);
        if (r + 1) * (r + 1) <= x {
            (r + 1) as nat
        } else {
            r
        }
    }
}

pub proof fn lemma_sqrt_floor_bounds(x: nat)
    ensures
        sqrt_floor(x) * sqrt_floor(x) <= x,
        x < (sqrt_floor(x) as int + 1) * (sqrt_floor(x) as int + 1),
    decreases x,
{
    if x == 0 {
        assert(sqrt_floor(0) == 0);
    } else {
        lemma_sqrt_floor_bounds((x - 1) as nat);
        let r = sqrt_floor((x - 1) as nat);
        assert(r * r <= x - 1);
        assert(x - 1 < (r + 1) * (r + 1));
        if (r + 1) * (r + 1) <= x {
            assert(sqrt_floor(x) == r + 1);
            assert(x <= (r + 1) * (r + 1));
            assert((r + 1) * (r + 1) < (r + 2) * (r + 2)) by (nonlinear_arith);
            assert(x < (sqrt_floor(x) + 1) * (sqrt_floor(x) + 1));
        } else {
            assert(sqrt_floor(x) == r);
            assert(r * r <= x);
            assert(x < (r + 1) * (r + 1));
        }
    }
}

pub proof fn lemma_sqrt_floor_unique(x: nat, r: nat)
    requires
        r * r <= x,
        x < (r + 1) * (r + 1),
    ensures
        r == sqrt_floor(x),
{
    let s = sqrt_floor(x);
    lemma_sqrt_floor_bounds(x);
    if r < s {
        assert((r + 1) * (r + 1) <= s * s) by (nonlinear_arith)
            requires r + 1 <= s;
    }
    if s < r {
        assert((s + 1) * (s + 1) <= r * r) by (nonlinear_arith)
            requires s + 1 <= r;
    }
}

/// If `x < b * b` then its root is below `b`; used to bound easing speeds.
pub proof fn lemma_sqrt_floor_lt(x: nat, b: nat)
    requires
        x < b * b,
    ensures
        sqrt_floor(x) < b,
{
    lemma_sqrt_floor_bounds(x);
    let s = sqrt_floor(x);
    if s >= b {
        assert(b * b <= s * s) by (nonlinear_arith)
            requires b <= s;
    }
}

/// Integer square root of a 64-bit value, rounded down.
pub fn isqrt64(x: u64) -> (r: u64)
    requires
        x <= 0x4000_0000_0000_0000,
    ensures
        r == sqrt_floor(x as nat),
{
    let mut r: u64 = 0;
    loop
        invariant
            x <= 0x4000_0000_0000_0000,
            r * r <= x,
            r <= x,
        ensures
            r * r <= x,
            x < (r + 1) * (r + 1),
        decreases x - r,
    {
        proof {
            assert(r <= 0x8000_0000) by (nonlinear_arith)
                requires r * r <= x, x <= 0x4000_0000_0000_0000;
            assert((r + 1) * (r + 1) <= 0x8000_0002_0000_0000) by (nonlinear_arith)
                requires r <= 0x8000_0000;
        }
        let next = r + 1;
        if next * next <= x {
            proof {
                assert(next <= next * next) by (nonlinear_arith)
                    requires 1 <= next;
            }
            r = next;
        } else {
            break;
        }
    }
    proof {
        lemma_sqrt_floor_unique(x as nat, r as nat);
    }
    r
}

/// Division that rounds toward zero, as the source language's `/` does on
/// signed machine integers.
pub open spec fn div_trunc(n: int, d: int) -> int {
    let mag = abs_int(n) / abs_int(d);
    if (n >= 0) == (d >= 0) {
        mag
    } else {
        -mag
    }
}

pub open spec fn abs_int(v: int) -> int {
    if v >= 0 {
        v
    } else {
        -v
    }
}

/// `n / d` on signed 64-bit values, rounding toward zero.
pub fn div_trunc64(n: i64, d: i64) -> (r: i64)
    requires
        d != 0,
        -0x7fff_ffff_ffff_ffff <= n,
        -0x7fff_ffff_ffff_ffff <= d,
    ensures
        r == div_trunc(n as int, d as int),
{
    let nm: u64 = if n >= 0 { n as u64 } else { (-n) as u64 };
    let dm: u64 = if d >= 0 { d as u64 } else { (-d) as u64 };
    let mag: u64 = nm / dm;
    proof {
        assert(mag <= nm) by (nonlinear_arith)
            requires dm >= 1, mag == nm / dm;
    }
    if (n >= 0) == (d >= 0) {
        mag as i64
    } else {
        -(mag as i64)
    }
}

/// Clamps a coordinate into the layout space.
pub fn clamp_coord(v: i64) -> (r: i64)
    ensures
        r == clamp_coord_spec(v as int),
{
    if v < -COORD_LIMIT {
        -COORD_LIMIT
    } else if v > COORD_LIMIT {
        COORD_LIMIT
    } else {
        v
    }
}

pub open spec fn clamp_coord_spec(v: int) -> int {
    if v < -COORD_LIMIT {
        -COORD_LIMIT as int
    } else if v > COORD_LIMIT {
        COORD_LIMIT as int
    } else {
        v
    }
}

} // verus!
