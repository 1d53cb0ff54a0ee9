//! Geometry helpers shared by sensing and interaction: integer square root,
//! truncating division, clamping, boundary wrap, and the angle/distance
//! computation for sighting events.

use vstd::prelude::*;

use crate::units::MICRO;

verus! {

/// A 2D vector in micro-units.
#[derive(Clone, Copy, Debug, PartialEq, Eq, Structural)]
pub struct Vec2 {
    /// Horizontal component, micro-units.
    pub x: i64,
    /// Vertical component, micro-units.
    pub y: i64,
}

/// Largest coordinate magnitude a position may carry (20 000 world units).
pub const POS_LIMIT: i64 = 20_000_000_000;

/// Largest component magnitude a heading vector may carry (2 world units;
/// the engine hands over unit vectors, so this is a comfortable margin).
pub const HEAD_LIMIT: i64 = 2_000_000;

/// Largest body radius (1 000 world units).
pub const RADIUS_LIMIT: i64 = 1_000_000_000;

/// World half-width: positions beyond this are wrapped to the opposite side.
pub const WORLD_BOUND: i64 = 7_000_000_000;

/// Whether both components of `v` are within `lim` in magnitude.
pub open spec fn in_box(v: Vec2, lim: int) -> bool {
    -lim <= v.x <= lim && -lim <= v.y <= lim
}

/// Truncating (round-toward-zero) division, the semantics of Rust's `/`
/// on machine integers. Defined for positive divisors.
pub open spec fn tdiv(a: int, b: int) -> int {
    if a >= 0 {
        a / b
    } else {
        -((-a) / b)
    }
}

/// Clamp `x` into `[lo, hi]`.
pub open spec fn clamp_i(x: int, lo: int, hi: int) -> int {
    if x < lo {
        lo
    } else if x > hi {
        hi
    } else {
        x
    }
}

/// Floor of the mathematical square root.
pub open spec fn sqrt_floor(n: nat) -> nat
    decreases n,
{
    if n == 0 {
        0
    } else {
        let r = sqrt_floor((n - 1) as nat);
        if (r + 1) * (r + 1) <= n {
            r + 1
        } else {
            r
        }
    }
}

/// `sqrt_floor(n)` is the unique `r` with `r * r <= n < (r + 1) * (r + 1)`.
pub proof fn lemma_sqrt_floor_bounds(n: nat)
    ensures
        sqrt_floor(n) * sqrt_floor(n) <= n,
        n < (sqrt_floor(n) + 1) * (sqrt_floor(n) + 1),
    decreases n,
{
    if n == 0 {
        assert(sqrt_floor(0) == 0);
        assert(n < (sqrt_floor(n) + 1) * (sqrt_floor(n) + 1)) by (nonlinear_arith)
            requires
                n == 0,
                sqrt_floor(n) == 0,
        ;
    } else {
        lemma_sqrt_floor_bounds((n - 1) as nat);
        let r = sqrt_floor((n - 1) as nat);
        if (r + 1) * (r + 1) <= n {
            assert(sqrt_floor(n) == r + 1);
            assert(n < (r + 1 + 1) * (r + 1 + 1)) by (nonlinear_arith)
                requires
                    r >= 0,
                    n - 1 < (r + 1) * (r + 1),
            ;
            assert(n < (sqrt_floor(n) + 1) * (sqrt_floor(n) + 1));
        } else {
            assert(sqrt_floor(n) == r);
            assert(r * r <= n - 1 < n);
            assert(n < (sqrt_floor(n) + 1) * (sqrt_floor(n) + 1));
        }
    }
}

/// Any `r` within the square-root bracket of `n` equals `sqrt_floor(n)`.
pub proof fn lemma_sqrt_floor_unique(n: nat, r: nat)
    requires
        r * r <= n,
        n < (r + 1) * (r + 1),
    ensures
        r == sqrt_floor(n),
{
    lemma_sqrt_floor_bounds(n);
    let s = sqrt_floor(n);
    assert(r == s) by (nonlinear_arith)
        requires
            r * r <= n,
            n < (r + 1) * (r + 1),
            s * s <= n,
            n < (s + 1) * (s + 1),
    ;
}

/// Integer square root by bisection.
pub fn isqrt(n: u128) -> (r: u64)
    ensures
        r as nat == sqrt_floor(n as nat),
{
    let mut lo: u128 = 0;
    let mut hi: u128 = 0x1_0000_0000_0000_0000;
    proof {
        assert((0x1_0000_0000_0000_0000 as int) * (0x1_0000_0000_0000_0000 as int) > u128::MAX as int)
            by (nonlinear_arith);
    }
    while lo + 1 < hi
        invariant
            lo < hi <= 0x1_0000_0000_0000_0000u128,
            (lo as int) * (lo as int) <= n as int,
            (hi as int) * (hi as int) > n as int,
        decreases hi - lo,
    {
        let mid: u128 = lo + (hi - lo) / 2;
        proof {
            assert(lo < mid < hi);
            assert((mid as int) * (mid as int) <= (0xffff_ffff_ffff_ffffu128 as int) * (
            0xffff_ffff_ffff_ffffu128 as int)) by (nonlinear_arith)
                requires
                    0 <= mid <= 0xffff_ffff_ffff_ffffu128,
            ;
        }
        if mid * mid <= n {
            lo = mid;
        } else {
            hi = mid;
        }
    }
    proof {
        lemma_sqrt_floor_unique(n as nat, lo as nat);
    }
    lo as u64
}

/// Truncating division of a 128-bit value by a positive divisor.
pub fn tdiv128(a: i128, b: i128) -> (r: i128)
    requires
        b > 0,
        a > i128::MIN,
    ensures
        r as int == tdiv(a as int, b as int),
        (if r >= 0 { r as int } else { -(r as int) }) <= (if a >= 0 { a as int } else { -(a as int) }),
{
    if a >= 0 {
        let q: u128 = (a as u128) / (b as u128);
        q as i128
    } else {
        let m: u128 = (-a) as u128;
        let q: u128 = m / (b as u128);
        -(q as i128)
    }
}

/// Clamp an `i64` into `[lo, hi]`.
pub fn clamp64(x: i64, lo: i64, hi: i64) -> (r: i64)
    requires
        lo <= hi,
    ensures
        r as int == clamp_i(x as int, lo as int, hi as int),
{
    if x < lo {
        lo
    } else if x > hi {
        hi
    } else {
        x
    }
}

/// Half a turn in micro-turns: the two ends of the signed viewing angle.
pub const HALF_TURN: i64 = 500_000;

/// The circle constant in micro-radians.
pub const PI_MICRO: i64 = 3_141_593;

/// Constant term of the arc-cosine polynomial (micro-radians).
pub const ACOS_C0: i64 = 1_570_729;

/// Linear coefficient of the arc-cosine polynomial.
pub const ACOS_C1: i64 = 212_114;

/// Quadratic coefficient of the arc-cosine polynomial.
pub const ACOS_C2: i64 = 74_261;

/// Cubic coefficient of the arc-cosine polynomial.
pub const ACOS_C3: i64 = 18_729;

/// Componentwise difference `a - b`, as stored vectors.
pub open spec fn vdiff(a: Vec2, b: Vec2) -> Vec2 {
    Vec2 { x: (a.x - b.x) as i64, y: (a.y - b.y) as i64 }
}

/// Dot product of two vectors.
pub open spec fn dot2(a: Vec2, b: Vec2) -> int {
    a.x * b.x + a.y * b.y
}

/// Squared Euclidean length.
pub open spec fn norm2(v: Vec2) -> int {
    v.x * v.x + v.y * v.y
}

/// Euclidean length, rounded down.
pub open spec fn vlen(v: Vec2) -> int {
    sqrt_floor(norm2(v) as nat) as int
}

/// A squared length is never negative.
pub proof fn lemma_norm2_nonneg(v: Vec2)
    ensures
        norm2(v) >= 0,
{
    assert(v.x * v.x + v.y * v.y >= 0) by (nonlinear_arith);
}

/// Arc cosine of `c` (micro-scaled, `0 <= c <= MICRO`) mapped to micro-turns
/// and shifted down half a turn: `acos(c)/pi - 1/2`, approximated with a
/// square-root-damped cubic polynomial in fixed point.
pub open spec fn acos_turns_nonneg(c: int) -> int {
    let m = MICRO as int;
    let s = sqrt_floor(((m - c) * m) as nat) as int;
    let p = ACOS_C0 - tdiv(ACOS_C1 * c, m) + tdiv(tdiv(ACOS_C2 * c, m) * c, m) - tdiv(
        tdiv(tdiv(ACOS_C3 * c, m) * c, m) * c,
        m,
    );
    tdiv(tdiv(s * p, m) * m, PI_MICRO as int) - HALF_TURN as int
}

/// Signed viewing angle in micro-turns for a micro-scaled cosine `c`:
/// `acos(c)/pi - 1/2`, extended to negative `c` by odd symmetry.
pub open spec fn angle_turns(c: int) -> int {
    if c >= 0 {
        acos_turns_nonneg(c)
    } else {
        -acos_turns_nonneg(-c)
    }
}

/// Viewing angle between a heading and a direction vector; zero when either
/// vector is degenerate (zero length).
pub open spec fn sense_angle(h: Vec2, d: Vec2) -> int {
    if norm2(h) == 0 || norm2(d) == 0 {
        0
    } else {
        angle_turns(
            clamp_i(
                tdiv(dot2(h, d) * (MICRO as int), vlen(h) * vlen(d)),
                -(MICRO as int),
                MICRO as int,
            ),
        )
    }
}

/// Distance from an observer to a sighted body, normalised by twice the
/// observer's body radius, in micro-units.
pub open spec fn sense_dist(diff: Vec2, radius: int) -> int {
    tdiv(vlen(diff) * (MICRO as int), 2 * radius)
}

/// For a non-negative numerator bounded by `cbound * b`, the quotient stays
/// within `[0, cbound]`.
pub proof fn lemma_div_bound(a: int, cbound: int, b: int)
    requires
        0 <= a,
        a <= cbound * b,
        b > 0,
        0 <= cbound,
    ensures
        0 <= a / b <= cbound,
{
    vstd::arithmetic::div_mod::lemma_div_is_ordered(a, cbound * b, b);
    vstd::arithmetic::div_mod::lemma_div_by_multiple(cbound, b);
    vstd::arithmetic::div_mod::lemma_div_pos_is_pos(a, b);
}

/// Executable arc cosine in micro-turns for a non-negative micro-cosine.
fn acos_exec(c: i64) -> (r: i64)
    requires
        0 <= c <= MICRO,
    ensures
        r as int == acos_turns_nonneg(c as int),
        -HALF_TURN <= r <= 0,
        c == MICRO ==> r == -HALF_TURN,
{
    let m: i128 = MICRO as i128;
    let su: u64 = isqrt((((MICRO - c) as i128 * m) as u128));
    proof {
        let sq = (MICRO - c) as int * MICRO as int;
        lemma_sqrt_floor_bounds(sq as nat);
        assert(0 <= sq <= MICRO as int * MICRO as int) by (nonlinear_arith)
            requires
                0 <= c <= MICRO,
                sq == (MICRO - c) as int * MICRO as int,
        ;
        assert(sqrt_floor(sq as nat) <= MICRO) by (nonlinear_arith)
            requires
                sqrt_floor(sq as nat) * sqrt_floor(sq as nat) <= sq,
                sq <= MICRO as int * MICRO as int,
                MICRO > 0,
        ;
    }
    let s: i128 = su as i128;
    let t1: i128 = tdiv128(ACOS_C1 as i128 * c as i128, m);
    proof {
        assert(ACOS_C1 as int * c as int <= ACOS_C1 as int * MICRO as int) by (nonlinear_arith)
            requires
                0 <= c <= MICRO,
        ;
        lemma_div_bound(ACOS_C1 as int * c as int, ACOS_C1 as int, MICRO as int);
    }
    let t2a: i128 = tdiv128(ACOS_C2 as i128 * c as i128, m);
    proof {
        assert(ACOS_C2 as int * c as int <= ACOS_C2 as int * MICRO as int) by (nonlinear_arith)
            requires
                0 <= c <= MICRO,
        ;
        lemma_div_bound(ACOS_C2 as int * c as int, ACOS_C2 as int, MICRO as int);
        assert(0 <= t2a * (c as int) <= t2a * (MICRO as int)) by (nonlinear_arith)
            requires
                0 <= t2a,
                0 <= c <= MICRO,
        ;
    }
    let t2: i128 = tdiv128(t2a * c as i128, m);
    proof {
        lemma_div_bound(t2a as int * c as int, t2a as int, MICRO as int);
    }
    let t3a: i128 = tdiv128(ACOS_C3 as i128 * c as i128, m);
    proof {
        assert(ACOS_C3 as int * c as int <= ACOS_C3 as int * MICRO as int) by (nonlinear_arith)
            requires
                0 <= c <= MICRO,
        ;
        lemma_div_bound(ACOS_C3 as int * c as int, ACOS_C3 as int, MICRO as int);
        assert(0 <= t3a * (c as int) <= t3a * (MICRO as int)) by (nonlinear_arith)
            requires
                0 <= t3a,
                0 <= c <= MICRO,
        ;
    }
    let t3b: i128 = tdiv128(t3a * c as i128, m);
    proof {
        lemma_div_bound(t3a as int * c as int, t3a as int, MICRO as int);
        assert(0 <= t3b * (c as int) <= t3b * (MICRO as int)) by (nonlinear_arith)
            requires
                0 <= t3b,
                0 <= c <= MICRO,
        ;
    }
    let t3: i128 = tdiv128(t3b * c as i128, m);
    proof {
        lemma_div_bound(t3b as int * c as int, t3b as int, MICRO as int);
        // The quadratic correction never exceeds the linear term it offsets.
        assert(ACOS_C2 as int * c as int <= ACOS_C1 as int * c as int) by (nonlinear_arith)
            requires
                0 <= c,
        ;
        vstd::arithmetic::div_mod::lemma_div_is_ordered(
            ACOS_C2 as int * c as int,
            ACOS_C1 as int * c as int,
            MICRO as int,
        );
        assert(t2 <= t2a);
    }
    let p: i128 = ACOS_C0 as i128 - t1 + t2 - t3;
    proof {
        assert(0 < p <= ACOS_C0 as int);
    }
    proof {
        assert(0 <= s * p <= ACOS_C0 as int * MICRO as int) by (nonlinear_arith)
            requires
                0 <= s <= MICRO,
                0 <= p <= ACOS_C0,
        ;
    }
    let q1: i128 = tdiv128(s * p, m);
    proof {
        lemma_div_bound(s as int * p as int, ACOS_C0 as int, MICRO as int);
    }
    proof {
        assert(0 <= q1 * (MICRO as int) <= ACOS_C0 as int * MICRO as int) by (nonlinear_arith)
            requires
                0 <= q1 <= ACOS_C0,
        ;
    }
    let q2: i128 = tdiv128(q1 * m, PI_MICRO as i128);
    proof {
        assert(ACOS_C0 as int * MICRO as int <= HALF_TURN as int * PI_MICRO as int)
            by (nonlinear_arith);
        vstd::arithmetic::div_mod::lemma_div_is_ordered(
            q1 as int * MICRO as int,
            ACOS_C0 as int * MICRO as int,
            PI_MICRO as int,
        );
        lemma_div_bound(ACOS_C0 as int * MICRO as int, HALF_TURN as int, PI_MICRO as int);
        vstd::arithmetic::div_mod::lemma_div_pos_is_pos(q1 as int * MICRO as int, PI_MICRO as int);
    }
    proof {
        if c == MICRO {
            assert(s == 0);
            assert(s * p == 0) by (nonlinear_arith)
                requires
                    s == 0,
            ;
            vstd::arithmetic::div_mod::lemma_div_of0(MICRO as int);
            vstd::arithmetic::div_mod::lemma_div_of0(PI_MICRO as int);
        }
    }
    (q2 - HALF_TURN as i128) as i64
}

/// Executable signed viewing angle for a clamped micro-cosine.
pub fn angle_from_cos(c: i64) -> (r: i64)
    requires
        -MICRO <= c <= MICRO,
    ensures
        r as int == angle_turns(c as int),
        -HALF_TURN <= r <= HALF_TURN,
        c == MICRO ==> r == -HALF_TURN,
        c == -MICRO ==> r == HALF_TURN,
{
    if c >= 0 {
        acos_exec(c)
    } else {
        -acos_exec(-c)
    }
}

/// Executable Euclidean length, rounded down. Accepts any vector whose
/// components fit twice the position limit, so differences of two in-world
/// positions are always in range.
pub fn vlen_exec(v: Vec2) -> (r: i64)
    requires
        in_box(v, 2 * POS_LIMIT as int),
    ensures
        r as int == vlen(v),
        0 <= r <= 3 * POS_LIMIT as int,
{
    proof {
        lemma_norm2_nonneg(v);
        assert(0 <= v.x * v.x <= 1_600_000_000_000_000_000_000 && 0 <= v.y * v.y
            <= 1_600_000_000_000_000_000_000) by (nonlinear_arith)
            requires
                -40_000_000_000 <= v.x <= 40_000_000_000,
                -40_000_000_000 <= v.y <= 40_000_000_000,
        ;
    }
    let n2: u128 = (v.x as i128 * v.x as i128 + v.y as i128 * v.y as i128) as u128;
    let r64: u64 = isqrt(n2);
    proof {
        lemma_sqrt_floor_bounds(n2 as nat);
        assert(sqrt_floor(n2 as nat) <= 60_000_000_000) by (nonlinear_arith)
            requires
                sqrt_floor(n2 as nat) * sqrt_floor(n2 as nat) <= n2,
                n2 <= 3_200_000_000_000_000_000_000,
        ;
    }
    r64 as i64
}

/// The force vector an agent's chosen linear force magnitude makes along
/// its heading, for the engine to apply: `f * heading / MICRO`.
pub fn force_vector(f: i64, heading: Vec2) -> (r: Vec2)
    requires
        -20_000_000 <= f <= 20_000_000,
        in_box(heading, HEAD_LIMIT as int),
    ensures
        r.x as int == tdiv(f * heading.x, MICRO as int),
        r.y as int == tdiv(f * heading.y, MICRO as int),
{
    proof {
        assert(-40_000_000_000_000 <= f * heading.x <= 40_000_000_000_000 && -40_000_000_000_000
            <= f * heading.y <= 40_000_000_000_000) by (nonlinear_arith)
            requires
                -20_000_000 <= f <= 20_000_000,
                -2_000_000 <= heading.x <= 2_000_000,
                -2_000_000 <= heading.y <= 2_000_000,
        ;
    }
    let x: i64 = tdiv128(f as i128 * heading.x as i128, MICRO as i128) as i64;
    let y: i64 = tdiv128(f as i128 * heading.y as i128, MICRO as i128) as i64;
    Vec2 { x, y }
}

/// Hard teleport to the opposite side once a coordinate leaves the world.
pub open spec fn wrap_coord(x: int) -> int {
    if x > WORLD_BOUND as int {
        -(WORLD_BOUND as int)
    } else if x < -(WORLD_BOUND as int) {
        WORLD_BOUND as int
    } else {
        x
    }
}

/// Executable boundary wrap of one coordinate.
pub fn wrap_coord_exec(x: i64) -> (r: i64)
    ensures
        r as int == wrap_coord(x as int),
{
    if x > WORLD_BOUND {
        -WORLD_BOUND
    } else if x < -WORLD_BOUND {
        WORLD_BOUND
    } else {
        x
    }
}

} // verus!
