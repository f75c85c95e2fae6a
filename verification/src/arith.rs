//! Integer helpers shared by the controller: rounding divisions, the integer
//! square root, interpolation, clamping and angle wrapping.

use vstd::prelude::*;

verus! {

/// Half a turn in micro-radians.
pub const HALF_TURN: i32 = 3_141_593;

/// A full turn in micro-radians, twice [`HALF_TURN`].
pub const FULL_TURN: i32 = 6_283_186;

/// `a / b` rounded toward zero, for a positive divisor.
pub open spec fn trunc_div(a: int, b: int) -> int {
    if a >= 0 {
        a / b
    } else {
        -((-a) / b)
    }
}

/// `a / b` rounded away from zero, for a positive divisor.
pub open spec fn away_div(a: int, b: int) -> int {
    if a >= 0 {
        (a + b - 1) / b
    } else {
        -((-a + b - 1) / b)
    }
}

/// `r` is the square root of `n` rounded down.
pub open spec fn is_floor_sqrt(n: nat, r: nat) -> bool {
    r * r <= n < (r + 1) * (r + 1)
}

/// The square root of `n` rounded down.
pub open spec fn floor_sqrt(n: nat) -> nat {
    choose|r: nat| is_floor_sqrt(n, r)
}

/// At most one number is the rounded-down square root of `n`.
pub proof fn lemma_floor_sqrt_unique(n: nat, r1: nat, r2: nat)
    requires
        is_floor_sqrt(n, r1),
        is_floor_sqrt(n, r2),
    ensures
        r1 == r2,
{
    if r1 < r2 {
        assert((r1 + 1) * (r1 + 1) <= r2 * r2) by (nonlinear_arith)
            requires
                r1 + 1 <= r2,
        ;
    } else if r2 < r1 {
        assert((r2 + 1) * (r2 + 1) <= r1 * r1) by (nonlinear_arith)
            requires
                r2 + 1 <= r1,
        ;
    }
}

/// Every natural number has a rounded-down square root, and `floor_sqrt`
/// names it.
pub proof fn lemma_floor_sqrt(n: nat)
    ensures
        is_floor_sqrt(n, floor_sqrt(n)),
    decreases n,
{
    if n == 0 {
        assert(is_floor_sqrt(0, 0)) by (nonlinear_arith);
    } else {
        lemma_floor_sqrt((n - 1) as nat);
        let r = floor_sqrt((n - 1) as nat);
        if (r + 1) * (r + 1) <= n {
            assert((r + 2) * (r + 2) > (r + 1) * (r + 1)) by (nonlinear_arith);
            assert(is_floor_sqrt(n, r + 1));
        } else {
            assert(is_floor_sqrt(n, r));
        }
    }
}

/// A number whose square does not exceed `n` does not exceed `floor_sqrt(n)`.
pub proof fn lemma_floor_sqrt_lower_bound(n: nat, a: nat)
    requires
        a * a <= n,
    ensures
        a <= floor_sqrt(n),
{
    lemma_floor_sqrt(n);
    let r = floor_sqrt(n);
    if a > r {
        assert((r + 1) * (r + 1) <= a * a) by (nonlinear_arith)
            requires
                r + 1 <= a,
        ;
    }
}

/// The square root of `n`, rounded down.
pub fn isqrt(n: u128) -> (r: u64)
    ensures
        r == floor_sqrt(n as nat),
        is_floor_sqrt(n as nat, r as nat),
{
    let mut lo: u128 = 0;
    let mut hi: u128 = 0x1_0000_0000_0000_0000;
    assert(n < hi * hi) by (nonlinear_arith)
        requires
            hi == 0x1_0000_0000_0000_0000u128,
            n <= u128::MAX,
    ;
    while hi - lo > 1
        invariant
            lo < hi <= 0x1_0000_0000_0000_0000,
            lo * lo <= n,
            n < hi * hi,
        decreases hi - lo,
    {
        let mid: u128 = lo + (hi - lo) / 2;
        assert(mid * mid <= u128::MAX) by (nonlinear_arith)
            requires
                mid <= 0xFFFF_FFFF_FFFF_FFFFu128,
        ;
        if mid * mid <= n {
            lo = mid;
        } else {
            hi = mid;
        }
    }
    proof {
        assert(is_floor_sqrt(n as nat, lo as nat));
        lemma_floor_sqrt(n as nat);
        lemma_floor_sqrt_unique(n as nat, lo as nat, floor_sqrt(n as nat));
    }
    lo as u64
}

/// The point `permille` thousandths of the way from `start` to `end`. The
/// step taken is rounded away from zero, so any positive fraction of a
/// non-empty span moves by at least one.
pub open spec fn lerp_spec(start: int, end: int, permille: int) -> int {
    start + away_div((end - start) * permille, 1000)
}

/// An interpolated point lies between its end points, and off the start
/// unless the span or the fraction is zero.
pub proof fn lemma_lerp_between(start: int, end: int, permille: int)
    requires
        0 <= permille <= 1000,
    ensures
        start <= end ==> start <= lerp_spec(start, end, permille) <= end,
        end <= start ==> end <= lerp_spec(start, end, permille) <= start,
        start != end && permille > 0 ==> lerp_spec(start, end, permille) != start,
        permille == 0 ==> lerp_spec(start, end, permille) == start,
        permille == 1000 ==> lerp_spec(start, end, permille) == end,
{
    let d = end - start;
    let span = d * permille;
    if d >= 0 {
        assert(0 <= span <= d * 1000) by (nonlinear_arith)
            requires
                span == d * permille,
                d >= 0,
                0 <= permille <= 1000,
        ;
        assert(d > 0 && permille > 0 ==> span > 0) by (nonlinear_arith)
            requires
                span == d * permille,
        ;
        assert(permille == 0 ==> span == 0) by (nonlinear_arith)
            requires
                span == d * permille,
        ;
    } else {
        assert(d * 1000 <= span <= 0) by (nonlinear_arith)
            requires
                span == d * permille,
                d < 0,
                0 <= permille <= 1000,
        ;
        assert(permille > 0 ==> span < 0) by (nonlinear_arith)
            requires
                span == d * permille,
                d < 0,
        ;
        assert(permille == 0 ==> span == 0) by (nonlinear_arith)
            requires
                span == d * permille,
        ;
    }
}

/// Interpolates from `start` toward `end` by `permille` thousandths.
pub fn lerp(start: i32, end: i32, permille: u16) -> (out: i32)
    requires
        permille <= 1000,
    ensures
        out == lerp_spec(start as int, end as int, permille as int),
{
    proof {
        lemma_lerp_between(start as int, end as int, permille as int);
    }
    let d: i64 = end as i64 - start as i64;
    assert(-4_294_967_295_000 <= d * permille <= 4_294_967_295_000) by (nonlinear_arith)
        requires
            -4_294_967_295 <= d <= 4_294_967_295,
            0 <= permille <= 1000,
    ;
    let span: i64 = d * (permille as i64);
    let step: i64 = if span >= 0 {
        (span + 999) / 1000
    } else {
        -((-span + 999) / 1000)
    };
    (start as i64 + step) as i32
}

/// `value` held to the interval from `low` to `high`.
pub open spec fn clamp_spec(value: int, low: int, high: int) -> int {
    if value < low {
        low
    } else if value > high {
        high
    } else {
        value
    }
}

/// Holds `value` to the interval from `low` to `high`.
pub fn clamp(value: i64, low: i32, high: i32) -> (out: i32)
    requires
        low <= high,
    ensures
        out == clamp_spec(value as int, low as int, high as int),
{
    if value < low as i64 {
        low
    } else if value > high as i64 {
        high
    } else {
        value as i32
    }
}

/// The angle in `(-HALF_TURN, HALF_TURN]` that differs from `angle` by a
/// whole number of turns.
pub open spec fn wrap_angle_spec(angle: int) -> int {
    HALF_TURN - (HALF_TURN - angle) % (FULL_TURN as int)
}

/// Wrapping lands in the half-open turn around zero, changes the angle by
/// whole turns only, and leaves an angle that is already there alone.
pub proof fn lemma_wrap_angle(angle: int)
    ensures
        -HALF_TURN < wrap_angle_spec(angle) <= HALF_TURN,
        (wrap_angle_spec(angle) - angle) % (FULL_TURN as int) == 0,
        -HALF_TURN < angle <= HALF_TURN ==> wrap_angle_spec(angle) == angle,
{
    let t = HALF_TURN - angle;
    let q = t / (FULL_TURN as int);
    assert(t == q * FULL_TURN + t % (FULL_TURN as int)) by (nonlinear_arith)
        requires
            q == t / (FULL_TURN as int),
            FULL_TURN == 6_283_186,
    ;
    assert(wrap_angle_spec(angle) - angle == q * FULL_TURN);
    assert((q * FULL_TURN) % (FULL_TURN as int) == 0) by (nonlinear_arith)
        requires
            FULL_TURN == 6_283_186,
    ;
}

/// Brings `angle` into `(-HALF_TURN, HALF_TURN]` by whole turns.
pub fn wrap_angle(angle: i64) -> (out: i32)
    ensures
        out == wrap_angle_spec(angle as int),
{
    let t: i128 = HALF_TURN as i128 - angle as i128;
    let rem: i128 = t % (FULL_TURN as i128);
    let m: i128 = if rem < 0 {
        rem + FULL_TURN as i128
    } else {
        rem
    };
    (HALF_TURN as i128 - m) as i32
}

} // verus!
