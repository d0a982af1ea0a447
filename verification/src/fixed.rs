//! Integer arithmetic for positions, headings and timestamps.
//!
//! Positions are whole coordinate units, headings are whole micro-degrees and
//! timestamps are whole microseconds. Nothing here rounds through a binary
//! fraction: a blend between two samples is the exact rational value, cut
//! toward zero, and clamped to the range of the result type.

use vstd::prelude::*;

verus! {

/// Half a turn, in micro-degrees.
pub const HALF_TURN: i32 = 180_000_000;

/// A full turn, in micro-degrees.
pub const FULL_TURN: i32 = 360_000_000;

/// A quarter of a turn, in micro-degrees.
pub const QUARTER_TURN: i32 = 90_000_000;

/// The distance of `v` from zero.
pub open spec fn magnitude(v: int) -> int {
    if v < 0 {
        -v
    } else {
        v
    }
}

/// `v` limited to the range of `i32`.
pub open spec fn clamp_i32(v: int) -> i32 {
    if v < i32::MIN {
        i32::MIN
    } else if v > i32::MAX {
        i32::MAX
    } else {
        v as i32
    }
}

/// `v` limited to the range of `i64`.
pub open spec fn clamp_i64(v: int) -> i64 {
    if v < i64::MIN {
        i64::MIN
    } else if v > i64::MAX {
        i64::MAX
    } else {
        v as i64
    }
}

/// `v` limited to the range of `u64`.
pub open spec fn clamp_u64(v: int) -> u64 {
    if v < 0 {
        0
    } else if v > u64::MAX {
        u64::MAX
    } else {
        v as u64
    }
}

/// `v` limited to the range of `u32`.
pub open spec fn clamp_u32(v: int) -> u32 {
    if v < 0 {
        0
    } else if v > u32::MAX {
        u32::MAX
    } else {
        v as u32
    }
}

/// The sign flip of a coordinate. The one value without a positive
/// counterpart maps to the largest coordinate.
pub open spec fn negated(v: i32) -> i32 {
    clamp_i32(-(v as int))
}

/// The quotient `x / d` cut toward zero, for `d != 0`.
pub open spec fn div_toward_zero(x: int, d: int) -> int {
    if (x < 0) == (d < 0) {
        magnitude(x) / magnitude(d)
    } else {
        -(magnitude(x) / magnitude(d))
    }
}

/// The part of `delta` covered after `num` of `den` steps, for `den != 0`.
pub open spec fn scaled(delta: int, num: int, den: int) -> int {
    div_toward_zero(delta * num, den)
}

/// The value `num / den` of the way from `a` to `b`. Where the two ends
/// coincide in time (`den == 0`) the later value `b` stands.
pub open spec fn lerp(a: int, b: int, num: int, den: int) -> int {
    if den == 0 {
        b
    } else {
        a + scaled(b - a, num, den)
    }
}

/// The difference `d` between two headings, brought into
/// `[-HALF_TURN, HALF_TURN)` by whole turns.
pub open spec fn wrapped_turn(d: int) -> int {
    (d + HALF_TURN) % (FULL_TURN as int) - HALF_TURN
}

/// The heading `num / den` of the way from `a` to `b` along the shorter arc.
pub open spec fn lerp_heading(a: int, b: int, num: int, den: int) -> int {
    if den == 0 {
        b
    } else {
        a + scaled(wrapped_turn(b - a), num, den)
    }
}

/// A signed amount given as a direction and a size.
pub open spec fn signed(negative: bool, size: int) -> int {
    if negative {
        -size
    } else {
        size
    }
}

/// The scaled share by direction and size: its size is the product of the
/// sizes of change and steps over the size of the span, cut off, and it
/// points backwards exactly when an odd number of the three do.
pub proof fn lemma_scaled_by_parts(delta: int, num: int, den: int)
    requires
        den != 0,
    ensures
        scaled(delta, num, den) == signed(
            ((delta < 0) != (num < 0)) != (den < 0),
            (magnitude(delta) * magnitude(num)) / magnitude(den),
        ),
{
    let x = delta * num;
    assert(magnitude(x) == magnitude(delta) * magnitude(num)) by (nonlinear_arith)
        requires
            x == delta * num,
    ;
    assert((x < 0) ==> ((delta < 0) != (num < 0))) by (nonlinear_arith)
        requires
            x == delta * num,
    ;
    assert((x > 0) ==> ((delta < 0) == (num < 0))) by (nonlinear_arith)
        requires
            x == delta * num,
    ;
    if x == 0 {
        assert(magnitude(x) / magnitude(den) == 0);
    }
}

/// At the start of the span the blend is the first value.
pub proof fn lemma_lerp_at_start(a: int, b: int, den: int)
    requires
        den != 0,
    ensures
        lerp(a, b, 0, den) == a,
{
    assert((b - a) * 0 == 0);
    assert(0int / magnitude(den) == 0);
}

/// At the end of the span the blend is the second value.
pub proof fn lemma_lerp_at_end(a: int, b: int, den: int)
    requires
        den != 0,
    ensures
        lerp(a, b, den, den) == b,
{
    let x = (b - a) * den;
    lemma_scaled_by_parts(b - a, den, den);
    assert((magnitude(b - a) * magnitude(den)) / magnitude(den) == magnitude(b - a))
        by (nonlinear_arith)
        requires
            magnitude(den) > 0,
    ;
}

/// A wrapped difference lies within half a turn of zero and differs from the
/// plain difference by whole turns only.
pub proof fn lemma_wrapped_turn_range(d: int)
    ensures
        -HALF_TURN <= wrapped_turn(d) < HALF_TURN,
        (wrapped_turn(d) - d) % (FULL_TURN as int) == 0,
{
    let m = (d + HALF_TURN) % (FULL_TURN as int);
    let q = (d + HALF_TURN) / (FULL_TURN as int);
    assert(d + HALF_TURN == q * FULL_TURN + m) by (nonlinear_arith)
        requires
            m == (d + HALF_TURN) % (FULL_TURN as int),
            q == (d + HALF_TURN) / (FULL_TURN as int),
    ;
    assert(wrapped_turn(d) - d == (-q) * FULL_TURN);
    assert(((-q) * FULL_TURN) % (FULL_TURN as int) == 0) by (nonlinear_arith);
}

/// Flips the sign of a coordinate.
pub fn negate(v: i32) -> (r: i32)
    ensures
        r == negated(v),
{
    if v == i32::MIN {
        i32::MAX
    } else {
        -v
    }
}

/// Turns a heading back by a quarter turn, stopping at the lowest heading
/// the type can hold.
pub fn quarter_turn_back(phi: i32) -> (r: i32)
    ensures
        r == clamp_i32(phi - QUARTER_TURN),
{
    if phi < i32::MIN + QUARTER_TURN {
        i32::MIN
    } else {
        phi - QUARTER_TURN
    }
}

/// The distance between two instants and whether the first lies before the
/// second.
fn time_parts(at: u64, from: u64) -> (r: (bool, u64))
    ensures
        r.0 == (at < from),
        r.1 == magnitude(at - from),
{
    if at < from {
        (true, from - at)
    } else {
        (false, at - from)
    }
}

/// The scaled share of a change of size `delta_abs` and direction
/// `delta_neg`, at instant `now` of the span from `start` to `end`.
fn scale(delta_neg: bool, delta_abs: u64, now: u64, start: u64, end: u64) -> (r: (bool, u128))
    requires
        start != end,
    ensures
        signed(r.0, r.1 as int) == scaled(
            signed(delta_neg, delta_abs as int),
            now - start,
            end - start,
        ),
{
    let (num_neg, num_abs) = time_parts(now, start);
    let (den_neg, den_abs) = time_parts(end, start);
    let wide_delta: u128 = delta_abs as u128;
    let wide_num: u128 = num_abs as u128;
    assert(wide_delta * wide_num <= 0xffff_ffff_ffff_ffff * 0xffff_ffff_ffff_ffff)
        by (nonlinear_arith)
        requires
            0 <= wide_delta <= 0xffff_ffff_ffff_ffff,
            0 <= wide_num <= 0xffff_ffff_ffff_ffff,
    ;
    let size: u128 = (wide_delta * wide_num) / (den_abs as u128);
    let negative: bool = (delta_neg ^ num_neg) ^ den_neg;
    proof {
        let delta = signed(delta_neg, delta_abs as int);
        lemma_scaled_by_parts(delta, now - start, end - start);
        if delta_abs == 0 {
            assert(wide_delta * wide_num == 0) by (nonlinear_arith)
                requires
                    wide_delta == 0,
            ;
            assert(size == 0);
            assert(magnitude(delta) * magnitude(now - start) == 0) by (nonlinear_arith)
                requires
                    magnitude(delta) == 0,
            ;
        }
    }
    (negative, size)
}

/// `base` moved by a signed amount, limited to `[low, high]`.
fn offset_within(base: i128, negative: bool, size: u128, low: i128, high: i128) -> (r: i128)
    requires
        low <= base <= high,
        -0x1_0000_0000_0000_0000 <= low,
        high <= 0x1_0000_0000_0000_0000,
    ensures
        low <= r <= high,
        r == {
            let v = base + signed(negative, size as int);
            if v < low {
                low as int
            } else if v > high {
                high as int
            } else {
                v
            }
        },
{
    if size > 0x2_0000_0000_0000_0000 {
        if negative {
            low
        } else {
            high
        }
    } else {
        let step: i128 = size as i128;
        let v: i128 = if negative {
            base - step
        } else {
            base + step
        };
        if v < low {
            low
        } else if v > high {
            high
        } else {
            v
        }
    }
}

/// The direction and size of the step from `a` to `b`.
fn step_parts(a: i128, b: i128) -> (r: (bool, u64))
    requires
        -0x8000_0000_0000_0000 <= a <= 0xffff_ffff_ffff_ffff,
        -0x8000_0000_0000_0000 <= b <= 0xffff_ffff_ffff_ffff,
        magnitude(b - a) <= 0xffff_ffff_ffff_ffff,
    ensures
        signed(r.0, r.1 as int) == b - a,
{
    if b < a {
        (true, (a - b) as u64)
    } else {
        (false, (b - a) as u64)
    }
}

/// Blends two coordinates at instant `now` of the span from `start` to
/// `end`.
pub fn lerp_coordinate(a: i32, b: i32, now: u64, start: u64, end: u64) -> (r: i32)
    ensures
        r == clamp_i32(lerp(a as int, b as int, now - start, end - start)),
{
    if start == end {
        return b;
    }
    let (delta_neg, delta_abs) = step_parts(a as i128, b as i128);
    let (negative, size) = scale(delta_neg, delta_abs, now, start, end);
    let v = offset_within(a as i128, negative, size, i32::MIN as i128, i32::MAX as i128);
    v as i32
}

/// Blends two timestamps at instant `now` of the span from `start` to `end`.
pub fn lerp_timestamp(a: u64, b: u64, now: u64, start: u64, end: u64) -> (r: u64)
    ensures
        r == clamp_u64(lerp(a as int, b as int, now - start, end - start)),
{
    if start == end {
        return b;
    }
    let (delta_neg, delta_abs) = step_parts(a as i128, b as i128);
    let (negative, size) = scale(delta_neg, delta_abs, now, start, end);
    let v = offset_within(a as i128, negative, size, 0, u64::MAX as i128);
    v as u64
}

/// The shorter signed arc from heading `a` to heading `b`.
pub fn heading_step(a: i32, b: i32) -> (r: i32)
    ensures
        r == wrapped_turn(b - a),
{
    let shifted: i64 = (b as i64 - a as i64) + HALF_TURN as i64;
    let cut: i64 = shifted % (FULL_TURN as i64);
    let within: i64 = if cut < 0 {
        cut + FULL_TURN as i64
    } else {
        cut
    };
    assert(within == (shifted as int) % 360_000_000);
    (within - HALF_TURN as i64) as i32
}

/// Blends two headings along the shorter arc at instant `now` of the span
/// from `start` to `end`.
pub fn lerp_heading_value(a: i32, b: i32, now: u64, start: u64, end: u64) -> (r: i32)
    ensures
        r == clamp_i32(lerp_heading(a as int, b as int, now - start, end - start)),
{
    if start == end {
        return b;
    }
    let arc = heading_step(a, b);
    let (delta_neg, delta_abs) = step_parts(0, arc as i128);
    let (negative, size) = scale(delta_neg, delta_abs, now, start, end);
    let v = offset_within(a as i128, negative, size, i32::MIN as i128, i32::MAX as i128);
    v as i32
}

/// Limits a wide signed value to `i64`.
pub fn clamp_to_i64(v: i128) -> (r: i64)
    ensures
        r == clamp_i64(v as int),
{
    if v < i64::MIN as i128 {
        i64::MIN
    } else if v > i64::MAX as i128 {
        i64::MAX
    } else {
        v as i64
    }
}

/// Limits a wide signed value to `u64`.
pub fn clamp_to_u64(v: i128) -> (r: u64)
    ensures
        r == clamp_u64(v as int),
{
    if v < 0 {
        0
    } else if v > u64::MAX as i128 {
        u64::MAX
    } else {
        v as u64
    }
}

/// Limits a wide count to `u64`: a count that 64 bits do not hold stands at
/// the largest value.
pub fn saturate_to_u64(v: u128) -> (r: u64)
    ensures
        r == clamp_u64(v as int),
{
    if v > u64::MAX as u128 {
        u64::MAX
    } else {
        v as u64
    }
}

} // verus!
