use vstd::prelude::*;

verus! {

/// The value that a write stores for a request of `value` on a device whose
/// maximum is `max`: above the maximum it is the maximum, below zero it is zero.
pub open spec fn clamped(value: int, max: int) -> int {
    if value > max {
        max
    } else if value < 0 {
        0
    } else {
        value
    }
}

/// Clamps a requested raw value into `[0, max]`.
pub fn clamp_level(value: i32, max: i32) -> (r: i32)
    ensures
        r == clamped(value as int, max as int),
{
    if value > max {
        max
    } else if value < 0 {
        0
    } else {
        value
    }
}

pub open spec fn abs(x: int) -> int {
    if x < 0 {
        -x
    } else {
        x
    }
}

/// Division with the quotient truncated toward zero.
pub open spec fn trunc_div(a: int, d: int) -> int {
    let q = abs(a) / abs(d);
    if (a < 0) == (d < 0) {
        q
    } else {
        -q
    }
}

/// `x` brought into the range of `i32`, as a conversion to `i32` saturates.
pub open spec fn saturate_i32(x: int) -> int {
    if x > i32::MAX {
        i32::MAX as int
    } else if x < i32::MIN {
        i32::MIN as int
    } else {
        x
    }
}

/// `100 * (brightness + 1/2) / max`, computed exactly over the rationals,
/// truncated toward zero and saturated to `i32`.
pub open spec fn percent_of(brightness: int, max: int) -> int {
    saturate_i32(trunc_div(100 * (2 * brightness + 1), 2 * max))
}

/// `percent / 100 * max + 1/2`, computed exactly over the rationals,
/// truncated toward zero and saturated to `i32`.
pub open spec fn raw_of_percent(percent: int, max: int) -> int {
    saturate_i32(trunc_div(2 * (percent * max) + 100, 200))
}

fn saturate_i64(x: i64) -> (r: i32)
    ensures
        r == saturate_i32(x as int),
{
    if x > i32::MAX as i64 {
        i32::MAX
    } else if x < i32::MIN as i64 {
        i32::MIN
    } else {
        x as i32
    }
}

/// The percentage that a raw `brightness` stands for on a device whose
/// maximum is `max`.
pub fn percent_level(brightness: i32, max: i32) -> (r: i32)
    requires
        max != 0,
    ensures
        r == percent_of(brightness as int, max as int),
{
    let a: i64 = 100 * (2 * (brightness as i64) + 1);
    let d: i64 = 2 * (max as i64);
    let ua: u64 = if a < 0 { (-a) as u64 } else { a as u64 };
    let ud: u64 = if d < 0 { (-d) as u64 } else { d as u64 };
    let q: u64 = ua / ud;
    let sq: i64 = if (a < 0) == (d < 0) { q as i64 } else { -(q as i64) };
    saturate_i64(sq)
}

/// The raw value that `percent` percent of `max` stands for.
pub fn raw_level(percent: i32, max: i32) -> (r: i32)
    ensures
        r == raw_of_percent(percent as int, max as int),
{
    assert(-4611686018427387904 <= (percent as int) * (max as int) <= 4611686018427387904)
        by (nonlinear_arith)
        requires
            -2147483648 <= percent <= 2147483647,
            -2147483648 <= max <= 2147483647,
    ;
    let pm: i128 = (percent as i128) * (max as i128);
    let a: i128 = 2 * pm + 100;
    let ua: u128 = if a < 0 { (-a) as u128 } else { a as u128 };
    let q: u128 = ua / 200;
    let sq: i128 = if a < 0 { -(q as i128) } else { q as i128 };
    let r: i32 = if sq > i32::MAX as i128 {
        i32::MAX
    } else if sq < i32::MIN as i128 {
        i32::MIN
    } else {
        sq as i32
    };
    r
}

proof fn lemma_trunc_div_monotone(a1: int, a2: int, d: int)
    requires
        a1 <= a2,
        d > 0,
    ensures
        trunc_div(a1, d) <= trunc_div(a2, d),
{
    if a1 >= 0 {
        vstd::arithmetic::div_mod::lemma_div_is_ordered(a1, a2, d);
    } else if a2 < 0 {
        vstd::arithmetic::div_mod::lemma_div_is_ordered(-a2, -a1, d);
    } else {
        vstd::arithmetic::div_mod::lemma_div_pos_is_pos(-a1, d);
        vstd::arithmetic::div_mod::lemma_div_pos_is_pos(a2, d);
    }
}

/// On a device with a positive maximum, a higher raw brightness never
/// reads as a lower percentage.
pub proof fn lemma_percent_monotone(b1: int, b2: int, max: int)
    requires
        b1 <= b2,
        max > 0,
    ensures
        percent_of(b1, max) <= percent_of(b2, max),
{
    lemma_trunc_div_monotone(100 * (2 * b1 + 1), 100 * (2 * b2 + 1), 2 * max);
}

} // verus!
