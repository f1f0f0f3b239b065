//! Blending between two numbers.

use vstd::prelude::*;

verus! {

/// The weight that stands for the whole: weights are counted in millionths.
pub const WEIGHT_FULL: u32 = 1_000_000;

/// The number that lies `t` millionths of the way from `a` to `b`, rounded
/// down.
pub open spec fn spec_lerp(a: int, b: int, t: int) -> int {
    (a * (WEIGHT_FULL - t) + b * t) / (WEIGHT_FULL as int)
}

/// Linearly interpolates between `a` and `b`: the number that lies `t`
/// millionths of the way from `a` to `b`, rounded down. It starts at `a`, ends
/// at `b` and never leaves the range between them.
pub fn lerp(a: i64, b: i64, t: u32) -> (r: i64)
    requires
        t <= WEIGHT_FULL,
    ensures
        r == spec_lerp(a as int, b as int, t as int),
        a <= b ==> a <= r <= b,
        b <= a ==> b <= r <= a,
        t == 0 ==> r == a,
        t == WEIGHT_FULL ==> r == b,
{
    let full: i128 = WEIGHT_FULL as i128;
    let t: i128 = t as i128;
    assert(-0x8000_0000_0000_0000 * full <= a * (full - t) <= 0x8000_0000_0000_0000 * full
        && -0x8000_0000_0000_0000 * full <= b * t <= 0x8000_0000_0000_0000 * full)
        by (nonlinear_arith)
        requires
            -0x8000_0000_0000_0000 <= a < 0x8000_0000_0000_0000,
            -0x8000_0000_0000_0000 <= b < 0x8000_0000_0000_0000,
            0 <= t <= full,
            full == 1_000_000,
    ;
    let num: i128 = (a as i128) * (full - t) + (b as i128) * t;
    proof {
        lemma_lerp_between(a as int, b as int, t as int);
    }
    let q: i128 = if num >= 0 {
        num / full
    } else {
        let up: i128 = (-num + full - 1) / full;
        proof {
            lemma_floor_of_negative(num as int, full as int);
        }
        -up
    };
    q as i64
}

/// Rounding a negative quotient down is rounding its opposite up.
proof fn lemma_floor_of_negative(num: int, d: int)
    requires
        num < 0,
        d > 0,
    ensures
        num / d == -((-num + d - 1) / d),
{
    let up = (-num + d - 1) / d;
    vstd::arithmetic::div_mod::lemma_fundamental_div_mod(-num + d - 1, d);
    vstd::arithmetic::div_mod::lemma_mod_bound(-num + d - 1, d);
    let r = (-num + d - 1) % d;
    // -num + d - 1 == d * up + r, so num == d * (-up) + (d - 1 - r)
    assert(d * (-up) == -(d * up)) by (nonlinear_arith);
    vstd::arithmetic::div_mod::lemma_fundamental_div_mod_converse(num, d, -up, d - 1 - r);
}

/// A blend of two numbers lies between them, and at the ends of the range of
/// weights it is the one and the other.
pub proof fn lemma_lerp_between(a: int, b: int, t: int)
    requires
        0 <= t <= WEIGHT_FULL,
    ensures
        a <= b ==> a <= spec_lerp(a, b, t) <= b,
        b <= a ==> b <= spec_lerp(a, b, t) <= a,
        spec_lerp(a, b, 0) == a,
        spec_lerp(a, b, WEIGHT_FULL as int) == b,
{
    let full = WEIGHT_FULL as int;
    let num = a * (full - t) + b * t;
    vstd::arithmetic::div_mod::lemma_div_multiples_vanish(a, full);
    vstd::arithmetic::div_mod::lemma_div_multiples_vanish(b, full);
    assert(a * (full - 0) + b * 0 == full * a) by (nonlinear_arith);
    assert(a * (full - full) + b * full == full * b) by (nonlinear_arith);
    if a <= b {
        assert(full * a <= num <= full * b) by (nonlinear_arith)
            requires
                a <= b,
                0 <= t <= full,
                num == a * (full - t) + b * t,
        ;
        vstd::arithmetic::div_mod::lemma_div_is_ordered(full * a, num, full);
        vstd::arithmetic::div_mod::lemma_div_is_ordered(num, full * b, full);
    }
    if b <= a {
        assert(full * b <= num <= full * a) by (nonlinear_arith)
            requires
                b <= a,
                0 <= t <= full,
                num == a * (full - t) + b * t,
        ;
        vstd::arithmetic::div_mod::lemma_div_is_ordered(full * b, num, full);
        vstd::arithmetic::div_mod::lemma_div_is_ordered(num, full * a, full);
    }
}

/// A blend moves one way only: as the weight grows it goes from `a` towards
/// `b` and never back.
pub proof fn lemma_lerp_monotonic(a: int, b: int, t1: int, t2: int)
    requires
        0 <= t1 <= t2 <= WEIGHT_FULL,
    ensures
        a <= b ==> spec_lerp(a, b, t1) <= spec_lerp(a, b, t2),
        b <= a ==> spec_lerp(a, b, t1) >= spec_lerp(a, b, t2),
{
    let full = WEIGHT_FULL as int;
    let n1 = a * (full - t1) + b * t1;
    let n2 = a * (full - t2) + b * t2;
    assert(n2 - n1 == (b - a) * (t2 - t1)) by (nonlinear_arith)
        requires
            n1 == a * (full - t1) + b * t1,
            n2 == a * (full - t2) + b * t2,
    ;
    if a <= b {
        assert((b - a) * (t2 - t1) >= 0) by (nonlinear_arith)
            requires
                a <= b,
                t1 <= t2,
        ;
        vstd::arithmetic::div_mod::lemma_div_is_ordered(n1, n2, full);
    }
    if b <= a {
        assert((b - a) * (t2 - t1) <= 0) by (nonlinear_arith)
            requires
                b <= a,
                t1 <= t2,
        ;
        vstd::arithmetic::div_mod::lemma_div_is_ordered(n2, n1, full);
    }
}

} // verus!
