//! Angles as whole numbers.
//!
//! An angle is a signed count of units of which [`TURN`] make a full turn.
//! `TURN` is the least number that every supported disk size divides, so the
//! width of one sector is a whole number of units on every disk.

use vstd::prelude::*;

verus! {

/// Units in a full turn: the least common multiple of 1, 2, .., 16.
pub const TURN: i64 = 720_720;

/// Units in half a turn.
pub const HALF_TURN: i64 = 360_360;

/// The width of one sector of a disk with `n` sectors.
pub open spec fn spec_sector_angle(n: int) -> int {
    TURN as int / n
}

/// The width of one sector of a disk with `n` sectors. For every supported
/// disk size the sectors fill the turn exactly.
pub fn sector_angle(n: u32) -> (r: i64)
    requires
        n > 0,
    ensures
        r == spec_sector_angle(n as int),
        0 <= r <= TURN,
        2 <= n <= 16 ==> r * n == TURN && r >= 45_045,
{
    let r: i64 = TURN / (n as i64);
    proof {
        lemma_sector_angle(n as int);
    }
    r
}

/// Sectors are never wider than a turn, and on a supported disk they fill
/// the turn with nothing left over.
pub proof fn lemma_sector_angle(n: int)
    requires
        n > 0,
    ensures
        0 <= spec_sector_angle(n) <= TURN,
        2 <= n <= 16 ==> spec_sector_angle(n) * n == TURN && spec_sector_angle(n) >= 45_045,
{
    vstd::arithmetic::div_mod::lemma_div_pos_is_pos(TURN as int, n);
    vstd::arithmetic::div_mod::lemma_div_is_ordered_by_denominator(TURN as int, 1, n);
    let w = spec_sector_angle(n);
    if 2 <= n <= 16 {
        if n == 2 {
            assert(TURN as int / 2 == 360360);
            assert(w * n == TURN) by (nonlinear_arith)
                requires
                    n == 2,
                    w == 360360,
            ;
        } else if n == 3 {
            assert(TURN as int / 3 == 240240);
            assert(w * n == TURN) by (nonlinear_arith)
                requires
                    n == 3,
                    w == 240240,
            ;
        } else if n == 4 {
            assert(TURN as int / 4 == 180180);
            assert(w * n == TURN) by (nonlinear_arith)
                requires
                    n == 4,
                    w == 180180,
            ;
        } else if n == 5 {
            assert(TURN as int / 5 == 144144);
            assert(w * n == TURN) by (nonlinear_arith)
                requires
                    n == 5,
                    w == 144144,
            ;
        } else if n == 6 {
            assert(TURN as int / 6 == 120120);
            assert(w * n == TURN) by (nonlinear_arith)
                requires
                    n == 6,
                    w == 120120,
            ;
        } else if n == 7 {
            assert(TURN as int / 7 == 102960);
            assert(w * n == TURN) by (nonlinear_arith)
                requires
                    n == 7,
                    w == 102960,
            ;
        } else if n == 8 {
            assert(TURN as int / 8 == 90090);
            assert(w * n == TURN) by (nonlinear_arith)
                requires
                    n == 8,
                    w == 90090,
            ;
        } else if n == 9 {
            assert(TURN as int / 9 == 80080);
            assert(w * n == TURN) by (nonlinear_arith)
                requires
                    n == 9,
                    w == 80080,
            ;
        } else if n == 10 {
            assert(TURN as int / 10 == 72072);
            assert(w * n == TURN) by (nonlinear_arith)
                requires
                    n == 10,
                    w == 72072,
            ;
        } else if n == 11 {
            assert(TURN as int / 11 == 65520);
            assert(w * n == TURN) by (nonlinear_arith)
                requires
                    n == 11,
                    w == 65520,
            ;
        } else if n == 12 {
            assert(TURN as int / 12 == 60060);
            assert(w * n == TURN) by (nonlinear_arith)
                requires
                    n == 12,
                    w == 60060,
            ;
        } else if n == 13 {
            assert(TURN as int / 13 == 55440);
            assert(w * n == TURN) by (nonlinear_arith)
                requires
                    n == 13,
                    w == 55440,
            ;
        } else if n == 14 {
            assert(TURN as int / 14 == 51480);
            assert(w * n == TURN) by (nonlinear_arith)
                requires
                    n == 14,
                    w == 51480,
            ;
        } else if n == 15 {
            assert(TURN as int / 15 == 48048);
            assert(w * n == TURN) by (nonlinear_arith)
                requires
                    n == 15,
                    w == 48048,
            ;
        } else {
            assert(TURN as int / 16 == 45045);
            assert(w * n == TURN) by (nonlinear_arith)
                requires
                    n == 16,
                    w == 45045,
            ;
        }
    }
}

/// The angle through which a twist of `amount` sectors, in the sense whose
/// sign is `sign`, turns a disk with `n` sectors.
pub open spec fn spec_twist_angle(n: int, sign: int, amount: int) -> int {
    spec_sector_angle(n) * sign * amount
}

/// The angle through which a twist of `amount` sectors, in the sense whose
/// sign is `sign`, turns a disk with `n` sectors.
pub fn twist_angle(n: u32, sign: i64, amount: u32) -> (r: i64)
    requires
        n > 0,
        sign == 1 || sign == -1,
    ensures
        r == spec_twist_angle(n as int, sign as int, amount as int),
        -(TURN * u32::MAX) <= r <= TURN * u32::MAX,
{
    let w: i64 = sector_angle(n);
    let signed: i64 = w * sign;
    assert(-(TURN * u32::MAX) <= signed * amount <= TURN * u32::MAX) by (nonlinear_arith)
        requires
            -TURN <= signed <= TURN,
            0 <= amount <= u32::MAX,
    ;
    signed * (amount as i64)
}

/// `target`, moved by one full turn towards `initial` where it lies more than
/// half a turn away from it: turning from `initial` to the result goes the
/// short way round.
pub open spec fn spec_short_way(initial: int, target: int) -> int {
    if initial + HALF_TURN < target {
        target - TURN
    } else if initial - HALF_TURN > target {
        target + TURN
    } else {
        target
    }
}

/// `target`, moved by one full turn towards `initial` where it lies more than
/// half a turn away from it.
pub fn short_way(initial: i64, target: i64) -> (r: i64)
    requires
        i64::MIN + TURN <= target <= i64::MAX - TURN,
    ensures
        r == spec_short_way(initial as int, target as int),
{
    let mut r: i64 = target;
    if (initial as i128) + (HALF_TURN as i128) < (r as i128) {
        r = r - TURN;
    }
    if (initial as i128) - (HALF_TURN as i128) > (r as i128) {
        r = r + TURN;
    }
    r
}

/// Where `target` lies within a turn of `initial`, the short way round is at
/// most half a turn long; and the short way always ends on a direction that
/// `target` names too.
pub proof fn lemma_short_way(initial: int, target: int)
    ensures
        (spec_short_way(initial, target) - target) % (TURN as int) == 0,
        initial - 3 * HALF_TURN <= target <= initial + 3 * HALF_TURN ==> initial - HALF_TURN
            <= spec_short_way(initial, target) <= initial + HALF_TURN,
{
}

/// `angle` in sectors of a disk with `n` sectors, rounded to the nearest whole
/// number; halves are rounded away from zero.
pub open spec fn spec_nearest_sector(angle: int, n: int) -> int {
    let w = spec_sector_angle(n);
    if angle >= 0 {
        (2 * angle + w) / (2 * w)
    } else {
        -((2 * (-angle) + w) / (2 * w))
    }
}

/// `angle` in sectors of a disk with `n` sectors, rounded to the nearest whole
/// number; halves are rounded away from zero. The result differs from `angle`
/// by no more than half a sector.
pub fn nearest_sector(angle: i64, n: u32) -> (r: i64)
    requires
        2 <= n <= 16,
    ensures
        r == spec_nearest_sector(angle as int, n as int),
        -spec_sector_angle(n as int) <= 2 * (angle - r * spec_sector_angle(n as int))
            <= spec_sector_angle(n as int),
        (angle >= 0) == (r >= 0) || r == 0,
{
    let w: i128 = sector_angle(n) as i128;
    let a: i128 = angle as i128;
    proof {
        lemma_nearest_sector(angle as int, n as int);
    }
    if a >= 0 {
        let q: i128 = (2 * a + w) / (2 * w);
        q as i64
    } else {
        let q: i128 = (2 * (-a) + w) / (2 * w);
        (-q) as i64
    }
}

/// The nearest sector lies within half a sector of the angle, has the sign of
/// the angle unless it is zero, and is no larger than the angle in units.
pub proof fn lemma_nearest_sector(angle: int, n: int)
    requires
        2 <= n <= 16,
    ensures
        -spec_sector_angle(n) <= 2 * (angle - spec_nearest_sector(angle, n) * spec_sector_angle(n))
            <= spec_sector_angle(n),
        angle >= 0 ==> 0 <= spec_nearest_sector(angle, n) <= angle,
        angle < 0 ==> angle <= spec_nearest_sector(angle, n) <= 0,
{
    lemma_sector_angle(n);
    let w = spec_sector_angle(n);
    let m = if angle >= 0 {
        angle
    } else {
        -angle
    };
    let q = (2 * m + w) / (2 * w);
    vstd::arithmetic::div_mod::lemma_fundamental_div_mod(2 * m + w, 2 * w);
    vstd::arithmetic::div_mod::lemma_mod_bound(2 * m + w, 2 * w);
    vstd::arithmetic::div_mod::lemma_div_pos_is_pos(2 * m + w, 2 * w);
    assert(2 * w * q == 2 * (q * w)) by (nonlinear_arith);
    assert(q <= m) by (nonlinear_arith)
        requires
            2 * (q * w) <= 2 * m + w,
            w >= 45_045,
            q >= 0,
            m >= 0,
    ;
    if angle < 0 {
        assert((-q) * w == -(q * w)) by (nonlinear_arith);
    }
}

} // verus!
