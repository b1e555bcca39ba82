//! Headings and turning decisions, in integer microradians.
//!
//! An angle is an `i64` count of microradians. A full turn is `TURN_URAD`;
//! heading differences are wrapped into the half-open interval
//! `[-HALF_TURN_URAD, HALF_TURN_URAD)`, so a ship always turns the short way
//! round, and a difference of exactly half a turn turns negative.

use vstd::prelude::*;
use vstd::arithmetic::div_mod::lemma_div_nonincreasing;
use vstd::arithmetic::div_mod::lemma_fundamental_div_mod;
use vstd::arithmetic::div_mod::lemma_fundamental_div_mod_converse;
use vstd::arithmetic::mul::lemma_mul_upper_bound;

verus! {

/// Half a turn (pi radians), in microradians.
pub const HALF_TURN_URAD: i64 = 3_141_593;

/// A full turn (two pi radians), in microradians.
pub const TURN_URAD: i64 = 6_283_186;

/// A ship starts turning only when it is off its heading by more than this.
pub const TURN_DEADBAND_URAD: i64 = 5_000;

/// Angular speed is capped at this many microradians per second.
pub const MAX_ANGVEL_URAD: i64 = 10_000_000;

/// Euclidean remainder: the unique `r` with `0 <= r < m` and `m | (a - r)`.
fn euclid_mod_i128(a: i128, m: i128) -> (r: i128)
    requires
        m > 0,
        a > i128::MIN,
    ensures
        r == a as int % m as int,
        0 <= r < m,
{
    if a >= 0 {
        a % m
    } else {
        let rm = (-a) % m;
        proof {
            let ai = a as int;
            let mi = m as int;
            lemma_fundamental_div_mod(-ai, mi);
            let qq = (-ai) / mi;
            assert(-ai == mi * qq + rm);
            if rm == 0 {
                assert(ai == (-qq) * mi + 0) by (nonlinear_arith)
                    requires
                        -ai == mi * qq,
                {
                }
                lemma_fundamental_div_mod_converse(ai, mi, -qq, 0);
            } else {
                assert(ai == (-qq - 1) * mi + (mi - rm)) by (nonlinear_arith)
                    requires
                        -ai == mi * qq + rm,
                {
                }
                lemma_fundamental_div_mod_converse(ai, mi, -qq - 1, mi - rm);
            }
        }
        if rm == 0 {
            0
        } else {
            m - rm
        }
    }
}

/// The wrapped difference `target - initial`, as a mathematical integer in
/// `[-HALF_TURN_URAD, HALF_TURN_URAD)` and congruent to the raw difference
/// modulo a full turn.
pub open spec fn spec_angle_difference(target: int, initial: int) -> int {
    ((target - initial) + HALF_TURN_URAD) % (TURN_URAD as int) - HALF_TURN_URAD
}

/// Returns the smallest angle difference between two headings: the unique
/// representative of `target - initial` (modulo a full turn) that lies in
/// `[-HALF_TURN_URAD, HALF_TURN_URAD)`. A difference of exactly half a turn
/// comes back as `-HALF_TURN_URAD`.
pub fn get_angle_difference(target: i64, initial: i64) -> (r: i64)
    ensures
        r == spec_angle_difference(target as int, initial as int),
        -HALF_TURN_URAD <= r < HALF_TURN_URAD,
        (target - initial - r) % (TURN_URAD as int) == 0,
{
    let shifted: i128 = (target as i128 - initial as i128) + HALF_TURN_URAD as i128;
    let m = euclid_mod_i128(shifted, TURN_URAD as i128);
    let r = (m - HALF_TURN_URAD as i128) as i64;
    proof {
        let t = TURN_URAD as int;
        let d = target as int - initial as int;
        lemma_fundamental_div_mod(d + HALF_TURN_URAD, t);
        let q = (d + HALF_TURN_URAD) / t;
        assert(d + HALF_TURN_URAD == t * q + m);
        assert(d - r == q * t + 0) by (nonlinear_arith)
            requires
                d + HALF_TURN_URAD == t * q + m,
                r == m - HALF_TURN_URAD,
        {
        }
        lemma_fundamental_div_mod_converse(d - r, t, q, 0);
    }
    r
}

/// Truncating division (rounding toward zero) for a positive divisor.
pub open spec fn div_trunc(a: int, b: int) -> int {
    if a >= 0 {
        a / b
    } else {
        -((-a) / b)
    }
}

/// The angular velocity commanded for a heading error of `angle_diff`
/// microradians over a frame of `dt_micros` microseconds: proportional to the
/// error, capped above at `MAX_ANGVEL_URAD`.
pub open spec fn spec_turn_angvel(angle_diff: int, dt_micros: int) -> int {
    let raw = div_trunc(angle_diff * dt_micros * 250, 1_000_000);
    if raw < MAX_ANGVEL_URAD {
        raw
    } else {
        MAX_ANGVEL_URAD as int
    }
}

/// The turning decision for one ship: given the wrapped heading error toward
/// its destination and the frame time, the commanded angular velocity about
/// the z axis, or `None` inside the deadband, where the ship coasts.
pub fn turn_to_destination(angle_diff: i64, dt_micros: u64) -> (r: Option<i64>)
    requires
        -HALF_TURN_URAD <= angle_diff <= HALF_TURN_URAD,
        dt_micros <= 60_000_000,
    ensures
        r is Some <==> (angle_diff > TURN_DEADBAND_URAD || angle_diff < -TURN_DEADBAND_URAD),
        r matches Some(v) ==> v == spec_turn_angvel(angle_diff as int, dt_micros as int),
{
    if angle_diff > TURN_DEADBAND_URAD || angle_diff < -TURN_DEADBAND_URAD {
        let neg = angle_diff < 0;
        let mag: u128 = if neg {
            (-(angle_diff as i128)) as u128
        } else {
            angle_diff as u128
        };
        proof {
            lemma_mul_upper_bound(mag as int, HALF_TURN_URAD as int, dt_micros as int, 60_000_000);
            lemma_mul_upper_bound(
                mag as int * dt_micros as int,
                HALF_TURN_URAD as int * 60_000_000,
                250,
                250,
            );
            lemma_div_nonincreasing(mag as int * dt_micros as int * 250, 1_000_000);
        }
        let q: u128 = mag * (dt_micros as u128) * 250 / 1_000_000;
        let v: i64 = if neg {
            -(q as i64)
        } else {
            if q < MAX_ANGVEL_URAD as u128 {
                q as i64
            } else {
                MAX_ANGVEL_URAD
            }
        };
        proof {
            let di = angle_diff as int;
            let dti = dt_micros as int;
            if neg {
                assert(mag as int * dti * 250 == -(di * dti * 250)) by (nonlinear_arith)
                    requires
                        mag as int == -di,
                {
                }
            }
        }
        Some(v)
    } else {
        None
    }
}

} // verus!
