//! Signed fixed-point arithmetic helpers.
//!
//! A coordinate of the complex plane is stored as an `i64` counting ticks of
//! `1 / SCALE`; all derived quantities are exact integer expressions over
//! that representation.

use vstd::prelude::*;

verus! {

/// Number of fixed-point ticks per unit of the complex plane.
pub const SCALE: i64 = 1_000_000;

/// Result of dividing `a` by `d` and rounding to the nearest integer
/// (ties round up), for nonnegative `a` and positive `d`.
pub open spec fn round_div_spec(a: int, d: int) -> int {
    (2 * a + d) / (2 * d)
}

/// `v` forced into the interval `[lo, hi]`.
pub open spec fn clamp_spec(v: int, lo: int, hi: int) -> int {
    if v < lo {
        lo
    } else if v > hi {
        hi
    } else {
        v
    }
}

pub fn clamp_i64(v: i64, lo: i64, hi: i64) -> (r: i64)
    requires
        lo <= hi,
    ensures
        r as int == clamp_spec(v as int, lo as int, hi as int),
{
    if v < lo {
        lo
    } else if v > hi {
        hi
    } else {
        v
    }
}

/// Round-to-nearest division of a nonnegative value by a positive divisor.
pub fn round_div(a: u64, d: u64) -> (q: u64)
    requires
        1 <= d,
        a < 0x2000_0000_0000_0000,
        d < 0x2000_0000_0000_0000,
    ensures
        q as int == round_div_spec(a as int, d as int),
{
    (2 * a + d) / (2 * d)
}

/// Floor division of a signed value by a positive divisor; agrees with the
/// mathematical (Euclidean) `/` on `int` used in the contracts.
pub fn div_floor(a: i64, d: i64) -> (q: i64)
    requires
        1 <= d,
        -0x2000_0000_0000_0000 < a < 0x2000_0000_0000_0000,
    ensures
        q as int == a as int / d as int,
{
    let dd: u64 = d as u64;
    if a >= 0 {
        let m: u64 = a as u64;
        let qm: u64 = m / dd;
        proof {
            vstd::arithmetic::div_mod::lemma_div_nonincreasing(m as int, dd as int);
            vstd::arithmetic::div_mod::lemma_div_pos_is_pos(m as int, dd as int);
        }
        qm as i64
    } else {
        let m: u64 = (-a) as u64;
        let qm: u64 = m / dd;
        let rm: u64 = m % dd;
        proof {
            vstd::arithmetic::div_mod::lemma_div_nonincreasing(m as int, dd as int);
            vstd::arithmetic::div_mod::lemma_div_pos_is_pos(m as int, dd as int);
            vstd::arithmetic::div_mod::lemma_fundamental_div_mod(m as int, dd as int);
        }
        if rm == 0 {
            proof {
                assert(a as int == (-(qm as int)) * (dd as int) + 0) by (nonlinear_arith)
                    requires
                        m as int == (dd as int) * ((m as int) / (dd as int)) + (m as int) % (
                        dd as int),
                        qm as int == (m as int) / (dd as int),
                        rm as int == (m as int) % (dd as int),
                        rm == 0,
                        a as int == -(m as int),
                ;
                vstd::arithmetic::div_mod::lemma_fundamental_div_mod_converse(
                    a as int,
                    d as int,
                    -(qm as int),
                    0,
                );
            }
            -(qm as i64)
        } else {
            proof {
                assert(a as int == (-(qm as int) - 1) * (dd as int) + (dd as int - rm as int))
                    by (nonlinear_arith)
                    requires
                        m as int == (dd as int) * ((m as int) / (dd as int)) + (m as int) % (
                        dd as int),
                        qm as int == (m as int) / (dd as int),
                        rm as int == (m as int) % (dd as int),
                        a as int == -(m as int),
                ;
                vstd::arithmetic::div_mod::lemma_fundamental_div_mod_converse(
                    a as int,
                    d as int,
                    -(qm as int) - 1,
                    dd as int - rm as int,
                );
            }
            -(qm as i64) - 1
        }
    }
}

} // verus!
