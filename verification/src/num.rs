//! Saturating arithmetic on signed integers.

use vstd::prelude::*;

verus! {

/// The nearest `i64` to `x`.
pub open spec fn clamp_i64(x: int) -> i64 {
    if x > i64::MAX {
        i64::MAX
    } else if x < i64::MIN {
        i64::MIN
    } else {
        x as i64
    }
}

pub fn saturating_add(a: i64, b: i64) -> (r: i64)
    ensures
        r == clamp_i64(a + b),
{
    match a.checked_add(b) {
        Some(x) => x,
        None => if b > 0 {
            i64::MAX
        } else {
            i64::MIN
        },
    }
}

pub fn saturating_sub(a: i64, b: i64) -> (r: i64)
    ensures
        r == clamp_i64(a - b),
{
    match a.checked_sub(b) {
        Some(x) => x,
        None => if b < 0 {
            i64::MAX
        } else {
            i64::MIN
        },
    }
}

pub fn saturating_mul(a: i64, b: i64) -> (r: i64)
    ensures
        r == clamp_i64(a * b),
{
    match a.checked_mul(b) {
        Some(x) => x,
        None => {
            if (a > 0) == (b > 0) {
                assert(a * b >= 0) by (nonlinear_arith)
                    requires
                        a > 0 && b > 0 || a <= 0 && b <= 0,
                ;
                i64::MAX
            } else {
                assert(a * b <= 0) by (nonlinear_arith)
                    requires
                        a > 0 && b <= 0 || a <= 0 && b > 0,
                ;
                i64::MIN
            }
        },
    }
}

/// Milliseconds as nanoseconds, saturating.
pub open spec fn ms_to_ns(ms: i64) -> i64 {
    clamp_i64(ms * 1_000_000)
}

pub fn nanoseconds(ms: i64) -> (r: i64)
    ensures
        r == ms_to_ns(ms),
{
    saturating_mul(ms, 1_000_000)
}

/// The time `ns` in nanoseconds is the time `ms` in milliseconds, or the nearest one that 64 bits
/// hold.
pub open spec fn is_ms_in_ns(ms: i64, ns: i64) -> bool {
    &&& i64::MIN <= ms * 1_000_000 <= i64::MAX ==> ns == ms * 1_000_000
    &&& ms * 1_000_000 > i64::MAX ==> ns == i64::MAX
    &&& ms * 1_000_000 < i64::MIN ==> ns == i64::MIN
}

} // verus!
