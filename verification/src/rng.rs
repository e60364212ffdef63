//! The entropy source for weight initialization.
//!
//! One trusted declaration covers the single call into the `rand`
//! crate; nothing is assumed of the values it yields.  On top of it,
//! verified code shapes raw draws into bounded fixed-point scalars: a
//! uniform draw on `[0, ONE]` and an approximately normal draw with
//! mean zero and unit standard deviation, the sum of twelve uniform
//! draws recentred at zero.

use vstd::prelude::*;
use crate::fixed::ONE;

verus! {

/// Relies on rand::random: a fresh draw from the thread-local
/// generator.  No outcome is promised of it.
pub assume_specification<T>[ rand::random::<T> ]() -> (r: T)
    where
        rand::distributions::Standard: rand::distributions::Distribution<T>,
;

/// A uniform fixed-point draw on `[0, ONE]`, whatever the raw bits.
pub fn uniform_fx() -> (r: i64)
    ensures
        0 <= r <= ONE,
{
    let raw: u64 = rand::random::<u64>();
    (raw % 65537) as i64
}

/// An approximately standard-normal fixed-point draw, bounded by six
/// standard deviations by construction.
pub fn normal_fx() -> (r: i64)
    ensures
        -6 * ONE <= r <= 6 * ONE,
{
    let mut sum: i64 = 0;
    let mut k: usize = 0;
    while k < 12
        invariant
            k <= 12,
            0 <= sum <= k * (ONE as int),
        decreases 12 - k,
    {
        sum = sum + uniform_fx();
        k += 1;
    }
    sum - 6 * ONE
}

} // verus!
