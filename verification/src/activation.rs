//! The activation applied elementwise after each layer.
//!
//! The single built-in variant is a logistic sigmoid in fixed point: a
//! piecewise-linear curve with the logistic function's value and slope
//! at the origin, clamped so that its range stays strictly inside
//! `(0, ONE)` — the open unit interval, as the logistic function's
//! range is for finite inputs.  The enum is the seam through which a
//! further activation could be added without touching the forward or
//! training passes.

use vstd::prelude::*;
use crate::fixed::{ONE, div_trunc};

verus! {

/// Clamp `x` into `[lo, hi]`.
pub open spec fn clamp_spec(x: int, lo: int, hi: int) -> int
    recommends
        lo <= hi,
{
    if x < lo {
        lo
    } else if x > hi {
        hi
    } else {
        x
    }
}

/// The fixed-point sigmoid: centred at `ONE / 2` with slope `1/4` (the
/// logistic derivative at zero), saturating one step inside `0` and
/// `ONE`.
pub open spec fn sigmoid_spec(x: int) -> int {
    let t = clamp_spec(x, -2 * (ONE as int), 2 * (ONE as int));
    clamp_spec((ONE as int) / 2 + div_trunc(t, 4), 1, ONE as int - 1)
}

/// The activation strategy: fixed to the sigmoid.
#[derive(Clone, Copy, Debug, PartialEq, Eq, Structural)]
pub enum Activation {
    Sigmoid,
}

impl Activation {
    /// What applying the activation to one scalar means.
    pub open spec fn apply_spec(self, x: int) -> int {
        match self {
            Activation::Sigmoid => sigmoid_spec(x),
        }
    }

    /// Every activation value lies strictly between `0` and `ONE`.
    pub proof fn lemma_apply_range(self, x: int)
        ensures
            1 <= self.apply_spec(x) <= ONE as int - 1,
    {
    }

    pub fn apply(&self, x: i64) -> (r: i64)
        ensures
            r as int == self.apply_spec(x as int),
            0 < r < ONE,
    {
        match self {
            Activation::Sigmoid => {
                let t: i64 = if x > 131072 {
                    131072
                } else if x < -131072 {
                    -131072
                } else {
                    x
                };
                let q: i64 = if t >= 0 {
                    ((t as u64) / 4) as i64
                } else {
                    -((((-t) as u64) / 4) as i64)
                };
                let s: i64 = 32768 + q;
                if s < 1 {
                    1
                } else if s > 65535 {
                    65535
                } else {
                    s
                }
            },
        }
    }

    /// Apply the activation to every entry of a vector.
    pub fn apply_vec(&self, v: &Vec<i64>) -> (r: Vec<i64>)
        ensures
            r@.len() == v@.len(),
            forall|i: int|
                0 <= i < v@.len() ==> (#[trigger] r@[i]) as int == self.apply_spec(v@[i] as int),
            forall|i: int| 0 <= i < v@.len() ==> 0 < #[trigger] r@[i] < ONE,
    {
        let mut out: Vec<i64> = Vec::new();
        let mut k: usize = 0;
        while k < v.len()
            invariant
                k <= v@.len(),
                out@.len() == k,
                forall|i: int|
                    0 <= i < k ==> (#[trigger] out@[i]) as int == self.apply_spec(v@[i] as int),
                forall|i: int| 0 <= i < k ==> 0 < #[trigger] out@[i] < ONE,
            decreases v@.len() - k,
        {
            out.push(self.apply(v[k]));
            k += 1;
        }
        out
    }
}

} // verus!
