//! The value-level half of the dataset contract: scaling raw pixels
//! into the engine's input range, building one-hot-like target
//! vectors, reading the pixel bytes of one decoded CSV record, and the
//! caller-side argmax over a prediction.
//!
//! Decoding files into rows of byte fields is left to the surrounding
//! program; everything that turns those plain values into engine
//! vectors is verified here.

use vstd::prelude::*;
use crate::fixed::ONE;

verus! {

/// The fixed-point value of `0.01`, the scaled intensity of a blank
/// pixel and the cold entry of a target vector.
pub const COLD: i64 = 655;

/// The fixed-point value of `0.99`, the hot entry of a target vector.
pub const HOT: i64 = 64881;

/// A raw pixel scaled into `[0.01, 1.00]`: `p / 255 * 0.99 + 0.01` in
/// fixed point, rounded down.
pub open spec fn scale_pixel_spec(p: int) -> int {
    (p * HOT) / 255 + COLD
}

/// Scale one raw gray value into the engine's input range.
pub fn scale_pixel(p: u8) -> (r: i64)
    ensures
        r as int == scale_pixel_spec(p as int),
        COLD <= r <= ONE,
{
    let wide: u64 = (p as u64) * 64881 / 255;
    wide as i64 + 655
}

/// Scale a whole pixel vector.
pub fn scale_pixels(pixels: &Vec<u8>) -> (r: Vec<i64>)
    ensures
        r@.len() == pixels@.len(),
        forall|i: int|
            0 <= i < pixels@.len() ==> (#[trigger] r@[i]) as int == scale_pixel_spec(
                pixels@[i] as int,
            ),
        forall|i: int| 0 <= i < pixels@.len() ==> COLD <= #[trigger] r@[i] <= ONE,
{
    let mut out: Vec<i64> = Vec::new();
    let mut k: usize = 0;
    while k < pixels.len()
        invariant
            k <= pixels@.len(),
            out@.len() == k,
            forall|i: int|
                0 <= i < k ==> (#[trigger] out@[i]) as int == scale_pixel_spec(pixels@[i] as int),
            forall|i: int| 0 <= i < k ==> COLD <= #[trigger] out@[i] <= ONE,
        decreases pixels@.len() - k,
    {
        out.push(scale_pixel(pixels[k]));
        k += 1;
    }
    out
}

/// The target vector for a class label: `HOT` at the label's index,
/// `COLD` everywhere else.
pub fn one_hot_target(label: usize, size: usize) -> (r: Vec<i64>)
    requires
        label < size,
    ensures
        r@.len() == size,
        r@[label as int] == HOT,
        forall|i: int| 0 <= i < size && i != label ==> #[trigger] r@[i] == COLD,
{
    let mut out: Vec<i64> = Vec::new();
    let mut k: usize = 0;
    while k < size
        invariant
            label < size,
            k <= size,
            out@.len() == k,
            forall|i: int| 0 <= i < k && i != label ==> #[trigger] out@[i] == COLD,
            label < k ==> out@[label as int] == HOT,
        decreases size - k,
    {
        if k == label {
            out.push(HOT);
        } else {
            out.push(COLD);
        }
        k += 1;
    }
    out
}

/// An ASCII decimal digit.
pub open spec fn is_digit(b: u8) -> bool {
    48 <= b <= 57
}

/// The number written by a sequence of digit bytes, most significant
/// first.
pub open spec fn digits_value(s: Seq<u8>) -> int
    decreases s.len(),
{
    if s.len() == 0 {
        0
    } else {
        digits_value(s.drop_last()) * 10 + (s.last() - 48)
    }
}

/// A byte field that reads as a `u8`: non-empty, digits only, value
/// at most `255`.
pub open spec fn is_u8_decimal(s: Seq<u8>) -> bool {
    &&& s.len() > 0
    &&& forall|i: int| 0 <= i < s.len() ==> is_digit(#[trigger] s[i])
    &&& digits_value(s) <= 255
}

proof fn lemma_digits_value_nonneg(s: Seq<u8>)
    requires
        forall|i: int| 0 <= i < s.len() ==> is_digit(#[trigger] s[i]),
    ensures
        digits_value(s) >= 0,
    decreases s.len(),
{
    if s.len() > 0 {
        lemma_digits_value_nonneg(s.drop_last());
    }
}

/// In an all-digit field the value can only grow as digits are
/// appended: every prefix's value bounds the whole from below.
proof fn lemma_digits_value_grows(s: Seq<u8>, i: int)
    requires
        0 <= i <= s.len(),
        forall|j: int| 0 <= j < s.len() ==> is_digit(#[trigger] s[j]),
    ensures
        digits_value(s.take(i)) <= digits_value(s),
    decreases s.len() - i,
{
    if i < s.len() {
        assert(s.take(i + 1).drop_last() =~= s.take(i));
        assert(forall|j: int| 0 <= j < s.take(i) .len() ==> is_digit(#[trigger] s.take(i)[j]));
        lemma_digits_value_nonneg(s.take(i));
        lemma_digits_value_grows(s, i + 1);
    } else {
        assert(s.take(i) =~= s);
    }
}

/// Parse a byte field as a decimal `u8`: `Some` exactly on non-empty
/// all-digit fields whose value fits.
pub fn parse_u8(field: &Vec<u8>) -> (r: Option<u8>)
    ensures
        match r {
            Some(v) => is_u8_decimal(field@) && v as int == digits_value(field@),
            None => !is_u8_decimal(field@),
        },
{
    if field.len() == 0 {
        return None;
    }
    let mut acc: u32 = 0;
    let mut k: usize = 0;
    while k < field.len()
        invariant
            k <= field@.len(),
            field@.len() > 0,
            acc <= 255,
            acc as int == digits_value(field@.take(k as int)),
            forall|j: int| 0 <= j < k ==> is_digit(#[trigger] field@[j]),
        decreases field@.len() - k,
    {
        let b: u8 = field[k];
        if b < 48 || b > 57 {
            return None;
        }
        let next: u32 = acc * 10 + (b - 48) as u32;
        proof {
            assert(field@.take(k as int + 1).drop_last() =~= field@.take(k as int));
        }
        if next > 255 {
            proof {
                if forall|j: int| 0 <= j < field@.len() ==> is_digit(#[trigger] field@[j]) {
                    lemma_digits_value_grows(field@, k as int + 1);
                }
            }
            return None;
        }
        acc = next;
        k += 1;
    }
    proof {
        assert(field@.take(field@.len() as int) =~= field@);
    }
    Some(acc as u8)
}

/// The pixel fields of one CSV record read as bytes: everything after
/// the leading label field, each parsed as a decimal `u8`.
///
/// Returns `Some` exactly when every field after the first parses;
/// pixel `i` then holds the value of field `i + 1`.
pub fn record_pixels(fields: &Vec<Vec<u8>>) -> (r: Option<Vec<u8>>)
    ensures
        match r {
            Some(px) => {
                &&& forall|i: int| 1 <= i < fields@.len() ==> is_u8_decimal(#[trigger] fields@[i]@)
                &&& px@.len() == if fields@.len() == 0 {
                    0int
                } else {
                    fields@.len() - 1
                }
                &&& forall|i: int|
                    0 <= i < px@.len() ==> (#[trigger] px@[i]) as int == digits_value(
                        fields@[i + 1]@,
                    )
            },
            None => exists|i: int|
                1 <= i < fields@.len() && !is_u8_decimal(#[trigger] fields@[i]@),
        },
{
    let mut px: Vec<u8> = Vec::new();
    let mut k: usize = 1;
    while k < fields.len()
        invariant
            1 <= k <= fields@.len() || (fields@.len() == 0 && k == 1),
            px@.len() == k - 1 || (fields@.len() == 0 && px@.len() == 0),
            forall|i: int| 1 <= i < k ==> is_u8_decimal(#[trigger] fields@[i]@),
            forall|i: int|
                0 <= i < px@.len() ==> (#[trigger] px@[i]) as int == digits_value(fields@[i + 1]@),
        decreases fields@.len() - k,
    {
        match parse_u8(&fields[k]) {
            Some(v) => px.push(v),
            None => {
                return None;
            },
        }
        k += 1;
    }
    Some(px)
}

/// The index of the first maximum of `values` under strict
/// greater-than comparison; `0` for an empty vector.  Ties keep the
/// earlier index.
pub fn argmax(values: &Vec<i64>) -> (r: usize)
    ensures
        values@.len() == 0 ==> r == 0,
        values@.len() > 0 ==> {
            &&& r < values@.len()
            &&& forall|j: int| 0 <= j < values@.len() ==> #[trigger] values@[j] <= values@[r as int]
            &&& forall|j: int| 0 <= j < r ==> #[trigger] values@[j] < values@[r as int]
        },
{
    if values.len() == 0 {
        return 0;
    }
    let mut best: usize = 0;
    let mut k: usize = 1;
    while k < values.len()
        invariant
            best < k <= values@.len(),
            forall|j: int| 0 <= j < k ==> #[trigger] values@[j] <= values@[best as int],
            forall|j: int| 0 <= j < best ==> #[trigger] values@[j] < values@[best as int],
        decreases values@.len() - k,
    {
        if values[k] > values[best] {
            best = k;
        }
        k += 1;
    }
    best
}

} // verus!
