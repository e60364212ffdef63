// Pixel scaling, target vectors, record parsing, the caller-side
// argmax, and the fixed-point sigmoid on concrete values.

use nn::activation::Activation;
use nn::dataset::{argmax, one_hot_target, parse_u8, record_pixels, scale_pixel, scale_pixels};
use nn::fixed::ONE;

#[test]
fn scale_pixel_exact_values() {
    // p / 255 * 0.99 + 0.01 in fixed point, rounded down.
    assert_eq!(scale_pixel(0), 655);
    assert_eq!(scale_pixel(255), 65536);
    assert_eq!(scale_pixel(128), 128 * 64881 / 255 + 655);
    assert_eq!(scale_pixel(128), 33222);
    assert_eq!(scale_pixel(1), 909);
    for p in 0..=255u16 {
        let v = scale_pixel(p as u8);
        assert!(655 <= v && v <= ONE);
    }
}

#[test]
fn scale_pixels_maps_each_entry() {
    let scaled = scale_pixels(&vec![0, 128, 255]);
    assert_eq!(scaled, vec![655, 33222, 65536]);
}

#[test]
fn one_hot_target_places_hot_value() {
    let t = one_hot_target(5, 10);
    assert_eq!(t.len(), 10);
    for (i, v) in t.iter().enumerate() {
        if i == 5 {
            assert_eq!(*v, 64881);
        } else {
            assert_eq!(*v, 655);
        }
    }
}

#[test]
fn parse_u8_accepts_decimals_in_range() {
    assert_eq!(parse_u8(&b"0".to_vec()), Some(0));
    assert_eq!(parse_u8(&b"7".to_vec()), Some(7));
    assert_eq!(parse_u8(&b"255".to_vec()), Some(255));
    assert_eq!(parse_u8(&b"007".to_vec()), Some(7));
}

#[test]
fn parse_u8_rejects_everything_else() {
    assert_eq!(parse_u8(&b"".to_vec()), None);
    assert_eq!(parse_u8(&b"256".to_vec()), None);
    assert_eq!(parse_u8(&b"1000".to_vec()), None);
    assert_eq!(parse_u8(&b"12a".to_vec()), None);
    assert_eq!(parse_u8(&b"+5".to_vec()), None);
    assert_eq!(parse_u8(&b"-1".to_vec()), None);
    assert_eq!(parse_u8(&b" 3".to_vec()), None);
}

#[test]
fn record_pixels_skips_the_label_field() {
    let fields = vec![b"5".to_vec(), b"0".to_vec(), b"128".to_vec(), b"255".to_vec()];
    assert_eq!(record_pixels(&fields), Some(vec![0, 128, 255]));
    // The label field itself is not parsed here.
    let fields = vec![b"x".to_vec(), b"3".to_vec()];
    assert_eq!(record_pixels(&fields), Some(vec![3]));
    let only_label = vec![b"9".to_vec()];
    assert_eq!(record_pixels(&only_label), Some(vec![]));
}

#[test]
fn record_pixels_rejects_a_bad_pixel() {
    let fields = vec![b"5".to_vec(), b"12".to_vec(), b"999".to_vec()];
    assert_eq!(record_pixels(&fields), None);
    let fields = vec![b"5".to_vec(), b"ab".to_vec()];
    assert_eq!(record_pixels(&fields), None);
}

#[test]
fn argmax_first_maximum_wins() {
    // 0.5, 0.5, 0.1: the tie resolves to the lowest index.
    assert_eq!(argmax(&vec![32768, 32768, 6554]), 0);
    assert_eq!(argmax(&vec![1, 1, 1, 1]), 0);
    assert_eq!(argmax(&vec![]), 0);
    assert_eq!(argmax(&vec![1, 2, 3, 4]), 3);
    assert_eq!(argmax(&vec![3, 9, 9, 1]), 1);
    assert_eq!(argmax(&vec![-5, -2, -9]), 1);
}

#[test]
fn sigmoid_fixed_point_curve() {
    let s = Activation::Sigmoid;
    // The logistic value and slope at the origin: one half.
    assert_eq!(s.apply(0), 32768);
    // Saturation one step inside the open interval.
    assert_eq!(s.apply(10 * 65536), 65535);
    assert_eq!(s.apply(i64::MAX), 65535);
    assert_eq!(s.apply(-10 * 65536), 1);
    assert_eq!(s.apply(i64::MIN), 1);
    // Slope one quarter in the linear region.
    assert_eq!(s.apply(65536), 32768 + 65536 / 4);
    assert_eq!(s.apply(-65536), 32768 - 65536 / 4);
    // Monotone on samples.
    let mut prev = s.apply(-200000);
    for x in -20..=20 {
        let v = s.apply(x * 10000);
        assert!(v >= prev);
        prev = v;
    }
}
