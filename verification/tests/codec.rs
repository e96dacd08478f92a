use rusthor::codec::{encode_f32_halves, encode_f32_high_half, split_count};
use rusthor::ieee::{is_below_millionth, scale_to_thousandths, MILLIONTH};

#[test]
fn halves_rejoin_to_the_bit_pattern() {
    let values = vec![
        0.0f32,
        -0.0,
        1.0,
        -1.0,
        1200.0,
        600.0,
        360.0,
        0.1,
        f32::MIN_POSITIVE,
        f32::MAX,
        f32::INFINITY,
        f32::NEG_INFINITY,
        f32::NAN,
    ];
    for v in values {
        let (low, high) = encode_f32_halves(v.to_bits());
        assert_eq!(((high as u32) << 16) | low as u32, v.to_bits());
        assert_eq!(encode_f32_high_half(v.to_bits()), high);
    }
    let mut pattern: u32 = 0;
    loop {
        let (low, high) = encode_f32_halves(pattern);
        assert_eq!(((high as u32) << 16) | low as u32, pattern);
        match pattern.checked_add(0x0001_0F0F) {
            Some(next) => pattern = next,
            None => break,
        }
    }
}

#[test]
fn halves_of_known_values() {
    assert_eq!(encode_f32_halves(1200.0f32.to_bits()), (0, 0x4496));
    assert_eq!(encode_f32_halves(600.0f32.to_bits()), (0, 0x4416));
    assert_eq!(encode_f32_halves(360.0f32.to_bits()), (0, 0x43B4));
    assert_eq!(encode_f32_halves(0x1234_5678), (0x5678, 0x1234));
    assert_eq!(encode_f32_high_half(0x1234_5678), 0x1234);
}

#[test]
fn split_count_keeps_the_sign() {
    assert_eq!(split_count(0), (0, 0));
    assert_eq!(split_count(1200), (1200, 0));
    assert_eq!(split_count(-1200), (64336, 255));
    assert_eq!(split_count(65536), (0, 1));
    assert_eq!(split_count(-65536), (0, 255));
    assert_eq!(split_count(-65537), (65535, 254));
    assert_eq!(split_count(8_388_607), (0xFFFF, 0x7F));
    assert_eq!(split_count(-8_388_608), (0, 0x80));
    assert_eq!(split_count(8_388_608), (0, 0x80));
    assert_eq!(split_count(i32::MAX), (0xFFFF, 0xFF));
    assert_eq!(split_count(i32::MIN), (0, 0));
}

#[test]
fn thousandths_of_known_values() {
    assert_eq!(scale_to_thousandths(1.2f64.to_bits()), 1200);
    assert_eq!(scale_to_thousandths((-3.4f64).to_bits()), -3400);
    assert_eq!(scale_to_thousandths(0.0005f64.to_bits()), 1);
    assert_eq!(scale_to_thousandths((-0.0005f64).to_bits()), -1);
    assert_eq!(scale_to_thousandths(0.0004999f64.to_bits()), 0);
    assert_eq!(scale_to_thousandths(2147483.647f64.to_bits()), i32::MAX);
    assert_eq!(scale_to_thousandths(2147483.646f64.to_bits()), 2147483646);
    assert_eq!(scale_to_thousandths((-2147483.648f64).to_bits()), i32::MIN);
    assert_eq!(scale_to_thousandths((-2147483.647f64).to_bits()), -2147483647);
    assert_eq!(scale_to_thousandths(1.0e10f64.to_bits()), i32::MAX);
    assert_eq!(scale_to_thousandths((-1.0e10f64).to_bits()), i32::MIN);
    assert_eq!(scale_to_thousandths(f64::INFINITY.to_bits()), i32::MAX);
    assert_eq!(scale_to_thousandths(f64::NEG_INFINITY.to_bits()), i32::MIN);
    assert_eq!(scale_to_thousandths(f64::NAN.to_bits()), 0);
    assert_eq!(scale_to_thousandths(0x7FF0_0000_0000_0001), 0);
    assert_eq!(scale_to_thousandths(0xFFF8_0000_0000_0000), 0);
}

#[test]
fn thousandths_agree_with_double_precision_arithmetic() {
    let mut state: u64 = 0xD1B5_4A32_D192_ED03;
    for _ in 0..300_000 {
        state ^= state << 13;
        state ^= state >> 7;
        state ^= state << 17;
        let exponent = 990 + (state >> 58);
        let pattern = (state & 0x800F_FFFF_FFFF_FFFF) | (exponent << 52);
        let value = f64::from_bits(pattern);
        assert_eq!(
            scale_to_thousandths(pattern),
            (value * 1000.0).round() as i32,
            "pattern {:#x}",
            pattern
        );
        let value = f64::from_bits(state);
        assert_eq!(scale_to_thousandths(state), (value * 1000.0).round() as i32);
    }
}

#[test]
fn thousandths_at_every_half() {
    for k in -5000i32..5000 {
        let value = (k as f64 + 0.5) / 1000.0;
        assert_eq!(
            scale_to_thousandths(value.to_bits()),
            (value * 1000.0).round() as i32,
            "value {}",
            value
        );
    }
}

#[test]
fn millionth_is_the_single_precision_constant() {
    assert_eq!(MILLIONTH, 0.000001f32.to_bits());
    assert!(!is_below_millionth(MILLIONTH));
    assert!(is_below_millionth(MILLIONTH - 1));
    assert!(!is_below_millionth(MILLIONTH | 0x8000_0000));
    assert!(is_below_millionth((MILLIONTH - 1) | 0x8000_0000));
    assert!(is_below_millionth(0));
    assert!(is_below_millionth(0x8000_0000));
    assert!(!is_below_millionth(f32::NAN.to_bits()));
}
