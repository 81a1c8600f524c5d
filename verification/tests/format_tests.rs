//! Tests for the three numeric value formats. Physical values enter the
//! codecs as a significand times a power of two; the helper below splits a
//! finite f32 into exactly that shape, and decoded values come back scaled
//! by 2^16, so comparisons against floating point are exact.

use pmbus::DirectCoefficients;
use pmbus::Linear11;
use pmbus::ULinear16;

/// Split a finite f32 into (significand, exponent) with value = sig * 2^exp.
fn split_f32(v: f32) -> (i32, i32) {
    let bits = v.to_bits();
    let sign: i32 = if bits >> 31 == 1 { -1 } else { 1 };
    let e = ((bits >> 23) & 0xFF) as i32;
    let m = (bits & 0x7F_FFFF) as i32;
    if e == 0 {
        (sign * m, -149)
    } else {
        (sign * (m + 0x80_0000), e - 150)
    }
}

/// The decoded value of a Linear11 word as f64 (exact: 41-bit range).
fn l11_value(l: Linear11) -> f64 {
    (l.to_scaled() as f64) / 65536.0
}

#[test]
fn linear11_decode() {
    // 12.5 encoded as N=-1, Y=25: raw = (0x1F << 11) | 25
    let raw = (0x1Fu16 << 11) | 25;
    let val = Linear11::from_raw(raw);
    assert_eq!(val.to_scaled(), (12.5f64 * 65536.0) as i64);
    assert_eq!(val.mantissa(), 25);
    assert_eq!(val.exponent(), -1);
}

#[test]
fn linear11_encode_decode_roundtrip() {
    for &v in &[0.0f32, 1.0, -1.0, 12.5, 100.0, 0.125, -500.0, 1023.0] {
        let (sig, exp) = split_f32(v);
        if let Some(l) = Linear11::encode(sig, exp) {
            let decoded = l11_value(l);
            let err = (v as f64 - decoded).abs();
            let tolerance = (v as f64).abs() * 0.01 + 0.01;
            assert!(err < tolerance, "roundtrip failed for {v}: got {decoded}");
        }
    }
}

#[test]
fn linear11_zero() {
    let l = Linear11::encode(0, 0).unwrap();
    assert_eq!(l.raw(), 0);
    assert_eq!(l.to_scaled(), 0);
}

#[test]
fn linear11_parts_roundtrip() {
    let l = Linear11::from_parts(-300, -7);
    assert_eq!(l.mantissa(), -300);
    assert_eq!(l.exponent(), -7);
    let l = Linear11::from_parts(1023, 15);
    assert_eq!(l.mantissa(), 1023);
    assert_eq!(l.exponent(), 15);
    let l = Linear11::from_parts(-1024, -16);
    assert_eq!(l.mantissa(), -1024);
    assert_eq!(l.exponent(), -16);
}

#[test]
fn linear11_tie_breaks_toward_smaller_exponent() {
    // 3 * 2^-17 sits exactly between mantissa 2 at exponent -16 and
    // mantissa 1 at exponent -15, with equal error either way; the search
    // runs the exponents in ascending order and the first minimum wins.
    let l = Linear11::encode(3, -17).unwrap();
    assert_eq!(l.exponent(), -16);
    assert_eq!(l.mantissa(), 2);
}

#[test]
fn linear11_out_of_range_returns_none() {
    // 2^26 is beyond the largest representable value 1023 * 2^15.
    assert!(Linear11::encode(1, 26).is_none());
    assert!(Linear11::encode(-1, 26).is_none());
    // The largest representable magnitudes still encode.
    assert!(Linear11::encode(1023, 15).is_some());
    assert!(Linear11::encode(-1024, 15).is_some());
}

#[test]
fn linear11_tiny_value_rounds_to_zero_mantissa() {
    // The smallest positive subnormal float rounds to mantissa 0 at the
    // smallest exponent: encoding succeeds and decodes to exactly zero.
    let l = Linear11::encode(1, -149).unwrap();
    assert_eq!(l.mantissa(), 0);
    assert_eq!(l.exponent(), -16);
    assert_eq!(l.to_scaled(), 0);
}

#[test]
fn test_from_linear11_tps546() {
    assert_eq!(Linear11::from_raw(0).to_scaled(), 0);
    assert_eq!(l11_value(Linear11::from_raw(0xF0D0)), 52.0);
    assert_eq!(l11_value(Linear11::from_raw(0xE340)), 52.0);
    assert_eq!(l11_value(Linear11::from_raw(0xF0A0)), 40.0);
    assert_eq!(l11_value(Linear11::from_raw(0xC840)), 0.5);
    assert_eq!(l11_value(Linear11::from_raw(0xC880)), 1.0);
}

#[test]
fn test_to_linear11_tps546() {
    for &v in &[0.0f32, 52.0, 40.0, 0.5, 1.0] {
        let (sig, exp) = split_f32(v);
        let encoded = Linear11::encode(sig, exp).unwrap();
        assert_eq!(l11_value(encoded), v as f64, "roundtrip failed for {v}");
    }
}

#[test]
fn ulinear16_decode() {
    // exponent = -13, raw = 0x2000: V = 8192 * 2^-13 = 1.0
    let val = ULinear16::from_raw(0x2000);
    assert_eq!(val.to_scaled(-13), 65536);
}

#[test]
fn ulinear16_roundtrip() {
    let exponent: i8 = -13;
    for &v in &[0.0f32, 1.0, 1.2, 3.3, 5.0] {
        let (sig, exp) = split_f32(v);
        if let Some(u) = ULinear16::encode(sig, exp, exponent) {
            let decoded = (u.to_scaled(exponent) as f64) / 65536.0;
            let err = (v as f64 - decoded).abs();
            assert!(err < 0.001, "roundtrip failed for {v}: got {decoded}");
        }
    }
}

#[test]
fn ulinear16_negative_returns_none() {
    let (sig, exp) = split_f32(-1.0);
    assert!(ULinear16::encode(sig, exp, -13).is_none());
}

#[test]
fn ulinear16_zero_is_exact() {
    let u = ULinear16::encode(0, 0, -13).unwrap();
    assert_eq!(u.raw(), 0);
    assert_eq!(u.to_scaled(-13), 0);
}

#[test]
fn test_from_ulinear16_tps546() {
    let exp: i8 = -12;
    // 1229 * 2^-12 = 0.300048828125: scaled by 2^16 that is 1229 * 16.
    assert_eq!(ULinear16::from_raw(1229).to_scaled(exp), 1229 * 16);
    assert_eq!(ULinear16::from_raw(0x333).to_scaled(exp), 819 * 16);
    assert_eq!(ULinear16::from_raw(0x4b4).to_scaled(exp), 1204 * 16);
}

#[test]
fn test_to_ulinear16_tps546() {
    let exp: i8 = -12;
    let enc = |v: f32| {
        let (sig, e) = split_f32(v);
        ULinear16::encode(sig, e, exp).unwrap().raw()
    };
    assert_eq!(enc(0.0), 0);
    // round(0.300 / 2^-12) = round(1228.8) = 1229
    assert_eq!(enc(0.300), 1229);
    // round(0.200 / 2^-12) = round(819.2) = 819 = 0x333
    assert_eq!(enc(0.200), 0x333);
    // round(0.294 / 2^-12) = round(1204.2) = 1204 = 0x4b4
    assert_eq!(enc(0.294), 0x4b4);
    // round(0.700 / 2^-12) = round(2867.2) = 2867
    assert_eq!(enc(0.700), 2867);
}

#[test]
fn ulinear16_overflow_returns_none() {
    // 65536 * 2^0 does not fit the unsigned 16-bit word.
    assert!(ULinear16::encode(1, 16, 0).is_none());
    assert!(ULinear16::encode(0xFFFF, 0, 0).is_some());
}

#[test]
fn direct_coefficients_decode() {
    // m=1, b=0, R=0: identity
    let c = DirectCoefficients::new(1, 0, 0);
    let (num, den) = c.decode_fraction(100);
    assert_eq!(num, 100);
    assert_eq!(den, 1);
}

#[test]
fn direct_coefficients_encode() {
    let c = DirectCoefficients::new(1, 0, 0);
    assert_eq!(c.encode(100, 0), Some(100));
}

#[test]
fn direct_coefficients_with_offset() {
    // m=10, b=5, R=0: Y = 10*X + 5, X = (Y - 5) / 10
    let c = DirectCoefficients::new(10, 5, 0);
    let raw = c.encode(3, 0).unwrap(); // Y = 10*3 + 5 = 35
    assert_eq!(raw, 35);
    let (num, den) = c.decode_fraction(35); // X = (35 - 5) / 10 = 3
    assert_eq!(num, 30);
    assert_eq!(den, 10);
}

#[test]
fn direct_coefficients_decimal_scale() {
    // m=1, b=0, R=-2: Y = X / 100; decode multiplies back by 100.
    let c = DirectCoefficients::new(1, 0, -2);
    // X = 1234: Y = round(12.34) = 12
    assert_eq!(c.encode(1234, 0), Some(12));
    let (num, den) = c.decode_fraction(12);
    assert_eq!(num, 1200);
    assert_eq!(den, 1);
    // m=1, b=0, R=2: Y = X * 100
    let c = DirectCoefficients::new(1, 0, 2);
    assert_eq!(c.encode(3, 0), Some(300));
    let (num, den) = c.decode_fraction(300);
    assert_eq!(num, 300);
    assert_eq!(den, 100);
}

#[test]
fn direct_coefficients_out_of_range_scale_falls_back_to_one() {
    // R outside [-8, 8] silently scales by one.
    let c = DirectCoefficients::new(1, 0, 9);
    assert_eq!(c.encode(7, 0), Some(7));
    let (num, den) = c.decode_fraction(7);
    assert_eq!(num, 7);
    assert_eq!(den, 1);
}

#[test]
fn direct_coefficients_overflow_returns_none() {
    let c = DirectCoefficients::new(1, 0, 0);
    // 2^16 does not fit a signed 16-bit register.
    assert_eq!(c.encode(1, 16), None);
    assert_eq!(c.encode(0x7FFF, 0), Some(0x7FFF));
    assert_eq!(c.encode(-0x8000, 0), Some(-0x8000));
}

#[test]
fn direct_coefficients_rounds_half_away_from_zero() {
    let c = DirectCoefficients::new(1, 0, 0);
    // 2.5 = 5 * 2^-1 rounds away from zero to 3; -2.5 to -3.
    assert_eq!(c.encode(5, -1), Some(3));
    assert_eq!(c.encode(-5, -1), Some(-3));
    // A tiny nudge below the tie rounds down: 2.4999999 ~ 5242879 * 2^-21.
    assert_eq!(c.encode(5242879, -21), Some(2));
}

#[test]
fn direct_coefficients_tiny_value_keeps_offset_rounding() {
    // b=5, R=-1: the offset alone sits exactly on the tie 0.5; a tiny
    // negative value tips the rounding down to 0, a tiny positive one
    // keeps the away-from-zero tie at 1.
    let c = DirectCoefficients::new(1, 5, -1);
    assert_eq!(c.encode(1, -120), Some(1));
    assert_eq!(c.encode(-1, -120), Some(0));
}

#[test]
fn direct_coefficients_from_response() {
    let data = [0x0A, 0x00, 0x05, 0x00, 0x00]; // m=10, b=5, R=0
    let c = DirectCoefficients::from_coefficients_response(&data).unwrap();
    assert_eq!(c.m, 10);
    assert_eq!(c.b, 5);
    assert_eq!(c.r, 0);
}

#[test]
fn direct_coefficients_from_response_negative_fields() {
    // m = -2 (0xFFFE), b = -1 (0xFFFF), R = -2 (0xFE), trailing byte ignored
    let data = [0xFE, 0xFF, 0xFF, 0xFF, 0xFE, 0x55];
    let c = DirectCoefficients::from_coefficients_response(&data).unwrap();
    assert_eq!(c.m, -2);
    assert_eq!(c.b, -1);
    assert_eq!(c.r, -2);
}

#[test]
fn direct_coefficients_short_response_returns_none() {
    assert!(DirectCoefficients::from_coefficients_response(&[1, 2, 3]).is_none());
}
