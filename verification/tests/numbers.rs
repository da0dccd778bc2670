use node_quic::number::JsNumber;
use node_quic::value::{read_u64_option, value_to_bytes, JsValue};

fn js(n: f64) -> JsNumber {
    JsNumber { bits: n.to_bits() }
}

const SAMPLES: [f64; 22] = [
    0.0,
    -0.0,
    1.0,
    -1.0,
    0.5,
    1.5,
    42.0,
    65535.0,
    4503599627370496.5,
    9007199254740991.0,
    9007199254740993.0,
    1e15,
    1.8446744073709552e19,
    1.8446744073709550e19,
    1e300,
    5e-324,
    2.2250738585072014e-308,
    1e-10,
    f64::INFINITY,
    f64::NEG_INFINITY,
    f64::NAN,
    f64::MAX,
];

#[test]
fn conversion_agrees_with_the_cast() {
    for n in SAMPLES {
        assert_eq!(js(n).to_u64(), n as u64, "{}", n);
    }
}

#[test]
fn number_rules_agree_with_the_float_operations() {
    for n in SAMPLES {
        assert_eq!(js(n).is_finite(), n.is_finite(), "{}", n);
        assert_eq!(js(n).is_negative(), n < 0.0, "{}", n);
        if n.is_finite() {
            assert_eq!(js(n).is_integral(), n.fract() == 0.0, "{}", n);
            assert_eq!(js(n).is_zero(), n == 0.0, "{}", n);
        }
        for max in [8u64, 20, 65535, u64::MAX] {
            let valid = n.is_finite() && n >= 0.0 && n.fract() == 0.0 && n <= max as f64;
            assert_eq!(js(n).is_integer_up_to(max), valid, "{} up to {}", n, max);
        }
    }
}

#[test]
fn numeric_options_are_finite_and_not_negative() {
    assert_eq!(read_u64_option(&JsValue::Number(js(7.9))), Some(7));
    assert_eq!(read_u64_option(&JsValue::Number(js(-0.0))), Some(0));
    assert_eq!(read_u64_option(&JsValue::Number(js(-1.0))), None);
    assert_eq!(read_u64_option(&JsValue::Number(js(f64::NAN))), None);
    assert_eq!(read_u64_option(&JsValue::Number(js(f64::INFINITY))), None);
    assert_eq!(read_u64_option(&JsValue::BigInt(5)), None);
    assert_eq!(read_u64_option(&JsValue::Undefined), None);
}

#[test]
fn error_codes_clamp() {
    assert_eq!(JsValue::Number(js(-3.0)).to_error_code(), 0);
    assert_eq!(JsValue::Number(js(f64::NAN)).to_error_code(), 0);
    assert_eq!(JsValue::Number(js(f64::INFINITY)).to_error_code(), u64::MAX);
    assert_eq!(JsValue::Number(js(12.7)).to_error_code(), 12);
    assert_eq!(JsValue::Null.to_error_code(), 0);
}

#[test]
fn strings_and_buffers_are_bytes() {
    assert_eq!(value_to_bytes(&JsValue::Text(b"pem".to_vec())), Some(b"pem".to_vec()));
    assert_eq!(value_to_bytes(&JsValue::Buffer(vec![0, 255])), Some(vec![0, 255]));
    assert_eq!(value_to_bytes(&JsValue::Object), None);
    assert!(JsValue::Null.is_missing() && JsValue::Undefined.is_missing());
    assert!(!JsValue::Boolean(false).is_missing());
}
