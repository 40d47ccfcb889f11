use tishlang_desktop::json::{Json, JsonNumber};
use tishlang_desktop::num::{f64_bits_as_i64, f64_bits_as_u64};

fn u(f: f64) -> u64 {
    f64_bits_as_u64(f.to_bits())
}

fn i(f: f64) -> i64 {
    f64_bits_as_i64(f.to_bits())
}

#[test]
fn float_to_u64_matches_as() {
    for f in [0.0, -0.0, 0.5, 1.0, 1.9, 2.5, 1000.0, 4503599627370495.5, 9007199254740993.0,
        1.8446744073709552e19, 1e30, -1.0, -1e30, f64::INFINITY, f64::NEG_INFINITY, f64::NAN,
        f64::MIN_POSITIVE, 5e-324, 123456789.987] {
        assert_eq!(u(f), f as u64, "{f}");
    }
}

#[test]
fn float_to_i64_matches_as() {
    for f in [0.0, -0.0, 0.5, -0.5, 1.0, -1.9, 2.5, -1000.0, 9.2e18, -9.2e18, 9.3e18, -9.3e18,
        -9223372036854775808.0, 9223372036854775807.0, f64::INFINITY, f64::NEG_INFINITY, f64::NAN,
        5e-324, -123456789.987] {
        assert_eq!(i(f), f as i64, "{f}");
    }
}

#[test]
fn lenient_integer_readings() {
    assert_eq!(Json::Number(JsonNumber::Float(7.9f64.to_bits())).as_u64_lenient(), Some(7));
    assert_eq!(Json::Number(JsonNumber::NegInt(-3)).as_u64_lenient(), Some(0));
    assert_eq!(Json::Number(JsonNumber::PosInt(u64::MAX)).as_i64_lenient(), Some(i64::MAX));
    assert_eq!(Json::Number(JsonNumber::Float((-7.9f64).to_bits())).as_i64_lenient(), Some(-7));
    assert_eq!(Json::Bool(true).as_u64_lenient(), None);
}
