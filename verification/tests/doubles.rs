use warp10::data::{Value, Warp10Serializable};
use warp10::double::Double;

fn d(x: f64) -> Double {
    Double::from_exp_str(&format!("{:e}", x)).unwrap()
}

fn text(x: f64) -> String {
    Value::Double(d(x)).warp10_serialize()
}

#[test]
fn exp_text_is_read_back() {
    assert_eq!(
        Double::from_exp_str("4.266e1"),
        Some(Double::Finite { negative: false, mantissa: 4266, exponent: -2 })
    );
    assert_eq!(
        Double::from_exp_str("-1.5e-7"),
        Some(Double::Finite { negative: true, mantissa: 15, exponent: -8 })
    );
    assert_eq!(
        Double::from_exp_str("0e0"),
        Some(Double::Finite { negative: false, mantissa: 0, exponent: 0 })
    );
    assert_eq!(Double::from_exp_str("NaN"), Some(Double::NaN));
    assert_eq!(Double::from_exp_str("inf"), Some(Double::Infinite { negative: false }));
    assert_eq!(Double::from_exp_str("-inf"), Some(Double::Infinite { negative: true }));
    assert_eq!(
        Double::from_exp_str("1.8446744073709551615e19"),
        Some(Double::Finite { negative: false, mantissa: u64::MAX, exponent: 0 })
    );
}

#[test]
fn text_that_no_double_writes_is_refused() {
    for s in [
        "", "4.26", "04e1", "4.e1", ".5e1", "1e01", "1e-0", "1e", "e1", "1.5e1x", "+1e1",
        "0.5e0", "1.8446744073709551616e19", "1e99999", "nan", "-NaN", "infinity", "--1e1",
    ] {
        assert_eq!(Double::from_exp_str(s), None, "{s}");
    }
}

#[test]
fn double_text_is_display_text() {
    for x in [
        42.66, 32.85, 8.1, 0.0, -0.0, 1.0, -1.5, 100.0, 1e21, 1e-7, 0.1, 123456.789,
        f64::MAX, f64::MIN_POSITIVE, 5e-324, -2.5e-300, 0.7071067811865475,
    ] {
        assert_eq!(text(x), x.to_string(), "{x:e}");
    }
    assert_eq!(text(f64::NAN), "NaN");
    assert_eq!(text(f64::INFINITY), "inf");
    assert_eq!(text(f64::NEG_INFINITY), "-inf");
}

#[test]
fn decimal_text_places_the_point() {
    let t = |negative, mantissa, exponent| {
        Value::Double(Double::Finite { negative, mantissa, exponent }).warp10_serialize()
    };
    assert_eq!(t(false, 4266, -2), "42.66");
    assert_eq!(t(false, 5, -3), "0.005");
    assert_eq!(t(false, 12, 3), "12000");
    assert_eq!(t(true, 0, 0), "-0");
    assert_eq!(t(false, 123, -3), "0.123");
}

#[test]
fn integers_are_written_in_full() {
    assert_eq!(Value::Int(i32::MIN).warp10_serialize(), "-2147483648");
    assert_eq!(Value::Long(i64::MIN).warp10_serialize(), "-9223372036854775808");
    assert_eq!(Value::Long(i64::MAX).warp10_serialize(), "9223372036854775807");
    assert_eq!(Value::Int(0).warp10_serialize(), "0");
    assert_eq!(Value::Long(-7).warp10_serialize(), "-7");
}
