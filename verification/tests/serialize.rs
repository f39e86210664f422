use warp10::data::{
    Data, GeoValue, HHCode, Label, MultiValue, MultiValueKind, Quaternions, UnamedGeoTimeSeries,
    Value, Warp10Serializable,
};
use warp10::double::Double;
use warp10::time::Timestamp;

/// The double that `x` is, read from the text that `{:e}` writes for it.
fn d(x: f64) -> Double {
    Double::from_exp_str(&format!("{:e}", x)).unwrap()
}

fn ts() -> Timestamp {
    Timestamp::from_unix(25, 123456789).unwrap()
}

#[test]
fn serialize_int() {
    assert_eq!(Value::Int(42).warp10_serialize(), "42");
}

#[test]
fn serialize_long() {
    assert_eq!(Value::Long(42).warp10_serialize(), "42");
}

#[test]
fn serialize_double() {
    assert_eq!(Value::Double(d(42.66)).warp10_serialize(), "42.66");
}

#[test]
fn serialize_boolean() {
    assert_eq!(Value::Boolean(true).warp10_serialize(), "true");
    assert_eq!(Value::Boolean(false).warp10_serialize(), "false");
}

#[test]
fn serialize_string() {
    assert_eq!(Value::String("foobar".to_owned()).warp10_serialize(), "'foobar'");

    assert_eq!(
        Value::String("hello warp10".to_owned()).warp10_serialize(),
        "'hello%20warp10'"
    );
}

#[test]
fn serialize_hh_code() {
    assert_eq!(
        Value::HHCode(HHCode::new(d(42.66), d(32.85))).warp10_serialize(),
        "HH:42.66:32.85"
    );
}

#[test]
fn serialize_quaternions() {
    assert_eq!(
        Value::Quaternions(Quaternions::new(
            d(0.7071067811865475),
            d(0.408248290463863),
            d(0.408248290463863),
            d(0.408248290463863)
        ))
        .warp10_serialize(),
        "Q:0.7071067811865475:0.408248290463863:0.408248290463863:0.408248290463863"
    );
}

#[test]
fn serialize_binary_b64() {
    assert_eq!(
        Value::BinaryB64("aGVsbG8gV2FycCAxMAo=".to_owned()).warp10_serialize(),
        "b64:aGVsbG8gV2FycCAxMAo="
    );
}

#[test]
fn serialize_binary_hex() {
    assert_eq!(
        Value::BinaryHex("68656c6c6f2057617270203130".to_owned()).warp10_serialize(),
        "hex:68656c6c6f2057617270203130"
    );
}

#[test]
fn serialize_unamed_geo_time_series() {
    assert_eq!(
        UnamedGeoTimeSeries::new(ts(), Value::Int(42)).warp10_serialize(),
        "25123456/42"
    );

    assert_eq!(
        UnamedGeoTimeSeries::new(ts(), Value::Int(42))
            .with_geo(d(42.66), d(32.85), None)
            .warp10_serialize(),
        "25123456/42.66:32.85/42"
    );

    assert_eq!(
        UnamedGeoTimeSeries::new(ts(), Value::Int(42))
            .with_elev(10)
            .warp10_serialize(),
        "25123456//10/42"
    );

    assert_eq!(
        UnamedGeoTimeSeries::new(ts(), Value::Int(42))
            .with_geo(d(42.66), d(32.85), Some(10))
            .warp10_serialize(),
        "25123456/42.66:32.85/10/42"
    );
}

#[test]
fn serialize_multi_value() {
    assert_eq!(
        Value::MultiValue(MultiValue::new(vec![
            MultiValueKind::Value(Value::Int(42)),
            MultiValueKind::UnamedGTS(
                UnamedGeoTimeSeries::new(ts(), Value::Int(42))
                    .with_geo(d(42.66), d(32.85), Some(10))
            )
        ]))
        .warp10_serialize(),
        "[!42 25123456/42.66:32.85/10/42]"
    );

    assert_eq!(
        Value::MultiValue(
            MultiValue::new(vec![
                MultiValueKind::Value(Value::Int(42)),
                MultiValueKind::Value(Value::Double(d(8.1)))
            ])
            .no_compression()
        )
        .warp10_serialize(),
        "[42 8.1]"
    );
}

#[test]
fn serialize_geo() {
    assert_eq!(GeoValue::new(d(42.66), d(32.85), None).warp10_serialize(), "42.66:32.85/");
    assert_eq!(
        GeoValue::new(d(42.66), d(32.85), Some(10)).warp10_serialize(),
        "42.66:32.85/10"
    );
}

#[test]
fn serialize_label() {
    assert_eq!(
        Label::new("name 1", "\u{51c4}\u{3044} value 2").warp10_serialize(),
        "name%201=%E5%87%84%E3%81%84%20value%202"
    );
}

#[test]
fn serialize_data() {
    assert_eq!(
        Data::new(
            ts(),
            None,
            "original name".to_owned(),
            vec![Label::new("label1", "value1"), Label::new("label 2", "value 2"),],
            Value::String("foobar".to_owned())
        )
        .warp10_serialize(),
        "25123456// original%20name{label1=value1,label%202=value%202} 'foobar'"
    );
    assert_eq!(
        Data::new(
            ts(),
            Some(GeoValue::new(d(42.66), d(32.85), Some(10))),
            "original name".to_owned(),
            vec![Label::new("label1", "value1"), Label::new("label 2", "value 2"),],
            Value::String("foobar".to_owned())
        )
        .warp10_serialize(),
        "25123456/42.66:32.85/10 original%20name{label1=value1,label%202=value%202} 'foobar'"
    );
    assert_eq!(
        Data::new_without_time(
            Some(GeoValue::new(d(42.66), d(32.85), Some(10))),
            "original name".to_owned(),
            vec![Label::new("label1", "value1"), Label::new("label 2", "value 2"),],
            Value::String("foobar".to_owned())
        )
        .warp10_serialize(),
        "/42.66:32.85/10 original%20name{label1=value1,label%202=value%202} 'foobar'"
    );
}

/// A string value holding the JSON text of `obj`.
fn json_value<T: serde::Serialize>(obj: &T) -> Value {
    Value::String(serde_json::to_string(obj).unwrap())
}

#[test]
fn serialize_structure_into_json_string() {
    assert_eq!(json_value(&vec![""]), Value::String("[\"\"]".to_string()));

    let mut map = std::collections::HashMap::new();

    map.insert("baz", "qux'");

    assert_eq!(json_value(&map), Value::String("{\"baz\":\"qux'\"}".to_string()));

    assert_eq!(
        Data::new_without_time(
            Some(GeoValue::new(d(42.66), d(32.85), Some(10))),
            "original name".to_string(),
            vec![Label::new("label1", "value1"), Label::new("label 2", "value 2"),],
            json_value(&map),
        )
        .warp10_serialize(),
        "/42.66:32.85/10 original%20name{label1=value1,label%202=value%202} '{\"baz\":\"qux'\"}'"
    );
}
