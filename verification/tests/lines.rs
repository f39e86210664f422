use warp10::data::{
    Data, GeoValue, Label, MultiValue, MultiValueKind, UnamedGeoTimeSeries, Value,
    Warp10Serializable,
};
use warp10::double::Double;
use warp10::sender::serialize_data_to_body;
use warp10::time::Timestamp;

fn d(x: f64) -> Double {
    Double::from_exp_str(&format!("{:e}", x)).unwrap()
}

fn point(name: &str, value: Value) -> Data {
    Data::new_without_time(None, name.to_owned(), vec![Label::new("k", "v")], value)
}

#[test]
fn timed_line_is_untimed_line_after_the_time() {
    let ts = Timestamp::from_unix(1_700_000_000, 42_000).unwrap();
    let labels = || vec![Label::new("a b", "c")];
    let timed = Data::new(ts, Some(GeoValue::new(d(1.5), d(-2.0), None)), "n".to_owned(), labels(), Value::Long(3));
    let untimed = Data::new_without_time(Some(GeoValue::new(d(1.5), d(-2.0), None)), "n".to_owned(), labels(), Value::Long(3));
    assert_eq!(timed.warp10_serialize(), format!("1700000000000042{}", untimed.warp10_serialize()));
    assert_eq!(untimed.warp10_serialize(), "/1.5:-2/ n{a%20b=c} 3");
}

#[test]
fn labels_are_joined_with_commas() {
    let no_labels = Data::new_without_time(None, "n".to_owned(), vec![], Value::Boolean(true));
    assert_eq!(no_labels.warp10_serialize(), "// n{} true");
    let three = Data::new_without_time(
        None,
        "n".to_owned(),
        vec![Label::new("a", "1"), Label::new("b", "2"), Label::new("c", "3")],
        Value::Int(0),
    );
    assert_eq!(three.warp10_serialize(), "// n{a=1,b=2,c=3} 0");
    let empty_label = Data::new_without_time(None, "n".to_owned(), vec![Label::new("", ""), Label::new("x", "")], Value::Int(0));
    assert_eq!(empty_label.warp10_serialize(), "// n{=,x=} 0");
}

#[test]
fn label_text_encodes_separators() {
    assert_eq!(Label::new("a=b,c", "{x}").warp10_serialize(), "a%3Db%2Cc=%7Bx%7D");
    assert_eq!(Label::new("%\"", ": '").warp10_serialize(), "%25%22=%3A%20%27");
    assert_eq!(Label::new("k", "}").warp10_serialize(), "k=%7D");
    assert_ne!(Label::new("a", "b=c").warp10_serialize(), Label::new("a=b", "c").warp10_serialize());
    assert_eq!(Label::new("-._~", "é").warp10_serialize(), "%2D%2E%5F%7E=%C3%A9");
}

#[test]
fn body_has_one_line_per_point() {
    assert_eq!(serialize_data_to_body(vec![]), "");
    assert_eq!(serialize_data_to_body(vec![point("a", Value::Int(1))]), "// a{k=v} 1");
    assert_eq!(
        serialize_data_to_body(vec![point("a", Value::Int(1)), point("b", Value::String("x y".to_owned()))]),
        "// a{k=v} 1\n// b{k=v} 'x%20y'"
    );
}

#[test]
fn points_stay_valid() {
    let ts = Timestamp::from_unix(0, 0).unwrap();
    let base = || UnamedGeoTimeSeries::new(ts, Value::Int(1));
    assert!(base().validate());
    assert!(UnamedGeoTimeSeries::for_ts(ts, Value::Int(1)).validate());
    assert!(base().with_geo(d(1.0), d(2.0), Some(3)).validate());
    assert!(base().with_elev(3).validate());
    let half = UnamedGeoTimeSeries { timestamp: ts, lat: Some(d(1.0)), lon: None, elev: None, value: Value::Int(1) };
    assert!(!half.validate());
    assert_eq!(
        UnamedGeoTimeSeries { timestamp: ts, lat: Some(d(1.0)), lon: None, elev: None, value: Value::Int(1) }
            .warp10_serialize(),
        "0/1"
    );
}

#[test]
fn multi_values() {
    assert_eq!(Value::MultiValue(MultiValue::new(vec![])).warp10_serialize(), "[!]");
    assert_eq!(MultiValue::new(vec![]).no_compression().warp10_serialize(), "[]");
    let nested = MultiValue::new(vec![MultiValueKind::Value(Value::MultiValue(
        MultiValue::new(vec![MultiValueKind::Value(Value::Boolean(false))]).no_compression(),
    ))]);
    assert_eq!(nested.warp10_serialize(), "[![false]]");
    assert!(MultiValue::new(vec![]).compressed);
    assert!(!MultiValue::new(vec![]).no_compression().compressed);
}

#[test]
fn values_from_plain_values() {
    assert_eq!(Value::from(42i32), Value::Int(42));
    assert_eq!(Value::from(42i64), Value::Long(42));
    assert_eq!(Value::from(true), Value::Boolean(true));
    assert_eq!(Value::from("s"), Value::String("s".to_owned()));
    assert_eq!(Value::from("s".to_owned()), Value::String("s".to_owned()));
    assert_eq!(Value::from(d(1.5)), Value::Double(d(1.5)));
}

#[test]
fn binary_values_are_written_as_given() {
    assert_eq!(Value::BinaryB64(String::new()).warp10_serialize(), "b64:");
    assert_eq!(Value::BinaryHex("00ff".to_owned()).warp10_serialize(), "hex:00ff");
}

#[test]
fn timestamps_follow_chrono() {
    assert_eq!(Timestamp::from_unix(25, 123456789).unwrap().micros(), 25123456);
    assert_eq!(Timestamp::from_unix(-1, 500_000_000).unwrap().micros(), -500_000);
    assert_eq!(Timestamp::from_unix(59, 1_500_000_000).unwrap().micros(), 60_500_000);
    assert!(Timestamp::from_unix(58, 1_500_000_000).is_none());
    assert!(Timestamp::from_unix(0, 2_000_000_000).is_none());
    assert!(Timestamp::from_unix(i64::MAX, 0).is_none());
    assert!(Timestamp::from_unix(8_000_000_000_000, 999_999_999).is_some());
}

#[test]
fn copies_have_the_same_text() {
    let ts = Timestamp::from_unix(1, 0).unwrap();
    let v = Value::MultiValue(MultiValue::new(vec![
        MultiValueKind::Value(Value::String("a b".to_owned())),
        MultiValueKind::UnamedGTS(UnamedGeoTimeSeries::new(ts, Value::Int(2)).with_elev(5)),
    ]));
    let copy = v.clone();
    assert_eq!(copy, v);
    assert_eq!(copy.warp10_serialize(), "[!'a%20b' 1000000//5/2]");
    let data = Data::new(ts, Some(GeoValue::new(d(1.0), d(2.0), None)), "n".to_owned(), vec![Label::new("k", "v")], v);
    let data_copy = data.clone();
    assert_eq!(data_copy, data);
    assert_eq!(data_copy.warp10_serialize(), data.warp10_serialize());
    let label = Label::new("x", "y");
    assert_eq!(label.clone(), label);
}

#[test]
fn names_are_encoded_more_strictly_than_string_values() {
    let d = Data::new_without_time(
        None,
        "a{b}:'c'\"".to_owned(),
        vec![Label::new("k{", "v:'")],
        Value::String("a{b}:'c'\" d".to_owned()),
    );
    assert_eq!(
        d.warp10_serialize(),
        "// a%7Bb%7D%3A%27c%27%22{k%7B=v%3A%27} 'a{b}:'c'\"%20d'"
    );
}

#[test]
fn timestamps_cover_exactly_the_years_of_chrono() {
    assert!(Timestamp::from_unix(8_210_266_876_799, 999_999_999).is_some());
    assert!(Timestamp::from_unix(8_210_266_876_799, 1_999_999_999).is_some());
    assert!(Timestamp::from_unix(8_210_266_876_800, 0).is_none());
    assert_eq!(Timestamp::from_unix(-8_334_601_228_800, 0).unwrap().micros(), -8_334_601_228_800_000_000);
    assert!(Timestamp::from_unix(-8_334_601_228_801, 999_999_999).is_none());
    assert_eq!(Timestamp::from_micros(-7).micros(), -7);
}

#[test]
fn copies_keep_every_item() {
    let ts = Timestamp::from_unix(3, 0).unwrap();
    let v = Value::MultiValue(MultiValue::new(vec![
        MultiValueKind::Value(Value::Int(1)),
        MultiValueKind::Value(Value::Long(1)),
        MultiValueKind::Value(Value::MultiValue(MultiValue::new(vec![]).no_compression())),
        MultiValueKind::UnamedGTS(UnamedGeoTimeSeries::new(ts, Value::BinaryHex("ff".to_owned()))),
    ]));
    let copy = v.clone();
    assert_eq!(copy, v);
    if let (Value::MultiValue(a), Value::MultiValue(b)) = (&copy, &v) {
        assert_eq!(a.data.len(), b.data.len());
        assert!(matches!(a.data[0], MultiValueKind::Value(Value::Int(1))));
        assert!(matches!(a.data[1], MultiValueKind::Value(Value::Long(1))));
    }
}

#[test]
fn value_from_str_holds_its_characters() {
    assert_eq!(Value::from("a b"), Value::String("a b".to_owned()));
    assert_eq!(Value::from(""), Value::String(String::new()));
    assert_eq!(Value::from("é'").warp10_serialize(), "'%C3%A9''");
}
