use convex_backend::json::{Json, Number};
use convex_backend::json_text::{parse_json, parse_json_bytes, print_json};
use convex_backend::object_json;
use convex_backend::serialize::{serialize, SerializeValue};
use convex_backend::value::{
    json_deserialize, json_deserialize_bytes, size_hint, string_from_value, ConvexArray,
    ConvexObject, ConvexValue, JsonBytes, JsonFloat, JsonInteger, ValueError,
};

fn same(a: &ConvexValue, b: &ConvexValue) -> bool {
    match (a, b) {
        (ConvexValue::Null, ConvexValue::Null) => true,
        (ConvexValue::Int64(x), ConvexValue::Int64(y)) => x == y,
        (ConvexValue::Float64(x), ConvexValue::Float64(y)) => x == y,
        (ConvexValue::Boolean(x), ConvexValue::Boolean(y)) => x == y,
        (ConvexValue::String(x), ConvexValue::String(y)) => x == y,
        (ConvexValue::Bytes(x), ConvexValue::Bytes(y)) => x == y,
        (ConvexValue::Array(x), ConvexValue::Array(y)) => {
            let (x, y) = (x.as_items(), y.as_items());
            x.len() == y.len() && x.iter().zip(y).all(|(x, y)| same(x, y))
        }
        (ConvexValue::Object(x), ConvexValue::Object(y)) => {
            let (x, y) = (x.as_fields(), y.as_fields());
            x.len() == y.len() && x.iter().zip(y).all(|(x, y)| x.0 == y.0 && same(&x.1, &y.1))
        }
        _ => false,
    }
}

fn float(x: f64) -> ConvexValue {
    ConvexValue::Float64(x.to_bits())
}

fn text(s: &str) -> ConvexValue {
    ConvexValue::String(s.to_string())
}

fn json(s: &str) -> Json {
    parse_json(s).unwrap()
}

fn wrapped(name: &str, payload: String) -> Json {
    Json::Object(vec![(name.to_string(), Json::Text(payload))])
}

fn round_trip(value: &ConvexValue) {
    let json = value.json_serialize().unwrap();
    let parsed = json_deserialize(&json).unwrap();
    assert!(same(&parsed, value), "str round-trip failed for {json}");
    let parsed_bytes = json_deserialize_bytes(json.as_bytes()).unwrap();
    assert!(same(&parsed_bytes, value), "bytes round-trip failed for {json}");
}

#[test]
fn test_json_round_trip() {
    let values = [
        ConvexValue::Null,
        ConvexValue::Boolean(true),
        ConvexValue::Boolean(false),
        ConvexValue::Int64(0),
        ConvexValue::Int64(-1),
        ConvexValue::Int64(i64::MAX),
        ConvexValue::Int64(i64::MIN),
        float(0.0),
        float(-0.0),
        float(f64::NAN),
        float(f64::INFINITY),
        float(f64::NEG_INFINITY),
        float(3.14159),
        text("hello"),
        ConvexValue::Bytes(vec![0, 1, 2, 255]),
        ConvexValue::Array(ConvexArray::new(vec![])),
        ConvexValue::Array(ConvexArray::new(vec![
            ConvexValue::Int64(1),
            text("two"),
            ConvexValue::Boolean(true),
            ConvexValue::Null,
        ])),
        ConvexValue::Object(ConvexObject::empty()),
        ConvexValue::Object(ConvexObject::for_value("key".to_string(), float(1.5)).unwrap()),
    ];
    for value in values {
        round_trip(&value);
    }
}

#[test]
fn test_json_deserialize_matches_try_from() {
    let cases = [
        json("null"),
        json("true"),
        json("1"),
        json("-1"),
        json("1.5"),
        json("\"a string\""),
        json("[1, 2, 3]"),
        json(r#"{"a": 1, "b": [true, null]}"#),
        wrapped("$integer", JsonInteger::encode(42)),
        wrapped("$bytes", JsonBytes::encode(&[1, 2, 3])),
        wrapped("$float", JsonFloat::encode(f64::NAN.to_bits())),
        wrapped("$float", JsonFloat::encode((-0.0f64).to_bits())),
        json(r#"{"single": "field"}"#),
    ];
    for case in cases {
        let printed = print_json(&case);
        let expected = ConvexValue::try_from(case).unwrap();
        let actual = json_deserialize(&printed).unwrap();
        assert!(same(&actual, &expected), "case: {printed}");
    }

    let mixed = Json::Object(vec![
        ("$integer".to_string(), Json::Text(JsonInteger::encode(7))),
        ("x".to_string(), Json::Number(Number::PosInt(1))),
    ]);
    let mixed_json = print_json(&mixed);
    assert!(ConvexValue::try_from(mixed).is_err());
    assert!(json_deserialize(&mixed_json).is_err());
}

#[test]
fn test_json_deserialize_errors() {
    let bad_float = wrapped("$float", JsonFloat::encode(1.0f64.to_bits()));
    let err = json_deserialize(&print_json(&bad_float)).err().unwrap().message();
    assert!(err.contains("should be encoded as a number"), "unexpected error: {err}");

    assert!(json_deserialize(r#"{"$bytes": 5}"#).is_err());
    assert!(json_deserialize(r#"{"$integer": null}"#).is_err());

    assert!(json_deserialize(r#"{"$foo": 1}"#).is_err());

    assert!(json_deserialize(r#"{"$integer": "!!!"}"#).is_err());
    assert!(json_deserialize(r#"{"$bytes": "!!!"}"#).is_err());
}

#[test]
fn test_json_deserialize_array_type() {
    let arr = json("[1, \"two\", null]");
    let expected = ConvexArray::try_from(arr).unwrap();
    let parsed = json_deserialize("[1, \"two\", null]").unwrap();
    assert!(same(
        &ConvexValue::Array(ConvexArray::from_value(parsed).unwrap()),
        &ConvexValue::Array(expected)
    ));
}

#[test]
fn test_json_deserialize_trailing_garbage() {
    assert!(json_deserialize("1 2").is_err());
    assert!(json_deserialize_bytes(b"null x").is_err());
    assert!(json_deserialize("").is_err());
}

#[test]
fn plain_zero_is_not_wrapped() {
    let zero = wrapped("$float", JsonFloat::encode(0.0f64.to_bits()));
    let err = json_deserialize(&print_json(&zero)).err().unwrap().message();
    assert_eq!(err, "Float64 0 should be encoded as a number");
    let negative = wrapped("$float", JsonFloat::encode((-0.0f64).to_bits()));
    assert!(same(&json_deserialize(&print_json(&negative)).unwrap(), &float(-0.0)));
}

#[test]
fn numbers_are_floats_and_integers_are_wrapped() {
    assert!(same(&json_deserialize("1").unwrap(), &float(1.0)));
    assert!(same(&json_deserialize("-3").unwrap(), &float(-3.0)));
    assert!(same(&json_deserialize("18446744073709551615").unwrap(), &float(u64::MAX as f64)));
    assert_eq!(
        ConvexValue::Int64(1).json_serialize().unwrap(),
        "{\"$integer\":\"AQAAAAAAAAA=\"}"
    );
    assert_eq!(float(1.5).json_serialize().unwrap(), "1.5");
    assert_eq!(float(1.0).json_serialize().unwrap(), "1.0");
    assert_eq!(
        float(-0.0).json_serialize().unwrap(),
        "{\"$float\":\"AAAAAAAAAIA=\"}"
    );
    assert_eq!(
        ConvexValue::Bytes(vec![1, 2, 3]).json_serialize().unwrap(),
        "{\"$bytes\":\"AQID\"}"
    );
}

#[test]
fn payloads_decode_what_they_encode() {
    for n in [0, 1, -1, i64::MIN, i64::MAX, 0x0102_0304_0506_0708] {
        assert_eq!(JsonInteger::decode(&JsonInteger::encode(n)).unwrap(), n);
        assert_eq!(encode_base64_of(&n.to_le_bytes()), JsonInteger::encode(n));
    }
    for x in [0.0, -0.0, 1.5, f64::NAN, f64::MIN_POSITIVE] {
        let bits = x.to_bits();
        assert_eq!(JsonFloat::decode(&JsonFloat::encode(bits)).unwrap(), bits);
    }
    assert_eq!(JsonBytes::decode("AQID").unwrap(), vec![1, 2, 3]);
    match JsonInteger::decode("AQID") {
        Err(ValueError::WrongLength(n)) => assert_eq!(n, 3),
        other => panic!("{other:?}"),
    }
    assert!(matches!(JsonFloat::decode("AQID"), Err(ValueError::WrongLength(3))));
    assert!(matches!(JsonBytes::decode("?"), Err(ValueError::Base64(_))));
}

fn encode_base64_of(b: &[u8]) -> String {
    base64::encode(b)
}

#[test]
fn errors_say_what_is_wrong() {
    let error = |s: &str| json_deserialize(s).err().unwrap();
    assert!(matches!(error("{"), ValueError::Syntax(_)));
    assert!(matches!(error("{\"$bytes\":5}"), ValueError::NotText(_)));
    assert!(matches!(error("{\"$bytes\":\"!\"}"), ValueError::Base64(_)));
    assert!(matches!(error("{\"$integer\":\"AQID\"}"), ValueError::WrongLength(3)));
    assert!(matches!(error("{\"$foo\":1}"), ValueError::ReservedField(_)));
    let array = ConvexArray::from_value(ConvexValue::Null).err().unwrap();
    assert!(matches!(array, ValueError::NotAnArray));
    let object = ConvexObject::from_value(ConvexValue::Null).err().unwrap();
    assert!(matches!(object, ValueError::NotAnObject));
    let message = string_from_value(ConvexValue::Null, "$bytes").err().unwrap().message();
    assert_eq!(message, "expected a string for $bytes value");
    assert_eq!(string_from_value(text("x"), "$bytes").unwrap(), "x");
}

#[test]
fn objects_sort_their_fields() {
    let mut object = ConvexObject::empty();
    object.set("b".to_string(), ConvexValue::Int64(1)).unwrap();
    object.set("a".to_string(), ConvexValue::Int64(2)).unwrap();
    object.set("b".to_string(), ConvexValue::Int64(3)).unwrap();
    let names: Vec<&str> = object.as_fields().iter().map(|f| f.0.as_str()).collect();
    assert_eq!(names, vec!["a", "b"]);
    assert!(same(&object.as_fields()[1].1, &ConvexValue::Int64(3)));
    assert!(object.set("$x".to_string(), ConvexValue::Null).is_err());
    assert_eq!(object.as_fields().len(), 2);
    let read = json_deserialize("{\"z\":1,\"a\":2,\"z\":3}").unwrap();
    assert_eq!(read.json_serialize().unwrap(), "{\"a\":2.0,\"z\":3.0}");
    let again = object_json::deserialize(object_json::serialize(&object)).unwrap();
    assert!(same(&ConvexValue::Object(again), &ConvexValue::Object(object)));
}

#[test]
fn arrays_and_objects_serialize_like_values() {
    let array = ConvexArray::new(vec![ConvexValue::Null, text("x")]);
    assert_eq!(array.json_serialize().unwrap(), "[null,\"x\"]");
    assert_eq!(print_json(&array.to_internal_json()), "[null,\"x\"]");
    let object = ConvexObject::for_value("k".to_string(), ConvexValue::Boolean(true)).unwrap();
    assert_eq!(object.json_serialize().unwrap(), "{\"k\":true}");
    assert_eq!(print_json(&object.to_internal_json()), "{\"k\":true}");
    assert!(ConvexObject::try_from(json("[]")).is_err());
    assert!(ConvexArray::try_from(json("{}")).is_err());
    assert_eq!(
        ConvexObject::try_from(json("{\"a\":null}")).unwrap().as_fields().len(),
        1
    );
}

#[test]
fn values_serialize_once() {
    let mut once = SerializeValue::new(ConvexValue::Int64(1));
    assert_eq!(print_json(&once.serialize().unwrap()), "{\"$integer\":\"AQAAAAAAAAA=\"}");
    assert!(once.serialize().is_err());
    assert_eq!(print_json(&serialize(&text("a"))), "\"a\"");
}

#[test]
fn sizes_are_hinted_where_they_are_known() {
    assert_eq!(size_hint(3, Some(3)), Some(3));
    assert_eq!(size_hint(3, Some(4)), None);
    assert_eq!(size_hint(3, None), None);
}

#[test]
fn deep_values_are_refused() {
    let mut value = ConvexValue::Null;
    for _ in 0..127 {
        value = ConvexValue::Array(ConvexArray::new(vec![value]));
    }
    round_trip(&value);
    let text = format!("{}null{}", "[".repeat(128), "]".repeat(128));
    assert!(json_deserialize(&text).is_err());
    assert!(parse_json(&text).is_err());
}

#[test]
fn json_texts_are_those_of_serde_json() {
    for s in ["null", "[1,-2,2.5]", "{\"a\":[true],\"b\":{}}", "\"\\u00e9\\n\"", "1e400", "[", "01"] {
        let theirs: Result<serde_json::Value, serde_json::Error> = serde_json::from_str(s);
        match (parse_json(s), &theirs) {
            (Ok(ours), Ok(v)) => {
                assert_eq!(print_json(&ours), serde_json::to_string(v).unwrap());
                assert_eq!(print_json(&parse_json_bytes(s.as_bytes()).unwrap()), print_json(&ours));
            }
            (Err(e), Err(f)) => assert_eq!(e, f.to_string()),
            (ours, _) => panic!("{s}: {ours:?}"),
        }
    }
    assert!(parse_json_bytes(b"\"\xff\"").is_err());
}
