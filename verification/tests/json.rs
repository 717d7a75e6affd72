use caminus::json::number::JsonNumber;
use caminus::json::value::{JsonObject, JsonValue};

fn text(s: &str) -> JsonValue {
    JsonValue::String(s.to_string())
}

fn unsigned(n: u64) -> JsonValue {
    JsonValue::Number(JsonNumber::from_u64(n))
}

fn float(s: &str) -> JsonValue {
    JsonValue::from_serde_json(serde_json::Value::from(s.parse::<f64>().unwrap()))
}

fn object(members: Vec<(&str, JsonValue)>) -> JsonValue {
    let mut object = JsonObject::new();
    for (key, value) in members {
        object.insert(key.to_string(), value);
    }
    JsonValue::Object(object)
}

#[test]
fn compact_text_of_every_kind_of_value() {
    let value = object(vec![
        ("b", JsonValue::Array(vec![JsonValue::Null, JsonValue::Bool(true), text("x\"y")])),
        ("a", JsonValue::Number(JsonNumber::from_i64(-7))),
        ("d", float("1.5")),
        ("c", unsigned(18446744073709551615)),
        ("e", object(vec![])),
    ]);
    assert_eq!(
        value.to_string(),
        "{\"a\":-7,\"b\":[null,true,\"x\\\"y\"],\"c\":18446744073709551615,\"d\":1.5,\"e\":{}}"
    );
}

#[test]
fn debug_text_of_every_kind_of_value() {
    assert_eq!(JsonValue::Null.to_debug_string(), "Null");
    assert_eq!(JsonValue::Bool(false).to_debug_string(), "Bool(false)");
    assert_eq!(unsigned(3).to_debug_string(), "Number(3)");
    assert_eq!(float("2.0").to_debug_string(), "Number(2.0)");
    assert_eq!(text("integer").to_debug_string(), "String(\"integer\")");
    assert_eq!(
        JsonValue::Array(vec![unsigned(1), text("a")]).to_debug_string(),
        "Array [Number(1), String(\"a\")]"
    );
    assert_eq!(
        object(vec![("k", JsonValue::Null)]).to_debug_string(),
        "Object {\"k\": Null}"
    );
}

#[test]
fn values_reach_serde_json_unchanged() {
    let outside = object(vec![
        ("list", JsonValue::Array(vec![unsigned(1), JsonValue::Bool(true)])),
        ("n", JsonValue::Number(JsonNumber::from_i64(-2))),
        ("f", float("0.1")),
        ("s", text("t")),
    ])
    .to_serde_json();
    assert_eq!(outside["list"][0].as_u64(), Some(1));
    assert_eq!(outside["list"][1].as_bool(), Some(true));
    assert_eq!(outside["n"].as_i64(), Some(-2));
    assert_eq!(outside["f"].as_f64(), Some(0.1));
    assert_eq!(outside["s"].as_str(), Some("t"));
    assert!(JsonValue::Null.to_serde_json().is_null());
}

#[test]
fn values_come_from_serde_json_and_go_back_unchanged() {
    let source = "{\"z\":[null,true,-3,18446744073709551615,1.5,-0.0,{\"k\":\"v\"}],\
                  \"\u{fc}\":2,\"a\":9223372036854775807,\"\":\"x\"}";
    let outside: serde_json::Value = serde_json::from_str(source).unwrap();
    let value = JsonValue::from_serde_json(outside.clone());
    let list = JsonValue::Array(vec![
        JsonValue::Null,
        JsonValue::Bool(true),
        JsonValue::Number(JsonNumber::from_i64(-3)),
        unsigned(18446744073709551615),
        float("1.5"),
        float("-0.0"),
        object(vec![("k", text("v"))]),
    ]);
    let expected = object(vec![
        ("", text("x")),
        ("a", unsigned(9223372036854775807)),
        ("z", list),
        ("\u{fc}", unsigned(2)),
    ]);
    assert!(value.same(&expected));
    assert_eq!(value.as_object().unwrap().key_at(3), "\u{fc}");
    assert_eq!(value.to_serde_json(), outside);
    assert_eq!(value.to_string(), outside.to_string());
}

#[test]
fn a_non_negative_integer_is_the_same_from_either_type() {
    assert!(JsonNumber::from_i64(5).same(&JsonNumber::from_u64(5)));
    assert!(!JsonNumber::from_i64(-5).same(&JsonNumber::from_u64(5)));
}

#[test]
fn integers_and_floats_are_different_numbers() {
    assert!(!unsigned(1).same(&float("1.0")));
    assert!(float("1.0").same(&float("1.00")));
    assert!(!float("1.0").same(&float("1.5")));
}

#[test]
fn zeros_of_either_sign_are_equal() {
    assert!(float("0.0").same(&float("-0.0")));
    assert_eq!(float("-0.0").to_string(), "-0.0");
}

#[test]
fn which_numbers_are_integral() {
    assert!(JsonNumber::from_u64(u64::MAX).is_integral());
    assert!(JsonNumber::from_i64(i64::MIN).is_integral());
    for (literal, expected) in [
        ("0.0", true),
        ("-0.0", true),
        ("1.0", true),
        ("-3.0", true),
        ("1.5", false),
        ("-0.5", false),
        ("0.1", false),
        ("1e300", true),
        ("1e-300", false),
        ("5e-324", false),
        ("4503599627370496.0", true),
        ("4503599627370495.5", false),
        ("4503599627370497.0", true),
        ("9007199254740993.0", true),
        ("1.7976931348623157e308", true),
    ] {
        let JsonValue::Number(number) = float(literal) else {
            panic!("{} is a number", literal);
        };
        assert_eq!(number.is_integral(), expected, "{}", literal);
        let by_fraction = literal.parse::<f64>().unwrap().fract() == 0.0;
        assert_eq!(number.is_integral(), by_fraction, "{}", literal);
    }
}

#[test]
fn members_stand_in_the_order_of_their_keys() {
    let mut object = JsonObject::new();
    for key in ["b", "", "aa", "é", "a", "z", "\u{10000}", "\u{ffff}"] {
        object.insert(key.to_string(), text(key));
    }
    let keys: Vec<String> = (0..object.len()).map(|i| object.key_at(i).clone()).collect();
    let mut sorted = keys.clone();
    sorted.sort();
    assert_eq!(keys, sorted);
    assert_eq!(keys, ["", "a", "aa", "b", "z", "é", "\u{ffff}", "\u{10000}"]);
    for i in 0..object.len() {
        assert_eq!(object.value_at(i).as_str(), Some(object.key_at(i).as_str()));
    }
}

#[test]
fn a_member_that_is_set_again_is_replaced() {
    let mut object = JsonObject::new();
    object.insert("k".to_string(), unsigned(1));
    object.insert("l".to_string(), unsigned(2));
    object.insert("k".to_string(), text("new"));
    assert_eq!(object.len(), 2);
    assert_eq!(object.get("k").unwrap().as_str(), Some("new"));
    assert!(object.get("l").unwrap().same(&unsigned(2)));
    assert!(object.get("m").is_none());
    assert!(object.contains_key("l"));
    assert!(!object.contains_key("m"));
}

#[test]
fn objects_are_equal_whatever_the_order_of_insertion() {
    let a = object(vec![("x", unsigned(1)), ("y", JsonValue::Array(vec![float("0.0")]))]);
    let b = object(vec![("y", JsonValue::Array(vec![float("-0.0")])), ("x", unsigned(1))]);
    assert!(a.same(&b));
    assert!(b.same(&a));
    assert!(a.same(&a.clone()));
    let c = object(vec![("x", unsigned(1))]);
    assert!(!a.same(&c));
    assert!(!c.same(&a));
    let d = object(vec![("x", unsigned(1)), ("z", JsonValue::Array(vec![float("0.0")]))]);
    assert!(!a.same(&d));
    assert!(!JsonValue::Array(vec![unsigned(1)]).same(&JsonValue::Array(vec![unsigned(2)])));
    assert!(!JsonValue::Array(vec![]).same(&JsonValue::Null));
}

#[test]
fn only_objects_have_members() {
    let value = object(vec![("k", JsonValue::Bool(true))]);
    assert!(value.get("k").unwrap().same(&JsonValue::Bool(true)));
    assert!(value.get("l").is_none());
    assert_eq!(value.as_object().unwrap().len(), 1);
    let list = JsonValue::Array(vec![value]);
    assert!(list.get("k").is_none());
    assert!(list.as_object().is_none());
    assert!(list.as_str().is_none());
}
