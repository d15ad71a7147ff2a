use serde_json::{Number, Value};
use webfox::{
    build, build_form, build_form_strict, build_json, Args, Body, BuildError, ContentType,
    RequestItemType,
};

fn item(kind: RequestItemType, key: &str, value: &str) -> (RequestItemType, String, String) {
    (kind, String::from(key), String::from(value))
}

fn pair(key: &str, value: &str) -> (String, String) {
    (String::from(key), String::from(value))
}

fn object(members: Vec<(&str, Value)>) -> Value {
    let mut map = serde_json::Map::new();
    for (key, value) in members {
        map.insert(String::from(key), value);
    }
    Value::Object(map)
}

fn number(n: u64) -> Value {
    Value::Number(Number::from(n))
}

#[test]
fn json_field_is_parsed() {
    let data = vec![item(RequestItemType::RawJson, "values", "[1,2,3]")];
    let body = build_json(&data).unwrap();
    assert_eq!(body, object(vec![("values", Value::Array(vec![number(1), number(2), number(3)]))]));
    assert_eq!(body.to_string(), "{\"values\":[1,2,3]}");
}

#[test]
fn malformed_json_field_names_its_key() {
    let data = vec![item(RequestItemType::RawJson, "values", "[1,2")];
    match build_json(&data).unwrap_err() {
        BuildError::JsonFragment { key, message } => {
            assert_eq!(key, "values");
            assert_eq!(message, "EOF while parsing a list at line 1 column 4");
        }
        other => panic!("{:?}", other),
    }
    let err = build_json(&data).unwrap_err();
    assert_eq!(
        err.message(),
        "error parsing json in values: EOF while parsing a list at line 1 column 4"
    );
}

#[test]
fn first_malformed_json_field_is_reported() {
    let data = vec![
        item(RequestItemType::KeyVal, "a", "1"),
        item(RequestItemType::RawJson, "b", "{"),
        item(RequestItemType::RawJson, "c", "]"),
    ];
    match build_json(&data).unwrap_err() {
        BuildError::JsonFragment { key, .. } => assert_eq!(key, "b"),
        other => panic!("{:?}", other),
    }
    let data = vec![item(RequestItemType::RawJson, "empty", "")];
    match build_json(&data).unwrap_err() {
        BuildError::JsonFragment { key, message } => {
            assert_eq!(key, "empty");
            assert_eq!(message, "EOF while parsing a value at line 1 column 0");
        }
        other => panic!("{:?}", other),
    }
}

#[test]
fn json_last_write_wins() {
    let data = vec![item(RequestItemType::KeyVal, "a", "1"), item(RequestItemType::KeyVal, "a", "2")];
    let body = build_json(&data).unwrap();
    assert_eq!(body, object(vec![("a", Value::String(String::from("2")))]));
    assert_eq!(body.to_string(), "{\"a\":\"2\"}");

    let data = vec![
        item(RequestItemType::KeyVal, "a", "1"),
        item(RequestItemType::RawJson, "b", "true"),
        item(RequestItemType::RawJson, "a", "null"),
    ];
    let body = build_json(&data).unwrap();
    assert_eq!(body, object(vec![("a", Value::Null), ("b", Value::Bool(true))]));
}

#[test]
fn string_field_is_a_json_string() {
    let data = vec![item(RequestItemType::KeyVal, "count", "5"), item(RequestItemType::RawJson, "n", "5")];
    let body = build_json(&data).unwrap();
    assert_eq!(body, object(vec![("count", Value::String(String::from("5"))), ("n", number(5))]));
    let data = vec![item(RequestItemType::KeyVal, "quote", "say \"hi\"")];
    assert_eq!(build_json(&data).unwrap().to_string(), "{\"quote\":\"say \\\"hi\\\"\"}");
}

#[test]
fn empty_data_is_an_empty_object() {
    let body = build_json(&Vec::new()).unwrap();
    assert_eq!(body, Value::Object(serde_json::Map::new()));
    assert_eq!(body.to_string(), "{}");
}

#[test]
fn nested_json_field() {
    let data = vec![item(RequestItemType::RawJson, "o", " {\"x\": [true, null]} ")];
    let body = build_json(&data).unwrap();
    let inner = object(vec![("x", Value::Array(vec![Value::Bool(true), Value::Null]))]);
    assert_eq!(body, object(vec![("o", inner)]));
}

#[test]
fn form_takes_values_verbatim() {
    let data = vec![
        item(RequestItemType::KeyVal, "first", "john"),
        item(RequestItemType::RawJson, "values", "[1,2,3]"),
        item(RequestItemType::KeyVal, "last", "doe"),
    ];
    assert_eq!(
        build_form(&data).unwrap(),
        vec![pair("first", "john"), pair("values", "[1,2,3]"), pair("last", "doe")]
    );
}

#[test]
fn form_last_write_wins() {
    let data = vec![item(RequestItemType::KeyVal, "a", "1"), item(RequestItemType::KeyVal, "a", "2")];
    assert_eq!(build_form(&data).unwrap(), vec![pair("a", "2")]);

    let data = vec![
        item(RequestItemType::KeyVal, "a", "1"),
        item(RequestItemType::KeyVal, "b", "2"),
        item(RequestItemType::KeyVal, "a", "3"),
        item(RequestItemType::KeyVal, "c", "4"),
        item(RequestItemType::KeyVal, "b", "5"),
    ];
    assert_eq!(build_form(&data).unwrap(), vec![pair("a", "3"), pair("b", "5"), pair("c", "4")]);
}

#[test]
fn empty_data_is_an_empty_form() {
    assert_eq!(build_form(&Vec::new()).unwrap(), Vec::new());
    assert_eq!(build_form_strict(&Vec::new()).unwrap(), Vec::new());
}

#[test]
fn strict_form_rejects_json_fields() {
    let data = vec![
        item(RequestItemType::KeyVal, "first", "john"),
        item(RequestItemType::RawJson, "values", "[1,2,3]"),
        item(RequestItemType::RawJson, "more", "{}"),
    ];
    match build_form_strict(&data).unwrap_err() {
        BuildError::RawJsonInForm { key } => assert_eq!(key, "values"),
        other => panic!("{:?}", other),
    }
    assert_eq!(
        build_form_strict(&data).unwrap_err().message(),
        "json field in a form body: values"
    );
}

#[test]
fn strict_form_takes_string_fields() {
    let data = vec![
        item(RequestItemType::KeyVal, "a", "1"),
        item(RequestItemType::KeyVal, "b", "2"),
        item(RequestItemType::KeyVal, "a", "3"),
    ];
    assert_eq!(build_form_strict(&data).unwrap(), vec![pair("a", "3"), pair("b", "2")]);
}

#[test]
fn build_follows_the_format() {
    let data = vec![item(RequestItemType::KeyVal, "a", "1"), item(RequestItemType::RawJson, "b", "2")];
    match build(&data, ContentType::Json).unwrap() {
        Body::Json(value) => {
            assert_eq!(value, object(vec![("a", Value::String(String::from("1"))), ("b", number(2))]))
        }
        other => panic!("{:?}", other),
    }
    match build(&data, ContentType::Form).unwrap() {
        Body::Form(pairs) => assert_eq!(pairs, vec![pair("a", "1"), pair("b", "2")]),
        other => panic!("{:?}", other),
    }
    assert!(matches!(build(&data, ContentType::Multipart).unwrap(), Body::Multipart));
}

#[test]
fn build_reports_malformed_json_only_for_json() {
    let data = vec![item(RequestItemType::RawJson, "values", "[1,2")];
    assert!(matches!(
        build(&data, ContentType::Json).unwrap_err(),
        BuildError::JsonFragment { .. }
    ));
    assert!(matches!(build(&data, ContentType::Form).unwrap(), Body::Form(_)));
    assert!(matches!(build(&data, ContentType::Multipart).unwrap(), Body::Multipart));
}

#[test]
fn parsed_data_builds_a_body() {
    let args = Args::parse(vec!["program", "POST", "api.com", "a=1", "b:=2", "c:d", "q==x", "a=3"])
        .unwrap();
    match build(&args.data, args.format).unwrap() {
        Body::Json(value) => {
            assert_eq!(value.to_string(), "{\"a\":\"3\",\"b\":2}")
        }
        other => panic!("{:?}", other),
    }
    let args = Args::parse(vec!["program", "-f", "api.com", "a=1", "b:=2", "a=3"]).unwrap();
    match build(&args.data, args.format).unwrap() {
        Body::Form(pairs) => assert_eq!(pairs, vec![pair("a", "3"), pair("b", "2")]),
        other => panic!("{:?}", other),
    }
}
