use terraps::json::JsonValue;
use terraps::parse::{parse_json, parse_json_chars};
use terraps::ser::to_json_string;
use terraps::text::chars_of;

fn st(s: &str) -> JsonValue {
    JsonValue::Str(chars_of(s))
}

fn obj(fields: Vec<(&str, JsonValue)>) -> JsonValue {
    JsonValue::Obj(fields.into_iter().map(|(k, v)| (chars_of(k), v)).collect())
}

#[test]
fn serialize_scalars() {
    assert_eq!(to_json_string(&JsonValue::Null), "null".to_string());
    assert_eq!(to_json_string(&JsonValue::Bool(true)), "true".to_string());
    assert_eq!(to_json_string(&JsonValue::Bool(false)), "false".to_string());
    assert_eq!(to_json_string(&JsonValue::Int(0)), "0".to_string());
    assert_eq!(to_json_string(&JsonValue::Int(1234)), "1234".to_string());
    assert_eq!(to_json_string(&JsonValue::Int(-56)), "-56".to_string());
    assert_eq!(
        to_json_string(&JsonValue::Int(i64::MIN)),
        "-9223372036854775808".to_string()
    );
}

#[test]
fn serialize_strings_with_escapes() {
    assert_eq!(to_json_string(&st("plain")), "\"plain\"".to_string());
    assert_eq!(to_json_string(&st("a\"b")), "\"a\\\"b\"".to_string());
    assert_eq!(to_json_string(&st("a\\b")), "\"a\\\\b\"".to_string());
}

#[test]
fn serialize_nested() {
    let v = obj(vec![
        ("xs", JsonValue::Arr(vec![JsonValue::Int(1), JsonValue::Int(2)])),
        ("o", obj(vec![("k", st("v"))])),
    ]);
    assert_eq!(
        to_json_string(&v),
        "{\"xs\":[1,2],\"o\":{\"k\":\"v\"}}".to_string()
    );
}

#[test]
fn serialize_empty_containers() {
    assert_eq!(to_json_string(&JsonValue::Arr(vec![])), "[]".to_string());
    assert_eq!(to_json_string(&JsonValue::Obj(vec![])), "{}".to_string());
}

#[test]
fn parse_scalars() {
    assert_eq!(parse_json("null"), Some(JsonValue::Null));
    assert_eq!(parse_json("true"), Some(JsonValue::Bool(true)));
    assert_eq!(parse_json("false"), Some(JsonValue::Bool(false)));
    assert_eq!(parse_json("42"), Some(JsonValue::Int(42)));
    assert_eq!(parse_json("-7"), Some(JsonValue::Int(-7)));
    assert_eq!(parse_json("\"hi\""), Some(st("hi")));
}

#[test]
fn parse_nested() {
    assert_eq!(
        parse_json("{\"a\":[1,true,\"x\"],\"b\":{}}"),
        Some(obj(vec![
            (
                "a",
                JsonValue::Arr(vec![JsonValue::Int(1), JsonValue::Bool(true), st("x")])
            ),
            ("b", JsonValue::Obj(vec![])),
        ]))
    );
}

#[test]
fn parse_integer_bounds() {
    assert_eq!(
        parse_json("9223372036854775807"),
        Some(JsonValue::Int(i64::MAX))
    );
    assert_eq!(parse_json("9223372036854775808"), None);
    assert_eq!(
        parse_json("-9223372036854775808"),
        Some(JsonValue::Int(i64::MIN))
    );
    assert_eq!(parse_json("-9223372036854775809"), None);
}

#[test]
fn parse_rejects_malformed() {
    assert_eq!(parse_json(""), None);
    assert_eq!(parse_json("nul"), None);
    assert_eq!(parse_json("1 "), None);
    assert_eq!(parse_json("[1,]"), None);
    assert_eq!(parse_json("{\"a\"}"), None);
    assert_eq!(parse_json("\"unterminated"), None);
    assert_eq!(parse_json("\"bad\\escape\""), None);
    assert_eq!(parse_json("[1 2]"), None);
}

#[test]
fn round_trip_values() {
    let cases = vec![
        JsonValue::Null,
        JsonValue::Int(-123),
        st("with \"quotes\" and \\slashes\\"),
        JsonValue::Arr(vec![JsonValue::Int(1), st("two"), JsonValue::Bool(false)]),
        obj(vec![
            ("funcVer", st("1")),
            (
                "configs",
                obj(vec![("1", obj(vec![("network", obj(vec![("hu", st("http://h:1/hu"))]))]))]),
            ),
        ]),
    ];
    for v in cases {
        let text = to_json_string(&v);
        let chars = chars_of(text.as_str());
        let back = parse_json_chars(&chars).expect("canonical text must parse");
        assert_eq!(back, v);
    }
}

#[test]
fn parse_then_serialize_is_identity_on_canonical_text() {
    let text = "{\"a\":[1,2,{\"b\":null}],\"c\":\"x\"}";
    let v = parse_json(text).unwrap();
    assert_eq!(to_json_string(&v), text.to_string());
}
