use terraps::json::{deep_clone, get_keys, get_length, get_map, get_values, JsonValue};
use terraps::text::chars_of;

fn st(s: &str) -> JsonValue {
    JsonValue::Str(chars_of(s))
}

fn obj(fields: Vec<(&str, JsonValue)>) -> JsonValue {
    JsonValue::Obj(fields.into_iter().map(|(k, v)| (chars_of(k), v)).collect())
}

#[test]
fn obj_get_present() {
    let v = obj(vec![("a", st("x")), ("b", JsonValue::Int(3))]);
    let got = v.obj_get(&chars_of("b")).unwrap();
    assert_eq!(*got, JsonValue::Int(3));
}

#[test]
fn obj_get_absent() {
    let v = obj(vec![("a", st("x"))]);
    assert!(v.obj_get(&chars_of("z")).is_none());
}

#[test]
fn obj_get_non_object() {
    let v = st("hello");
    assert!(v.obj_get(&chars_of("a")).is_none());
}

#[test]
fn index_or_null_missing() {
    let v = obj(vec![("a", st("x"))]);
    assert_eq!(*v.index_or_null(&chars_of("nope")), JsonValue::Null);
}

#[test]
fn obj_set_replaces_first() {
    let v = obj(vec![("a", st("x")), ("b", st("y"))]);
    let w = v.obj_set(&chars_of("a"), JsonValue::Int(5));
    assert_eq!(w, obj(vec![("a", JsonValue::Int(5)), ("b", st("y"))]));
}

#[test]
fn obj_set_appends_missing() {
    let v = obj(vec![("a", st("x"))]);
    let w = v.obj_set(&chars_of("c"), JsonValue::Bool(true));
    assert_eq!(w, obj(vec![("a", st("x")), ("c", JsonValue::Bool(true))]));
}

#[test]
fn obj_set_on_null_creates_object() {
    let w = JsonValue::Null.obj_set(&chars_of("k"), st("v"));
    assert_eq!(w, obj(vec![("k", st("v"))]));
}

#[test]
fn obj_set_on_scalar_is_identity() {
    let w = JsonValue::Int(9).obj_set(&chars_of("k"), st("v"));
    assert_eq!(w, JsonValue::Int(9));
}

#[test]
fn keys_values_map_of_object() {
    let v = obj(vec![("a", JsonValue::Int(1)), ("b", JsonValue::Int(2))]);
    let keys = get_keys(&v);
    assert_eq!(keys, vec!["a".to_string(), "b".to_string()]);
    let values = get_values(&v);
    assert_eq!(values, vec![JsonValue::Int(1), JsonValue::Int(2)]);
    let map = get_map(&v);
    assert_eq!(map.len(), 2);
    assert_eq!(map[0].0, "a".to_string());
    assert_eq!(map[1].1, JsonValue::Int(2));
}

#[test]
fn keys_of_non_object_empty() {
    assert!(get_keys(&JsonValue::Int(1)).is_empty());
    assert!(get_values(&st("s")).is_empty());
    assert!(get_map(&JsonValue::Null).is_empty());
}

#[test]
fn length_of_array_and_others() {
    let v = JsonValue::Arr(vec![JsonValue::Null, JsonValue::Bool(false)]);
    assert_eq!(get_length(&v), 2);
    assert_eq!(get_length(&st("abc")), 0);
}

#[test]
fn deep_clone_is_structural_copy() {
    let v = obj(vec![
        ("a", JsonValue::Arr(vec![JsonValue::Int(1), st("two")])),
        ("b", obj(vec![("inner", JsonValue::Bool(true))])),
    ]);
    let c = deep_clone(&v);
    assert_eq!(c, v);
    let c2 = v.clone();
    assert_eq!(c2, v);
}

#[test]
fn duplicate_keys_first_binding_wins() {
    let v = JsonValue::Obj(vec![
        (chars_of("k"), st("first")),
        (chars_of("k"), st("second")),
    ]);
    assert_eq!(*v.obj_get(&chars_of("k")).unwrap(), st("first"));
    let w = v.obj_set(&chars_of("k"), st("new"));
    assert_eq!(
        w,
        JsonValue::Obj(vec![
            (chars_of("k"), st("new")),
            (chars_of("k"), st("second")),
        ])
    );
}
