use terraps::text::{chars_eq, chars_of, contains, replace_all, string_from_chars, u64_to_chars};

fn s(text: &str) -> Vec<char> {
    chars_of(text)
}

#[test]
fn chars_roundtrip() {
    let v = s("hello {server} world");
    assert_eq!(string_from_chars(&v), "hello {server} world".to_string());
}

#[test]
fn chars_eq_cases() {
    assert!(chars_eq(&s("abc"), &s("abc")));
    assert!(!chars_eq(&s("abc"), &s("abd")));
    assert!(!chars_eq(&s("abc"), &s("ab")));
    assert!(chars_eq(&s(""), &s("")));
}

#[test]
fn contains_cases() {
    assert!(contains(&s("x{server}y"), &s("{server}")));
    assert!(contains(&s("{server}"), &s("{server}")));
    assert!(!contains(&s("x{servery"), &s("{server}")));
    assert!(contains(&s("anything"), &s("")));
    assert!(!contains(&s("ab"), &s("abc")));
}

#[test]
fn replace_single_occurrence() {
    let r = replace_all(&s("{server}/hu"), &s("{server}"), &s("http://h:1"));
    assert_eq!(string_from_chars(&r), "http://h:1/hu".to_string());
}

#[test]
fn replace_multiple_occurrences() {
    let r = replace_all(&s("{server}/a/{server}/b"), &s("{server}"), &s("S"));
    assert_eq!(string_from_chars(&r), "S/a/S/b".to_string());
}

#[test]
fn replace_absent_is_identity() {
    let r = replace_all(&s("no token here"), &s("{server}"), &s("S"));
    assert_eq!(string_from_chars(&r), "no token here".to_string());
}

#[test]
fn replace_is_left_to_right_non_overlapping() {
    let r = replace_all(&s("aaa"), &s("aa"), &s("b"));
    assert_eq!(string_from_chars(&r), "ba".to_string());
}

#[test]
fn replace_empty_pattern_is_identity() {
    let r = replace_all(&s("abc"), &s(""), &s("x"));
    assert_eq!(string_from_chars(&r), "abc".to_string());
}

#[test]
fn decimal_rendering() {
    assert_eq!(string_from_chars(&u64_to_chars(0)), "0".to_string());
    assert_eq!(string_from_chars(&u64_to_chars(7)), "7".to_string());
    assert_eq!(string_from_chars(&u64_to_chars(10)), "10".to_string());
    assert_eq!(string_from_chars(&u64_to_chars(8080)), "8080".to_string());
    assert_eq!(
        string_from_chars(&u64_to_chars(u64::MAX)),
        "18446744073709551615".to_string()
    );
}
