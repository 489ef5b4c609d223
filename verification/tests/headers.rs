use capsule::headers::{filename_from_headers, is_encrypted, parse_filename_param};
use reqwest::header::{HeaderMap, HeaderName, HeaderValue};

fn headers(fields: &[(&'static str, &[u8])]) -> HeaderMap {
    let mut map = HeaderMap::new();
    for (name, value) in fields {
        map.append(HeaderName::from_static(name), HeaderValue::from_bytes(value).unwrap());
    }
    map
}

fn named(value: &str) -> Option<String> {
    filename_from_headers(&headers(&[("content-disposition", value.as_bytes())]))
}

#[test]
fn filename_parameter_loses_its_quotes() {
    let parse = |value: &str| parse_filename_param(value);
    assert_eq!(parse("attachment; filename=\"a b.txt\""), Some("a b.txt".to_string()));
    assert_eq!(parse("attachment; filename=a.txt"), Some("a.txt".to_string()));
    assert_eq!(parse("filename=\"\"a\"\"\""), Some("a".to_string()));
    assert_eq!(parse("filename=\"\""), Some("".to_string()));
    assert_eq!(parse("attachment;\u{a0}\tfilename=x \u{3000}; y"), Some("x".to_string()));
}

#[test]
fn extended_filename_parameter_loses_its_charset() {
    let parse = |value: &str| parse_filename_param(value);
    assert_eq!(parse("attachment; filename*=UTF-8''a%20b.txt"), Some("a%20b.txt".to_string()));
    assert_eq!(parse("filename*=\"UTF-8''x''y\""), Some("x''y".to_string()));
    assert_eq!(parse("filename*=plain.txt"), Some("plain.txt".to_string()));
    assert_eq!(parse("filename*=''"), Some("".to_string()));
}

#[test]
fn first_filename_parameter_counts() {
    let parse = |value: &str| parse_filename_param(value);
    assert_eq!(parse("filename=a; filename=b"), Some("a".to_string()));
    assert_eq!(parse("filename*=UTF-8''a; filename=b"), Some("a".to_string()));
    assert_eq!(parse(";;filename=a"), Some("a".to_string()));
}

#[test]
fn other_parameters_name_no_file() {
    assert_eq!(parse_filename_param(""), None);
    assert_eq!(parse_filename_param("attachment"), None);
    assert_eq!(parse_filename_param("attachment; name=a; Filename=b"), None);
    assert_eq!(parse_filename_param("xfilename=a"), None);
    assert_eq!(parse_filename_param("filename =a"), None);
}

#[test]
fn only_the_last_component_of_a_filename_is_used() {
    assert_eq!(named("attachment; filename=a.txt"), Some("a.txt".to_string()));
    assert_eq!(named("attachment; filename=\"../../etc/passwd\""), Some("passwd".to_string()));
    assert_eq!(named("attachment; filename=/a/b/"), Some("b".to_string()));
    assert_eq!(named("attachment; filename=a/./"), Some("a".to_string()));
    assert_eq!(named("attachment; filename=a//b//."), Some("b".to_string()));
    assert_eq!(named("attachment; filename=12:30.txt"), Some("12:30.txt".to_string()));
    let backslashed = named("attachment; filename=a\\b/c\\d.txt");
    assert!([Some("c\\d.txt".to_string()), Some("d.txt".to_string())].contains(&backslashed));
}

#[test]
fn filename_that_names_nothing_is_not_used() {
    assert_eq!(named("attachment; filename=a/.."), None);
    assert_eq!(named("attachment; filename=.."), None);
    assert_eq!(named("attachment; filename=."), None);
    assert_eq!(named("attachment; filename=/"), None);
    assert_eq!(named("attachment; filename=\"\""), None);
    assert_eq!(named("attachment"), None);
    assert_eq!(filename_from_headers(&headers(&[])), None);
}

#[test]
fn header_that_is_not_visible_ascii_is_not_read() {
    assert_eq!(named("attachment; filename=\u{fc}.txt"), None);
    assert_eq!(named("attachment;\tfilename=a.txt"), Some("a.txt".to_string()));
    assert!(!is_encrypted(&headers(&[("x-encrypted", b"true\xff")])));
}

#[test]
fn encrypted_mark_is_true_in_any_case() {
    assert!(is_encrypted(&headers(&[("x-encrypted", b"true")])));
    assert!(is_encrypted(&headers(&[("x-encrypted", b"TrUe")])));
    assert!(!is_encrypted(&headers(&[("x-encrypted", b"false")])));
    assert!(!is_encrypted(&headers(&[("x-encrypted", b" true")])));
    assert!(!is_encrypted(&headers(&[("x-encrypted", b"")])));
    assert!(!is_encrypted(&headers(&[("content-type", b"true")])));
}

#[test]
fn first_of_several_headers_counts() {
    assert!(is_encrypted(&headers(&[("x-encrypted", b"true"), ("x-encrypted", b"false")])));
    assert!(!is_encrypted(&headers(&[("x-encrypted", b"false"), ("x-encrypted", b"true")])));
}
