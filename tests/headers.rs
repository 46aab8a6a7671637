use reqwest::header::{HeaderMap, HeaderName, HeaderValue};
use request_scope::headers::{bytes_are_text, HeaderAccumulator};

fn with_cookie(v: &[u8]) -> HeaderMap {
    let mut m = HeaderMap::new();
    m.insert("set-cookie", HeaderValue::from_bytes(v).unwrap());
    m
}

fn cookie_of(acc: &HeaderAccumulator) -> Option<Vec<u8>> {
    acc.cookie_headers.as_ref().unwrap().get("set-cookie").map(|v| v.as_bytes().to_vec())
}

#[test]
fn cookies_are_joined_with_separator() {
    let mut acc = HeaderAccumulator::new(true, false);
    acc.merge_cookies(&with_cookie(b"a=1"));
    acc.merge_cookies(&with_cookie(b"b=2"));
    assert_eq!(cookie_of(&acc), Some(b"a=1; b=2".to_vec()));
}

#[test]
fn first_cookie_is_taken_as_is() {
    let mut acc = HeaderAccumulator::new(true, false);
    assert_eq!(cookie_of(&acc), None);
    acc.merge_cookies(&with_cookie(b"b=2"));
    assert_eq!(cookie_of(&acc), Some(b"b=2".to_vec()));
}

#[test]
fn malformed_cookie_leaves_existing_value() {
    let mut acc = HeaderAccumulator::new(true, false);
    acc.merge_cookies(&with_cookie(b"a=1"));
    acc.merge_cookies(&with_cookie(b"b=\xff2"));
    assert_eq!(cookie_of(&acc), Some(b"a=1".to_vec()));
}

#[test]
fn response_without_cookie_changes_nothing() {
    let mut acc = HeaderAccumulator::new(true, false);
    acc.merge_cookies(&with_cookie(b"a=1"));
    let mut other = HeaderMap::new();
    other.insert("x-other", HeaderValue::from_static("z"));
    acc.merge_cookies(&other);
    assert_eq!(cookie_of(&acc), Some(b"a=1".to_vec()));
}

#[test]
fn cookies_disabled_gathers_nothing() {
    let mut acc = HeaderAccumulator::new(false, false);
    assert!(acc.has_cookie_room());
    acc.merge_cookies(&with_cookie(b"a=1"));
    assert!(acc.cookie_headers.is_none());
}

#[test]
fn experimental_headers_copied_when_enabled() {
    let mut acc = HeaderAccumulator::new(false, true);
    acc.x_response_headers.insert("x-a", HeaderValue::from_static("1"));
    acc.x_response_headers.insert("x-b", HeaderValue::from_static("2"));
    let mut out = HeaderMap::new();
    out.insert("x-a", HeaderValue::from_static("old"));
    out.insert("x-c", HeaderValue::from_static("3"));
    assert!(acc.fits_experimental_headers(&out));
    acc.extend_experimental_headers(&mut out);
    assert_eq!(out.get("x-a").unwrap(), "1");
    assert_eq!(out.get("x-b").unwrap(), "2");
    assert_eq!(out.get("x-c").unwrap(), "3");
}

#[test]
fn experimental_headers_kept_back_when_disabled() {
    let mut acc = HeaderAccumulator::new(false, false);
    acc.x_response_headers.insert("x-a", HeaderValue::from_static("1"));
    let mut out = HeaderMap::new();
    acc.extend_experimental_headers(&mut out);
    assert!(out.is_empty());
}

#[test]
fn text_check_matches_visible_ascii() {
    assert!(bytes_are_text(&b"a=1; b\t2".to_vec()));
    assert!(bytes_are_text(&Vec::new()));
    assert!(!bytes_are_text(&b"a\x7f".to_vec()));
    assert!(!bytes_are_text(&vec![0xc3, 0xa9]));
}

#[test]
fn experimental_header_recorded_and_replaced() {
    let mut acc = HeaderAccumulator::new(false, true);
    assert!(acc.has_experimental_room());
    acc.record_experimental_header(HeaderName::from_static("x-cache"), HeaderValue::from_static("miss"));
    acc.record_experimental_header(HeaderName::from_static("x-cache"), HeaderValue::from_static("hit"));
    acc.record_experimental_header(HeaderName::from_static("x-other"), HeaderValue::from_static("1"));
    assert_eq!(acc.x_response_headers.get("x-cache").unwrap(), "hit");
    assert_eq!(acc.x_response_headers.get("x-other").unwrap(), "1");
    assert_eq!(acc.x_response_headers.len(), 2);
}
