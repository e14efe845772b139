use ntex::http::header::{HeaderMap, HeaderName, HeaderValue};
use xor::headers::{request_key, set_response_key};
use xor::key_text::{key_text, parse_key};
use xor::{with_cors, KEY_HEADER};

fn with_key(value: &[u8]) -> HeaderMap {
    let mut headers = HeaderMap::new();
    headers.insert(
        HeaderName::from_static("x-key"),
        HeaderValue::from_bytes(value).unwrap(),
    );
    headers
}

#[test]
fn cors_exposes_response_key() {
    let mut headers = ntex::http::header::HeaderMap::new();
    with_cors(&mut headers);
    let exposed = headers
        .get("access-control-expose-headers")
        .and_then(|v| v.to_str().ok())
        .unwrap_or("");
    assert_eq!(exposed, "x-key");
    assert_eq!(
        headers.get("access-control-allow-origin").unwrap(),
        "*"
    );
}

#[test]
fn cors_sets_all_five_headers() {
    let mut headers = HeaderMap::new();
    with_cors(&mut headers);
    assert_eq!(headers.len(), 5);
    assert_eq!(
        headers.get("access-control-allow-headers").unwrap(),
        "x-key, X-Session-Token, X-Team-Token, content-type"
    );
    assert_eq!(
        headers.get("access-control-allow-methods").unwrap(),
        "GET, POST, PUT, DELETE, OPTIONS"
    );
    assert_eq!(headers.get("access-control-max-age").unwrap(), "86400");
}

#[test]
fn cors_replaces_its_own_and_keeps_the_others() {
    let mut headers = with_key(b"7");
    let origin = HeaderName::from_static("access-control-allow-origin");
    headers.append(origin.clone(), HeaderValue::from_static("https://one.example"));
    headers.append(origin, HeaderValue::from_static("https://two.example"));
    with_cors(&mut headers);
    let origins: Vec<&HeaderValue> = headers.get_all("access-control-allow-origin").collect();
    assert_eq!(origins.len(), 1);
    assert_eq!(origins[0], "*");
    assert_eq!(headers.get("x-key").unwrap(), "7");
    assert_eq!(headers.len(), 6);
}

#[test]
fn cors_again_changes_nothing() {
    let mut headers = with_key(b"7");
    with_cors(&mut headers);
    let once = headers.clone();
    with_cors(&mut headers);
    assert!(headers == once);
}

#[test]
fn request_key_is_read() {
    assert_eq!(request_key(&with_key(b"4294967295")), Some(u32::MAX));
    assert_eq!(request_key(&with_key(b"+12")), Some(12));
    assert_eq!(request_key(&with_key(b"")), None);
    assert_eq!(request_key(&with_key(b"twelve")), None);
    assert_eq!(request_key(&with_key(b"12\xfa")), None);
    assert_eq!(request_key(&HeaderMap::new()), None);
}

#[test]
fn first_key_counts() {
    let mut headers = with_key(b"1");
    headers.append(HeaderName::from_static("x-key"), HeaderValue::from_static("2"));
    assert_eq!(request_key(&headers), Some(1));
}

#[test]
fn header_names_know_no_case() {
    let mut headers = HeaderMap::new();
    headers.insert(
        HeaderName::try_from("X-KEY").unwrap(),
        HeaderValue::from_static("31"),
    );
    assert_eq!(request_key(&headers), Some(31));
}

#[test]
fn response_key_reads_back() {
    for key in [0u32, 9, 10, 123456789, u32::MAX] {
        let mut headers = with_key(b"77");
        set_response_key(&mut headers, key);
        with_cors(&mut headers);
        assert_eq!(headers.get(KEY_HEADER).unwrap(), key.to_string().as_str());
        assert_eq!(request_key(&headers), Some(key));
    }
}

#[test]
fn key_texts() {
    assert_eq!(key_text(0), "0");
    assert_eq!(key_text(10), "10");
    assert_eq!(key_text(4294967295), "4294967295");
    for key in [1u32, 99, 100, 65536, 1_000_000_007] {
        assert_eq!(key_text(key), key.to_string());
        assert_eq!(parse_key(&key_text(key)), Some(key));
    }
}

#[test]
fn parsing_agrees_with_std() {
    let texts = [
        "", "+", "-", "0", "+0", "-0", "00012", "+00012", "++1", "1+", " 1", "1 ", "1_000", "4294967295",
        "4294967296", "99999999999999999999999999", "00000000000000000000000000000007", "0x10", "1.0",
        "99999999999999999999x", "\u{0661}",
    ];
    for text in texts {
        assert_eq!(parse_key(text), text.parse::<u32>().ok(), "{text}");
    }
}
