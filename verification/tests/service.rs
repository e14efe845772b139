use ntex::http::header::{HeaderMap, HeaderName, HeaderValue};
use xor::headers::request_key;
use xor::service::{
    absorb, body_to_bytes, finish_answer, finish_headers, preflight, receive, receive_at, reply, settle, Reply, ReplyBody, Verdict,
    BAD_REQUEST,
};
use xor::{decode_frame, encode_frame, XorState, MAX_BODY_LEN};

fn state() -> XorState {
    XorState::with_seed(1024, 60, 1, 1000)
}

fn answer(verdict: Verdict) -> Option<u16> {
    match verdict {
        Verdict::Answer(status) => Some(status),
        Verdict::Forward(_) => None,
    }
}

fn body(verdict: Verdict) -> Option<Vec<u8>> {
    match verdict {
        Verdict::Answer(_) => None,
        Verdict::Forward(bytes) => Some(bytes),
    }
}

#[test]
fn preflight_is_answered() {
    assert_eq!(preflight("OPTIONS"), Some(204));
    for method in ["GET", "POST", "options", "OPTIONS ", ""] {
        assert_eq!(preflight(method), None);
    }
}

#[test]
fn empty_body_goes_on_without_a_key() {
    let mut s = state();
    assert_eq!(body(receive_at(&mut s, None, Vec::new(), 2000)), Some(Vec::new()));
    assert_eq!(body(receive_at(&mut s, Some(5), Vec::new(), 2000)), Some(Vec::new()));
    // Neither used the key up.
    assert!(s.is_fresh(5));
}

#[test]
fn frame_under_a_fresh_key_goes_on() {
    let mut s = state();
    let frame = encode_frame(b"hello", 5);
    assert_eq!(body(receive_at(&mut s, Some(5), frame, 1000)), Some(b"hello".to_vec()));
    assert!(!s.is_fresh(5));
}

#[test]
fn body_without_a_key_is_refused() {
    let mut s = state();
    let frame = encode_frame(b"hello", 5);
    assert_eq!(answer(receive_at(&mut s, None, frame, 1000)), Some(400));
    assert!(s.is_fresh(5));
}

#[test]
fn replay_is_refused_for_an_interval() {
    let mut s = state();
    let frame = encode_frame(b"hello", 5);
    let again = |s: &mut XorState, now: u64| body(receive_at(s, Some(5), frame.clone(), now));
    // Accepting the frame at this time rotates the bitsets as well.
    assert!(again(&mut s, 1060).is_some());
    assert!(again(&mut s, 1060).is_none());
    let other = encode_frame(b"other", 6);
    assert!(body(receive_at(&mut s, Some(6), other, 1119)).is_some());
    assert!(again(&mut s, 1119).is_none());
    // A refused request does not rotate.
    assert!(again(&mut s, 5000).is_none());
    let third = encode_frame(b"third", 7);
    assert!(body(receive_at(&mut s, Some(7), third, 1120)).is_some());
    assert!(again(&mut s, 1120).is_some());
}

#[test]
fn undecodable_body_is_refused_and_leaves_the_key() {
    let mut s = state();
    let frame = encode_frame(b"hello", 5);
    assert_eq!(answer(receive_at(&mut s, Some(6), frame.clone(), 9000)), Some(BAD_REQUEST));
    assert!(s.is_fresh(6));
    assert_eq!(answer(receive_at(&mut s, Some(5), b"abc".to_vec(), 9000)), Some(400));
    assert_eq!(body(receive_at(&mut s, Some(5), frame, 9000)), Some(b"hello".to_vec()));
}

#[test]
fn settling_by_the_decoded_payload() {
    let mut s = state();
    assert_eq!(answer(settle(&mut s, 3, None, 9000)), Some(400));
    assert!(s.is_fresh(3));
    assert_eq!(body(settle(&mut s, 3, Some(vec![1, 2]), 1000)), Some(vec![1, 2]));
    assert!(!s.is_fresh(3));
}

#[test]
fn receiving_by_the_clock() {
    let mut s = state();
    let frame = encode_frame(b"hello", 5);
    assert_eq!(body(receive(&mut s, Some(5), frame.clone())), Some(b"hello".to_vec()));
    assert_eq!(answer(receive(&mut s, Some(5), frame)), Some(400));
}

#[test]
fn stream_passes_through() {
    let mut s = state();
    assert!(matches!(reply(&mut s, ReplyBody::Stream), Reply::PassThrough));
    assert_eq!(s.next_resp_key(), 0x514e28b7);
}

#[test]
fn body_without_bytes_is_empty() {
    let mut s = state();
    assert!(matches!(reply(&mut s, ReplyBody::Absent), Reply::Empty));
    assert!(matches!(reply(&mut s, ReplyBody::Bytes(Vec::new())), Reply::Empty));
    assert_eq!(s.next_resp_key(), 0x514e28b7);
}

#[test]
fn bytes_become_a_frame_under_the_next_key() {
    let mut s = state();
    for expected in [0x514e28b7u32, 0x96a0f96b] {
        match reply(&mut s, ReplyBody::Bytes(b"PNGDATA".to_vec())) {
            Reply::Framed { key, frame } => {
                assert_eq!(key, expected);
                assert_eq!(frame, encode_frame(b"PNGDATA", expected));
                assert_eq!(decode_frame(&frame, key), Some(b"PNGDATA".to_vec()));
            }
            _ => panic!("no frame"),
        }
    }
}

#[test]
fn bytes_of_bodies() {
    assert_eq!(body_to_bytes(ReplyBody::Bytes(vec![1, 2, 3])), vec![1, 2, 3]);
    assert!(body_to_bytes(ReplyBody::Absent).is_empty());
    assert!(body_to_bytes(ReplyBody::Stream).is_empty());
}

#[test]
fn chunks_are_collected() {
    let mut collected = Vec::new();
    assert!(absorb(&mut collected, Some(b"ab")));
    assert!(absorb(&mut collected, Some(b"")));
    assert!(absorb(&mut collected, Some(b"c")));
    assert!(!absorb(&mut collected, None));
    assert_eq!(collected, b"abc");
}

#[test]
fn chunk_without_room_is_skipped() {
    let mut collected = vec![0u8; MAX_BODY_LEN - 2];
    assert!(absorb(&mut collected, Some(b"abc")));
    assert_eq!(collected.len(), MAX_BODY_LEN - 2);
    assert!(absorb(&mut collected, Some(b"de")));
    assert_eq!(collected.len(), MAX_BODY_LEN);
    assert_eq!(&collected[MAX_BODY_LEN - 2..], b"de");
    assert!(absorb(&mut collected, Some(b"f")));
    assert_eq!(collected.len(), 8 * 1024 * 1024);
}

#[test]
fn framed_response_names_its_key() {
    let mut headers = HeaderMap::new();
    headers.insert(HeaderName::from_static("x-key"), HeaderValue::from_static("1"));
    headers.insert(HeaderName::from_static("content-type"), HeaderValue::from_static("image/png"));
    finish_headers(&mut headers, &Reply::Framed { key: 0x514e28b7, frame: vec![1] });
    assert_eq!(headers.get("x-key").unwrap(), "1364076727");
    assert_eq!(request_key(&headers), Some(0x514e28b7));
    assert_eq!(headers.get("content-type").unwrap(), "image/png");
    assert_eq!(headers.get("access-control-expose-headers").unwrap(), "x-key");
    assert_eq!(headers.len(), 7);
}

#[test]
fn other_responses_name_no_key() {
    for reply in [Reply::PassThrough, Reply::Empty] {
        let mut headers = HeaderMap::new();
        finish_headers(&mut headers, &reply);
        assert!(headers.get("x-key").is_none());
        assert_eq!(headers.get("access-control-allow-origin").unwrap(), "*");
        assert_eq!(headers.len(), 5);
    }
}

#[test]
fn answers_carry_the_cors_headers() {
    let mut headers = HeaderMap::new();
    headers.insert(HeaderName::from_static("content-length"), HeaderValue::from_static("0"));
    finish_answer(&mut headers);
    assert_eq!(headers.len(), 6);
    assert_eq!(headers.get("content-length").unwrap(), "0");
    assert_eq!(headers.get("access-control-allow-origin").unwrap(), "*");
    assert_eq!(
        headers.get("access-control-allow-headers").unwrap(),
        "x-key, X-Session-Token, X-Team-Token, content-type"
    );
    assert_eq!(
        headers.get("access-control-allow-methods").unwrap(),
        "GET, POST, PUT, DELETE, OPTIONS"
    );
    assert_eq!(headers.get("access-control-max-age").unwrap(), "86400");
    assert_eq!(headers.get("access-control-expose-headers").unwrap(), "x-key");
}
