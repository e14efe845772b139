use xor::frame::{open_stream, seal_stream};
use xor::{decode_frame, encode_body, encode_frame};

/// The deflate stream of "Deflate late".
const STREAM: [u8; 11] = [
    0x73, 0x49, 0x4d, 0xcb, 0x49, 0x2c, 0x49, 0x55, 0x00, 0x11, 0x00,
];

fn sample_plaintext() -> Vec<u8> {
    let mut v = Vec::new();
    for i in 0..20000u32 {
        let line = format!(
            "item_id={};title=Example Title {};price={}\n",
            i % 9973,
            i % 500,
            i % 40000
        );
        v.extend_from_slice(line.as_bytes());
    }
    v
}

#[test]
fn frame_roundtrip() {
    let plain = sample_plaintext();
    for key in [0u32, 42, 0xCAFEBABE] {
        let frame = encode_frame(&plain, key);
        assert_eq!(decode_frame(&frame, key), Some(plain.clone()));
    }
}

#[test]
fn wrong_key_fails() {
    let plain = b"hello world";
    let frame = encode_frame(plain, 42);
    assert!(decode_frame(&frame, 43).is_none());
}

#[test]
fn frame_is_compressed() {
    let plain = sample_plaintext();
    let frame = encode_frame(&plain, 0xCAFEBABE);
    assert!(
        frame.len() < plain.len() / 3,
        "frame {} not compressed (plain {})",
        frame.len(),
        plain.len()
    );
}

#[test]
fn sealed_stream_bytes() {
    let frame = seal_stream(&STREAM, 0xCAFEBABE);
    assert_eq!(
        frame,
        [
            0x78, 0xbe, 0x9a, 0x04, 0xbf, 0x86, 0x02, 0x85, 0xc9, 0xa5, 0xc3, 0x04, 0x80, 0x4b,
            0x44
        ]
    );
    assert_eq!(open_stream(&frame, 0xCAFEBABE), Some(STREAM.to_vec()));
    assert_eq!(decode_frame(&frame, 0xCAFEBABE), Some(b"Deflate late".to_vec()));
}

#[test]
fn frame_carries_a_deflate_stream() {
    let frame = encode_frame(b"Deflate late", 17);
    assert_eq!(frame, seal_stream(&STREAM, 17));
}

#[test]
fn opening_and_sealing_are_inverse() {
    let frame = seal_stream(b"any bytes at all", 5);
    let stream = open_stream(&frame, 5).unwrap();
    assert_eq!(stream, b"any bytes at all");
    assert_eq!(seal_stream(&stream, 5), frame);
}

#[test]
fn short_frames_are_refused() {
    for len in 0..4usize {
        let mut frame = vec![0xC0, 0xDE, 0x5E, 0xED];
        encode_body(&mut frame, 1);
        frame.truncate(len);
        assert!(open_stream(&frame, 1).is_none());
        assert!(decode_frame(&frame, 1).is_none());
    }
}

#[test]
fn wrong_magic_is_refused() {
    for at in 0..4usize {
        let mut frame = vec![0xC0, 0xDE, 0x5E, 0xED];
        frame.extend_from_slice(&STREAM);
        frame[at] ^= 1;
        encode_body(&mut frame, 1);
        assert!(open_stream(&frame, 1).is_none());
        assert!(decode_frame(&frame, 1).is_none());
    }
}

#[test]
fn broken_stream_is_refused() {
    // Nothing behind the magic, and a block of the reserved type.
    for stream in [&[][..], &[0xFF, 0xFF][..], &STREAM[..6]] {
        let frame = seal_stream(stream, 8);
        assert_eq!(open_stream(&frame, 8), Some(stream.to_vec()));
        assert!(decode_frame(&frame, 8).is_none());
    }
}

#[test]
fn empty_payload_roundtrip() {
    let frame = encode_frame(b"", 12);
    assert!(frame.len() > 4);
    assert_eq!(decode_frame(&frame, 12), Some(Vec::new()));
}

#[test]
fn repeated_frames() {
    let plain = sample_plaintext();
    let first = encode_frame(&plain, 0xCAFEBABE);
    for _ in 0..20 {
        assert_eq!(encode_frame(&plain, 0xCAFEBABE), first);
    }
    for _ in 0..20 {
        assert!(decode_frame(&first, 0xCAFEBABE).is_some());
    }
}
