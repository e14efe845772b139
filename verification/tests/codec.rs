use xor::prng::{splitmix32, splitmix32_finalize};
use xor::{decode_body, encode_body, Codec};

#[test]
fn roundtrip_all_keys() {
    for key in [0u32, 1, 0xDEADBEEF, 0xFFFFFFFF, 123456789] {
        let mut data = (0..=255u8).cycle().take(1000).collect::<Vec<u8>>();
        let orig = data.clone();
        encode_body(&mut data, key);
        assert_ne!(data, orig);
        decode_body(&mut data, key);
        assert_eq!(data, orig);
    }
}

#[test]
fn finalizer_values() {
    assert_eq!(splitmix32_finalize(0), 0);
    assert_eq!(splitmix32_finalize(1), 0x514e28b7);
    assert_eq!(splitmix32_finalize(0xDEADBEEF), 0x0de5c6a9);
    assert_eq!(splitmix32_finalize(0xFFFFFFFF), 0x81f16f39);
}

#[test]
fn generator_steps_and_draws() {
    let mut state = 5u32;
    assert_eq!(splitmix32(&mut state), 0x582531c1);
    assert_eq!(state, 0x9e3779be);
    assert_eq!(splitmix32(&mut state), 0xbde772ca);
    assert_eq!(state, 0x3c6ef377);
    assert_eq!(splitmix32(&mut state), 0xd2d8c67a);
    assert_eq!(state, 0xdaa66d30);
}

#[test]
fn generator_does_not_repeat_early() {
    let mut state = 0xFFFF_FFF0u32;
    let mut draws = Vec::new();
    for _ in 0..10_000 {
        draws.push(splitmix32(&mut state));
    }
    draws.sort();
    draws.dedup();
    assert_eq!(draws.len(), 10_000);
}

#[test]
fn encoded_text() {
    let mut data = b"hello world".to_vec();
    encode_body(&mut data, 42);
    assert_eq!(
        data,
        [0xaa, 0x37, 0x5b, 0xd8, 0x31, 0xc2, 0xd2, 0x50, 0x85, 0x63, 0x1d]
    );
    decode_body(&mut data, 42);
    assert_eq!(data, b"hello world");
}

#[test]
fn encoded_under_key_zero() {
    let mut data: Vec<u8> = (0..8u8).collect();
    encode_body(&mut data, 0);
    assert_eq!(data, [0x14, 0xbe, 0xd7, 0x94, 0x94, 0x40, 0x28, 0xfd]);
}

#[test]
fn mask_repeats_after_32_bytes() {
    let mut data = vec![0u8; 40];
    encode_body(&mut data, 7);
    assert_eq!(data[..4], [0x67, 0x29, 0x9c, 0xea]);
    assert_eq!(data[31], 0x9e);
    assert_eq!(data[32..], data[..8]);
}

#[test]
fn every_position_is_a_bijection() {
    let codec = Codec::new(0xCAFEBABE);
    for position in [0usize, 1, 31, 32, 100] {
        let mut seen = vec![false; 256];
        for b in 0..=255u8 {
            let mut data = vec![0u8; position];
            data.push(b);
            codec.encode(&mut data);
            seen[data[position] as usize] = true;
            codec.decode(&mut data);
            assert_eq!(data[position], b);
        }
        assert!(seen.iter().all(|s| *s));
    }
}

#[test]
fn encode_undoes_decode() {
    let orig: Vec<u8> = (0..=255u8).rev().collect();
    let mut data = orig.clone();
    decode_body(&mut data, 99);
    assert_ne!(data, orig);
    encode_body(&mut data, 99);
    assert_eq!(data, orig);
}

#[test]
fn empty_data_stays_empty() {
    let mut data: Vec<u8> = Vec::new();
    encode_body(&mut data, 3);
    assert!(data.is_empty());
    decode_body(&mut data, 3);
    assert!(data.is_empty());
}

#[test]
fn codec_held_by_reference_roundtrip() {
    fn there_and_back(codec: &Codec, orig: &[u8]) {
        let mut data = orig.to_vec();
        codec.encode(&mut data);
        codec.decode(&mut data);
        assert_eq!(data, orig);
        codec.decode(&mut data);
        codec.encode(&mut data);
        assert_eq!(data, orig);
    }
    let data: Vec<u8> = (0..=255u8).cycle().take(700).collect();
    for key in [0u32, 7, 0xCAFEBABE] {
        there_and_back(&Codec::new(key), &data);
    }
}

#[test]
fn codec_speed_smoke() {
    let n: u128 = 20;
    let mut data: Vec<u8> = (0..=255u8).cycle().take(1_000_000).collect();
    let bytes = data.len() as u128;

    let t = std::time::Instant::now();
    for _ in 0..n {
        encode_body(&mut data, 0xCAFEBABE);
    }
    let micros = t.elapsed().as_micros();
    assert!(bytes * n > 50 * micros, "encode too slow: {micros} us");

    let t = std::time::Instant::now();
    for _ in 0..n {
        decode_body(&mut data, 0xCAFEBABE);
    }
    let micros = t.elapsed().as_micros();
    assert!(bytes * n > 50 * micros, "decode too slow: {micros} us");
}
