//! The wire format: `MAGIC` and the raw-deflate payload, all encoded with a key.
//!
//! Compression comes before obfuscation: a keyed byte transform destroys
//! compressibility, so the compressor has to see the plain bytes.
use vstd::prelude::*;

use crate::codec::Codec;

verus! {

/// The number of bytes in `MAGIC`.
pub const MAGIC_LEN: usize = 4;

/// The bytes that every frame starts with, before it is encoded.
pub const MAGIC: [u8; 4] = [0xC0, 0xDE, 0x5E, 0xED];

/// How hard the compressor works, from 1 (fast) to 10 (best). This is a fast
/// setting.
pub const COMPRESSION_LEVEL: u8 = 4;

/// What `miniz_oxide::deflate::compress_to_vec` makes of `payload` at `level`.
pub uninterp spec fn deflated(payload: Seq<u8>, level: u8) -> Seq<u8>;

/// What `miniz_oxide::inflate::decompress_to_vec` makes of `stream`: the bytes
/// that it stands for, or `None` where it is no complete deflate stream.
pub uninterp spec fn inflated(stream: Seq<u8>) -> Option<Seq<u8>>;

/// The frame that carries the deflate stream `stream` under `key`.
pub open spec fn sealed(stream: Seq<u8>, key: u32) -> Seq<u8> {
    crate::codec::encoded(crate::codec::tables_of(key), MAGIC@ + stream)
}

/// The deflate stream that `frame` carries under `key`, or `None` where `frame`
/// does not decode to something that starts with `MAGIC`.
pub open spec fn opened(frame: Seq<u8>, key: u32) -> Option<Seq<u8>> {
    let plain = crate::codec::decoded(crate::codec::tables_of(key), frame);
    if plain.len() >= MAGIC_LEN && plain.take(MAGIC_LEN as int) == MAGIC@ {
        Some(plain.skip(MAGIC_LEN as int))
    } else {
        None
    }
}

/// The frame of `payload` under `key`.
pub open spec fn frame_of(payload: Seq<u8>, key: u32) -> Seq<u8> {
    sealed(deflated(payload, COMPRESSION_LEVEL), key)
}

/// The payload that `frame` holds under `key`, or `None` where it holds none.
pub open spec fn payload_of(frame: Seq<u8>, key: u32) -> Option<Seq<u8>> {
    match opened(frame, key) {
        Some(stream) => inflated(stream),
        None => None,
    }
}

/// Calls `miniz_oxide::deflate::compress_to_vec`, which deflates `payload` at a
/// level from 0 to 10.
///
/// Believed of it: the stream depends on the payload and the level alone, and
/// `miniz_oxide::inflate::decompress_to_vec` gives the payload back from it. A
/// payload so large that the output buffer, which doubles as it fills, could
/// outgrow the address space is left out.
#[verifier::external_body]
fn compress(payload: &[u8], level: u8) -> (stream: Vec<u8>)
    requires
        level <= 10,
        payload@.len() <= isize::MAX / 2,
    ensures
        stream@ == deflated(payload@, level),
        inflated(stream@) == Some(payload@),
{
    miniz_oxide::deflate::compress_to_vec(payload, level)
}

/// Calls `miniz_oxide::inflate::decompress_to_vec`, which inflates a raw
/// deflate stream.
///
/// Believed of it: whether it succeeds, and with which bytes, depends on the
/// stream alone. A stream so large that the first output buffer, which is twice
/// as long, could not be allocated is left out.
#[verifier::external_body]
fn decompress(stream: &[u8]) -> (payload: Option<Vec<u8>>)
    requires
        stream@.len() <= isize::MAX / 2,
    ensures
        payload is Some <==> inflated(stream@) is Some,
        payload matches Some(bytes) ==> inflated(stream@) == Some(bytes@),
{
    miniz_oxide::inflate::decompress_to_vec(stream).ok()
}

/// The frame that carries the deflate stream `stream` under `key`.
pub fn seal_stream(stream: &[u8], key: u32) -> (frame: Vec<u8>)
    ensures
        frame@ == sealed(stream@, key),
{
    let mut out: Vec<u8> = Vec::with_capacity(stream.len().saturating_add(MAGIC_LEN));
    out.extend_from_slice(&MAGIC);
    out.extend_from_slice(stream);
    assert(out@ =~= MAGIC@ + stream@);
    Codec::new(key).encode(out.as_mut_slice());
    out
}

/// The deflate stream that `frame` carries under `key`. It is `None` where the
/// frame is shorter than `MAGIC`, or does not decode to a start with `MAGIC`.
pub fn open_stream(frame: &[u8], key: u32) -> (stream: Option<Vec<u8>>)
    ensures
        stream is Some <==> opened(frame@, key) is Some,
        stream matches Some(bytes) ==> opened(frame@, key) == Some(bytes@),
{
    if frame.len() < MAGIC_LEN {
        return None;
    }
    let mut buf: Vec<u8> = vstd::slice::slice_to_vec(frame);
    Codec::new(key).decode(buf.as_mut_slice());
    let mut i: usize = 0;
    while i < MAGIC_LEN
        invariant
            i <= MAGIC_LEN,
            buf@.len() >= MAGIC_LEN,
            buf@ == crate::codec::decoded(crate::codec::tables_of(key), frame@),
            forall|k: int| 0 <= k < i ==> buf@[k] == MAGIC@[k],
        decreases MAGIC_LEN - i,
    {
        if buf[i] != MAGIC[i] {
            assert(buf@.take(MAGIC_LEN as int)[i as int] != MAGIC@[i as int]);
            return None;
        }
        i += 1;
    }
    assert(buf@.take(MAGIC_LEN as int) =~= MAGIC@);
    Some(buf.split_off(MAGIC_LEN))
}

/// The whole frame of `payload`: `MAGIC` and the deflated payload, encoded with
/// `key`. The frame decodes to the payload again. A payload that would leave the
/// compressor no room in the address space is left out.
pub fn encode_frame(payload: &[u8], key: u32) -> (frame: Vec<u8>)
    requires
        payload@.len() <= isize::MAX / 2,
    ensures
        frame@ == frame_of(payload@, key),
        payload_of(frame@, key) == Some(payload@),
{
    let stream: Vec<u8> = compress(payload, COMPRESSION_LEVEL);
    proof {
        law_open_undoes_seal(stream@, key);
    }
    seal_stream(stream.as_slice(), key)
}

/// The payload of `frame`: the inverse of `encode_frame`. It is `None` where
/// the frame is too short, where its start is not `MAGIC`, and where the rest
/// is no deflate stream. A frame that would leave the decompressor no room in
/// the address space is left out.
pub fn decode_frame(frame: &[u8], key: u32) -> (payload: Option<Vec<u8>>)
    requires
        frame@.len() <= isize::MAX / 2,
    ensures
        payload is Some <==> payload_of(frame@, key) is Some,
        payload matches Some(bytes) ==> payload_of(frame@, key) == Some(bytes@),
{
    match open_stream(frame, key) {
        Some(stream) => decompress(stream.as_slice()),
        None => None,
    }
}

/// Opening a sealed stream gives the stream back, under every key.
pub proof fn law_open_undoes_seal(stream: Seq<u8>, key: u32)
    ensures
        opened(sealed(stream, key), key) == Some(stream),
        sealed(stream, key).len() == stream.len() + MAGIC_LEN,
{
    crate::codec::law_body_roundtrip(key, MAGIC@ + stream);
    assert((MAGIC@ + stream).take(MAGIC_LEN as int) =~= MAGIC@);
    assert((MAGIC@ + stream).skip(MAGIC_LEN as int) =~= stream);
}

/// Only frames that were sealed under a key open under it: a frame that opens
/// to a stream is the frame of that stream.
pub proof fn law_seal_undoes_open(frame: Seq<u8>, key: u32)
    ensures
        opened(frame, key) matches Some(stream) ==> sealed(stream, key) == frame,
{
    crate::codec::law_body_roundtrip(key, frame);
    if let Some(stream) = opened(frame, key) {
        let plain = crate::codec::decoded(crate::codec::tables_of(key), frame);
        assert(plain =~= plain.take(MAGIC_LEN as int) + plain.skip(MAGIC_LEN as int));
    }
}

/// A frame is the bytes 0xC0, 0xDE, 0x5E and 0xED and the stream behind them,
/// each one substituted and masked at its position in the frame.
pub proof fn law_sealed_bytes(stream: Seq<u8>, key: u32)
    ensures
        ({
            let t = crate::codec::tables_of(key);
            let frame = sealed(stream, key);
            &&& frame.len() == stream.len() + 4
            &&& frame[0] == t.sbox[0xC0] ^ t.mask[0]
            &&& frame[1] == t.sbox[0xDE] ^ t.mask[1]
            &&& frame[2] == t.sbox[0x5E] ^ t.mask[2]
            &&& frame[3] == t.sbox[0xED] ^ t.mask[3]
            &&& forall|i: int|
                0 <= i < stream.len() ==> #[trigger] frame[i + 4] == t.sbox[stream[i] as int]
                    ^ t.mask[(i + 4) % 32]
        }),
{
    let t = crate::codec::tables_of(key);
    let plain = MAGIC@ + stream;
    crate::codec::law_encoded_bytes(t, plain);
    assert(MAGIC@ =~= seq![0xC0u8, 0xDEu8, 0x5Eu8, 0xEDu8]);
    assert forall|i: int| 0 <= i < stream.len() implies #[trigger] sealed(stream, key)[i + 4]
        == t.sbox[stream[i] as int] ^ t.mask[(i + 4) % 32] by {
        assert(plain[i + 4] == stream[i]);
    }
}

/// A frame opens to a stream exactly where it is the frame of that stream.
pub proof fn law_opens_what_was_sealed(frame: Seq<u8>, stream: Seq<u8>, key: u32)
    ensures
        opened(frame, key) == Some(stream) <==> frame == sealed(stream, key),
{
    law_open_undoes_seal(stream, key);
    law_seal_undoes_open(frame, key);
}

/// Whoever deflated it, and however: a stream that inflates to a payload is,
/// sealed into a frame, the payload's frame to the receiver, under every key. A
/// stream that does not inflate is refused.
pub proof fn law_any_deflate_stream_is_read(stream: Seq<u8>, key: u32)
    ensures
        payload_of(sealed(stream, key), key) == inflated(stream),
{
    law_open_undoes_seal(stream, key);
}

/// A frame holds a payload exactly where it is the frame of a stream that
/// inflates to the payload. It is refused only where it is the frame of no
/// stream, or of one that does not inflate.
pub proof fn law_payload_is_what_inflates(frame: Seq<u8>, key: u32, payload: Seq<u8>)
    ensures
        payload_of(frame, key) == Some(payload) <==> exists|stream: Seq<u8>|
            frame == #[trigger] sealed(stream, key) && inflated(stream) == Some(payload),
        payload_of(frame, key) is None <==> forall|stream: Seq<u8>|
            frame == #[trigger] sealed(stream, key) ==> inflated(stream) is None,
{
    law_seal_undoes_open(frame, key);
    assert forall|stream: Seq<u8>| frame == #[trigger] sealed(stream, key) implies opened(
        frame,
        key,
    ) == Some(stream) by {
        law_open_undoes_seal(stream, key);
    }
}

/// The frame of a payload seals what the compressor makes of the whole payload
/// at level 4, whatever the payload is.
pub proof fn law_frame_seals_the_deflated_payload(payload: Seq<u8>, key: u32)
    ensures
        opened(frame_of(payload, key), key) == Some(deflated(payload, 4)),
        payload_of(frame_of(payload, key), key) == inflated(deflated(payload, 4)),
{
    law_open_undoes_seal(deflated(payload, 4), key);
}

} // verus!
