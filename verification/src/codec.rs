//! A keyed, bijective, cheap byte obfuscation.
//!
//! A key gives a substitution table, which is a permutation of the 256 byte
//! values, and a mask of 32 bytes that repeats along the data. A byte at
//! position `i` is substituted and then combined with mask byte `i % 32` by
//! exclusive or. Both steps can be undone, so every key gives a bijection on
//! the byte strings of each length.
use vstd::prelude::*;

use crate::prng::splitmix32;

verus! {

/// The number of mask bytes.
pub const MASK_LEN: usize = 32;

/// What a codec computes with: a substitution table and a mask.
#[verifier::ext_equal]
pub struct Tables {
    /// `sbox[b]` stands for the byte `b`.
    pub sbox: Seq<u8>,
    /// The bytes that the substituted data is masked with, in turn.
    pub mask: Seq<u8>,
}

impl Tables {
    /// The table permutes the byte values, and the mask is complete.
    pub open spec fn valid(self) -> bool {
        &&& is_permutation(self.sbox)
        &&& self.mask.len() == MASK_LEN
    }
}

/// `s` holds every byte value, and each one once.
pub open spec fn is_permutation(s: Seq<u8>) -> bool {
    &&& s.len() == 256
    &&& forall|i: int, j: int| 0 <= i < 256 && 0 <= j < 256 && i != j ==> s[i] != s[j]
    &&& forall|v: u8| s.contains(v)
}

/// The byte values in ascending order.
pub open spec fn alphabet() -> Seq<u8> {
    Seq::new(256, |i: int| i as u8)
}

/// `s` with the items at places `i` and `j` exchanged.
pub open spec fn exchanged(s: Seq<u8>, i: int, j: int) -> Seq<u8> {
    s.update(i, s[j]).update(j, s[i])
}

/// The alphabet after the first `n` exchanges of the Fisher-Yates shuffle that
/// `key` drives: exchange `n` swaps place `256 - n` with the place at or below
/// it that draw `n` picks.
pub open spec fn shuffled(key: u32, n: nat) -> Seq<u8>
    decreases n,
{
    if n == 0 {
        alphabet()
    } else {
        let i = 256 - n;
        exchanged(
            shuffled(key, (n - 1) as nat),
            i,
            crate::prng::draw(key, n) as int % (i + 1),
        )
    }
}

/// The substitution table of `key`: the alphabet, shuffled to the end.
pub open spec fn sbox_of(key: u32) -> Seq<u8> {
    shuffled(key, 255)
}

/// The mask of `key`: the low bytes of the draws after those of the shuffle.
pub open spec fn mask_of(key: u32) -> Seq<u8> {
    Seq::new(MASK_LEN as nat, |i: int| (crate::prng::draw(key, (256 + i) as nat) % 256) as u8)
}

/// The tables of `key`.
pub open spec fn tables_of(key: u32) -> Tables {
    Tables { sbox: sbox_of(key), mask: mask_of(key) }
}

/// The byte that `sbox` replaces by `v`.
pub open spec fn preimage(sbox: Seq<u8>, v: u8) -> u8 {
    choose|b: u8| sbox[b as int] == v
}

/// `data`, substituted and masked.
pub open spec fn encoded(t: Tables, data: Seq<u8>) -> Seq<u8> {
    Seq::new(data.len(), |i: int| t.sbox[data[i] as int] ^ t.mask[i % 32])
}

/// `data` with the mask and the substitution taken off.
pub open spec fn decoded(t: Tables, data: Seq<u8>) -> Seq<u8> {
    Seq::new(data.len(), |i: int| preimage(t.sbox, data[i] ^ t.mask[i % 32]))
}

/// A bijective codec derived from a 32-bit key.
///
/// `encode` maps the byte `b` at position `i` to `sbox[b] ^ mask[i % 32]`, and
/// `decode` maps `b` to `inv[b ^ mask[i % 32]]`.
pub struct Codec {
    sbox: [u8; 256],
    inv: [u8; 256],
    mask: [u8; 32],
}

impl View for Codec {
    type V = Tables;

    closed spec fn view(&self) -> Tables {
        Tables { sbox: self.sbox@, mask: self.mask@ }
    }
}

impl Codec {
    /// The tables are valid, and `inv` is the inverse of `sbox`.
    pub closed spec fn wf(&self) -> bool {
        &&& self@.valid()
        &&& forall|b: u8| self.inv@[#[trigger] self.sbox@[b as int] as int] == b
    }

    /// The codec of `key`.
    pub fn new(key: u32) -> (codec: Self)
        ensures
            codec.wf(),
            codec@ == tables_of(key),
    {
        let mut st: u32 = key;
        proof {
            crate::prng::lemma_counter_step(key, 0);
        }

        let mut sbox: [u8; 256] = [0u8; 256];
        let mut i: usize = 0;
        while i < 256
            invariant
                i <= 256,
                forall|k: int| 0 <= k < i ==> sbox@[k] == k as u8,
            decreases 256 - i,
        {
            sbox[i] = i as u8;
            i += 1;
        }
        assert(sbox@ =~= alphabet());

        let mut i: usize = 255;
        while i > 0
            invariant
                i <= 255,
                sbox@ == shuffled(key, (255 - i) as nat),
                st == crate::prng::counter(key, (255 - i) as nat),
            decreases i,
        {
            proof {
                crate::prng::lemma_counter_step(key, (255 - i) as nat);
            }
            let j: usize = (splitmix32(&mut st) as usize) % (i + 1);
            let (at_i, at_j): (u8, u8) = (sbox[i], sbox[j]);
            sbox[i] = at_j;
            sbox[j] = at_i;
            i -= 1;
        }
        proof {
            law_sbox_is_permutation(key);
        }

        let mut inv: [u8; 256] = [0u8; 256];
        let mut i: usize = 0;
        while i < 256
            invariant
                i <= 256,
                is_permutation(sbox@),
                forall|k: int| 0 <= k < i ==> inv@[#[trigger] sbox@[k] as int] == k as u8,
            decreases 256 - i,
        {
            inv[sbox[i] as usize] = i as u8;
            i += 1;
        }

        let mut mask: [u8; 32] = [0u8; 32];
        let mut i: usize = 0;
        while i < MASK_LEN
            invariant
                i <= MASK_LEN,
                st == crate::prng::counter(key, (255 + i) as nat),
                forall|k: int| 0 <= k < i ==> mask@[k] == mask_of(key)[k],
            decreases MASK_LEN - i,
        {
            proof {
                crate::prng::lemma_counter_step(key, (255 + i) as nat);
            }
            let word: u32 = splitmix32(&mut st);
            assert(word as u8 == (word % 256) as u8) by (bit_vector);
            mask[i] = word as u8;
            i += 1;
        }
        assert(mask@ =~= mask_of(key));

        Codec { sbox, inv, mask }
    }

    /// Substitutes and masks `data` in place.
    pub fn encode(&self, data: &mut [u8])
        ensures
            final(data)@ == encoded(self@, old(data)@),
    {
        let mut i: usize = 0;
        while i < data.len()
            invariant
                i <= data@.len() == old(data)@.len(),
                forall|k: int| 0 <= k < i ==> data@[k] == encoded(self@, old(data)@)[k],
                forall|k: int| i <= k < data@.len() ==> data@[k] == old(data)@[k],
            decreases data@.len() - i,
        {
            assert(i & 31 == i % 32) by (bit_vector);
            data[i] = self.sbox[data[i] as usize] ^ self.mask[i & (MASK_LEN - 1)];
            i += 1;
        }
        assert(data@ =~= encoded(self@, old(data)@));
    }

    /// Takes the mask and the substitution off `data` in place.
    pub fn decode(&self, data: &mut [u8])
        requires
            self.wf(),
        ensures
            final(data)@ == decoded(self@, old(data)@),
    {
        let mut i: usize = 0;
        while i < data.len()
            invariant
                self.wf(),
                i <= data@.len() == old(data)@.len(),
                forall|k: int| 0 <= k < i ==> data@[k] == decoded(self@, old(data)@)[k],
                forall|k: int| i <= k < data@.len() ==> data@[k] == old(data)@[k],
            decreases data@.len() - i,
        {
            assert(i & 31 == i % 32) by (bit_vector);
            let v: u8 = data[i] ^ self.mask[i & (MASK_LEN - 1)];
            proof {
                lemma_preimage(self@.sbox, v);
            }
            data[i] = self.inv[v as usize];
            i += 1;
        }
        assert(data@ =~= decoded(self@, old(data)@));
    }
}

/// Encodes `data` with the codec of `key`.
pub fn encode_body(data: &mut [u8], key: u32)
    ensures
        final(data)@ == encoded(tables_of(key), old(data)@),
{
    Codec::new(key).encode(data);
}

/// Decodes `data` with the codec of `key`.
pub fn decode_body(data: &mut [u8], key: u32)
    ensures
        final(data)@ == decoded(tables_of(key), old(data)@),
{
    Codec::new(key).decode(data);
}

/// In a permutation every byte value has exactly one preimage.
pub proof fn lemma_preimage(sbox: Seq<u8>, v: u8)
    requires
        is_permutation(sbox),
    ensures
        sbox[preimage(sbox, v) as int] == v,
        forall|b: u8| #[trigger] sbox[b as int] == v ==> b == preimage(sbox, v),
{
    assert(sbox.contains(v));
    let k = choose|k: int| 0 <= k < sbox.len() && sbox[k] == v;
    assert(sbox[(k as u8) as int] == v);
}

/// Exchanging two items of a permutation leaves a permutation.
proof fn lemma_exchanged_is_permutation(s: Seq<u8>, i: int, j: int)
    requires
        is_permutation(s),
        0 <= i < 256,
        0 <= j < 256,
    ensures
        is_permutation(exchanged(s, i, j)),
{
    let t = exchanged(s, i, j);
    assert forall|v: u8| t.contains(v) by {
        assert(s.contains(v));
        let k = choose|k: int| 0 <= k < s.len() && s[k] == v;
        if k == i {
            assert(t[j] == v);
        } else if k == j {
            assert(t[i] == v);
        } else {
            assert(t[k] == v);
        }
    }
}

/// Every stage of the shuffle is a permutation.
proof fn lemma_shuffled_is_permutation(key: u32, n: nat)
    requires
        n <= 255,
    ensures
        is_permutation(shuffled(key, n)),
    decreases n,
{
    if n == 0 {
        assert forall|v: u8| alphabet().contains(v) by {
            assert(alphabet()[v as int] == v);
        }
    } else {
        lemma_shuffled_is_permutation(key, (n - 1) as nat);
        let i = 256 - n;
        lemma_exchanged_is_permutation(
            shuffled(key, (n - 1) as nat),
            i,
            crate::prng::draw(key, n) as int % (i + 1),
        );
    }
}

/// The substitution table of every key permutes the byte values.
pub proof fn law_sbox_is_permutation(key: u32)
    ensures
        is_permutation(sbox_of(key)),
        tables_of(key).valid(),
{
    lemma_shuffled_is_permutation(key, 255);
}

/// Different bytes have different substitutes, under every key.
pub proof fn law_substitutes_differ(key: u32, a: u8, b: u8)
    requires
        a != b,
    ensures
        tables_of(key).sbox.len() == 256,
        tables_of(key).sbox[a as int] != tables_of(key).sbox[b as int],
{
    law_sbox_is_permutation(key);
}

/// The mask of every key is the low bytes of 32 draws of the generator that
/// starts at the key itself, those after the 255 of the shuffle.
pub proof fn law_mask_is_drawn_from_the_key(key: u32)
    ensures
        tables_of(key).mask.len() == 32,
        forall|i: int|
            0 <= i < 32 ==> #[trigger] tables_of(key).mask[i] == crate::prng::mix(
                ((key + (256 + i) * 0x9E3779B9) % 0x1_0000_0000) as u32,
            ) % 256,
{
}

/// The substitution table of every key is the byte values in their order after
/// 255 exchanges. Exchange `n` swaps place `256 - n` with the place at or below
/// it that draw `n` of the generator that starts at the key itself picks, and
/// leaves all other places alone.
pub proof fn law_sbox_is_shuffled_by_the_key(key: u32, n: nat)
    requires
        1 <= n <= 255,
    ensures
        forall|b: u8| #[trigger] shuffled(key, 0)[b as int] == b,
        ({
            let (before, after) = (shuffled(key, (n - 1) as nat), shuffled(key, n));
            let i = 256 - n;
            let j = crate::prng::mix(((key + n * 0x9E3779B9) % 0x1_0000_0000) as u32) as int % (i
                + 1);
            &&& before.len() == 256
            &&& after.len() == 256
            &&& after[i] == before[j]
            &&& after[j] == before[i]
            &&& forall|p: int|
                0 <= p < 256 && p != i && p != j ==> #[trigger] after[p] == before[p]
        }),
        tables_of(key).sbox == shuffled(key, 255),
{
    lemma_shuffled_is_permutation(key, (n - 1) as nat);
    lemma_shuffled_is_permutation(key, n);
}

/// The first exchange settles the last place: no later one comes back to it.
proof fn lemma_last_place(key: u32, n: nat)
    requires
        1 <= n <= 255,
    ensures
        shuffled(key, n)[255] == crate::prng::draw(key, 1) % 256,
    decreases n,
{
    lemma_shuffled_is_permutation(key, (n - 1) as nat);
    if n == 1 {
        reveal_with_fuel(shuffled, 2);
    } else {
        lemma_last_place(key, (n - 1) as nat);
    }
}

/// What the byte 255 is replaced by shows the low byte of the first draw from
/// the key.
pub proof fn law_last_substitute(key: u32)
    ensures
        tables_of(key).sbox[255] == crate::prng::mix(
            ((key + 0x9E3779B9) % 0x1_0000_0000) as u32,
        ) % 256,
{
    lemma_last_place(key, 255);
}

/// Keys that are a step of the generator apart have the same mask but for its
/// ends: the mask of the later key is one byte ahead.
pub proof fn law_masks_of_neighbouring_keys(key: u32, i: int)
    requires
        0 <= i < 31,
    ensures
        tables_of(((key + 0x9E3779B9) % 0x1_0000_0000) as u32).mask[i] == tables_of(key).mask[i
            + 1],
{
    crate::prng::law_draws_are_counted(key, 1, (256 + i) as nat);
}

/// Every byte is encoded by itself: the byte at position `i` becomes its
/// substitute, combined with mask byte `i % 32` by exclusive or. No length
/// changes, and no other byte, no other mask byte and no length plays a part.
pub proof fn law_encoded_bytes(t: Tables, data: Seq<u8>)
    ensures
        encoded(t, data).len() == data.len(),
        forall|i: int|
            0 <= i < data.len() ==> #[trigger] encoded(t, data)[i] == t.sbox[data[i] as int]
                ^ t.mask[i % 32],
{
}

/// Every byte is decoded by itself: what comes out at position `i` is the byte
/// whose substitute is the byte that went in, combined with mask byte `i % 32`
/// by exclusive or.
pub proof fn law_decoded_bytes(key: u32, data: Seq<u8>)
    ensures
        decoded(tables_of(key), data).len() == data.len(),
        forall|i: int|
            0 <= i < data.len() ==> tables_of(key).sbox[(#[trigger] decoded(
                tables_of(key),
                data,
            )[i]) as int] == data[i] ^ tables_of(key).mask[i % 32],
{
    law_sbox_is_permutation(key);
    assert forall|i: int| 0 <= i < data.len() implies tables_of(key).sbox[(#[trigger] decoded(
        tables_of(key),
        data,
    )[i]) as int] == data[i] ^ tables_of(key).mask[i % 32] by {
        lemma_preimage(tables_of(key).sbox, data[i] ^ tables_of(key).mask[i % 32]);
    }
}

/// The same of every codec that is at hand, whatever key it was made from.
pub proof fn law_codec_decodes_bytes(codec: &Codec, data: Seq<u8>)
    requires
        codec.wf(),
    ensures
        decoded(codec@, data).len() == data.len(),
        forall|i: int|
            0 <= i < data.len() ==> codec@.sbox[(#[trigger] decoded(codec@, data)[i]) as int]
                == data[i] ^ codec@.mask[i % 32],
{
    assert forall|i: int| 0 <= i < data.len() implies codec@.sbox[(#[trigger] decoded(
        codec@,
        data,
    )[i]) as int] == data[i] ^ codec@.mask[i % 32] by {
        lemma_preimage(codec@.sbox, data[i] ^ codec@.mask[i % 32]);
    }
}

/// The mask repeats after 32 bytes: equal bytes at positions that are a multiple
/// of 32 apart, in the same data or in other data of any length, are encoded and
/// decoded alike, and different ones are not.
pub proof fn law_encoding_is_periodic(key: u32, a: Seq<u8>, i: int, b: Seq<u8>, j: int)
    requires
        0 <= i < a.len(),
        0 <= j < b.len(),
        i % 32 == j % 32,
    ensures
        encoded(tables_of(key), a)[i] == encoded(tables_of(key), b)[j] <==> a[i] == b[j],
        decoded(tables_of(key), a)[i] == decoded(tables_of(key), b)[j] <==> a[i] == b[j],
{
    law_encoded_bytes(tables_of(key), a);
    law_encoded_bytes(tables_of(key), b);
    law_decoded_bytes(key, a);
    law_decoded_bytes(key, b);
    let m = tables_of(key).mask[i % 32];
    let (x, y) = (tables_of(key).sbox[a[i] as int], tables_of(key).sbox[b[j] as int]);
    assert(x ^ m == y ^ m <==> x == y) by (bit_vector);
    if a[i] != b[j] {
        law_substitutes_differ(key, a[i], b[j]);
    }
    let (x, y) = (a[i], b[j]);
    assert(x ^ m == y ^ m <==> x == y) by (bit_vector);
}

/// Every codec holds valid tables.
pub proof fn law_codec_is_valid(codec: &Codec)
    requires
        codec.wf(),
    ensures
        codec@.valid(),
{
}

/// Every codec is a bijection: what it encodes it decodes again, and what it
/// decodes it encodes again.
pub proof fn law_codec_roundtrip(codec: &Codec, data: Seq<u8>)
    requires
        codec.wf(),
    ensures
        decoded(codec@, encoded(codec@, data)) == data,
        encoded(codec@, decoded(codec@, data)) == data,
{
    law_codec_is_valid(codec);
    law_decode_undoes_encode(codec@, data);
    law_encode_undoes_decode(codec@, data);
}

/// Decoding undoes encoding, for all tables and all data.
pub proof fn law_decode_undoes_encode(t: Tables, data: Seq<u8>)
    requires
        t.valid(),
    ensures
        decoded(t, encoded(t, data)) == data,
{
    assert forall|i: int| 0 <= i < data.len() implies #[trigger] decoded(t, encoded(t, data))[i]
        == data[i] by {
        let (b, m) = (t.sbox[data[i] as int], t.mask[i % 32]);
        assert((b ^ m) ^ m == b) by (bit_vector);
        lemma_preimage(t.sbox, b);
    }
    assert(decoded(t, encoded(t, data)) =~= data);
}

/// Encoding undoes decoding, for all tables and all data.
pub proof fn law_encode_undoes_decode(t: Tables, data: Seq<u8>)
    requires
        t.valid(),
    ensures
        encoded(t, decoded(t, data)) == data,
{
    assert forall|i: int| 0 <= i < data.len() implies #[trigger] encoded(t, decoded(t, data))[i]
        == data[i] by {
        let (d, m) = (data[i], t.mask[i % 32]);
        lemma_preimage(t.sbox, d ^ m);
        assert((d ^ m) ^ m == d) by (bit_vector);
    }
    assert(encoded(t, decoded(t, data)) =~= data);
}

/// The bodies of every key can be read back and written again: `decode_body`
/// undoes `encode_body`, `encode_body` undoes `decode_body`, and neither
/// changes a length.
pub proof fn law_body_roundtrip(key: u32, data: Seq<u8>)
    ensures
        decoded(tables_of(key), encoded(tables_of(key), data)) == data,
        encoded(tables_of(key), decoded(tables_of(key), data)) == data,
        encoded(tables_of(key), data).len() == data.len(),
        decoded(tables_of(key), data).len() == data.len(),
{
    law_sbox_is_permutation(key);
    law_decode_undoes_encode(tables_of(key), data);
    law_encode_undoes_decode(tables_of(key), data);
}

} // verus!
