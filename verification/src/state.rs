//! Replay protection: two bitsets of used keys that take turns.
//!
//! A key falls into a slot, its remainder by the number of bits in a bitset. A
//! key that was used sets the bit of its slot in the active bitset, and a key is
//! fresh while its bit is clear in both. A rotation empties the bitset that is
//! not active and makes it the active one, so that a used key is remembered
//! until the second rotation after its use.
//!
//! The state also draws the keys of the responses.
use vstd::prelude::*;

use std::time::Duration;

use crate::host::{random_u32_seed, unix_now, SeedError};
use crate::prng::{splitmix32_finalize, SPLITMIX32_GAMMA};

verus! {

/// What a state holds.
#[verifier::ext_equal]
pub struct Window {
    /// The number of slots that keys fall into.
    pub slots: nat,
    /// The slots of the keys used since the last rotation.
    pub current: Set<int>,
    /// The slots of the keys used between the last two rotations.
    pub previous: Set<int>,
    /// When the last rotation took place, in seconds since the UNIX epoch.
    pub last_rotation: u64,
    /// How many seconds lie between rotations at the least.
    pub rotation_secs: u64,
    /// The counter that the response keys are drawn from.
    pub counter: u32,
}

impl Window {
    /// Rotations are at least a second apart, and only slots are remembered.
    pub open spec fn valid(self) -> bool {
        &&& self.rotation_secs >= 1
        &&& forall|slot: int| #[trigger] self.current.contains(slot) ==> 0 <= slot < self.slots
        &&& forall|slot: int| #[trigger] self.previous.contains(slot) ==> 0 <= slot < self.slots
    }

    /// The slot of `key`.
    pub open spec fn slot(self, key: u32) -> int {
        key as int % self.slots as int
    }

    /// No key in the slot of `key` is remembered as used.
    pub open spec fn fresh(self, key: u32) -> bool {
        !self.current.contains(self.slot(key)) && !self.previous.contains(self.slot(key))
    }

    /// The window after `key` was used.
    pub open spec fn marked(self, key: u32) -> Window {
        Window { current: self.current.insert(self.slot(key)), ..self }
    }

    /// The window after a rotation: what was current is previous, and what was
    /// previous is forgotten.
    pub open spec fn rotated(self) -> Window {
        Window { current: Set::empty(), previous: self.current, ..self }
    }

    /// A rotation is due at time `now`.
    pub open spec fn due(self, now: u64) -> bool {
        now - self.last_rotation >= self.rotation_secs
    }

    /// The window after a look at the clock that showed `now`: rotated where a
    /// rotation is due, and otherwise as it was.
    pub open spec fn ticked(self, now: u64) -> Window {
        if self.due(now) {
            Window { last_rotation: now, ..self.rotated() }
        } else {
            self
        }
    }

    /// The window after a response key was drawn.
    pub open spec fn drawn(self) -> Window {
        Window { counter: crate::prng::sum32(self.counter, SPLITMIX32_GAMMA), ..self }
    }

    /// The window of a state that has seen no key.
    pub open spec fn unused(self) -> bool {
        self.current == Set::<int>::empty() && self.previous == Set::<int>::empty()
    }
}

/// Bit `slot` of the bitset `words`.
pub open spec fn has_bit(words: Seq<u64>, slot: int) -> bool {
    words[slot / 64] & (1u64 << ((slot % 64) as u64)) != 0
}

/// The slots whose bits are set in `words`.
pub open spec fn slots_in(words: Seq<u64>) -> Set<int> {
    Set::new(|slot: int| 0 <= slot < words.len() * 64 && has_bit(words, slot))
}

/// The used keys of the recent past, and the source of the response keys.
///
/// There is one state to a server. It cannot be cloned, because a copy would
/// not learn of the keys that are used through the other: workers share it
/// behind a lock.
pub struct XorState {
    /// Two bitsets that take turns.
    bitsets: [Vec<u64>; 2],
    /// Which bitset is active.
    active_idx: usize,
    /// The counter that the response keys are drawn from.
    resp_prng_state: u32,
    /// The number of words in each bitset.
    words_len: usize,
    /// When the bitsets last took turns, in seconds since the UNIX epoch.
    last_rotation: u64,
    /// How many seconds lie between rotations at the least.
    rotation_secs: u64,
}

impl View for XorState {
    type V = Window;

    closed spec fn view(&self) -> Window {
        Window {
            slots: self.words_len as nat * 64,
            current: slots_in(self.bitsets@[self.active_idx as int]@),
            previous: slots_in(self.bitsets@[1 - self.active_idx as int]@),
            last_rotation: self.last_rotation,
            rotation_secs: self.rotation_secs,
            counter: self.resp_prng_state,
        }
    }
}

impl XorState {
    /// Both bitsets have their length, one of them is active, and rotations are
    /// at least a second apart.
    pub closed spec fn wf(&self) -> bool {
        &&& self.bitsets@[0]@.len() == self.words_len
        &&& self.bitsets@[1]@.len() == self.words_len
        &&& self.active_idx <= 1
        &&& self.rotation_secs >= 1
    }

    /// Keys have slots to fall into, and the number of slots is a `usize`.
    pub open spec fn has_slots(&self) -> bool {
        0 < self@.slots <= usize::MAX
    }

    /// A state with empty bitsets of `bitset_words` words each, whose rotations
    /// are at least `rotation_secs` seconds apart, and at least one. The
    /// response keys are drawn from `seed` on, and the first interval starts at
    /// `now`.
    pub fn with_seed(bitset_words: usize, rotation_secs: u64, seed: u32, now: u64) -> (state: Self)
        requires
            bitset_words * 8 <= isize::MAX,
        ensures
            state.wf(),
            state@.unused(),
            state@.slots == bitset_words * 64,
            state@.last_rotation == now,
            state@.rotation_secs == (if rotation_secs >= 1 { rotation_secs } else { 1 }),
            state@.counter == seed,
    {
        let mut b1: Vec<u64> = Vec::with_capacity(bitset_words);
        let mut b2: Vec<u64> = Vec::with_capacity(bitset_words);
        let mut i: usize = 0;
        while i < bitset_words
            invariant
                i <= bitset_words,
                b1@.len() == i,
                b2@.len() == i,
                forall|k: int| 0 <= k < i ==> b1@[k] == 0 && b2@[k] == 0,
            decreases bitset_words - i,
        {
            b1.push(0);
            b2.push(0);
            i += 1;
        }
        proof {
            lemma_zero_words(b1@);
            lemma_zero_words(b2@);
        }
        XorState {
            bitsets: [b1, b2],
            active_idx: 0,
            resp_prng_state: seed,
            words_len: bitset_words,
            last_rotation: now,
            rotation_secs: if rotation_secs >= 1 {
                rotation_secs
            } else {
                1
            },
        }
    }

    /// What a start with the seed that the machine gave leads to: a state with
    /// that seed, whose first interval starts at `now`, or the machine's error.
    pub fn from_seed(
        bitset_words: usize,
        rotation_interval: Duration,
        seed: Result<u32, SeedError>,
        now: u64,
    ) -> (state: Result<Self, SeedError>)
        requires
            bitset_words * 8 <= isize::MAX,
        ensures
            seed matches Err(e) ==> state == Err::<Self, SeedError>(e),
            seed matches Ok(counter) ==> (state matches Ok(s) && {
                let secs = crate::host::duration_secs(rotation_interval);
                &&& s.wf()
                &&& s@.unused()
                &&& s@.slots == bitset_words * 64
                &&& s@.last_rotation == now
                &&& s@.rotation_secs == (if secs >= 1 { secs } else { 1 })
                &&& s@.counter == counter
            }),
    {
        match seed {
            Ok(counter) => Ok(
                Self::with_seed(bitset_words, rotation_interval.as_secs(), counter, now),
            ),
            Err(e) => Err(e),
        }
    }

    /// A state with empty bitsets of `bitset_words` words each: 65536 words take
    /// 512 KiB and give about 4.2 million slots. Rotations are at least
    /// `rotation_interval` apart, counted in whole seconds, and at least one
    /// second. They are lazy: one takes place only at a look at the clock, which
    /// comes with a request whose body is accepted. A used key is forgotten at
    /// the second rotation after its use.
    ///
    /// The response keys start at a random seed, and the first interval starts
    /// now. The error says that the machine had no random bytes to give: the seed
    /// is the four bytes that `getrandom::fill` left, and there is an error
    /// exactly where that call failed.
    pub fn new(bitset_words: usize, rotation_interval: Duration) -> (state: Result<Self, SeedError>)
        requires
            bitset_words * 8 <= isize::MAX,
        ensures
            state matches Ok(s) ==> {
                let secs = crate::host::duration_secs(rotation_interval);
                &&& s.wf()
                &&& s@.unused()
                &&& s@.slots == bitset_words * 64
                &&& s@.rotation_secs == (if secs >= 1 { secs } else { 1 })
            },
            state matches Ok(s) ==> exists|reading: Option<Duration>| #[trigger]
                crate::host::clock_showed(reading) && s@.last_rotation
                    == crate::host::reading_secs(reading),
            exists|dest: &mut [u8], filled: Result<(), getrandom::Error>| #[trigger]
                call_ensures(getrandom::fill, (dest,), filled) && final(dest)@.len() == 4 && (
                match filled {
                    Ok(_) => state matches Ok(s) && s@.counter == final(dest)@[0] + 0x100
                        * final(dest)@[1] + 0x1_0000 * final(dest)@[2] + 0x100_0000
                        * final(dest)@[3],
                    Err(_) => state is Err,
                }),
    {
        let now: u64 = unix_now();
        let seed: Result<u32, SeedError> = random_u32_seed();
        Self::from_seed(bitset_words, rotation_interval, seed, now)
    }

    /// Empties the bitset that is not active, and makes it the active one.
    pub fn rotate_bitsets(&mut self)
        requires
            old(self).wf(),
        ensures
            final(self).wf(),
            final(self)@ == old(self)@.rotated(),
    {
        let next: usize = 1 - self.active_idx;
        let mut i: usize = 0;
        while i < self.words_len
            invariant
                self.wf(),
                i <= self.words_len,
                next == 1 - self.active_idx,
                self.active_idx == old(self).active_idx,
                self.words_len == old(self).words_len,
                self.last_rotation == old(self).last_rotation,
                self.rotation_secs == old(self).rotation_secs,
                self.resp_prng_state == old(self).resp_prng_state,
                self.bitsets@[self.active_idx as int] == old(self).bitsets@[self.active_idx as int],
                forall|k: int| 0 <= k < i ==> self.bitsets@[next as int]@[k] == 0,
            decreases self.words_len - i,
        {
            self.bitsets[next][i] = 0;
            i += 1;
        }
        proof {
            lemma_zero_words(self.bitsets@[next as int]@);
        }
        self.active_idx = next;
    }

    /// Rotates the bitsets if a rotation is due at `now`, which then starts a
    /// new interval.
    pub fn rotate_if_due(&mut self, now: u64)
        requires
            old(self).wf(),
        ensures
            final(self).wf(),
            final(self)@ == old(self)@.ticked(now),
    {
        if now.saturating_sub(self.last_rotation) < self.rotation_secs {
            return ;
        }
        self.last_rotation = now;
        self.rotate_bitsets();
    }

    /// Rotates the bitsets if the clock shows that a rotation is due, by the
    /// whole seconds of its reading.
    pub fn maybe_rotate(&mut self)
        requires
            old(self).wf(),
        ensures
            final(self).wf(),
            exists|reading: Option<Duration>| #[trigger]
                crate::host::clock_showed(reading) && final(self)@ == old(self)@.ticked(
                    crate::host::reading_secs(reading),
                ),
    {
        let now: u64 = unix_now();
        self.rotate_if_due(now);
    }

    /// Whether `key`, and every key that shares its slot, is unused as far as
    /// the bitsets remember.
    pub fn is_fresh(&self, key: u32) -> (fresh: bool)
        requires
            self.wf(),
            self.has_slots(),
        ensures
            fresh == self@.fresh(key),
    {
        let bit_index: usize = key as usize % (self.words_len * 64);
        let word_idx: usize = bit_index / 64;
        let mask: u64 = 1u64 << ((bit_index % 64) as u64);
        let active: usize = self.active_idx;
        let inactive: usize = 1 - active;

        if self.bitsets[active][word_idx] & mask != 0 {
            return false;
        }
        // The previous bitset guards against replays right after a rotation.
        if self.bitsets[inactive][word_idx] & mask != 0 {
            return false;
        }
        true
    }

    /// Remembers `key` as used, in the active bitset.
    pub fn mark_used(&mut self, key: u32)
        requires
            old(self).wf(),
            old(self).has_slots(),
        ensures
            final(self).wf(),
            final(self)@ == old(self)@.marked(key),
    {
        let bit_index: usize = key as usize % (self.words_len * 64);
        let word_idx: usize = bit_index / 64;
        let mask: u64 = 1u64 << ((bit_index % 64) as u64);
        let active: usize = self.active_idx;
        let ghost before = self.bitsets@[active as int]@;
        self.bitsets[active][word_idx] = self.bitsets[active][word_idx] | mask;
        proof {
            lemma_set_bit(before, bit_index as int);
        }
    }

    /// The next response key.
    pub fn next_resp_key(&mut self) -> (key: u32)
        requires
            old(self).wf(),
        ensures
            final(self).wf(),
            final(self)@ == old(self)@.drawn(),
            key == crate::prng::mix(old(self)@.counter),
    {
        let x: u32 = self.resp_prng_state;
        self.resp_prng_state = x.wrapping_add(SPLITMIX32_GAMMA);
        splitmix32_finalize(x)
    }
}

/// Every state holds a valid window.
pub proof fn law_window_is_valid(state: &XorState)
    requires
        state.wf(),
    ensures
        state@.valid(),
{
}

/// A state can take keys as soon as its bitsets have words whose bits can be
/// counted in a `usize`.
pub proof fn law_words_give_slots(state: &XorState)
    ensures
        0 < state@.slots <= usize::MAX ==> state.has_slots(),
{
}

/// Keys share a slot exactly where they leave the same remainder by the number
/// of slots. Different keys below that number have slots of their own.
pub proof fn law_keys_share_slots_by_remainder(w: Window, a: u32, b: u32)
    requires
        w.slots > 0,
    ensures
        w.slot(a) == w.slot(b) <==> a as int % w.slots as int == b as int % w.slots as int,
        0 <= w.slot(a) < w.slots,
        a < w.slots && b < w.slots && a != b ==> w.slot(a) != w.slot(b),
{
    if a < w.slots && b < w.slots {
        vstd::arithmetic::div_mod::lemma_small_mod(a as nat, w.slots);
        vstd::arithmetic::div_mod::lemma_small_mod(b as nat, w.slots);
    }
}

/// Using a key takes its own slot and no other: afterwards a key is fresh if it
/// was fresh before and leaves another remainder by the number of slots than
/// the used key. Nothing else changes.
pub proof fn law_use_takes_one_slot(w: Window, used: u32, key: u32)
    requires
        w.slots > 0,
    ensures
        w.marked(used).fresh(key) <==> w.fresh(key) && used as int % w.slots as int != key as int
            % w.slots as int,
        w.marked(used).rotated().fresh(key) <==> w.rotated().fresh(key) && used as int
            % w.slots as int != key as int % w.slots as int,
        w.marked(used).rotated().rotated().fresh(key),
        w.marked(used).slots == w.slots,
        w.marked(used).last_rotation == w.last_rotation,
        w.marked(used).rotation_secs == w.rotation_secs,
        w.marked(used).counter == w.counter,
{
}

/// A key is fresh exactly where its remainder by the number of slots is among
/// the slots neither of the current nor of the previous interval. A window that
/// has seen no key holds none, and takes every key.
pub proof fn law_fresh_keys(w: Window, key: u32)
    ensures
        w.slots > 0 ==> (w.fresh(key) <==> !w.current.contains(key as int % w.slots as int)
            && !w.previous.contains(key as int % w.slots as int)),
        w.unused() ==> w.fresh(key),
        w.unused() <==> forall|slot: int|
            !(#[trigger] w.current.contains(slot)) && !w.previous.contains(slot),
{
    if forall|slot: int| !(#[trigger] w.current.contains(slot)) && !w.previous.contains(slot) {
        assert(w.current =~= Set::<int>::empty());
        assert forall|slot: int| !w.previous.contains(slot) by {
            assert(!w.current.contains(slot));
        }
        assert(w.previous =~= Set::<int>::empty());
    }
}

/// A rotation forgets the keys of the previous interval and keeps those of the
/// current one: a key that is refused afterwards was refused before, and was
/// used in the interval that ends. The slots, the times and the response keys
/// stay.
pub proof fn law_rotation_keeps_the_current_keys(w: Window, key: u32)
    ensures
        w.slots > 0 ==> (w.rotated().fresh(key) <==> !w.current.contains(
            key as int % w.slots as int,
        )),
        w.fresh(key) ==> w.rotated().fresh(key),
        w.rotated().rotated().fresh(key),
        forall|slot: int| #[trigger]
            w.rotated().previous.contains(slot) <==> w.current.contains(slot),
        forall|slot: int| !(#[trigger] w.rotated().current.contains(slot)),
        w.rotated().slots == w.slots,
        w.rotated().last_rotation == w.last_rotation,
        w.rotated().rotation_secs == w.rotation_secs,
        w.rotated().counter == w.counter,
{
}

/// A look at the clock rotates the window exactly where at least
/// `rotation_secs` seconds have gone by since the last rotation. The rotation
/// then counts from the time that the clock showed. Otherwise, also where the
/// clock went back, nothing changes.
pub proof fn law_clock_rotates_after_the_interval(w: Window, now: u64, key: u32)
    ensures
        now >= w.last_rotation + w.rotation_secs ==> {
            &&& w.ticked(now).last_rotation == now
            &&& w.ticked(now).current == Set::<int>::empty()
            &&& w.ticked(now).previous == w.current
            &&& w.ticked(now).fresh(key) == w.rotated().fresh(key)
        },
        now < w.last_rotation + w.rotation_secs ==> w.ticked(now) == w,
        w.ticked(now).slots == w.slots,
        w.ticked(now).rotation_secs == w.rotation_secs,
        w.ticked(now).counter == w.counter,
{
}

/// Two looks at the clock that lie less than an interval apart rotate the window
/// at most once: a key used before both is still refused after them.
pub proof fn law_looks_close_together_rotate_once(w: Window, first: u64, second: u64, key: u32)
    requires
        second < first + w.rotation_secs,
    ensures
        w.ticked(first) == w || w.ticked(first).ticked(second) == w.ticked(first),
        !w.marked(key).ticked(first).ticked(second).fresh(key),
{
}

/// Two looks at the clock that lie an interval or more apart, the first of them
/// that long after the last rotation, rotate the window twice: every key that
/// was used before is fresh again.
pub proof fn law_looks_far_apart_forget(w: Window, first: u64, second: u64, key: u32)
    requires
        first >= w.last_rotation + w.rotation_secs,
        second >= first + w.rotation_secs,
    ensures
        w.ticked(first).ticked(second).fresh(key),
{
}

/// Drawing a response key advances the counter by 0x9E3779B9 modulo 2^32, and
/// changes nothing else.
pub proof fn law_draw_advances_the_counter(w: Window, key: u32)
    ensures
        w.drawn().counter == (w.counter + 0x9E3779B9) % 0x1_0000_0000,
        w.drawn().current == w.current,
        w.drawn().previous == w.previous,
        w.drawn().slots == w.slots,
        w.drawn().last_rotation == w.last_rotation,
        w.drawn().rotation_secs == w.rotation_secs,
        w.drawn().fresh(key) == w.fresh(key),
{
}

/// Words that are all zero hold no slot.
proof fn lemma_zero_words(words: Seq<u64>)
    requires
        forall|k: int| 0 <= k < words.len() ==> words[k] == 0,
    ensures
        slots_in(words) == Set::<int>::empty(),
{
    assert forall|slot: int| !slots_in(words).contains(slot) by {
        if 0 <= slot < words.len() * 64 {
            let bit = (slot % 64) as u64;
            assert(0u64 & (1u64 << bit) == 0) by (bit_vector);
        }
    }
    assert(slots_in(words) =~= Set::<int>::empty());
}

/// Setting a bit adds its slot, and no other.
proof fn lemma_set_bit(words: Seq<u64>, at: int)
    requires
        0 <= at < words.len() * 64,
    ensures
        slots_in(words.update(at / 64, words[at / 64] | (1u64 << ((at % 64) as u64))))
            == slots_in(words).insert(at),
{
    let w = words[at / 64];
    let b = (at % 64) as u64;
    let after = words.update(at / 64, w | (1u64 << b));
    assert forall|slot: int|
        slots_in(after).contains(slot) == slots_in(words).insert(at).contains(slot) by {
        if 0 <= slot < words.len() * 64 && slot / 64 == at / 64 {
            let c = (slot % 64) as u64;
            assert((w | (1u64 << b)) & (1u64 << c) != 0 <==> b == c || w & (1u64 << c) != 0)
                by (bit_vector)
                requires
                    b < 64,
                    c < 64,
            ;
        }
    }
    assert(slots_in(after) =~= slots_in(words).insert(at));
}

} // verus!
