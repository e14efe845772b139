//! What the machine provides: random bytes for a seed, and the time.
use vstd::prelude::*;

use std::time::Duration;

verus! {

/// `getrandom::Error`, carried as it is.
#[verifier::external_type_specification]
#[verifier::external_body]
pub struct ExRandomError(getrandom::Error);

/// The machine gave no random bytes to seed the response keys with.
#[derive(Clone, Copy, Debug, PartialEq, Eq, Structural)]
pub struct SeedError;

/// The number of whole seconds in `d`.
pub uninterp spec fn duration_secs(d: Duration) -> u64;

/// `std::time::Duration::as_secs`, the number of whole seconds of a duration:
/// a function of the duration alone.
pub assume_specification[ Duration::as_secs ](d: &Duration) -> (secs: u64)
    ensures
        secs == duration_secs(*d),
;

/// `getrandom::fill`, which overwrites `dest` with random bytes or reports an
/// error.
///
/// Believed of it: the buffer keeps its length. Which bytes it holds afterwards,
/// and whether the call succeeds, is up to the machine.
pub assume_specification[ getrandom::fill ](dest: &mut [u8]) -> (r: Result<(), getrandom::Error>)
    ensures
        final(dest)@.len() == old(dest)@.len(),
;

/// Calls `std::time::SystemTime::elapsed` on the UNIX epoch: how long ago that
/// was, or `None` where the clock stands before it. Nothing is believed of the
/// result, which is the time.
#[verifier::external_body]
fn since_epoch() -> (elapsed: Option<Duration>) {
    std::time::UNIX_EPOCH.elapsed().ok()
}

/// `reading` is what a look at the machine's clock answered: how long ago the
/// UNIX epoch was, or `None` where the clock stands before it. This is the one
/// way to speak of the time, which no contract can know beforehand.
pub closed spec fn clock_showed(reading: Option<Duration>) -> bool {
    call_ensures(since_epoch, (), reading)
}

/// The whole seconds of a reading of the clock.
pub open spec fn reading_secs(reading: Option<Duration>) -> u64 {
    match reading {
        Some(d) => duration_secs(d),
        None => 0,
    }
}

/// The whole seconds of a reading of the clock. A clock that stands before the
/// epoch reads as zero.
pub fn clock_secs(elapsed: Option<Duration>) -> (secs: u64)
    ensures
        secs == reading_secs(elapsed),
        secs == (match elapsed {
            Some(d) => duration_secs(d),
            None => 0,
        }),
{
    match elapsed {
        Some(d) => d.as_secs(),
        None => 0,
    }
}

/// The number of seconds since the UNIX epoch, as the machine's clock has it: the
/// whole seconds of what the clock answers.
pub(crate) fn unix_now() -> (secs: u64)
    ensures
        exists|reading: Option<Duration>| #[trigger]
            clock_showed(reading) && secs == reading_secs(reading),
{
    let reading: Option<Duration> = since_epoch();
    proof {
        law_readings_come_from_the_clock(reading);
    }
    clock_secs(reading)
}

/// A reading of the clock is an answer of the machine and nothing else, and its
/// seconds are those of the answer: a time that the clock did not show, or that
/// is counted in another unit, is no reading.
proof fn law_readings_come_from_the_clock(reading: Option<Duration>)
    ensures
        clock_showed(reading) <==> call_ensures(since_epoch, (), reading),
        reading matches Some(elapsed) ==> reading_secs(reading) == duration_secs(elapsed),
        reading is None ==> reading_secs(reading) == 0,
{
}

/// The number that four bytes stand for, the least significant one first.
pub fn seed_from_bytes(bytes: [u8; 4]) -> (seed: u32)
    ensures
        seed == bytes@[0] + 0x100 * bytes@[1] + 0x1_0000 * bytes@[2] + 0x100_0000 * bytes@[3],
{
    let low: u32 = bytes[0] as u32 + 0x100 * (bytes[1] as u32);
    let high: u32 = bytes[2] as u32 + 0x100 * (bytes[3] as u32);
    low + 0x1_0000 * high
}

/// What a request for random bytes leads to, from how it ended and from the
/// bytes that it left: the seed that the bytes stand for where they are random,
/// and an error otherwise.
pub fn seed_from_fill(filled: Result<(), getrandom::Error>, bytes: [u8; 4]) -> (seed: Result<
    u32,
    SeedError,
>)
    ensures
        filled is Ok <==> seed is Ok,
        seed matches Ok(s) ==> s == bytes@[0] + 0x100 * bytes@[1] + 0x1_0000 * bytes@[2]
            + 0x100_0000 * bytes@[3],
{
    match filled {
        Ok(()) => Ok(seed_from_bytes(bytes)),
        Err(_) => Err(SeedError),
    }
}

/// A random seed, or an error where the machine has no random bytes to give.
/// Which of the two, and which seed, is up to the machine: the seed is the four
/// bytes that a call of `getrandom::fill` left, all of them, and the error comes
/// where that call failed.
pub(crate) fn random_u32_seed() -> (seed: Result<u32, SeedError>)
    ensures
        exists|dest: &mut [u8], filled: Result<(), getrandom::Error>| #[trigger]
            call_ensures(getrandom::fill, (dest,), filled) && final(dest)@.len() == 4 && (
            match filled {
                Ok(_) => seed matches Ok(s) && s == final(dest)@[0] + 0x100 * final(dest)@[1]
                    + 0x1_0000 * final(dest)@[2] + 0x100_0000 * final(dest)@[3],
                Err(_) => seed is Err,
            }),
{
    let mut buf: [u8; 4] = [0u8; 4];
    let filled: Result<(), getrandom::Error> = getrandom::fill(&mut buf);
    seed_from_fill(filled, buf)
}

} // verus!
