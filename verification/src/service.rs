//! What the service decides about requests and responses.
//!
//! The transport hands over what it received as plain values, and carries out
//! what the functions here answer.
use vstd::prelude::*;

use ntex::http::header::HeaderMap;
use std::time::Duration;

use crate::frame::{decode_frame, encode_frame};
use crate::headers::{set_response_key, with_cors, KEY_HEADER};
use crate::host::unix_now;
use crate::state::{Window, XorState};

verus! {

/// How many bytes of a request's body are kept.
pub const MAX_BODY_LEN: usize = 8 * 1024 * 1024;

/// The status of the answer to a preflight request: no content.
pub const NO_CONTENT: u16 = 204;

/// The status of the answer to a refused request: bad request.
pub const BAD_REQUEST: u16 = 400;

/// The method of a preflight request.
pub const PREFLIGHT_METHOD: &'static str = "OPTIONS";

/// What becomes of a request.
pub enum Verdict {
    /// It is answered at once, with this status and no body.
    Answer(u16),
    /// It goes on to the inner service, with this body.
    Forward(Vec<u8>),
}

/// The body of a response of the inner service.
pub enum ReplyBody {
    /// Bytes at hand.
    Bytes(Vec<u8>),
    /// No bytes at hand.
    Absent,
    /// A stream, which is not the library's to change: images and files.
    Stream,
}

/// What becomes of the body of a response.
pub enum Reply {
    /// It goes out as it is.
    PassThrough,
    /// It is empty.
    Empty,
    /// It is this frame, and the key header names this key.
    Framed {
        /// The key that the frame is encoded with.
        key: u32,
        /// The frame of the body.
        frame: Vec<u8>,
    },
}

impl Verdict {
    /// The request is answered with `status`.
    pub open spec fn answers(&self, status: u16) -> bool {
        self matches Verdict::Answer(s) && s == status
    }

    /// The request goes on with the body `body`.
    pub open spec fn forwards(&self, body: Seq<u8>) -> bool {
        self matches Verdict::Forward(b) && b@ == body
    }
}

impl ReplyBody {
    /// The bytes at hand.
    pub open spec fn bytes(&self) -> Seq<u8> {
        match self {
            ReplyBody::Bytes(b) => b@,
            _ => Seq::empty(),
        }
    }
}

/// `body` with `chunk` behind it, or `body` alone where both together are more
/// than is kept.
pub open spec fn absorbed(body: Seq<u8>, chunk: Seq<u8>) -> Seq<u8> {
    if body.len() + chunk.len() > MAX_BODY_LEN {
        body
    } else {
        body + chunk
    }
}

/// What is kept of a body that arrives in `chunks`.
pub open spec fn collected(chunks: Seq<Seq<u8>>) -> Seq<u8>
    decreases chunks.len(),
{
    if chunks.len() == 0 {
        Seq::empty()
    } else {
        absorbed(collected(chunks.drop_last()), chunks.last())
    }
}

/// The payload that a request brings past the window `w`: its body as it is
/// where that is empty, and otherwise what the body holds under the request's
/// key, if the request names a key, and the key is fresh. `None` is a refusal.
pub open spec fn accepted(w: Window, key: Option<u32>, body: Seq<u8>) -> Option<Seq<u8>> {
    if body.len() == 0 {
        Some(body)
    } else {
        match key {
            Some(k) => if w.fresh(k) {
                crate::frame::payload_of(body, k)
            } else {
                None
            },
            None => None,
        }
    }
}

/// The window after such a request, with the clock at `now`: an accepted key is
/// used up, and a rotation takes place if it is due. A refusal and an empty body
/// leave no trace.
pub open spec fn window_after(w: Window, key: Option<u32>, body: Seq<u8>, now: u64) -> Window {
    if body.len() > 0 && accepted(w, key, body) is Some {
        w.marked(key->0).ticked(now)
    } else {
        w
    }
}

/// The headers of a response whose body is `reply`, where the inner service set
/// `entries`.
pub open spec fn reply_headers(
    entries: Map<Seq<char>, Seq<Seq<u8>>>,
    reply: Reply,
) -> Map<Seq<char>, Seq<Seq<u8>>> {
    match reply {
        Reply::Framed { key, .. } => crate::headers::cors(
            crate::headers::put(entries, KEY_HEADER@, crate::key_text::decimal(key as nat)),
        ),
        _ => crate::headers::cors(entries),
    }
}

/// Whether a request is a preflight request, and the status that answers it.
/// Other requests get no answer here.
pub fn preflight(method: &str) -> (status: Option<u16>)
    ensures
        status == (if method@ == PREFLIGHT_METHOD@ {
            Some(NO_CONTENT)
        } else {
            None
        }),
        method@ == "OPTIONS"@ ==> status == Some(204u16),
        method@ != "OPTIONS"@ ==> status is None,
{
    if method.to_owned() == PREFLIGHT_METHOD.to_owned() {
        Some(NO_CONTENT)
    } else {
        None
    }
}

/// Takes the next chunk of a body. A chunk for which there is no room is
/// skipped. The answer is whether to go on: `None`, which stands for the end of
/// the body or for a failure to read on, ends it.
pub fn absorb(body: &mut Vec<u8>, chunk: Option<&[u8]>) -> (more: bool)
    ensures
        more == chunk is Some,
        chunk matches Some(bytes) ==> final(body)@ == absorbed(old(body)@, bytes@),
        chunk is None ==> final(body)@ == old(body)@,
{
    match chunk {
        Some(bytes) => {
            if body.len().saturating_add(bytes.len()) <= MAX_BODY_LEN {
                body.extend_from_slice(bytes);
                assert(body@ =~= old(body)@ + bytes@);
            }
            true
        },
        None => false,
    }
}

/// Settles a request whose key is fresh, from what its body decoded to: with a
/// payload the key is used up, the bitsets rotate if that is due at `now`, and
/// the payload goes on; without one the request is refused.
pub fn settle(state: &mut XorState, key: u32, payload: Option<Vec<u8>>, now: u64) -> (verdict:
    Verdict)
    requires
        old(state).wf(),
        payload is Some ==> old(state).has_slots(),
    ensures
        final(state).wf(),
        payload matches Some(bytes) ==> {
            &&& verdict.forwards(bytes@)
            &&& final(state)@ == old(state)@.marked(key).ticked(now)
        },
        payload is None ==> verdict.answers(BAD_REQUEST) && final(state)@ == old(state)@,
{
    match payload {
        Some(bytes) => {
            state.mark_used(key);
            state.rotate_if_due(now);
            Verdict::Forward(bytes)
        },
        None => Verdict::Answer(BAD_REQUEST),
    }
}

/// Decides about a request that names the key `key` and brings `body`, with the
/// clock at `now`.
pub fn receive_at(state: &mut XorState, key: Option<u32>, body: Vec<u8>, now: u64) -> (verdict:
    Verdict)
    requires
        old(state).wf(),
        body@.len() > 0 && key is Some ==> old(state).has_slots(),
        body@.len() <= isize::MAX / 2,
    ensures
        final(state).wf(),
        final(state)@ == window_after(old(state)@, key, body@, now),
        match accepted(old(state)@, key, body@) {
            Some(payload) => verdict.forwards(payload),
            None => verdict.answers(BAD_REQUEST),
        },
{
    if body.is_empty() {
        return Verdict::Forward(body);
    }
    match key {
        Some(k) => {
            if !state.is_fresh(k) {
                return Verdict::Answer(BAD_REQUEST);
            }
            let payload: Option<Vec<u8>> = decode_frame(body.as_slice(), k);
            settle(state, k, payload, now)
        },
        None => Verdict::Answer(BAD_REQUEST),
    }
}

/// Decides about a request that names the key `key` and brings `body`, by the
/// machine's clock: at the time that is the whole seconds of its reading.
pub fn receive(state: &mut XorState, key: Option<u32>, body: Vec<u8>) -> (verdict: Verdict)
    requires
        old(state).wf(),
        body@.len() > 0 && key is Some ==> old(state).has_slots(),
        body@.len() <= isize::MAX / 2,
    ensures
        final(state).wf(),
        exists|reading: Option<Duration>| #[trigger]
            crate::host::clock_showed(reading) && final(state)@ == window_after(
                old(state)@,
                key,
                body@,
                crate::host::reading_secs(reading),
            ),
        match accepted(old(state)@, key, body@) {
            Some(payload) => verdict.forwards(payload),
            None => verdict.answers(BAD_REQUEST),
        },
{
    let now: u64 = unix_now();
    receive_at(state, key, body, now)
}

/// The bytes of a response's body that the library encodes.
pub fn body_to_bytes(body: ReplyBody) -> (bytes: Vec<u8>)
    ensures
        bytes@ == body.bytes(),
{
    match body {
        ReplyBody::Bytes(b) => b,
        _ => Vec::new(),
    }
}

/// Decides about the body of a response. A stream passes through. A body
/// without bytes is empty. Any other body becomes a frame under the next
/// response key, and the frame decodes to it.
pub fn reply(state: &mut XorState, body: ReplyBody) -> (reply: Reply)
    requires
        old(state).wf(),
        body.bytes().len() <= isize::MAX / 2,
    ensures
        final(state).wf(),
        body is Stream ==> reply is PassThrough && final(state)@ == old(state)@,
        !(body is Stream) && body.bytes().len() == 0 ==> reply is Empty && final(state)@ == old(
            state,
        )@,
        body.bytes().len() > 0 ==> final(state)@ == old(state)@.drawn() && (reply matches Reply::Framed {
            key,
            frame,
        } && {
            &&& key == crate::prng::mix(old(state)@.counter)
            &&& frame@ == crate::frame::frame_of(body.bytes(), key)
            &&& crate::frame::payload_of(frame@, key) == Some(body.bytes())
        }),
{
    match body {
        ReplyBody::Stream => Reply::PassThrough,
        _ => {
            let raw: Vec<u8> = body_to_bytes(body);
            if raw.is_empty() {
                Reply::Empty
            } else {
                let key: u32 = state.next_resp_key();
                let frame: Vec<u8> = encode_frame(raw.as_slice(), key);
                Reply::Framed { key, frame }
            }
        },
    }
}

/// Sets the headers that go with the body of a response: the key header where
/// the body is a frame, and the CORS headers.
pub fn finish_headers(headers: &mut HeaderMap, reply: &Reply)
    ensures
        crate::headers::header_entries(*final(headers)) == reply_headers(
            crate::headers::header_entries(*old(headers)),
            *reply,
        ),
{
    if let Reply::Framed { key, .. } = reply {
        set_response_key(headers, *key);
    }
    with_cors(headers);
}

/// Sets the headers of an answer that does not come from the inner service, to a
/// preflight request or to a refused one: the CORS headers.
pub fn finish_answer(headers: &mut HeaderMap)
    ensures
        crate::headers::header_entries(*final(headers)) == crate::headers::cors(
            crate::headers::header_entries(*old(headers)),
        ),
{
    with_cors(headers);
}

/// Every response carries the five CORS headers, each with its one value,
/// whatever headers it had before: an answer to a preflight or a refused
/// request, and a response of the inner service with any body.
pub proof fn law_every_response_carries_cors(
    entries: Map<Seq<char>, Seq<Seq<u8>>>,
    reply: Reply,
)
    ensures
        crate::headers::carries_cors(crate::headers::cors(entries)),
        crate::headers::carries_cors(reply_headers(entries, reply)),
{
    crate::headers::law_cors_headers(entries);
    if let Reply::Framed { key, .. } = reply {
        crate::headers::law_cors_headers(
            crate::headers::put(entries, KEY_HEADER@, crate::key_text::decimal(key as nat)),
        );
    }
}

/// A framed response has the headers of the inner service, the key header and
/// the CORS headers. Any other response has the headers of the inner service and
/// the CORS headers, and its key header, if any, is as the inner service set it.
pub proof fn law_reply_headers(
    entries: Map<Seq<char>, Seq<Seq<u8>>>,
    reply: Reply,
    name: Seq<char>,
)
    requires
        name != "access-control-allow-origin"@,
        name != "access-control-allow-headers"@,
        name != "access-control-allow-methods"@,
        name != "access-control-max-age"@,
        name != "access-control-expose-headers"@,
    ensures
        ({
            let sent = reply_headers(entries, reply);
            &&& reply is Framed && name == "x-key"@ ==> sent.contains_key(name) && sent[name]
                == seq![crate::headers::bytes_of(crate::key_text::decimal(reply->key as nat))]
            &&& !(reply is Framed && name == "x-key"@) ==> sent.contains_key(name)
                == entries.contains_key(name) && (entries.contains_key(name) ==> sent[name]
                == entries[name])
        }),
{
    crate::headers::law_cors_headers(entries);
    if let Reply::Framed { key, .. } = reply {
        crate::headers::law_cors_headers(
            crate::headers::put(entries, KEY_HEADER@, crate::key_text::decimal(key as nat)),
        );
    }
}

/// A client can read the key of a framed response from its headers, whatever
/// headers the inner service set.
pub proof fn law_framed_response_names_its_key(
    entries: Map<Seq<char>, Seq<Seq<u8>>>,
    key: u32,
    frame: Vec<u8>,
)
    ensures
        crate::headers::key_in(reply_headers(entries, Reply::Framed { key, frame })) == Some(key),
{
    crate::headers::law_response_key_reads_back(entries, key);
}

/// A verdict says one thing: an answer names its status, and a request that goes
/// on has the very body that is told.
pub proof fn law_verdicts_are_exact(verdict: Verdict, status: u16, body: Seq<u8>)
    ensures
        verdict.answers(status) <==> verdict == Verdict::Answer(status),
        verdict.forwards(body) <==> verdict is Forward && verdict->Forward_0@ == body,
        !(verdict.answers(status) && verdict.forwards(body)),
{
}

/// Only bytes at hand are encoded: all of them, as they are.
pub proof fn law_bytes_of_reply_bodies(body: ReplyBody)
    ensures
        body matches ReplyBody::Bytes(b) ==> body.bytes() == b@,
        !(body is Bytes) ==> body.bytes().len() == 0,
{
}

/// What becomes of every request. One without a body goes on as it is, whatever
/// key it names, and leaves no trace. One with a body goes on with the payload of
/// the body where it names a fresh key that opens the body. Its key is then used
/// up, in the interval that is current before the clock is looked at. Every other
/// request is refused and leaves no trace.
pub proof fn law_requests_are_settled(w: Window, key: Option<u32>, body: Seq<u8>, now: u64)
    ensures
        body.len() == 0 ==> accepted(w, key, body) == Some(body) && window_after(w, key, body, now)
            == w,
        body.len() > 0 && key is None ==> accepted(w, key, body) is None && window_after(
            w,
            key,
            body,
            now,
        ) == w,
        body.len() > 0 ==> (key matches Some(k) ==> {
            let opens = w.fresh(k) && crate::frame::payload_of(body, k) is Some;
            &&& opens ==> accepted(w, key, body) == crate::frame::payload_of(body, k)
                && window_after(w, key, body, now) == w.marked(k).ticked(now)
            &&& !opens ==> accepted(w, key, body) is None && window_after(w, key, body, now) == w
        }),
{
}

/// Requests change nothing but the memory of used keys: the slots, the interval
/// and the response keys stay. The time of the last rotation moves to `now` where
/// a request with a body is accepted an interval or more after that time, and
/// stays otherwise.
pub proof fn law_requests_rotate_by_the_clock(w: Window, key: Option<u32>, body: Seq<u8>, now: u64)
    ensures
        ({
            let next = window_after(w, key, body, now);
            &&& next.slots == w.slots
            &&& next.rotation_secs == w.rotation_secs
            &&& next.counter == w.counter
            &&& next.last_rotation == (if body.len() > 0 && accepted(w, key, body) is Some && now
                >= w.last_rotation + w.rotation_secs {
                now
            } else {
                w.last_rotation
            })
        }),
{
}

/// Two requests whose times lie less than an interval apart rotate the window at
/// most once between them. A request that was accepted with a body is therefore
/// refused when it comes again after another one, whatever that one brought and
/// whatever the time is by then.
pub proof fn law_requests_close_together_rotate_once(
    w: Window,
    key: u32,
    body: Seq<u8>,
    first: u64,
    other_key: Option<u32>,
    other_body: Seq<u8>,
    second: u64,
    again: Seq<u8>,
)
    requires
        body.len() > 0,
        accepted(w, Some(key), body) is Some,
        second < first + w.rotation_secs,
        again.len() > 0,
    ensures
        ({
            let w1 = window_after(w, Some(key), body, first);
            let w2 = window_after(w1, other_key, other_body, second);
            &&& w1.last_rotation == w.last_rotation || w2.last_rotation == w1.last_rotation
            &&& accepted(w1, Some(key), again) is None
            &&& accepted(w2, Some(key), again) is None
        }),
{
}

/// The same of requests that are settled by readings of the machine's clock: the
/// times that count are the whole seconds of the readings.
pub proof fn law_readings_close_together_rotate_once(
    w: Window,
    key: u32,
    body: Seq<u8>,
    first: Duration,
    other_key: Option<u32>,
    other_body: Seq<u8>,
    second: Duration,
    again: Seq<u8>,
)
    requires
        body.len() > 0,
        accepted(w, Some(key), body) is Some,
        crate::host::duration_secs(second) < crate::host::duration_secs(first) + w.rotation_secs,
        again.len() > 0,
    ensures
        ({
            let w1 = window_after(w, Some(key), body, crate::host::reading_secs(Some(first)));
            let w2 = window_after(
                w1,
                other_key,
                other_body,
                crate::host::reading_secs(Some(second)),
            );
            &&& w1.last_rotation == w.last_rotation || w2.last_rotation == w1.last_rotation
            &&& accepted(w2, Some(key), again) is None
        }),
{
    law_requests_close_together_rotate_once(
        w,
        key,
        body,
        crate::host::reading_secs(Some(first)),
        other_key,
        other_body,
        crate::host::reading_secs(Some(second)),
        again,
    );
}

/// A request takes nothing from others: a key that was fresh before an accepted
/// request is fresh after it, unless it leaves the remainder of the request's key
/// by the number of slots.
pub proof fn law_requests_leave_other_keys_fresh(
    w: Window,
    key: Option<u32>,
    body: Seq<u8>,
    now: u64,
    other: u32,
)
    requires
        w.slots > 0,
        w.fresh(other),
        key is Some ==> key->0 as int % w.slots as int != other as int % w.slots as int,
    ensures
        window_after(w, key, body, now).fresh(other),
{
}

/// A refused request is answered as a bad request and changes nothing. It is
/// refused exactly where it has a body, and its key is missing, or was used, or
/// does not open the body.
pub proof fn law_refusal(w: Window, key: Option<u32>, body: Seq<u8>, now: u64)
    ensures
        accepted(w, key, body) is None <==> body.len() > 0 && (key is None || !w.fresh(key->0)
            || crate::frame::payload_of(body, key->0) is None),
        accepted(w, key, body) is None ==> window_after(w, key, body, now) == w,
{
}

/// A request that was accepted with a body is refused when it comes again, and
/// so is every other request with its key, until the second rotation after it.
pub proof fn law_replay_is_refused(
    w: Window,
    key: u32,
    body: Seq<u8>,
    now: u64,
    events: Seq<crate::replay::Event>,
    again: Seq<u8>,
)
    requires
        body.len() > 0,
        accepted(w, Some(key), body) is Some,
        again.len() > 0,
        crate::replay::rotations(
            w.marked(key),
            seq![crate::replay::Event::Tick(now)] + events,
        ) <= 1,
    ensures
        accepted(
            crate::replay::run(window_after(w, Some(key), body, now), events),
            Some(key),
            again,
        ) is None,
{
    let tick = seq![crate::replay::Event::Tick(now)];
    crate::replay::law_used_key_is_refused(w, key, tick + events);
    crate::replay::lemma_run_concat(w.marked(key), tick, events);
    reveal_with_fuel(crate::replay::run, 2);
    assert(tick.drop_last() =~= Seq::<crate::replay::Event>::empty());
}

/// A request that was accepted with a body at `now` is refused when it comes
/// again, and so is every other request with its key, as long as the clock shows
/// times from `now` on that lie within one rotation interval.
pub proof fn law_replay_is_refused_for_an_interval(
    w: Window,
    key: u32,
    body: Seq<u8>,
    now: u64,
    events: Seq<crate::replay::Event>,
    again: Seq<u8>,
)
    requires
        body.len() > 0,
        accepted(w, Some(key), body) is Some,
        again.len() > 0,
        forall|i: int|
            0 <= i < events.len() ==> (#[trigger] events[i] matches crate::replay::Event::Tick(t)
                ==> now <= t < now + w.rotation_secs),
        w.rotation_secs >= 1,
    ensures
        accepted(
            crate::replay::run(window_after(w, Some(key), body, now), events),
            Some(key),
            again,
        ) is None,
{
    let all = seq![crate::replay::Event::Tick(now)] + events;
    assert forall|i: int| 0 <= i < all.len() implies (
    #[trigger] all[i] matches crate::replay::Event::Tick(t) ==> now <= t < now
        + w.rotation_secs) by {
        if i > 0 {
            assert(all[i] == events[i - 1]);
        }
    }
    crate::replay::law_one_rotation_per_interval(w.marked(key), now, all);
    law_replay_is_refused(w, key, body, now, events, again);
}

/// A frame under a fresh key is accepted, and its payload goes on.
pub proof fn law_fresh_frame_is_accepted(w: Window, key: u32, frame: Seq<u8>, payload: Seq<u8>)
    requires
        w.fresh(key),
        crate::frame::payload_of(frame, key) == Some(payload),
    ensures
        accepted(w, Some(key), frame) == Some(payload),
        frame.len() >= crate::frame::MAGIC_LEN,
{
}

/// A chunk is kept whole where the body stays within 8388608 bytes with it, and
/// skipped whole otherwise. What came before stays in any case, and a skipped
/// chunk does not stop later ones.
pub proof fn law_chunks_are_kept_or_skipped(chunks: Seq<Seq<u8>>, chunk: Seq<u8>)
    ensures
        collected(Seq::empty()) == Seq::<u8>::empty(),
        collected(chunks).len() + chunk.len() <= 8388608 ==> collected(chunks.push(chunk))
            == collected(chunks) + chunk,
        collected(chunks).len() + chunk.len() > 8388608 ==> collected(chunks.push(chunk))
            == collected(chunks),
        collected(chunks.push(chunk)) == absorbed(collected(chunks), chunk),
{
    assert(chunks.push(chunk).drop_last() =~= chunks);
}

/// The same of one chunk, whatever is there already.
pub proof fn law_chunk_is_kept_or_skipped(body: Seq<u8>, chunk: Seq<u8>)
    ensures
        body.len() + chunk.len() <= 8388608 ==> absorbed(body, chunk) == body + chunk,
        body.len() + chunk.len() > 8388608 ==> absorbed(body, chunk) == body,
{
}

/// What is kept of a body is never longer than the limit.
pub proof fn law_body_is_bounded(chunks: Seq<Seq<u8>>)
    ensures
        collected(chunks).len() <= MAX_BODY_LEN,
    decreases chunks.len(),
{
    if chunks.len() > 0 {
        law_body_is_bounded(chunks.drop_last());
    }
}

/// A body within the limit is kept whole.
pub proof fn law_small_body_is_kept(chunks: Seq<Seq<u8>>)
    requires
        chunks.flatten().len() <= MAX_BODY_LEN,
    ensures
        collected(chunks) == chunks.flatten(),
    decreases chunks.len(),
{
    if chunks.len() > 0 {
        chunks.lemma_flatten_and_flatten_alt_are_equivalent();
        chunks.drop_last().lemma_flatten_and_flatten_alt_are_equivalent();
        law_small_body_is_kept(chunks.drop_last());
    }
}

} // verus!
