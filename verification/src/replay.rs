//! What the replay window promises over a history of events.
use vstd::prelude::*;

use crate::state::Window;

verus! {

/// What can happen to a window.
pub enum Event {
    /// A key was used.
    Use(u32),
    /// The clock was looked at.
    Tick(u64),
    /// A response key was drawn.
    Draw,
}

/// The window after `event`.
pub open spec fn after(w: Window, event: Event) -> Window {
    match event {
        Event::Use(key) => w.marked(key),
        Event::Tick(now) => w.ticked(now),
        Event::Draw => w.drawn(),
    }
}

/// The window after `events`, the first one first.
pub open spec fn run(w: Window, events: Seq<Event>) -> Window
    decreases events.len(),
{
    if events.len() == 0 {
        w
    } else {
        after(run(w, events.drop_last()), events.last())
    }
}

/// `event` rotates the window `w`.
pub open spec fn rotates(w: Window, event: Event) -> bool {
    event matches Event::Tick(now) && w.due(now)
}

/// How many of `events` rotate the window.
pub open spec fn rotations(w: Window, events: Seq<Event>) -> nat
    decreases events.len(),
{
    if events.len() == 0 {
        0
    } else {
        rotations(w, events.drop_last()) + if rotates(run(w, events.drop_last()), events.last()) {
            1nat
        } else {
            0
        }
    }
}

/// How many of `events` draw a response key.
pub open spec fn draws(events: Seq<Event>) -> nat
    decreases events.len(),
{
    if events.len() == 0 {
        0
    } else {
        draws(events.drop_last()) + if events.last() is Draw {
            1nat
        } else {
            0
        }
    }
}

/// No event changes the slots or the interval of a window.
proof fn lemma_run_keeps_shape(w: Window, events: Seq<Event>)
    ensures
        run(w, events).slots == w.slots,
        run(w, events).rotation_secs == w.rotation_secs,
    decreases events.len(),
{
    if events.len() > 0 {
        lemma_run_keeps_shape(w, events.drop_last());
    }
}

/// Events in two parts run one part after the other.
pub proof fn lemma_run_concat(w: Window, first: Seq<Event>, second: Seq<Event>)
    ensures
        run(w, first + second) == run(run(w, first), second),
    decreases second.len(),
{
    if second.len() == 0 {
        assert(first + second =~= first);
    } else {
        lemma_run_concat(w, first, second.drop_last());
        assert((first + second).drop_last() =~= first + second.drop_last());
    }
}

/// A slot that is remembered as current stays in the window until the second
/// rotation, and among the current ones until the first.
proof fn lemma_remembered(w: Window, slot: int, events: Seq<Event>)
    requires
        w.current.contains(slot),
    ensures
        rotations(w, events) == 0 ==> run(w, events).current.contains(slot),
        rotations(w, events) == 1 ==> run(w, events).current.contains(slot) || run(
            w,
            events,
        ).previous.contains(slot),
    decreases events.len(),
{
    if events.len() > 0 {
        lemma_remembered(w, slot, events.drop_last());
    }
}

/// A used key is refused at once, and until the second rotation after its use,
/// whatever else happens in between.
pub proof fn law_used_key_is_refused(w: Window, key: u32, events: Seq<Event>)
    requires
        rotations(w.marked(key), events) <= 1,
    ensures
        !w.marked(key).fresh(key),
        !run(w.marked(key), events).fresh(key),
{
    lemma_run_keeps_shape(w.marked(key), events);
    lemma_remembered(w.marked(key), w.slot(key), events);
}

/// Within less than one interval the window rotates at most once.
pub proof fn law_one_rotation_per_interval(w: Window, start: u64, events: Seq<Event>)
    requires
        forall|i: int|
            0 <= i < events.len() ==> (#[trigger] events[i] matches Event::Tick(now) ==> start <= now
                < start + w.rotation_secs),
    ensures
        rotations(w, events) <= 1,
{
    lemma_one_rotation_per_interval(w, start, events);
}

proof fn lemma_one_rotation_per_interval(w: Window, start: u64, events: Seq<Event>)
    requires
        forall|i: int|
            0 <= i < events.len() ==> (#[trigger] events[i] matches Event::Tick(now) ==> start <= now
                < start + w.rotation_secs),
    ensures
        rotations(w, events) <= 1,
        rotations(w, events) == 1 ==> start <= run(w, events).last_rotation,
    decreases events.len(),
{
    if events.len() > 0 {
        let before = events.drop_last();
        assert forall|i: int| 0 <= i < before.len() implies (#[trigger] before[i] matches Event::Tick(
            now,
        ) ==> start <= now < start + w.rotation_secs) by {
            assert(before[i] == events[i]);
        }
        lemma_one_rotation_per_interval(w, start, before);
        lemma_run_keeps_shape(w, before);
        assert(events[events.len() - 1] == events.last());
    }
}

/// A used key is refused for one whole interval: as long as the clock shows
/// times from `start` on that lie within one interval of it.
pub proof fn law_used_key_is_refused_for_an_interval(
    w: Window,
    key: u32,
    start: u64,
    events: Seq<Event>,
)
    requires
        forall|i: int|
            0 <= i < events.len() ==> (#[trigger] events[i] matches Event::Tick(now) ==> start <= now
                < start + w.rotation_secs),
    ensures
        !run(w.marked(key), events).fresh(key),
{
    law_one_rotation_per_interval(w.marked(key), start, events);
    law_used_key_is_refused(w, key, events);
}

/// Event `i` used a key in `slot`, and `n` rotations came after it.
pub open spec fn used_before(
    w: Window,
    events: Seq<Event>,
    slot: int,
    i: int,
    n: int,
) -> bool {
    &&& 0 <= i < events.len()
    &&& events[i] matches Event::Use(key) && w.slot(key) == slot
    &&& rotations(w, events) - rotations(w, events.take(i + 1)) == n
}

/// The start of a history has no more rotations than the whole.
proof fn lemma_rotations_grow(w: Window, events: Seq<Event>, n: int)
    requires
        0 <= n <= events.len(),
    ensures
        rotations(w, events.take(n)) <= rotations(w, events),
    decreases events.len(),
{
    if n == events.len() {
        assert(events.take(n) =~= events);
    } else {
        lemma_rotations_grow(w, events.drop_last(), n);
        assert(events.drop_last().take(n) =~= events.take(n));
    }
}

/// From an unused window on, the current slots are those used since the last
/// rotation, and the previous ones those used between the last two.
proof fn lemma_window_contents(w: Window, slot: int, events: Seq<Event>)
    requires
        w.unused(),
    ensures
        run(w, events).current.contains(slot) <==> exists|i: int|
            #[trigger] used_before(w, events, slot, i, 0),
        run(w, events).previous.contains(slot) <==> exists|i: int|
            #[trigger] used_before(w, events, slot, i, 1),
    decreases events.len(),
{
    if events.len() > 0 {
        let before = events.drop_last();
        let last = events.len() - 1;
        let d: int = if rotates(run(w, before), events.last()) {
            1
        } else {
            0
        };
        lemma_window_contents(w, slot, before);
        lemma_run_keeps_shape(w, before);
        assert(events.take(last + 1) =~= events);
        // A use further back has the rotation of the last event, if any, behind it too.
        assert forall|i: int, n: int| 0 <= i < last implies #[trigger] used_before(
            w,
            events,
            slot,
            i,
            n,
        ) == used_before(w, before, slot, i, n - d) by {
            assert(before.take(i + 1) =~= events.take(i + 1));
        }
        assert forall|i: int, n: int| #[trigger] used_before(w, before, slot, i, n) implies n >= 0
            && used_before(w, events, slot, i, n + d) by {
            lemma_rotations_grow(w, before, i + 1);
            assert(before.take(i + 1) =~= events.take(i + 1));
        }
        assert forall|i: int, n: int| #[trigger] used_before(w, events, slot, i, n) implies i == last
            || used_before(w, before, slot, i, n - d) by {
        }
        if events.last() is Use && w.slot(events.last()->Use_0) == slot {
            assert(used_before(w, events, slot, last, 0));
        }
    }
}

/// A key is fresh if and only if no key of its slot was used after the second
/// most recent rotation: in every history from an unused window on, each use of
/// the slot has at least two rotations behind it.
pub proof fn law_fresh_means_slot_unused(w: Window, key: u32, events: Seq<Event>)
    requires
        w.unused(),
    ensures
        run(w, events).fresh(key) <==> forall|i: int|
            0 <= i < events.len() ==> (#[trigger] events[i] matches Event::Use(used) ==> w.slot(used)
                == w.slot(key) ==> rotations(w, events) - rotations(w, events.take(i + 1)) >= 2),
{
    let slot = w.slot(key);
    lemma_run_keeps_shape(w, events);
    lemma_window_contents(w, slot, events);
    assert forall|i: int| 0 <= i < events.len() implies rotations(w, events) - rotations(
        w,
        #[trigger] events.take(i + 1),
    ) >= 0 by {
        lemma_rotations_grow(w, events, i + 1);
    }
    if run(w, events).fresh(key) {
        assert forall|i: int| 0 <= i < events.len() implies (#[trigger] events[i] matches Event::Use(
            used,
        ) ==> w.slot(used) == slot ==> rotations(w, events) - rotations(w, events.take(i + 1))
            >= 2) by {
            assert(!used_before(w, events, slot, i, 0));
            assert(!used_before(w, events, slot, i, 1));
        }
    }
}

/// A window that has seen no key takes every key, and the second of two
/// rotations leaves such a window.
pub proof fn law_second_rotation_forgets(w: Window, key: u32)
    ensures
        w.unused() ==> w.fresh(key),
        w.rotated().rotated().unused(),
        w.rotated().rotated().fresh(key),
{
}

/// The response keys are the successive draws of the generator, whatever else
/// happens in between.
pub proof fn law_response_keys_follow_the_generator(w: Window, events: Seq<Event>)
    ensures
        crate::prng::mix(run(w, events).counter) == crate::prng::draw(w.counter, draws(events)),
{
    lemma_counter_follows(w, events);
}

proof fn lemma_counter_follows(w: Window, events: Seq<Event>)
    ensures
        run(w, events).counter == crate::prng::counter(w.counter, draws(events)),
    decreases events.len(),
{
    if events.len() == 0 {
        crate::prng::lemma_counter_step(w.counter, 0);
    } else {
        lemma_counter_follows(w, events.drop_last());
        crate::prng::lemma_counter_step(w.counter, draws(events.drop_last()));
    }
}

/// No response key comes a second time within 2^32 draws.
pub proof fn law_response_keys_do_not_repeat(w: Window, events: Seq<Event>, later: Seq<Event>)
    requires
        draws(events) < draws(later) < draws(events) + 0x1_0000_0000,
    ensures
        crate::prng::mix(run(w, events).counter) != crate::prng::mix(run(w, later).counter),
{
    law_response_keys_follow_the_generator(w, events);
    law_response_keys_follow_the_generator(w, later);
    crate::prng::law_draws_do_not_repeat(w.counter, draws(events), draws(later));
}

} // verus!
