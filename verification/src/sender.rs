//! The duration-bounded payload sender, as a state machine.
//!
//! The sender lives on its own execution context. It takes burst durations
//! from the connection's queue one at a time, and for each one writes payload
//! frames until the requested number of milliseconds has elapsed, then writes
//! one burst-complete marker. The socket writes and the queue receive happen
//! outside this crate; here stands the verified decision logic: given the
//! current state and one event (a queue value, queue closure, or a clock
//! reading taken after a frame), what the sender does next.

use vstd::arithmetic::div_mod::lemma_fundamental_div_mod;
use vstd::prelude::*;

verus! {

/// Number of nanoseconds in one millisecond.
pub const NS_PER_MS: u64 = 1_000_000;

/// Whole milliseconds elapsed between two readings of the same clock. A
/// reading that lies before the start counts as no elapsed time at all.
pub open spec fn elapsed_ms_of(start: u64, now: u64) -> u64 {
    if now >= start {
        ((now - start) / (NS_PER_MS as int)) as u64
    } else {
        0
    }
}

/// Compute the whole milliseconds elapsed between the clock reading taken at
/// the start of a burst and a later reading.
pub fn elapsed_ms(start: u64, now: u64) -> (r: u64)
    ensures
        r == elapsed_ms_of(start, now),
{
    if now >= start {
        (now - start) / NS_PER_MS
    } else {
        0
    }
}

/// Where the sender stands: waiting on the duration queue, or mid-burst.
#[derive(Clone, Copy, PartialEq, Eq, Structural, Debug)]
pub enum SenderState {
    /// Blocked on the queue, no burst outstanding.
    Idle,
    /// Streaming a burst: the requested duration in milliseconds and the
    /// clock reading (nanoseconds) taken when the burst began.
    Bursting { duration: u64, start: u64 },
}

/// One thing that can wake the sender.
#[derive(Clone, Copy, PartialEq, Eq, Structural, Debug)]
pub enum SenderEvent {
    /// The queue handed out a burst duration; `now` is the clock reading
    /// taken as the burst begins.
    Value { duration: u64, now: u64 },
    /// The queue's producing end was dropped and no values remain.
    Closed,
    /// One frame was fully written; `now` is the clock reading taken after
    /// the write.
    Tick { now: u64 },
}

/// What the sender does in answer to one event.
#[derive(Clone, Copy, PartialEq, Eq, Structural, Debug)]
pub enum SenderAction {
    /// Write one frame: the frame marker, one payload block, then flush.
    SendFrame,
    /// Write the one-byte burst-complete marker.
    SendCompletion,
    /// Leave the sender loop: the connection is shutting down.
    Exit,
}

/// Which events can actually reach the sender in a given state: the queue is
/// consulted only while idle, and the clock only mid-burst.
pub open spec fn event_fits(s: SenderState, e: SenderEvent) -> bool {
    match (s, e) {
        (SenderState::Idle, SenderEvent::Value { .. }) => true,
        (SenderState::Idle, SenderEvent::Closed) => true,
        (SenderState::Bursting { .. }, SenderEvent::Tick { .. }) => true,
        _ => false,
    }
}

/// The sender's next state and action for one event: a queue value opens a
/// burst with one frame, queue closure ends the sender, and a clock reading
/// either continues the burst with another frame or, once the requested
/// duration has elapsed, closes it with the completion marker.
pub open spec fn sender_step_of(s: SenderState, e: SenderEvent) -> (SenderState, SenderAction) {
    match (s, e) {
        (SenderState::Idle, SenderEvent::Value { duration, now }) => (
            SenderState::Bursting { duration, start: now },
            SenderAction::SendFrame,
        ),
        (SenderState::Idle, SenderEvent::Closed) => (SenderState::Idle, SenderAction::Exit),
        (SenderState::Bursting { duration, start }, SenderEvent::Tick { now }) => {
            if elapsed_ms_of(start, now) >= duration {
                (SenderState::Idle, SenderAction::SendCompletion)
            } else {
                (SenderState::Bursting { duration, start }, SenderAction::SendFrame)
            }
        },
        _ => (s, SenderAction::Exit),
    }
}

/// Advance the sender by one event whose clock reading, if any, the caller
/// already holds.
pub fn sender_step(s: SenderState, e: SenderEvent) -> (r: (SenderState, SenderAction))
    requires
        event_fits(s, e),
    ensures
        r == sender_step_of(s, e),
{
    match (s, e) {
        (SenderState::Idle, SenderEvent::Value { duration, now }) => (
            SenderState::Bursting { duration, start: now },
            SenderAction::SendFrame,
        ),
        (SenderState::Idle, SenderEvent::Closed) => (SenderState::Idle, SenderAction::Exit),
        (SenderState::Bursting { duration, start }, SenderEvent::Tick { now }) => {
            if elapsed_ms(start, now) >= duration {
                (SenderState::Idle, SenderAction::SendCompletion)
            } else {
                (SenderState::Bursting { duration, start }, SenderAction::SendFrame)
            }
        },
        (_, _) => (s, SenderAction::Exit),
    }
}

/// Relies on time's `precise_time_ns`: the value of a high-resolution clock
/// in nanoseconds since an unspecified epoch. Nothing is assumed of the
/// reading: every caller must hold for any value.
#[verifier::external_body]
fn now_ns() -> u64 {
    time::precise_time_ns()
}

/// Take one burst duration from the queue: read the clock and open the
/// burst. The first frame is always commanded, whatever the duration.
pub fn sender_begin_burst(d: u64) -> (r: (SenderState, SenderAction))
    ensures
        r.1 == SenderAction::SendFrame,
        r.0 is Bursting,
        r.0->duration == d,
        exists|now: u64|
            r == sender_step_of(
                SenderState::Idle,
                SenderEvent::Value { duration: d, now },
            ),
{
    let now = now_ns();
    let r = sender_step(SenderState::Idle, SenderEvent::Value { duration: d, now });
    proof {
        assert(r == sender_step_of(SenderState::Idle, SenderEvent::Value { duration: d, now }));
    }
    r
}

/// After one frame has been fully written, read the clock and decide whether
/// the burst goes on with another frame or ends with the completion marker.
pub fn sender_frame_done(s: SenderState) -> (r: (SenderState, SenderAction))
    requires
        s is Bursting,
    ensures
        exists|now: u64| r == sender_step_of(s, SenderEvent::Tick { now }),
        r.1 == SenderAction::SendFrame || r.1 == SenderAction::SendCompletion,
        r.1 == SenderAction::SendFrame ==> r.0 == s,
        r.1 == SenderAction::SendCompletion ==> r.0 == SenderState::Idle,
{
    let now = now_ns();
    let r = sender_step(s, SenderEvent::Tick { now });
    proof {
        assert(r == sender_step_of(s, SenderEvent::Tick { now }));
    }
    r
}

/// A burst's completion marker is commanded only once the clock shows the
/// whole requested duration elapsed: a burst begun at reading `start` for a
/// positive `duration` completes no earlier than `start` plus `duration`
/// milliseconds of clock time (a zero duration is elapsed from the outset).
pub proof fn lemma_completion_not_early(s: SenderState, e: SenderEvent)
    requires
        sender_step_of(s, e).1 == SenderAction::SendCompletion,
    ensures
        s is Bursting,
        e is Tick,
        elapsed_ms_of(s->start, e->Tick_now) >= s->duration,
        s->duration > 0 ==> e->Tick_now >= s->start + s->duration * (NS_PER_MS as int),
{
    let start = s->start;
    let now = e->Tick_now;
    let d = s->duration;
    if d > 0 {
        assert(now >= start);
        lemma_fundamental_div_mod(now - start, NS_PER_MS as int);
        assert((now - start) / (NS_PER_MS as int) >= d);
        assert(now - start >= d * (NS_PER_MS as int));
    }
}

/// While the clock shows less than the requested duration, the burst goes
/// on: the step commands another frame and the burst state is unchanged.
pub proof fn lemma_burst_continues(duration: u64, start: u64, now: u64)
    requires
        elapsed_ms_of(start, now) < duration,
    ensures
        sender_step_of(
            SenderState::Bursting { duration, start },
            SenderEvent::Tick { now },
        ) == (SenderState::Bursting { duration, start }, SenderAction::SendFrame),
{
}

/// A closed, drained queue makes the idle sender exit cleanly.
pub proof fn lemma_closed_queue_exits()
    ensures
        sender_step_of(SenderState::Idle, SenderEvent::Closed) == (
            SenderState::Idle,
            SenderAction::Exit,
        ),
{
}

/// The actions the sender takes, in order, when driven from state `s` by a
/// sequence of events.
pub open spec fn sender_actions(s: SenderState, events: Seq<SenderEvent>) -> Seq<SenderAction>
    decreases events.len(),
{
    if events.len() == 0 {
        Seq::empty()
    } else {
        let step = sender_step_of(s, events[0]);
        seq![step.1] + sender_actions(step.0, events.skip(1))
    }
}

/// Whether every event of the sequence can actually reach the sender in the
/// state it is then in.
pub open spec fn events_fit(s: SenderState, events: Seq<SenderEvent>) -> bool
    decreases events.len(),
{
    events.len() == 0 || (event_fits(s, events[0]) && events_fit(
        sender_step_of(s, events[0]).0,
        events.skip(1),
    ))
}

/// Driven from idle, the sender never commands a completion marker before it
/// has commanded a frame: every burst carries at least one full frame,
/// whatever the requested duration.
pub proof fn lemma_frame_before_completion(events: Seq<SenderEvent>, j: int)
    requires
        events_fit(SenderState::Idle, events),
        0 <= j < sender_actions(SenderState::Idle, events).len(),
        sender_actions(SenderState::Idle, events)[j] == SenderAction::SendCompletion,
    ensures
        exists|i: int|
            0 <= i < j && sender_actions(SenderState::Idle, events)[i]
                == SenderAction::SendFrame,
    decreases events.len(),
{
    let acts = sender_actions(SenderState::Idle, events);
    let e0 = events[0];
    let step = sender_step_of(SenderState::Idle, e0);
    match e0 {
        SenderEvent::Value { .. } => {
            assert(acts[0] == SenderAction::SendFrame);
            assert(0 < j);
            assert(0 <= 0 < j && acts[0] == SenderAction::SendFrame);
        },
        SenderEvent::Closed => {
            assert(acts[0] == SenderAction::Exit);
            assert(0 < j);
            assert(sender_actions(SenderState::Idle, events.skip(1))[j - 1]
                == SenderAction::SendCompletion);
            lemma_frame_before_completion(events.skip(1), j - 1);
            let i0 = choose|i: int|
                0 <= i < j - 1 && sender_actions(SenderState::Idle, events.skip(1))[i]
                    == SenderAction::SendFrame;
            assert(acts[i0 + 1] == SenderAction::SendFrame);
        },
        SenderEvent::Tick { .. } => {
            assert(false);
        },
    }
}

/// Once no further burst request can arrive — the queue hands out only its
/// closure — the sender commands nothing more: no frame and no completion
/// marker follows the last enqueued burst's completion.
pub proof fn lemma_nothing_after_close(events: Seq<SenderEvent>, j: int)
    requires
        events_fit(SenderState::Idle, events),
        forall|k: int| 0 <= k < events.len() ==> !(events[k] is Value),
        0 <= j < sender_actions(SenderState::Idle, events).len(),
    ensures
        sender_actions(SenderState::Idle, events)[j] == SenderAction::Exit,
    decreases events.len(),
{
    let acts = sender_actions(SenderState::Idle, events);
    let e0 = events[0];
    match e0 {
        SenderEvent::Value { .. } => {
            assert(false);
        },
        SenderEvent::Closed => {
            assert(acts[0] == SenderAction::Exit);
            if j > 0 {
                let tail = events.skip(1);
                assert forall|k: int| 0 <= k < tail.len() implies !(tail[k] is Value) by {
                    assert(tail[k] == events[k + 1]);
                }
                lemma_nothing_after_close(tail, j - 1);
                assert(acts[j] == sender_actions(SenderState::Idle, tail)[j - 1]);
            }
        },
        SenderEvent::Tick { .. } => {
            assert(false);
        },
    }
}

} // verus!
