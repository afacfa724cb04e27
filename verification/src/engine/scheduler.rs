//! High-resolution event scheduler.
//!
//! Events are queued with a target emit time and leave the queue earliest
//! first; events due at the same time leave in the order they were pushed.
//! The waiting itself (coarse sleep, then busy-wait) belongs to the caller:
//! `wait_step` says, for a given "now", what to do next.
use std::time::Instant;

use core::time::Duration;
use vstd::prelude::*;

use crate::engine::obfuscation::ScheduledEvent;
use crate::platform::KeyEvent;

verus! {

#[verifier::external_type_specification]
#[verifier::external_body]
pub struct ExInstant(std::time::Instant);

/// Calls `std::time::Instant::now()`. The result is the current time of the
/// machine's monotonic clock: nothing is stated of it.
#[verifier::external_body]
fn instant_now() -> Instant {
    Instant::now()
}

/// Calls `std::time::Instant::elapsed`. The result depends on the clock:
/// nothing is stated of it.
#[verifier::external_body]
fn instant_elapsed(instant: &Instant) -> Duration {
    instant.elapsed()
}

/// Calls `std::time::Duration::as_micros`. The value of a `Duration` is
/// opaque here, so nothing is stated of the result.
#[verifier::external_body]
fn duration_as_micros(duration: &Duration) -> u128 {
    duration.as_micros()
}

/// A wait longer than this (µs) is slept through, the rest busy-waited.
pub const SLEEP_THRESHOLD_US: u64 = 1500;

/// How much of a wait (µs) is left to the busy-wait after a sleep.
pub const SPIN_MARGIN_US: u64 = 1000;

/// Queued events are ordered by emit time.
pub open spec fn sorted_by_time(s: Seq<ScheduledEvent>) -> bool {
    forall|i: int, j: int| 0 <= i <= j < s.len() ==> s[i].emit_at_us <= s[j].emit_at_us
}

/// The queue went from `before` to `after`, handing out `taken`, as a check
/// for due events at time `t` does: the earliest event leaves when it is due
/// at `t`, otherwise nothing changes.
pub open spec fn pops_due_at(
    before: Seq<ScheduledEvent>,
    after: Seq<ScheduledEvent>,
    taken: Option<KeyEvent>,
    t: u64,
) -> bool {
    if before.len() > 0 && before[0].emit_at_us <= t {
        taken == Some(before[0].event) && after == before.drop_first()
    } else {
        taken is None && after == before
    }
}

/// No queued event is due at time `t`.
pub open spec fn none_due_at(s: Seq<ScheduledEvent>, t: u64) -> bool {
    s.len() > 0 ==> s[0].emit_at_us > t
}

/// At time `t` exactly the first `n` events of `s` are due: they are due at
/// `t`, all others are later.
pub open spec fn splits_due_at(s: Seq<ScheduledEvent>, n: int, t: u64) -> bool {
    &&& forall|i: int| 0 <= i < n ==> #[trigger] s[i].emit_at_us <= t
    &&& forall|j: int| n <= j < s.len() ==> #[trigger] s[j].emit_at_us > t
}

/// What `wait_step` asks of its caller.
#[derive(Debug, Clone, Copy, PartialEq, Eq, Structural)]
pub enum WaitStep {
    /// Nothing is queued.
    Empty,
    /// The earliest event was due and has been taken from the queue.
    Ready(KeyEvent),
    /// Sleep this long (µs), then ask again.
    Sleep(u64),
    /// Busy-wait a little, then ask again.
    Spin,
}

/// High-resolution event scheduler.
pub struct EventScheduler {
    queue: Vec<ScheduledEvent>,
    /// Monotonic reference point: `Instant` corresponding to µs epoch 0.
    epoch: Instant,
}

impl View for EventScheduler {
    type V = Seq<ScheduledEvent>;

    /// The queued events, earliest first.
    closed spec fn view(&self) -> Seq<ScheduledEvent> {
        self.queue@
    }
}

impl EventScheduler {
    #[verifier::type_invariant]
    spec fn queue_sorted(&self) -> bool {
        sorted_by_time(self.queue@)
    }

    pub fn new() -> (r: Self)
        ensures
            r@ == Seq::<ScheduledEvent>::empty(),
    {
        EventScheduler { queue: Vec::new(), epoch: instant_now() }
    }

    /// Returns the monotonic "now" in microseconds relative to our epoch
    /// (truncated to 64 bits).
    pub fn now_us(&self) -> u64 {
        let elapsed = instant_elapsed(&self.epoch);
        duration_as_micros(&elapsed) as u64
    }

    /// Push a scheduled event into the queue: it goes after every queued
    /// event due no later than it, before every one due later.
    pub fn push(&mut self, ev: ScheduledEvent)
        ensures
            sorted_by_time(final(self)@),
            exists|i: int|
                {
                    &&& 0 <= i <= old(self)@.len()
                    &&& final(self)@ == old(self)@.insert(i, ev)
                    &&& forall|j: int| 0 <= j < i ==> old(self)@[j].emit_at_us <= ev.emit_at_us
                    &&& forall|j: int|
                        i <= j < old(self)@.len() ==> old(self)@[j].emit_at_us > ev.emit_at_us
                },
    {
        proof {
            use_type_invariant(&*self);
        }
        let n = self.queue.len();
        let mut i: usize = 0;
        while i < n && self.queue[i].emit_at_us <= ev.emit_at_us
            invariant
                n == self.queue.len(),
                self.queue@ == old(self).queue@,
                i <= n,
                sorted_by_time(self.queue@),
                forall|j: int| 0 <= j < i ==> self.queue@[j].emit_at_us <= ev.emit_at_us,
            decreases n - i,
        {
            i += 1;
        }
        let ghost old_q = self.queue@;
        let mut q: Vec<ScheduledEvent> = Vec::new();
        std::mem::swap(&mut q, &mut self.queue);
        q.insert(i, ev);
        assert(sorted_by_time(q@)) by {
            assert forall|a: int, b: int| 0 <= a <= b < q@.len() implies q@[a].emit_at_us
                <= q@[b].emit_at_us by {
                if a < i && b > i {
                    assert(q@[b] == old_q[b - 1]);
                }
            }
        }
        self.queue = q;
        assert({
            let k = i as int;
            &&& 0 <= k <= old(self)@.len()
            &&& self@ == old(self)@.insert(k, ev)
            &&& forall|j: int| 0 <= j < k ==> old(self)@[j].emit_at_us <= ev.emit_at_us
            &&& forall|j: int| k <= j < old(self)@.len() ==> old(self)@[j].emit_at_us > ev.emit_at_us
        });
    }

    /// Returns `true` if the queue has pending events.
    pub fn has_pending(&self) -> (r: bool)
        ensures
            r == (self@.len() > 0),
    {
        !self.queue.is_empty()
    }

    /// Take the earliest event if it is due at `now_us` (`emit_at_us` ≤ now).
    pub fn pop_due(&mut self, now_us: u64) -> (r: Option<KeyEvent>)
        ensures
            sorted_by_time(final(self)@),
            pops_due_at(old(self)@, final(self)@, r, now_us),
            if old(self)@.len() > 0 && old(self)@[0].emit_at_us <= now_us {
                &&& r == Some(old(self)@[0].event)
                &&& final(self)@ == old(self)@.drop_first()
                &&& forall|j: int| 0 <= j < old(self)@.len() ==> old(self)@[0].emit_at_us <= #[trigger] old(
                    self,
                )@[j].emit_at_us
            } else {
                r is None && final(self)@ == old(self)@
            },
    {
        proof {
            use_type_invariant(&*self);
        }
        if self.queue.len() > 0 && now_us >= self.queue[0].emit_at_us {
            let ghost old_q = self.queue@;
            let mut q: Vec<ScheduledEvent> = Vec::new();
            std::mem::swap(&mut q, &mut self.queue);
            let top = q.remove(0);
            assert(q@ =~= old_q.drop_first());
            self.queue = q;
            Some(top.event)
        } else {
            None
        }
    }

    /// Try to pop the next event that is due (`emit_at_us` ≤ now).
    /// Returns `None` if the queue is empty or the next event isn't due yet.
    pub fn try_pop(&mut self) -> (r: Option<KeyEvent>)
        ensures
            sorted_by_time(final(self)@),
            old(self)@.len() == 0 ==> r is None,
            exists|t: u64| #[trigger] pops_due_at(old(self)@, final(self)@, r, t),
            match r {
                Some(ev) => old(self)@.len() > 0 && ev == old(self)@[0].event && final(self)@ == old(
                    self,
                )@.drop_first(),
                None => final(self)@ == old(self)@,
            },
    {
        let now = self.now_us();
        let r = self.pop_due(now);
        assert(pops_due_at(old(self)@, self@, r, now));
        r
    }

    /// Decide the next move of a blocking wait for the earliest event at
    /// time `now_us`: take it if it is due; otherwise sleep through all but
    /// the last millisecond of a wait longer than 1.5 ms, or busy-wait.
    pub fn wait_step(&mut self, now_us: u64) -> (r: WaitStep)
        ensures
            sorted_by_time(final(self)@),
            old(self)@.len() == 0 ==> r == WaitStep::Empty && final(self)@ == old(self)@,
            old(self)@.len() > 0 && old(self)@[0].emit_at_us <= now_us ==> r == WaitStep::Ready(
                old(self)@[0].event,
            ) && final(self)@ == old(self)@.drop_first(),
            old(self)@.len() > 0 && old(self)@[0].emit_at_us > now_us ==> final(self)@ == old(self)@
                && r == (if old(self)@[0].emit_at_us - now_us > SLEEP_THRESHOLD_US {
                WaitStep::Sleep((old(self)@[0].emit_at_us - now_us - SPIN_MARGIN_US) as u64)
            } else {
                WaitStep::Spin
            }),
    {
        proof {
            use_type_invariant(&*self);
        }
        if self.queue.len() == 0 {
            return WaitStep::Empty;
        }
        let top_at = self.queue[0].emit_at_us;
        if now_us >= top_at {
            match self.pop_due(now_us) {
                Some(ev) => WaitStep::Ready(ev),
                None => WaitStep::Empty,
            }
        } else {
            let remaining_us = top_at - now_us;
            if remaining_us > SLEEP_THRESHOLD_US {
                WaitStep::Sleep(remaining_us - SPIN_MARGIN_US)
            } else {
                WaitStep::Spin
            }
        }
    }

    /// Peek at the µs timestamp of the next due event.
    pub fn next_emit_us(&self) -> (r: Option<u64>)
        ensures
            sorted_by_time(self@),
            r == (if self@.len() > 0 {
                Some(self@[0].emit_at_us)
            } else {
                None::<u64>
            }),
    {
        proof {
            use_type_invariant(self);
        }
        if self.queue.len() > 0 {
            Some(self.queue[0].emit_at_us)
        } else {
            None
        }
    }

    /// Drain every event due at `now_us` into a `Vec`, earliest first; the
    /// events due later stay queued.
    pub fn drain_due(&mut self, now_us: u64) -> (r: Vec<KeyEvent>)
        ensures
            sorted_by_time(final(self)@),
            r@.len() <= old(self)@.len(),
            forall|i: int|
                0 <= i < r@.len() ==> r@[i] == old(self)@[i].event && old(self)@[i].emit_at_us
                    <= now_us,
            final(self)@ == old(self)@.skip(r@.len() as int),
            forall|j: int| 0 <= j < final(self)@.len() ==> #[trigger] final(self)@[j].emit_at_us > now_us,
    {
        let mut out: Vec<KeyEvent> = Vec::new();
        let ghost start = self@;
        proof {
            use_type_invariant(&*self);
        }
        loop
            invariant
                out@.len() <= start.len(),
                forall|i: int|
                    0 <= i < out@.len() ==> out@[i] == start[i].event && start[i].emit_at_us
                        <= now_us,
                self@ == start.skip(out@.len() as int),
                sorted_by_time(self@),
            ensures
                out@.len() <= start.len(),
                forall|i: int|
                    0 <= i < out@.len() ==> out@[i] == start[i].event && start[i].emit_at_us
                        <= now_us,
                self@ == start.skip(out@.len() as int),
                sorted_by_time(self@),
                none_due_at(self@, now_us),
            decreases self@.len(),
        {
            match self.pop_due(now_us) {
                Some(ev) => {
                    out.push(ev);
                    assert(self@ =~= start.skip(out@.len() as int));
                },
                None => {
                    break ;
                },
            }
        }
        assert forall|j: int| 0 <= j < self@.len() implies #[trigger] self@[j].emit_at_us > now_us by {
            assert(self@[0].emit_at_us <= self@[j].emit_at_us);
        }
        out
    }

    /// Drain all events that are ready *right now* into a `Vec`, earliest
    /// first: every event due at one reading of the clock leaves, every
    /// event due later stays.
    pub fn drain_ready(&mut self) -> (r: Vec<KeyEvent>)
        ensures
            sorted_by_time(final(self)@),
            r@.len() <= old(self)@.len(),
            forall|i: int| 0 <= i < r@.len() ==> r@[i] == old(self)@[i].event,
            final(self)@ == old(self)@.skip(r@.len() as int),
            exists|t: u64| #[trigger] splits_due_at(old(self)@, r@.len() as int, t),
    {
        let now = self.now_us();
        let r = self.drain_due(now);
        assert(splits_due_at(old(self)@, r@.len() as int, now)) by {
            assert forall|i: int| 0 <= i < r@.len() implies old(self)@[i].emit_at_us <= now by {
                assert(r@[i] == old(self)@[i].event);
            }
            assert forall|j: int| r@.len() <= j < old(self)@.len() implies old(self)@[j].emit_at_us > now by {
                assert(old(self)@[j] == self@[j - r@.len()]);
                assert(self@[j - r@.len()].emit_at_us > now);
            }
        }
        r
    }
}

impl Default for EventScheduler {
    fn default() -> (r: Self)
        ensures
            r@ == Seq::<ScheduledEvent>::empty(),
    {
        Self::new()
    }
}

/// Events leave the queue earliest first: whatever `pop_due` takes is due no
/// later than any event that stays behind, and the queue stays ordered.
pub proof fn lemma_pop_takes_earliest(before: Seq<ScheduledEvent>)
    requires
        sorted_by_time(before),
        before.len() > 0,
    ensures
        forall|j: int| 0 <= j < before.len() ==> before[0].emit_at_us <= #[trigger] before[j].emit_at_us,
        sorted_by_time(before.drop_first()),
{
}

} // verus!
