//! A frame timer for measuring how long GPU work takes.
use vstd::prelude::*;

use std::time::{Duration, Instant};

verus! {

/// A point in monotonic time (`std::time::Instant`).
#[verifier::external_type_specification]
#[verifier::external_body]
pub struct ExInstant(Instant);

/// The current instant (`Instant::now`). Nothing is stated of the result: it
/// is read from the system clock.
#[verifier::external_body]
fn instant_now() -> Instant {
    Instant::now()
}

/// The span that `Duration::new` makes of `secs` seconds and `nanos`
/// nanoseconds: a value fixed by its arguments alone.
pub uninterp spec fn duration_of(secs: u64, nanos: u32) -> Duration;

/// The span that `Instant - Instant` gives from `earlier` to `later`: a
/// value fixed by the two instants alone (zero when `earlier` is the later
/// one).
pub uninterp spec fn elapsed_between(later: Instant, earlier: Instant) -> Duration;

/// A span of `secs` seconds and `nanos` nanoseconds (`Duration::new`), which
/// panics when the seconds overflow. The contract names the span
/// (`duration_of`); what it holds is not modelled.
#[verifier::external_body]
fn duration_new(secs: u64, nanos: u32) -> (d: Duration)
    requires
        secs + nanos / 1_000_000_000 <= u64::MAX,
    ensures
        d == duration_of(secs, nanos),
{
    Duration::new(secs, nanos)
}

/// The time from `earlier` to `later` (`Instant - Instant`), zero when
/// `earlier` is the later one. The contract names the span
/// (`elapsed_between`); what it holds is not modelled.
#[verifier::external_body]
fn instant_sub(later: Instant, earlier: Instant) -> (d: Duration)
    ensures
        d == elapsed_between(later, earlier),
{
    later - earlier
}

/// Measures the time between the start and the stop of a frame.
pub struct HUD {
    accumulator: Duration,
    frame_start: Instant,
}

impl HUD {
    /// The time accumulated by the timer.
    pub closed spec fn accumulated(&self) -> Duration {
        self.accumulator
    }

    /// The instant at which the current frame started.
    pub closed spec fn frame_start(&self) -> Instant {
        self.frame_start
    }

    /// A timer whose frame started at `now`, with nothing accumulated.
    pub fn started_at(now: Instant) -> (h: Self)
        ensures
            h.frame_start() == now,
            h.accumulated() == duration_of(0, 0),
    {
        HUD { accumulator: duration_new(0, 0), frame_start: now }
    }

    /// A timer started now, with nothing accumulated: the frame starts at an
    /// instant read from the clock during the call (see `started_at`).
    pub fn new() -> (h: Self)
        ensures
            h.accumulated() == duration_of(0, 0),
    {
        HUD::started_at(instant_now())
    }

    /// Restarts the frame timer at `now`; the accumulated time is kept.
    pub fn restart_at(&mut self, now: Instant)
        ensures
            final(self).frame_start() == now,
            final(self).accumulated() == old(self).accumulated(),
    {
        self.frame_start = now;
    }

    /// Restarts the frame timer at the current instant, read from the clock
    /// during the call (see `restart_at`).
    pub fn start_frame_timer(&mut self)
        ensures
            final(self).accumulated() == old(self).accumulated(),
    {
        self.restart_at(instant_now());
    }

    /// The time from the frame's start to `now`.
    pub fn elapsed_at(&self, now: Instant) -> (elapsed: Duration)
        ensures
            elapsed == elapsed_between(now, self.frame_start()),
    {
        instant_sub(now, self.frame_start)
    }

    /// The time elapsed since the frame timer was last started: the span
    /// from the frame's start to an instant read from the clock during the
    /// call. The timer itself is left as it was.
    pub fn stop_frame_timer(&mut self) -> (elapsed: Duration)
        ensures
            exists|now: Instant| elapsed == #[trigger] elapsed_between(now, old(self).frame_start()),
            final(self).accumulated() == old(self).accumulated(),
            final(self).frame_start() == old(self).frame_start(),
    {
        let now = instant_now();
        let elapsed = self.elapsed_at(now);
        assert(elapsed == elapsed_between(now, old(self).frame_start()));
        elapsed
    }
}

} // verus!
