//! Limits how often commands go to the haptic devices.
use vstd::prelude::*;

use std::time::Instant;

verus! {

/// Declares `std::time::Instant`, a point of the monotonic clock.
#[verifier::external_type_specification]
#[verifier::external_body]
pub struct ExInstant(Instant);

/// Calls `Instant::now`: the current point of the monotonic clock. Nothing is
/// claimed of it.
#[verifier::external_body]
fn instant_now() -> Instant {
    Instant::now()
}

/// Calls `Instant::elapsed` and converts the duration to whole nanoseconds (the
/// resolution of `Instant` on the platforms the application runs on). Nothing is
/// claimed of the value: it depends on the clock.
#[verifier::external_body]
fn nanos_since(start: &Instant) -> u64 {
    start.elapsed().as_nanos() as u64
}

/// Commands per second that the devices get at most.
pub const MAX_COMMANDS_PER_SECOND: u64 = 8;

/// Smallest gap between two commands, in milliseconds.
pub const MIN_INTERVAL_MS: u64 = 125;

/// Smallest gap between two commands, in nanoseconds.
pub const MIN_INTERVAL_NS: u64 = 125_000_000;

/// One second, in nanoseconds.
pub const SECOND_NS: u64 = 1_000_000_000;

/// Nanoseconds between the last send and `now`. Before any send the last send
/// counts as one second before the limiter was made (time 0).
pub open spec fn elapsed_ns(last_send: Option<u64>, now: u64) -> int {
    match last_send {
        Some(l) => if now >= l {
            now - l
        } else {
            0
        },
        None => now + SECOND_NS,
    }
}

/// Whether a command may go out at `now`.
pub open spec fn may_send_at(last_send: Option<u64>, now: u64) -> bool {
    elapsed_ns(last_send, now) >= MIN_INTERVAL_NS
}

/// Nanoseconds to wait at `now` before a command may go out.
pub open spec fn wait_at(last_send: Option<u64>, now: u64) -> int {
    if elapsed_ns(last_send, now) >= MIN_INTERVAL_NS {
        0
    } else {
        MIN_INTERVAL_NS - elapsed_ns(last_send, now)
    }
}

/// A limit on the command rate: one command per `MIN_INTERVAL_NS`, that is
/// `MAX_COMMANDS_PER_SECOND` commands per second. Times are nanoseconds of the
/// monotonic clock since the limiter was made.
pub struct RateLimiter {
    start: Instant,
    last_send: Option<u64>,
}

impl RateLimiter {
    /// The time of the last send, if any.
    pub closed spec fn last_send(&self) -> Option<u64> {
        self.last_send
    }

    /// The smallest gap between two commands, the same for every limiter.
    pub open spec fn min_interval(&self) -> u64 {
        MIN_INTERVAL_NS
    }

    /// A limiter that has sent nothing yet.
    pub fn new() -> (r: RateLimiter)
        ensures
            r.last_send() is None,
            r.min_interval() == MIN_INTERVAL_MS * 1_000_000,
            r.min_interval() * MAX_COMMANDS_PER_SECOND == SECOND_NS,
    {
        RateLimiter { start: instant_now(), last_send: None }
    }

    /// The current time, in nanoseconds since the limiter was made.
    fn now_ns(&self) -> u64 {
        nanos_since(&self.start)
    }

    /// Whether a command may go out at time `now`.
    pub fn should_send_at(&self, now: u64) -> (r: bool)
        ensures
            r == may_send_at(self.last_send(), now),
    {
        let elapsed: u64 = match self.last_send {
            Some(l) => if now >= l {
                now - l
            } else {
                0
            },
            None => now.saturating_add(SECOND_NS),
        };
        elapsed >= MIN_INTERVAL_NS
    }

    /// Records that a command went out at time `now`.
    pub fn mark_sent_at(&mut self, now: u64)
        ensures
            final(self).last_send() == Some(now),
    {
        self.last_send = Some(now);
    }

    /// Lets a command go out at time `now` if the rate allows it, and records it.
    pub fn try_send_at(&mut self, now: u64) -> (r: bool)
        ensures
            r == may_send_at(old(self).last_send(), now),
            r ==> final(self).last_send() == Some(now),
            !r ==> final(self).last_send() == old(self).last_send(),
    {
        if self.should_send_at(now) {
            self.mark_sent_at(now);
            true
        } else {
            false
        }
    }

    /// Nanoseconds to wait at time `now` before a command may go out.
    pub fn time_until_next_at(&self, now: u64) -> (r: u64)
        ensures
            r == wait_at(self.last_send(), now),
    {
        let elapsed: u64 = match self.last_send {
            Some(l) => if now >= l {
                now - l
            } else {
                0
            },
            None => now.saturating_add(SECOND_NS),
        };
        if elapsed >= MIN_INTERVAL_NS {
            0
        } else {
            MIN_INTERVAL_NS - elapsed
        }
    }

    /// Whether a command may go out now. Reads the clock, so the answer is
    /// `should_send_at` at a time that is not claimed; whatever the time, a
    /// limiter that has sent nothing yet lets a command go.
    pub fn should_send(&self) -> (r: bool)
        ensures
            self.last_send() is None ==> r,
    {
        let now = self.now_ns();
        self.should_send_at(now)
    }

    /// Records that a command went out now.
    pub fn mark_sent(&mut self)
        ensures
            final(self).last_send() is Some,
    {
        let now = self.now_ns();
        self.mark_sent_at(now);
    }

    /// Lets a command go out now if the rate allows it, and records it: the
    /// decision is `try_send_at` at the current time.
    pub fn try_send(&mut self) -> (r: bool)
        ensures
            old(self).last_send() is None ==> r,
            r ==> final(self).last_send() is Some,
            !r ==> final(self).last_send() == old(self).last_send(),
    {
        let now = self.now_ns();
        self.try_send_at(now)
    }

    /// Nanoseconds to wait now before a command may go out, at most the minimum
    /// interval: `time_until_next_at` at a time that is not claimed; whatever the
    /// time, a limiter that has sent nothing yet has no wait.
    pub fn time_until_next(&self) -> (r: u64)
        ensures
            r <= self.min_interval(),
            self.last_send() is None ==> r == 0,
    {
        let now = self.now_ns();
        self.time_until_next_at(now)
    }
}

/// Right after a command goes out, the next one is refused until the minimum
/// interval has passed, and allowed from then on: the devices never get more than
/// one command per interval.
pub proof fn law_one_command_per_interval(sent_at: u64, later: u64)
    requires
        sent_at <= later,
    ensures
        may_send_at(Some(sent_at), later) <==> later - sent_at >= MIN_INTERVAL_NS,
        may_send_at(Some(sent_at), sent_at) == false,
{
}

/// The first command always goes out, whenever it comes.
pub proof fn law_first_command_allowed(now: u64)
    ensures
        may_send_at(None, now),
{
}

/// The wait is zero exactly when a command may go out; otherwise it is the
/// interval less the time since the last send, more than zero and at most the
/// interval; and a command may go out once the wait has passed.
pub proof fn law_wait_matches_decision(last_send: Option<u64>, now: u64)
    ensures
        (wait_at(last_send, now) == 0) <==> may_send_at(last_send, now),
        !may_send_at(last_send, now) ==> wait_at(last_send, now) == MIN_INTERVAL_NS - elapsed_ns(
            last_send,
            now,
        ) && 0 < wait_at(last_send, now) <= MIN_INTERVAL_NS,
        last_send matches Some(l) && l <= now ==> may_send_at(
            last_send,
            (now + wait_at(last_send, now)) as u64,
        ) || now + wait_at(last_send, now) > u64::MAX,
{
}

/// Times that commands went out, oldest first, each allowed after the one
/// before it.
pub open spec fn spaced(sends: Seq<u64>) -> bool {
    forall|i: int| 0 <= i < sends.len() - 1 ==> may_send_at(Some(#[trigger] sends[i]), sends[i + 1])
        && sends[i] <= sends[i + 1]
}

proof fn lemma_spaced_span(sends: Seq<u64>, k: int)
    requires
        spaced(sends),
        0 <= k < sends.len(),
    ensures
        sends[k] - sends[0] >= k * MIN_INTERVAL_NS,
    decreases k,
{
    if k > 0 {
        lemma_spaced_span(sends, k - 1);
        assert(may_send_at(Some(sends[k - 1]), sends[(k - 1) + 1]));
    }
}

/// Commands that each went out when the limiter allowed it after the one before
/// are never more than `MAX_COMMANDS_PER_SECOND` within one second: any that lie
/// within a span shorter than a second number at most eight.
pub proof fn law_at_most_eight_per_second(sends: Seq<u64>)
    requires
        sends.len() > 0,
        spaced(sends),
        sends.last() - sends[0] < SECOND_NS,
    ensures
        sends.len() <= MAX_COMMANDS_PER_SECOND,
{
    lemma_spaced_span(sends, sends.len() - 1);
}

} // verus!
