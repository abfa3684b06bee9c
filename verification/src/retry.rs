//! How often, and how long after a failure, a request is sent again.

use vstd::prelude::*;

use crate::error::{refused_response, Error, ErrorView};
use crate::time::{longest, Duration};

verus! {

/// The first wait, in milliseconds.
pub const RETRY_BASE_MILLIS: u64 = 250;

/// The first wait, in nanoseconds.
pub open spec fn base_delay() -> nat {
    250_000_000
}

/// The attempts a call has left, and the wait its schedule is at.
#[derive(Clone, Copy, Debug)]
pub struct Retry {
    pub remaining: u32,
    pub delay: Duration,
}

/// How long to wait after a failure before another attempt, or that there is
/// none. A wait that the server asked for wins over the schedule. A failure that
/// is not worth retrying gets no other attempt, whatever is left.
pub open spec fn wait_after(remaining: u32, delay: Duration, failure: ErrorView) -> Option<
    Duration,
> {
    if remaining == 0 || !failure.retryable() {
        None
    } else {
        match failure.retry_after() {
            Some(wait) => Some(wait),
            None => Some(delay),
        }
    }
}

impl Retry {
    /// A call that may be attempted so many times again.
    pub fn new(retries: u32) -> (r: Self)
        ensures
            r.remaining == retries,
            r.delay@ == base_delay(),
    {
        Retry { remaining: retries, delay: Duration::from_millis(RETRY_BASE_MILLIS) }
    }

    /// Whether the schedule has room for another wait after this one.
    pub fn has_room(&self) -> (r: bool)
        ensures
            r == (self.delay@ * 2 <= longest()),
    {
        let most = Duration::new(u64::MAX, 999_999_999);
        let left = most.minus(&self.delay);
        left.at_least(&self.delay)
    }

    /// How long to wait after a failure before another attempt, or that there is
    /// none. Every wait takes an attempt and doubles the next wait of the
    /// schedule.
    pub fn failed(&mut self, failure: &Error) -> (r: Option<Duration>)
        requires
            wait_after(old(self).remaining, old(self).delay, failure@) is Some ==> old(
                self,
            ).delay@ * 2 <= longest(),
        ensures
            r == wait_after(old(self).remaining, old(self).delay, failure@),
            r is None ==> *final(self) == *old(self),
            r is Some ==> final(self).remaining == old(self).remaining - 1 && final(self).delay@
                == old(self).delay@ * 2,
    {
        if self.remaining == 0 || !failure.retryable() {
            return None;
        }
        let wait = match failure.retry_after() {
            Some(wait) => wait,
            None => self.delay,
        };
        self.delay = self.delay.plus(&self.delay);
        self.remaining = self.remaining - 1;
        Some(wait)
    }
}

/// How many attempts a call makes that goes on failing with these failures.
pub open spec fn attempts(remaining: nat, failures: Seq<ErrorView>) -> nat
    decreases failures.len(),
{
    if failures.len() == 0 || remaining == 0 || !failures[0].retryable() {
        1
    } else {
        1 + attempts((remaining - 1) as nat, failures.skip(1))
    }
}

/// A call is attempted once, and again at most as often as its retries say.
pub proof fn law_attempts_are_bounded_by_the_retries(remaining: nat, failures: Seq<ErrorView>)
    ensures
        1 <= attempts(remaining, failures) <= remaining + 1,
    decreases failures.len(),
{
    if !(failures.len() == 0 || remaining == 0 || !failures[0].retryable()) {
        law_attempts_are_bounded_by_the_retries((remaining - 1) as nat, failures.skip(1));
    }
}

/// A failure that is not worth retrying ends a call, whatever its retries are.
pub proof fn law_what_cannot_succeed_is_not_retried(remaining: nat, failures: Seq<ErrorView>)
    requires
        failures.len() > 0,
        !failures[0].retryable(),
    ensures
        attempts(remaining, failures) == 1,
{
}

/// While attempts are left, a failure worth retrying is waited out for exactly as
/// long as the server asked, whatever the schedule is at and however long that is,
/// and for as long as the schedule says only where the server asked for nothing. A
/// failure that is not worth it, or comes after the last attempt, is not waited
/// out.
pub proof fn law_a_requested_wait_wins_over_the_schedule(
    remaining: u32,
    delay: Duration,
    other: Duration,
    failure: ErrorView,
    wait: Duration,
)
    requires
        remaining > 0,
    ensures
        failure.retryable() && failure.retry_after() == Some(wait) ==> wait_after(
            remaining,
            delay,
            failure,
        ) == Some(wait),
        failure.retryable() && failure.retry_after() is Some ==> wait_after(
            remaining,
            delay,
            failure,
        ) == wait_after(remaining, other, failure),
        failure.retryable() && failure.retry_after() is None ==> wait_after(
            remaining,
            delay,
            failure,
        ) == Some(delay),
        !failure.retryable() ==> wait_after(remaining, delay, failure) is None,
        wait_after(0, delay, failure) is None,
{
}

/// A throttle that asks for a wait gets that wait, and a spent allowance, a client
/// error and a misuse get no other attempt, however many are left.
pub proof fn law_a_throttle_is_waited_out_and_a_spent_allowance_is_not(
    remaining: u32,
    delay: Duration,
    wait: Duration,
    status: u16,
    said: Option<Seq<char>>,
    message: Seq<char>,
)
    requires
        remaining > 0,
    ensures
        wait_after(remaining, delay, refused_response(429, Some(wait), said)) == Some(wait),
        wait_after(remaining, delay, refused_response(429, None, said)) is None,
        400 <= status < 500 && status != 429 ==> wait_after(
            remaining,
            delay,
            refused_response(status, Some(wait), said),
        ) is None,
        status >= 500 ==> wait_after(
            remaining,
            delay,
            refused_response(status, Some(wait), said),
        ) == Some(wait),
        status >= 500 ==> wait_after(remaining, delay, refused_response(status, None, said))
            == Some(delay),
        wait_after(
            remaining,
            delay,
            ErrorView::Network { text: message, timed_out: true },
        ) == Some(delay),
        wait_after(remaining, delay, ErrorView::Config(message)) is None,
{
}

/// The schedule starts at a quarter of a second.
pub proof fn law_the_schedule_starts_at_a_quarter_of_a_second()
    ensures
        4 * base_delay() == 1_000_000_000,
        RETRY_BASE_MILLIS * 1_000_000 == base_delay(),
{
}

}
