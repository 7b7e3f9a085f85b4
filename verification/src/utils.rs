//! Utilities shared by the relay loops: header ids, client failure
//! classification and the retry decision taken after a client request.

use vstd::prelude::*;

verus! {

/// Nanoseconds in one second: durations are carried through the library as
/// whole nanoseconds.
pub const NANOS_PER_SEC: u128 = 1_000_000_000;

/// Max delay (in nanoseconds) after connection-unrelated error happened before
/// we'll try the same request again.
pub const MAX_BACKOFF_INTERVAL: u128 = 60_000_000_000;

/// Delay (in nanoseconds) after connection-related error happened before we'll
/// try reconnection again.
pub const CONNECTION_ERROR_DELAY: u128 = 10_000_000_000;

/// Header id: block number and block hash.
#[derive(Debug, Default, Clone, Copy, PartialEq, Eq, Hash, Structural)]
pub struct HeaderId(pub u64, pub u64);

/// Which client has caused error.
#[derive(Debug, Clone, Copy, PartialEq, Eq, Structural)]
pub enum FailedClient {
    /// It is the source client who has caused error.
    Source,
    /// It is the target client who has caused error.
    Target,
    /// Both clients are failing, or we just encountered some other error that
    /// should be treated like that.
    Both,
}

/// Future process result.
#[derive(Debug, Clone, Copy, PartialEq, Eq, Structural)]
pub enum ProcessFutureResult {
    /// Future has been processed successfully.
    Success,
    /// Future has failed with non-connection error.
    Failed,
    /// Future has failed with connection error.
    ConnectionFailed,
}

impl ProcessFutureResult {
    /// Returns true if result is Success.
    pub fn is_ok(self) -> (r: bool)
        ensures
            r == (self == ProcessFutureResult::Success),
    {
        match self {
            ProcessFutureResult::Success => true,
            ProcessFutureResult::Failed | ProcessFutureResult::ConnectionFailed => false,
        }
    }

    /// Returns Ok(true) if future has succeeded.
    /// Returns Ok(false) if future has failed with non-connection error.
    /// Returns Err if future is `ConnectionFailed`.
    pub fn fail_if_connection_error(self, failed_client: FailedClient) -> (r: Result<bool, FailedClient>)
        ensures
            self == ProcessFutureResult::Success ==> r == Ok::<bool, FailedClient>(true),
            self == ProcessFutureResult::Failed ==> r == Ok::<bool, FailedClient>(false),
            self == ProcessFutureResult::ConnectionFailed ==> r == Err::<bool, FailedClient>(failed_client),
    {
        match self {
            ProcessFutureResult::Success => Ok(true),
            ProcessFutureResult::Failed => Ok(false),
            ProcessFutureResult::ConnectionFailed => Err(failed_client),
        }
    }
}

/// Error type that can signal connection errors.
pub trait MaybeConnectionError {
    /// What `is_connection_error` answers for this error.
    spec fn spec_is_connection_error(&self) -> bool;

    /// Returns true if error (maybe) represents connection error.
    fn is_connection_error(&self) -> (r: bool)
        ensures
            r == self.spec_is_connection_error(),
    ;
}

/// Stringified error that may be either connection-related or not.
#[derive(Debug)]
pub enum StringifiedMaybeConnectionError {
    /// The error is connection-related error.
    Connection(String),
    /// The error is connection-unrelated error.
    NonConnection(String),
}

impl StringifiedMaybeConnectionError {
    /// Create new stringified connection error.
    pub fn new(is_connection_error: bool, error: String) -> (r: Self)
        ensures
            is_connection_error ==> r == StringifiedMaybeConnectionError::Connection(error),
            !is_connection_error ==> r == StringifiedMaybeConnectionError::NonConnection(error),
    {
        if is_connection_error {
            StringifiedMaybeConnectionError::Connection(error)
        } else {
            StringifiedMaybeConnectionError::NonConnection(error)
        }
    }

    /// The error text.
    pub fn to_string(&self) -> (r: String)
        ensures
            r@ == match self {
                StringifiedMaybeConnectionError::Connection(e) => e@,
                StringifiedMaybeConnectionError::NonConnection(e) => e@,
            },
    {
        match self {
            StringifiedMaybeConnectionError::Connection(err) => err.clone(),
            StringifiedMaybeConnectionError::NonConnection(err) => err.clone(),
        }
    }
}

impl MaybeConnectionError for StringifiedMaybeConnectionError {
    open spec fn spec_is_connection_error(&self) -> bool {
        self is Connection
    }

    fn is_connection_error(&self) -> (r: bool) {
        match self {
            StringifiedMaybeConnectionError::Connection(_) => true,
            StringifiedMaybeConnectionError::NonConnection(_) => false,
        }
    }
}

#[verifier::external_type_specification]
#[verifier::external_body]
#[verifier::reject_recursive_types(C)]
pub struct ExExponentialBackoff<C>(backoff::exponential::ExponentialBackoff<C>);

#[verifier::external_type_specification]
#[verifier::external_body]
pub struct ExSystemClock(backoff::SystemClock);

/// How a client retries after errors that are not connection errors: the
/// longest delay between two attempts, and for how long it retries at all
/// (without end if `None`), both in nanoseconds.
#[derive(Debug, Clone, Copy, PartialEq, Eq, Structural)]
pub struct RetryPolicy {
    /// Longest delay before the next attempt.
    pub max_interval_nanos: u64,
    /// Time after the last reset from which the backoff gives no more delays.
    pub max_elapsed_nanos: Option<u64>,
}

/// Initial interval (in nanoseconds) of a backoff of the `backoff` crate: the
/// crate's default, half a second.
pub const INITIAL_RETRY_INTERVAL: u128 = 500_000_000;

/// An exponential backoff of the `backoff` crate made with a retry policy and
/// the crate's defaults otherwise (initial interval of half a second,
/// randomisation factor of one half, multiplier of one and a half), with its
/// current interval read back after every call, and what the library keeps of
/// its use: how many delays it has given since it was made or reset, and the
/// last of them.
pub struct RetryBackoff {
    policy: RetryPolicy,
    backoff: backoff::ExponentialBackoff,
    interval_nanos: u128,
    delays_since_reset: u64,
    last_delay: Option<u128>,
}

/// Largest maximal interval (exclusive) for which the backoff's floating point
/// arithmetic is exact enough for the bounds below.
pub const EXACT_INTERVAL_LIMIT: u64 = 562_949_953_421_312;

/// The delay `delay` is one that a backoff of current interval `interval`
/// gives: within half of the interval around it (up to one nanosecond more).
/// Where the randomised value falls a fraction of a nanosecond below a whole
/// second, the crate's conversion to a duration counts that second twice: the
/// delay is then one second more.
pub open spec fn delay_from_interval(interval: u128, delay: u128) -> bool {
    &&& interval / 2 <= delay
    &&& (delay <= interval * 3 / 2 + 1 || (delay >= 1_000_000_000 && delay % 1_000_000_000 == 999_999_999 && delay - 1_000_000_000
        <= interval * 3 / 2 + 1))
}

/// `next` is the interval that follows `interval` under the maximal interval
/// `max`: one and a half times it (rounded down), or `max` once that is
/// reached (exactly where the two are a nanosecond or more apart).
pub open spec fn next_interval(interval: u128, max: u64, next: u128) -> bool {
    &&& 3 * interval >= 2 * max + 2 ==> next == max
    &&& 3 * interval + 2 <= 2 * max ==> next == interval * 3 / 2
    &&& next == max || next == interval * 3 / 2
}

impl RetryBackoff {
    /// The policy that the backoff was made with.
    pub closed spec fn policy_view(&self) -> RetryPolicy {
        self.policy
    }

    /// The current interval of the backoff, in nanoseconds.
    pub closed spec fn interval_view(&self) -> u128 {
        self.interval_nanos
    }

    /// Number of delays given since the backoff was made or last reset
    /// (saturating at `u64::MAX`).
    pub closed spec fn delays_since_reset_view(&self) -> u64 {
        self.delays_since_reset
    }

    /// The last delay that the backoff has given, if it has given one since it
    /// was made.
    pub closed spec fn last_delay_view(&self) -> Option<u128> {
        self.last_delay
    }

    /// The interval is within the bounds that the backoff keeps it in: never
    /// above the initial interval and the maximal one (where the maximal one is
    /// below `EXACT_INTERVAL_LIMIT`).
    pub open spec fn interval_bounded(&self) -> bool {
        self.policy_view().max_interval_nanos < EXACT_INTERVAL_LIMIT ==> (self.interval_view()
            <= INITIAL_RETRY_INTERVAL || self.interval_view() <= self.policy_view().max_interval_nanos)
    }

    /// What one more delay does to the backoff: the policy stays; a backoff
    /// without a maximal elapsed time always gives a delay; where it gives
    /// none, the interval stays; where it gives one, the delay comes from the
    /// interval and the interval grows (see `delay_from_interval` and
    /// `next_interval`; within `EXACT_INTERVAL_LIMIT`).
    pub open spec fn advanced(&self, next: RetryBackoff, delay: Option<u128>) -> bool {
        &&& next.policy_view() == self.policy_view()
        &&& (self.policy_view().max_elapsed_nanos is None) ==> (delay is Some)
        &&& (delay is None) ==> (next.interval_view() == self.interval_view())
        &&& (self.policy_view().max_interval_nanos < EXACT_INTERVAL_LIMIT && self.interval_bounded())
            ==> match delay {
            Some(d) => delay_from_interval(self.interval_view(), d) && next_interval(
                self.interval_view(),
                self.policy_view().max_interval_nanos,
                next.interval_view(),
            ),
            None => true,
        }
    }

    /// Makes a backoff with the given policy.
    pub fn new(policy: RetryPolicy) -> (r: RetryBackoff)
        ensures
            r.policy_view() == policy,
            r.interval_view() == INITIAL_RETRY_INTERVAL,
            r.interval_bounded(),
            r.delays_since_reset_view() == 0,
            r.last_delay_view() is None,
    {
        let (backoff, interval_nanos) = exponential_backoff(policy.max_interval_nanos, policy.max_elapsed_nanos);
        RetryBackoff { policy, backoff, interval_nanos, delays_since_reset: 0, last_delay: None }
    }

    /// The policy that the backoff was made with.
    pub fn policy(&self) -> (r: RetryPolicy)
        ensures
            r == self.policy_view(),
    {
        self.policy
    }

    /// The current interval of the backoff, in nanoseconds.
    pub fn interval(&self) -> (r: u128)
        ensures
            r == self.interval_view(),
    {
        self.interval_nanos
    }

    /// Number of delays given since the backoff was made or last reset.
    pub fn delays_since_reset(&self) -> (r: u64)
        ensures
            r == self.delays_since_reset_view(),
    {
        self.delays_since_reset
    }

    /// The last delay that the backoff has given, if any.
    pub fn last_delay(&self) -> (r: Option<u128>)
        ensures
            r == self.last_delay_view(),
    {
        self.last_delay
    }

    /// Resets the backoff: its interval goes back to the initial one.
    pub fn reset(&mut self)
        ensures
            final(self).policy_view() == old(self).policy_view(),
            final(self).interval_view() == INITIAL_RETRY_INTERVAL,
            final(self).interval_bounded(),
            final(self).delays_since_reset_view() == 0,
            final(self).last_delay_view() == old(self).last_delay_view(),
    {
        backoff_reset(self);
        self.delays_since_reset = 0;
    }

    /// The next delay (in nanoseconds) of the backoff, or `None` once it has
    /// given up (see `advanced`). A backoff without a maximal elapsed time never
    /// gives up.
    pub fn next_delay(&mut self) -> (r: Option<u128>)
        ensures
            old(self).advanced(*final(self), r),
            old(self).interval_bounded() ==> final(self).interval_bounded(),
            final(self).delays_since_reset_view() == if old(self).delays_since_reset_view() < u64::MAX {
                (old(self).delays_since_reset_view() + 1) as u64
            } else {
                u64::MAX
            },
            final(self).last_delay_view() == r,
    {
        let delay = backoff_next_nanos(self);
        self.delays_since_reset = match self.delays_since_reset.checked_add(1) {
            Some(delays) => delays,
            None => u64::MAX,
        };
        self.last_delay = delay;
        delay
    }
}

/// Builds `backoff`'s `ExponentialBackoff` with its defaults but for the two
/// given fields, converted from nanoseconds: the maximal interval and the
/// maximal elapsed time; and reads its current interval back. The crate's
/// `Default` sets the current interval to the initial one, half a second, and
/// the two fields set here do not change it.
#[verifier::external_body]
fn exponential_backoff(max_interval_nanos: u64, max_elapsed_nanos: Option<u64>) -> (r: (
    backoff::ExponentialBackoff,
    u128,
))
    ensures
        r.1 == INITIAL_RETRY_INTERVAL,
{
    let backoff = backoff::ExponentialBackoff {
        max_elapsed_time: max_elapsed_nanos.map(std::time::Duration::from_nanos),
        max_interval: std::time::Duration::from_nanos(max_interval_nanos),
        ..Default::default()
    };
    let interval = backoff.current_interval.as_nanos();
    (backoff, interval)
}

/// Calls `Backoff::reset` of the `ExponentialBackoff` held in `retry` and reads
/// its current interval back: the source sets it to the initial interval,
/// which stays half a second as the backoff was made. Nothing else of `retry`
/// changes.
#[verifier::external_body]
fn backoff_reset(retry: &mut RetryBackoff)
    ensures
        final(retry).policy_view() == old(retry).policy_view(),
        final(retry).interval_view() == INITIAL_RETRY_INTERVAL,
        final(retry).delays_since_reset_view() == old(retry).delays_since_reset_view(),
        final(retry).last_delay_view() == old(retry).last_delay_view(),
{
    backoff::backoff::Backoff::reset(&mut retry.backoff);
    retry.interval_nanos = retry.backoff.current_interval.as_nanos();
}

/// Calls `Backoff::next_backoff` of the `ExponentialBackoff` held in `retry`,
/// hands the delay out in nanoseconds and reads the current interval back.
/// The source gives `None`, and leaves the interval, only where a maximal
/// elapsed time is set and has passed. Otherwise the delay is random within
/// half of the current interval around it (randomisation factor one half) and
/// the interval grows by one and a half (multiplier), up to the maximal
/// interval (see `RetryBackoff::advanced`; the arithmetic of the source is in
/// floating point, exact for intervals below `EXACT_INTERVAL_LIMIT`). Nothing
/// else of `retry` changes.
#[verifier::external_body]
fn backoff_next_nanos(retry: &mut RetryBackoff) -> (r: Option<u128>)
    ensures
        old(retry).advanced(*final(retry), r),
        final(retry).delays_since_reset_view() == old(retry).delays_since_reset_view(),
        final(retry).last_delay_view() == old(retry).last_delay_view(),
{
    let delay = backoff::backoff::Backoff::next_backoff(&mut retry.backoff).map(|delay| delay.as_nanos());
    retry.interval_nanos = retry.backoff.current_interval.as_nanos();
    delay
}

/// The retry policy for connection-unrelated errors: never give up (no maximal
/// elapsed time), and let the interval grow to a minute at most
/// (`MAX_BACKOFF_INTERVAL`; the randomised delays around it then reach a
/// minute and a half).
pub fn retry_policy() -> (r: RetryPolicy)
    ensures
        r == (RetryPolicy { max_interval_nanos: 60_000_000_000, max_elapsed_nanos: None }),
        r.max_interval_nanos == MAX_BACKOFF_INTERVAL,
{
    RetryPolicy { max_interval_nanos: 60_000_000_000, max_elapsed_nanos: None }
}

/// Exponential backoff for connection-unrelated errors retries, made with
/// `retry_policy`: it never gives up, and its interval starts at half a second
/// and grows to a minute at most.
pub fn retry_backoff() -> (r: RetryBackoff)
    ensures
        r.policy_view() == (RetryPolicy { max_interval_nanos: 60_000_000_000, max_elapsed_nanos: None }),
        r.interval_view() == INITIAL_RETRY_INTERVAL,
        r.interval_bounded(),
        r.delays_since_reset_view() == 0,
        r.last_delay_view() is None,
{
    RetryBackoff::new(retry_policy())
}

/// The delay before the next attempt: the one that the backoff has given, or
/// `fallback` if it has given none.
pub fn retry_delay(next_backoff: Option<u128>, fallback: u128) -> (r: u128)
    ensures
        r == match next_backoff {
            Some(delay) => delay,
            None => fallback,
        },
{
    match next_backoff {
        Some(delay) => delay,
        None => fallback,
    }
}

/// Process result of the future from a client.
///
/// Returns how the future has been processed and, unless it has succeeded, for
/// how long (in nanoseconds) the client has to go offline before it is asked
/// again. The backoff is reset on success and on connection errors (the
/// client then waits `CONNECTION_ERROR_DELAY`). After any other error the
/// backoff gives the next delay, or `CONNECTION_ERROR_DELAY` where it gives
/// none (it always gives one under `retry_policy`).
pub fn process_future_result<T, E: MaybeConnectionError>(
    result: &Result<T, E>,
    retry_backoff: &mut RetryBackoff,
) -> (r: (ProcessFutureResult, Option<u128>))
    ensures
        final(retry_backoff).policy_view() == old(retry_backoff).policy_view(),
        old(retry_backoff).interval_bounded() ==> final(retry_backoff).interval_bounded(),
        result is Ok ==> {
            &&& r == (ProcessFutureResult::Success, None::<u128>)
            &&& final(retry_backoff).interval_view() == INITIAL_RETRY_INTERVAL
            &&& final(retry_backoff).delays_since_reset_view() == 0
            &&& final(retry_backoff).last_delay_view() == old(retry_backoff).last_delay_view()
        },
        (result matches Err(e) && e.spec_is_connection_error()) ==> {
            &&& r == (ProcessFutureResult::ConnectionFailed, Some(CONNECTION_ERROR_DELAY))
            &&& final(retry_backoff).interval_view() == INITIAL_RETRY_INTERVAL
            &&& final(retry_backoff).delays_since_reset_view() == 0
            &&& final(retry_backoff).last_delay_view() == old(retry_backoff).last_delay_view()
        },
        (result matches Err(e) && !e.spec_is_connection_error()) ==> {
            &&& r == (
                ProcessFutureResult::Failed,
                Some(retry_delay_spec(final(retry_backoff).last_delay_view(), CONNECTION_ERROR_DELAY)),
            )
            &&& final(retry_backoff).delays_since_reset_view() == one_more_delay(
                old(retry_backoff).delays_since_reset_view(),
            )
            &&& old(retry_backoff).advanced(*final(retry_backoff), final(retry_backoff).last_delay_view())
        },
{
    match result {
        Ok(_) => {
            retry_backoff.reset();
            (ProcessFutureResult::Success, None)
        },
        Err(error) => {
            if error.is_connection_error() {
                retry_backoff.reset();
                (ProcessFutureResult::ConnectionFailed, Some(CONNECTION_ERROR_DELAY))
            } else {
                let next_backoff = retry_backoff.next_delay();
                (ProcessFutureResult::Failed, Some(retry_delay(next_backoff, CONNECTION_ERROR_DELAY)))
            }
        },
    }
}

/// What `retry_delay` returns.
pub open spec fn retry_delay_spec(next_backoff: Option<u128>, fallback: u128) -> u128 {
    match next_backoff {
        Some(delay) => delay,
        None => fallback,
    }
}

/// The count of delays given since a reset, after one more (saturating).
pub open spec fn one_more_delay(delays: u64) -> u64 {
    if delays < u64::MAX {
        (delays + 1) as u64
    } else {
        u64::MAX
    }
}

} // verus!
