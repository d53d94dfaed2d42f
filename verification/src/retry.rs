//! Retrying requests that fail for a while.

use vstd::arithmetic::power2::pow2;
use vstd::prelude::*;
use vstd::string::*;

use crate::number;
use crate::number::decimal_text;

verus! {

/// The nanoseconds in a second.
pub const NANOS_PER_SEC: u128 = 1_000_000_000;

/// The nanoseconds in a millisecond.
pub const NANOS_PER_MILLI: u128 = 1_000_000;

/// The nanoseconds in the longest duration: `u64::MAX` seconds and a fraction.
pub const MAX_NANOS: u128 = 18_446_744_073_709_551_615_999_999_999;

/// A span of time, up to `u64::MAX` whole seconds and a fraction in nanoseconds.
#[derive(Clone, Copy, PartialEq, Eq, Structural, Debug)]
pub struct Duration {
    nanos: u128,
}

impl View for Duration {
    type V = nat;

    /// The span in nanoseconds.
    closed spec fn view(&self) -> nat {
        self.nanos as nat
    }
}

impl Duration {
    #[verifier::type_invariant]
    spec fn in_range(self) -> bool {
        self.nanos <= MAX_NANOS
    }

    /// A span of whole seconds.
    pub fn from_secs(secs: u64) -> (d: Duration)
        ensures
            d@ == secs * NANOS_PER_SEC,
    {
        Duration { nanos: secs as u128 * NANOS_PER_SEC }
    }

    /// A span of whole milliseconds.
    pub fn from_millis(millis: u64) -> (d: Duration)
        ensures
            d@ == millis * NANOS_PER_MILLI,
    {
        Duration { nanos: millis as u128 * NANOS_PER_MILLI }
    }

    /// The span in nanoseconds.
    pub fn as_nanos(&self) -> (nanos: u128)
        ensures
            nanos == self@,
            nanos <= MAX_NANOS,
    {
        proof {
            use_type_invariant(self);
        }
        self.nanos
    }

    /// `factor` times this span, or the longest one if that is out of range.
    pub fn saturating_mul(self, factor: u32) -> (d: Duration)
        ensures
            d@ == at_most(self@ * (factor as nat), MAX_NANOS as nat),
    {
        proof {
            use_type_invariant(&self);
        }
        assert(self.nanos * factor <= MAX_NANOS * u32::MAX) by (nonlinear_arith)
            requires
                self.nanos <= MAX_NANOS,
                factor <= u32::MAX,
        ;
        let product: u128 = self.nanos * factor as u128;
        if product <= MAX_NANOS {
            Duration { nanos: product }
        } else {
            Duration { nanos: MAX_NANOS }
        }
    }

    /// The shorter of two spans.
    pub fn min(self, other: Duration) -> (d: Duration)
        ensures
            d@ == at_most(self@, other@),
    {
        if self.nanos <= other.nanos {
            self
        } else {
            other
        }
    }
}

/// `n`, or `bound` if that is less.
pub open spec fn at_most(n: nat, bound: nat) -> nat {
    if n <= bound {
        n
    } else {
        bound
    }
}

/// Configuration for the retry executor.
#[derive(Clone, Copy, Debug)]
pub struct RetryConfig {
    /// Maximum number of attempts (1 = no retries).
    pub max_retries: u32,
    /// Initial delay between attempts.
    pub base_delay: Duration,
    /// Maximum delay between attempts.
    pub max_delay: Duration,
}

impl Default for RetryConfig {
    fn default() -> (config: RetryConfig)
        ensures
            config.max_retries == 4,
            config.base_delay@ == 500 * NANOS_PER_MILLI,
            config.max_delay@ == 30 * NANOS_PER_SEC,
    {
        RetryConfig {
            max_retries: 4,
            base_delay: Duration::from_millis(500),
            max_delay: Duration::from_secs(30),
        }
    }
}

impl RetryConfig {
    /// The delay in nanoseconds after attempt `attempt` (0-indexed): the base delay,
    /// doubled with each attempt up to the tenth, and never above the maximum.
    pub open spec fn delay(self, attempt: nat) -> nat {
        let factor = pow2(at_most(attempt, 10));
        at_most(at_most(self.base_delay@ * factor, MAX_NANOS as nat), self.max_delay@)
    }

    /// A configuration with the given limits.
    pub fn new(max_retries: u32, base_delay: Duration, max_delay: Duration) -> (config: RetryConfig)
        ensures
            config.max_retries == max_retries,
            config.base_delay == base_delay,
            config.max_delay == max_delay,
    {
        RetryConfig { max_retries, base_delay, max_delay }
    }

    /// Calculate the delay for attempt `n` (0-indexed).
    pub fn delay_for(&self, attempt: u32) -> (delay: Duration)
        ensures
            delay@ == self.delay(attempt as nat),
    {
        let shift: u32 = if attempt < 10 {
            attempt
        } else {
            10
        };
        proof {
            vstd::arithmetic::power2::lemma2_to64();
            vstd::arithmetic::power2::lemma_pow2_strictly_increases(shift as nat, 11);
            vstd::bits::lemma_u32_shl_is_mul(1, shift);
        }
        let factor: u32 = 1u32 << shift;
        assert(factor == pow2(shift as nat));
        self.base_delay.saturating_mul(factor).min(self.max_delay)
    }

    /// What follows a failed attempt.
    pub open spec fn next(self, attempt: nat, kind: ErrorKind) -> NextAttemptView {
        match kind {
            ErrorKind::Fatal => NextAttemptView::GiveUp,
            ErrorKind::Retryable => {
                if attempt + 1 < self.max_retries {
                    NextAttemptView::After(self.delay(attempt))
                } else {
                    NextAttemptView::GiveUp
                }
            },
        }
    }

    /// Decides what follows when attempt `attempt` (0-indexed) has failed.
    pub fn after_failure(&self, attempt: u32, kind: ErrorKind) -> (next: NextAttempt)
        requires
            attempt < self.max_retries,
        ensures
            next@ == self.next(attempt as nat, kind),
    {
        match kind {
            ErrorKind::Fatal => NextAttempt::GiveUp,
            ErrorKind::Retryable => {
                if attempt + 1 < self.max_retries {
                    NextAttempt::After(self.delay_for(attempt))
                } else {
                    NextAttempt::GiveUp
                }
            },
        }
    }
}

/// What follows a failed attempt.
#[derive(Clone, Copy, PartialEq, Eq, Structural, Debug)]
pub enum NextAttempt {
    /// Try again after this time.
    After(Duration),
    /// Try no more.
    GiveUp,
}

/// [`NextAttempt`] with its delay in nanoseconds.
pub ghost enum NextAttemptView {
    /// Try again after this time.
    After(nat),
    /// Try no more.
    GiveUp,
}

impl View for NextAttempt {
    type V = NextAttemptView;

    open spec fn view(&self) -> NextAttemptView {
        match *self {
            NextAttempt::After(delay) => NextAttemptView::After(delay@),
            NextAttempt::GiveUp => NextAttemptView::GiveUp,
        }
    }
}

/// Classification of an error for retry purposes.
#[derive(Clone, Copy, PartialEq, Eq, Structural, Debug)]
pub enum ErrorKind {
    /// Should be retried (HTTP 429, 5xx, network errors).
    Retryable,
    /// Should not be retried (HTTP 401, 403, 404, parse errors, etc.).
    Fatal,
}

/// A failed HTTP exchange.
#[derive(Debug)]
pub enum HttpFailure {
    /// The server answered with an error status.
    Status {
        /// The status code.
        code: u16,
        /// What to tell about the failure.
        message: String,
    },
    /// No answer came.
    Transport {
        /// What to tell about the failure.
        message: String,
    },
}

impl HttpFailure {
    /// The failures that may pass: too many requests, server errors, no answer.
    pub open spec fn kind(self) -> ErrorKind {
        match self {
            HttpFailure::Status { code, .. } => {
                if code == 429 || 500 <= code <= 599 {
                    ErrorKind::Retryable
                } else {
                    ErrorKind::Fatal
                }
            },
            HttpFailure::Transport { .. } => ErrorKind::Retryable,
        }
    }

    /// What to tell about the failure.
    pub open spec fn text(self) -> String {
        match self {
            HttpFailure::Status { message, .. } => message,
            HttpFailure::Transport { message } => message,
        }
    }
}

/// Classify a failed HTTP exchange to decide if we should retry.
pub fn classify_ureq_error(err: &HttpFailure) -> (kind: ErrorKind)
    ensures
        kind == err.kind(),
{
    match err {
        HttpFailure::Status { code, .. } => {
            if *code == 429 || (500 <= *code && *code <= 599) {
                ErrorKind::Retryable
            } else {
                ErrorKind::Fatal
            }
        },
        HttpFailure::Transport { .. } => ErrorKind::Retryable,
    }
}

/// Error returned by [`execute_with_retry`].
#[derive(Debug)]
pub struct RetryError {
    /// The number of attempts that were made.
    pub attempts: u32,
    /// What the last of them failed with.
    pub last_error: String,
}

impl RetryError {
    /// The error as one line.
    pub open spec fn text(self) -> Seq<char> {
        "Failed after "@ + number::decimal(self.attempts as nat) + " attempt(s): "@
            + self.last_error@
    }

    /// The error as one line.
    pub fn message(&self) -> (text: String)
        ensures
            text@ == self.text(),
    {
        let mut text = "Failed after ".to_owned();
        text.append(decimal_text(self.attempts as u64).as_str());
        text.append(" attempt(s): ");
        text.append(self.last_error.as_str());
        text
    }
}

/// Whether an outcome asks for another attempt.
pub open spec fn asks_again<T>(outcome: Result<T, (ErrorKind, String)>) -> bool {
    outcome matches Err((ErrorKind::Retryable, _))
}

/// Whether attempts with these outcomes are all that the limit allows: each but the
/// last asked for another, and the last did not or was the last one allowed.
pub open spec fn complete_run<T>(
    limit: u32,
    outcomes: Seq<Result<T, (ErrorKind, String)>>,
) -> bool {
    &&& outcomes.len() <= limit
    &&& forall|i: int| 0 <= i < outcomes.len() - 1 ==> asks_again(#[trigger] outcomes[i])
    &&& outcomes.len() < limit ==> outcomes.len() > 0 && !asks_again(outcomes.last())
}

/// What a run with these outcomes ends in.
pub open spec fn run_ends_in<T>(
    outcomes: Seq<Result<T, (ErrorKind, String)>>,
    result: Result<T, RetryError>,
) -> bool {
    if outcomes.len() == 0 {
        result matches Err(e) && e.attempts == 0 && e.last_error@ == "No attempts made"@
    } else {
        match outcomes.last() {
            Ok(value) => result == Ok::<T, RetryError>(value),
            Err((_, error)) => result matches Err(e) && e.attempts == outcomes.len()
                && e.last_error == error,
        }
    }
}

/// Whether `sleep`, called for the delay after attempt `attempt`, leads from one state of the
/// world to the other.
pub open spec fn rested<W, S: FnMut(W, Duration) -> W>(
    config: RetryConfig,
    sleep: S,
    attempt: nat,
    before: W,
    after: W,
) -> bool {
    exists|d: Duration| d@ == config.delay(attempt) && #[trigger] call_ensures(
        sleep,
        (before, d),
        after,
    )
}

/// Whether an attempt can lead from one state of the world to another with an outcome: given
/// the number of the attempt, the state before it, the state after it and the outcome.
pub type Step<W, T> = spec_fn(u32, W, W, Result<T, (ErrorKind, String)>) -> bool;

/// An attempt that is one call of `f`.
pub open spec fn call_of<T, W, F: FnMut(W, u32) -> (W, Result<T, (ErrorKind, String)>)>(
    f: F,
) -> Step<W, T> {
    |attempt: u32, before: W, after: W, outcome: Result<T, (ErrorKind, String)>|
        call_ensures(f, (before, attempt), (after, outcome))
}

/// Whether the attempts 0, 1, 2 and so on were made with these outcomes, each leading from a
/// state of the world in `asked` to the one in `answered`, and `sleep` was called in between
/// for the delay due there.
pub open spec fn traced<T, W, S: FnMut(W, Duration) -> W>(
    config: RetryConfig,
    step: Step<W, T>,
    sleep: S,
    asked: Seq<W>,
    answered: Seq<W>,
    outcomes: Seq<Result<T, (ErrorKind, String)>>,
) -> bool {
    &&& asked.len() == outcomes.len()
    &&& answered.len() == outcomes.len()
    &&& forall|i: int|
        0 <= i < outcomes.len() ==> step(
            i as u32,
            asked[i],
            answered[i],
            #[trigger] outcomes[i],
        )
    &&& forall|i: int|
        0 <= i < outcomes.len() - 1 ==> rested(
            config,
            sleep,
            i as nat,
            #[trigger] answered[i],
            asked[i + 1],
        )
}

/// Whether these attempts, and the waits between them, one call of `sleep` each, lead from
/// one state of the world to the other.
pub open spec fn ran<T, W, S: FnMut(W, Duration) -> W>(
    config: RetryConfig,
    step: Step<W, T>,
    sleep: S,
    before: W,
    outcomes: Seq<Result<T, (ErrorKind, String)>>,
    after: W,
) -> bool {
    if outcomes.len() == 0 {
        after == before
    } else {
        exists|asked: Seq<W>, answered: Seq<W>|
            {
                &&& #[trigger] traced(config, step, sleep, asked, answered, outcomes)
                &&& asked.first() == before
                &&& answered.last() == after
            }
    }
}

/// Whether a run of such attempts, all that the limit allows, led from one state of the world
/// to the other and ended in `result`.
pub open spec fn executed<T, W, S: FnMut(W, Duration) -> W>(
    config: RetryConfig,
    step: Step<W, T>,
    sleep: S,
    before: W,
    after: W,
    result: Result<T, RetryError>,
) -> bool {
    exists|outcomes: Seq<Result<T, (ErrorKind, String)>>|
        {
            &&& #[trigger] ran(config, step, sleep, before, outcomes, after)
            &&& complete_run(config.max_retries, outcomes)
            &&& run_ends_in(outcomes, result)
        }
}

/// What holds of each attempt of a kind can be said of a run of such attempts.
pub proof fn lemma_executed<T, W, S: FnMut(W, Duration) -> W>(
    config: RetryConfig,
    step: Step<W, T>,
    other: Step<W, T>,
    sleep: S,
    before: W,
    after: W,
    result: Result<T, RetryError>,
)
    requires
        executed(config, step, sleep, before, after, result),
        forall|k: u32, w: W, v: W, outcome: Result<T, (ErrorKind, String)>| #[trigger]
            step(k, w, v, outcome) ==> other(k, w, v, outcome),
    ensures
        executed(config, other, sleep, before, after, result),
{
    let outcomes = choose|outcomes: Seq<Result<T, (ErrorKind, String)>>|
        {
            &&& #[trigger] ran(config, step, sleep, before, outcomes, after)
            &&& complete_run(config.max_retries, outcomes)
            &&& run_ends_in(outcomes, result)
        };
    if outcomes.len() > 0 {
        let (asked, answered) = choose|asked: Seq<W>, answered: Seq<W>|
            {
                &&& #[trigger] traced(config, step, sleep, asked, answered, outcomes)
                &&& asked.first() == before
                &&& answered.last() == after
            };
        assert(traced(config, other, sleep, asked, answered, outcomes));
    }
    assert(ran(config, other, sleep, before, outcomes, after));
}

/// Whether `f` may be called for attempt 0 in this state of the world, and for each next
/// attempt once the one before asked for it and the delay after that one has passed. It need
/// not allow any other call.
pub open spec fn may_attempt<
    T,
    W,
    F: FnMut(W, u32) -> (W, Result<T, (ErrorKind, String)>),
    S: FnMut(W, Duration) -> W,
>(config: RetryConfig, f: F, sleep: S, world: W) -> bool {
    &&& config.max_retries > 0 ==> call_requires(f, (world, 0u32))
    &&& forall|k: u32, asked: W, answered: W, outcome: Result<T, (ErrorKind, String)>, next: W|
        {
            &&& #[trigger] call_ensures(f, (asked, k), (answered, outcome))
            &&& asks_again(outcome)
            &&& k + 1 < config.max_retries
            &&& #[trigger] rested(config, sleep, k as nat, answered, next)
        } ==> call_requires(f, (next, (k + 1) as u32))
}

/// Whether `sleep` may be called for the delay after an attempt that asked for another one
/// which the limit allows, in the state of the world that the attempt left. It need not allow
/// any other call.
pub open spec fn may_wait<
    T,
    W,
    F: FnMut(W, u32) -> (W, Result<T, (ErrorKind, String)>),
    S: FnMut(W, Duration) -> W,
>(config: RetryConfig, f: F, sleep: S) -> bool {
    forall|k: u32, asked: W, answered: W, outcome: Result<T, (ErrorKind, String)>, d: Duration|
        {
            &&& #[trigger] call_ensures(f, (asked, k), (answered, outcome))
            &&& asks_again(outcome)
            &&& k + 1 < config.max_retries
            &&& d@ == config.delay(k as nat)
        } ==> #[trigger] call_requires(sleep, (answered, d))
}

/// Execute a closure with retry logic.
///
/// `f` receives the current attempt number (0-indexed) and returns either a value
/// or the kind of the failure and what to tell about it. `sleep` waits.
/// Both take the state of the `world` that they work on and hand it back, so that each call
/// follows the one before; what the last call left is handed back with the result.
///
/// - `ErrorKind::Retryable` → sleep and retry (up to `config.max_retries` total).
/// - `ErrorKind::Fatal` → return immediately without further retries.
///
/// `f` is called once for each attempt and `sleep` once between two attempts.
pub fn execute_with_retry<
    T,
    W,
    F: FnMut(W, u32) -> (W, Result<T, (ErrorKind, String)>),
    S: FnMut(W, Duration) -> W,
>(config: &RetryConfig, world: W, f: F, sleep: S) -> (done: (W, Result<T, RetryError>))
    requires
        may_attempt(*config, f, sleep, world),
        may_wait(*config, f, sleep),
    ensures
        executed(*config, call_of(f), sleep, world, done.0, done.1),
{
    let ghost mut outcomes: Seq<Result<T, (ErrorKind, String)>> = Seq::empty();
    let ghost mut asked: Seq<W> = Seq::empty();
    let ghost mut answered: Seq<W> = Seq::empty();
    let mut attempt_once = f;
    let mut wait = sleep;
    let mut attempt: u32 = 0;
    let mut current = world;
    if config.max_retries == 0 {
        assert(ran(*config, call_of(f), sleep, world, outcomes, current));
        let none = Err(RetryError { attempts: 0, last_error: "No attempts made".to_owned() });
        assert(executed(*config, call_of(f), sleep, world, current, none));
        return (current, none);
    }
    loop
        invariant
            attempt < config.max_retries,
            outcomes.len() == attempt,
            attempt_once == f,
            wait == sleep,
            traced(*config, call_of(f), sleep, asked, answered, outcomes),
            attempt == 0 ==> current == world,
            attempt > 0 ==> asked.first() == world && rested(
                *config,
                sleep,
                (attempt - 1) as nat,
                answered.last(),
                current,
            ),
            forall|i: int| 0 <= i < attempt ==> asks_again(#[trigger] outcomes[i]),
            call_requires(f, (current, attempt)),
            may_attempt(*config, f, sleep, world),
            may_wait(*config, f, sleep),
        decreases config.max_retries - attempt,
    {
        let ghost before = current;
        let (after, outcome) = attempt_once(current, attempt);
        let ghost known = outcomes;
        proof {
            let now_asked = asked.push(before);
            let now_answered = answered.push(after);
            outcomes = outcomes.push(outcome);
            assert forall|i: int| 0 <= i < outcomes.len() implies call_ensures(
                f,
                (now_asked[i], i as u32),
                (now_answered[i], #[trigger] outcomes[i]),
            ) by {
                if i < known.len() {
                    assert(outcomes[i] == known[i]);
                }
            }
            assert forall|i: int| 0 <= i < outcomes.len() - 1 implies rested(
                *config,
                sleep,
                i as nat,
                #[trigger] now_answered[i],
                now_asked[i + 1],
            ) by {
                assert(now_answered[i] == answered[i]);
            }
            asked = now_asked;
            answered = now_answered;
            assert(traced(*config, call_of(f), sleep, asked, answered, outcomes));
            assert(ran(*config, call_of(f), sleep, world, outcomes, after));
            assert(outcomes.last() == outcome);
            assert(call_ensures(f, (before, attempt), (after, outcome)));
        }
        match outcome {
            Ok(value) => {
                return (after, Ok(value));
            },
            Err((kind, error)) => {
                match config.after_failure(attempt, kind) {
                    NextAttempt::GiveUp => {
                        let failed = Err(
                            RetryError { attempts: attempt + 1, last_error: error },
                        );
                        assert(executed(*config, call_of(f), sleep, world, after, failed));
                        return (after, failed);
                    },
                    NextAttempt::After(delay) => {
                        current = wait(after, delay);
                        assert(rested(*config, sleep, attempt as nat, answered.last(), current));
                        attempt = attempt + 1;
                    },
                }
            },
        }
    }
}

/// Convenience: wrap an HTTP call so that its failures are classified and returned
/// in the format [`execute_with_retry`] expects.
pub fn wrap_ureq<T, F: FnOnce() -> Result<T, HttpFailure>>(f: F) -> (result: Result<
    T,
    (ErrorKind, String),
>)
    requires
        call_requires(f, ()),
    ensures
        exists|reply: Result<T, HttpFailure>|
            {
                &&& #[trigger] call_ensures(f, (), reply)
                &&& match reply {
                    Ok(value) => result == Ok::<T, (ErrorKind, String)>(value),
                    Err(failure) => result == Err::<T, (ErrorKind, String)>(
                        (failure.kind(), failure.text()),
                    ),
                }
            },
{
    match f() {
        Ok(value) => Ok(value),
        Err(failure) => {
            let kind = classify_ureq_error(&failure);
            match failure {
                HttpFailure::Status { message, .. } => Err((kind, message)),
                HttpFailure::Transport { message } => Err((kind, message)),
            }
        },
    }
}

/// Waiting times never shrink from one attempt to the next, and never exceed the maximum.
pub proof fn law_delays_grow_up_to_the_maximum(config: RetryConfig, attempt: nat)
    ensures
        config.delay(attempt) <= config.delay(attempt + 1),
        config.delay(attempt) <= config.max_delay@,
{
    let now = at_most(attempt, 10);
    let then = at_most(attempt + 1, 10);
    if now < then {
        vstd::arithmetic::power2::lemma_pow2_strictly_increases(now, then);
    }
    assert(config.base_delay@ * pow2(now) <= config.base_delay@ * pow2(then)) by (nonlinear_arith)
        requires
            pow2(now) <= pow2(then),
    ;
}

/// The delay doubles with each of the first ten attempts as long as the maximum allows it.
pub proof fn law_delay_doubles(config: RetryConfig, attempt: nat)
    requires
        attempt < 10,
        config.base_delay@ * pow2(attempt + 1) <= config.max_delay@,
        config.max_delay@ <= MAX_NANOS,
    ensures
        config.delay(attempt + 1) == 2 * config.delay(attempt),
{
    vstd::arithmetic::power2::lemma_pow2_unfold(attempt + 1);
    assert(config.base_delay@ * pow2(attempt + 1) == 2 * (config.base_delay@ * pow2(attempt)))
        by (nonlinear_arith)
        requires
            pow2(attempt + 1) == 2 * pow2(attempt),
    ;
}

/// A fatal error ends the run: no attempt follows it.
pub proof fn law_fatal_error_ends_the_run<T>(
    limit: u32,
    outcomes: Seq<Result<T, (ErrorKind, String)>>,
    attempt: int,
)
    requires
        complete_run(limit, outcomes),
        0 <= attempt < outcomes.len(),
        outcomes[attempt] matches Err((ErrorKind::Fatal, _)),
    ensures
        outcomes.len() == attempt + 1,
{
}

/// Errors that may pass are retried until the allowed number of attempts is made.
pub proof fn law_retryable_errors_use_all_attempts<T>(
    limit: u32,
    outcomes: Seq<Result<T, (ErrorKind, String)>>,
)
    requires
        complete_run(limit, outcomes),
        forall|i: int| 0 <= i < outcomes.len() ==> asks_again(#[trigger] outcomes[i]),
    ensures
        outcomes.len() == limit,
{
}

/// A count that each attempt raises by one, and no wait changes, is raised by a run by the
/// number of attempts that a failure reports, and by no more than the limit.
pub proof fn law_attempts_are_counted<T, W, S: FnMut(W, Duration) -> W>(
    config: RetryConfig,
    step: Step<W, T>,
    sleep: S,
    count: spec_fn(W) -> int,
    before: W,
    after: W,
    result: Result<T, RetryError>,
)
    requires
        executed(config, step, sleep, before, after, result),
        forall|k: u32, w: W, v: W, outcome: Result<T, (ErrorKind, String)>| #[trigger]
            step(k, w, v, outcome) ==> count(v) == count(w) + 1,
        forall|w: W, d: Duration, v: W| #[trigger]
            call_ensures(sleep, (w, d), v) ==> count(v) == count(w),
    ensures
        count(after) - count(before) <= config.max_retries,
        match result {
            Ok(_) => count(after) - count(before) >= 1,
            Err(e) => count(after) - count(before) == e.attempts,
        },
{
    let outcomes = choose|outcomes: Seq<Result<T, (ErrorKind, String)>>|
        {
            &&& #[trigger] ran(config, step, sleep, before, outcomes, after)
            &&& complete_run(config.max_retries, outcomes)
            &&& run_ends_in(outcomes, result)
        };
    if outcomes.len() > 0 {
        let (asked, answered) = choose|asked: Seq<W>, answered: Seq<W>|
            {
                &&& #[trigger] traced(config, step, sleep, asked, answered, outcomes)
                &&& asked.first() == before
                &&& answered.last() == after
            };
        lemma_count_after(
            config,
            step,
            sleep,
            count,
            asked,
            answered,
            outcomes,
            outcomes.len() - 1,
        );
    }
}

/// The count that the attempts up to this one have come to.
proof fn lemma_count_after<T, W, S: FnMut(W, Duration) -> W>(
    config: RetryConfig,
    step: Step<W, T>,
    sleep: S,
    count: spec_fn(W) -> int,
    asked: Seq<W>,
    answered: Seq<W>,
    outcomes: Seq<Result<T, (ErrorKind, String)>>,
    attempt: int,
)
    requires
        traced(config, step, sleep, asked, answered, outcomes),
        0 <= attempt < outcomes.len(),
        forall|k: u32, w: W, v: W, outcome: Result<T, (ErrorKind, String)>| #[trigger]
            step(k, w, v, outcome) ==> count(v) == count(w) + 1,
        forall|w: W, d: Duration, v: W| #[trigger]
            call_ensures(sleep, (w, d), v) ==> count(v) == count(w),
    ensures
        count(answered[attempt]) == count(asked.first()) + attempt + 1,
    decreases attempt,
{
    assert(step(attempt as u32, asked[attempt], answered[attempt], outcomes[attempt]));
    if attempt > 0 {
        lemma_count_after(config, step, sleep, count, asked, answered, outcomes, attempt - 1);
        let earlier = answered[attempt - 1];
        assert(rested(config, sleep, (attempt - 1) as nat, earlier, asked[attempt]));
    }
}

/// Where every attempt ends in an error that will not pass, one is made, and its error is what
/// the run ends in. Where every attempt ends in one that may pass, all allowed are made, and
/// the run ends in an error that tells how many. Where every attempt succeeds, so does the run.
pub proof fn law_what_a_run_comes_to<T, W, S: FnMut(W, Duration) -> W>(
    config: RetryConfig,
    step: Step<W, T>,
    sleep: S,
    before: W,
    after: W,
    result: Result<T, RetryError>,
)
    requires
        executed(config, step, sleep, before, after, result),
        config.max_retries > 0,
    ensures
        (forall|k: u32, w: W, v: W, outcome: Result<T, (ErrorKind, String)>| #[trigger]
            step(k, w, v, outcome) ==> (outcome matches Err((ErrorKind::Fatal, _)))) ==> (result
            matches Err(e) && e.attempts == 1 && exists|message: String|
            e.last_error == message && #[trigger] step(
                0,
                before,
                after,
                Err((ErrorKind::Fatal, message)),
            )),
        (forall|k: u32, w: W, v: W, outcome: Result<T, (ErrorKind, String)>| #[trigger]
            step(k, w, v, outcome) ==> (outcome matches Err((ErrorKind::Retryable, _)))) ==> (result
            matches Err(e) && e.attempts == config.max_retries && exists|w: W, message: String|
            e.last_error == message && #[trigger] step(
                (config.max_retries - 1) as u32,
                w,
                after,
                Err((ErrorKind::Retryable, message)),
            )),
        (forall|k: u32, w: W, v: W, outcome: Result<T, (ErrorKind, String)>| #[trigger]
            step(k, w, v, outcome) ==> outcome is Ok) ==> (result matches Ok(value) && step(
            0,
            before,
            after,
            Ok(value),
        )),
{
    let outcomes = choose|outcomes: Seq<Result<T, (ErrorKind, String)>>|
        {
            &&& #[trigger] ran(config, step, sleep, before, outcomes, after)
            &&& complete_run(config.max_retries, outcomes)
            &&& run_ends_in(outcomes, result)
        };
    assert(outcomes.len() > 0);
    let (asked, answered) = choose|asked: Seq<W>, answered: Seq<W>|
        {
            &&& #[trigger] traced(config, step, sleep, asked, answered, outcomes)
            &&& asked.first() == before
            &&& answered.last() == after
        };
    let last = outcomes.len() - 1;
    assert(step(0, asked[0], answered[0], outcomes[0]));
    assert(step(last as u32, asked[last], answered[last], outcomes[last]));
    if last > 0 {
        assert(asks_again(outcomes[0]));
    }
    assert(outcomes.last() == outcomes[last]);
    if let Err((ErrorKind::Retryable, message)) = outcomes[last] {
        assert(answered.last() == answered[last]);
        assert(step(last as u32, asked[last], after, Err((ErrorKind::Retryable, message))));
    }
    if last == 0 {
        assert(asked.first() == asked[0]);
        assert(answered.last() == answered[0]);
        if let Err((ErrorKind::Fatal, message)) = outcomes[0] {
            assert(step(0, before, after, Err((ErrorKind::Fatal, message))));
        }
    }
}

/// With no attempts allowed none is made, and nothing happens.
pub proof fn law_no_attempt_without_leave<T, W, S: FnMut(W, Duration) -> W>(
    config: RetryConfig,
    step: Step<W, T>,
    sleep: S,
    before: W,
    after: W,
    result: Result<T, RetryError>,
)
    requires
        executed(config, step, sleep, before, after, result),
        config.max_retries == 0,
    ensures
        result matches Err(e) && e.attempts == 0 && e.last_error@ == "No attempts made"@,
        after == before,
{
}

/// Too many requests, errors of the server, and no answer may pass; no other failure does.
pub proof fn law_failures_that_may_pass(failure: HttpFailure, kind: ErrorKind)
    requires
        call_ensures(classify_ureq_error, (&failure,), kind),
    ensures
        failure is Transport ==> kind == ErrorKind::Retryable,
        failure matches HttpFailure::Status { code, .. } ==> (kind == ErrorKind::Retryable <==> code
            == 429 || 500 <= code <= 599),
        kind == ErrorKind::Retryable || kind == ErrorKind::Fatal,
{
}

/// A call that succeeds hands its value on; one that fails hands on its message, with whether
/// the failure may pass.
pub proof fn law_wrapped_call_tells_its_failure<T, F: FnOnce() -> Result<T, HttpFailure>>(
    f: F,
    result: Result<T, (ErrorKind, String)>,
)
    requires
        call_ensures(wrap_ureq::<T, F>, (f,), result),
    ensures
        result matches Ok(value) ==> call_ensures(f, (), Ok(value)),
        result matches Err((kind, message)) ==> exists|failure: HttpFailure|
            {
                &&& #[trigger] call_ensures(f, (), Err(failure))
                &&& failure matches HttpFailure::Status { message: m, .. } ==> m == message
                &&& failure matches HttpFailure::Transport { message: m } ==> m == message
                &&& kind == ErrorKind::Retryable <==> (failure is Transport || (failure matches
                    HttpFailure::Status { code, .. } && (code == 429 || 500 <= code <= 599)))
            },
{
}

/// The delay begins at the base delay and doubles with each attempt, for ten attempts; it is
/// never above the maximum, and below it only by that rule.
pub proof fn law_delay_after_an_attempt(
    config: RetryConfig,
    attempt: u32,
    delay: Duration,
    next: Duration,
)
    requires
        attempt < u32::MAX,
        call_ensures(RetryConfig::delay_for, (&config, attempt), delay),
        call_ensures(RetryConfig::delay_for, (&config, (attempt + 1) as u32), next),
    ensures
        delay@ <= config.max_delay@,
        attempt == 0 && config.base_delay@ <= config.max_delay@ && config.base_delay@
            <= MAX_NANOS ==> delay@ == config.base_delay@,
        attempt < 10 && 2 * delay@ <= config.max_delay@ && delay@ < config.max_delay@ && 2 * delay@
            <= MAX_NANOS && delay@ < MAX_NANOS ==> next@ == 2 * delay@,
        attempt >= 10 ==> next@ == delay@,
        delay@ <= next@,
{
    vstd::arithmetic::power2::lemma2_to64();
    law_delays_grow_up_to_the_maximum(config, attempt as nat);
    if attempt < 10 {
        vstd::arithmetic::power2::lemma_pow2_unfold((attempt + 1) as nat);
        let factor = pow2(attempt as nat);
        let base = config.base_delay@;
        assert(base * (2 * factor) == 2 * (base * factor)) by (nonlinear_arith);
    }
    assert(config.base_delay@ * 1 == config.base_delay@);
}

/// By default four attempts are made, half a second apart at first and half a minute at most.
pub proof fn law_default_limits(
    config: RetryConfig,
    made: RetryConfig,
    max_retries: u32,
    base_delay: Duration,
    max_delay: Duration,
)
    requires
        call_ensures(RetryConfig::default, (), config),
        call_ensures(RetryConfig::new, (max_retries, base_delay, max_delay), made),
    ensures
        config.max_retries == 4,
        config.base_delay@ == 500_000_000,
        config.max_delay@ == 30_000_000_000,
        made.max_retries == max_retries,
        made.base_delay == base_delay,
        made.max_delay == max_delay,
{
}

/// After a failed attempt there is another one if, and only if, the failure may pass and the
/// limit is not reached; it comes after the delay for the attempt.
pub proof fn law_next_attempt(
    config: RetryConfig,
    attempt: u32,
    kind: ErrorKind,
    next: NextAttempt,
    delay: Duration,
)
    requires
        call_ensures(RetryConfig::after_failure, (&config, attempt, kind), next),
        call_ensures(RetryConfig::delay_for, (&config, attempt), delay),
    ensures
        next is After <==> kind == ErrorKind::Retryable && attempt + 1 < config.max_retries,
        next matches NextAttempt::After(d) ==> d@ == delay@,
{
    assert(next@ == config.next(attempt as nat, kind));
}

/// A failed run is told with the number of attempts and the last error.
pub proof fn law_failed_run_is_told(error: RetryError, text: String)
    requires
        call_ensures(RetryError::message, (&error,), text),
    ensures
        text@ == "Failed after "@ + number::decimal(error.attempts as nat) + " attempt(s): "@
            + error.last_error@,
{
}

/// Spans of time: seconds and milliseconds count as so many nanoseconds, a multiple stops at
/// the longest span, and of two spans the shorter is found.
pub proof fn law_spans_of_time(
    n: u64,
    factor: u32,
    secs: Duration,
    millis: Duration,
    one: Duration,
    other: Duration,
    product: Duration,
    shorter: Duration,
    nanos: u128,
)
    requires
        call_ensures(Duration::from_secs, (n,), secs),
        call_ensures(Duration::from_millis, (n,), millis),
        call_ensures(Duration::saturating_mul, (one, factor), product),
        call_ensures(Duration::min, (one, other), shorter),
        call_ensures(Duration::as_nanos, (&one,), nanos),
    ensures
        secs@ == n * 1_000_000_000,
        millis@ == n * 1_000_000,
        one@ * factor <= 18_446_744_073_709_551_615_999_999_999 ==> product@ == one@ * factor,
        one@ * factor > 18_446_744_073_709_551_615_999_999_999 ==> product@
            == 18_446_744_073_709_551_615_999_999_999nat,
        shorter@ <= one@ && shorter@ <= other@,
        shorter@ == one@ || shorter@ == other@,
        nanos == one@,
{
}

/// A run of the executor is one of calls of `f`, as many as the outcomes ask for. Where the
/// first call succeeds, its value is the result; where it fails for good, so does the run.
pub proof fn law_executor_calls_its_function<
    T,
    W,
    F: FnMut(W, u32) -> (W, Result<T, (ErrorKind, String)>),
    S: FnMut(W, Duration) -> W,
>(config: RetryConfig, world: W, f: F, sleep: S, done: (W, Result<T, RetryError>))
    requires
        call_ensures(execute_with_retry::<T, W, F, S>, (&config, world, f, sleep), done),
    ensures
        executed(config, call_of(f), sleep, world, done.0, done.1),
        config.max_retries == 0 ==> done.0 == world && done.1 is Err && done.1->Err_0.attempts
            == 0,
        config.max_retries > 0 && (forall|
            w: W,
            k: u32,
            v: W,
            outcome: Result<T, (ErrorKind, String)>,
        | #[trigger]
            call_ensures(f, (w, k), (v, outcome)) ==> outcome is Ok) ==> (done.1 matches Ok(value)
            && call_ensures(f, (world, 0u32), (done.0, Ok(value)))),
        config.max_retries > 0 && (forall|
            w: W,
            k: u32,
            v: W,
            outcome: Result<T, (ErrorKind, String)>,
        | #[trigger]
            call_ensures(f, (w, k), (v, outcome)) ==> (outcome matches Err((ErrorKind::Fatal, _))))
            ==> done.1 is Err && done.1->Err_0.attempts == 1,
        config.max_retries > 0 && (forall|
            w: W,
            k: u32,
            v: W,
            outcome: Result<T, (ErrorKind, String)>,
        | #[trigger]
            call_ensures(f, (w, k), (v, outcome)) ==> (outcome matches Err(
                (ErrorKind::Retryable, _),
            ))) ==> done.1 is Err && done.1->Err_0.attempts == config.max_retries,
{
    if config.max_retries > 0 {
        law_what_a_run_comes_to(config, call_of(f), sleep, world, done.0, done.1);
    }
}

/// A wait lasts as long as the delay after the attempt, and is one call of `sleep`.
pub proof fn law_wait_lasts_the_delay<W, S: FnMut(W, Duration) -> W>(
    config: RetryConfig,
    sleep: S,
    attempt: u32,
    before: W,
    after: W,
    delay: Duration,
)
    requires
        rested(config, sleep, attempt as nat, before, after),
        call_ensures(RetryConfig::delay_for, (&config, attempt), delay),
    ensures
        exists|d: Duration| d@ == delay@ && #[trigger] call_ensures(sleep, (before, d), after),
{
}

/// A count that each wait raises by one, and no attempt changes, is raised by a run by one less
/// than the attempts that a failure reports: there is a wait between two attempts, and none
/// before the first or after the last.
pub proof fn law_waits_are_counted<T, W, S: FnMut(W, Duration) -> W>(
    config: RetryConfig,
    step: Step<W, T>,
    sleep: S,
    count: spec_fn(W) -> int,
    before: W,
    after: W,
    result: Result<T, RetryError>,
)
    requires
        executed(config, step, sleep, before, after, result),
        forall|k: u32, w: W, v: W, outcome: Result<T, (ErrorKind, String)>| #[trigger]
            step(k, w, v, outcome) ==> count(v) == count(w),
        forall|w: W, d: Duration, v: W| #[trigger]
            call_ensures(sleep, (w, d), v) ==> count(v) == count(w) + 1,
    ensures
        result matches Err(e) ==> e.attempts > 0 ==> count(after) - count(before) == e.attempts - 1,
{
    let outcomes = choose|outcomes: Seq<Result<T, (ErrorKind, String)>>|
        {
            &&& #[trigger] ran(config, step, sleep, before, outcomes, after)
            &&& complete_run(config.max_retries, outcomes)
            &&& run_ends_in(outcomes, result)
        };
    if outcomes.len() > 0 {
        let (asked, answered) = choose|asked: Seq<W>, answered: Seq<W>|
            {
                &&& #[trigger] traced(config, step, sleep, asked, answered, outcomes)
                &&& asked.first() == before
                &&& answered.last() == after
            };
        lemma_waits_before(
            config,
            step,
            sleep,
            count,
            asked,
            answered,
            outcomes,
            outcomes.len() - 1,
        );
    }
}

/// The waits before an attempt.
proof fn lemma_waits_before<T, W, S: FnMut(W, Duration) -> W>(
    config: RetryConfig,
    step: Step<W, T>,
    sleep: S,
    count: spec_fn(W) -> int,
    asked: Seq<W>,
    answered: Seq<W>,
    outcomes: Seq<Result<T, (ErrorKind, String)>>,
    attempt: int,
)
    requires
        traced(config, step, sleep, asked, answered, outcomes),
        0 <= attempt < outcomes.len(),
        forall|k: u32, w: W, v: W, outcome: Result<T, (ErrorKind, String)>| #[trigger]
            step(k, w, v, outcome) ==> count(v) == count(w),
        forall|w: W, d: Duration, v: W| #[trigger]
            call_ensures(sleep, (w, d), v) ==> count(v) == count(w) + 1,
    ensures
        count(answered[attempt]) == count(asked.first()) + attempt,
    decreases attempt,
{
    assert(step(attempt as u32, asked[attempt], answered[attempt], outcomes[attempt]));
    if attempt > 0 {
        lemma_waits_before(config, step, sleep, count, asked, answered, outcomes, attempt - 1);
        let earlier = answered[attempt - 1];
        assert(rested(config, sleep, (attempt - 1) as nat, earlier, asked[attempt]));
    }
}

/// Attempts are numbered from zero on, without a gap: a count that attempt `k` raises from `k`
/// to `k + 1`, and no wait changes, ends at the attempts that a failure reports if it began at
/// zero.
pub proof fn law_attempts_are_numbered<T, W, S: FnMut(W, Duration) -> W>(
    config: RetryConfig,
    step: Step<W, T>,
    sleep: S,
    count: spec_fn(W) -> int,
    before: W,
    after: W,
    result: Result<T, RetryError>,
)
    requires
        executed(config, step, sleep, before, after, result),
        count(before) == 0,
        forall|k: u32, w: W, v: W, outcome: Result<T, (ErrorKind, String)>| #[trigger]
            step(k, w, v, outcome) && count(w) == k ==> count(v) == k + 1,
        forall|w: W, d: Duration, v: W| #[trigger]
            call_ensures(sleep, (w, d), v) ==> count(v) == count(w),
    ensures
        result matches Err(e) ==> count(after) == e.attempts,
{
    let outcomes = choose|outcomes: Seq<Result<T, (ErrorKind, String)>>|
        {
            &&& #[trigger] ran(config, step, sleep, before, outcomes, after)
            &&& complete_run(config.max_retries, outcomes)
            &&& run_ends_in(outcomes, result)
        };
    if outcomes.len() > 0 {
        let (asked, answered) = choose|asked: Seq<W>, answered: Seq<W>|
            {
                &&& #[trigger] traced(config, step, sleep, asked, answered, outcomes)
                &&& asked.first() == before
                &&& answered.last() == after
            };
        lemma_number_reached(
            config,
            step,
            sleep,
            count,
            asked,
            answered,
            outcomes,
            outcomes.len() - 1,
        );
    }
}

/// The number that the attempts have reached.
proof fn lemma_number_reached<T, W, S: FnMut(W, Duration) -> W>(
    config: RetryConfig,
    step: Step<W, T>,
    sleep: S,
    count: spec_fn(W) -> int,
    asked: Seq<W>,
    answered: Seq<W>,
    outcomes: Seq<Result<T, (ErrorKind, String)>>,
    attempt: int,
)
    requires
        traced(config, step, sleep, asked, answered, outcomes),
        outcomes.len() <= u32::MAX,
        0 <= attempt < outcomes.len(),
        count(asked.first()) == 0,
        forall|k: u32, w: W, v: W, outcome: Result<T, (ErrorKind, String)>| #[trigger]
            step(k, w, v, outcome) && count(w) == k ==> count(v) == k + 1,
        forall|w: W, d: Duration, v: W| #[trigger]
            call_ensures(sleep, (w, d), v) ==> count(v) == count(w),
    ensures
        count(answered[attempt]) == attempt + 1,
    decreases attempt,
{
    assert(step(attempt as u32, asked[attempt], answered[attempt], outcomes[attempt]));
    if attempt > 0 {
        lemma_number_reached(config, step, sleep, count, asked, answered, outcomes, attempt - 1);
        let earlier = answered[attempt - 1];
        assert(rested(config, sleep, (attempt - 1) as nat, earlier, asked[attempt]));
    }
}

} // verus!
