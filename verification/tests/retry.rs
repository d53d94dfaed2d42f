//! Retries: delays, classification of failures, and the retry executor.

use dissimkl::retry::{
    classify_ureq_error, execute_with_retry, wrap_ureq, Duration, ErrorKind, HttpFailure,
    NextAttempt, RetryConfig, RetryError,
};

#[test]
fn test_delay_doubling() {
    let cfg = RetryConfig {
        max_retries: 5,
        base_delay: Duration::from_millis(100),
        max_delay: Duration::from_secs(10),
    };
    assert_eq!(cfg.delay_for(0), Duration::from_millis(100));
    assert_eq!(cfg.delay_for(1), Duration::from_millis(200));
    assert_eq!(cfg.delay_for(2), Duration::from_millis(400));
    assert_eq!(cfg.delay_for(3), Duration::from_millis(800));
}

#[test]
fn test_delay_capped() {
    let cfg = RetryConfig {
        max_retries: 10,
        base_delay: Duration::from_millis(1000),
        max_delay: Duration::from_secs(5),
    };
    for attempt in 3..10 {
        assert_eq!(cfg.delay_for(attempt), Duration::from_secs(5));
    }
}

#[test]
fn test_fatal_stops_immediately() {
    let cfg = RetryConfig {
        max_retries: 5,
        ..Default::default()
    };
    let mut call_count = 0u32;
    let mut sleeps = 0u32;
    let (_, result): ((), Result<(), RetryError>) = execute_with_retry(
        &cfg,
        (),
        |_, _| {
            call_count += 1;
            ((), Err((ErrorKind::Fatal, "not found".to_string())))
        },
        |_, _| sleeps += 1,
    );
    assert!(result.is_err());
    assert_eq!(call_count, 1);
    assert_eq!(sleeps, 0);
    let error = result.unwrap_err();
    assert_eq!(error.attempts, 1);
    assert_eq!(error.last_error, "not found");
}

#[test]
fn test_retryable_retries_up_to_max() {
    let cfg = RetryConfig {
        max_retries: 3,
        base_delay: Duration::from_millis(1),
        max_delay: Duration::from_millis(10),
    };
    let mut call_count = 0u32;
    let mut delays = Vec::new();
    let (_, result): ((), Result<(), RetryError>) = execute_with_retry(
        &cfg,
        (),
        |_, _| {
            call_count += 1;
            ((), Err((ErrorKind::Retryable, "server error".to_string())))
        },
        |_, delay| delays.push(delay),
    );
    assert!(result.is_err());
    assert_eq!(call_count, 3);
    assert_eq!(delays, vec![Duration::from_millis(1), Duration::from_millis(2)]);
    assert_eq!(
        result.unwrap_err().message(),
        "Failed after 3 attempt(s): server error"
    );
}

#[test]
fn success_after_failures_is_returned() {
    let (seen, result) = execute_with_retry(
        &RetryConfig::new(4, Duration::from_millis(1), Duration::from_secs(1)),
        Vec::new(),
        |mut seen: Vec<String>, attempt| {
            seen.push(format!("attempt {attempt}"));
            if attempt < 2 {
                (seen, Err((ErrorKind::Retryable, "busy".to_string())))
            } else {
                (seen, Ok(attempt * 10))
            }
        },
        |mut seen, delay| {
            seen.push(format!("wait {}", delay.as_nanos()));
            seen
        },
    );
    assert_eq!(result.unwrap(), 20);
    assert_eq!(
        seen,
        vec!["attempt 0", "wait 1000000", "attempt 1", "wait 2000000", "attempt 2"]
    );
}

#[test]
fn no_attempts_allowed_is_an_error() {
    let (calls, result): (u32, Result<(), RetryError>) = execute_with_retry(
        &RetryConfig::new(0, Duration::from_millis(1), Duration::from_secs(1)),
        0,
        |calls, _| (calls + 1, Ok(())),
        |calls, _| calls,
    );
    assert_eq!(calls, 0);
    let error = result.unwrap_err();
    assert_eq!(error.attempts, 0);
    assert_eq!(error.last_error, "No attempts made");
}

#[test]
fn attempts_are_counted() {
    for (limit, kind, expected) in
        [(1, ErrorKind::Retryable, 1), (5, ErrorKind::Retryable, 5), (5, ErrorKind::Fatal, 1)]
    {
        let (calls, result): (u32, Result<(), RetryError>) = execute_with_retry(
            &RetryConfig::new(limit, Duration::from_millis(1), Duration::from_secs(1)),
            10,
            |calls, _| (calls + 1, Err((kind, "down".to_string()))),
            |calls, _| calls,
        );
        assert_eq!(calls - 10, expected);
        assert_eq!(result.unwrap_err().attempts, expected);
    }
}

#[test]
fn default_limits() {
    let cfg = RetryConfig::default();
    assert_eq!(cfg.max_retries, 4);
    assert_eq!(cfg.base_delay, Duration::from_millis(500));
    assert_eq!(cfg.max_delay, Duration::from_secs(30));
    assert_eq!(cfg.delay_for(5), Duration::from_millis(16_000));
    assert_eq!(cfg.delay_for(6), Duration::from_secs(30));
}

#[test]
fn delay_stops_doubling_at_the_tenth_attempt() {
    let cfg = RetryConfig::new(100, Duration::from_millis(1), Duration::from_secs(1_000_000));
    assert_eq!(cfg.delay_for(10), Duration::from_millis(1024));
    assert_eq!(cfg.delay_for(11), Duration::from_millis(1024));
    assert_eq!(cfg.delay_for(u32::MAX), Duration::from_millis(1024));
}

#[test]
fn longest_delay_saturates() {
    let longest = Duration::from_secs(u64::MAX);
    let cfg = RetryConfig::new(2, longest, longest);
    assert_eq!(cfg.delay_for(3), longest.saturating_mul(8).min(longest));
    assert_eq!(longest.as_nanos(), u64::MAX as u128 * 1_000_000_000);
}

#[test]
fn what_follows_a_failure() {
    let cfg = RetryConfig::new(2, Duration::from_millis(7), Duration::from_secs(1));
    assert_eq!(
        cfg.after_failure(0, ErrorKind::Retryable),
        NextAttempt::After(Duration::from_millis(7))
    );
    assert_eq!(cfg.after_failure(1, ErrorKind::Retryable), NextAttempt::GiveUp);
    assert_eq!(cfg.after_failure(0, ErrorKind::Fatal), NextAttempt::GiveUp);
}

fn status(code: u16) -> HttpFailure {
    HttpFailure::Status { code, message: format!("status {code}") }
}

#[test]
fn failures_that_may_pass_are_retryable() {
    for code in [429, 500, 503, 599] {
        assert_eq!(classify_ureq_error(&status(code)), ErrorKind::Retryable);
    }
    for code in [400, 401, 403, 404, 428, 430, 499, 600] {
        assert_eq!(classify_ureq_error(&status(code)), ErrorKind::Fatal);
    }
    let lost = HttpFailure::Transport { message: "no route".to_string() };
    assert_eq!(classify_ureq_error(&lost), ErrorKind::Retryable);
}

#[test]
fn wrapped_call_classifies_its_failure() {
    assert_eq!(wrap_ureq(|| Ok(3)), Ok(3));
    assert_eq!(
        wrap_ureq(|| Err::<u8, _>(status(404))),
        Err((ErrorKind::Fatal, "status 404".to_string()))
    );
    assert_eq!(
        wrap_ureq(|| Err::<u8, _>(HttpFailure::Transport { message: "lost".to_string() })),
        Err((ErrorKind::Retryable, "lost".to_string()))
    );
}
