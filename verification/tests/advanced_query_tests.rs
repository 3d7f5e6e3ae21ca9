use std::time::Duration;

use pup_commands::advanced_query::{
    failure_report, poll_step, PollAction, fetch_error, fetch_error_with_detail, initial_retry_base, max_retry_count, next_retry,
    retry_delay, ResetHeader, RetryAction, RetryState,
};
use pup_commands::chain::ErrorChain;

fn ns(d: Duration) -> u64 {
    d.as_nanos() as u64
}

#[test]
fn retry_jitter_is_additive_independent_and_capped() {
    assert_eq!(
        retry_delay(ns(Duration::from_secs(2)), None, ns(Duration::from_millis(999))),
        ns(Duration::from_millis(2_999))
    );
    assert_eq!(
        retry_delay(
            ns(Duration::from_secs(4)),
            Some(ns(Duration::from_secs(3))),
            ns(Duration::from_millis(250))
        ),
        ns(Duration::from_millis(3_250)),
        "a selected header replaces the exponential base"
    );
    assert_eq!(
        retry_delay(ns(Duration::from_secs(30)), None, ns(Duration::from_millis(999))),
        ns(Duration::from_secs(30))
    );
}

fn run(statuses: &[u16], jitter: u64) -> (Vec<u64>, RetryAction) {
    let mut state = RetryState::new();
    let mut sleeps = Vec::new();
    for status in statuses {
        let (next, action) = next_retry(state, Some(*status), ResetHeader::Absent, jitter);
        match action {
            RetryAction::Sleep(d) => sleeps.push(d),
            other => return (sleeps, other),
        }
        state = next;
    }
    (sleeps, RetryAction::Sleep(0))
}

#[test]
fn retryable_statuses_use_exact_attempt_limits_and_bases() {
    let (sleeps, end) = run(&[429; 6], 0);
    assert_eq!(
        sleeps,
        vec![2, 4, 8, 16, 30].into_iter().map(|s| s * 1_000_000_000).collect::<Vec<_>>()
    );
    assert_eq!(end, RetryAction::Fail);
    let (sleeps, end) = run(&[503; 3], 0);
    assert_eq!(sleeps, vec![1_000_000_000, 2_000_000_000]);
    assert_eq!(end, RetryAction::Fail);
    let (sleeps, end) = run(&[404], 0);
    assert!(sleeps.is_empty());
    assert_eq!(end, RetryAction::Fail);
    assert_eq!(max_retry_count(429), Some(5));
    assert_eq!(max_retry_count(502), Some(2));
    assert_eq!(max_retry_count(400), None);
    assert_eq!(initial_retry_base(429), 2_000_000_000);
    assert_eq!(initial_retry_base(500), 1_000_000_000);
}

#[test]
fn mixed_statuses_share_the_first_base_and_attempt_count() {
    let (sleeps, end) = run(&[500, 429, 500], 0);
    assert_eq!(sleeps, vec![1_000_000_000, 2_000_000_000]);
    assert_eq!(end, RetryAction::Fail, "two retries used up the limit of a server error");
    let (sleeps, _) = run(&[500, 429, 429], 0);
    assert_eq!(sleeps, vec![1_000_000_000, 2_000_000_000, 4_000_000_000]);
}

#[test]
fn rate_limit_resets_replace_the_base_or_stop() {
    let state = RetryState::new();
    let (next, action) = next_retry(state, Some(429), ResetHeader::Delay(3_000_000_000), 250);
    assert_eq!(action, RetryAction::Sleep(3_250_000_000));
    assert_eq!(next.base, Some(4_000_000_000));
    let (_, action) = next_retry(state, Some(429), ResetHeader::OverCap, 0);
    assert_eq!(action, RetryAction::FailOverCap);
    let (_, action) = next_retry(state, Some(503), ResetHeader::OverCap, 5_000);
    assert_eq!(action, RetryAction::Sleep(1_999_000_000), "headers only count for 429");
    let (_, action) = next_retry(state, None, ResetHeader::Absent, 0);
    assert_eq!(action, RetryAction::Fail);
}

#[test]
fn fetch_errors_name_the_query() {
    let error = fetch_error(ErrorChain::new("HTTP 500".into()), "q-1");
    assert_eq!(error.to_string(), "query fetch failed (query_id: q-1): HTTP 500");
    assert_eq!(
        error.alternate(),
        "query fetch failed (query_id: q-1): HTTP 500: HTTP 500"
    );
    let error = fetch_error_with_detail(
        ErrorChain::new("HTTP 429".into()),
        "q-2",
        "rate-limit reset delay exceeds the 30s retry cap",
    );
    assert_eq!(
        error.to_string(),
        "query fetch failed (query_id: q-2): rate-limit reset delay exceeds the 30s retry cap: HTTP 429"
    );
}

#[test]
fn over_cap_failure_names_the_cap_and_the_query() {
    let err = failure_report(ErrorChain::new("HTTP 429".into()), "query-123", true);
    assert_eq!(
        err.to_string(),
        "query fetch failed (query_id: query-123): rate-limit reset delay exceeds the 30s retry cap: HTTP 429"
    );
    assert_eq!(err.messages().last().unwrap(), "HTTP 429");
    let err = failure_report(ErrorChain::new("HTTP 503".into()), "q", false);
    assert_eq!(err.to_string(), "query fetch failed (query_id: q): HTTP 503");
}

#[test]
fn a_fetch_retries_at_most_five_times() {
    let mut state = RetryState::new();
    let mut sleeps = Vec::new();
    loop {
        let (next, action) = next_retry(state, Some(429), ResetHeader::Absent, 999);
        state = next;
        match action {
            RetryAction::Sleep(d) => sleeps.push(d),
            _ => break,
        }
    }
    assert_eq!(sleeps.len(), 5);
    assert!(sleeps.iter().all(|d| *d <= 30_000_000_000));
    assert_eq!(sleeps[0], 2_999_000_000);
}

#[test]
fn poll_decisions() {
    assert!(matches!(poll_step(Ok(None), true, "q"), PollAction::Done));
    assert!(matches!(poll_step(Ok(Some("q2".into())), false, "q"), PollAction::Poll(id) if id == "q2"));
    match poll_step(Err(ErrorChain::new("bad status".into())), true, "q-9") {
        PollAction::Fail(e) => assert_eq!(e.to_string(), "query fetch failed (query_id: q-9): bad status"),
        other => panic!("failure expected, got {other:?}"),
    }
    match poll_step(Err(ErrorChain::new("bad status".into())), false, "q-9") {
        PollAction::Fail(e) => assert_eq!(e.to_string(), "bad status"),
        other => panic!("failure expected, got {other:?}"),
    }
}
