//! DDSQL query polling: when a failed fetch is retried, how long to wait, and
//! how fetch failures are reported. Durations are in nanoseconds.
use vstd::prelude::*;

use crate::chain::ErrorChain;
use crate::text::{concat2, concat3};

verus! {

/// The longest wait between fetch attempts: 30 seconds.
pub const MAX_RETRY_DELAY_NS: u64 = 30_000_000_000;

/// One second.
pub const SECOND_NS: u64 = 1_000_000_000;

/// One millisecond.
pub const MILLI_NS: u64 = 1_000_000;

/// How many times a failed fetch with an HTTP status is retried: five times
/// when rate limited (429), twice for a server error (500, 502, 503, 504), and
/// not at all otherwise.
pub open spec fn retry_limit(status: u16) -> Option<nat> {
    if status == 429 {
        Some(5)
    } else if status == 500 || status == 502 || status == 503 || status == 504 {
        Some(2)
    } else {
        None
    }
}

/// How many times a failed fetch is retried (see [`retry_limit`]).
pub fn max_retry_count(status: u16) -> (r: Option<usize>)
    ensures
        match (r, retry_limit(status)) {
            (Some(a), Some(b)) => a == b,
            (None, None) => true,
            _ => false,
        },
{
    if status == 429 {
        Some(5)
    } else if status == 500 || status == 502 || status == 503 || status == 504 {
        Some(2)
    } else {
        None
    }
}

/// The first wait of a retryable status: two seconds when rate limited, one
/// second for a server error.
pub fn initial_retry_base(status: u16) -> (r: u64)
    requires
        retry_limit(status) is Some,
    ensures
        r == if status == 429 {
            2 * SECOND_NS
        } else {
            SECOND_NS as int
        },
{
    if status == 429 {
        2 * SECOND_NS
    } else {
        SECOND_NS
    }
}

/// The wait before a retry: the rate-limit reset when there is one, else the
/// exponential base, plus the jitter, and never more than 30 seconds.
pub open spec fn delay_spec(base: int, header: Option<u64>, jitter: int) -> int {
    let d = match header {
        Some(h) => h as int,
        None => base,
    } + jitter;
    if d < MAX_RETRY_DELAY_NS {
        d
    } else {
        MAX_RETRY_DELAY_NS as int
    }
}

/// The wait before a retry (see [`delay_spec`]).
pub fn retry_delay(base: u64, header: Option<u64>, jitter: u64) -> (r: u64)
    ensures
        r == delay_spec(base as int, header, jitter as int),
        r <= MAX_RETRY_DELAY_NS,
{
    let d = match header {
        Some(h) => h,
        None => base,
    };
    let total = d.saturating_add(jitter);
    if total < MAX_RETRY_DELAY_NS {
        total
    } else {
        MAX_RETRY_DELAY_NS
    }
}

/// The retries of one fetch so far: how many were made, and the exponential
/// base fixed by the first failure (doubled after each retry).
#[derive(Clone, Copy, Debug, PartialEq, Eq)]
pub struct RetryState {
    pub attempted: usize,
    pub base: Option<u64>,
}

impl RetryState {
    /// No retry made yet.
    pub fn new() -> (r: RetryState)
        ensures
            r.attempted == 0,
            r.base is None,
    {
        RetryState { attempted: 0, base: None }
    }
}

/// What the rate-limit headers of a failed fetch say, read from their decimal
/// values: nothing usable, a reset beyond the retry cap, or a reset to wait for.
#[derive(Clone, Copy, Debug, PartialEq, Eq)]
pub enum ResetHeader {
    Absent,
    OverCap,
    Delay(u64),
}

/// What to do after a failed fetch.
#[derive(Clone, Copy, Debug, PartialEq, Eq)]
pub enum RetryAction {
    /// Give up and report the failure.
    Fail,
    /// Give up: the rate-limit reset is longer than the retry cap.
    FailOverCap,
    /// Wait this long, then fetch again.
    Sleep(u64),
}

/// The decision after a failed fetch whose HTTP status is `status` (none for a
/// failure without one). A failure is retried while its status allows more
/// retries; the wait starts from the base fixed by the first failure, or the
/// rate-limit reset of a 429, plus up to 999ms of jitter; the base then doubles,
/// up to 30 seconds.
pub open spec fn retry_step(
    state: RetryState,
    status: Option<u16>,
    header: ResetHeader,
    jitter_ms: u64,
) -> (RetryState, RetryAction) {
    match status {
        None => (state, RetryAction::Fail),
        Some(s) => match retry_limit(s) {
            None => (state, RetryAction::Fail),
            Some(max) => if state.attempted >= max {
                (state, RetryAction::Fail)
            } else {
                let base: int = match state.base {
                    Some(b) => b as int,
                    None => if s == 429 {
                        2 * SECOND_NS
                    } else {
                        SECOND_NS as int
                    },
                };
                if s == 429 && matches!(header, ResetHeader::OverCap) {
                    (state, RetryAction::FailOverCap)
                } else {
                    let h = if s == 429 {
                        match header {
                            ResetHeader::Delay(d) => Some(d),
                            _ => None,
                        }
                    } else {
                        None
                    };
                    let jitter = (if jitter_ms < 999 {
                        jitter_ms as int
                    } else {
                        999
                    }) * MILLI_NS;
                    let next = if 2 * base < MAX_RETRY_DELAY_NS {
                        2 * base
                    } else {
                        MAX_RETRY_DELAY_NS as int
                    };
                    (
                        RetryState { attempted: (state.attempted + 1) as usize, base: Some(next as u64) },
                        RetryAction::Sleep(delay_spec(base, h, jitter) as u64),
                    )
                }
            },
        },
    }
}

/// The decision after a failed fetch (see [`retry_step`]).
pub fn next_retry(state: RetryState, status: Option<u16>, header: ResetHeader, jitter_ms: u64) -> (r: (
    RetryState,
    RetryAction,
))
    requires
        state.base matches Some(b) ==> b <= MAX_RETRY_DELAY_NS,
    ensures
        r == retry_step(state, status, header, jitter_ms),
        r.1 matches RetryAction::Sleep(d) ==> d <= MAX_RETRY_DELAY_NS,
        r.0.base matches Some(b) ==> b <= MAX_RETRY_DELAY_NS,
{
    let s = match status {
        None => {
            return (state, RetryAction::Fail);
        },
        Some(s) => s,
    };
    let max = match max_retry_count(s) {
        None => {
            return (state, RetryAction::Fail);
        },
        Some(m) => m,
    };
    if state.attempted >= max {
        return (state, RetryAction::Fail);
    }
    let base = match state.base {
        Some(b) => b,
        None => initial_retry_base(s),
    };
    if s == 429 && matches!(header, ResetHeader::OverCap) {
        return (state, RetryAction::FailOverCap);
    }
    let h = if s == 429 {
        match header {
            ResetHeader::Delay(d) => Some(d),
            _ => None,
        }
    } else {
        None
    };
    let capped = if jitter_ms < 999 {
        jitter_ms
    } else {
        999
    };
    let delay = retry_delay(base, h, capped * MILLI_NS);
    let next = if base < MAX_RETRY_DELAY_NS / 2 {
        2 * base
    } else {
        MAX_RETRY_DELAY_NS
    };
    (RetryState { attempted: state.attempted + 1, base: Some(next) }, RetryAction::Sleep(delay))
}

/// The report of a failed fetch: the failure with the query it was for.
pub fn fetch_error(error: ErrorChain, query_id: &str) -> (r: ErrorChain)
    ensures
        error.chain().len() > 0,
        r.chain() == seq!["query fetch failed (query_id: "@ + query_id@ + "): "@ + error.chain()[0]]
            + error.chain(),
{
    let top = error.to_string();
    let message = concat3("query fetch failed (query_id: ", query_id, "): ");
    error.context(concat2(message.as_str(), top.as_str()))
}

/// The report of a failed fetch with what stopped the retries.
pub fn fetch_error_with_detail(error: ErrorChain, query_id: &str, detail: &str) -> (r: ErrorChain)
    ensures
        error.chain().len() > 0,
        r.chain() == seq![
            "query fetch failed (query_id: "@ + query_id@ + "): "@ + detail@ + ": "@
                + error.chain()[0],
        ] + error.chain(),
{
    let top = error.to_string();
    let head = concat3("query fetch failed (query_id: ", query_id, "): ");
    let head = concat3(head.as_str(), detail, ": ");
    error.context(concat2(head.as_str(), top.as_str()))
}

/// The report a fetch gives up with: after `FailOverCap` (`over_cap`) it says
/// that the rate-limit reset is beyond the retry cap; after `Fail` it reports
/// the failure as it is. The failure stays beneath the added context.
pub fn failure_report(error: ErrorChain, query_id: &str, over_cap: bool) -> (r: ErrorChain)
    ensures
        error.chain().len() > 0,
        r.chain() == seq![
            "query fetch failed (query_id: "@ + query_id@ + "): "@ + (if over_cap {
                "rate-limit reset delay exceeds the 30s retry cap: "@
            } else {
                Seq::<char>::empty()
            }) + error.chain()[0],
        ] + error.chain(),
{
    if over_cap {
        let r = fetch_error_with_detail(error, query_id, "rate-limit reset delay exceeds the 30s retry cap");
        proof {
            reveal_strlit(": ");
        }
        assert(r.chain()[0] =~= "query fetch failed (query_id: "@ + query_id@ + "): "@
            + "rate-limit reset delay exceeds the 30s retry cap: "@ + error.chain()[0]) by {
            reveal_strlit("rate-limit reset delay exceeds the 30s retry cap");
            reveal_strlit("rate-limit reset delay exceeds the 30s retry cap: ");
        }
        r
    } else {
        let ghost c = error.chain();
        let r = fetch_error(error, query_id);
        assert(r.chain()[0] =~= "query fetch failed (query_id: "@ + query_id@ + "): "@
            + Seq::<char>::empty() + c[0]);
        r
    }
}

/// A status is retried exactly as many times as its limit allows: every failure
/// before the limit is followed by a wait, and the one at the limit is reported.
pub proof fn law_retries_stop_at_the_limit(
    state: RetryState,
    s: u16,
    header: ResetHeader,
    jitter_ms: u64,
)
    requires
        retry_limit(s) is Some,
        !(s == 429 && header == ResetHeader::OverCap),
    ensures
        state.attempted < retry_limit(s)->0 ==> retry_step(state, Some(s), header, jitter_ms).1 is Sleep
            && retry_step(state, Some(s), header, jitter_ms).0.attempted == state.attempted + 1,
        state.attempted >= retry_limit(s)->0 ==> retry_step(state, Some(s), header, jitter_ms).1
            == RetryAction::Fail,
{
}

/// The exponential base never shrinks and never exceeds the cap; the first
/// failure fixes it and later statuses do not change it.
pub proof fn law_base_doubles_up_to_the_cap(
    state: RetryState,
    s: u16,
    header: ResetHeader,
    jitter_ms: u64,
)
    requires
        state.base matches Some(b) ==> b <= MAX_RETRY_DELAY_NS,
    ensures
        ({
            let (next, action) = retry_step(state, Some(s), header, jitter_ms);
            action is Sleep ==> {
                &&& next.base matches Some(nb) && nb <= MAX_RETRY_DELAY_NS
                &&& state.base matches Some(b) ==> (next.base->0 == if 2 * b
                    < MAX_RETRY_DELAY_NS {
                    2 * b
                } else {
                    MAX_RETRY_DELAY_NS as int
                })
            }
        }),
{
}


/// What a query run does with the status read from a response.
#[derive(Debug)]
pub enum PollAction {
    /// The query is complete: the response is the result.
    Done,
    /// The query is still running: fetch it again under this id.
    Poll(String),
    /// The status could not be read: stop with this error.
    Fail(ErrorChain),
}

/// The decision after a response: done when it carries no query id, poll again
/// with the id it carries, or stop with the error of reading its status. After
/// the first request (`polling` false) that error is reported as it is; after
/// a fetch of `query_id` it is reported as a failed fetch of that query.
pub fn poll_step(status: Result<Option<String>, ErrorChain>, polling: bool, query_id: &str) -> (r: PollAction)
    ensures
        match status {
            Ok(None) => r is Done,
            Ok(Some(id)) => r matches PollAction::Poll(next) && next == id,
            Err(e) => r matches PollAction::Fail(f) && if polling {
                e.chain().len() > 0 && f.chain() == seq![
                    "query fetch failed (query_id: "@ + query_id@ + "): "@ + e.chain()[0],
                ] + e.chain()
            } else {
                f.chain() == e.chain()
            },
        },
{
    match status {
        Ok(None) => PollAction::Done,
        Ok(Some(id)) => PollAction::Poll(id),
        Err(e) => if polling {
            PollAction::Fail(fetch_error(e, query_id))
        } else {
            PollAction::Fail(e)
        },
    }
}

/// A rate-limited fetch (429) is retried five times and a server or gateway
/// error (500, 502, 503, 504) twice: each such failure before the limit is
/// followed by a wait, and the one at the limit is reported. Any other status
/// is reported at once.
pub proof fn law_retried_statuses(state: RetryState, s: u16, header: ResetHeader, jitter_ms: u64)
    requires
        !(s == 429 && header == ResetHeader::OverCap),
    ensures
        (s == 500 || s == 502 || s == 503 || s == 504) ==> retry_limit(s) == Some(2nat)
            && (retry_step(state, Some(s), header, jitter_ms).1 is Sleep <==> state.attempted < 2),
        s == 429 ==> retry_limit(s) == Some(5nat) && (retry_step(state, Some(s), header, jitter_ms).1 is Sleep
            <==> state.attempted < 5),
        !(s == 429 || s == 500 || s == 502 || s == 503 || s == 504) ==> retry_limit(s) is None
            && retry_step(state, Some(s), header, jitter_ms).1 == RetryAction::Fail,
{
}

/// The waits of one fetch over a run of failures (each with its status, its
/// rate-limit reset and the jitter drawn), taken in order until a failure is
/// not retried.
pub open spec fn retry_sleeps(state: RetryState, failures: Seq<(Option<u16>, ResetHeader, u64)>) -> Seq<u64>
    decreases failures.len(),
{
    if failures.len() == 0 {
        Seq::empty()
    } else {
        let (next, action) = retry_step(state, failures[0].0, failures[0].1, failures[0].2);
        match action {
            RetryAction::Sleep(d) => seq![d] + retry_sleeps(next, failures.drop_first()),
            _ => Seq::empty(),
        }
    }
}

proof fn lemma_retry_sleeps_bounded(state: RetryState, failures: Seq<(Option<u16>, ResetHeader, u64)>)
    requires
        state.attempted <= 5,
        state.base matches Some(b) ==> b <= MAX_RETRY_DELAY_NS,
    ensures
        retry_sleeps(state, failures).len() + state.attempted <= 5,
        forall|k: int| 0 <= k < retry_sleeps(state, failures).len() ==> #[trigger] retry_sleeps(state, failures)[k]
            <= MAX_RETRY_DELAY_NS,
    decreases failures.len(),
{
    if failures.len() > 0 {
        let (next, action) = retry_step(state, failures[0].0, failures[0].1, failures[0].2);
        if action is Sleep {
            law_base_doubles_up_to_the_cap(state, failures[0].0->0, failures[0].1, failures[0].2);
            lemma_retry_sleeps_bounded(next, failures.drop_first());
            let rest = retry_sleeps(next, failures.drop_first());
            assert forall|k: int| 0 <= k < retry_sleeps(state, failures).len() implies #[trigger] retry_sleeps(
                state,
                failures,
            )[k] <= MAX_RETRY_DELAY_NS by {
                if k > 0 {
                    assert(retry_sleeps(state, failures)[k] == rest[k - 1]);
                }
            }
        }
    }
}

/// The state of a fetch before its first failure.
pub open spec fn fresh_retry_state() -> RetryState {
    RetryState { attempted: 0, base: None }
}

/// However the fetches fail, one fetch waits at most five times (so posts at
/// most six times), and never longer than 30 seconds at a time.
pub proof fn law_a_fetch_retries_at_most_five_times(failures: Seq<(Option<u16>, ResetHeader, u64)>)
    ensures
        retry_sleeps(fresh_retry_state(), failures).len() <= 5,
        forall|k: int| 0 <= k < retry_sleeps(fresh_retry_state(), failures).len()
            ==> #[trigger] retry_sleeps(fresh_retry_state(), failures)[k]
            <= MAX_RETRY_DELAY_NS,
{
    lemma_retry_sleeps_bounded(fresh_retry_state(), failures);
}

} // verus!
