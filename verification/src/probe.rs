//! The API health checker: which request each probe target gets, and
//! the retry-until-threshold policy that declares a target failed for
//! a cycle.
//!
//! The checker's outbound HTTP lives with the caller; the library
//! takes each attempt's outcome as a value and decides what follows.

use vstd::prelude::*;
use std::collections::HashMap;
use crate::forward::{spec_is_success, is_success_status};

verus! {

/// One probe target: URL, HTTP method, and an optional request body
/// of key-value pairs.  Loaded once at boot, never mutated.
#[derive(Debug, Clone)]
pub struct Api {
    pub url: String,
    pub method: String,
    pub body: Option<HashMap<String, String>>,
}

/// The probe list and the process-wide probe parameters: cycle
/// interval, per-request timeout, and the retry budget after a failed
/// first attempt.
#[derive(Debug)]
pub struct ApiConfig {
    pub apis: Vec<Api>,
    pub check_interval_ms: u64,
    pub timeout_ms: u64,
    pub failure_threshold: u32,
}

/// Character-for-character equality of two strings.
pub fn str_eq(a: &str, b: &str) -> (r: bool)
    ensures
        r == (a@ == b@),
{
    let a_len = a.unicode_len();
    let b_len = b.unicode_len();
    if a_len != b_len {
        return false;
    }
    let mut i: usize = 0;
    while i < a_len
        invariant
            a_len == a@.len(),
            b_len == b@.len(),
            a_len == b_len,
            i <= a_len,
            forall|j: int| 0 <= j < i ==> a@[j] == b@[j],
        decreases a_len - i,
    {
        if a.get_char(i) != b.get_char(i) {
            return false;
        }
        i += 1;
    }
    proof {
        assert(a@ =~= b@);
    }
    true
}

/// The request a probe target's first attempt issues.
#[derive(Debug, Clone, Copy, PartialEq, Eq, Structural)]
pub enum ProbeRequest {
    /// A plain GET of the target's URL.
    Get,
    /// A POST of the target's body to its URL.
    Post,
}

/// The first request owed to a target: a GET for method `"GET"`, a
/// POST for method `"POST"`, and none at all for any other method —
/// such a target is silently skipped.
pub fn first_request(method: &str) -> (r: Option<ProbeRequest>)
    ensures
        method@ == "GET"@ ==> r == Some(ProbeRequest::Get),
        method@ == "POST"@ ==> r == Some(ProbeRequest::Post),
        method@ != "GET"@ && method@ != "POST"@ ==> r is None,
{
    proof {
        reveal_strlit("GET");
        reveal_strlit("POST");
        assert("GET"@.len() == 3);
        assert("POST"@.len() == 4);
    }
    if str_eq(method, "GET") {
        Some(ProbeRequest::Get)
    } else if str_eq(method, "POST") {
        Some(ProbeRequest::Post)
    } else {
        None
    }
}

/// How one probe attempt went.
#[derive(Debug, Clone, Copy, PartialEq, Eq, Structural)]
pub enum AttemptOutcome {
    /// The target answered with a status code.
    Delivered { status: u16 },
    /// The attempt timed out; logged apart, but no more a success
    /// than any other failure.
    TimedOut,
    /// The attempt failed in transport.
    TransportFailed,
}

/// An attempt counts as passed exactly when the target answered with
/// a success status.
pub open spec fn attempt_passed(o: AttemptOutcome) -> bool {
    o matches AttemptOutcome::Delivered { status } && spec_is_success(status)
}

/// Where a target stands within one probe cycle.
#[derive(Debug, Clone, Copy, PartialEq, Eq, Structural)]
pub enum ProbeState {
    /// The target has failed so far; `remaining` retries are left.
    Retrying { remaining: u32 },
    /// Some attempt succeeded; the target is not failed this cycle.
    Passed,
    /// The first attempt and every retry in the budget failed; the
    /// target is declared failed for this cycle.
    Failed,
}

/// A reachable state never holds an exhausted retry counter.
pub open spec fn state_wf(s: ProbeState) -> bool {
    s matches ProbeState::Retrying { remaining } ==> remaining > 0
}

/// The state after a target's first attempt: passed on success;
/// otherwise the retry budget opens, and a budget of zero fails the
/// target outright.
pub open spec fn spec_after_first(o: AttemptOutcome, threshold: u32) -> ProbeState {
    if attempt_passed(o) {
        ProbeState::Passed
    } else if threshold == 0 {
        ProbeState::Failed
    } else {
        ProbeState::Retrying { remaining: threshold }
    }
}

/// The state after one retry: passed on success; otherwise one fewer
/// retry is left, and running out of retries fails the target.
pub open spec fn spec_after_retry(remaining: u32, o: AttemptOutcome) -> ProbeState {
    if attempt_passed(o) {
        ProbeState::Passed
    } else if remaining <= 1 {
        ProbeState::Failed
    } else {
        ProbeState::Retrying { remaining: (remaining - 1) as u32 }
    }
}

/// Feeds the outcome of a target's first attempt into the cycle's
/// state for that target.
pub fn after_first_attempt(o: &AttemptOutcome, threshold: u32) -> (s: ProbeState)
    ensures
        s == spec_after_first(*o, threshold),
        state_wf(s),
{
    let passed = match o {
        AttemptOutcome::Delivered { status } => is_success_status(*status),
        _ => false,
    };
    if passed {
        ProbeState::Passed
    } else if threshold == 0 {
        ProbeState::Failed
    } else {
        ProbeState::Retrying { remaining: threshold }
    }
}

/// Feeds the outcome of one retry into the target's state.
pub fn after_retry_attempt(s: &ProbeState, o: &AttemptOutcome) -> (t: ProbeState)
    requires
        s is Retrying,
        state_wf(*s),
    ensures
        (s matches ProbeState::Retrying { remaining } ==> t == spec_after_retry(*remaining, *o)),
        state_wf(t),
{
    let passed = match o {
        AttemptOutcome::Delivered { status } => is_success_status(*status),
        _ => false,
    };
    match s {
        ProbeState::Retrying { remaining } => {
            if passed {
                ProbeState::Passed
            } else if *remaining <= 1 {
                ProbeState::Failed
            } else {
                ProbeState::Retrying { remaining: *remaining - 1 }
            }
        },
        _ => ProbeState::Failed,
    }
}

impl ProbeState {
    /// Whether the cycle is done with this target: no retry is owed
    /// once it has passed or failed.
    pub fn is_settled(&self) -> (r: bool)
        ensures
            r == !(self is Retrying),
    {
        match self {
            ProbeState::Retrying { .. } => false,
            _ => true,
        }
    }

    /// Whether the target is reported failed: exactly in the failed
    /// state, reached once per cycle at most.
    pub fn should_alert(&self) -> (r: bool)
        ensures
            r == (self is Failed),
    {
        match self {
            ProbeState::Failed => true,
            _ => false,
        }
    }
}

/// Runs the retry policy from a state over a sequence of attempt
/// outcomes, stopping as soon as the target settles.
pub open spec fn spec_run_retries(s: ProbeState, events: Seq<AttemptOutcome>) -> ProbeState
    decreases events.len(),
{
    match s {
        ProbeState::Retrying { remaining } => {
            if events.len() == 0 {
                s
            } else {
                spec_run_retries(spec_after_retry(remaining, events[0]), events.drop_first())
            }
        },
        _ => s,
    }
}

/// The retry policy in one sentence: with `remaining` retries left
/// and at least that many outcomes supplied, the target passes
/// exactly when some retry within the budget succeeds, and is
/// declared failed exactly when every retry within the budget fails.
/// The sub-loop stops at the first success.
pub proof fn lemma_retry_verdict(remaining: u32, events: Seq<AttemptOutcome>)
    requires
        remaining > 0,
        events.len() >= remaining,
    ensures
        spec_run_retries(ProbeState::Retrying { remaining }, events) is Passed <==> (exists|i: int|
            0 <= i < remaining && attempt_passed(events[i])),
        spec_run_retries(ProbeState::Retrying { remaining }, events) is Failed <==> (forall|i: int|
            0 <= i < remaining ==> !attempt_passed(events[i])),
    decreases remaining,
{
    let s0 = ProbeState::Retrying { remaining };
    if attempt_passed(events[0]) {
        assert(spec_after_retry(remaining, events[0]) == ProbeState::Passed);
        assert(spec_run_retries(ProbeState::Passed, events.drop_first()) == ProbeState::Passed);
        assert(spec_run_retries(s0, events) == ProbeState::Passed);
    } else if remaining == 1 {
        assert(spec_after_retry(remaining, events[0]) == ProbeState::Failed);
        assert(spec_run_retries(ProbeState::Failed, events.drop_first()) == ProbeState::Failed);
        assert(spec_run_retries(s0, events) == ProbeState::Failed);
        assert(forall|i: int| 0 <= i < 1 ==> !attempt_passed(events[i]));
    } else {
        let rest = events.drop_first();
        lemma_retry_verdict((remaining - 1) as u32, rest);
        assert(spec_after_retry(remaining, events[0]) == ProbeState::Retrying {
            remaining: (remaining - 1) as u32,
        });
        assert(spec_run_retries(s0, events) == spec_run_retries(
            ProbeState::Retrying { remaining: (remaining - 1) as u32 },
            rest,
        ));
        assert(forall|i: int| 0 <= i < remaining - 1 ==> rest[i] == events[i + 1]);
        if exists|i: int| 0 <= i < remaining - 1 && attempt_passed(rest[i]) {
            let i = choose|i: int| 0 <= i < remaining - 1 && attempt_passed(rest[i]);
            assert(attempt_passed(events[i + 1]));
        }
        if exists|i: int| 0 <= i < remaining && attempt_passed(events[i]) {
            let i = choose|i: int| 0 <= i < remaining && attempt_passed(events[i]);
            assert(i >= 1);
            assert(attempt_passed(rest[i - 1]));
        }
    }
}

/// A target that fails its first attempt but succeeds on some retry
/// within the budget is not reported failed for the cycle.
pub proof fn lemma_retry_success_not_failed(
    first: AttemptOutcome,
    threshold: u32,
    events: Seq<AttemptOutcome>,
    i: int,
)
    requires
        !attempt_passed(first),
        events.len() >= threshold,
        0 <= i < threshold,
        attempt_passed(events[i]),
    ensures
        spec_run_retries(spec_after_first(first, threshold), events) == ProbeState::Passed,
{
    lemma_retry_verdict(threshold, events);
}

/// Occurrences of a value in a sequence.
pub open spec fn count_of(s: Seq<usize>, x: usize) -> nat
    decreases s.len(),
{
    if s.len() == 0 {
        0
    } else {
        count_of(s.drop_last(), x) + if s.last() == x {
            1nat
        } else {
            0nat
        }
    }
}

/// The indices of the targets a cycle reports failed, in probe order.
pub open spec fn spec_failed_indices(states: Seq<ProbeState>) -> Seq<usize>
    decreases states.len(),
{
    if states.len() == 0 {
        Seq::empty()
    } else {
        spec_failed_indices(states.drop_last()) + if states.last() is Failed {
            seq![(states.len() - 1) as usize]
        } else {
            Seq::<usize>::empty()
        }
    }
}

/// Collects the cycle's failure reports: the indices of the targets
/// whose state settled on failed, each once, in order.
pub fn collect_failures(states: &Vec<ProbeState>) -> (r: Vec<usize>)
    ensures
        r@ == spec_failed_indices(states@),
{
    let mut r: Vec<usize> = Vec::new();
    let mut i: usize = 0;
    while i < states.len()
        invariant
            i <= states@.len(),
            r@ == spec_failed_indices(states@.subrange(0, i as int)),
        decreases states@.len() - i,
    {
        proof {
            let pre = states@.subrange(0, i as int);
            let post = states@.subrange(0, i + 1);
            assert(post.drop_last() =~= pre);
            assert(post.last() == states@[i as int]);
            if states@[i as int] is Failed {
                assert(spec_failed_indices(post) =~= spec_failed_indices(pre) + seq![i]);
            } else {
                assert(spec_failed_indices(post) =~= spec_failed_indices(pre));
            }
        }
        let alert = states[i].should_alert();
        if alert {
            r.push(i);
        }
        i += 1;
    }
    proof {
        assert(states@.subrange(0, states@.len() as int) =~= states@);
    }
    r
}

/// Every index a cycle reports belongs to a probed target.
pub proof fn lemma_failed_indices_in_range(states: Seq<ProbeState>)
    ensures
        forall|k: int| #![auto] 0 <= k < spec_failed_indices(states).len()
            ==> spec_failed_indices(states)[k] < states.len(),
    decreases states.len(),
{
    if states.len() > 0 {
        lemma_failed_indices_in_range(states.drop_last());
        let f = spec_failed_indices(states);
        let fd = spec_failed_indices(states.drop_last());
        assert forall|k: int| 0 <= k < f.len() implies #[trigger] f[k] < states.len() by {
            if k < fd.len() {
                assert(f[k] == fd[k]);
            } else {
                assert(f[k] == (states.len() - 1) as usize);
            }
        };
    }
}

/// Counting distributes over concatenation.
proof fn lemma_count_of_add(a: Seq<usize>, b: Seq<usize>, x: usize)
    ensures
        count_of(a + b, x) == count_of(a, x) + count_of(b, x),
    decreases b.len(),
{
    if b.len() == 0 {
        assert(a + b =~= a);
    } else {
        lemma_count_of_add(a, b.drop_last(), x);
        assert((a + b).drop_last() =~= a + b.drop_last());
        assert((a + b).last() == b.last());
    }
}

/// A target that fails is reported exactly once in its cycle, and one
/// that does not fail is not reported at all — whatever became of the
/// other targets.
pub proof fn lemma_failed_reported_once(states: Seq<ProbeState>, j: usize)
    requires
        j < states.len(),
        states.len() <= usize::MAX,
    ensures
        count_of(spec_failed_indices(states), j) == if states[j as int] is Failed {
            1nat
        } else {
            0nat
        },
    decreases states.len(),
{
    let head = states.drop_last();
    let tail_reports: Seq<usize> = if states.last() is Failed {
        seq![(states.len() - 1) as usize]
    } else {
        Seq::<usize>::empty()
    };
    lemma_count_of_add(spec_failed_indices(head), tail_reports, j);
    assert(count_of(Seq::<usize>::empty(), j) == 0);
    if j < states.len() - 1 {
        lemma_failed_reported_once(head, j);
        assert(count_of(tail_reports, j) == 0) by {
            if states.last() is Failed {
                assert(tail_reports.drop_last() =~= Seq::<usize>::empty());
                assert(tail_reports.last() == (states.len() - 1) as usize);
                assert((states.len() - 1) as usize != j);
            }
        };
    } else {
        assert(j == states.len() - 1);
        lemma_failed_indices_in_range(head);
        assert(count_of(spec_failed_indices(head), j) == 0) by {
            lemma_count_of_none(spec_failed_indices(head), j, head.len());
        };
        if states.last() is Failed {
            assert(tail_reports.drop_last() =~= Seq::<usize>::empty());
            assert(count_of(tail_reports, j) == 1);
        }
    }
}

/// A value at or past every element's bound does not occur.
proof fn lemma_count_of_none(s: Seq<usize>, x: usize, bound: nat)
    requires
        forall|k: int| #![auto] 0 <= k < s.len() ==> s[k] < bound,
        x >= bound,
    ensures
        count_of(s, x) == 0,
    decreases s.len(),
{
    if s.len() > 0 {
        lemma_count_of_none(s.drop_last(), x, bound);
    }
}

} // verus!
