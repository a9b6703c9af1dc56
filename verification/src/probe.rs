//! The retry policy of one probe.
//!
//! A probe is a bounded state machine. The caller sends one GET request per
//! attempt and reports what came of it with [`Probe::on_attempt`]; the probe
//! answers with the outcome, or asks for another attempt after a pause. A
//! transport failure is retried until the retry budget is used up; an answer
//! of the endpoint, whatever its status code, ends the probe at once.

use crate::status::{action_view, WebsiteStatus, WebsiteStatusView};
use vstd::prelude::*;

verus! {

/// The pause before another attempt, in milliseconds.
pub const BACKOFF_MS: u64 = 100;

/// What one attempt came to.
#[derive(Debug, PartialEq, Eq)]
pub struct Attempt {
    /// The status code of the answer, or the description of the transport
    /// failure.
    pub result: Result<u16, String>,
    /// Whole milliseconds from the start of the probe's first attempt to the
    /// end of this one.
    pub elapsed_ms: u128,
    /// Whole seconds from the Unix epoch to the end of this attempt, or
    /// nothing if that moment lies before the epoch.
    pub observed_at: Option<u64>,
}

pub struct AttemptView {
    pub result: Result<u16, Seq<char>>,
    pub elapsed_ms: u128,
    pub observed_at: Option<u64>,
}

impl View for Attempt {
    type V = AttemptView;

    open spec fn view(&self) -> AttemptView {
        AttemptView {
            result: action_view(self.result),
            elapsed_ms: self.elapsed_ms,
            observed_at: self.observed_at,
        }
    }
}

/// A probe that waits for the result of its next attempt.
#[derive(Debug, PartialEq, Eq)]
pub struct Probe {
    url: String,
    retry_budget: u32,
    failures: u32,
}

pub struct ProbeView {
    pub url: Seq<char>,
    /// The number of attempts allowed after the first.
    pub retry_budget: nat,
    /// The number of attempts that failed so far.
    pub failures: nat,
}

impl View for Probe {
    type V = ProbeView;

    closed spec fn view(&self) -> ProbeView {
        ProbeView {
            url: self.url@,
            retry_budget: self.retry_budget as nat,
            failures: self.failures as nat,
        }
    }
}

/// What a probe does after an attempt.
#[derive(Debug, PartialEq, Eq)]
pub enum ProbeStep {
    /// Pause for `backoff_ms` milliseconds, then make another attempt and
    /// report it to `probe`.
    Retry { probe: Probe, backoff_ms: u64 },
    /// The probe is over; this is its outcome.
    Done(WebsiteStatus),
}

pub enum ProbeStepView {
    Retry(ProbeView),
    Done(WebsiteStatusView),
}

impl View for ProbeStep {
    type V = ProbeStepView;

    open spec fn view(&self) -> ProbeStepView {
        match self {
            ProbeStep::Retry { probe, backoff_ms } => ProbeStepView::Retry(probe@),
            ProbeStep::Done(status) => ProbeStepView::Done(status@),
        }
    }
}

/// How far a probe got on a series of attempts.
pub enum ProbeRun {
    /// Every attempt of the series failed and the budget allows another.
    Pending(ProbeView),
    /// The probe ended with `status` after `attempts_made` attempts in all.
    Finished { status: WebsiteStatusView, attempts_made: nat },
}

/// A probe of `url` before its first attempt.
pub open spec fn fresh(url: Seq<char>, retry_budget: nat) -> ProbeView {
    ProbeView { url, retry_budget, failures: 0 }
}

/// The outcome of the probe `p` when `attempt` is its last.
pub open spec fn outcome(p: ProbeView, attempt: AttemptView) -> WebsiteStatusView {
    WebsiteStatusView {
        url: p.url,
        action_status: attempt.result,
        response_time_ms: attempt.elapsed_ms,
        timestamp: attempt.observed_at,
    }
}

/// The step of the probe `p` after `attempt`: an answer ends the probe, and so
/// does a failure once the budget is used up; any other failure is retried.
pub open spec fn step(p: ProbeView, attempt: AttemptView) -> ProbeStepView {
    if attempt.result is Err && p.failures < p.retry_budget {
        ProbeStepView::Retry(ProbeView { failures: p.failures + 1, ..p })
    } else {
        ProbeStepView::Done(outcome(p, attempt))
    }
}

/// How far the probe `p` gets on `attempts`, taken in order. Attempts after
/// the one that ends the probe are never made, so they do not count.
pub open spec fn run(p: ProbeView, attempts: Seq<AttemptView>) -> ProbeRun
    decreases attempts.len(),
{
    if attempts.len() == 0 {
        ProbeRun::Pending(p)
    } else {
        match step(p, attempts[0]) {
            ProbeStepView::Done(status) => ProbeRun::Finished {
                status,
                attempts_made: p.failures + 1,
            },
            ProbeStepView::Retry(next) => run(next, attempts.drop_first()),
        }
    }
}

/// As long as every attempt fails, a probe that has failed `p.failures` times
/// goes on until it has made one attempt more than its budget, and then
/// reports the failure of that last attempt.
pub proof fn lemma_failures_use_up_budget(p: ProbeView, attempts: Seq<AttemptView>)
    requires
        p.failures <= p.retry_budget,
        forall|i: int| 0 <= i < attempts.len() ==> (#[trigger] attempts[i]).result is Err,
    ensures
        p.failures + attempts.len() <= p.retry_budget ==> run(p, attempts) == ProbeRun::Pending(
            ProbeView { failures: p.failures + attempts.len(), ..p },
        ),
        p.failures + attempts.len() > p.retry_budget ==> run(p, attempts) == (ProbeRun::Finished {
            status: outcome(p, attempts[p.retry_budget - p.failures]),
            attempts_made: p.retry_budget + 1,
        }),
    decreases attempts.len(),
{
    if attempts.len() > 0 && p.failures < p.retry_budget {
        let next = ProbeView { failures: p.failures + 1, ..p };
        let rest = attempts.drop_first();
        lemma_failures_use_up_budget(next, rest);
        if p.failures + attempts.len() > p.retry_budget {
            assert(rest[next.retry_budget - next.failures] == attempts[p.retry_budget
                - p.failures]);
        }
    }
}

/// A probe always ends, whatever its attempts come to: one attempt more than
/// the budget is enough. Its outcome is about its own URL, and it is a failure
/// only when the budget was used up.
pub proof fn lemma_probe_ends(p: ProbeView, attempts: Seq<AttemptView>)
    requires
        p.failures <= p.retry_budget,
        p.failures + attempts.len() > p.retry_budget,
    ensures
        run(p, attempts) is Finished,
        run(p, attempts)->attempts_made <= p.retry_budget + 1,
        run(p, attempts)->status.url == p.url,
        run(p, attempts)->status.action_status is Err ==> run(p, attempts)->attempts_made
            == p.retry_budget + 1,
    decreases attempts.len(),
{
    match step(p, attempts[0]) {
        ProbeStepView::Retry(next) => {
            lemma_probe_ends(next, attempts.drop_first());
        },
        ProbeStepView::Done(_) => {},
    }
}

/// A request that always fails at transport level is attempted exactly one
/// time more than the retry budget, and the probe then reports the failure of
/// the last attempt: no series of fewer attempts ends the probe, and a series
/// of `retry_budget + 1` does.
pub proof fn lemma_always_failing(url: Seq<char>, retry_budget: nat, attempts: Seq<AttemptView>)
    requires
        attempts.len() > retry_budget,
        forall|i: int| 0 <= i < attempts.len() ==> (#[trigger] attempts[i]).result is Err,
    ensures
        run(fresh(url, retry_budget), attempts) == (ProbeRun::Finished {
            status: WebsiteStatusView {
                url,
                action_status: attempts[retry_budget as int].result,
                response_time_ms: attempts[retry_budget as int].elapsed_ms,
                timestamp: attempts[retry_budget as int].observed_at,
            },
            attempts_made: retry_budget + 1,
        }),
        forall|k: int|
            0 <= k <= retry_budget ==> #[trigger] run(fresh(url, retry_budget), attempts.take(k))
                is Pending,
{
    lemma_failures_use_up_budget(fresh(url, retry_budget), attempts);
    assert forall|k: int| 0 <= k <= retry_budget implies #[trigger] run(
        fresh(url, retry_budget),
        attempts.take(k),
    ) is Pending by {
        lemma_failures_use_up_budget(fresh(url, retry_budget), attempts.take(k));
    }
}

/// A request that is answered on attempt `k`, after `k - 1` failures that the
/// budget allows, ends the probe on that attempt: the outcome is the answer's
/// status code with the time measured up to the end of attempt `k`, and no
/// later attempt is made.
pub proof fn lemma_success_ends_probe(
    url: Seq<char>,
    retry_budget: nat,
    attempts: Seq<AttemptView>,
    k: nat,
)
    requires
        1 <= k <= retry_budget + 1,
        k <= attempts.len(),
        forall|i: int| 0 <= i < k - 1 ==> (#[trigger] attempts[i]).result is Err,
        attempts[k - 1].result is Ok,
    ensures
        run(fresh(url, retry_budget), attempts) == (ProbeRun::Finished {
            status: WebsiteStatusView {
                url,
                action_status: attempts[k - 1].result,
                response_time_ms: attempts[k - 1].elapsed_ms,
                timestamp: attempts[k - 1].observed_at,
            },
            attempts_made: k,
        }),
        run(fresh(url, retry_budget), attempts.take(k - 1)) is Pending,
{
    lemma_failures_use_up_budget(fresh(url, retry_budget), attempts.take(k - 1));
    lemma_run_continues(fresh(url, retry_budget), attempts.take(k - 1), attempts.skip(k - 1));
    assert(attempts.take(k - 1) + attempts.skip(k - 1) =~= attempts);
}

/// A probe that is still pending after `done` goes on with what follows.
pub proof fn lemma_run_continues(p: ProbeView, done: Seq<AttemptView>, more: Seq<AttemptView>)
    requires
        run(p, done) is Pending,
    ensures
        run(p, done + more) == run(run(p, done)->Pending_0, more),
    decreases done.len(),
{
    if done.len() == 0 {
        assert(done + more =~= more);
    } else {
        let next = step(p, done[0])->Retry_0;
        lemma_run_continues(next, done.drop_first(), more);
        assert((done + more).drop_first() =~= done.drop_first() + more);
        assert((done + more)[0] == done[0]);
    }
}

impl Probe {
    #[verifier::type_invariant]
    spec fn within_budget(&self) -> bool {
        self.failures <= self.retry_budget
    }

    /// A probe of `url` that allows `retry_budget` attempts after the first.
    pub fn new(url: String, retry_budget: u32) -> (probe: Probe)
        ensures
            probe@ == fresh(url@, retry_budget as nat),
    {
        Probe { url, retry_budget, failures: 0 }
    }

    /// The endpoint to send the next request to.
    pub fn url(&self) -> (url: &String)
        ensures
            url@ == self@.url,
    {
        &self.url
    }

    /// The number of attempts allowed after the first.
    pub fn retry_budget(&self) -> (n: u32)
        ensures
            n == self@.retry_budget,
    {
        self.retry_budget
    }

    /// The number of attempts made so far; all of them failed.
    pub fn attempts_made(&self) -> (n: u32)
        ensures
            n == self@.failures,
            n <= self@.retry_budget,
    {
        proof {
            use_type_invariant(self);
        }
        self.failures
    }

    /// Takes in the result of the attempt that was just made and decides how
    /// the probe goes on.
    pub fn on_attempt(self, attempt: Attempt) -> (next: ProbeStep)
        ensures
            next@ == step(self@, attempt@),
            next matches ProbeStep::Retry { probe, backoff_ms } ==> backoff_ms == BACKOFF_MS,
    {
        proof {
            use_type_invariant(&self);
        }
        let retry = match &attempt.result {
            Ok(_) => false,
            Err(_) => self.failures < self.retry_budget,
        };
        if retry {
            ProbeStep::Retry {
                probe: Probe {
                    url: self.url,
                    retry_budget: self.retry_budget,
                    failures: self.failures + 1,
                },
                backoff_ms: BACKOFF_MS,
            }
        } else {
            ProbeStep::Done(
                WebsiteStatus {
                    url: self.url,
                    action_status: attempt.result,
                    response_time_ms: attempt.elapsed_ms,
                    timestamp: attempt.observed_at,
                },
            )
        }
    }
}

} // verus!
