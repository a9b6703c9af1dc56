//! The worker pool, and what holds of every run of it.
//!
//! A worker repeats one decision, [`next_job`]: take a URL from the shared
//! queue and probe it, or leave when the queue is empty. The outcome of each
//! probe is forwarded to a single sink before the worker takes its next URL.
//!
//! The rest of this module is a model of the whole pool. Whatever the number
//! of workers and however their steps interleave, a run is a series of two
//! kinds of steps, each of them atomic: a worker claims (it takes from the
//! queue, as [`next_job`] does), or a worker delivers (the outcome of its
//! probe reaches the sink). The model is used to prove that every run ends
//! after a fixed number of steps, that no run gets stuck before that, and
//! that at the end every URL that was submitted has reached the sink exactly
//! once.

use crate::probe::{fresh, Probe};
use crate::queue::JobQueue;
use vstd::multiset::Multiset;
use vstd::prelude::*;

verus! {

/// What a worker does next.
#[derive(Debug, PartialEq, Eq)]
pub enum WorkerAction {
    /// Run this probe to its end and forward its outcome, then decide again.
    Probe(Probe),
    /// The queue is empty: leave the pool.
    Exit,
}

/// The decision of a worker that is free: it takes the URL at the front of
/// the queue, or leaves when there is none.
pub fn next_job(queue: &mut JobQueue, retry_budget: u32) -> (action: WorkerAction)
    ensures
        match action {
            WorkerAction::Probe(probe) => {
                &&& old(queue)@.len() > 0
                &&& probe@ == fresh(old(queue)@[0], retry_budget as nat)
                &&& final(queue)@ == old(queue)@.drop_first()
            },
            WorkerAction::Exit => old(queue)@.len() == 0 && final(queue)@ == old(queue)@,
        },
{
    match queue.take() {
        Some(url) => WorkerAction::Probe(Probe::new(url, retry_budget)),
        None => WorkerAction::Exit,
    }
}

/// A worker of the model.
pub enum WorkerState {
    /// About to take from the queue.
    Idle,
    /// Probing this URL; its outcome has not reached the sink yet.
    Busy(Seq<char>),
    /// Gone, after it found the queue empty.
    Exited,
}

/// The pool of the model: the queue, the workers, and the URLs whose outcomes
/// have reached the sink, in the order of their arrival.
pub struct PoolState {
    pub pending: Seq<Seq<char>>,
    pub workers: Seq<WorkerState>,
    pub delivered: Seq<Seq<char>>,
}

/// A step of the model, with the index of the worker that takes it.
pub enum PoolStep {
    Claim(int),
    Deliver(int),
}

/// The pool before its first step.
pub open spec fn initial(urls: Seq<Seq<char>>, worker_count: nat) -> PoolState {
    PoolState {
        pending: urls,
        workers: Seq::new(worker_count, |w: int| WorkerState::Idle),
        delivered: Seq::empty(),
    }
}

/// Tells whether `step` can be taken in `s`: only an idle worker claims, and
/// only a busy worker delivers.
pub open spec fn enabled(s: PoolState, step: PoolStep) -> bool {
    match step {
        PoolStep::Claim(w) => 0 <= w < s.workers.len() && s.workers[w] is Idle,
        PoolStep::Deliver(w) => 0 <= w < s.workers.len() && s.workers[w] is Busy,
    }
}

/// The pool after `step`.
pub open spec fn next(s: PoolState, step: PoolStep) -> PoolState {
    match step {
        PoolStep::Claim(w) => if s.pending.len() > 0 {
            PoolState {
                pending: s.pending.drop_first(),
                workers: s.workers.update(w, WorkerState::Busy(s.pending[0])),
                ..s
            }
        } else {
            PoolState { workers: s.workers.update(w, WorkerState::Exited), ..s }
        },
        PoolStep::Deliver(w) => PoolState {
            workers: s.workers.update(w, WorkerState::Idle),
            delivered: s.delivered.push(s.workers[w]->Busy_0),
            ..s
        },
    }
}

/// The pool after `steps`, taken in order, or nothing if one of them could
/// not be taken.
pub open spec fn run(s: PoolState, steps: Seq<PoolStep>) -> Option<PoolState>
    decreases steps.len(),
{
    if steps.len() == 0 {
        Some(s)
    } else if enabled(s, steps[0]) {
        run(next(s, steps[0]), steps.drop_first())
    } else {
        None
    }
}

/// Tells whether every worker has left.
pub open spec fn finished(s: PoolState) -> bool {
    forall|w: int| 0 <= w < s.workers.len() ==> (#[trigger] s.workers[w]) is Exited
}

/// The URL that a worker holds, if it holds one.
pub open spec fn held(worker: WorkerState) -> Multiset<Seq<char>> {
    match worker {
        WorkerState::Busy(url) => Multiset::singleton(url),
        _ => Multiset::empty(),
    }
}

/// The URLs that are being probed.
pub open spec fn in_flight(workers: Seq<WorkerState>) -> Multiset<Seq<char>>
    decreases workers.len(),
{
    if workers.len() == 0 {
        Multiset::empty()
    } else {
        in_flight(workers.drop_last()).add(held(workers.last()))
    }
}

/// Every URL of the run, wherever it is: in the queue, with a worker, or at
/// the sink.
pub open spec fn accounted(s: PoolState) -> Multiset<Seq<char>> {
    s.pending.to_multiset().add(in_flight(s.workers)).add(s.delivered.to_multiset())
}

/// The number of steps that a worker has before it, the queue left aside.
pub open spec fn steps_owed(worker: WorkerState) -> nat {
    match worker {
        WorkerState::Idle => 1,
        WorkerState::Busy(_) => 2,
        WorkerState::Exited => 0,
    }
}

pub open spec fn load(workers: Seq<WorkerState>) -> nat
    decreases workers.len(),
{
    if workers.len() == 0 {
        0
    } else {
        load(workers.drop_last()) + steps_owed(workers.last())
    }
}

/// The number of steps that are left of the run: two for each URL in the
/// queue, a claim and a delivery, and what each worker owes.
pub open spec fn steps_left(s: PoolState) -> nat {
    2 * s.pending.len() + load(s.workers)
}

/// No worker leaves while URLs wait.
pub open spec fn drained_before_exit(s: PoolState) -> bool {
    (exists|w: int| 0 <= w < s.workers.len() && (#[trigger] s.workers[w]) is Exited)
        ==> s.pending.len() == 0
}

proof fn lemma_update_worker(workers: Seq<WorkerState>, w: int, state: WorkerState)
    requires
        0 <= w < workers.len(),
    ensures
        in_flight(workers.update(w, state)).add(held(workers[w])) == in_flight(workers).add(
            held(state),
        ),
        load(workers.update(w, state)) + steps_owed(workers[w]) == load(workers) + steps_owed(
            state,
        ),
    decreases workers.len(),
{
    broadcast use vstd::multiset::group_multiset_axioms;

    let updated = workers.update(w, state);
    let rest = workers.drop_last();
    assert(in_flight(workers) == in_flight(rest).add(held(workers.last())));
    assert(in_flight(updated) == in_flight(updated.drop_last()).add(held(updated.last())));
    if w == workers.len() - 1 {
        assert(updated.drop_last() =~= rest);
        assert(updated.last() == state);
    } else {
        lemma_update_worker(rest, w, state);
        assert(updated.drop_last() =~= rest.update(w, state));
        assert(updated.last() == workers.last());
        assert(rest[w] == workers[w]);
    }
    let a = in_flight(updated).add(held(workers[w]));
    let b = in_flight(workers).add(held(state));
    assert forall|v: Seq<char>| a.count(v) == b.count(v) by {
        if w != workers.len() - 1 {
            let x = in_flight(rest.update(w, state)).add(held(workers[w]));
            let y = in_flight(rest).add(held(state));
            assert(x.count(v) == y.count(v));
        }
    }
    assert(a =~= b);
}

proof fn lemma_all_exited(workers: Seq<WorkerState>)
    ensures
        load(workers) == 0 <==> (forall|w: int|
            0 <= w < workers.len() ==> (#[trigger] workers[w]) is Exited),
        load(workers) == 0 ==> in_flight(workers) == Multiset::<Seq<char>>::empty(),
    decreases workers.len(),
{
    broadcast use vstd::multiset::group_multiset_axioms;

    if workers.len() > 0 {
        let rest = workers.drop_last();
        lemma_all_exited(rest);
        if load(workers) == 0 {
            assert forall|w: int| 0 <= w < workers.len() implies (#[trigger] workers[w])
                is Exited by {
                if w < workers.len() - 1 {
                    assert(rest[w] is Exited);
                }
            }
            assert(in_flight(workers) =~= Multiset::<Seq<char>>::empty());
        }
        if forall|w: int| 0 <= w < workers.len() ==> (#[trigger] workers[w]) is Exited {
            assert(workers.last() is Exited);
            assert forall|w: int| 0 <= w < rest.len() implies (#[trigger] rest[w]) is Exited by {
                assert(workers[w] is Exited);
            }
        }
    }
}

proof fn lemma_all_idle(worker_count: nat)
    ensures
        load(Seq::new(worker_count, |w: int| WorkerState::Idle)) == worker_count,
        in_flight(Seq::new(worker_count, |w: int| WorkerState::Idle)) == Multiset::<
            Seq<char>,
        >::empty(),
    decreases worker_count,
{
    broadcast use vstd::multiset::group_multiset_axioms;

    if worker_count > 0 {
        lemma_all_idle((worker_count - 1) as nat);
        let workers = Seq::new(worker_count, |w: int| WorkerState::Idle);
        assert(workers.drop_last() =~= Seq::new(
            (worker_count - 1) as nat,
            |w: int| WorkerState::Idle,
        ));
        assert(in_flight(workers) =~= Multiset::<Seq<char>>::empty());
    }
}

/// A step moves one URL at most, and loses none; it leaves one step less to
/// take; and it lets no worker leave while URLs wait.
pub proof fn lemma_step(s: PoolState, step: PoolStep)
    requires
        enabled(s, step),
    ensures
        accounted(next(s, step)) == accounted(s),
        steps_left(next(s, step)) + 1 == steps_left(s),
        next(s, step).workers.len() == s.workers.len(),
        drained_before_exit(s) ==> drained_before_exit(next(s, step)),
{
    broadcast use vstd::multiset::group_multiset_axioms;

    let t = next(s, step);
    match step {
        PoolStep::Claim(w) => {
            if s.pending.len() > 0 {
                let url = s.pending[0];
                lemma_update_worker(s.workers, w, WorkerState::Busy(url));
                vstd::seq_lib::to_multiset_remove(s.pending, 0);
                assert(s.pending.remove(0) =~= s.pending.drop_first());
                vstd::seq_lib::to_multiset_contains(s.pending, url);
                assert(s.pending.contains(url));
                let held_before = in_flight(t.workers).add(held(s.workers[w]));
                let held_after = in_flight(s.workers).add(held(WorkerState::Busy(url)));
                assert forall|v: Seq<char>| accounted(t).count(v) == accounted(s).count(v) by {
                    assert(held_before.count(v) == held_after.count(v));
                    assert(t.pending.to_multiset().count(v) == s.pending.to_multiset().remove(
                        url,
                    ).count(v));
                }
                assert(accounted(t) =~= accounted(s));
                if drained_before_exit(s) {
                    assert forall|v: int| 0 <= v < t.workers.len() implies !((
                    #[trigger] t.workers[v]) is Exited) by {
                        if v != w {
                            assert(s.workers[v] == t.workers[v]);
                        }
                    }
                }
            } else {
                lemma_update_worker(s.workers, w, WorkerState::Exited);
                let held_before = in_flight(t.workers).add(held(s.workers[w]));
                let held_after = in_flight(s.workers).add(held(WorkerState::Exited));
                assert forall|v: Seq<char>| accounted(t).count(v) == accounted(s).count(v) by {
                    assert(held_before.count(v) == held_after.count(v));
                }
                assert(accounted(t) =~= accounted(s));
            }
        },
        PoolStep::Deliver(w) => {
            let url = s.workers[w]->Busy_0;
            lemma_update_worker(s.workers, w, WorkerState::Idle);
            vstd::seq_lib::to_multiset_build(s.delivered, url);
            let held_before = in_flight(t.workers).add(held(s.workers[w]));
            let held_after = in_flight(s.workers).add(held(WorkerState::Idle));
            assert forall|v: Seq<char>| accounted(t).count(v) == accounted(s).count(v) by {
                assert(held_before.count(v) == held_after.count(v));
                assert(t.delivered.to_multiset().count(v) == s.delivered.to_multiset().insert(
                    url,
                ).count(v));
            }
            assert(accounted(t) =~= accounted(s));
            if drained_before_exit(s) && s.pending.len() > 0 {
                assert forall|v: int| 0 <= v < t.workers.len() implies !((#[trigger] t.workers[v])
                    is Exited) by {
                    if v != w {
                        assert(s.workers[v] == t.workers[v]);
                    }
                }
            }
        },
    }
}

/// What [`lemma_step`] says of one step holds of any number of them.
pub proof fn lemma_run(s: PoolState, steps: Seq<PoolStep>)
    requires
        run(s, steps) is Some,
    ensures
        accounted(run(s, steps)->0) == accounted(s),
        steps_left(run(s, steps)->0) + steps.len() == steps_left(s),
        run(s, steps)->0.workers.len() == s.workers.len(),
        drained_before_exit(s) ==> drained_before_exit(run(s, steps)->0),
    decreases steps.len(),
{
    if steps.len() > 0 {
        lemma_step(s, steps[0]);
        lemma_run(next(s, steps[0]), steps.drop_first());
    }
}

/// Before the first step every URL waits in the queue.
pub proof fn lemma_initial(urls: Seq<Seq<char>>, worker_count: nat)
    ensures
        accounted(initial(urls, worker_count)) == urls.to_multiset(),
        steps_left(initial(urls, worker_count)) == 2 * urls.len() + worker_count,
        drained_before_exit(initial(urls, worker_count)),
{
    broadcast use vstd::multiset::group_multiset_axioms;

    lemma_all_idle(worker_count);
    let s = initial(urls, worker_count);
    vstd::seq_lib::to_multiset_len(s.delivered);
    assert forall|v: Seq<char>| accounted(s).count(v) == urls.to_multiset().count(v) by {
        assert(s.delivered.to_multiset().count(v) <= s.delivered.to_multiset().len());
        assert(in_flight(s.workers).count(v) == 0);
    }
    assert(accounted(s) =~= urls.to_multiset());
}

/// No deadlock: as long as a worker is left, a step can be taken.
pub proof fn lemma_unfinished_can_step(s: PoolState)
    requires
        !finished(s),
    ensures
        exists|step: PoolStep| enabled(s, step),
{
    let w = choose|w: int| 0 <= w < s.workers.len() && !((#[trigger] s.workers[w]) is Exited);
    if s.workers[w] is Idle {
        assert(enabled(s, PoolStep::Claim(w)));
    } else {
        assert(enabled(s, PoolStep::Deliver(w)));
    }
}

/// Termination: a run of at least one worker on `urls` takes exactly two steps
/// for each URL and one for each worker, whatever the order of the steps and
/// whatever the probes find. It cannot take more, and it is over, with every
/// worker gone, exactly when it has taken that many.
pub proof fn theorem_run_terminates(urls: Seq<Seq<char>>, worker_count: nat, steps: Seq<PoolStep>)
    requires
        worker_count >= 1,
        run(initial(urls, worker_count), steps) is Some,
    ensures
        steps.len() <= 2 * urls.len() + worker_count,
        finished(run(initial(urls, worker_count), steps)->0) <==> steps.len() == 2 * urls.len()
            + worker_count,
        finished(run(initial(urls, worker_count), steps)->0) ==> run(
            initial(urls, worker_count),
            steps,
        )->0.pending.len() == 0,
{
    let s = initial(urls, worker_count);
    let t = run(s, steps)->0;
    lemma_initial(urls, worker_count);
    lemma_run(s, steps);
    lemma_all_exited(t.workers);
    if finished(t) {
        assert(t.workers[0] is Exited);
    }
}

/// Exactly once: when a run of at least one worker is over, the URLs whose
/// outcomes have reached the sink are the URLs that were submitted, each as
/// often as it was submitted, and nothing is left in the queue.
pub proof fn theorem_exactly_once(urls: Seq<Seq<char>>, worker_count: nat, steps: Seq<PoolStep>)
    requires
        worker_count >= 1,
        run(initial(urls, worker_count), steps) is Some,
        finished(run(initial(urls, worker_count), steps)->0),
    ensures
        run(initial(urls, worker_count), steps)->0.delivered.to_multiset() == urls.to_multiset(),
        run(initial(urls, worker_count), steps)->0.delivered.len() == urls.len(),
        run(initial(urls, worker_count), steps)->0.pending.len() == 0,
{
    broadcast use vstd::multiset::group_multiset_axioms;

    let s = initial(urls, worker_count);
    let t = run(s, steps)->0;
    lemma_initial(urls, worker_count);
    lemma_run(s, steps);
    lemma_all_exited(t.workers);
    assert(t.workers[0] is Exited);
    assert(t.pending =~= Seq::<Seq<char>>::empty());
    assert(t.pending.to_multiset() =~= Multiset::<Seq<char>>::empty()) by {
        vstd::seq_lib::to_multiset_len(t.pending);
    }
    assert(t.delivered.to_multiset() =~= accounted(t));
    vstd::seq_lib::to_multiset_len(t.delivered);
    vstd::seq_lib::to_multiset_len(urls);
}

} // verus!
