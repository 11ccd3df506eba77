//! The server's bookkeeping of jobs: which are still open, and the results
//! accepted for the others. The bookkeeping is a state machine; the server
//! feeds it one event at a time and prints the log lines it returns.

use vstd::prelude::*;

use crate::decimal::{decimal, push_decimal};
use std::collections::HashSet;

verus! {

broadcast use vstd::std_specs::hash::group_hash_axioms;

/// An event for the job bookkeeping.
#[derive(Debug, Clone)]
pub enum Msg {
    /// A worker's result for a job, whose proof the server accepted.
    CompletedJob { worker_id: String, job_id: u8, result: u32 },
    /// A line for the log.
    Log { message: String },
}

/// The identifiers of the jobs to be done: 1 to 10.
pub open spec fn job_ids() -> Set<u8> {
    Set::new(|i: u8| 1 <= i <= 10)
}

/// The bookkeeping before any event: all jobs open, nothing done.
pub open spec fn initial_book() -> JobBook {
    JobBook { pending: job_ids(), completed: Seq::empty(), results: Seq::empty() }
}

/// There are ten jobs.
pub proof fn lemma_job_ids_len()
    ensures
        job_ids().finite(),
        job_ids().len() == 10,
{
    let s = Set::<u8>::empty().insert(1).insert(2).insert(3).insert(4).insert(5).insert(6).insert(
        7,
    ).insert(8).insert(9).insert(10);
    assert(job_ids() =~= s);
}

/// The sum of the results, as a mathematical integer.
pub open spec fn sum_of(s: Seq<u32>) -> int
    decreases s.len(),
{
    if s.len() == 0 {
        0
    } else {
        sum_of(s.drop_last()) + s.last()
    }
}

/// The log line for an accepted result.
pub open spec fn completion_log(job_id: u8, worker_id: Seq<char>, result: u32) -> Seq<char> {
    "Job ID "@ + decimal(job_id as nat) + " completed by "@ + worker_id + ". Result = "@ + decimal(
        result as nat,
    )
}

/// The log line once every job is done.
pub open spec fn final_log(total: nat) -> Seq<char> {
    "All jobs complete. Final result = "@ + decimal(total)
}

/// The abstract state of the bookkeeping.
pub struct JobBook {
    /// The jobs still waiting for a result.
    pub pending: Set<u8>,
    /// The jobs done, in the order their results came.
    pub completed: Seq<u8>,
    /// The accepted results, in the same order.
    pub results: Seq<u32>,
}

impl JobBook {
    /// Every job is either still pending or done exactly once, never both.
    pub open spec fn inv(self) -> bool {
        &&& self.completed.len() == self.results.len()
        &&& self.pending.finite()
        &&& self.pending.len() + self.completed.len() == 10
        &&& self.completed.no_duplicates()
        &&& self.pending.subset_of(job_ids())
        &&& forall|i: int|
            0 <= i < self.completed.len() ==> job_ids().contains(#[trigger] self.completed[i])
                && !self.pending.contains(self.completed[i])
        &&& forall|j: u8| #[trigger]
            job_ids().contains(j) ==> self.pending.contains(j) || self.completed.contains(j)
    }

    /// The state after an event: a result for a pending job closes the job
    /// and is recorded; anything else changes nothing.
    pub open spec fn step(self, msg: Msg) -> JobBook {
        match msg {
            Msg::CompletedJob { worker_id, job_id, result } => {
                if self.pending.contains(job_id) {
                    JobBook {
                        pending: self.pending.remove(job_id),
                        completed: self.completed.push(job_id),
                        results: self.results.push(result),
                    }
                } else {
                    self
                }
            },
            Msg::Log { message } => self,
        }
    }

    /// The log lines an event produces: the accepted result, followed by the
    /// final total when it closed the last job; nothing for a result of a job
    /// that is not pending; the message itself for a log event.
    pub open spec fn step_logs(self, msg: Msg) -> Seq<Seq<char>> {
        match msg {
            Msg::CompletedJob { worker_id, job_id, result } => {
                if self.pending.contains(job_id) {
                    let next = self.step(msg);
                    let first = seq![completion_log(job_id, worker_id@, result)];
                    if next.pending.is_empty() {
                        first.push(final_log(sum_of(next.results) as nat))
                    } else {
                        first
                    }
                } else {
                    Seq::empty()
                }
            },
            Msg::Log { message } => seq![message@],
        }
    }

    /// Whether the event can be handled without the final total overflowing
    /// a `u32` (the sum is taken in `u32`, which panics on overflow).
    pub open spec fn step_fits(self, msg: Msg) -> bool {
        match msg {
            Msg::CompletedJob { worker_id, job_id, result } => {
                self.pending.contains(job_id) && self.pending.remove(job_id).is_empty() ==> sum_of(
                    self.results.push(result),
                ) <= u32::MAX
            },
            Msg::Log { message } => true,
        }
    }
}

/// Sums of a prefix never exceed the sum of the whole.
pub proof fn lemma_sum_of_prefix(s: Seq<u32>, k: int)
    requires
        0 <= k <= s.len(),
    ensures
        sum_of(s.subrange(0, k)) <= sum_of(s),
        sum_of(s) >= 0,
    decreases s.len() - k,
{
    if k < s.len() {
        lemma_sum_of_prefix(s, k + 1);
        assert(s.subrange(0, k + 1).drop_last() =~= s.subrange(0, k));
    } else {
        assert(s.subrange(0, k) =~= s);
        lemma_sum_of_nonneg(s);
    }
}

proof fn lemma_sum_of_nonneg(s: Seq<u32>)
    ensures
        sum_of(s) >= 0,
    decreases s.len(),
{
    if s.len() > 0 {
        lemma_sum_of_nonneg(s.drop_last());
    }
}

/// Every event keeps the bookkeeping consistent: each job is pending or done
/// exactly once, and results and finished jobs stay paired.
pub proof fn lemma_step_preserves_inv(b: JobBook, msg: Msg)
    requires
        b.inv(),
    ensures
        b.step(msg).inv(),
{
    match msg {
        Msg::CompletedJob { worker_id, job_id, result } => {
            if b.pending.contains(job_id) {
                let n = b.step(msg);
                assert(!b.completed.contains(job_id));
                assert forall|j: u8| #[trigger] job_ids().contains(j) implies n.pending.contains(j)
                    || n.completed.contains(j) by {
                    if j == job_id {
                        assert(n.completed[n.completed.len() - 1] == j);
                    } else if !b.pending.contains(j) {
                        let k = choose|k: int| 0 <= k < b.completed.len() && b.completed[k] == j;
                        assert(n.completed[k] == j);
                    }
                }
                assert forall|i: int| 0 <= i < n.completed.len() implies job_ids().contains(
                    #[trigger] n.completed[i],
                ) && !n.pending.contains(n.completed[i]) by {
                    if i < b.completed.len() {
                        assert(n.completed[i] == b.completed[i]);
                    }
                }
            }
        },
        Msg::Log { message } => {},
    }
}

/// A job is counted once: after a pending job's result is accepted, a second
/// result for the same job changes nothing and logs nothing.
pub proof fn lemma_job_counted_once(
    b: JobBook,
    first_worker: String,
    second_worker: String,
    job_id: u8,
    first_result: u32,
    second_result: u32,
)
    requires
        b.inv(),
    ensures
        ({
            let first = Msg::CompletedJob { worker_id: first_worker, job_id, result: first_result };
            let second = Msg::CompletedJob {
                worker_id: second_worker,
                job_id,
                result: second_result,
            };
            &&& b.step(first).step(second) == b.step(first)
            &&& b.step(first).step_logs(second) == Seq::<Seq<char>>::empty()
        }),
{
}

/// All jobs are done exactly when no job is pending.
pub proof fn lemma_done_when_nothing_pending(b: JobBook)
    requires
        b.inv(),
    ensures
        b.pending.is_empty() <==> (forall|j: u8| #[trigger]
            job_ids().contains(j) ==> b.completed.contains(j)),
{
    if b.pending.is_empty() {
    } else {
        let j = b.pending.choose();
        assert(b.pending.contains(j));
        if b.completed.contains(j) {
            let k = choose|k: int| 0 <= k < b.completed.len() && b.completed[k] == j;
            assert(!b.pending.contains(b.completed[k]));
        }
    }
}

/// Once every job is done, no event changes the bookkeeping again, and the
/// final total is never announced a second time.
pub proof fn lemma_quiet_after_completion(b: JobBook, msg: Msg)
    requires
        b.inv(),
        b.pending.is_empty(),
    ensures
        b.step(msg) == b,
        b.step_logs(msg).len() <= 1,
        msg is CompletedJob ==> b.step_logs(msg).len() == 0,
{
}

/// The bookkeeping after a sequence of events, in order.
pub open spec fn run(b: JobBook, msgs: Seq<Msg>) -> JobBook
    decreases msgs.len(),
{
    if msgs.len() == 0 {
        b
    } else {
        run(b, msgs.drop_last()).step(msgs.last())
    }
}

/// The final total an event announces: the sum of the results, when the
/// event closes the last pending job.
pub open spec fn step_total(b: JobBook, msg: Msg) -> Option<nat> {
    match msg {
        Msg::CompletedJob { worker_id, job_id, result } => {
            if b.pending.contains(job_id) && b.step(msg).pending.is_empty() {
                Some(sum_of(b.step(msg).results) as nat)
            } else {
                None
            }
        },
        Msg::Log { message } => None,
    }
}

/// The final totals announced along a sequence of events, in order.
pub open spec fn run_totals(b: JobBook, msgs: Seq<Msg>) -> Seq<nat>
    decreases msgs.len(),
{
    if msgs.len() == 0 {
        Seq::empty()
    } else {
        let earlier = run_totals(b, msgs.drop_last());
        match step_total(run(b, msgs.drop_last()), msgs.last()) {
            Some(t) => earlier.push(t),
            None => earlier,
        }
    }
}

/// The final line of an event's log is the announcement of `step_total`,
/// and an event that announces no total has no final line.
pub proof fn lemma_final_line_is_total(b: JobBook, msg: Msg)
    ensures
        step_total(b, msg) matches Some(t) ==> b.step_logs(msg).len() == 2 && b.step_logs(msg)[1]
            == final_log(t),
        step_total(b, msg) is None && msg is CompletedJob ==> b.step_logs(msg).len() <= 1,
{
}

/// Along any sequence of events, the bookkeeping stays consistent and the
/// set of pending jobs only shrinks.
pub proof fn lemma_run_preserves_inv(b: JobBook, msgs: Seq<Msg>)
    requires
        b.inv(),
    ensures
        run(b, msgs).inv(),
        run(b, msgs).pending.subset_of(b.pending),
    decreases msgs.len(),
{
    if msgs.len() > 0 {
        lemma_run_preserves_inv(b, msgs.drop_last());
        lemma_step_preserves_inv(run(b, msgs.drop_last()), msgs.last());
    }
}

proof fn lemma_run_totals_from(b: JobBook, msgs: Seq<Msg>)
    requires
        b.inv(),
    ensures
        b.pending.is_empty() ==> run_totals(b, msgs).len() == 0,
        !b.pending.is_empty() ==> {
            &&& run_totals(b, msgs).len() <= 1
            &&& run_totals(b, msgs).len() == 1 <==> run(b, msgs).pending.is_empty()
            &&& run_totals(b, msgs).len() == 1 ==> run_totals(b, msgs)[0] == sum_of(
                run(b, msgs).results,
            )
        },
    decreases msgs.len(),
{
    if msgs.len() > 0 {
        let prefix = msgs.drop_last();
        let m = msgs.last();
        lemma_run_totals_from(b, prefix);
        lemma_run_preserves_inv(b, prefix);
        let prev = run(b, prefix);
        if prev.pending.is_empty() {
            lemma_quiet_after_completion(prev, m);
            lemma_sum_of_nonneg(prev.results);
        } else {
            let n = prev.step(m);
            lemma_sum_of_nonneg(n.results);
        }
        if b.pending.is_empty() {
            assert(prev.pending.subset_of(b.pending));
            assert(prev.pending =~= Set::<u8>::empty());
        }
    }
}

/// From the start, along any sequence of events: every job is pending or
/// done exactly once, the number of accepted results is ten minus the number
/// of pending jobs, pending jobs never come back, and the final total is
/// announced at most once, exactly when no job is pending, as the sum of the
/// accepted results (the first result of each job).
pub proof fn lemma_run_from_start(msgs: Seq<Msg>)
    ensures
        run(initial_book(), msgs).inv(),
        run(initial_book(), msgs).results.len() + run(initial_book(), msgs).pending.len() == 10,
        run(initial_book(), msgs).pending.subset_of(job_ids()),
        run_totals(initial_book(), msgs).len() <= 1,
        run_totals(initial_book(), msgs).len() == 1 <==> run(initial_book(), msgs).pending.is_empty(),
        run_totals(initial_book(), msgs).len() == 1 ==> run_totals(initial_book(), msgs)[0] == sum_of(
            run(initial_book(), msgs).results,
        ),
{
    lemma_job_ids_len();
    let b = initial_book();
    assert(b.inv());
    assert(b.pending.contains(1));
    lemma_run_preserves_inv(b, msgs);
    lemma_run_totals_from(b, msgs);
}

/// The jobs and results that a sequence of events accepts: for each job of
/// 1 to 10, its first result, in the order the events came.
pub open spec fn first_results(msgs: Seq<Msg>) -> (Seq<u8>, Seq<u32>)
    decreases msgs.len(),
{
    if msgs.len() == 0 {
        (Seq::empty(), Seq::empty())
    } else {
        let earlier = first_results(msgs.drop_last());
        match msgs.last() {
            Msg::CompletedJob { worker_id, job_id, result } => {
                if job_ids().contains(job_id) && !earlier.0.contains(job_id) {
                    (earlier.0.push(job_id), earlier.1.push(result))
                } else {
                    earlier
                }
            },
            Msg::Log { message } => earlier,
        }
    }
}

/// From the start, the jobs done and the results recorded are exactly the
/// first result of each job of 1 to 10, in the order the events came; a job
/// is pending exactly when no event has completed it yet.
pub proof fn lemma_results_are_first_results(msgs: Seq<Msg>)
    ensures
        run(initial_book(), msgs).completed == first_results(msgs).0,
        run(initial_book(), msgs).results == first_results(msgs).1,
        forall|j: u8|
            #[trigger] run(initial_book(), msgs).pending.contains(j) <==> job_ids().contains(j)
                && !first_results(msgs).0.contains(j),
    decreases msgs.len(),
{
    lemma_job_ids_len();
    let b = initial_book();
    assert(b.inv());
    lemma_run_preserves_inv(b, msgs);
    if msgs.len() > 0 {
        let prefix = msgs.drop_last();
        lemma_results_are_first_results(prefix);
        lemma_run_preserves_inv(b, prefix);
        let prev = run(b, prefix);
        assert forall|j: u8| #[trigger] prev.pending.contains(j) <==> job_ids().contains(j)
            && !prev.completed.contains(j) by {
            if prev.pending.contains(j) {
                assert(prev.pending.subset_of(job_ids()));
                if prev.completed.contains(j) {
                    let k = choose|k: int| 0 <= k < prev.completed.len() && prev.completed[k] == j;
                    assert(!prev.pending.contains(prev.completed[k]));
                }
            }
        }
    } else {
        assert forall|j: u8| #[trigger] run(b, msgs).pending.contains(j) <==> job_ids().contains(j)
            && !first_results(msgs).0.contains(j) by {}
    }
    let r = run(b, msgs);
    assert forall|j: u8| #[trigger] r.pending.contains(j) <==> job_ids().contains(j)
        && !r.completed.contains(j) by {
        if r.pending.contains(j) {
            assert(r.pending.subset_of(job_ids()));
            if r.completed.contains(j) {
                let k = choose|k: int| 0 <= k < r.completed.len() && r.completed[k] == j;
                assert(!r.pending.contains(r.completed[k]));
            }
        }
    }
}

/// From the start, along any sequence of events, the final total is
/// announced at most once; it is announced exactly when every job of 1 to 10
/// has a completing event, and it is the sum of the first result of each job.
pub proof fn lemma_total_is_sum_of_first_results(msgs: Seq<Msg>)
    ensures
        run_totals(initial_book(), msgs).len() <= 1,
        run_totals(initial_book(), msgs).len() == 1 <==> forall|j: u8|
            job_ids().contains(j) ==> #[trigger] first_results(msgs).0.contains(j),
        run_totals(initial_book(), msgs).len() == 1 ==> run_totals(initial_book(), msgs)[0]
            == sum_of(first_results(msgs).1),
{
    lemma_run_from_start(msgs);
    lemma_results_are_first_results(msgs);
    let r = run(initial_book(), msgs);
    if forall|j: u8| job_ids().contains(j) ==> #[trigger] first_results(msgs).0.contains(j) {
        assert(r.pending =~= Set::<u8>::empty()) by {
            assert forall|j: u8| !r.pending.contains(j) by {
                if r.pending.contains(j) {
                    assert(job_ids().contains(j) && !first_results(msgs).0.contains(j));
                }
            }
        }
    }
    if r.pending.is_empty() {
        assert forall|j: u8| job_ids().contains(j) implies #[trigger] first_results(msgs).0.contains(j) by {
            assert(!r.pending.contains(j));
        }
    }
}

/// The bookkeeping of the server: the jobs still open and the accepted results.
pub struct State {
    pending_jobs: HashSet<u8>,
    job_results: Vec<u32>,
    completed: Ghost<Seq<u8>>,
}

impl View for State {
    type V = JobBook;

    closed spec fn view(&self) -> JobBook {
        JobBook { pending: self.pending_jobs@, completed: self.completed@, results: self.job_results@ }
    }
}

/// The sum of the results, which must fit in a `u32`.
fn total_of(results: &Vec<u32>) -> (r: u32)
    requires
        sum_of(results@) <= u32::MAX,
    ensures
        r == sum_of(results@),
{
    let mut acc: u32 = 0;
    let mut i: usize = 0;
    while i < results.len()
        invariant
            i <= results.len(),
            sum_of(results@) <= u32::MAX,
            acc == sum_of(results@.subrange(0, i as int)),
        decreases results.len() - i,
    {
        proof {
            lemma_sum_of_prefix(results@, i + 1);
            assert(results@.subrange(0, i + 1).drop_last() =~= results@.subrange(0, i as int));
        }
        acc = acc + results[i];
        i = i + 1;
    }
    assert(results@.subrange(0, i as int) =~= results@);
    acc
}

impl State {
    /// All ten jobs open, no results yet.
    pub fn create() -> (s: State)
        ensures
            s@.pending == job_ids(),
            s@.completed == Seq::<u8>::empty(),
            s@.results == Seq::<u32>::empty(),
            s@.inv(),
    {
        let mut pending: HashSet<u8> = HashSet::new();
        let mut id: u8 = 1;
        while id <= 10
            invariant
                1 <= id <= 11,
                pending@ =~= Set::new(|i: u8| 1 <= i < id),
            decreases 11 - id,
        {
            pending.insert(id);
            id = id + 1;
            assert(pending@ =~= Set::new(|i: u8| 1 <= i < id));
        }
        assert(pending@ =~= job_ids());
        proof {
            lemma_job_ids_len();
        }
        State { pending_jobs: pending, job_results: Vec::new(), completed: Ghost(Seq::empty()) }
    }

    /// Whether `handle_message` can take the event: false only when it
    /// would close the last job with a total that does not fit in a `u32`.
    pub fn fits(&self, msg: &Msg) -> (r: bool)
        requires
            self@.inv(),
        ensures
            r == self@.step_fits(*msg),
    {
        match msg {
            Msg::CompletedJob { worker_id, job_id, result } => {
                if !self.pending_jobs.contains(job_id) {
                    return true;
                }
                let mut k: u8 = 1;
                while k <= 10
                    invariant
                        1 <= k <= 11,
                        self@.inv(),
                        self@.pending.contains(*job_id),
                        forall|j: u8| 1 <= j < k && j != *job_id ==> !self@.pending.contains(j),
                    decreases 11 - k,
                {
                    if k != *job_id && self.pending_jobs.contains(&k) {
                        assert(self@.pending.remove(*job_id).contains(k));
                        return true;
                    }
                    k = k + 1;
                }
                assert(self@.pending.remove(*job_id) =~= Set::<u8>::empty());
                let mut acc: u64 = *result as u64;
                let mut i: usize = 0;
                let ghost pushed = self@.results.push(*result);
                while i < self.job_results.len()
                    invariant
                        i <= self.job_results.len(),
                        pushed == self@.results.push(*result),
                        self@.step_fits(*msg) <==> sum_of(pushed) <= u32::MAX,
                        acc == sum_of(self.job_results@.subrange(0, i as int)) + *result,
                        acc <= u32::MAX + u32::MAX,
                    decreases self.job_results.len() - i,
                {
                    assert(self.job_results@.subrange(0, i + 1).drop_last() =~= self.job_results@.subrange(0, i as int));
                    if acc > 4294967295 {
                        proof {
                            lemma_sum_of_prefix(self.job_results@, i as int);
                            assert(pushed.drop_last() =~= self.job_results@);
                            assert(pushed.last() == *result);
                        }
                        return false;
                    }
                    acc = acc + self.job_results[i] as u64;
                    i = i + 1;
                }
                assert(self.job_results@.subrange(0, i as int) =~= self.job_results@);
                assert(pushed.drop_last() =~= self.job_results@);
                acc <= 4294967295
            },
            Msg::Log { message } => true,
        }
    }

    /// Handles one event and returns the log lines it produces.
    pub fn handle_message(&mut self, msg: Msg) -> (logs: Vec<String>)
        requires
            old(self)@.inv(),
            old(self)@.step_fits(msg),
        ensures
            final(self)@ == old(self)@.step(msg),
            final(self)@.inv(),
            logs@.map_values(|s: String| s@) == old(self)@.step_logs(msg),
    {
        proof {
            lemma_step_preserves_inv(self@, msg);
        }
        let ghost msg_in = msg;
        let ghost before = self@;
        match msg {
            Msg::CompletedJob { worker_id, job_id, result } => {
                let mut logs: Vec<String> = Vec::new();
                if self.pending_jobs.contains(&job_id) {
                    self.pending_jobs.remove(&job_id);
                    self.job_results.push(result);
                    self.completed = Ghost(self.completed@.push(job_id));
                    assert(self@ == before.step(msg_in));
                    let mut line = String::from_str("Job ID ");
                    push_decimal(&mut line, job_id as u64);
                    line.append(" completed by ");
                    line.append(worker_id.as_str());
                    line.append(". Result = ");
                    push_decimal(&mut line, result as u64);
                    logs.push(line);
                    if self.pending_jobs.is_empty() {
                        let total = total_of(&self.job_results);
                        let mut last = String::from_str("All jobs complete. Final result = ");
                        push_decimal(&mut last, total as u64);
                        logs.push(last);
                    }
                }
                assert(logs@.map_values(|s: String| s@) =~= before.step_logs(msg_in));
                logs
            },
            Msg::Log { message } => {
                let mut logs: Vec<String> = Vec::new();
                logs.push(message);
                assert(logs@.map_values(|s: String| s@) =~= before.step_logs(msg_in));
                logs
            },
        }
    }
}

} // verus!
