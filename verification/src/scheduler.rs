//! The scheduler of a worker: its jobs, and the limit on how many of them
//! may sync at once.
//!
//! At every tick the scheduler goes through its jobs once, beginning after
//! the job it started last: a job whose run is due is sent to wait for a
//! slot, and a waiting job is started while a slot is free. Jobs that had to
//! wait are therefore reached before the jobs that ran more recently.
//!
//! The scheduler performs nothing itself: every step returns the actions
//! that the worker has to carry out, and the worker tells the scheduler when
//! a provider has ended.

use vstd::prelude::*;

use crate::job::{
    action_views, spec_command, spec_command_actions, spec_finish, spec_finish_actions,
    spec_is_due, spec_reconcile, spec_schedule, spec_start_run, start_order, Action, ActionView,
    Job, JobView,
};
use crate::msg::{CmdVerb, MirrorStatus, WorkerCmd};
use crate::status::SyncStatus;
use crate::text::str_eq;
use crate::time::Timestamp;

verus! {

/// The views of a list of jobs.
pub open spec fn job_views(jobs: Seq<Job>) -> Seq<JobView> {
    Seq::new(jobs.len(), |i: int| jobs[i]@)
}

/// How many of the jobs are syncing.
pub open spec fn syncing_count(jobs: Seq<JobView>) -> nat
    decreases jobs.len(),
{
    if jobs.len() == 0 {
        0
    } else {
        syncing_count(jobs.drop_last()) + if jobs.last().is_syncing() {
            1nat
        } else {
            0nat
        }
    }
}

/// What a scheduler holds, as plain values.
pub struct SchedulerView {
    /// How many jobs may sync at once.
    pub concurrent: u32,
    pub jobs: Seq<JobView>,
    /// Where the next tick begins.
    pub cursor: nat,
}

impl SchedulerView {
    /// The limit is kept, every job is well-formed, and the cursor points
    /// at a job.
    pub open spec fn wf(self) -> bool {
        &&& syncing_count(self.jobs) <= self.concurrent
        &&& forall|i: int| 0 <= i < self.jobs.len() ==> (#[trigger] self.jobs[i]).wf()
        &&& self.cursor < self.jobs.len() || (self.cursor == 0 && self.jobs.len() == 0)
    }

    /// Whether a slot is free.
    pub open spec fn has_free_slot(self) -> bool {
        syncing_count(self.jobs) < self.concurrent
    }

    /// Whether some job waits for a slot.
    pub open spec fn has_waiting_job(self) -> bool {
        exists|i: int|
            0 <= i < self.jobs.len() && (#[trigger] self.jobs[i]).record.status
                == SyncStatus::PreSyncing
    }
}

/// The place of the job that is visited `k` steps after the job at `start`,
/// going round.
pub open spec fn cyclic(start: nat, k: nat, n: nat) -> int {
    if k < n - start {
        (start + k) as int
    } else {
        k - (n - start)
    }
}

/// The place after `i`, going round.
pub open spec fn place_after(i: int, n: nat) -> nat {
    if i + 1 < n {
        (i + 1) as nat
    } else {
        0
    }
}

/// Whether the visit of job `i` starts it: the job waits for a slot, or
/// its run is due, and a slot is free.
pub open spec fn visit_starts(s: SchedulerView, i: int, now: Timestamp) -> bool {
    spec_schedule(s.jobs[i], now).record.status == SyncStatus::PreSyncing && s.has_free_slot()
}

/// The scheduler after the visit of job `i` at a tick.
pub open spec fn visit(s: SchedulerView, i: int, now: Timestamp) -> SchedulerView {
    if visit_starts(s, i, now) {
        SchedulerView {
            jobs: s.jobs.update(i, spec_start_run(spec_schedule(s.jobs[i], now), now)),
            cursor: place_after(i, s.jobs.len()),
            ..s
        }
    } else {
        SchedulerView { jobs: s.jobs.update(i, spec_schedule(s.jobs[i], now)), ..s }
    }
}

/// What the worker has to do after the visit of job `i`: report and start
/// a job that was started, report a job that now waits.
pub open spec fn visit_actions(s: SchedulerView, i: int, now: Timestamp) -> Seq<ActionView> {
    let after = visit(s, i, now).jobs[i];
    if visit_starts(s, i, now) {
        seq![ActionView::Report(after.record), start_order(after)]
    } else if spec_is_due(s.jobs[i], now) {
        seq![ActionView::Report(after.record)]
    } else {
        Seq::empty()
    }
}

/// The scheduler after the visits from step `k` on of a tick over `n`
/// jobs that began at `start`.
pub open spec fn tick_from(
    s: SchedulerView,
    start: nat,
    k: nat,
    n: nat,
    now: Timestamp,
) -> SchedulerView
    decreases n - k,
{
    if k >= n {
        s
    } else {
        tick_from(visit(s, cyclic(start, k, n), now), start, k + 1, n, now)
    }
}

/// The actions of the visits from step `k` on of a tick over `n` jobs
/// that began at `start`.
pub open spec fn tick_actions_from(
    s: SchedulerView,
    start: nat,
    k: nat,
    n: nat,
    now: Timestamp,
) -> Seq<ActionView>
    decreases n - k,
{
    if k >= n {
        Seq::empty()
    } else {
        let i = cyclic(start, k, n);
        visit_actions(s, i, now) + tick_actions_from(visit(s, i, now), start, k + 1, n, now)
    }
}

/// The scheduler after a tick: every job visited once, beginning at the
/// cursor.
pub open spec fn spec_tick(s: SchedulerView, now: Timestamp) -> SchedulerView {
    tick_from(s, s.cursor, 0, s.jobs.len(), now)
}

/// What the worker has to do after a tick.
pub open spec fn spec_tick_actions(s: SchedulerView, now: Timestamp) -> Seq<ActionView> {
    tick_actions_from(s, s.cursor, 0, s.jobs.len(), now)
}

/// The place of the first job of this name.
pub open spec fn spec_find(jobs: Seq<JobView>, name: Seq<char>) -> Option<int>
    decreases jobs.len(),
{
    if jobs.len() == 0 {
        None
    } else {
        match spec_find(jobs.drop_last(), name) {
            Some(i) => Some(i),
            None => if jobs.last().record.name == name {
                Some(jobs.len() - 1)
            } else {
                None
            },
        }
    }
}

/// The scheduler after a provider has ended an attempt of a mirror. A
/// mirror that the scheduler does not know changes nothing.
pub open spec fn spec_on_exit(
    s: SchedulerView,
    mirror: Seq<char>,
    run_id: u64,
    exit_code: Option<i32>,
    size: Seq<char>,
    now: Timestamp,
) -> SchedulerView {
    match spec_find(s.jobs, mirror) {
        Some(i) => SchedulerView {
            jobs: s.jobs.update(i, spec_finish(s.jobs[i], run_id, exit_code, size, now)),
            ..s
        },
        None => s,
    }
}

pub open spec fn spec_on_exit_actions(
    s: SchedulerView,
    mirror: Seq<char>,
    run_id: u64,
    exit_code: Option<i32>,
    size: Seq<char>,
    now: Timestamp,
) -> Seq<ActionView> {
    match spec_find(s.jobs, mirror) {
        Some(i) => spec_finish_actions(s.jobs[i], run_id, exit_code, size, now),
        None => Seq::empty(),
    }
}

/// The scheduler after a command for a mirror. A mirror that the scheduler
/// does not know changes nothing.
pub open spec fn spec_on_command(
    s: SchedulerView,
    mirror: Seq<char>,
    verb: CmdVerb,
    now: Timestamp,
) -> SchedulerView {
    match spec_find(s.jobs, mirror) {
        Some(i) => SchedulerView { jobs: s.jobs.update(i, spec_command(s.jobs[i], verb, now)), ..s },
        None => s,
    }
}

pub open spec fn spec_on_command_actions(
    s: SchedulerView,
    mirror: Seq<char>,
    verb: CmdVerb,
    now: Timestamp,
) -> Seq<ActionView> {
    match spec_find(s.jobs, mirror) {
        Some(i) => spec_command_actions(s.jobs[i], verb, now),
        None => Seq::empty(),
    }
}

/// The jobs as a worker takes them up at startup.
pub open spec fn reconciled(jobs: Seq<JobView>, now: Timestamp) -> Seq<JobView> {
    Seq::new(jobs.len(), |i: int| spec_reconcile(jobs[i], now))
}

/// The reports of the runs that were cut short, in the order of the jobs.
pub open spec fn reconcile_reports(jobs: Seq<JobView>, now: Timestamp) -> Seq<ActionView>
    decreases jobs.len(),
{
    if jobs.len() == 0 {
        Seq::empty()
    } else if jobs.last().is_syncing() {
        reconcile_reports(jobs.drop_last(), now).push(
            ActionView::Report(spec_reconcile(jobs.last(), now).record),
        )
    } else {
        reconcile_reports(jobs.drop_last(), now)
    }
}

// ------------------------------------------------------------------- laws

/// Changing one job changes the number of syncing jobs by that job alone.
pub proof fn lemma_count_update(jobs: Seq<JobView>, i: int, job: JobView)
    requires
        0 <= i < jobs.len(),
    ensures
        syncing_count(jobs.update(i, job)) + (if jobs[i].is_syncing() {
            1nat
        } else {
            0nat
        }) == syncing_count(jobs) + (if job.is_syncing() {
            1nat
        } else {
            0nat
        }),
    decreases jobs.len(),
{
    let changed = jobs.update(i, job);
    if i == jobs.len() - 1 {
        assert(changed.drop_last() =~= jobs.drop_last());
    } else {
        assert(changed.drop_last() =~= jobs.drop_last().update(i, job));
        lemma_count_update(jobs.drop_last(), i, job);
    }
}

/// Where no job syncs, the count is zero.
pub proof fn lemma_count_none(jobs: Seq<JobView>)
    requires
        forall|i: int| 0 <= i < jobs.len() ==> !(#[trigger] jobs[i]).is_syncing(),
    ensures
        syncing_count(jobs) == 0,
    decreases jobs.len(),
{
    if jobs.len() > 0 {
        lemma_count_none(jobs.drop_last());
    }
}

/// What is found is the first job of the name.
pub proof fn lemma_find(jobs: Seq<JobView>, name: Seq<char>)
    ensures
        match spec_find(jobs, name) {
            Some(i) => 0 <= i < jobs.len() && jobs[i].record.name == name && forall|j: int|
                0 <= j < i ==> (#[trigger] jobs[j]).record.name != name,
            None => forall|j: int| 0 <= j < jobs.len() ==> (#[trigger] jobs[j]).record.name != name,
        },
    decreases jobs.len(),
{
    if jobs.len() > 0 {
        let front = jobs.drop_last();
        lemma_find(front, name);
        assert forall|j: int| 0 <= j < front.len() implies #[trigger] jobs[j] == front[j] by {}
    }
}

/// The visit of a job keeps the scheduler well-formed, and never lets go
/// of a slot.
pub proof fn lemma_visit(s: SchedulerView, i: int, now: Timestamp)
    requires
        s.wf(),
        0 <= i < s.jobs.len(),
    ensures
        visit(s, i, now).wf(),
        visit(s, i, now).jobs.len() == s.jobs.len(),
        visit(s, i, now).concurrent == s.concurrent,
        syncing_count(visit(s, i, now).jobs) == syncing_count(s.jobs) + if visit_starts(s, i, now) {
            1nat
        } else {
            0nat
        },
        visit(s, i, now).jobs[i].record.status == SyncStatus::PreSyncing ==> !visit(
            s,
            i,
            now,
        ).has_free_slot(),
        forall|j: int|
            0 <= j < s.jobs.len() && j != i ==> #[trigger] visit(s, i, now).jobs[j] == s.jobs[j],
{
    let due = spec_schedule(s.jobs[i], now);
    if visit_starts(s, i, now) {
        lemma_count_update(s.jobs, i, spec_start_run(due, now));
    } else {
        lemma_count_update(s.jobs, i, due);
    }
}

/// The limit, work conservation and the length, for the rest of a tick.
pub proof fn lemma_tick_from(s: SchedulerView, start: nat, k: nat, now: Timestamp)
    requires
        s.wf(),
        start < s.jobs.len(),
        k <= s.jobs.len(),
        forall|m: nat|
            m < k ==> (#[trigger] s.jobs[cyclic(start, m, s.jobs.len())]).record.status
                != SyncStatus::PreSyncing || !s.has_free_slot(),
    ensures
        tick_from(s, start, k, s.jobs.len(), now).wf(),
        tick_from(s, start, k, s.jobs.len(), now).jobs.len() == s.jobs.len(),
        tick_from(s, start, k, s.jobs.len(), now).concurrent == s.concurrent,
        forall|m: nat|
            m < s.jobs.len() ==> (#[trigger] tick_from(s, start, k, s.jobs.len(), now).jobs[cyclic(
                start,
                m,
                s.jobs.len(),
            )]).record.status != SyncStatus::PreSyncing || !tick_from(
                s,
                start,
                k,
                s.jobs.len(),
                now,
            ).has_free_slot(),
    decreases s.jobs.len() - k,
{
    let n = s.jobs.len();
    if k < n {
        let i = cyclic(start, k, n);
        let next = visit(s, i, now);
        lemma_visit(s, i, now);
        assert forall|m: nat| m < k + 1 implies (#[trigger] next.jobs[cyclic(
            start,
            m,
            n,
        )]).record.status != SyncStatus::PreSyncing || !next.has_free_slot() by {
            if m < k {
                let j = cyclic(start, m, n);
                assert(j != i);
                assert(next.jobs[j] == s.jobs[j]);
                assert(s.jobs[j].record.status != SyncStatus::PreSyncing || !s.has_free_slot());
            }
        }
        lemma_tick_from(next, start, k + 1, now);
    }
}

/// Every place is reached by a tick.
pub proof fn lemma_cyclic_reaches(start: nat, i: int, n: nat)
    requires
        start < n,
        0 <= i < n,
    ensures
        exists|m: nat| m < n && cyclic(start, m, n) == i,
{
    if i >= start {
        let m = (i - start) as nat;
        assert(m < n && cyclic(start, m, n) == i);
    } else {
        let m = (i + n - start) as nat;
        assert(m < n && cyclic(start, m, n) == i);
    }
}

/// A tick never lets more jobs sync at once than the limit allows, and it
/// leaves no job waiting while a slot is free.
pub proof fn lemma_tick_keeps_limit(s: SchedulerView, now: Timestamp)
    requires
        s.wf(),
    ensures
        spec_tick(s, now).wf(),
        syncing_count(spec_tick(s, now).jobs) <= s.concurrent,
        spec_tick(s, now).jobs.len() == s.jobs.len(),
        !(spec_tick(s, now).has_waiting_job() && spec_tick(s, now).has_free_slot()),
{
    let n = s.jobs.len();
    let after = spec_tick(s, now);
    if n > 0 {
        lemma_tick_from(s, s.cursor, 0, now);
        if after.has_waiting_job() && after.has_free_slot() {
            let i = choose|i: int|
                0 <= i < after.jobs.len() && (#[trigger] after.jobs[i]).record.status
                    == SyncStatus::PreSyncing;
            lemma_cyclic_reaches(s.cursor, i, n);
            let m = choose|m: nat| m < n && cyclic(s.cursor, m, n) == i;
            assert(after.jobs[cyclic(s.cursor, m, n)].record.status != SyncStatus::PreSyncing);
        }
    }
}

/// How many visits a tick that begins at `start` makes before it reaches
/// place `i`.
pub open spec fn steps_until(start: nat, i: int, n: nat) -> int {
    if i >= start {
        i - start
    } else {
        i + n - start
    }
}

/// Whether a job waits for a slot.
pub open spec fn is_waiting(job: JobView) -> bool {
    job.record.status == SyncStatus::PreSyncing
}

/// Whether a job was started between two states of the scheduler.
pub open spec fn was_started(before: JobView, after: JobView) -> bool {
    !before.is_syncing() && after.is_syncing()
}

/// What holds after the first `k` visits of a tick that began at `start`
/// in state `s0`, where `last` is the step of the last start, or -1.
spec fn order_inv(
    s0: SchedulerView,
    s: SchedulerView,
    start: nat,
    k: nat,
    last: int,
) -> bool {
    let n = s0.jobs.len();
    &&& s.wf()
    &&& s.jobs.len() == n
    &&& -1 <= last < k
    &&& s.cursor == if last >= 0 {
        place_after(cyclic(start, last as nat, n), n)
    } else {
        start
    }
    &&& forall|i: int|
        0 <= i < n && steps_until(start, i, n) >= k ==> (#[trigger] s.jobs[i]) == s0.jobs[i]
    &&& forall|i: int|
        0 <= i < n && steps_until(start, i, n) < k && was_started(s0.jobs[i], #[trigger] s.jobs[i])
            ==> steps_until(start, i, n) <= last
    &&& forall|i: int|
        0 <= i < n && steps_until(start, i, n) < k && is_waiting(#[trigger] s.jobs[i])
            ==> steps_until(start, i, n) > last && !s.has_free_slot()
}

proof fn lemma_tick_order(
    s0: SchedulerView,
    s: SchedulerView,
    start: nat,
    k: nat,
    last: int,
    now: Timestamp,
    w: int,
    r: int,
)
    requires
        start < s0.jobs.len(),
        k <= s0.jobs.len(),
        order_inv(s0, s, start, k, last),
        0 <= w < s0.jobs.len(),
        0 <= r < s0.jobs.len(),
        is_waiting(tick_from(s, start, k, s0.jobs.len(), now).jobs[w]),
        was_started(s0.jobs[r], tick_from(s, start, k, s0.jobs.len(), now).jobs[r]),
    ensures
        steps_until(tick_from(s, start, k, s0.jobs.len(), now).cursor, w, s0.jobs.len())
            < steps_until(tick_from(s, start, k, s0.jobs.len(), now).cursor, r, s0.jobs.len()),
    decreases s0.jobs.len() - k,
{
    let n = s0.jobs.len();
    if k < n {
        let i = cyclic(start, k, n);
        let next = visit(s, i, now);
        lemma_visit(s, i, now);
        assert(steps_until(start, i, n) == k);
        assert(s.jobs[i] == s0.jobs[i]);
        let new_last = if visit_starts(s, i, now) {
            k as int
        } else {
            last
        };
        assert(order_inv(s0, next, start, k + 1, new_last)) by {
            assert forall|j: int|
                0 <= j < n && steps_until(start, j, n) >= k + 1 implies (#[trigger] next.jobs[j])
                == s0.jobs[j] by {
                assert(j != i);
                assert(next.jobs[j] == s.jobs[j]);
            }
            assert forall|j: int|
                0 <= j < n && steps_until(start, j, n) < k + 1 && was_started(
                    s0.jobs[j],
                    #[trigger] next.jobs[j],
                ) implies steps_until(start, j, n) <= new_last by {
                if j != i {
                    assert(next.jobs[j] == s.jobs[j]);
                }
            }
            assert forall|j: int|
                0 <= j < n && steps_until(start, j, n) < k + 1 && is_waiting(
                    #[trigger] next.jobs[j],
                ) implies steps_until(start, j, n) > new_last && !next.has_free_slot() by {
                if j != i {
                    assert(next.jobs[j] == s.jobs[j]);
                    assert(is_waiting(s.jobs[j]));
                }
            }
        }
        lemma_tick_order(s0, next, start, k + 1, new_last, now, w, r);
    }
}

/// Fairness of a tick: a job that is left waiting is reached by the next
/// tick before every job that this tick started.
pub proof fn lemma_waiting_jobs_come_first(s: SchedulerView, now: Timestamp, w: int, r: int)
    requires
        s.wf(),
        0 <= w < s.jobs.len(),
        0 <= r < s.jobs.len(),
        is_waiting(spec_tick(s, now).jobs[w]),
        was_started(s.jobs[r], spec_tick(s, now).jobs[r]),
    ensures
        steps_until(spec_tick(s, now).cursor, w, s.jobs.len()) < steps_until(
            spec_tick(s, now).cursor,
            r,
            s.jobs.len(),
        ),
{
    lemma_tick_order(s, s, s.cursor, 0, -1, now, w, r);
}

/// The end of an attempt and a command keep the scheduler well-formed:
/// neither makes a job sync that did not.
pub proof fn lemma_events_keep_limit(
    s: SchedulerView,
    mirror: Seq<char>,
    run_id: u64,
    exit_code: Option<i32>,
    size: Seq<char>,
    verb: CmdVerb,
    now: Timestamp,
)
    requires
        s.wf(),
    ensures
        spec_on_exit(s, mirror, run_id, exit_code, size, now).wf(),
        spec_on_command(s, mirror, verb, now).wf(),
{
    lemma_find(s.jobs, mirror);
    match spec_find(s.jobs, mirror) {
        Some(i) => {
            lemma_count_update(s.jobs, i, spec_finish(s.jobs[i], run_id, exit_code, size, now));
            lemma_count_update(s.jobs, i, spec_command(s.jobs[i], verb, now));
        },
        None => {},
    }
}

// --------------------------------------------------------------- scheduler

/// The jobs of a worker with the limit and the cursor. Its steps ask for a
/// well-formed table; `Scheduler` keeps it well-formed.
struct JobTable {
    concurrent: u32,
    jobs: Vec<Job>,
    cursor: usize,
}

impl View for JobTable {
    type V = SchedulerView;

    closed spec fn view(&self) -> SchedulerView {
        SchedulerView {
            concurrent: self.concurrent,
            jobs: job_views(self.jobs@),
            cursor: self.cursor as nat,
        }
    }
}

/// Counts the jobs that sync.
fn count_syncing(jobs: &Vec<Job>) -> (count: usize)
    ensures
        count == syncing_count(job_views(jobs@)),
{
    let ghost views = job_views(jobs@);
    let mut count: usize = 0;
    let mut i: usize = 0;
    while i < jobs.len()
        invariant
            i <= jobs.len(),
            views == job_views(jobs@),
            count <= i,
            count == syncing_count(views.subrange(0, i as int)),
        decreases jobs.len() - i,
    {
        proof {
            let next = views.subrange(0, i + 1);
            assert(next.drop_last() =~= views.subrange(0, i as int));
            assert(next.last() == jobs[i as int]@);
        }
        if jobs[i].is_syncing() {
            count += 1;
        }
        i += 1;
    }
    assert(views.subrange(0, i as int) =~= views);
    count
}

/// Finds the first job of a name.
fn find_job(jobs: &Vec<Job>, name: &str) -> (found: Option<usize>)
    ensures
        match found {
            Some(i) => spec_find(job_views(jobs@), name@) == Some(i as int) && i < jobs.len(),
            None => spec_find(job_views(jobs@), name@) is None,
        },
{
    let ghost views = job_views(jobs@);
    let mut i: usize = 0;
    while i < jobs.len()
        invariant
            i <= jobs.len(),
            views == job_views(jobs@),
            spec_find(views.subrange(0, i as int), name@) is None,
        decreases jobs.len() - i,
    {
        proof {
            let next = views.subrange(0, i + 1);
            assert(next.drop_last() =~= views.subrange(0, i as int));
            assert(next.last() == jobs[i as int]@);
        }
        if str_eq(jobs[i].record.name.as_str(), name) {
            proof {
                lemma_find_prefix(views, i + 1, name@);
            }
            return Some(i);
        }
        i += 1;
    }
    assert(views.subrange(0, i as int) =~= views);
    None
}

/// What is found among the first jobs is found among all of them.
proof fn lemma_find_prefix(jobs: Seq<JobView>, len: int, name: Seq<char>)
    requires
        0 <= len <= jobs.len(),
        spec_find(jobs.subrange(0, len), name) is Some,
    ensures
        spec_find(jobs, name) == spec_find(jobs.subrange(0, len), name),
    decreases jobs.len() - len,
{
    if len < jobs.len() {
        let longer = jobs.subrange(0, len + 1);
        assert(longer.drop_last() =~= jobs.subrange(0, len));
        lemma_find_prefix(jobs, len + 1, name);
    } else {
        assert(jobs.subrange(0, len) =~= jobs);
    }
}

impl JobTable {
    /// A table without jobs and without slots, its cursor at the start.
    fn empty() -> (table: JobTable)
        ensures
            table@ == (SchedulerView { concurrent: 0, jobs: Seq::empty(), cursor: 0 }),
            table@.wf(),
    {
        let table = JobTable { concurrent: 0, jobs: Vec::new(), cursor: 0 };
        assert(table@.jobs =~= Seq::empty());
        table
    }

    /// The table of a worker that starts up with these jobs, and the
    /// reports of the runs that were cut short.
    fn new(concurrent: u32, jobs: Vec<Job>, now: Timestamp) -> (r: (JobTable, Vec<Action>))
        ensures
            r.0@.wf(),
            r.0@.concurrent == concurrent,
            r.0@.jobs == reconciled(job_views(jobs@), now),
            r.0@.cursor == 0,
            syncing_count(r.0@.jobs) == 0,
            action_views(r.1@) == reconcile_reports(job_views(jobs@), now),
    {
        let ghost before = job_views(jobs@);
        let mut jobs = jobs;
        let mut actions: Vec<Action> = Vec::new();
        let mut i: usize = 0;
        assert(action_views(actions@) =~= reconcile_reports(before.subrange(0, 0), now));
        while i < jobs.len()
            invariant
                i <= jobs.len(),
                jobs.len() == before.len(),
                forall|k: int| 0 <= k < i ==> (#[trigger] jobs[k])@ == spec_reconcile(before[k], now),
                forall|k: int| i <= k < jobs.len() ==> (#[trigger] jobs[k])@ == before[k],
                action_views(actions@) == reconcile_reports(before.subrange(0, i as int), now),
            decreases jobs.len() - i,
        {
            proof {
                let next = before.subrange(0, i + 1);
                assert(next.drop_last() =~= before.subrange(0, i as int));
                assert(next.last() == before[i as int]);
            }
            let ghost reports = action_views(actions@);
            let job = &mut jobs[i];
            let changed = job.reconcile(now);
            if changed {
                let report = Action::Report(jobs[i].record.duplicate());
                actions.push(report);
                assert(action_views(actions@) =~= reports.push(
                    ActionView::Report(spec_reconcile(before[i as int], now).record),
                ));
            } else {
                assert(action_views(actions@) =~= reports);
            }
            i += 1;
        }
        let table = JobTable { concurrent, jobs, cursor: 0 };
        proof {
            assert(before.subrange(0, i as int) =~= before);
            assert(table@.jobs =~= reconciled(before, now));
            lemma_count_none(table@.jobs);
        }
        (table, actions)
    }

    fn concurrent(&self) -> (concurrent: u32)
        ensures
            concurrent == self@.concurrent,
    {
        self.concurrent
    }

    fn job_count(&self) -> (count: usize)
        ensures
            count == self@.jobs.len(),
    {
        self.jobs.len()
    }

    fn job(&self, i: usize) -> (job: Option<&Job>)
        ensures
            match job {
                Some(job) => i < self@.jobs.len() && job@ == self@.jobs[i as int],
                None => i >= self@.jobs.len(),
            },
    {
        if i < self.jobs.len() {
            Some(&self.jobs[i])
        } else {
            None
        }
    }

    fn syncing(&self) -> (count: usize)
        ensures
            count == syncing_count(self@.jobs),
    {
        count_syncing(&self.jobs)
    }

    fn records(&self) -> (records: Vec<MirrorStatus>)
        ensures
            records.len() == self@.jobs.len(),
            forall|i: int| 0 <= i < records.len() ==> (#[trigger] records[i])@ == self@.jobs[i].record,
    {
        let mut records: Vec<MirrorStatus> = Vec::new();
        let mut i: usize = 0;
        while i < self.jobs.len()
            invariant
                i <= self.jobs.len(),
                records.len() == i,
                forall|k: int| 0 <= k < i ==> (#[trigger] records[k])@ == self.jobs[k]@.record,
            decreases self.jobs.len() - i,
        {
            records.push(self.jobs[i].record.duplicate());
            i += 1;
        }
        records
    }

    /// One tick over a well-formed table.
    fn tick(&mut self, now: Timestamp) -> (actions: Vec<Action>)
        requires
            old(self)@.wf(),
        ensures
            final(self)@ == spec_tick(old(self)@, now),
            action_views(actions@) == spec_tick_actions(old(self)@, now),
            final(self)@.wf(),
            syncing_count(final(self)@.jobs) <= final(self)@.concurrent,
            !(final(self)@.has_waiting_job() && final(self)@.has_free_slot()),
    {
        proof {
            lemma_tick_keeps_limit(self@, now);
        }
        let mut actions: Vec<Action> = Vec::new();
        let n = self.jobs.len();
        let start = self.cursor;
        let mut running = count_syncing(&self.jobs);
        let mut k: usize = 0;
        assert(action_views(actions@) =~= Seq::empty());
        while k < n
            invariant
                k <= n,
                n == self.jobs.len(),
                start < n || n == 0,
                self@.wf(),
                running == syncing_count(self@.jobs),
                tick_from(self@, start as nat, k as nat, n as nat, now) == spec_tick(old(self)@, now),
                action_views(actions@) + tick_actions_from(
                    self@,
                    start as nat,
                    k as nat,
                    n as nat,
                    now,
                ) == spec_tick_actions(old(self)@, now),
            decreases n - k,
        {
            let i = if k < n - start {
                start + k
            } else {
                k - (n - start)
            };
            let ghost before = self@;
            let ghost emitted = action_views(actions@);
            proof {
                lemma_visit(before, i as int, now);
            }
            let free = running < self.concurrent as usize;
            let job = &mut self.jobs[i];
            let due = job.schedule(now);
            if job.record.status == SyncStatus::PreSyncing && free {
                let start_order = job.start_run(now);
                let report = Action::Report(job.record.duplicate());
                actions.push(report);
                actions.push(start_order);
                running = running + 1;
                self.cursor = if i + 1 < n {
                    i + 1
                } else {
                    0
                };
            } else if due {
                let report = Action::Report(job.record.duplicate());
                actions.push(report);
            }
            proof {
                assert(self@.jobs =~= visit(before, i as int, now).jobs);
                assert(self@ == visit(before, i as int, now));
                assert(action_views(actions@) =~= emitted + visit_actions(before, i as int, now));
                let rest = tick_actions_from(self@, start as nat, (k + 1) as nat, n as nat, now);
                assert(emitted + (visit_actions(before, i as int, now) + rest) =~= (emitted
                    + visit_actions(before, i as int, now)) + rest);
            }
            k += 1;
        }
        assert(action_views(actions@) + Seq::<ActionView>::empty() =~= action_views(actions@));
        actions
    }

    /// The end of an attempt, on a well-formed table.
    fn on_exit(
        &mut self,
        mirror: &str,
        run_id: u64,
        exit_code: Option<i32>,
        size: &str,
        now: Timestamp,
    ) -> (actions: Vec<Action>)
        requires
            old(self)@.wf(),
        ensures
            final(self)@ == spec_on_exit(old(self)@, mirror@, run_id, exit_code, size@, now),
            action_views(actions@) == spec_on_exit_actions(
                old(self)@,
                mirror@,
                run_id,
                exit_code,
                size@,
                now,
            ),
            final(self)@.wf(),
            syncing_count(final(self)@.jobs) <= syncing_count(old(self)@.jobs),
    {
        proof {
            lemma_events_keep_limit(
                self@,
                mirror@,
                run_id,
                exit_code,
                size@,
                CmdVerb::CmdPing,
                now,
            );
        }
        match find_job(&self.jobs, mirror) {
            Some(i) => {
                let ghost before = self@;
                let job = &mut self.jobs[i];
                let actions = job.finish(run_id, exit_code, size, now);
                proof {
                    let after = spec_finish(before.jobs[i as int], run_id, exit_code, size@, now);
                    assert(self@.jobs =~= before.jobs.update(i as int, after));
                    lemma_count_update(before.jobs, i as int, after);
                }
                actions
            },
            None => {
                let actions: Vec<Action> = Vec::new();
                assert(action_views(actions@) =~= Seq::empty());
                actions
            },
        }
    }

    /// A command, on a well-formed table.
    fn on_command(&mut self, cmd: &WorkerCmd, now: Timestamp) -> (actions: Vec<Action>)
        requires
            old(self)@.wf(),
        ensures
            final(self)@ == spec_on_command(old(self)@, cmd.mirror_id@, cmd.cmd, now),
            action_views(actions@) == spec_on_command_actions(
                old(self)@,
                cmd.mirror_id@,
                cmd.cmd,
                now,
            ),
            final(self)@.wf(),
            syncing_count(final(self)@.jobs) <= syncing_count(old(self)@.jobs),
    {
        proof {
            lemma_events_keep_limit(
                self@,
                cmd.mirror_id@,
                0,
                None,
                Seq::empty(),
                cmd.cmd,
                now,
            );
        }
        match find_job(&self.jobs, cmd.mirror_id.as_str()) {
            Some(i) => {
                let ghost before = self@;
                let job = &mut self.jobs[i];
                let actions = job.command(cmd.cmd, now);
                proof {
                    let after = spec_command(before.jobs[i as int], cmd.cmd, now);
                    assert(self@.jobs =~= before.jobs.update(i as int, after));
                    lemma_count_update(before.jobs, i as int, after);
                }
                actions
            },
            None => {
                let actions: Vec<Action> = Vec::new();
                assert(action_views(actions@) =~= Seq::empty());
                actions
            },
        }
    }
}

/// The scheduler of a worker. It is well-formed at all times: never more of
/// its jobs sync than its limit allows.
pub struct Scheduler {
    table: JobTable,
}

impl View for Scheduler {
    type V = SchedulerView;

    closed spec fn view(&self) -> SchedulerView {
        self.table@
    }
}

impl Scheduler {
    #[verifier::type_invariant]
    spec fn well_formed(self) -> bool {
        self.table@.wf()
    }

    /// The scheduler of a worker that starts up with these jobs: a run that
    /// was under way when the worker went down is recorded as failed.
    /// Returns the scheduler and the reports of those runs.
    pub fn new(concurrent: u32, jobs: Vec<Job>, now: Timestamp) -> (r: (Scheduler, Vec<Action>))
        ensures
            r.0@.wf(),
            r.0@.concurrent == concurrent,
            r.0@.jobs == reconciled(job_views(jobs@), now),
            r.0@.cursor == 0,
            syncing_count(r.0@.jobs) == 0,
            action_views(r.1@) == reconcile_reports(job_views(jobs@), now),
    {
        let (table, reports) = JobTable::new(concurrent, jobs, now);
        (Scheduler { table }, reports)
    }

    /// How many jobs may sync at once.
    pub fn concurrent(&self) -> (concurrent: u32)
        ensures
            concurrent == self@.concurrent,
    {
        self.table.concurrent()
    }

    /// How many jobs the scheduler has.
    pub fn job_count(&self) -> (count: usize)
        ensures
            count == self@.jobs.len(),
    {
        self.table.job_count()
    }

    /// The job at a place, `None` where there is none.
    pub fn job(&self, i: usize) -> (job: Option<&Job>)
        ensures
            match job {
                Some(job) => i < self@.jobs.len() && job@ == self@.jobs[i as int],
                None => i >= self@.jobs.len(),
            },
    {
        self.table.job(i)
    }

    /// How many jobs sync now: never more than the limit.
    pub fn syncing(&self) -> (count: usize)
        ensures
            count == syncing_count(self@.jobs),
            count <= self@.concurrent,
    {
        proof {
            use_type_invariant(self);
        }
        self.table.syncing()
    }

    /// The status records of all jobs, in order.
    pub fn records(&self) -> (records: Vec<MirrorStatus>)
        ensures
            records.len() == self@.jobs.len(),
            forall|i: int| 0 <= i < records.len() ==> (#[trigger] records[i])@ == self@.jobs[i].record,
    {
        self.table.records()
    }

    /// One tick: every job is visited once, beginning at the cursor. A job
    /// whose run is due is sent to wait for a slot, and a waiting job is
    /// started while a slot is free. Never more jobs sync than the limit
    /// allows, and no job is left waiting while a slot is free.
    pub fn tick(&mut self, now: Timestamp) -> (actions: Vec<Action>)
        ensures
            old(self)@.wf(),
            final(self)@ == spec_tick(old(self)@, now),
            action_views(actions@) == spec_tick_actions(old(self)@, now),
            final(self)@.wf(),
            syncing_count(final(self)@.jobs) <= final(self)@.concurrent,
            !(final(self)@.has_waiting_job() && final(self)@.has_free_slot()),
    {
        proof {
            use_type_invariant(&*self);
        }
        let mut table = JobTable::empty();
        core::mem::swap(&mut self.table, &mut table);
        let actions = table.tick(now);
        core::mem::swap(&mut self.table, &mut table);
        actions
    }

    /// Takes note that the provider has ended the attempt `run_id` of a
    /// mirror with this exit code, and that its log reports this size. A
    /// mirror that the scheduler does not know, and an attempt that is not
    /// running, change nothing.
    pub fn on_exit(
        &mut self,
        mirror: &str,
        run_id: u64,
        exit_code: Option<i32>,
        size: &str,
        now: Timestamp,
    ) -> (actions: Vec<Action>)
        ensures
            old(self)@.wf(),
            final(self)@ == spec_on_exit(old(self)@, mirror@, run_id, exit_code, size@, now),
            action_views(actions@) == spec_on_exit_actions(
                old(self)@,
                mirror@,
                run_id,
                exit_code,
                size@,
                now,
            ),
            final(self)@.wf(),
            syncing_count(final(self)@.jobs) <= syncing_count(old(self)@.jobs),
    {
        proof {
            use_type_invariant(&*self);
        }
        let mut table = JobTable::empty();
        core::mem::swap(&mut self.table, &mut table);
        let actions = table.on_exit(mirror, run_id, exit_code, size, now);
        core::mem::swap(&mut self.table, &mut table);
        actions
    }

    /// Carries out a command of the manager on the mirror it names. A
    /// mirror that the scheduler does not know changes nothing.
    pub fn on_command(&mut self, cmd: &WorkerCmd, now: Timestamp) -> (actions: Vec<Action>)
        ensures
            old(self)@.wf(),
            final(self)@ == spec_on_command(old(self)@, cmd.mirror_id@, cmd.cmd, now),
            action_views(actions@) == spec_on_command_actions(
                old(self)@,
                cmd.mirror_id@,
                cmd.cmd,
                now,
            ),
            final(self)@.wf(),
            syncing_count(final(self)@.jobs) <= syncing_count(old(self)@.jobs),
    {
        proof {
            use_type_invariant(&*self);
        }
        let mut table = JobTable::empty();
        core::mem::swap(&mut self.table, &mut table);
        let actions = table.on_command(cmd, now);
        core::mem::swap(&mut self.table, &mut table);
        actions
    }
}

} // verus!