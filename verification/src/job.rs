//! The life of one mirror's job.
//!
//! A job starts as never synced. When its next run is due it waits for a
//! slot (`PreSyncing`), is admitted (`Syncing`), and ends in `Success` or
//! `Failed`, from where the cycle starts again. A command can pause or
//! disable it from any state; only a start or restart command brings it
//! back.
//!
//! A failed attempt is retried at once while the retry budget lasts. The
//! job stays `Syncing` through its retries; each failed attempt is reported
//! with the status `Failed` and its reason, and the hooks run only when the
//! run as a whole has ended.
//!
//! Nothing here runs a provider or a hook: each step returns the actions
//! that the worker has to perform.

use vstd::prelude::*;
use vstd::string::StringExecFns;

use crate::exit_codes::{classify_exit_code, exit_reason};
use crate::msg::{CmdVerb, MirrorStatus, MirrorStatusView};
use crate::policy::{JobHooks, JobPolicy};
use crate::status::SyncStatus;
use crate::text::copy_strings;
use crate::time::Timestamp;

verus! {

/// What the worker has to do after a step of a job.
#[derive(Debug, Clone, PartialEq, Eq)]
pub enum Action {
    /// Start the provider for this run of the mirror, and stop it after
    /// `timeout` seconds if it has not ended by then.
    StartProvider { mirror: String, run_id: u64, timeout: Option<u32> },
    /// Stop the provider of this run.
    StopProvider { mirror: String, run_id: u64 },
    /// Store this record and report it to the manager.
    Report(MirrorStatus),
    /// Run these commands in order. A command that fails is logged and
    /// changes nothing.
    RunHooks { mirror: String, succeeded: bool, commands: Vec<String> },
}

/// What an `Action` holds, as plain values.
pub enum ActionView {
    StartProvider { mirror: Seq<char>, run_id: u64, timeout: Option<u32> },
    StopProvider { mirror: Seq<char>, run_id: u64 },
    Report(MirrorStatusView),
    RunHooks { mirror: Seq<char>, succeeded: bool, commands: Seq<Seq<char>> },
}

impl View for Action {
    type V = ActionView;

    open spec fn view(&self) -> ActionView {
        match self {
            Action::StartProvider { mirror, run_id, timeout } => ActionView::StartProvider {
                mirror: mirror@,
                run_id: *run_id,
                timeout: *timeout,
            },
            Action::StopProvider { mirror, run_id } => ActionView::StopProvider {
                mirror: mirror@,
                run_id: *run_id,
            },
            Action::Report(record) => ActionView::Report(record@),
            Action::RunHooks { mirror, succeeded, commands } => ActionView::RunHooks {
                mirror: mirror@,
                succeeded: *succeeded,
                commands: commands.deep_view(),
            },
        }
    }
}

/// The views of a list of actions.
pub open spec fn action_views(actions: Seq<Action>) -> Seq<ActionView> {
    Seq::new(actions.len(), |i: int| actions[i]@)
}

/// How many of the actions run hooks.
pub open spec fn hook_runs(actions: Seq<ActionView>) -> nat
    decreases actions.len(),
{
    if actions.len() == 0 {
        0
    } else {
        hook_runs(actions.drop_last()) + if actions.last() is RunHooks {
            1nat
        } else {
            0nat
        }
    }
}

/// The job of one mirror.
#[derive(Debug, Clone, PartialEq, Eq)]
pub struct Job {
    /// The status record of the mirror.
    pub record: MirrorStatus,
    pub policy: JobPolicy,
    pub hooks: JobHooks,
    /// The attempts that may still follow a failure in the current run.
    pub retries_left: u32,
    /// The number of the attempt that is running, or ran last.
    pub run_id: u64,
}

/// What a `Job` holds, as plain values.
pub struct JobView {
    pub record: MirrorStatusView,
    pub retry: u32,
    pub timeout: Option<u32>,
    pub interval: u32,
    pub success_exit_codes: Seq<i32>,
    pub on_success: Seq<Seq<char>>,
    pub on_failure: Seq<Seq<char>>,
    pub retries_left: u32,
    pub run_id: u64,
}

impl View for Job {
    type V = JobView;

    open spec fn view(&self) -> JobView {
        JobView {
            record: self.record@,
            retry: self.policy.retry,
            timeout: self.policy.timeout,
            interval: self.policy.interval,
            success_exit_codes: self.policy.success_exit_codes@,
            on_success: self.hooks.on_success.deep_view(),
            on_failure: self.hooks.on_failure.deep_view(),
            retries_left: self.retries_left,
            run_id: self.run_id,
        }
    }
}

impl JobView {
    /// A job never has more retries left than its policy grants.
    pub open spec fn wf(self) -> bool {
        self.retries_left <= self.retry
    }

    /// Whether the job holds one of the worker's slots.
    pub open spec fn is_syncing(self) -> bool {
        self.record.status == SyncStatus::Syncing
    }

    /// Whether a run that ended with this exit code succeeded.
    pub open spec fn succeeded(self, exit_code: Option<i32>) -> bool {
        match exit_code {
            Some(code) => code == 0 || self.success_exit_codes.contains(code),
            None => false,
        }
    }
}

/// The number of the attempt after this one.
pub open spec fn next_run(run_id: u64) -> u64 {
    if run_id == u64::MAX {
        0
    } else {
        (run_id + 1) as u64
    }
}

/// Why a run failed, in words.
pub open spec fn spec_failure_reason(exit_code: Option<i32>) -> Seq<char> {
    match exit_code {
        Some(code) => exit_reason(code),
        None => "terminated without an exit code"@,
    }
}

/// Whether the next run of the job is due: the job is idle, neither paused
/// nor disabled, and its scheduled time has come.
pub open spec fn spec_is_due(job: JobView, now: Timestamp) -> bool {
    &&& job.record.status == SyncStatus::NeverSynced || job.record.status == SyncStatus::Success
        || job.record.status == SyncStatus::Failed
    &&& job.record.next_scheduled.spec_not_after(now)
}

/// The job once its due run has been noticed: it waits for a slot.
pub open spec fn spec_schedule(job: JobView, now: Timestamp) -> JobView {
    if spec_is_due(job, now) {
        JobView {
            record: MirrorStatusView {
                status: SyncStatus::PreSyncing,
                last_update: now,
                ..job.record
            },
            ..job
        }
    } else {
        job
    }
}

/// The job once it has been given a slot: a new run starts with the whole
/// retry budget.
pub open spec fn spec_start_run(job: JobView, now: Timestamp) -> JobView {
    JobView {
        record: MirrorStatusView {
            status: SyncStatus::Syncing,
            last_started: now,
            last_update: now,
            ..job.record
        },
        retries_left: job.retry,
        run_id: next_run(job.run_id),
        ..job
    }
}

/// The order to start the provider for the current attempt of a job.
pub open spec fn start_order(job: JobView) -> ActionView {
    ActionView::StartProvider { mirror: job.record.name, run_id: job.run_id, timeout: job.timeout }
}

/// The order to stop the provider of the current attempt of a job.
pub open spec fn stop_order(job: JobView) -> ActionView {
    ActionView::StopProvider { mirror: job.record.name, run_id: job.run_id }
}

/// When an attempt that started at `started` has ended, told at `now`:
/// never before it started.
pub open spec fn ended_at(started: Timestamp, now: Timestamp) -> Timestamp {
    started.spec_later(now)
}

/// When the next run is scheduled after a run has ended: an interval
/// after the end, and never earlier than what was scheduled before.
pub open spec fn next_schedule(previous: Timestamp, ended: Timestamp, interval: u32) -> Timestamp {
    previous.spec_later(ended.spec_plus_seconds(interval))
}

/// Whether a notice of an ended attempt is about the attempt that the job
/// is running.
pub open spec fn concerns_current_run(job: JobView, run_id: u64) -> bool {
    job.is_syncing() && job.run_id == run_id
}

/// The job after the provider has ended an attempt.
///
/// A notice about anything but the running attempt changes nothing. A
/// success ends the run. A failure is retried at once while the budget
/// lasts, and ends the run as failed once the budget is spent.
pub open spec fn spec_finish(
    job: JobView,
    run_id: u64,
    exit_code: Option<i32>,
    size: Seq<char>,
    now: Timestamp,
) -> JobView {
    let ended = ended_at(job.record.last_started, now);
    if !concerns_current_run(job, run_id) {
        job
    } else if job.succeeded(exit_code) {
        JobView {
            record: MirrorStatusView {
                status: SyncStatus::Success,
                size: size,
                error_msg: Seq::empty(),
                lastt_ended: ended,
                next_scheduled: next_schedule(job.record.next_scheduled, ended, job.interval),
                last_update: now,
                ..job.record
            },
            ..job
        }
    } else if job.retries_left > 0 {
        JobView {
            record: MirrorStatusView {
                error_msg: spec_failure_reason(exit_code),
                lastt_ended: ended,
                last_started: ended,
                last_update: now,
                ..job.record
            },
            retries_left: (job.retries_left - 1) as u32,
            run_id: next_run(job.run_id),
            ..job
        }
    } else {
        JobView {
            record: MirrorStatusView {
                status: SyncStatus::Failed,
                error_msg: spec_failure_reason(exit_code),
                lastt_ended: ended,
                next_scheduled: next_schedule(job.record.next_scheduled, ended, job.interval),
                last_update: now,
                ..job.record
            },
            ..job
        }
    }
}

/// What the worker has to do after the provider has ended an attempt:
/// nothing for a notice that is not about the running attempt; after a
/// success, report and run the success hooks; after a failure with budget
/// left, report the failed attempt and start the next; after the last
/// failure, report and run the failure hooks.
pub open spec fn spec_finish_actions(
    job: JobView,
    run_id: u64,
    exit_code: Option<i32>,
    size: Seq<char>,
    now: Timestamp,
) -> Seq<ActionView> {
    let after = spec_finish(job, run_id, exit_code, size, now);
    if !concerns_current_run(job, run_id) {
        Seq::empty()
    } else if job.succeeded(exit_code) {
        seq![
            ActionView::Report(after.record),
            ActionView::RunHooks {
                mirror: job.record.name,
                succeeded: true,
                commands: job.on_success,
            },
        ]
    } else if job.retries_left > 0 {
        seq![
            ActionView::Report(
                MirrorStatusView { status: SyncStatus::Failed, ..after.record },
            ),
            start_order(after),
        ]
    } else {
        seq![
            ActionView::Report(after.record),
            ActionView::RunHooks {
                mirror: job.record.name,
                succeeded: false,
                commands: job.on_failure,
            },
        ]
    }
}

/// The status that a command leaves a job in, `None` where the command
/// leaves the job as it is.
pub open spec fn status_after(status: SyncStatus, verb: CmdVerb) -> Option<SyncStatus> {
    match verb {
        CmdVerb::CmdStart => if status == SyncStatus::Syncing || status == SyncStatus::PreSyncing {
            None
        } else {
            Some(SyncStatus::PreSyncing)
        },
        CmdVerb::CmdRestart => Some(SyncStatus::PreSyncing),
        CmdVerb::CmdStop => Some(SyncStatus::Paused),
        CmdVerb::CmdDisable => Some(SyncStatus::Disabled),
        CmdVerb::CmdPing => None,
        CmdVerb::CmdReload => None,
    }
}

/// The job after a command.
///
/// `start` sends an idle, paused or disabled job to wait for a slot;
/// `restart` does so from any state; `stop` pauses and `disable` disables
/// from any state. A running attempt is given up: its end is recorded.
pub open spec fn spec_command(job: JobView, verb: CmdVerb, now: Timestamp) -> JobView {
    match status_after(job.record.status, verb) {
        Some(status) => JobView {
            record: MirrorStatusView {
                status: status,
                lastt_ended: if job.is_syncing() {
                    ended_at(job.record.last_started, now)
                } else {
                    job.record.lastt_ended
                },
                last_update: now,
                ..job.record
            },
            ..job
        },
        None => job,
    }
}

/// What the worker has to do after a command: stop the provider if an
/// attempt was running, and report the new record.
pub open spec fn spec_command_actions(
    job: JobView,
    verb: CmdVerb,
    now: Timestamp,
) -> Seq<ActionView> {
    match status_after(job.record.status, verb) {
        Some(_) => if job.is_syncing() {
            seq![stop_order(job), ActionView::Report(spec_command(job, verb, now).record)]
        } else {
            seq![ActionView::Report(spec_command(job, verb, now).record)]
        },
        None => Seq::empty(),
    }
}

/// The words for a run that was cut short when its worker went down.
pub open spec fn interrupted_reason() -> Seq<char> {
    "interrupted by a restart of the worker"@
}

/// The job as a worker takes it up at startup: a run that was under way
/// when the worker went down has failed.
pub open spec fn spec_reconcile(job: JobView, now: Timestamp) -> JobView {
    if job.is_syncing() {
        JobView {
            record: MirrorStatusView {
                status: SyncStatus::Failed,
                error_msg: interrupted_reason(),
                lastt_ended: ended_at(job.record.last_started, now),
                last_update: now,
                ..job.record
            },
            retries_left: 0,
            ..job
        }
    } else {
        JobView { retries_left: 0, ..job }
    }
}

// ------------------------------------------------------------------- laws

/// A failure with no retry left ends the run as failed and runs the
/// failure hooks exactly once; a failure with retries left runs no hook
/// and starts the next attempt; a success runs the success hooks exactly
/// once.
pub proof fn lemma_hooks_run_once_per_outcome(
    job: JobView,
    exit_code: Option<i32>,
    size: Seq<char>,
    now: Timestamp,
)
    requires
        job.is_syncing(),
    ensures
        ({
            let after = spec_finish(job, job.run_id, exit_code, size, now);
            let actions = spec_finish_actions(job, job.run_id, exit_code, size, now);
            &&& !job.succeeded(exit_code) && job.retries_left == 0 ==> {
                &&& after.record.status == SyncStatus::Failed
                &&& hook_runs(actions) == 1
                &&& actions[1] == ActionView::RunHooks {
                    mirror: job.record.name,
                    succeeded: false,
                    commands: job.on_failure,
                }
            }
            &&& !job.succeeded(exit_code) && job.retries_left > 0 ==> {
                &&& after.is_syncing()
                &&& after.retries_left == job.retries_left - 1
                &&& hook_runs(actions) == 0
                &&& actions[1] == start_order(after)
            }
            &&& job.succeeded(exit_code) ==> {
                &&& after.record.status == SyncStatus::Success
                &&& hook_runs(actions) == 1
                &&& actions[1] == ActionView::RunHooks {
                    mirror: job.record.name,
                    succeeded: true,
                    commands: job.on_success,
                }
            }
        }),
{
    let actions = spec_finish_actions(job, job.run_id, exit_code, size, now);
    assert(actions.len() == 2);
    assert(actions.drop_last().len() == 1);
    assert(actions.drop_last().drop_last().len() == 0);
    reveal_with_fuel(hook_runs, 3);
}

/// A notice about an attempt that is not running runs no hook and changes
/// nothing.
pub proof fn lemma_stale_notice_is_ignored(
    job: JobView,
    run_id: u64,
    exit_code: Option<i32>,
    size: Seq<char>,
    now: Timestamp,
)
    requires
        !job.is_syncing() || run_id != job.run_id,
    ensures
        spec_finish(job, run_id, exit_code, size, now) == job,
        spec_finish_actions(job, run_id, exit_code, size, now).len() == 0,
{
}

/// Once a run has ended, it has not ended before it started, and the next
/// run is scheduled no earlier than the last one was.
pub proof fn lemma_times_after_a_run(
    job: JobView,
    exit_code: Option<i32>,
    size: Seq<char>,
    now: Timestamp,
)
    requires
        job.is_syncing(),
    ensures
        ({
            let after = spec_finish(job, job.run_id, exit_code, size, now);
            &&& after.record.last_started.spec_not_after(after.record.lastt_ended)
            &&& job.record.next_scheduled.spec_not_after(after.record.next_scheduled)
        }),
{
}

/// A partial transfer (exit code 23) fails the attempt, unless the
/// configuration counts that code as a success: the attempt is reported as
/// failed with the words of the table; with retries left the next attempt
/// is ordered at once and the budget falls by one; with none left no
/// provider is started and the job stops syncing.
pub proof fn lemma_partial_transfer_fails(job: JobView, size: Seq<char>, now: Timestamp)
    requires
        job.is_syncing(),
        !job.success_exit_codes.contains(23),
    ensures
        ({
            let after = spec_finish(job, job.run_id, Some(23), size, now);
            let actions = spec_finish_actions(job, job.run_id, Some(23), size, now);
            &&& after.record.error_msg == "Partial transfer due to error"@
            &&& actions[0] matches ActionView::Report(record) && record.status
                == SyncStatus::Failed && record.error_msg == "Partial transfer due to error"@
            &&& job.retries_left > 0 ==> after.is_syncing() && after.retries_left
                == job.retries_left - 1 && actions[1] == start_order(after)
            &&& job.retries_left == 0 ==> after.record.status == SyncStatus::Failed
                && actions[1] is RunHooks
        }),
{
}

/// Says whether an attempt that started at `started` has run out of time
/// at `now`. An attempt without a timeout never does.
pub fn attempt_overdue(started: Timestamp, timeout: Option<u32>, now: Timestamp) -> (r: bool)
    ensures
        r == (timeout matches Some(t) && started.spec_plus_seconds(t).spec_not_after(now)),
{
    match timeout {
        Some(t) => started.plus_seconds(t).not_after(now),
        None => false,
    }
}

/// Whether the times of a record agree: unless a run is under way, the
/// last run has not ended before it started.
pub open spec fn times_agree(job: JobView) -> bool {
    job.is_syncing() || job.record.last_started.spec_not_after(job.record.lastt_ended)
}

/// Every step of a job keeps the times of its record in agreement.
pub proof fn lemma_steps_keep_times(
    job: JobView,
    run_id: u64,
    exit_code: Option<i32>,
    size: Seq<char>,
    verb: CmdVerb,
    now: Timestamp,
)
    requires
        times_agree(job),
    ensures
        times_agree(spec_schedule(job, now)),
        times_agree(spec_start_run(job, now)),
        times_agree(spec_finish(job, run_id, exit_code, size, now)),
        times_agree(spec_command(job, verb, now)),
        times_agree(spec_reconcile(job, now)),
{
}

/// No step of a job but admission makes it sync, and a paused or disabled
/// job is never due.
pub proof fn lemma_only_admission_starts_a_run(job: JobView, verb: CmdVerb, now: Timestamp)
    ensures
        spec_schedule(job, now).is_syncing() ==> job.is_syncing(),
        spec_command(job, verb, now).is_syncing() ==> job.is_syncing(),
        spec_reconcile(job, now).is_syncing() == false,
        job.record.status == SyncStatus::Paused || job.record.status == SyncStatus::Disabled
            ==> spec_schedule(job, now) == job,
{
}

// ------------------------------------------------------------------- steps

/// Says in words why a run failed.
pub fn failure_reason(exit_code: Option<i32>) -> (reason: String)
    ensures
        reason@ == spec_failure_reason(exit_code),
{
    match exit_code {
        Some(code) => classify_exit_code(code),
        None => String::from_str("terminated without an exit code"),
    }
}

fn following_run(run_id: u64) -> (next: u64)
    ensures
        next == next_run(run_id),
{
    if run_id == u64::MAX {
        0
    } else {
        run_id + 1
    }
}

impl Job {
    /// The job of a mirror with this record. No run is under way as far as
    /// the job knows: see `reconcile`.
    pub fn new(record: MirrorStatus, policy: JobPolicy, hooks: JobHooks) -> (job: Job)
        ensures
            job.record == record,
            job.policy == policy,
            job.hooks == hooks,
            job.retries_left == 0,
            job.run_id == 0,
            job@.wf(),
    {
        Job { record, policy, hooks, retries_left: 0, run_id: 0 }
    }

    /// The job of a mirror that has never been synced and is due at once.
    pub fn fresh(
        name: &str,
        worker: &str,
        upstream: &str,
        is_master: bool,
        policy: JobPolicy,
        hooks: JobHooks,
        now: Timestamp,
    ) -> (job: Job)
        ensures
            job@.record == (MirrorStatusView {
                name: name@,
                worker: worker@,
                upstream: upstream@,
                size: Seq::empty(),
                error_msg: Seq::empty(),
                last_update: now,
                last_started: now,
                lastt_ended: now,
                next_scheduled: now,
                status: SyncStatus::NeverSynced,
                is_master,
            }),
            job.policy == policy,
            job.hooks == hooks,
            job.retries_left == 0,
            job.run_id == 0,
            job@.wf(),
            spec_is_due(job@, now),
    {
        let record = MirrorStatus {
            name: String::from_str(name),
            worker: String::from_str(worker),
            upstream: String::from_str(upstream),
            size: String::new(),
            error_msg: String::new(),
            last_update: now,
            last_started: now,
            lastt_ended: now,
            next_scheduled: now,
            status: SyncStatus::NeverSynced,
            is_master,
        };
        Job { record, policy, hooks, retries_left: 0, run_id: 0 }
    }

    pub fn status(&self) -> (status: SyncStatus)
        ensures
            status == self@.record.status,
    {
        self.record.status
    }

    pub fn is_syncing(&self) -> (r: bool)
        ensures
            r == self@.is_syncing(),
    {
        self.record.status == SyncStatus::Syncing
    }

    /// Whether the next run of the job is due.
    pub fn is_due(&self, now: Timestamp) -> (due: bool)
        ensures
            due == spec_is_due(self@, now),
    {
        (self.record.status == SyncStatus::NeverSynced || self.record.status
            == SyncStatus::Success || self.record.status == SyncStatus::Failed)
            && self.record.next_scheduled.not_after(now)
    }

    /// Sends the job to wait for a slot if its next run is due, and says
    /// whether it did.
    pub fn schedule(&mut self, now: Timestamp) -> (due: bool)
        ensures
            due == spec_is_due(old(self)@, now),
            final(self)@ == spec_schedule(old(self)@, now),
            old(self)@.wf() ==> final(self)@.wf(),
    {
        if self.is_due(now) {
            self.record.status = SyncStatus::PreSyncing;
            self.record.last_update = now;
            true
        } else {
            false
        }
    }

    fn start_action(&self) -> (action: Action)
        ensures
            action@ == start_order(self@),
    {
        Action::StartProvider {
            mirror: self.record.name.clone(),
            run_id: self.run_id,
            timeout: self.policy.timeout,
        }
    }

    /// Starts a run: the job syncs, with its whole retry budget. Returns
    /// the order to start the provider.
    pub fn start_run(&mut self, now: Timestamp) -> (action: Action)
        ensures
            final(self)@ == spec_start_run(old(self)@, now),
            action@ == start_order(final(self)@),
            final(self)@.wf(),
    {
        self.record.status = SyncStatus::Syncing;
        self.record.last_started = now;
        self.record.last_update = now;
        self.retries_left = self.policy.retry;
        self.run_id = following_run(self.run_id);
        self.start_action()
    }

    /// Takes note that the provider has ended the attempt `run_id` with
    /// this exit code, and that its log reports this size.
    pub fn finish(
        &mut self,
        run_id: u64,
        exit_code: Option<i32>,
        size: &str,
        now: Timestamp,
    ) -> (actions: Vec<Action>)
        ensures
            final(self)@ == spec_finish(old(self)@, run_id, exit_code, size@, now),
            action_views(actions@) == spec_finish_actions(
                old(self)@,
                run_id,
                exit_code,
                size@,
                now,
            ),
            old(self)@.wf() ==> final(self)@.wf(),
    {
        let mut actions: Vec<Action> = Vec::new();
        if !(self.is_syncing() && self.run_id == run_id) {
            assert(action_views(actions@) =~= Seq::empty());
            return actions;
        }
        let ended = self.record.last_started.later(now);
        if self.policy.is_success(exit_code) {
            self.record.status = SyncStatus::Success;
            self.record.size = String::from_str(size);
            self.record.error_msg = String::new();
            self.record.lastt_ended = ended;
            self.record.next_scheduled = self.record.next_scheduled.later(
                ended.plus_seconds(self.policy.interval),
            );
            self.record.last_update = now;
            actions.push(Action::Report(self.record.duplicate()));
            actions.push(
                Action::RunHooks {
                    mirror: self.record.name.clone(),
                    succeeded: true,
                    commands: copy_strings(&self.hooks.on_success),
                },
            );
        } else if self.retries_left > 0 {
            self.record.error_msg = failure_reason(exit_code);
            self.record.lastt_ended = ended;
            self.record.last_started = ended;
            self.record.last_update = now;
            self.retries_left = self.retries_left - 1;
            self.run_id = following_run(self.run_id);
            let mut failed = self.record.duplicate();
            failed.status = SyncStatus::Failed;
            actions.push(Action::Report(failed));
            actions.push(self.start_action());
        } else {
            self.record.status = SyncStatus::Failed;
            self.record.error_msg = failure_reason(exit_code);
            self.record.lastt_ended = ended;
            self.record.next_scheduled = self.record.next_scheduled.later(
                ended.plus_seconds(self.policy.interval),
            );
            self.record.last_update = now;
            actions.push(Action::Report(self.record.duplicate()));
            actions.push(
                Action::RunHooks {
                    mirror: self.record.name.clone(),
                    succeeded: false,
                    commands: copy_strings(&self.hooks.on_failure),
                },
            );
        }
        assert(action_views(actions@) =~= spec_finish_actions(
            old(self)@,
            run_id,
            exit_code,
            size@,
            now,
        ));
        actions
    }

    /// Carries out a command.
    pub fn command(&mut self, verb: CmdVerb, now: Timestamp) -> (actions: Vec<Action>)
        ensures
            final(self)@ == spec_command(old(self)@, verb, now),
            action_views(actions@) == spec_command_actions(old(self)@, verb, now),
            old(self)@.wf() ==> final(self)@.wf(),
    {
        let mut actions: Vec<Action> = Vec::new();
        let status = self.record.status;
        let target = match verb {
            CmdVerb::CmdStart => if status == SyncStatus::Syncing || status
                == SyncStatus::PreSyncing {
                None
            } else {
                Some(SyncStatus::PreSyncing)
            },
            CmdVerb::CmdRestart => Some(SyncStatus::PreSyncing),
            CmdVerb::CmdStop => Some(SyncStatus::Paused),
            CmdVerb::CmdDisable => Some(SyncStatus::Disabled),
            CmdVerb::CmdPing => None,
            CmdVerb::CmdReload => None,
        };
        match target {
            Some(new_status) => {
                if status == SyncStatus::Syncing {
                    actions.push(
                        Action::StopProvider {
                            mirror: self.record.name.clone(),
                            run_id: self.run_id,
                        },
                    );
                    self.record.lastt_ended = self.record.last_started.later(now);
                }
                self.record.status = new_status;
                self.record.last_update = now;
                actions.push(Action::Report(self.record.duplicate()));
            },
            None => {},
        }
        assert(action_views(actions@) =~= spec_command_actions(old(self)@, verb, now));
        actions
    }

    /// Takes the job up at the start of a worker: a run that was under way
    /// when the worker went down is recorded as failed. Says whether the
    /// record changed.
    pub fn reconcile(&mut self, now: Timestamp) -> (changed: bool)
        ensures
            final(self)@ == spec_reconcile(old(self)@, now),
            changed == old(self)@.is_syncing(),
            !final(self)@.is_syncing(),
            final(self)@.wf(),
    {
        self.retries_left = 0;
        if self.is_syncing() {
            self.record.status = SyncStatus::Failed;
            self.record.error_msg = String::from_str("interrupted by a restart of the worker");
            self.record.lastt_ended = self.record.last_started.later(now);
            self.record.last_update = now;
            true
        } else {
            false
        }
    }
}

} // verus!