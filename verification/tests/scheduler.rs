use hustsync::job::{attempt_overdue, failure_reason, Action, Job};
use hustsync::msg::{CmdVerb, MirrorStatus, WorkerCmd};
use hustsync::policy::{JobHooks, JobPolicy};
use hustsync::scheduler::Scheduler;
use hustsync::status::SyncStatus;
use hustsync::time::Timestamp;
use std::collections::HashMap;

fn at(secs: i64) -> Timestamp {
    Timestamp::new(secs, 0)
}

fn policy(retry: u32) -> JobPolicy {
    JobPolicy { retry, timeout: Some(3600), interval: 120, success_exit_codes: Vec::new() }
}

fn hooks() -> JobHooks {
    JobHooks {
        on_success: vec!["ok-1".to_string(), "ok-extra".to_string()],
        on_failure: vec!["bad-1".to_string(), "bad-extra".to_string()],
    }
}

fn job(name: &str, retry: u32) -> Job {
    Job::fresh(name, "w1", "rsync://upstream/", true, policy(retry), hooks(), at(0))
}

fn scheduler(concurrent: u32, names: &[&str], retry: u32) -> Scheduler {
    let jobs = names.iter().map(|name| job(name, retry)).collect();
    let (scheduler, reports) = Scheduler::new(concurrent, jobs, at(0));
    assert!(reports.is_empty());
    scheduler
}

fn statuses(s: &Scheduler) -> Vec<SyncStatus> {
    s.records().into_iter().map(|r| r.status).collect()
}

fn command(verb: CmdVerb, mirror: &str) -> WorkerCmd {
    WorkerCmd { options: HashMap::new(), args: Vec::new(), mirror_id: mirror.to_string(), cmd: verb }
}

fn started(actions: &[Action]) -> Vec<(String, u64)> {
    actions
        .iter()
        .filter_map(|a| match a {
            Action::StartProvider { mirror, run_id, .. } => Some((mirror.clone(), *run_id)),
            _ => None,
        })
        .collect()
}

fn hook_runs(actions: &[Action]) -> Vec<(bool, Vec<String>)> {
    actions
        .iter()
        .filter_map(|a| match a {
            Action::RunHooks { succeeded, commands, .. } => Some((*succeeded, commands.clone())),
            _ => None,
        })
        .collect()
}

fn reports(actions: &[Action]) -> Vec<MirrorStatus> {
    actions
        .iter()
        .filter_map(|a| match a {
            Action::Report(record) => Some(record.clone()),
            _ => None,
        })
        .collect()
}

#[test]
fn one_slot_two_mirrors_due_at_once() {
    let mut s = scheduler(1, &["elvish", "other"], 0);
    let actions = s.tick(at(10));
    assert_eq!(statuses(&s), vec![SyncStatus::Syncing, SyncStatus::PreSyncing]);
    assert_eq!(started(&actions), vec![("elvish".to_string(), 1)]);
    assert_eq!(s.syncing(), 1);

    let again = s.tick(at(11));
    assert!(again.is_empty());
    assert_eq!(statuses(&s), vec![SyncStatus::Syncing, SyncStatus::PreSyncing]);

    let done = s.on_exit("elvish", 1, Some(0), "1.33T", at(20));
    assert_eq!(hook_runs(&done), vec![(true, vec!["ok-1".to_string(), "ok-extra".to_string()])]);
    assert_eq!(statuses(&s), vec![SyncStatus::Success, SyncStatus::PreSyncing]);

    let next = s.tick(at(21));
    assert_eq!(started(&next), vec![("other".to_string(), 1)]);
    assert_eq!(statuses(&s), vec![SyncStatus::Success, SyncStatus::Syncing]);
}

#[test]
fn never_more_syncing_than_the_limit() {
    for concurrent in 1..=4u32 {
        let mut s = scheduler(concurrent, &["a", "b", "c", "d", "e", "f"], 1);
        let mut now = 0;
        for round in 0..40 {
            now += 200;
            let actions = s.tick(at(now));
            assert!(s.syncing() <= concurrent as usize);
            let waiting = statuses(&s).iter().filter(|x| **x == SyncStatus::PreSyncing).count();
            assert!(waiting == 0 || s.syncing() == concurrent as usize);
            for (mirror, run_id) in started(&actions) {
                if (round + mirror.len()) % 3 == 0 {
                    s.on_exit(&mirror, run_id, Some(23), "", at(now + 1));
                } else {
                    s.on_exit(&mirror, run_id, Some(0), "1G", at(now + 1));
                }
                assert!(s.syncing() <= concurrent as usize);
            }
        }
    }
}

#[test]
fn a_limit_of_zero_starts_nothing() {
    let mut s = scheduler(0, &["a", "b"], 0);
    let actions = s.tick(at(10));
    assert!(started(&actions).is_empty());
    assert_eq!(statuses(&s), vec![SyncStatus::PreSyncing, SyncStatus::PreSyncing]);
    assert_eq!(reports(&actions).len(), 2);
    assert_eq!(s.syncing(), 0);
    assert_eq!(s.concurrent(), 0);
}

#[test]
fn waiting_jobs_come_before_those_that_ran() {
    let mut s = scheduler(1, &["a", "b", "c"], 0);
    assert_eq!(started(&s.tick(at(1))), vec![("a".to_string(), 1)]);
    s.on_exit("a", 1, Some(0), "", at(2));
    assert_eq!(started(&s.tick(at(3))), vec![("b".to_string(), 1)]);
    s.on_exit("b", 1, Some(0), "", at(4));
    assert_eq!(started(&s.tick(at(5))), vec![("c".to_string(), 1)]);
    s.on_exit("c", 1, Some(0), "", at(6));
    assert!(s.tick(at(7)).is_empty());
    let later = s.tick(at(500));
    assert_eq!(started(&later), vec![("a".to_string(), 2)]);
    assert_eq!(
        statuses(&s),
        vec![SyncStatus::Syncing, SyncStatus::PreSyncing, SyncStatus::PreSyncing]
    );
}

#[test]
fn exit_code_23_is_a_partial_transfer() {
    let mut s = scheduler(1, &["elvish"], 1);
    s.tick(at(10));
    let first = s.on_exit("elvish", 1, Some(23), "", at(20));
    assert!(hook_runs(&first).is_empty());
    assert_eq!(started(&first), vec![("elvish".to_string(), 2)]);
    let reported = reports(&first);
    assert_eq!(reported.len(), 1);
    assert_eq!(reported[0].status, SyncStatus::Failed);
    assert_eq!(reported[0].error_msg, "Partial transfer due to error");
    assert_eq!(statuses(&s), vec![SyncStatus::Syncing]);
    assert_eq!(s.job(0).unwrap().retries_left, 0);

    let last = s.on_exit("elvish", 2, Some(23), "", at(30));
    assert_eq!(
        hook_runs(&last),
        vec![(false, vec!["bad-1".to_string(), "bad-extra".to_string()])]
    );
    assert!(started(&last).is_empty());
    let record = &s.records()[0];
    assert_eq!(record.status, SyncStatus::Failed);
    assert_eq!(record.error_msg, "Partial transfer due to error");
    assert_eq!(record.last_started, at(20));
    assert_eq!(record.lastt_ended, at(30));
    assert_eq!(record.next_scheduled, at(150));
    assert_eq!(record.last_update, at(30));
    assert_eq!(reports(&last), vec![record.clone()]);
    assert_eq!(s.syncing(), 0);
}

#[test]
fn failure_hooks_run_once_after_the_last_retry() {
    let mut s = scheduler(2, &["m"], 3);
    s.tick(at(1));
    let mut failure_hooks = 0;
    let mut attempts = 1;
    for run in 1..=4u64 {
        let actions = s.on_exit("m", run, Some(12), "", at(10 + run as i64));
        failure_hooks += hook_runs(&actions).len();
        attempts += started(&actions).len();
        if run < 4 {
            assert_eq!(statuses(&s), vec![SyncStatus::Syncing]);
            assert_eq!(failure_hooks, 0);
        }
    }
    assert_eq!(attempts, 4);
    assert_eq!(failure_hooks, 1);
    assert_eq!(statuses(&s), vec![SyncStatus::Failed]);
    assert!(s.on_exit("m", 4, Some(12), "", at(99)).is_empty());
    assert!(s.on_exit("m", 5, Some(12), "", at(99)).is_empty());
    assert_eq!(statuses(&s), vec![SyncStatus::Failed]);
}

#[test]
fn success_stores_the_size_and_clears_the_error() {
    let mut s = scheduler(1, &["m"], 1);
    s.tick(at(10));
    s.on_exit("m", 1, Some(30), "", at(20));
    assert_eq!(s.job(0).unwrap().record.error_msg, "Timeout in data send/receive");
    let done = s.on_exit("m", 2, Some(0), "2.5G", at(40));
    let record = &s.records()[0];
    assert_eq!(record.status, SyncStatus::Success);
    assert_eq!(record.size, "2.5G");
    assert_eq!(record.error_msg, "");
    assert_eq!(record.lastt_ended, at(40));
    assert_eq!(record.next_scheduled, at(160));
    assert_eq!(hook_runs(&done).len(), 1);
    assert!(s.tick(at(159)).is_empty());
    assert_eq!(started(&s.tick(at(160))), vec![("m".to_string(), 3)]);
}

#[test]
fn a_notice_about_another_run_or_mirror_is_ignored() {
    let mut s = scheduler(1, &["m"], 0);
    s.tick(at(10));
    assert!(s.on_exit("m", 7, Some(0), "", at(20)).is_empty());
    assert!(s.on_exit("unknown", 1, Some(0), "", at(20)).is_empty());
    assert_eq!(statuses(&s), vec![SyncStatus::Syncing]);
    assert_eq!(s.records()[0].last_update, at(10));
}

#[test]
fn extra_success_codes_and_missing_exit_codes() {
    let mut p = policy(0);
    p.success_exit_codes = vec![24];
    let jobs = vec![Job::fresh("m", "w1", "u", false, p, hooks(), at(0))];
    let (mut s, _) = Scheduler::new(1, jobs, at(0));
    s.tick(at(1));
    s.on_exit("m", 1, Some(24), "9M", at(2));
    assert_eq!(statuses(&s), vec![SyncStatus::Success]);
    s.tick(at(1000));
    s.on_exit("m", 2, None, "", at(1001));
    assert_eq!(statuses(&s), vec![SyncStatus::Failed]);
    assert_eq!(s.records()[0].error_msg, "terminated without an exit code");
    assert_eq!(s.records()[0].size, "9M");
    assert_eq!(failure_reason(Some(99)), "unknown, code 99");
    assert_eq!(failure_reason(None), "terminated without an exit code");
}

#[test]
fn paused_and_disabled_mirrors_are_never_started() {
    let mut s = scheduler(2, &["a", "b", "c"], 0);
    let stop = s.on_command(&command(CmdVerb::CmdStop, "a"), at(1));
    assert_eq!(reports(&stop).len(), 1);
    s.on_command(&command(CmdVerb::CmdDisable, "b"), at(1));
    assert_eq!(statuses(&s), vec![SyncStatus::Paused, SyncStatus::Disabled, SyncStatus::NeverSynced]);
    for now in [10, 1000, 100000] {
        let actions = s.tick(at(now));
        for (mirror, run_id) in started(&actions) {
            assert_eq!(mirror, "c");
            s.on_exit("c", run_id, Some(0), "", at(now + 1));
        }
        assert_eq!(statuses(&s)[0], SyncStatus::Paused);
        assert_eq!(statuses(&s)[1], SyncStatus::Disabled);
    }
    s.on_command(&command(CmdVerb::CmdStart, "a"), at(200000));
    assert_eq!(statuses(&s)[0], SyncStatus::PreSyncing);
    let actions = s.tick(at(200001));
    assert!(started(&actions).contains(&("a".to_string(), 1)));
}

#[test]
fn stop_preempts_a_running_job() {
    let mut s = scheduler(1, &["a", "b"], 2);
    s.tick(at(10));
    let actions = s.on_command(&command(CmdVerb::CmdStop, "a"), at(15));
    assert_eq!(
        actions[0],
        Action::StopProvider { mirror: "a".to_string(), run_id: 1 }
    );
    assert_eq!(statuses(&s), vec![SyncStatus::Paused, SyncStatus::PreSyncing]);
    assert_eq!(s.records()[0].lastt_ended, at(15));
    assert_eq!(s.syncing(), 0);
    assert!(s.on_exit("a", 1, None, "", at(16)).is_empty());
    assert_eq!(statuses(&s)[0], SyncStatus::Paused);
    assert_eq!(started(&s.tick(at(17))), vec![("b".to_string(), 1)]);
}

#[test]
fn restart_sends_a_job_back_to_wait() {
    let mut s = scheduler(1, &["a"], 0);
    s.tick(at(10));
    let actions = s.on_command(&command(CmdVerb::CmdRestart, "a"), at(12));
    assert_eq!(actions.len(), 2);
    assert_eq!(statuses(&s), vec![SyncStatus::PreSyncing]);
    assert_eq!(started(&s.tick(at(13))), vec![("a".to_string(), 2)]);
    assert!(s.on_exit("a", 1, Some(0), "", at(14)).is_empty());
    assert_eq!(statuses(&s), vec![SyncStatus::Syncing]);
    s.on_exit("a", 2, Some(0), "", at(15));
    s.on_command(&command(CmdVerb::CmdRestart, "a"), at(16));
    assert_eq!(statuses(&s), vec![SyncStatus::PreSyncing]);
}

#[test]
fn ping_reload_and_start_of_a_running_job_change_nothing() {
    let mut s = scheduler(1, &["a"], 0);
    s.tick(at(10));
    let before = s.records();
    assert!(s.on_command(&command(CmdVerb::CmdPing, "a"), at(11)).is_empty());
    assert!(s.on_command(&command(CmdVerb::CmdReload, "a"), at(11)).is_empty());
    assert!(s.on_command(&command(CmdVerb::CmdStart, "a"), at(11)).is_empty());
    assert!(s.on_command(&command(CmdVerb::CmdStop, "nobody"), at(11)).is_empty());
    assert_eq!(s.records(), before);
}

#[test]
fn startup_turns_interrupted_runs_into_failures() {
    let mut running = job("a", 2);
    running.start_run(at(50));
    let mut waiting = job("b", 0);
    waiting.schedule(at(50));
    let idle = job("c", 0);
    let (s, reported) = Scheduler::new(1, vec![running, waiting, idle], at(40));
    assert_eq!(
        statuses(&s),
        vec![SyncStatus::Failed, SyncStatus::PreSyncing, SyncStatus::NeverSynced]
    );
    assert_eq!(s.syncing(), 0);
    let record = &s.records()[0];
    assert_eq!(record.error_msg, "interrupted by a restart of the worker");
    assert_eq!(record.last_started, at(50));
    assert_eq!(record.lastt_ended, at(50));
    assert_eq!(record.last_update, at(40));
    assert_eq!(reported, vec![Action::Report(record.clone())]);
    assert_eq!(s.job_count(), 3);
    assert!(s.job(3).is_none());
}

#[test]
fn a_run_never_ends_before_it_started() {
    let mut j = job("a", 0);
    j.schedule(at(100));
    let start = j.start_run(at(100));
    assert_eq!(
        start,
        Action::StartProvider { mirror: "a".to_string(), run_id: 1, timeout: Some(3600) }
    );
    j.finish(1, Some(0), "", at(90));
    assert_eq!(j.record.last_started, at(100));
    assert_eq!(j.record.lastt_ended, at(100));
    assert_eq!(j.record.next_scheduled, at(220));
    assert_eq!(j.record.last_update, at(90));
    assert!(!j.is_due(at(219)));
    assert!(j.is_due(at(220)));
    assert_eq!(j.status(), SyncStatus::Success);
    assert!(!j.is_syncing());
}

#[test]
fn the_next_run_is_never_scheduled_earlier_than_before() {
    let mut j = job("a", 0);
    j.record.next_scheduled = at(10_000);
    j.record.status = SyncStatus::PreSyncing;
    j.start_run(at(100));
    j.finish(1, Some(1), "", at(200));
    assert_eq!(j.record.next_scheduled, at(10_000));
    assert_eq!(j.status(), SyncStatus::Failed);
    assert_eq!(j.record.error_msg, "Syntax or usage error");
}

#[test]
fn run_numbers_wrap_around() {
    let mut j = job("a", 0);
    j.run_id = u64::MAX;
    j.record.status = SyncStatus::PreSyncing;
    let start = j.start_run(at(1));
    assert_eq!(start, Action::StartProvider { mirror: "a".to_string(), run_id: 0, timeout: Some(3600) });
}

#[test]
fn an_empty_scheduler_ticks() {
    let (mut s, reports) = Scheduler::new(3, Vec::new(), at(0));
    assert!(reports.is_empty());
    assert!(s.tick(at(1)).is_empty());
    assert_eq!(s.job_count(), 0);
    assert_eq!(s.syncing(), 0);
}

#[test]
fn an_attempt_is_overdue_once_its_timeout_has_passed() {
    assert!(!attempt_overdue(at(100), None, at(1_000_000)));
    assert!(!attempt_overdue(at(100), Some(60), at(100)));
    assert!(!attempt_overdue(at(100), Some(60), at(159)));
    assert!(attempt_overdue(at(100), Some(60), at(160)));
    assert!(attempt_overdue(at(100), Some(60), at(161)));
    assert!(attempt_overdue(at(100), Some(0), at(100)));
    assert!(!attempt_overdue(
        Timestamp::new(100, 5),
        Some(60),
        Timestamp::new(160, 4)
    ));
    assert!(attempt_overdue(
        Timestamp::new(100, 5),
        Some(60),
        Timestamp::new(160, 5)
    ));
}
