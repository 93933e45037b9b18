//! The settings that govern one job, resolved once when the job is set up:
//! the mirror's own value where it has one, else the worker's, else the
//! default.

use vstd::prelude::*;
use vstd::string::StringExecFns;

use crate::config::{ExecOnStatus, ExecOnStatusExtra, MirrorConfig, RetryStrategy, WorkerGlobalConfig};
use crate::text::{copy_strings, extend_strings, str_eq};

verus! {

/// How many jobs of a worker may sync at once where the configuration
/// does not say.
pub const DEFAULT_CONCURRENT: u32 = 10;

/// The delay in seconds before the next scheduled run where the
/// configuration does not say.
pub const DEFAULT_INTERVAL: u32 = 120;

/// The first of two optional values that is set.
pub open spec fn spec_first_set(mirror: Option<u32>, global: Option<u32>) -> Option<u32> {
    match mirror {
        Some(_) => mirror,
        None => global,
    }
}

pub fn first_set(mirror: Option<u32>, global: Option<u32>) -> (r: Option<u32>)
    ensures
        r == spec_first_set(mirror, global),
{
    match mirror {
        Some(_) => mirror,
        None => global,
    }
}

/// The retry settings of a scope that has none: every field is left out.
pub open spec fn strategy_or_none(scope: Option<RetryStrategy>) -> RetryStrategy {
    match scope {
        Some(strategy) => strategy,
        None => RetryStrategy { retry: None, timeout: None, interval: None },
    }
}

/// How a job is retried and rescheduled.
#[derive(Debug, Clone, PartialEq, Eq)]
pub struct JobPolicy {
    /// The attempts that may follow a failed first attempt.
    pub retry: u32,
    /// The seconds that one attempt may take; unbounded where `None`.
    pub timeout: Option<u32>,
    /// The seconds between the end of a run and the next scheduled run.
    pub interval: u32,
    /// Exit codes that count as success besides zero.
    pub success_exit_codes: Vec<i32>,
}

impl JobPolicy {
    /// Whether a run that ended with this exit code succeeded.
    pub open spec fn spec_is_success(&self, exit_code: Option<i32>) -> bool {
        match exit_code {
            Some(code) => code == 0 || self.success_exit_codes@.contains(code),
            None => false,
        }
    }

    pub fn is_success(&self, exit_code: Option<i32>) -> (r: bool)
        ensures
            r == self.spec_is_success(exit_code),
    {
        match exit_code {
            Some(code) => {
                if code == 0 {
                    return true;
                }
                let mut i: usize = 0;
                while i < self.success_exit_codes.len()
                    invariant
                        exit_code == Some(code),
                        i <= self.success_exit_codes.len(),
                        forall|k: int| 0 <= k < i ==> self.success_exit_codes@[k] != code,
                    decreases self.success_exit_codes.len() - i,
                {
                    if self.success_exit_codes[i] == code {
                        assert(self.success_exit_codes@[i as int] == code);
                        return true;
                    }
                    i += 1;
                }
                false
            },
            None => false,
        }
    }

    /// A copy of this policy.
    pub fn duplicate(&self) -> (copy: JobPolicy)
        ensures
            copy.retry == self.retry,
            copy.timeout == self.timeout,
            copy.interval == self.interval,
            copy.success_exit_codes@ == self.success_exit_codes@,
    {
        let mut codes: Vec<i32> = Vec::new();
        let mut i: usize = 0;
        while i < self.success_exit_codes.len()
            invariant
                i <= self.success_exit_codes.len(),
                codes@ == self.success_exit_codes@.subrange(0, i as int),
            decreases self.success_exit_codes.len() - i,
        {
            codes.push(self.success_exit_codes[i]);
            assert(codes@ =~= self.success_exit_codes@.subrange(0, i + 1));
            i += 1;
        }
        assert(codes@ =~= self.success_exit_codes@);
        JobPolicy {
            retry: self.retry,
            timeout: self.timeout,
            interval: self.interval,
            success_exit_codes: codes,
        }
    }
}

/// The retry count of a job: the mirror's, else the worker's, else none
/// beyond the first attempt.
pub open spec fn spec_retry(mirror: RetryStrategy, global: RetryStrategy) -> u32 {
    match spec_first_set(mirror.retry, global.retry) {
        Some(retry) => retry,
        None => 0,
    }
}

/// The timeout of a job: the mirror's, else the worker's, else none.
pub open spec fn spec_timeout(mirror: RetryStrategy, global: RetryStrategy) -> Option<u32> {
    spec_first_set(mirror.timeout, global.timeout)
}

/// The interval of a job: the mirror's, else the worker's, else the
/// default.
pub open spec fn spec_interval(mirror: RetryStrategy, global: RetryStrategy) -> u32 {
    match spec_first_set(mirror.interval, global.interval) {
        Some(interval) => interval,
        None => DEFAULT_INTERVAL,
    }
}

/// The retry settings of the worker.
pub open spec fn global_strategy(global: Option<WorkerGlobalConfig>) -> RetryStrategy {
    match global {
        Some(global) => strategy_or_none(global.retry),
        None => strategy_or_none(None),
    }
}

/// The exit codes that the worker counts as success besides zero.
pub open spec fn global_success_codes(global: Option<WorkerGlobalConfig>) -> Seq<i32> {
    match global {
        Some(global) => match global.dangerous_global_success_exit_codes {
            Some(codes) => codes@,
            None => Seq::empty(),
        },
        None => Seq::empty(),
    }
}

/// Resolves the policy of a mirror's job against the worker's settings.
pub fn resolve_policy(
    mirror: &MirrorConfig,
    global: &Option<WorkerGlobalConfig>,
) -> (policy: JobPolicy)
    ensures
        policy.retry == spec_retry(strategy_or_none(mirror.retry), global_strategy(*global)),
        policy.timeout == spec_timeout(strategy_or_none(mirror.retry), global_strategy(*global)),
        policy.interval == spec_interval(strategy_or_none(mirror.retry), global_strategy(*global)),
        policy.success_exit_codes@ == global_success_codes(*global),
{
    let (m_retry, m_timeout, m_interval) = match &mirror.retry {
        Some(strategy) => (strategy.retry, strategy.timeout, strategy.interval),
        None => (None, None, None),
    };
    let (g_retry, g_timeout, g_interval) = match global {
        Some(global) => match &global.retry {
            Some(strategy) => (strategy.retry, strategy.timeout, strategy.interval),
            None => (None, None, None),
        },
        None => (None, None, None),
    };
    let mut codes: Vec<i32> = Vec::new();
    match global {
        Some(global) => match &global.dangerous_global_success_exit_codes {
            Some(given) => {
                let mut i: usize = 0;
                while i < given.len()
                    invariant
                        i <= given.len(),
                        codes@ == given@.subrange(0, i as int),
                    decreases given.len() - i,
                {
                    codes.push(given[i]);
                    assert(codes@ =~= given@.subrange(0, i + 1));
                    i += 1;
                }
                assert(codes@ =~= given@);
            },
            None => {},
        },
        None => {},
    }
    JobPolicy {
        retry: match first_set(m_retry, g_retry) {
            Some(retry) => retry,
            None => 0,
        },
        timeout: first_set(m_timeout, g_timeout),
        interval: match first_set(m_interval, g_interval) {
            Some(interval) => interval,
            None => DEFAULT_INTERVAL,
        },
        success_exit_codes: codes,
    }
}

/// How many jobs of the worker may sync at once.
pub open spec fn spec_concurrent(global: Option<WorkerGlobalConfig>) -> u32 {
    match global {
        Some(global) => match global.concurrent {
            Some(concurrent) => concurrent,
            None => DEFAULT_CONCURRENT,
        },
        None => DEFAULT_CONCURRENT,
    }
}

pub fn resolve_concurrent(global: &Option<WorkerGlobalConfig>) -> (concurrent: u32)
    ensures
        concurrent == spec_concurrent(*global),
{
    match global {
        Some(global) => match global.concurrent {
            Some(concurrent) => concurrent,
            None => DEFAULT_CONCURRENT,
        },
        None => DEFAULT_CONCURRENT,
    }
}

/// The commands to run when a job ends: the base hooks first, then the
/// mirror's extra hooks.
#[derive(Debug, Clone, PartialEq, Eq)]
pub struct JobHooks {
    pub on_success: Vec<String>,
    pub on_failure: Vec<String>,
}

/// The commands of an optional list.
pub open spec fn commands_of(list: Option<Vec<String>>) -> Seq<Seq<char>> {
    match list {
        Some(commands) => commands.deep_view(),
        None => Seq::empty(),
    }
}

/// The base hooks of a job: the mirror's where it has any, else the
/// worker's.
pub open spec fn base_commands(mirror: Option<Vec<String>>, global: Option<Vec<String>>) -> Seq<
    Seq<char>,
> {
    match mirror {
        Some(commands) => commands.deep_view(),
        None => commands_of(global),
    }
}

pub open spec fn status_hooks_or_none(scope: Option<ExecOnStatus>) -> ExecOnStatus {
    match scope {
        Some(hooks) => hooks,
        None => ExecOnStatus { exec_on_success: None, exec_on_failure: None },
    }
}

pub open spec fn extra_hooks_or_none(scope: Option<ExecOnStatusExtra>) -> ExecOnStatusExtra {
    match scope {
        Some(hooks) => hooks,
        None => ExecOnStatusExtra { exec_on_success_extra: None, exec_on_failure_extra: None },
    }
}

pub open spec fn global_hooks(global: Option<WorkerGlobalConfig>) -> ExecOnStatus {
    match global {
        Some(global) => status_hooks_or_none(global.exec_on_status),
        None => status_hooks_or_none(None),
    }
}

/// The hooks of a mirror's job on success, in the order in which they
/// run.
pub open spec fn spec_success_hooks(
    mirror: MirrorConfig,
    global: Option<WorkerGlobalConfig>,
) -> Seq<Seq<char>> {
    base_commands(
        status_hooks_or_none(mirror.exec_on_status).exec_on_success,
        global_hooks(global).exec_on_success,
    ) + commands_of(extra_hooks_or_none(mirror.exec_on_status_extra).exec_on_success_extra)
}

/// The hooks of a mirror's job on failure, in the order in which they
/// run.
pub open spec fn spec_failure_hooks(
    mirror: MirrorConfig,
    global: Option<WorkerGlobalConfig>,
) -> Seq<Seq<char>> {
    base_commands(
        status_hooks_or_none(mirror.exec_on_status).exec_on_failure,
        global_hooks(global).exec_on_failure,
    ) + commands_of(extra_hooks_or_none(mirror.exec_on_status_extra).exec_on_failure_extra)
}

fn layered(
    mirror: &Option<Vec<String>>,
    global: &Option<Vec<String>>,
    extra: &Option<Vec<String>>,
) -> (r: Vec<String>)
    ensures
        r.deep_view() == base_commands(*mirror, *global) + commands_of(*extra),
{
    let mut commands: Vec<String> = match mirror {
        Some(list) => copy_strings(list),
        None => match global {
            Some(list) => copy_strings(list),
            None => {
                let empty: Vec<String> = Vec::new();
                assert(empty.deep_view() =~= Seq::<Seq<char>>::empty());
                empty
            },
        },
    };
    match extra {
        Some(list) => {
            extend_strings(&mut commands, list);
        },
        None => {
            assert(commands.deep_view() + Seq::<Seq<char>>::empty() =~= commands.deep_view());
        },
    }
    commands
}

/// Resolves the hooks of a mirror's job against the worker's settings.
pub fn resolve_hooks(
    mirror: &MirrorConfig,
    global: &Option<WorkerGlobalConfig>,
) -> (hooks: JobHooks)
    ensures
        hooks.on_success.deep_view() == spec_success_hooks(*mirror, *global),
        hooks.on_failure.deep_view() == spec_failure_hooks(*mirror, *global),
{
    let none: Option<Vec<String>> = None;
    let (m_success, m_failure) = match &mirror.exec_on_status {
        Some(hooks) => (&hooks.exec_on_success, &hooks.exec_on_failure),
        None => (&none, &none),
    };
    let (g_success, g_failure) = match global {
        Some(global) => match &global.exec_on_status {
            Some(hooks) => (&hooks.exec_on_success, &hooks.exec_on_failure),
            None => (&none, &none),
        },
        None => (&none, &none),
    };
    let (x_success, x_failure) = match &mirror.exec_on_status_extra {
        Some(hooks) => (&hooks.exec_on_success_extra, &hooks.exec_on_failure_extra),
        None => (&none, &none),
    };
    JobHooks {
        on_success: layered(m_success, g_success, x_success),
        on_failure: layered(m_failure, g_failure, x_failure),
    }
}

/// A text setting of a job: the mirror's where it has one, else the
/// worker's, else the default.
pub open spec fn spec_resolve_text(
    mirror: Option<String>,
    global: Option<String>,
    default: Seq<char>,
) -> Seq<char> {
    match mirror {
        Some(text) => text@,
        None => match global {
            Some(text) => text@,
            None => default,
        },
    }
}

/// Resolves a text setting of a mirror against that of its worker.
pub fn resolve_text(mirror: &Option<String>, global: &Option<String>, default: &str) -> (text: String)
    ensures
        text@ == spec_resolve_text(*mirror, *global, default@),
{
    match mirror {
        Some(text) => text.clone(),
        None => match global {
            Some(text) => text.clone(),
            None => String::from_str(default),
        },
    }
}

/// Whether the records of a mirror with this role are authoritative: they
/// are unless the role is `slave`.
pub open spec fn spec_is_master(role: Option<String>) -> bool {
    match role {
        Some(role) => role@ != "slave"@,
        None => true,
    }
}

pub fn is_master(role: &Option<String>) -> (master: bool)
    ensures
        master == spec_is_master(*role),
{
    match role {
        Some(role) => !str_eq(role.as_str(), "slave"),
        None => true,
    }
}

/// The seconds without a heartbeat after which the manager counts a worker
/// as unreachable where nothing else is configured.
pub const DEFAULT_WORKER_GRACE_SECS: u32 = 300;

} // verus!