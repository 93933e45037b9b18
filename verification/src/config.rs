//! The configuration of a manager and of a worker, and how the settings of
//! one mirror are resolved against those of its worker.
//!
//! Every field is optional. `Default` gives the documented defaults.

use std::collections::HashMap;
use vstd::prelude::*;
use vstd::string::StringExecFns;

verus! {

/// The text of an optional string.
pub open spec fn text_of(field: Option<String>) -> Option<Seq<char>> {
    match field {
        Some(text) => Some(text@),
        None => None,
    }
}

#[derive(Debug, PartialEq)]
pub struct ManagerConfig {
    pub server: Option<ManagerServerConfig>,
    pub files: Option<ManagerFileConfig>,
    pub debug: Option<bool>,
}

impl ManagerConfig {
    pub open spec fn is_default(&self) -> bool {
        &&& self.server matches Some(server) && server.is_default()
        &&& self.files matches Some(files) && files.is_default()
        &&& self.debug == Some(false)
    }
}

impl Default for ManagerConfig {
    fn default() -> (config: Self)
        ensures
            config.is_default(),
    {
        ManagerConfig {
            server: Some(ManagerServerConfig::default()),
            files: Some(ManagerFileConfig::default()),
            debug: Some(false),
        }
    }
}

#[derive(Debug, PartialEq)]
pub struct ManagerServerConfig {
    pub addr: Option<String>,
    pub port: Option<u16>,
    pub ssl_cert: Option<String>,
    pub ssl_key: Option<String>,
}

impl ManagerServerConfig {
    pub open spec fn is_default(&self) -> bool {
        &&& text_of(self.addr) == Some("127.0.0.1"@)
        &&& self.port == Some(12345u16)
        &&& text_of(self.ssl_cert) == Some(""@)
        &&& text_of(self.ssl_key) == Some(""@)
    }
}

impl Default for ManagerServerConfig {
    fn default() -> (config: Self)
        ensures
            config.is_default(),
    {
        ManagerServerConfig {
            addr: Some(String::from_str("127.0.0.1")),
            port: Some(12345),
            ssl_cert: Some(String::from_str("")),
            ssl_key: Some(String::from_str("")),
        }
    }
}

#[derive(Debug, PartialEq)]
pub struct ManagerFileConfig {
    pub db_type: Option<String>,
    pub db_file: Option<String>,
    pub ca_cert: Option<String>,
}

impl ManagerFileConfig {
    pub open spec fn is_default(&self) -> bool {
        &&& text_of(self.db_type) == Some("bolt"@)
        &&& text_of(self.db_file) == Some("/tmp/tunasync/manager.db"@)
        &&& text_of(self.ca_cert) == Some(""@)
    }
}

impl Default for ManagerFileConfig {
    fn default() -> (config: Self)
        ensures
            config.is_default(),
    {
        ManagerFileConfig {
            db_type: Some(String::from_str("bolt")),
            db_file: Some(String::from_str("/tmp/tunasync/manager.db")),
            ca_cert: Some(String::from_str("")),
        }
    }
}

#[derive(Debug, PartialEq)]
pub struct WorkerConfig {
    pub global: Option<WorkerGlobalConfig>,
    pub manager: Option<WorkerManagerConfig>,
    pub cgroup: Option<WorkerCgroupConfig>,
    pub server: Option<WorkerServerConfig>,
    pub mirrors: Option<Vec<MirrorConfig>>,
}

impl WorkerConfig {
    pub open spec fn is_default(&self) -> bool {
        &&& self.global matches Some(global) && global.is_default()
        &&& self.manager matches Some(manager) && manager.is_default()
        &&& self.cgroup matches Some(cgroup) && cgroup.is_default()
        &&& self.server matches Some(server) && server.is_default()
        &&& self.mirrors matches Some(mirrors) && mirrors@.len() == 1 && mirrors@[0].is_default()
    }
}

impl Default for WorkerConfig {
    fn default() -> (config: Self)
        ensures
            config.is_default(),
    {
        let mut mirrors: Vec<MirrorConfig> = Vec::new();
        mirrors.push(MirrorConfig::default());
        WorkerConfig {
            global: Some(WorkerGlobalConfig::default()),
            manager: Some(WorkerManagerConfig::default()),
            cgroup: Some(WorkerCgroupConfig::default()),
            server: Some(WorkerServerConfig::default()),
            mirrors: Some(mirrors),
        }
    }
}

#[derive(Debug, PartialEq)]
pub struct WorkerGlobalConfig {
    pub retry: Option<RetryStrategy>,
    pub exec_on_status: Option<ExecOnStatus>,
    pub name: Option<String>,
    pub log_dir: Option<String>,
    pub mirror_dir: Option<String>,
    pub concurrent: Option<u32>,
    pub rsync_options: Option<Vec<String>>,
    pub dangerous_global_success_exit_codes: Option<Vec<i32>>,
}

impl WorkerGlobalConfig {
    pub open spec fn is_default(&self) -> bool {
        &&& self.retry == Some(RetryStrategy { retry: None, timeout: None, interval: Some(120u32) })
        &&& self.exec_on_status == Some(
            ExecOnStatus { exec_on_success: None, exec_on_failure: None },
        )
        &&& text_of(self.name) == Some("test_worker"@)
        &&& text_of(self.log_dir) == Some("/tmp/tunasync/log/tunasync/{{.Name}}"@)
        &&& text_of(self.mirror_dir) == Some("/tmp/tunasync"@)
        &&& self.concurrent == Some(10u32)
        &&& self.rsync_options is None
        &&& self.dangerous_global_success_exit_codes is None
    }
}

impl Default for WorkerGlobalConfig {
    fn default() -> (config: Self)
        ensures
            config.is_default(),
    {
        WorkerGlobalConfig {
            retry: Some(RetryStrategy { retry: None, timeout: None, interval: Some(120) }),
            exec_on_status: Some(ExecOnStatus { exec_on_success: None, exec_on_failure: None }),
            name: Some(String::from_str("test_worker")),
            log_dir: Some(String::from_str("/tmp/tunasync/log/tunasync/{{.Name}}")),
            mirror_dir: Some(String::from_str("/tmp/tunasync")),
            concurrent: Some(10),
            rsync_options: None,
            dangerous_global_success_exit_codes: None,
        }
    }
}

#[derive(Debug, PartialEq)]
pub struct WorkerManagerConfig {
    pub api_base: Option<String>,
    pub token: Option<String>,
    pub ca_cert: Option<String>,
}

impl WorkerManagerConfig {
    pub open spec fn is_default(&self) -> bool {
        &&& text_of(self.api_base) == Some("http://localhost:12345"@)
        &&& text_of(self.token) == Some(""@)
        &&& text_of(self.ca_cert) == Some(""@)
    }
}

impl Default for WorkerManagerConfig {
    fn default() -> (config: Self)
        ensures
            config.is_default(),
    {
        WorkerManagerConfig {
            api_base: Some(String::from_str("http://localhost:12345")),
            token: Some(String::from_str("")),
            ca_cert: Some(String::from_str("")),
        }
    }
}

#[derive(Debug, PartialEq)]
pub struct WorkerCgroupConfig {
    pub enable: Option<bool>,
    pub base_path: Option<String>,
    pub group: Option<String>,
}

impl WorkerCgroupConfig {
    pub open spec fn is_default(&self) -> bool {
        &&& self.enable == Some(false)
        &&& text_of(self.base_path) == Some("/sys/fs/cgroup"@)
        &&& text_of(self.group) == Some("tunasync"@)
    }
}

impl Default for WorkerCgroupConfig {
    fn default() -> (config: Self)
        ensures
            config.is_default(),
    {
        WorkerCgroupConfig {
            enable: Some(false),
            base_path: Some(String::from_str("/sys/fs/cgroup")),
            group: Some(String::from_str("tunasync")),
        }
    }
}

#[derive(Debug, PartialEq)]
pub struct WorkerServerConfig {
    pub hostname: Option<String>,
    pub listen_addr: Option<String>,
    pub listen_port: Option<u16>,
    pub ssl_cert: Option<String>,
    pub ssl_key: Option<String>,
}

impl WorkerServerConfig {
    pub open spec fn is_default(&self) -> bool {
        &&& text_of(self.hostname) == Some("localhost"@)
        &&& text_of(self.listen_addr) == Some("127.0.0.1"@)
        &&& self.listen_port == Some(6000u16)
        &&& text_of(self.ssl_cert) == Some(""@)
        &&& text_of(self.ssl_key) == Some(""@)
    }
}

impl Default for WorkerServerConfig {
    fn default() -> (config: Self)
        ensures
            config.is_default(),
    {
        WorkerServerConfig {
            hostname: Some(String::from_str("localhost")),
            listen_addr: Some(String::from_str("127.0.0.1")),
            listen_port: Some(6000),
            ssl_cert: Some(String::from_str("")),
            ssl_key: Some(String::from_str("")),
        }
    }
}

#[derive(Debug, PartialEq)]
pub struct MirrorConfig {
    pub retry: Option<RetryStrategy>,
    pub exec_on_status: Option<ExecOnStatus>,
    pub exec_on_status_extra: Option<ExecOnStatusExtra>,
    pub name: Option<String>,
    pub provider: Option<String>,
    pub upstream: Option<String>,
    pub use_ipv6: Option<bool>,
    pub mirror_dir: Option<String>,
    pub mirror_type: Option<String>,
    pub log_dir: Option<String>,
    pub env: Option<HashMap<String, String>>,
    pub role: Option<String>,
    pub command: Option<String>,
    pub fail_on_match: Option<String>,
    pub size_pattern: Option<String>,
    pub rsync_options: Option<Vec<String>>,
    pub stage1_profile: Option<String>,
    pub memory_limit: Option<String>,
}

impl MirrorConfig {
    pub open spec fn is_default(&self) -> bool {
        &&& self.retry == Some(RetryStrategy { retry: None, timeout: None, interval: None })
        &&& self.exec_on_status == Some(
            ExecOnStatus { exec_on_success: None, exec_on_failure: None },
        )
        &&& self.exec_on_status_extra == Some(
            ExecOnStatusExtra { exec_on_success_extra: None, exec_on_failure_extra: None },
        )
        &&& text_of(self.name) == Some("elvish"@)
        &&& text_of(self.provider) == Some("rsync"@)
        &&& text_of(self.upstream) == Some("rsync://rsync.elv.sh/elvish/"@)
        &&& self.use_ipv6 == Some(false)
        &&& self.mirror_dir is None
        &&& self.mirror_type is None
        &&& self.log_dir is None
        &&& self.env is None
        &&& self.role is None
        &&& self.command is None
        &&& self.fail_on_match is None
        &&& self.size_pattern is None
        &&& self.rsync_options is None
        &&& self.stage1_profile is None
        &&& self.memory_limit is None
    }
}

impl Default for MirrorConfig {
    fn default() -> (config: Self)
        ensures
            config.is_default(),
    {
        MirrorConfig {
            retry: Some(RetryStrategy { retry: None, timeout: None, interval: None }),
            exec_on_status: Some(ExecOnStatus { exec_on_success: None, exec_on_failure: None }),
            exec_on_status_extra: Some(
                ExecOnStatusExtra { exec_on_success_extra: None, exec_on_failure_extra: None },
            ),
            name: Some(String::from_str("elvish")),
            provider: Some(String::from_str("rsync")),
            upstream: Some(String::from_str("rsync://rsync.elv.sh/elvish/")),
            use_ipv6: Some(false),
            mirror_dir: None,
            mirror_type: None,
            log_dir: None,
            env: None,
            role: None,
            command: None,
            fail_on_match: None,
            size_pattern: None,
            rsync_options: None,
            stage1_profile: None,
            memory_limit: None,
        }
    }
}

/// How often and how long a job is tried. `retry` counts the attempts after
/// the first one; `timeout` bounds one attempt, in seconds; `interval` is the
/// delay, in seconds, before the next scheduled run after a terminal outcome.
/// A field left out is inherited from the enclosing scope.
#[derive(Debug, PartialEq)]
pub struct RetryStrategy {
    pub retry: Option<u32>,
    pub timeout: Option<u32>,
    pub interval: Option<u32>,
}

/// Commands to run when a job reaches a terminal state.
#[derive(Debug, PartialEq)]
pub struct ExecOnStatus {
    pub exec_on_success: Option<Vec<String>>,
    pub exec_on_failure: Option<Vec<String>>,
}

/// Commands of a mirror that run after, never instead of, the base hooks.
#[derive(Debug, PartialEq)]
pub struct ExecOnStatusExtra {
    pub exec_on_success_extra: Option<Vec<String>>,
    pub exec_on_failure_extra: Option<Vec<String>>,
}

} // verus!
