//! Log records of the manager. The functions here say what is logged; the
//! program hands the record to its logger.

use vstd::prelude::*;
use vstd::string::StringExecFns;

verus! {

#[derive(Debug, Clone, Copy, PartialEq, Eq, Structural)]
pub enum LogLevel {
    Trace,
    Debug,
    Info,
    Warn,
    Error,
}

/// One line for the log: how severe, under which target, and what.
#[derive(Debug, Clone, PartialEq, Eq)]
pub struct LogRecord {
    pub level: LogLevel,
    pub target: String,
    pub message: String,
}

/// The target that every record of the manager is logged under.
pub open spec fn log_target() -> Seq<char> {
    "hustsync"@
}

impl LogRecord {
    /// Whether this is the record of `msg` at `level` under the manager's
    /// target.
    pub open spec fn is(&self, level: LogLevel, msg: Seq<char>) -> bool {
        &&& self.level == level
        &&& self.target@ == log_target()
        &&& self.message@ == msg
    }
}

fn record(level: LogLevel, msg: &str) -> (r: LogRecord)
    ensures
        r.is(level, msg@),
{
    LogRecord { level, target: String::from_str("hustsync"), message: String::from_str(msg) }
}

pub fn info_hustsync(msg: &str) -> (r: LogRecord)
    ensures
        r.is(LogLevel::Info, msg@),
{
    record(LogLevel::Info, msg)
}

pub fn debug_hustsync(msg: &str) -> (r: LogRecord)
    ensures
        r.is(LogLevel::Debug, msg@),
{
    record(LogLevel::Debug, msg)
}

pub fn trace_hustsync(msg: &str) -> (r: LogRecord)
    ensures
        r.is(LogLevel::Trace, msg@),
{
    record(LogLevel::Trace, msg)
}

pub fn warn_hustsync(msg: &str) -> (r: LogRecord)
    ensures
        r.is(LogLevel::Warn, msg@),
{
    record(LogLevel::Warn, msg)
}

pub fn error_hustsync(msg: &str) -> (r: LogRecord)
    ensures
        r.is(LogLevel::Error, msg@),
{
    record(LogLevel::Error, msg)
}

} // verus!
