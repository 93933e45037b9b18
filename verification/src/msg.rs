//! The messages that a manager and its workers exchange.

use std::collections::HashMap;
use vstd::prelude::*;

use crate::status::SyncStatus;
use crate::time::Timestamp;

verus! {

/// The status of one mirror on one worker: what a worker reports and what
/// the manager stores, keyed by worker and mirror name.
#[derive(Debug, Clone, PartialEq, Eq)]
pub struct MirrorStatus {
    pub name: String,
    pub worker: String,
    pub upstream: String,
    pub size: String,
    pub error_msg: String,
    pub last_update: Timestamp,
    pub last_started: Timestamp,
    pub lastt_ended: Timestamp,
    pub next_scheduled: Timestamp,
    pub status: SyncStatus,
    pub is_master: bool,
}

/// What a `MirrorStatus` holds, as plain values.
pub struct MirrorStatusView {
    pub name: Seq<char>,
    pub worker: Seq<char>,
    pub upstream: Seq<char>,
    pub size: Seq<char>,
    pub error_msg: Seq<char>,
    pub last_update: Timestamp,
    pub last_started: Timestamp,
    pub lastt_ended: Timestamp,
    pub next_scheduled: Timestamp,
    pub status: SyncStatus,
    pub is_master: bool,
}

impl View for MirrorStatus {
    type V = MirrorStatusView;

    open spec fn view(&self) -> MirrorStatusView {
        MirrorStatusView {
            name: self.name@,
            worker: self.worker@,
            upstream: self.upstream@,
            size: self.size@,
            error_msg: self.error_msg@,
            last_update: self.last_update,
            last_started: self.last_started,
            lastt_ended: self.lastt_ended,
            next_scheduled: self.next_scheduled,
            status: self.status,
            is_master: self.is_master,
        }
    }
}

impl MirrorStatus {
    /// A copy of this record.
    pub fn duplicate(&self) -> (copy: MirrorStatus)
        ensures
            copy@ == self@,
    {
        MirrorStatus {
            name: self.name.clone(),
            worker: self.worker.clone(),
            upstream: self.upstream.clone(),
            size: self.size.clone(),
            error_msg: self.error_msg.clone(),
            last_update: self.last_update,
            last_started: self.last_started,
            lastt_ended: self.lastt_ended,
            next_scheduled: self.next_scheduled,
            status: self.status,
            is_master: self.is_master,
        }
    }
}

/// A worker as the manager knows it.
#[derive(Debug, Clone, PartialEq, Eq)]
pub struct WorkerStatus {
    pub id: String,
    pub url: String,
    pub token: String,
    pub last_online: Timestamp,
    pub last_register: Timestamp,
}

/// What a `WorkerStatus` holds, as plain values.
pub struct WorkerStatusView {
    pub id: Seq<char>,
    pub url: Seq<char>,
    pub token: Seq<char>,
    pub last_online: Timestamp,
    pub last_register: Timestamp,
}

impl View for WorkerStatus {
    type V = WorkerStatusView;

    open spec fn view(&self) -> WorkerStatusView {
        WorkerStatusView {
            id: self.id@,
            url: self.url@,
            token: self.token@,
            last_online: self.last_online,
            last_register: self.last_register,
        }
    }
}

impl WorkerStatusView {
    /// Whether the worker has not been heard of for longer than the grace
    /// period: its record is kept, but the worker counts as unreachable.
    pub open spec fn is_stale(self, now: Timestamp, grace_secs: u32) -> bool {
        self.last_online.spec_plus_seconds(grace_secs).spec_is_before(now)
    }
}

impl WorkerStatus {
    /// Whether the worker has not been heard of for longer than the grace
    /// period.
    pub fn is_stale(&self, now: Timestamp, grace_secs: u32) -> (stale: bool)
        ensures
            stale == self@.is_stale(now, grace_secs),
    {
        self.last_online.plus_seconds(grace_secs).is_before(now)
    }

    /// A copy of this record.
    pub fn duplicate(&self) -> (copy: WorkerStatus)
        ensures
            copy@ == self@,
    {
        WorkerStatus {
            id: self.id.clone(),
            url: self.url.clone(),
            token: self.token.clone(),
            last_online: self.last_online,
            last_register: self.last_register,
        }
    }
}

/// The answer to a schedule query: when each mirror runs next.
#[derive(Debug, Clone, PartialEq, Eq)]
pub struct MirrorSchedules {
    pub schedules: Vec<MirrorSchedule>,
}

#[derive(Debug, Clone, PartialEq, Eq)]
pub struct MirrorSchedule {
    pub name: String,
    pub next_schedule: Timestamp,
}

/// What a command asks a worker to do with a mirror.
#[derive(Debug, Clone, Copy, PartialEq, Eq, Structural)]
pub enum CmdVerb {
    CmdStart,
    CmdStop,
    CmdDisable,
    CmdRestart,
    CmdPing,
    CmdReload,
}

/// A command from the manager to a worker.
#[derive(Debug, Clone, PartialEq, Eq)]
pub struct WorkerCmd {
    pub options: HashMap<String, bool>,
    pub args: Vec<String>,
    pub mirror_id: String,
    pub cmd: CmdVerb,
}

/// A command from a client, relayed by the manager to the worker it names.
#[derive(Debug, Clone, PartialEq, Eq)]
pub struct ClientCmd {
    pub options: HashMap<String, bool>,
    pub args: Vec<String>,
    pub mirror_id: String,
    pub worker_id: String,
    pub cmd: CmdVerb,
}

impl ClientCmd {
    /// The command that the named worker receives: the same verb, mirror,
    /// options and arguments, without the worker's name.
    pub fn into_worker_cmd(self) -> (cmd: WorkerCmd)
        ensures
            cmd.cmd == self.cmd,
            cmd.mirror_id == self.mirror_id,
            cmd.args == self.args,
            cmd.options == self.options,
    {
        WorkerCmd { options: self.options, args: self.args, mirror_id: self.mirror_id, cmd: self.cmd }
    }
}

/// The schedule entries of a list of records, one for each, in order.
pub open spec fn schedules_of(records: Seq<MirrorStatus>) -> Seq<(Seq<char>, Timestamp)> {
    Seq::new(records.len(), |i: int| (records[i].name@, records[i].next_scheduled))
}

impl MirrorSchedules {
    pub open spec fn entries(&self) -> Seq<(Seq<char>, Timestamp)> {
        Seq::new(
            self.schedules@.len(),
            |i: int| (self.schedules@[i].name@, self.schedules@[i].next_schedule),
        )
    }

    /// Answers a schedule query from the records of a worker's mirrors.
    pub fn from_records(records: &Vec<MirrorStatus>) -> (answer: MirrorSchedules)
        ensures
            answer.entries() == schedules_of(records@),
    {
        let mut schedules: Vec<MirrorSchedule> = Vec::new();
        let mut i: usize = 0;
        while i < records.len()
            invariant
                i <= records.len(),
                schedules.len() == i,
                forall|k: int|
                    0 <= k < i ==> (#[trigger] schedules[k]).name@ == records[k].name@
                        && schedules[k].next_schedule == records[k].next_scheduled,
            decreases records.len() - i,
        {
            schedules.push(
                MirrorSchedule {
                    name: records[i].name.clone(),
                    next_schedule: records[i].next_scheduled,
                },
            );
            i += 1;
        }
        let answer = MirrorSchedules { schedules };
        assert(answer.entries() =~= schedules_of(records@));
        answer
    }
}

} // verus!
