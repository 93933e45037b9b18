//! The commands that wait at the manager until the worker they are meant
//! for asks for them.

use vstd::prelude::*;

use crate::msg::{ClientCmd, WorkerCmd};
use crate::text::str_eq;

verus! {

/// The command that a worker receives for a client's command: the same
/// verb, mirror, options and arguments.
pub open spec fn relayed(cmd: ClientCmd) -> WorkerCmd {
    WorkerCmd { options: cmd.options, args: cmd.args, mirror_id: cmd.mirror_id, cmd: cmd.cmd }
}

/// The commands for a worker among those that wait, in the order in which
/// they came.
pub open spec fn commands_for(pending: Seq<ClientCmd>, worker_id: Seq<char>) -> Seq<WorkerCmd>
    decreases pending.len(),
{
    if pending.len() == 0 {
        Seq::empty()
    } else if pending.last().worker_id@ == worker_id {
        commands_for(pending.drop_last(), worker_id).push(relayed(pending.last()))
    } else {
        commands_for(pending.drop_last(), worker_id)
    }
}

/// The commands for other workers among those that wait, in the order in
/// which they came.
pub open spec fn commands_for_others(pending: Seq<ClientCmd>, worker_id: Seq<char>) -> Seq<
    ClientCmd,
>
    decreases pending.len(),
{
    if pending.len() == 0 {
        Seq::empty()
    } else if pending.last().worker_id@ == worker_id {
        commands_for_others(pending.drop_last(), worker_id)
    } else {
        commands_for_others(pending.drop_last(), worker_id).push(pending.last())
    }
}

/// The commands that wait for their workers.
pub struct CommandQueue {
    pending: Vec<ClientCmd>,
}

impl View for CommandQueue {
    type V = Seq<ClientCmd>;

    closed spec fn view(&self) -> Seq<ClientCmd> {
        self.pending@
    }
}

impl CommandQueue {
    /// A queue in which nothing waits.
    pub fn new() -> (queue: CommandQueue)
        ensures
            queue@ == Seq::<ClientCmd>::empty(),
    {
        CommandQueue { pending: Vec::new() }
    }

    /// How many commands wait.
    pub fn len(&self) -> (n: usize)
        ensures
            n == self@.len(),
    {
        self.pending.len()
    }

    /// Lets a command wait for its worker, behind those that wait already.
    pub fn push(&mut self, cmd: ClientCmd)
        ensures
            final(self)@ == old(self)@.push(cmd),
    {
        self.pending.push(cmd);
    }

    /// Hands a worker the commands that wait for it, in the order in which
    /// they came. The commands for other workers go on waiting.
    pub fn poll(&mut self, worker_id: &str) -> (commands: Vec<WorkerCmd>)
        ensures
            commands@ == commands_for(old(self)@, worker_id@),
            final(self)@ == commands_for_others(old(self)@, worker_id@),
    {
        let ghost all = self.pending@;
        let mut waiting: Vec<ClientCmd> = Vec::new();
        core::mem::swap(&mut self.pending, &mut waiting);
        let mut commands: Vec<WorkerCmd> = Vec::new();
        let total = waiting.len();
        let mut done: usize = 0;
        while done < total
            invariant
                done <= total,
                total == all.len(),
                waiting@ == all.subrange(done as int, total as int),
                commands@ == commands_for(all.subrange(0, done as int), worker_id@),
                self.pending@ == commands_for_others(all.subrange(0, done as int), worker_id@),
            decreases total - done,
        {
            proof {
                let next = all.subrange(0, done + 1);
                assert(next.drop_last() =~= all.subrange(0, done as int));
                assert(next.last() == all[done as int]);
                assert(waiting@[0] == all[done as int]);
            }
            let cmd = waiting.remove(0);
            assert(waiting@ =~= all.subrange(done + 1, total as int));
            if str_eq(cmd.worker_id.as_str(), worker_id) {
                commands.push(cmd.into_worker_cmd());
            } else {
                self.pending.push(cmd);
            }
            done += 1;
        }
        assert(all.subrange(0, done as int) =~= all);
        commands
    }
}

} // verus!
