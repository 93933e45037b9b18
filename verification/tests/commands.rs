use hustsync::commands::CommandQueue;
use hustsync::msg::{ClientCmd, CmdVerb, WorkerCmd};
use std::collections::HashMap;

fn client(worker: &str, mirror: &str, verb: CmdVerb) -> ClientCmd {
    ClientCmd {
        options: HashMap::new(),
        args: vec![mirror.to_uppercase()],
        mirror_id: mirror.to_string(),
        worker_id: worker.to_string(),
        cmd: verb,
    }
}

fn relayed(mirror: &str, verb: CmdVerb) -> WorkerCmd {
    WorkerCmd {
        options: HashMap::new(),
        args: vec![mirror.to_uppercase()],
        mirror_id: mirror.to_string(),
        cmd: verb,
    }
}

#[test]
fn a_worker_gets_its_commands_in_order() {
    let mut queue = CommandQueue::new();
    assert_eq!(queue.len(), 0);
    assert!(queue.poll("w1").is_empty());
    queue.push(client("w1", "a", CmdVerb::CmdStart));
    queue.push(client("w2", "b", CmdVerb::CmdStop));
    queue.push(client("w1", "c", CmdVerb::CmdRestart));
    queue.push(client("w2", "d", CmdVerb::CmdDisable));
    queue.push(client("w1", "a", CmdVerb::CmdPing));
    assert_eq!(queue.len(), 5);
    assert_eq!(
        queue.poll("w1"),
        vec![
            relayed("a", CmdVerb::CmdStart),
            relayed("c", CmdVerb::CmdRestart),
            relayed("a", CmdVerb::CmdPing),
        ]
    );
    assert_eq!(queue.len(), 2);
    assert!(queue.poll("w1").is_empty());
    assert!(queue.poll("w3").is_empty());
    assert_eq!(queue.len(), 2);
    queue.push(client("w2", "e", CmdVerb::CmdReload));
    assert_eq!(
        queue.poll("w2"),
        vec![
            relayed("b", CmdVerb::CmdStop),
            relayed("d", CmdVerb::CmdDisable),
            relayed("e", CmdVerb::CmdReload),
        ]
    );
    assert_eq!(queue.len(), 0);
}
