//! The exit codes of an rsync run and what each of them means.

use std::collections::HashMap;
use vstd::prelude::*;
use vstd::string::StringExecFns;

use crate::text::i32_to_decimal;
use crate::text::decimal_text;

verus! {

broadcast use vstd::std_specs::hash::group_hash_axioms;

/// The meaning of a well-known rsync exit code, `None` for any other code.
pub open spec fn rsync_exit_message(code: i32) -> Option<Seq<char>> {
    if code == 0 {
        Some("Success"@)
    } else if code == 1 {
        Some("Syntax or usage error"@)
    } else if code == 2 {
        Some("Protocol incompatibility"@)
    } else if code == 3 {
        Some("Errors selecting input/output files, dirs"@)
    } else if code == 4 {
        Some(
            "Requested action not supported: an attempt was made to manipulate 64-bit files on a platform that cannot support them; or an option was specified that is supported by the client and not by the server."@,
        )
    } else if code == 5 {
        Some("Error starting client-server protocol"@)
    } else if code == 6 {
        Some("Daemon unable to append to log-file"@)
    } else if code == 10 {
        Some("Error in socket I/O"@)
    } else if code == 11 {
        Some("Error in file I/O"@)
    } else if code == 12 {
        Some("Error in rsync protocol data stream"@)
    } else if code == 13 {
        Some("Errors with program diagnostics"@)
    } else if code == 14 {
        Some("Error in IPC code"@)
    } else if code == 20 {
        Some("Received SIGUSR1 or SIGINT"@)
    } else if code == 21 {
        Some("Some error returned by waitpid()"@)
    } else if code == 22 {
        Some("Error allocating core memory buffers"@)
    } else if code == 23 {
        Some("Partial transfer due to error"@)
    } else if code == 24 {
        Some("Partial transfer due to vanished source files"@)
    } else if code == 25 {
        Some("The --max-delete limit stopped deletions"@)
    } else if code == 30 {
        Some("Timeout in data send/receive"@)
    } else if code == 35 {
        Some("Timeout waiting for daemon connection"@)
    } else {
        None
    }
}

/// The table of well-known rsync exit codes: each code with its meaning.
pub fn rsync_exit_values_map() -> (m: HashMap<i32, &'static str>)
    ensures
        forall|code: i32| #[trigger] m@.contains_key(code) <==> rsync_exit_message(code) is Some,
        forall|code: i32| #[trigger]
            m@.contains_key(code) ==> Some(m@[code]@) == rsync_exit_message(code),
{
    let mut m: HashMap<i32, &'static str> = HashMap::new();
    m.insert(0, "Success");
    m.insert(1, "Syntax or usage error");
    m.insert(2, "Protocol incompatibility");
    m.insert(3, "Errors selecting input/output files, dirs");
    m.insert(
        4,
        "Requested action not supported: an attempt was made to manipulate 64-bit files on a platform that cannot support them; or an option was specified that is supported by the client and not by the server.",
    );
    m.insert(5, "Error starting client-server protocol");
    m.insert(6, "Daemon unable to append to log-file");
    m.insert(10, "Error in socket I/O");
    m.insert(11, "Error in file I/O");
    m.insert(12, "Error in rsync protocol data stream");
    m.insert(13, "Errors with program diagnostics");
    m.insert(14, "Error in IPC code");
    m.insert(20, "Received SIGUSR1 or SIGINT");
    m.insert(21, "Some error returned by waitpid()");
    m.insert(22, "Error allocating core memory buffers");
    m.insert(23, "Partial transfer due to error");
    m.insert(24, "Partial transfer due to vanished source files");
    m.insert(25, "The --max-delete limit stopped deletions");
    m.insert(30, "Timeout in data send/receive");
    m.insert(35, "Timeout waiting for daemon connection");
    m
}

/// The words for an exit code that the table does not know: the code
/// itself.
pub open spec fn unknown_code_text(code: i32) -> Seq<char> {
    "unknown, code "@ + decimal_text(code as int)
}

/// What is reported for an exit code: the table's meaning as an rsync
/// error where the table knows the code, else the code as unknown.
pub open spec fn rsync_error_text(code: i32) -> Seq<char> {
    match rsync_exit_message(code) {
        Some(message) => "rsync error: "@ + message,
        None => unknown_code_text(code),
    }
}

/// Writes the words for an exit code that the table does not know.
pub fn unknown_code(code: i32) -> (text: String)
    ensures
        text@ == unknown_code_text(code),
{
    let digits = i32_to_decimal(code);
    String::from_str("unknown, code ").concat(digits.as_str())
}

/// Translates how an rsync process ended: its exit code, if it had one, and
/// the text for that code. A code that the table does not know passes
/// through with a text that names it; a process without an exit code has
/// neither code nor text.
pub fn translate_rsync_exit_status(code: Option<i32>) -> (r: (Option<i32>, Option<String>))
    ensures
        r.0 == code,
        match code {
            Some(c) => r.1 matches Some(text) && text@ == rsync_error_text(c),
            None => r.1 is None,
        },
{
    match code {
        Some(c) => {
            let map = rsync_exit_values_map();
            match map.get(&c) {
                Some(message) => {
                    let text = String::from_str("rsync error: ").concat(message);
                    (Some(c), Some(text))
                },
                None => (Some(c), Some(unknown_code(c))),
            }
        },
        None => (None, None),
    }
}

/// The reason that stands for an exit code in a status record: the table's
/// meaning where it has one, else the code itself.
pub open spec fn exit_reason(code: i32) -> Seq<char> {
    match rsync_exit_message(code) {
        Some(message) => message,
        None => unknown_code_text(code),
    }
}

/// Classifies an exit code into a human-readable reason.
pub fn classify_exit_code(code: i32) -> (reason: String)
    ensures
        reason@ == exit_reason(code),
{
    let map = rsync_exit_values_map();
    match map.get(&code) {
        Some(message) => String::from_str(message),
        None => unknown_code(code),
    }
}

} // verus!
