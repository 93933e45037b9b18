//! Rules of the exchange between a worker and its manager over HTTP.

use vstd::prelude::*;
use vstd::string::StringExecFns;

use crate::error::AdapterError;
use crate::text::str_eq;

verus! {

/// The seconds after which a request to the manager is given up.
pub const HTTP_TIMEOUT_SECS: u64 = 5;

/// The seconds after which an idle connection to the manager is closed.
pub const HTTP_POOL_IDLE_TIMEOUT_SECS: u64 = 20;

/// The content type of every request body.
pub open spec fn json_content_type() -> Seq<char> {
    "application/json; charset=utf-8"@
}

pub fn content_type() -> (value: &'static str)
    ensures
        value@ == json_content_type(),
{
    "application/json; charset=utf-8"
}

/// Whether an HTTP status code reports success: the codes from 200 to 299.
pub open spec fn spec_is_success_status(code: u16) -> bool {
    200 <= code <= 299
}

#[verifier::when_used_as_spec(spec_is_success_status)]
pub fn is_success_status(code: u16) -> (success: bool)
    ensures
        success == spec_is_success_status(code),
{
    200 <= code && code <= 299
}

/// The error for an answer whose status is not a success; `status` is the
/// status as the answer shows it.
pub open spec fn spec_status_error(status: Seq<char>) -> Seq<char> {
    "HTTP status code is not 200: "@ + status
}

/// Checks the status of an answer before its body is read: an answer that
/// reports no success is refused, with its status in the error.
pub fn check_response_status(code: u16, status: &str) -> (r: Result<(), String>)
    ensures
        match r {
            Ok(()) => spec_is_success_status(code),
            Err(message) => !spec_is_success_status(code) && message@ == spec_status_error(status@),
        },
{
    if is_success_status(code) {
        Ok(())
    } else {
        Err(String::from_str("HTTP status code is not 200: ").concat(status))
    }
}

/// What a request asks of the manager.
#[derive(Debug, Clone, Copy, PartialEq, Eq, Structural)]
pub enum Route {
    /// A worker registers itself.
    Register,
    /// A worker says that it is alive.
    Heartbeat,
    /// A worker is taken off the books.
    Deregister,
    /// A worker reports the status of a mirror.
    PushStatus,
    /// A worker asks for the stored status of its mirrors.
    Jobs,
    /// A worker asks when each of its mirrors runs next.
    Schedules,
    /// A worker asks for the commands that wait for it.
    Commands,
    /// A client hands in a command for a worker.
    ClientCommand,
    /// The status of every mirror is asked for.
    Overview,
    /// Nothing that the manager answers.
    NotFound,
}

/// The route of a request: every request of a worker or a client is a
/// `POST` to a fixed path, the overview a `GET`.
pub open spec fn route_of(method: Seq<char>, path: Seq<char>) -> Route {
    if method == "GET"@ && path == "/overview"@ {
        Route::Overview
    } else if method != "POST"@ {
        Route::NotFound
    } else if path == "/register"@ {
        Route::Register
    } else if path == "/heartbeat"@ {
        Route::Heartbeat
    } else if path == "/deregister"@ {
        Route::Deregister
    } else if path == "/status"@ {
        Route::PushStatus
    } else if path == "/jobs"@ {
        Route::Jobs
    } else if path == "/schedules"@ {
        Route::Schedules
    } else if path == "/commands"@ {
        Route::Commands
    } else if path == "/cmd"@ {
        Route::ClientCommand
    } else {
        Route::NotFound
    }
}

/// Finds the route of a request.
pub fn route(method: &str, path: &str) -> (r: Route)
    ensures
        r == route_of(method@, path@),
{
    proof {
        reveal_strlit("GET");
        reveal_strlit("POST");
    }
    if str_eq(method, "GET") && str_eq(path, "/overview") {
        Route::Overview
    } else if !str_eq(method, "POST") {
        Route::NotFound
    } else if str_eq(path, "/register") {
        Route::Register
    } else if str_eq(path, "/heartbeat") {
        Route::Heartbeat
    } else if str_eq(path, "/deregister") {
        Route::Deregister
    } else if str_eq(path, "/status") {
        Route::PushStatus
    } else if str_eq(path, "/jobs") {
        Route::Jobs
    } else if str_eq(path, "/schedules") {
        Route::Schedules
    } else if str_eq(path, "/commands") {
        Route::Commands
    } else if str_eq(path, "/cmd") {
        Route::ClientCommand
    } else {
        Route::NotFound
    }
}

/// The HTTP status that answers a request which the store refused: not
/// found for a worker or mirror that is not there, conflict for a worker
/// that is there already, and a server error for every failure of the
/// backend and every entry that holds no record.
pub open spec fn spec_error_status(e: AdapterError) -> u16 {
    match e {
        AdapterError::WorkerNotFound(_) => 404,
        AdapterError::MirrorNotFound(_, _) => 404,
        AdapterError::WorkerExists(_) => 409,
        _ => 500,
    }
}

pub fn error_status(e: &AdapterError) -> (code: u16)
    ensures
        code == spec_error_status(*e),
        !spec_is_success_status(code),
{
    match e {
        AdapterError::WorkerNotFound(_) => 404,
        AdapterError::MirrorNotFound(_, _) => 404,
        AdapterError::WorkerExists(_) => 409,
        _ => 500,
    }
}

} // verus!