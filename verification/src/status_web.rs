//! The status of a mirror as the web front end shows it: every time both
//! as text and as a stamp.

use vstd::prelude::*;
use vstd::std_specs::convert::FromSpecImpl;

use crate::msg::MirrorStatus;
use crate::status::SyncStatus;
use crate::time::Timestamp;

verus! {

/// A time that is shown as text.
pub type TextTime = Timestamp;

/// A time that is shown as a number of seconds.
pub type StampTime = Timestamp;

#[derive(Debug, Clone, PartialEq, Eq)]
pub struct WebMirrorStatus {
    pub name: String,
    pub upstream: String,
    pub size: String,
    pub laste_update: TextTime,
    pub last_update_ts: StampTime,
    pub last_started: TextTime,
    pub last_started_ts: StampTime,
    pub last_ended: TextTime,
    pub last_ended_ts: StampTime,
    pub next_scheduled: TextTime,
    pub next_scheduled_ts: StampTime,
    pub status: SyncStatus,
    pub is_master: bool,
}

impl From<MirrorStatus> for WebMirrorStatus {
    fn from(ms: MirrorStatus) -> (web: WebMirrorStatus) {
        WebMirrorStatus {
            name: ms.name,
            upstream: ms.upstream,
            size: ms.size,
            laste_update: ms.last_update,
            last_update_ts: ms.last_update,
            last_started: ms.last_started,
            last_started_ts: ms.last_started,
            last_ended: ms.lastt_ended,
            last_ended_ts: ms.lastt_ended,
            next_scheduled: ms.next_scheduled,
            next_scheduled_ts: ms.next_scheduled,
            status: ms.status,
            is_master: ms.is_master,
        }
    }
}

impl FromSpecImpl<MirrorStatus> for WebMirrorStatus {
    open spec fn obeys_from_spec() -> bool {
        true
    }

    /// Name, upstream, size, status and mastership are kept; each time
    /// appears twice; the worker and the error message are left out.
    open spec fn from_spec(ms: MirrorStatus) -> WebMirrorStatus {
        WebMirrorStatus {
            name: ms.name,
            upstream: ms.upstream,
            size: ms.size,
            laste_update: ms.last_update,
            last_update_ts: ms.last_update,
            last_started: ms.last_started,
            last_started_ts: ms.last_started,
            last_ended: ms.lastt_ended,
            last_ended_ts: ms.lastt_ended,
            next_scheduled: ms.next_scheduled,
            next_scheduled_ts: ms.next_scheduled,
            status: ms.status,
            is_master: ms.is_master,
        }
    }
}

} // verus!
