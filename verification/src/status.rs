//! The synchronization status of a mirror.

use vstd::prelude::*;

use vstd::string::StrSliceExecFns;
use vstd::string::StringExecFns;

use crate::text::str_eq;

verus! {

/// The state of a mirror job as it is reported and stored.
///
/// `Unknown` stands for every status name that this version does not know,
/// so that records written by a newer node still decode.
#[derive(Debug, Clone, Copy, PartialEq, Eq, Structural)]
pub enum SyncStatus {
    /// Never synced: the initial state, named `none` on the wire.
    NeverSynced,
    Failed,
    Success,
    Syncing,
    PreSyncing,
    Paused,
    Disabled,
    Unknown,
}

impl SyncStatus {
    /// The wire name of a status, in kebab case.
    pub open spec fn spec_name(self) -> Seq<char> {
        match self {
            SyncStatus::NeverSynced => "none"@,
            SyncStatus::Failed => "failed"@,
            SyncStatus::Success => "success"@,
            SyncStatus::Syncing => "syncing"@,
            SyncStatus::PreSyncing => "pre-syncing"@,
            SyncStatus::Paused => "paused"@,
            SyncStatus::Disabled => "disabled"@,
            SyncStatus::Unknown => "unknown"@,
        }
    }

    /// The status that a wire name stands for; any name outside the known
    /// set is `Unknown`.
    pub open spec fn spec_from_name(name: Seq<char>) -> SyncStatus {
        if name == "none"@ {
            SyncStatus::NeverSynced
        } else if name == "failed"@ {
            SyncStatus::Failed
        } else if name == "success"@ {
            SyncStatus::Success
        } else if name == "syncing"@ {
            SyncStatus::Syncing
        } else if name == "pre-syncing"@ {
            SyncStatus::PreSyncing
        } else if name == "paused"@ {
            SyncStatus::Paused
        } else if name == "disabled"@ {
            SyncStatus::Disabled
        } else {
            SyncStatus::Unknown
        }
    }

    pub fn as_str(&self) -> (name: &'static str)
        ensures
            name@ == self.spec_name(),
    {
        match self {
            SyncStatus::NeverSynced => "none",
            SyncStatus::Failed => "failed",
            SyncStatus::Success => "success",
            SyncStatus::Syncing => "syncing",
            SyncStatus::PreSyncing => "pre-syncing",
            SyncStatus::Paused => "paused",
            SyncStatus::Disabled => "disabled",
            SyncStatus::Unknown => "unknown",
        }
    }

    pub fn from_name(name: &str) -> (status: SyncStatus)
        ensures
            status == SyncStatus::spec_from_name(name@),
    {
        if str_eq(name, "none") {
            SyncStatus::NeverSynced
        } else if str_eq(name, "failed") {
            SyncStatus::Failed
        } else if str_eq(name, "success") {
            SyncStatus::Success
        } else if str_eq(name, "syncing") {
            SyncStatus::Syncing
        } else if str_eq(name, "pre-syncing") {
            SyncStatus::PreSyncing
        } else if str_eq(name, "paused") {
            SyncStatus::Paused
        } else if str_eq(name, "disabled") {
            SyncStatus::Disabled
        } else {
            SyncStatus::Unknown
        }
    }
}

/// Whether a text can stand between quotes as it is: it holds no quote, no
/// backslash and no control character.
pub open spec fn is_plain(text: Seq<char>) -> bool {
    forall|i: int| 0 <= i < text.len() ==> is_plain_char(#[trigger] text[i])
}

/// Whether a character is neither a quote, nor a backslash, nor a control
/// character.
pub open spec fn is_plain_char(c: char) -> bool {
    c != '"' && c != '\\' && c >= ' '
}

impl SyncStatus {
    /// A status in JSON: its wire name between quotes.
    pub open spec fn spec_json(self) -> Seq<char> {
        seq!['"'] + self.spec_name() + seq!['"']
    }

    /// The status that a JSON text stands for: the text has to be a string
    /// without escapes. Any name outside the known set is `Unknown`.
    pub open spec fn spec_from_json(text: Seq<char>) -> Option<SyncStatus> {
        if text.len() >= 2 && text[0] == '"' && text.last() == '"' && is_plain(
            text.subrange(1, text.len() - 1),
        ) {
            Some(SyncStatus::spec_from_name(text.subrange(1, text.len() - 1)))
        } else {
            None
        }
    }

    pub fn to_json(&self) -> (json: String)
        ensures
            json@ == self.spec_json(),
    {
        proof {
            reveal_strlit("\"");
        }
        let json = String::from_str("\"").concat(self.as_str()).concat("\"");
        assert(json@ =~= self.spec_json());
        json
    }

    pub fn from_json(text: &str) -> (status: Option<SyncStatus>)
        ensures
            status == SyncStatus::spec_from_json(text@),
    {
        let n = text.unicode_len();
        if n < 2 {
            return None;
        }
        if text.get_char(0) != '"' || text.get_char(n - 1) != '"' {
            return None;
        }
        let inner = text.substring_char(1, n - 1);
        let len = inner.unicode_len();
        let mut i: usize = 0;
        while i < len
            invariant
                i <= len,
                len == inner@.len(),
                text@.len() >= 2,
                text@[0] == '"',
                text@.last() == '"',
                inner@ == text@.subrange(1, text@.len() - 1),
                forall|k: int| 0 <= k < i ==> is_plain_char(#[trigger] inner@[k]),
            decreases len - i,
        {
            let c = inner.get_char(i);
            if c == '"' || c == '\\' || ' ' > c {
                assert(!is_plain_char(inner@[i as int]));
                return None;
            }
            i += 1;
        }
        assert(is_plain(inner@));
        Some(SyncStatus::from_name(inner))
    }
}

} // verus!