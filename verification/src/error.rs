//! What can go wrong in the status store.

use vstd::prelude::*;
use vstd::string::StringExecFns;

verus! {

/// An error of the key-value engine or of the status store built on it.
#[derive(Debug, Clone, PartialEq, Eq)]
pub enum AdapterError {
    /// The configuration names a backend that does not exist.
    UnsupportedDbType(String),
    /// The backend could not be opened.
    InitError(String),
    /// A bucket could not be created: its name, and why.
    CreateBucketError(String, String),
    /// The backend failed during an operation, and what is stored is as it
    /// was.
    Storage(String),
    /// The backend failed while it committed a write, and could not be
    /// read afterwards: the write has taken place as a whole or not at
    /// all.
    Commit(String),
    /// A worker was registered a second time.
    WorkerExists(String),
    /// No worker of this id is registered.
    WorkerNotFound(String),
    /// No status is stored for this worker and mirror.
    MirrorNotFound(String, String),
    /// The entry under this key does not hold a record.
    Corrupt(String),
}

impl AdapterError {
    /// The text of an error.
    pub open spec fn spec_message(&self) -> Seq<char> {
        match self {
            AdapterError::UnsupportedDbType(name) => "unsupported db type: "@ + name@,
            AdapterError::InitError(why) => "adapter initialization error: "@ + why@,
            AdapterError::CreateBucketError(bucket, why) => "create bucket: "@ + bucket@
                + ", error: "@ + why@,
            AdapterError::Storage(why) => "storage error: "@ + why@,
            AdapterError::Commit(why) => "commit error: "@ + why@,
            AdapterError::WorkerExists(id) => "worker already registered: "@ + id@,
            AdapterError::WorkerNotFound(id) => "no such worker: "@ + id@,
            AdapterError::MirrorNotFound(worker, mirror) => "no status of mirror "@ + mirror@
                + " on worker "@ + worker@,
            AdapterError::Corrupt(key) => "entry holds no record: "@ + key@,
        }
    }

    pub fn message(&self) -> (text: String)
        ensures
            text@ == self.spec_message(),
    {
        match self {
            AdapterError::UnsupportedDbType(name) => String::from_str(
                "unsupported db type: ",
            ).concat(name.as_str()),
            AdapterError::InitError(why) => String::from_str(
                "adapter initialization error: ",
            ).concat(why.as_str()),
            AdapterError::CreateBucketError(bucket, why) => String::from_str(
                "create bucket: ",
            ).concat(bucket.as_str()).concat(", error: ").concat(why.as_str()),
            AdapterError::Storage(why) => String::from_str("storage error: ").concat(
                why.as_str(),
            ),
            AdapterError::Commit(why) => String::from_str("commit error: ").concat(why.as_str()),
            AdapterError::WorkerExists(id) => String::from_str(
                "worker already registered: ",
            ).concat(id.as_str()),
            AdapterError::WorkerNotFound(id) => String::from_str("no such worker: ").concat(
                id.as_str(),
            ),
            AdapterError::MirrorNotFound(worker, mirror) => String::from_str(
                "no status of mirror ",
            ).concat(mirror.as_str()).concat(" on worker ").concat(worker.as_str()),
            AdapterError::Corrupt(key) => String::from_str("entry holds no record: ").concat(
                key.as_str(),
            ),
        }
    }

    /// Whether the backend itself failed, as opposed to the store refusing
    /// a request.
    pub open spec fn is_backend_failure(&self) -> bool {
        self is InitError || self is CreateBucketError || self is Storage || self is Commit
    }
}

} // verus!
