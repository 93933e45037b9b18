//! The manager: the one node that holds the status of every worker and
//! mirror.

use vstd::prelude::*;
use vstd::string::StringExecFns;

use crate::config::ManagerConfig;
use crate::database::{make_db_adapter, status_bucket, worker_bucket, DbType, KvDBAdapter};
use crate::db_redb::RedbAdapter;
use crate::error::AdapterError;

verus! {

pub struct Manager {
    config: ManagerConfig,
}

/// The backend type that a configuration asks for: what it names, or
/// `bolt` where it names none.
pub open spec fn spec_db_type(config: ManagerConfig) -> Seq<char> {
    match config.files {
        Some(files) => match files.db_type {
            Some(db_type) => db_type@,
            None => "bolt"@,
        },
        None => "bolt"@,
    }
}

/// The database file that a configuration asks for: what it names, or the
/// default file where it names none.
pub open spec fn spec_db_file(config: ManagerConfig) -> Seq<char> {
    match config.files {
        Some(files) => match files.db_file {
            Some(db_file) => db_file@,
            None => "/tmp/tunasync/manager.db"@,
        },
        None => "/tmp/tunasync/manager.db"@,
    }
}

impl Manager {
    pub closed spec fn spec_config(&self) -> ManagerConfig {
        self.config
    }

    pub fn config(&self) -> (config: &ManagerConfig)
        ensures
            *config == self.spec_config(),
    {
        &self.config
    }

    pub fn db_type(&self) -> (name: String)
        ensures
            name@ == spec_db_type(self.spec_config()),
    {
        match &self.config.files {
            Some(files) => match &files.db_type {
                Some(db_type) => db_type.clone(),
                None => String::from_str("bolt"),
            },
            None => String::from_str("bolt"),
        }
    }

    pub fn db_file(&self) -> (name: String)
        ensures
            name@ == spec_db_file(self.spec_config()),
    {
        match &self.config.files {
            Some(files) => match &files.db_file {
                Some(db_file) => db_file.clone(),
                None => String::from_str("/tmp/tunasync/manager.db"),
            },
            None => String::from_str("/tmp/tunasync/manager.db"),
        }
    }

    /// Opens the status store that the configuration asks for. A backend
    /// type that names no backend is refused before anything is opened.
    pub fn open_store(&self) -> (r: Result<KvDBAdapter<RedbAdapter>, AdapterError>)
        ensures
            match DbType::spec_parse(spec_db_type(self.spec_config())) {
                None => r matches Err(AdapterError::UnsupportedDbType(given)) && given@
                    == spec_db_type(self.spec_config()),
                Some(_) => match r {
                    Ok(store) => store.buckets().contains_key(worker_bucket())
                        && store.buckets().contains_key(status_bucket()),
                    Err(e) => e.is_backend_failure(),
                },
            },
    {
        let db_type = self.db_type();
        let db_file = self.db_file();
        make_db_adapter(db_type.as_str(), db_file.as_str())
    }
}

/// A manager with this configuration.
pub fn get_hustsync_manager(config: ManagerConfig) -> (r: Result<Manager, AdapterError>)
    ensures
        r matches Ok(manager) && manager.spec_config() == config,
{
    Ok(Manager { config })
}

} // verus!
