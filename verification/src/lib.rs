//! Orchestration core for mirror synchronization: the job state machine, the
//! scheduling policy, the durable status store and the messages exchanged
//! between a manager and its workers.

pub mod codec;
pub mod commands;
pub mod common;
pub mod config;
pub mod database;
pub mod db_redb;
pub mod error;
pub mod exit_codes;
pub mod job;
pub mod kv;
pub mod log_size;
pub mod logger;
pub mod msg;
pub mod outbox;
pub mod policy;
pub mod scheduler;
pub mod server;
pub mod status;
pub mod status_web;
pub mod text;
pub mod time;
pub mod util;
