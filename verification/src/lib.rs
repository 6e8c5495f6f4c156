//! Core of a small distributed code-execution system: the binary wire
//! protocol, the messages exchanged between cluster nodes, the replication
//! log, and the decisions taken by servers, clients and the activity runner.
pub mod cli;
pub mod msg;
pub mod proto;
pub mod replication_log;
pub mod server;
pub mod client;
pub mod activity;
