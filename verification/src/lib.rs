//! A Raft consensus layer and the key-value store built on it: the log,
//! the RPC messages, the node state machine, configuration parsing and the
//! store's command handling, each with its contract.

pub mod log;
pub mod index_map;
pub mod rpc;
pub mod state;
pub mod text;
pub mod kv;
pub mod client;
pub mod config;
pub mod laws;
pub mod pubsub;

