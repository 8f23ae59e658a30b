use vstd::prelude::*;

use crate::log::{LogEntry, LogIndex, NodeId, NodeTerm};

verus! {

/// Liveness probe sent from one node to another.
#[derive(Debug, Clone, Copy, PartialEq, Eq, Structural)]
pub struct PingRequest {
    pub term: NodeTerm,
    pub node_id: NodeId,
}

/// Answer to a [`PingRequest`]: the responder's id and current term.
#[derive(Debug, Clone, Copy, PartialEq, Eq, Structural)]
pub struct PingResponse {
    pub term: NodeTerm,
    pub node_id: NodeId,
}

/// RequestVote RPC sent by a candidate.
#[derive(Debug, Clone, Copy, PartialEq, Eq, Structural)]
pub struct ElectionVoteRequest {
    pub term: NodeTerm,
    pub candidate_id: NodeId,
    pub last_log_index: LogIndex,
    pub last_log_term: NodeTerm,
}

/// Answer to an [`ElectionVoteRequest`].
#[derive(Debug, Clone, Copy, PartialEq, Eq, Structural)]
pub struct ElectionVoteResponse {
    pub node_id: NodeId,
    pub term: NodeTerm,
    pub vote_granted: bool,
}

/// AppendEntries RPC sent by a leader; with no entries it is a heartbeat.
pub struct AppendEntriesRequest<T> {
    pub term: NodeTerm,
    pub leader_id: NodeId,
    pub prev_log_index: LogIndex,
    pub prev_log_term: NodeTerm,
    pub entries: Vec<LogEntry<T>>,
    pub leader_commit: LogIndex,
}

/// Answer to an [`AppendEntriesRequest`].
#[derive(Debug, Clone, Copy, PartialEq, Eq, Structural)]
pub struct AppendEntriesResponse {
    pub node_id: NodeId,
    pub term: NodeTerm,
    pub success: bool,
}

/// Every request that travels between Raft nodes.
pub enum RequestPattern<T> {
    PingRPC(PingRequest),
    AppendEntriesRPC(AppendEntriesRequest<T>),
    RequestVoteRPC(ElectionVoteRequest),
}

/// The sending side of the node-to-node transport.
#[derive(Debug, Clone, Copy)]
pub struct Client;

} // verus!
