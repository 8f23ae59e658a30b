use vstd::prelude::*;

use crate::index_map::{
    count_value, insert_pair, lookup, IndexMap,
};
use crate::laws::law_fill_holds_every_connection;
use crate::log::{clone_entries, clones_of, Command, LogEntry, LogIndex, NodeId, NodeTerm};
use crate::rpc::{
    AppendEntriesRequest, AppendEntriesResponse, ElectionVoteRequest, ElectionVoteResponse,
    PingRequest, PingResponse,
};
use rand::Rng;

verus! {

/// Role of a Raft node.
#[derive(Debug, Clone, Copy, PartialEq, Eq, Structural)]
pub enum NodeRole {
    Follower,
    Candidate,
    Leader,
}

/// The state a node keeps across restarts.
pub struct PersistentState<T> {
    pub node_term: NodeTerm,
    pub voted_for: Option<NodeId>,
    pub log: Vec<LogEntry<T>>,
}

/// The state a node rebuilds after a restart. Deadlines are in
/// milliseconds on the caller's monotonic clock.
pub struct VolatileState {
    pub node_type: NodeRole,
    pub votes_recieved: Vec<NodeId>,
    pub commited_index: LogIndex,
    pub last_applied: LogIndex,
    pub next_index: IndexMap,
    pub match_index: IndexMap,
    pub heartbeat_timeout: u64,
    pub election_timeout: u64,
    pub persist_timeout: u64,
}

/// Everything a Raft node knows.
pub struct State<T> {
    pub persistent_state: PersistentState<T>,
    pub volatile_state: VolatileState,
    pub recieved_leader_heartbeat: bool,
}

/// Shortest and longest delay between two leader heartbeats (ms).
pub const HEARTBEAT_MIN_MS: u64 = 5;

pub const HEARTBEAT_MAX_MS: u64 = 10;

/// Shortest and longest election timeout (ms).
pub const ELECTION_MIN_MS: u64 = 150;

pub const ELECTION_MAX_MS: u64 = 300;

/// Delay between two writes of the persistent state (ms).
pub const PERSIST_INTERVAL_MS: u64 = 5000;

/// Delay set by [`VolatileState::reset_persist_timeout`] (ms).
pub const PERSIST_RETRY_MS: u64 = 2000;

/// Draws a number of milliseconds uniformly from `low..=high` with
/// `rand::Rng::gen_range` on the thread-local generator
/// (`rand::thread_rng`). Claimed: the result lies in the range; which
/// value comes is chance and is not stated.
#[verifier::external_body]
fn random_millis(low: u64, high: u64) -> (ms: u64)
    requires
        low <= high,
    ensures
        low <= ms <= high,
{
    rand::thread_rng().gen_range(low..=high)
}

/// A random heartbeat delay in milliseconds.
pub fn gen_rand_heartbeat_time() -> (ms: u64)
    ensures
        HEARTBEAT_MIN_MS <= ms <= HEARTBEAT_MAX_MS,
{
    random_millis(HEARTBEAT_MIN_MS, HEARTBEAT_MAX_MS)
}

/// A random election timeout in milliseconds.
pub fn gen_rand_election_time() -> (ms: u64)
    ensures
        ELECTION_MIN_MS <= ms <= ELECTION_MAX_MS,
{
    random_millis(ELECTION_MIN_MS, ELECTION_MAX_MS)
}

/// The list that maps every connection, in order, to `v`.
pub open spec fn fill_pairs(conns: Seq<Seq<char>>, v: LogIndex) -> Seq<(Seq<char>, LogIndex)>
    decreases conns.len(),
{
    if conns.len() == 0 {
        Seq::empty()
    } else {
        insert_pair(fill_pairs(conns.drop_last(), v), conns.last(), v)
    }
}

/// Character views of a list of strings.
pub open spec fn string_views(v: Seq<String>) -> Seq<Seq<char>> {
    v.map_values(|s: String| s@)
}

/// A map holding every connection with value `v`.
pub fn fill_index_map(conns: &Vec<String>, v: LogIndex) -> (res: IndexMap)
    ensures
        res.pairs() == fill_pairs(string_views(conns@), v),
        res.wf(),
        forall|i: int| 0 <= i < conns.len() ==> lookup(res.pairs(), #[trigger] conns@[i]@) == Some(v),
{
    let mut m = IndexMap::new();
    let mut i: usize = 0;
    while i < conns.len()
        invariant
            i <= conns.len(),
            m.pairs() == fill_pairs(string_views(conns@).take(i as int), v),
            m.wf(),
        decreases conns.len() - i,
    {
        proof {
            let t = string_views(conns@).take(i + 1);
            assert(t.drop_last() =~= string_views(conns@).take(i as int));
            assert(t.last() == conns@[i as int]@);
        }
        m.insert(conns[i].clone(), v);
        i = i + 1;
    }
    proof {
        assert(string_views(conns@).take(i as int) =~= string_views(conns@));
        law_fill_holds_every_connection(string_views(conns@), v);
        assert forall|k: int| 0 <= k < conns.len() implies lookup(m.pairs(), #[trigger] conns@[k]@)
            == Some(v) by {
            assert(string_views(conns@)[k] == conns@[k]@);
        }
    }
    m
}

impl VolatileState {
    /// The state of a fresh follower that knows `conns` as peers.
    pub fn init_state(conns: &Vec<String>, now: u64) -> (res: VolatileState)
        requires
            now + PERSIST_INTERVAL_MS <= u64::MAX,
        ensures
            res.node_type == NodeRole::Follower,
            res.votes_recieved@ == Seq::<NodeId>::empty(),
            res.commited_index == 0,
            res.last_applied == 0,
            res.next_index.pairs() == fill_pairs(string_views(conns@), 0),
            res.match_index.pairs() == fill_pairs(string_views(conns@), 0),
            now + HEARTBEAT_MIN_MS <= res.heartbeat_timeout <= now + HEARTBEAT_MAX_MS,
            now + ELECTION_MIN_MS <= res.election_timeout <= now + ELECTION_MAX_MS,
            res.persist_timeout == now + PERSIST_INTERVAL_MS,
    {
        let next_index = fill_index_map(conns, 0);
        let match_index = fill_index_map(conns, 0);
        let hb = gen_rand_heartbeat_time();
        let el = gen_rand_election_time();
        VolatileState {
            node_type: NodeRole::Follower,
            votes_recieved: Vec::new(),
            commited_index: 0,
            last_applied: 0,
            next_index,
            match_index,
            heartbeat_timeout: now + hb,
            election_timeout: now + el,
            persist_timeout: now + PERSIST_INTERVAL_MS,
        }
    }

    /// Sets the next heartbeat deadline to a random point 5 to 10 ms from `now`.
    pub fn reset_heartbeat_timeout(&mut self, now: u64)
        requires
            now + HEARTBEAT_MAX_MS <= u64::MAX,
        ensures
            now + HEARTBEAT_MIN_MS <= final(self).heartbeat_timeout <= now + HEARTBEAT_MAX_MS,
            *final(self) == (VolatileState {
                heartbeat_timeout: final(self).heartbeat_timeout,
                ..*old(self)
            }),
    {
        let d = gen_rand_heartbeat_time();
        self.heartbeat_timeout = now + d;
    }

    /// Sets the election deadline to a random point 150 to 300 ms from `now`.
    pub fn reset_election_timeout(&mut self, now: u64)
        requires
            now + ELECTION_MAX_MS <= u64::MAX,
        ensures
            now + ELECTION_MIN_MS <= final(self).election_timeout <= now + ELECTION_MAX_MS,
            *final(self) == (VolatileState {
                election_timeout: final(self).election_timeout,
                ..*old(self)
            }),
    {
        let d = gen_rand_election_time();
        self.election_timeout = now + d;
    }

    /// Moves the election deadline (not the persist deadline) to 2 s from `now`.
    pub fn reset_persist_timeout(&mut self, now: u64)
        requires
            now + PERSIST_RETRY_MS <= u64::MAX,
        ensures
            *final(self) == (VolatileState { election_timeout: (now + PERSIST_RETRY_MS) as u64, ..*old(self) }),
    {
        self.election_timeout = now + PERSIST_RETRY_MS;
    }
}

/// The log of a candidate is at least as up to date as the voter's; with
/// an empty log the voter only votes if it has not voted yet.
pub open spec fn candidate_log_up_to_date<T>(s: State<T>, req: ElectionVoteRequest) -> bool {
    let log = s.persistent_state.log@;
    if log.len() > 0 {
        let last_term = log.last().term;
        if last_term > req.last_log_term {
            false
        } else if last_term < req.last_log_term {
            true
        } else {
            log.len() <= req.last_log_index
        }
    } else {
        s.persistent_state.voted_for is None
    }
}

/// The request comes from an older term, or the voter already voted for
/// another candidate in this term.
pub open spec fn vote_refused_outright<T>(s: State<T>, req: ElectionVoteRequest) -> bool {
    ||| req.term < s.persistent_state.node_term
    ||| (req.term == s.persistent_state.node_term && s.persistent_state.voted_for is Some
        && s.persistent_state.voted_for != Some(req.candidate_id))
}

/// The vote is granted.
pub open spec fn grants_vote<T>(s: State<T>, req: ElectionVoteRequest) -> bool {
    !vote_refused_outright(s, req) && candidate_log_up_to_date(s, req)
}

/// The voter after granting its vote, with election deadline `et`.
pub open spec fn state_after_vote<T>(s: State<T>, req: ElectionVoteRequest, et: u64) -> State<T> {
    State {
        persistent_state: PersistentState {
            node_term: req.term,
            voted_for: Some(req.candidate_id),
            log: s.persistent_state.log,
        },
        volatile_state: VolatileState {
            node_type: NodeRole::Follower,
            election_timeout: et,
            ..s.volatile_state
        },
        recieved_leader_heartbeat: true,
    }
}

/// What handling a vote request does: `post` is the voter after it and
/// `resp` the answer.
pub open spec fn request_vote_post<T>(
    pre: State<T>,
    post: State<T>,
    node_id: NodeId,
    req: ElectionVoteRequest,
    now: u64,
    resp: ElectionVoteResponse,
) -> bool {
    &&& resp.node_id == node_id
    &&& resp.vote_granted == grants_vote(pre, req)
    &&& resp.term == post.persistent_state.node_term
    &&& if grants_vote(pre, req) {
        &&& post == state_after_vote(pre, req, post.volatile_state.election_timeout)
        &&& now + ELECTION_MIN_MS <= post.volatile_state.election_timeout <= now
            + ELECTION_MAX_MS
    } else {
        post == pre
    }
}

/// The request comes from an older term while this node leads.
pub open spec fn append_refused_as_leader<T>(s: State<T>, req: AppendEntriesRequest<T>) -> bool {
    req.term < s.persistent_state.node_term && s.volatile_state.node_type == NodeRole::Leader
}

/// The request is answered with failure: it comes from an older term while
/// this node leads, its previous index lies past the end of the log, or
/// the entry at that index has another term.
pub open spec fn append_refused<T>(s: State<T>, req: AppendEntriesRequest<T>) -> bool {
    let log = s.persistent_state.log@;
    let p = req.prev_log_index;
    ||| append_refused_as_leader(s, req)
    ||| p > log.len()
    ||| (log.len() > 0 && 1 <= p <= log.len() && log[p - 1].term != req.prev_log_term)
}

/// Inputs on which handling the request would panic: a previous index 0
/// against a non-empty log (the entry before index 0 is looked up), or an
/// accepted request whose new log length overflows.
pub open spec fn append_panics<T>(s: State<T>, req: AppendEntriesRequest<T>) -> bool {
    let n = s.persistent_state.log@.len();
    &&& !append_refused_as_leader(s, req)
    &&& ((n > 0 && req.prev_log_index == 0) || (!append_refused(s, req)
        && req.entries@.len() + req.prev_log_index > usize::MAX))
}

/// The log after accepting the request: when the request ends before the
/// current log does, the log is cut after index `prev_log_index - 1` and
/// the entries follow; otherwise the entries are appended to the whole log.
pub open spec fn appended_log<T>(log: Seq<LogEntry<T>>, req: AppendEntriesRequest<T>) -> Seq<
    LogEntry<T>,
> {
    if req.entries@.len() + req.prev_log_index < log.len() {
        log.subrange(0, req.prev_log_index - 1) + req.entries@
    } else {
        log + req.entries@
    }
}

/// What handling an AppendEntries request does.
pub open spec fn append_entries_post<T>(
    pre: State<T>,
    post: State<T>,
    node_id: NodeId,
    req: AppendEntriesRequest<T>,
    now: u64,
    resp: AppendEntriesResponse,
) -> bool {
    &&& resp.node_id == node_id
    &&& resp.success == !append_refused(pre, req)
    &&& resp.term == post.persistent_state.node_term
    &&& if append_refused(pre, req) {
        post == pre
    } else {
        &&& post.persistent_state.node_term == req.term
        &&& post.persistent_state.voted_for == if req.term > pre.persistent_state.node_term {
            Some(req.leader_id)
        } else {
            pre.persistent_state.voted_for
        }
        &&& post.persistent_state.log@ == appended_log(pre.persistent_state.log@, req)
        &&& post.volatile_state == (VolatileState {
            node_type: NodeRole::Follower,
            election_timeout: post.volatile_state.election_timeout,
            ..pre.volatile_state
        })
        &&& now + ELECTION_MIN_MS <= post.volatile_state.election_timeout <= now
            + ELECTION_MAX_MS
        &&& post.recieved_leader_heartbeat
    }
}

/// Position in the leader's log from which entries are sent to `conn`,
/// or `None` when the heartbeat carries no entries. Derived from the
/// connection's next index: `n` sends from position `n - 1` for `n >= 2`
/// and the whole log for `n == 1`.
pub open spec fn heartbeat_start<T>(s: State<T>, conn: Seq<char>) -> Option<int> {
    let n = s.persistent_state.log@.len();
    if n > 0 {
        match lookup(s.volatile_state.next_index.pairs(), conn) {
            Some(ni) => if ni >= 2 {
                Some(ni - 1)
            } else if ni == 1 {
                Some(0)
            } else {
                None
            },
            None => None,
        }
    } else {
        None
    }
}

/// `post` differs from `pre` at most in the next and match indices.
pub open spec fn only_indices_changed<T>(pre: State<T>, post: State<T>) -> bool {
    &&& post.persistent_state == pre.persistent_state
    &&& post.recieved_leader_heartbeat == pre.recieved_leader_heartbeat
    &&& post.volatile_state == (VolatileState {
        next_index: post.volatile_state.next_index,
        match_index: post.volatile_state.match_index,
        ..pre.volatile_state
    })
}

/// What applying a peer's answer to a heartbeat does: on success the
/// peer's next index becomes one past the log and its match index the log
/// length (when the log is not empty); on failure the next index steps
/// back by one, never below 1. Nothing else changes.
pub open spec fn heartbeat_response_post<T>(
    pre: State<T>,
    post: State<T>,
    conn: Seq<char>,
    resp: AppendEntriesResponse,
) -> bool {
    let n = pre.persistent_state.log@.len();
    let next = pre.volatile_state.next_index.pairs();
    let mat = pre.volatile_state.match_index.pairs();
    &&& only_indices_changed(pre, post)
    &&& if resp.success {
        &&& post.volatile_state.next_index.pairs() == insert_pair(next, conn, (n + 1) as LogIndex)
        &&& post.volatile_state.match_index.pairs() == if n > 0 {
            insert_pair(mat, conn, n as LogIndex)
        } else {
            mat
        }
    } else {
        &&& post.volatile_state.match_index.pairs() == mat
        &&& post.volatile_state.next_index.pairs() == match lookup(next, conn) {
            Some(ni) => if ni > 1 {
                insert_pair(next, conn, (ni - 1) as LogIndex)
            } else {
                next
            },
            None => next,
        }
    }
}

/// What ending a heartbeat round does: the node records itself, under its
/// listener address, as holding the whole log, and draws its next
/// heartbeat deadline. Nothing else changes.
pub open spec fn finish_heartbeat_post<T>(
    pre: State<T>,
    post: State<T>,
    listener: Seq<char>,
    now: u64,
) -> bool {
    let n = pre.persistent_state.log@.len();
    &&& post.persistent_state == pre.persistent_state
    &&& post.recieved_leader_heartbeat == pre.recieved_leader_heartbeat
    &&& post.volatile_state == (VolatileState {
        next_index: post.volatile_state.next_index,
        match_index: post.volatile_state.match_index,
        heartbeat_timeout: post.volatile_state.heartbeat_timeout,
        ..pre.volatile_state
    })
    &&& post.volatile_state.next_index.pairs() == insert_pair(
        pre.volatile_state.next_index.pairs(),
        listener,
        (n + 1) as LogIndex,
    )
    &&& post.volatile_state.match_index.pairs() == insert_pair(
        pre.volatile_state.match_index.pairs(),
        listener,
        n as LogIndex,
    )
    &&& now + HEARTBEAT_MIN_MS <= post.volatile_state.heartbeat_timeout <= now + HEARTBEAT_MAX_MS
}

/// What the AppendEntries request a leader builds for `conn` holds: its
/// term, its commit index, and, per [`heartbeat_start`], the entry before
/// the ones sent and clones of the entries from there to the end.
pub open spec fn heartbeat_request_post<T: Clone>(
    s: State<T>,
    conn: Seq<char>,
    leader_id: NodeId,
    req: AppendEntriesRequest<T>,
) -> bool {
    let log = s.persistent_state.log@;
    &&& req.term == s.persistent_state.node_term
    &&& req.leader_id == leader_id
    &&& req.leader_commit == s.volatile_state.commited_index
    &&& match heartbeat_start(s, conn) {
        Some(st) => {
            &&& req.prev_log_index == st
            &&& req.prev_log_term == if st >= 1 {
                log[st - 1].term
            } else {
                0
            }
            &&& clones_of(log.subrange(st, log.len() as int), req.entries@)
        },
        None => {
            &&& req.prev_log_index == 0
            &&& req.prev_log_term == 0
            &&& req.entries@.len() == 0
        },
    }
}

/// Progress of a candidate's election after one answer.
#[derive(Debug, Clone, Copy, PartialEq, Eq, Structural)]
pub enum ElectionProgress {
    /// Still collecting votes.
    Pending,
    /// A node of a term at least as high refused: back to follower.
    SteppedDown,
    /// A quorum voted for this node: it now leads.
    Elected,
}

/// `m` is a value of `vals` held by at least `q` entries and by no fewer
/// entries than any other value (`Some`), or no value reaches `q` (`None`).
pub open spec fn commit_choice(vals: Seq<LogIndex>, q: usize, r: Option<LogIndex>) -> bool {
    match r {
        None => forall|i: int| 0 <= i < vals.len() ==> count_value(vals, #[trigger] vals[i]) < q,
        Some(m) => {
            &&& vals.contains(m)
            &&& count_value(vals, m) >= q
            &&& forall|i: int|
                0 <= i < vals.len() ==> count_value(vals, #[trigger] vals[i]) <= count_value(
                    vals,
                    m,
                )
        },
    }
}

/// Every index that a leader could choose to commit up to, past its commit
/// index, lies within its log.
pub open spec fn commit_in_log<T>(s: State<T>, q: usize) -> bool {
    forall|m: LogIndex|
        commit_choice(s.volatile_state.match_index.values(), q, Some(m)) && m
            > s.volatile_state.commited_index ==> m <= s.persistent_state.log@.len()
}

/// What a commit step does: a leader moves its commit index to an index
/// admissible under [`commit_choice`] when that index is past the current
/// one, and delivers clones of the newly committed entries; any other node
/// changes nothing.
pub open spec fn commit_post<T: Clone>(
    pre: State<T>,
    post: State<T>,
    quorum: usize,
    delivered: Seq<LogEntry<T>>,
) -> bool {
    let c0 = pre.volatile_state.commited_index;
    let c1 = post.volatile_state.commited_index;
    let vals = pre.volatile_state.match_index.values();
    if pre.volatile_state.node_type != NodeRole::Leader {
        post == pre && delivered.len() == 0
    } else {
        &&& post == (State {
            volatile_state: VolatileState { commited_index: c1, ..pre.volatile_state },
            ..pre
        })
        &&& c0 <= c1
        &&& c1 > c0 ==> c1 <= pre.persistent_state.log@.len()
        &&& c1 > c0 ==> commit_choice(vals, quorum, Some(c1))
        &&& c1 == c0 ==> exists|r: Option<LogIndex>|
            commit_choice(vals, quorum, r) && (r matches Some(m) ==> m <= c0)
        &&& if c1 > c0 {
            clones_of(pre.persistent_state.log@.subrange(c0 as int, c1 as int), delivered)
        } else {
            delivered.len() == 0
        }
    }
}

/// Quorum size of a cluster of `num_connections` peers plus this node:
/// `floor((num_connections + 1) / 2) + 1`. Below 2^24 members this is also
/// what the formula gives in single-precision floating point.
pub fn get_quorum_length(num_connections: usize) -> (q: i32)
    requires
        num_connections < 16_777_216,
    ensures
        q == (num_connections + 1) / 2 + 1,
{
    let conns = num_connections + 1;
    (conns / 2 + 1) as i32
}

impl<T> State<T> {
    /// A fresh node: the given persistent state, follower role, every
    /// connection at index 0.
    pub fn new(persistent_state: PersistentState<T>, conns: &Vec<String>, now: u64) -> (res: State<
        T,
    >)
        requires
            now + PERSIST_INTERVAL_MS <= u64::MAX,
        ensures
            res.persistent_state == persistent_state,
            res.volatile_state.node_type == NodeRole::Follower,
            res.volatile_state.votes_recieved@ == Seq::<NodeId>::empty(),
            res.volatile_state.commited_index == 0,
            res.volatile_state.last_applied == 0,
            res.volatile_state.next_index.pairs() == fill_pairs(string_views(conns@), 0),
            res.volatile_state.match_index.pairs() == fill_pairs(string_views(conns@), 0),
            now + HEARTBEAT_MIN_MS <= res.volatile_state.heartbeat_timeout <= now
                + HEARTBEAT_MAX_MS,
            now + ELECTION_MIN_MS <= res.volatile_state.election_timeout <= now
                + ELECTION_MAX_MS,
            res.volatile_state.persist_timeout == now + PERSIST_INTERVAL_MS,
            !res.recieved_leader_heartbeat,
    {
        State {
            persistent_state,
            volatile_state: VolatileState::init_state(conns, now),
            recieved_leader_heartbeat: false,
        }
    }

    pub fn get_node_type(&self) -> (res: NodeRole)
        ensures
            res == self.volatile_state.node_type,
    {
        self.volatile_state.node_type
    }

    /// Takes role `node_type` in term `to_term`.
    pub fn transition_to_term(&mut self, node_type: NodeRole, to_term: NodeTerm, node_id: NodeId)
        ensures
            *final(self) == (State {
                persistent_state: PersistentState { node_term: to_term, ..old(self).persistent_state },
                volatile_state: VolatileState { node_type, ..old(self).volatile_state },
                ..*old(self)
            }),
    {
        self.volatile_state.node_type = node_type;
        self.persistent_state.node_term = to_term;
    }

    /// Takes role `node_type` and advances the term by `term_increase`.
    pub fn transition(&mut self, node_type: NodeRole, term_increase: NodeTerm, node_id: NodeId)
        requires
            old(self).persistent_state.node_term + term_increase <= NodeTerm::MAX,
        ensures
            *final(self) == (State {
                persistent_state: PersistentState {
                    node_term: (old(self).persistent_state.node_term + term_increase) as NodeTerm,
                    ..old(self).persistent_state
                },
                volatile_state: VolatileState { node_type, ..old(self).volatile_state },
                ..*old(self)
            }),
    {
        self.volatile_state.node_type = node_type;
        self.persistent_state.node_term = self.persistent_state.node_term + term_increase;
    }

    /// Answer to a ping: this node's id and term.
    pub fn ping_node(&self, node_id: NodeId) -> (resp: PingResponse)
        ensures
            resp == (PingResponse { term: self.persistent_state.node_term, node_id }),
    {
        PingResponse { term: self.persistent_state.node_term, node_id }
    }

    /// The ping this node sends: its id and term.
    pub fn ping_request(&self, node_id: NodeId) -> (req: PingRequest)
        ensures
            req == (PingRequest { term: self.persistent_state.node_term, node_id }),
    {
        PingRequest { term: self.persistent_state.node_term, node_id }
    }

    /// Handles a RequestVote RPC.
    pub fn request_vote(&mut self, node_id: NodeId, req: &ElectionVoteRequest, now: u64) -> (resp:
        ElectionVoteResponse)
        requires
            grants_vote(*old(self), *req) ==> now + ELECTION_MAX_MS <= u64::MAX,
        ensures
            request_vote_post(*old(self), *final(self), node_id, *req, now, resp),
            ({
                let log = old(self).persistent_state.log@;
                resp.vote_granted && log.len() > 0 ==> req.last_log_term > log[log.len() - 1].term
                    || (req.last_log_term == log[log.len() - 1].term && req.last_log_index
                    >= log.len())
            }),
    {
        let term = self.persistent_state.node_term;
        if req.term < term {
            return ElectionVoteResponse { node_id, term, vote_granted: false };
        }
        let voted_other = match self.persistent_state.voted_for {
            Some(v) => v != req.candidate_id,
            None => false,
        };
        if voted_other && req.term == term {
            return ElectionVoteResponse { node_id, term, vote_granted: false };
        }
        let log_len = self.persistent_state.log.len();
        let grant = if log_len > 0 {
            let last_term = self.persistent_state.log[log_len - 1].term;
            if last_term > req.last_log_term {
                false
            } else if last_term < req.last_log_term {
                true
            } else {
                log_len <= req.last_log_index
            }
        } else {
            self.persistent_state.voted_for.is_none()
        };
        if grant {
            self.persistent_state.voted_for = Some(req.candidate_id);
            self.transition_to_term(NodeRole::Follower, req.term, node_id);
            self.volatile_state.reset_election_timeout(now);
            self.recieved_leader_heartbeat = true;
        }
        ElectionVoteResponse { node_id, term: self.persistent_state.node_term, vote_granted: grant }
    }
    /// Handles an AppendEntries RPC.
    pub fn append_entries(&mut self, node_id: NodeId, req: AppendEntriesRequest<T>, now: u64) -> (resp:
        AppendEntriesResponse)
        requires
            !append_refused(*old(self), req) ==> now + ELECTION_MAX_MS <= u64::MAX,
            !append_panics(*old(self), req),
        ensures
            append_entries_post(*old(self), *final(self), node_id, req, now, resp),
            ({
                let log = old(self).persistent_state.log@;
                let p = req.prev_log_index;
                &&& resp.success ==> p <= log.len()
                &&& resp.success && 1 <= p <= log.len() ==> log[p - 1].term == req.prev_log_term
            }),
    {
        let term = self.persistent_state.node_term;
        if req.term < term && self.volatile_state.node_type == NodeRole::Leader {
            return AppendEntriesResponse { node_id, term, success: false };
        }
        let log_len = self.persistent_state.log.len();
        if log_len > 0 {
            if req.prev_log_index <= log_len && self.persistent_state.log[req.prev_log_index
                - 1].term != req.prev_log_term {
                return AppendEntriesResponse { node_id, term, success: false };
            }
            if req.prev_log_index > log_len {
                return AppendEntriesResponse { node_id, term, success: false };
            }
        }
        if req.prev_log_index > log_len {
            return AppendEntriesResponse { node_id, term, success: false };
        }
        if req.term > term {
            self.transition_to_term(NodeRole::Follower, req.term, node_id);
            self.persistent_state.voted_for = Some(req.leader_id);
        }
        self.recieved_leader_heartbeat = true;
        self.volatile_state.reset_election_timeout(now);
        self.transition_to_term(NodeRole::Follower, req.term, node_id);

        let ghost old_log = self.persistent_state.log@;
        let offset = req.prev_log_index;
        let mut entries = req.entries;
        let new_log_size = entries.len() + offset;
        if new_log_size < log_len {
            self.persistent_state.log.truncate(offset - 1);
        }
        self.persistent_state.log.append(&mut entries);
        AppendEntriesResponse { node_id, term: self.persistent_state.node_term, success: true }
    }
    /// Handling `req` would panic (see [`append_panics`]).
    pub fn append_would_panic(&self, req: &AppendEntriesRequest<T>) -> (res: bool)
        ensures
            res == append_panics(*self, *req),
    {
        let n = self.persistent_state.log.len();
        let p = req.prev_log_index;
        if req.term < self.persistent_state.node_term && self.volatile_state.node_type
            == NodeRole::Leader {
            return false;
        }
        if n > 0 && p == 0 {
            return true;
        }
        let refused = p > n || (n > 0 && 1 <= p && p <= n && self.persistent_state.log[p - 1].term
            != req.prev_log_term);
        !refused && req.entries.len() > usize::MAX - p
    }

    /// Building the heartbeat for `conn` would index past the log.
    pub fn heartbeat_would_panic(&self, conn: &String) -> (res: bool)
        ensures
            res == (heartbeat_start(*self, conn@) matches Some(st) && st
                > self.persistent_state.log@.len()),
            res == (lookup(self.volatile_state.next_index.pairs(), conn@) matches Some(ni)
                && self.persistent_state.log@.len() > 0 && ni > self.persistent_state.log@.len()
                + 1),
    {
        let n = self.persistent_state.log.len();
        if n == 0 {
            return false;
        }
        match self.volatile_state.next_index.get(conn) {
            Some(ni) => ni >= 2 && ni - 1 > n,
            None => false,
        }
    }

    /// Committing with `quorum` would index past the log.
    pub fn commit_would_panic(&self, quorum: usize) -> (res: bool)
        ensures
            res == (self.volatile_state.node_type == NodeRole::Leader && !commit_in_log(
                *self,
                quorum,
            )),
    {
        if self.volatile_state.node_type != NodeRole::Leader {
            return false;
        }
        let m = &self.volatile_state.match_index;
        let ghost vals = m.values();
        let len = m.len();
        let log_len = self.persistent_state.log.len();
        let commited = self.volatile_state.commited_index;
        let mut max_count: usize = 0;
        let mut i: usize = 0;
        while i < len
            invariant
                len == vals.len(),
                vals == m.values(),
                i <= len,
                forall|j: int| 0 <= j < i ==> count_value(vals, #[trigger] vals[j]) <= max_count,
                i > 0 ==> exists|j: int| 0 <= j < i && count_value(vals, #[trigger] vals[j]) == max_count,
            decreases len - i,
        {
            let c = m.count(m.value_at(i));
            if c > max_count || i == 0 {
                max_count = c;
            }
            i = i + 1;
        }
        let mut k: usize = 0;
        while k < len
            invariant
                len == vals.len(),
                vals == m.values(),
                k <= len,
                vals == self.volatile_state.match_index.values(),
                self.volatile_state.node_type == NodeRole::Leader,
                log_len == self.persistent_state.log@.len(),
                commited == self.volatile_state.commited_index,
                forall|j: int| 0 <= j < len ==> count_value(vals, #[trigger] vals[j]) <= max_count,
                len > 0 ==> exists|j: int| 0 <= j < len && count_value(vals, #[trigger] vals[j]) == max_count,
                forall|j: int|
                    0 <= j < k && count_value(vals, #[trigger] vals[j]) >= quorum && count_value(
                        vals,
                        vals[j],
                    ) == max_count && vals[j] > commited ==> vals[j] <= log_len,
            decreases len - k,
        {
            let v = m.value_at(k);
            let c = m.count(v);
            if c >= quorum && c == max_count && v > commited && v > log_len {
                proof {
                    assert(commit_choice(vals, quorum, Some(v)));
                    assert(!commit_in_log(*self, quorum));
                }
                return true;
            }
            k = k + 1;
        }
        proof {
            assert forall|x: LogIndex|
                commit_choice(vals, quorum, Some(x)) && x > commited implies x <= log_len by {
                let j = choose|j: int| 0 <= j < vals.len() && vals[j] == x;
                let w = choose|w: int| 0 <= w < len && count_value(vals, #[trigger] vals[w]) == max_count;
                assert(count_value(vals, vals[w]) <= count_value(vals, x));
                assert(count_value(vals, vals[j]) == max_count);
            }
        }
        false
    }

    /// A leader whose heartbeat deadline has passed sends heartbeats.
    pub fn heartbeat_due(&self, now: u64) -> (res: bool)
        ensures
            res == (self.volatile_state.node_type == NodeRole::Leader && now
                >= self.volatile_state.heartbeat_timeout),
    {
        self.volatile_state.node_type == NodeRole::Leader && !(now
            < self.volatile_state.heartbeat_timeout)
    }

    /// Applies a peer's answer to a heartbeat: on success the peer's next
    /// index becomes one past the log and its match index the log length
    /// (when the log is not empty); on failure the next index steps back by
    /// one, never below 1.
    pub fn handle_heartbeat_response(&mut self, conn: String, resp: &AppendEntriesResponse)
        requires
            resp.success ==> old(self).persistent_state.log@.len() < usize::MAX,
        ensures
            heartbeat_response_post(*old(self), *final(self), conn@, *resp),
    {
        let log_size = self.persistent_state.log.len();
        if resp.success {
            if log_size > 0 {
                self.volatile_state.match_index.insert(conn.clone(), log_size);
            }
            self.volatile_state.next_index.insert(conn, log_size + 1);
        } else {
            match self.volatile_state.next_index.get(&conn) {
                Some(ni) => {
                    if ni > 1 {
                        self.volatile_state.next_index.insert(conn, ni - 1);
                    }
                },
                None => {},
            }
        }
    }

    /// Ends a heartbeat round: records this node itself (under its
    /// listener address) as holding the whole log, and draws the next
    /// heartbeat deadline.
    pub fn finish_heartbeat(&mut self, listener_addr: String, now: u64)
        requires
            old(self).persistent_state.log@.len() < usize::MAX,
            now + HEARTBEAT_MAX_MS <= u64::MAX,
        ensures
            finish_heartbeat_post(*old(self), *final(self), listener_addr@, now),
    {
        let log_size = self.persistent_state.log.len();
        self.volatile_state.next_index.insert(listener_addr.clone(), log_size + 1);
        self.volatile_state.match_index.insert(listener_addr, log_size);
        self.volatile_state.reset_heartbeat_timeout(now);
    }

    /// Starts collecting votes: draws a new election deadline, votes for
    /// itself, and builds the vote request for the peers.
    pub fn start_election(&mut self, node_id: NodeId, now: u64) -> (req: ElectionVoteRequest)
        requires
            now + ELECTION_MAX_MS <= u64::MAX,
        ensures
            final(self).persistent_state == (PersistentState {
                voted_for: Some(node_id),
                ..old(self).persistent_state
            }),
            final(self).recieved_leader_heartbeat == old(self).recieved_leader_heartbeat,
            final(self).volatile_state == (VolatileState {
                votes_recieved: final(self).volatile_state.votes_recieved,
                election_timeout: final(self).volatile_state.election_timeout,
                ..old(self).volatile_state
            }),
            final(self).volatile_state.votes_recieved@ == seq![node_id],
            now + ELECTION_MIN_MS <= final(self).volatile_state.election_timeout <= now
                + ELECTION_MAX_MS,
            req == (ElectionVoteRequest {
                term: old(self).persistent_state.node_term,
                candidate_id: node_id,
                last_log_index: old(self).persistent_state.log@.len() as LogIndex,
                last_log_term: if old(self).persistent_state.log@.len() > 0 {
                    old(self).persistent_state.log@.last().term
                } else {
                    0
                },
            }),
    {
        self.volatile_state.reset_election_timeout(now);
        self.volatile_state.votes_recieved.clear();
        self.volatile_state.votes_recieved.push(node_id);
        self.persistent_state.voted_for = Some(node_id);
        let log_len = self.persistent_state.log.len();
        if log_len > 0 {
            ElectionVoteRequest {
                candidate_id: node_id,
                term: self.persistent_state.node_term,
                last_log_index: log_len,
                last_log_term: self.persistent_state.log[log_len - 1].term,
            }
        } else {
            ElectionVoteRequest {
                candidate_id: node_id,
                term: self.persistent_state.node_term,
                last_log_index: 0,
                last_log_term: 0,
            }
        }
    }

    /// The election deadline has passed.
    pub fn election_timed_out(&self, now: u64) -> (res: bool)
        ensures
            res == (now > self.volatile_state.election_timeout),
    {
        now > self.volatile_state.election_timeout
    }

    /// Checked between vote requests: once the election deadline has
    /// passed, the candidate gives up this round and stays a candidate in
    /// the next term. Returns whether it did.
    pub fn election_timeout_step(&mut self, node_id: NodeId, now: u64) -> (timed_out: bool)
        requires
            now > old(self).volatile_state.election_timeout ==> old(
                self,
            ).persistent_state.node_term < NodeTerm::MAX,
        ensures
            timed_out == (now > old(self).volatile_state.election_timeout),
            timed_out ==> *final(self) == (State {
                persistent_state: PersistentState {
                    node_term: (old(self).persistent_state.node_term + 1) as NodeTerm,
                    ..old(self).persistent_state
                },
                volatile_state: VolatileState {
                    node_type: NodeRole::Candidate,
                    ..old(self).volatile_state
                },
                ..*old(self)
            }),
            !timed_out ==> *final(self) == *old(self),
    {
        if self.election_timed_out(now) {
            self.transition(NodeRole::Candidate, 1, node_id);
            true
        } else {
            false
        }
    }

    /// Closes a tick: forgets whether a leader's heartbeat arrived during
    /// it, and tells whether this node is the leader.
    pub fn end_tick(&mut self) -> (is_leader: bool)
        ensures
            is_leader == (old(self).volatile_state.node_type == NodeRole::Leader),
            *final(self) == (State { recieved_leader_heartbeat: false, ..*old(self) }),
    {
        self.recieved_leader_heartbeat = false;
        self.volatile_state.node_type == NodeRole::Leader
    }

    /// Applies one answer to this node's vote request.
    pub fn handle_vote_response(
        &mut self,
        resp: &ElectionVoteResponse,
        quorum: usize,
        connections: &Vec<String>,
        node_id: NodeId,
    ) -> (progress: ElectionProgress)
        requires
            ({
                let votes = if resp.vote_granted {
                    old(self).volatile_state.votes_recieved@.push(resp.node_id)
                } else {
                    old(self).volatile_state.votes_recieved@
                };
                (resp.vote_granted || resp.term < old(self).persistent_state.node_term)
                    && votes.len() >= quorum ==> old(self).persistent_state.log@.len() < usize::MAX
            }),
        ensures
            ({
                let pre = *old(self);
                let post = *final(self);
                let votes = if resp.vote_granted {
                    pre.volatile_state.votes_recieved@.push(resp.node_id)
                } else {
                    pre.volatile_state.votes_recieved@
                };
                let n = pre.persistent_state.log@.len();
                if !resp.vote_granted && resp.term >= pre.persistent_state.node_term {
                    &&& progress == ElectionProgress::SteppedDown
                    &&& post == (State {
                        persistent_state: PersistentState {
                            node_term: resp.term,
                            voted_for: None,
                            ..pre.persistent_state
                        },
                        volatile_state: VolatileState {
                            node_type: NodeRole::Follower,
                            ..pre.volatile_state
                        },
                        ..pre
                    })
                } else if votes.len() >= quorum {
                    &&& progress == ElectionProgress::Elected
                    &&& post.persistent_state == pre.persistent_state
                    &&& post.recieved_leader_heartbeat == pre.recieved_leader_heartbeat
                    &&& post.volatile_state == (VolatileState {
                        node_type: NodeRole::Leader,
                        votes_recieved: post.volatile_state.votes_recieved,
                        next_index: post.volatile_state.next_index,
                        match_index: post.volatile_state.match_index,
                        ..pre.volatile_state
                    })
                    &&& post.volatile_state.votes_recieved@ == votes
                    &&& post.volatile_state.next_index.pairs() == fill_pairs(
                        string_views(connections@),
                        (n + 1) as LogIndex,
                    )
                    &&& post.volatile_state.match_index.pairs() == fill_pairs(
                        string_views(connections@),
                        0,
                    )
                    &&& forall|i: int|
                        0 <= i < connections.len() ==> lookup(
                            post.volatile_state.next_index.pairs(),
                            #[trigger] connections@[i]@,
                        ) == Some((n + 1) as LogIndex) && lookup(
                            post.volatile_state.match_index.pairs(),
                            connections@[i]@,
                        ) == Some(0usize)
                } else {
                    &&& progress == ElectionProgress::Pending
                    &&& post.persistent_state == pre.persistent_state
                    &&& post.recieved_leader_heartbeat == pre.recieved_leader_heartbeat
                    &&& post.volatile_state == (VolatileState {
                        votes_recieved: post.volatile_state.votes_recieved,
                        ..pre.volatile_state
                    })
                    &&& post.volatile_state.votes_recieved@ == votes
                }
            }),
    {
        if resp.vote_granted {
            self.volatile_state.votes_recieved.push(resp.node_id);
        } else if resp.term >= self.persistent_state.node_term {
            self.persistent_state.voted_for = None;
            self.transition_to_term(NodeRole::Follower, resp.term, node_id);
            return ElectionProgress::SteppedDown;
        }
        if self.volatile_state.votes_recieved.len() >= quorum {
            let last_log_index = self.persistent_state.log.len();
            self.volatile_state.next_index = fill_index_map(connections, last_log_index + 1);
            self.volatile_state.match_index = fill_index_map(connections, 0);
            self.transition(NodeRole::Leader, 0, node_id);
            return ElectionProgress::Elected;
        }
        ElectionProgress::Pending
    }

    /// A node that does not lead, whose election deadline has passed
    /// without a heartbeat from a leader, becomes a candidate of the next
    /// term and starts an election; the vote request is returned.
    pub fn maybe_transition_candidate(&mut self, node_id: NodeId, now: u64) -> (res: Option<
        ElectionVoteRequest,
    >)
        requires
            old(self).volatile_state.node_type != NodeRole::Leader && now
                > old(self).volatile_state.election_timeout && !old(self).recieved_leader_heartbeat
                ==> {
                &&& now + ELECTION_MAX_MS <= u64::MAX
                &&& old(self).persistent_state.node_term < NodeTerm::MAX
            },
        ensures
            ({
                let pre = *old(self);
                let post = *final(self);
                let starts = pre.volatile_state.node_type != NodeRole::Leader && now
                    > pre.volatile_state.election_timeout && !pre.recieved_leader_heartbeat;
                if starts {
                    &&& res == Some(
                        ElectionVoteRequest {
                            term: (pre.persistent_state.node_term + 1) as NodeTerm,
                            candidate_id: node_id,
                            last_log_index: pre.persistent_state.log@.len() as LogIndex,
                            last_log_term: if pre.persistent_state.log@.len() > 0 {
                                pre.persistent_state.log@.last().term
                            } else {
                                0
                            },
                        },
                    )
                    &&& post.persistent_state == (PersistentState {
                        node_term: (pre.persistent_state.node_term + 1) as NodeTerm,
                        voted_for: Some(node_id),
                        ..pre.persistent_state
                    })
                    &&& post.recieved_leader_heartbeat == pre.recieved_leader_heartbeat
                    &&& post.volatile_state == (VolatileState {
                        node_type: NodeRole::Candidate,
                        votes_recieved: post.volatile_state.votes_recieved,
                        election_timeout: post.volatile_state.election_timeout,
                        ..pre.volatile_state
                    })
                    &&& post.volatile_state.votes_recieved@ == seq![node_id]
                    &&& now + ELECTION_MIN_MS <= post.volatile_state.election_timeout <= now
                        + ELECTION_MAX_MS
                } else {
                    res is None && post == pre
                }
            }),
    {
        if self.volatile_state.node_type == NodeRole::Leader {
            return None;
        }
        if now > self.volatile_state.election_timeout && !self.recieved_leader_heartbeat {
            self.transition(NodeRole::Candidate, 1, node_id);
            let req = self.start_election(node_id, now);
            Some(req)
        } else {
            None
        }
    }

    /// A candidate takes the leader role in its current term.
    pub fn maybe_transition_leader(&mut self, node_id: NodeId)
        ensures
            *final(self) == if old(self).volatile_state.node_type == NodeRole::Candidate {
                State {
                    volatile_state: VolatileState {
                        node_type: NodeRole::Leader,
                        ..old(self).volatile_state
                    },
                    ..*old(self)
                }
            } else {
                *old(self)
            },
    {
        if self.volatile_state.node_type != NodeRole::Candidate {
            return ;
        }
        self.transition(NodeRole::Leader, 0, node_id);
    }

    /// A leader appends `value` with `command` to its log in its current
    /// term; other roles ignore it.
    pub fn append_entry(&mut self, value: T, command: Command)
        ensures
            final(self).volatile_state == old(self).volatile_state,
            final(self).recieved_leader_heartbeat == old(self).recieved_leader_heartbeat,
            final(self).persistent_state.node_term == old(self).persistent_state.node_term,
            final(self).persistent_state.voted_for == old(self).persistent_state.voted_for,
            final(self).persistent_state.log@ == if old(self).volatile_state.node_type
                == NodeRole::Leader {
                old(self).persistent_state.log@.push(
                    LogEntry { command, value, term: old(self).persistent_state.node_term },
                )
            } else {
                old(self).persistent_state.log@
            },
    {
        if self.volatile_state.node_type != NodeRole::Leader {
            return ;
        }
        let entry = LogEntry { command, value, term: self.persistent_state.node_term };
        self.persistent_state.log.push(entry);
    }

    /// The index up to which a quorum of match indices agrees, if any.
    pub fn commit_target(&self, quorum: usize) -> (res: Option<LogIndex>)
        ensures
            commit_choice(self.volatile_state.match_index.values(), quorum, res),
    {
        let m = &self.volatile_state.match_index;
        let ghost vals = m.values();
        let len = m.len();
        let mut best: Option<LogIndex> = None;
        let mut best_count: usize = 0;
        let mut i: usize = 0;
        while i < len
            invariant
                len == vals.len(),
                vals == m.values(),
                i <= len,
                match best {
                    None => forall|j: int| 0 <= j < i ==> count_value(vals, #[trigger] vals[j]) < quorum,
                    Some(b) => {
                        &&& vals.contains(b)
                        &&& count_value(vals, b) == best_count
                        &&& best_count >= quorum
                        &&& forall|j: int|
                            0 <= j < i ==> count_value(vals, #[trigger] vals[j]) <= best_count
                    },
                },
            decreases len - i,
        {
            let v = m.value_at(i);
            let c = m.count(v);
            let better = match best {
                None => c >= quorum,
                Some(_) => c > best_count,
            };
            if better {
                best = Some(v);
                best_count = c;
            }
            i = i + 1;
        }
        best
    }
}

impl<T: Clone> PersistentState<T> {
    /// A fresh node's persistent state: term 0, no vote, empty log.
    pub fn fresh() -> (res: Self)
        ensures
            res.node_term == 0,
            res.voted_for is None,
            res.log@ == Seq::<LogEntry<T>>::empty(),
    {
        PersistentState { node_term: 0, voted_for: None, log: Vec::new() }
    }

    /// What is written to disk: term and vote, and the committed prefix of
    /// the log (the first `commit_index` entries).
    pub fn persist_snapshot(&self, commit_index: LogIndex) -> (res: Self)
        requires
            commit_index <= self.log@.len(),
        ensures
            res.node_term == self.node_term,
            res.voted_for == self.voted_for,
            clones_of(self.log@.subrange(0, commit_index as int), res.log@),
    {
        let mut log: Vec<LogEntry<T>> = Vec::new();
        if commit_index > 0 {
            log = clone_entries(&self.log, 0, commit_index);
        }
        PersistentState { node_term: self.node_term, voted_for: self.voted_for, log }
    }
}

impl<T: Clone> State<T> {
    /// The AppendEntries request a leader sends to `conn`: its term, its
    /// commit index, and, per [`heartbeat_start`], the entry before the
    /// ones sent and clones of the entries from there to the end.
    pub fn heartbeat_request(&self, conn: &String, leader_id: NodeId) -> (req: AppendEntriesRequest<T>)
        requires
            heartbeat_start(*self, conn@) matches Some(st) ==> st <= self.persistent_state.log@.len(),
        ensures
            heartbeat_request_post(*self, conn@, leader_id, req),
            ({
                let log = self.persistent_state.log@;
                lookup(self.volatile_state.next_index.pairs(), conn@) matches Some(ni) ==> (2 <= ni
                    <= log.len() + 1 ==> req.prev_log_index == ni - 1 && req.prev_log_term == log[ni
                    - 2].term && clones_of(log.subrange(ni - 1, log.len() as int), req.entries@))
            }),
    {
        let log_size = self.persistent_state.log.len();
        let mut entries: Vec<LogEntry<T>> = Vec::new();
        let mut prev_log_term: NodeTerm = 0;
        let mut prev_log_index: LogIndex = 0;
        if log_size > 0 {
            match self.volatile_state.next_index.get(conn) {
                Some(next_index) => {
                    if next_index >= 2 {
                        prev_log_index = next_index - 1;
                        let log_index = prev_log_index - 1;
                        prev_log_term = self.persistent_state.log[log_index].term;
                        entries = clone_entries(&self.persistent_state.log, prev_log_index, log_size);
                    }
                    if next_index == 1 {
                        prev_log_index = 0;
                        prev_log_term = 0;
                        entries = clone_entries(&self.persistent_state.log, 0, log_size);
                    }
                },
                None => {},
            }
        }
        AppendEntriesRequest {
            term: self.persistent_state.node_term,
            leader_id,
            prev_log_term,
            prev_log_index,
            entries,
            leader_commit: self.volatile_state.commited_index,
        }
    }

    /// A leader advances its commit index to the index on which a quorum
    /// of match indices agrees, when that index is past the current one,
    /// and returns clones of the newly committed entries for delivery.
    pub fn maybe_commit_log_entries(&mut self, quorum: usize) -> (delivered: Vec<LogEntry<T>>)
        requires
            old(self).volatile_state.node_type == NodeRole::Leader ==> commit_in_log(*old(self), quorum),
        ensures
            commit_post(*old(self), *final(self), quorum, delivered@),
    {
        let mut delivered: Vec<LogEntry<T>> = Vec::new();
        if self.volatile_state.node_type != NodeRole::Leader {
            return delivered;
        }
        let current_commit = self.volatile_state.commited_index;
        let target = self.commit_target(quorum);
        match target {
            Some(m) => {
                if m > current_commit {
                    delivered = clone_entries(&self.persistent_state.log, current_commit, m);
                    self.volatile_state.commited_index = m;
                } else {
                    assert(commit_choice(self.volatile_state.match_index.values(), quorum, target)
                        && (target matches Some(m) ==> m <= current_commit));
                }
            },
            None => {
                assert(commit_choice(self.volatile_state.match_index.values(), quorum, target)
                    && (target matches Some(m) ==> m <= current_commit));
            },
        }
        delivered
    }

    /// When the persist deadline has passed, returns the snapshot to write
    /// (see [`PersistentState::persist_snapshot`], at the commit index) and
    /// sets the next deadline 5 s after `now`.
    pub fn try_persist_state(&mut self, now: u64) -> (res: Option<PersistentState<T>>)
        requires
            now > old(self).volatile_state.persist_timeout ==> {
                &&& old(self).volatile_state.commited_index <= old(self).persistent_state.log@.len()
                &&& now + PERSIST_INTERVAL_MS <= u64::MAX
            },
        ensures
            ({
                let pre = *old(self);
                let post = *final(self);
                if now > pre.volatile_state.persist_timeout {
                    &&& post == (State {
                        volatile_state: VolatileState {
                            persist_timeout: (now + PERSIST_INTERVAL_MS) as u64,
                            ..pre.volatile_state
                        },
                        ..pre
                    })
                    &&& res matches Some(snap) && snap.node_term == pre.persistent_state.node_term
                        && snap.voted_for == pre.persistent_state.voted_for && clones_of(
                        pre.persistent_state.log@.subrange(0, pre.volatile_state.commited_index as int),
                        snap.log@,
                    )
                } else {
                    post == pre && res is None
                }
            }),
    {
        if now > self.volatile_state.persist_timeout {
            let snap = self.persistent_state.persist_snapshot(self.volatile_state.commited_index);
            self.volatile_state.persist_timeout = now + PERSIST_INTERVAL_MS;
            Some(snap)
        } else {
            None
        }
    }
}

} // verus!
