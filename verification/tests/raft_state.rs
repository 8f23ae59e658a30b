use quaso::index_map::IndexMap;
use quaso::log::{Command, LogEntry};
use quaso::rpc::{AppendEntriesRequest, AppendEntriesResponse, ElectionVoteRequest, ElectionVoteResponse, PingRequest, PingResponse};
use quaso::state::{
    gen_rand_election_time, gen_rand_heartbeat_time, get_quorum_length, ElectionProgress,
    NodeRole, PersistentState, State, VolatileState,
};

fn conns(names: &[&str]) -> Vec<String> {
    names.iter().map(|s| s.to_string()).collect()
}

fn entry(term: u32, v: &str) -> LogEntry<String> {
    LogEntry::new(Command::SetValue, v.to_string(), term)
}

fn follower(term: u32, voted_for: Option<u64>, log: Vec<LogEntry<String>>) -> State<String> {
    let p = PersistentState { node_term: term, voted_for, log };
    State::new(p, &conns(&["b", "c"]), 1000)
}

fn terms(s: &State<String>) -> Vec<u32> {
    s.persistent_state.log.iter().map(|e| e.term).collect()
}

fn vote_req(term: u32, cand: u64, last_index: usize, last_term: u32) -> ElectionVoteRequest {
    ElectionVoteRequest { term, candidate_id: cand, last_log_index: last_index, last_log_term: last_term }
}

#[test]
fn log_entry_new_and_clone() {
    let e = LogEntry::new(Command::SetValue, "x".to_string(), 4);
    assert_eq!(e.command, Command::SetValue);
    assert_eq!(e.term, 4);
    assert_eq!(e.value, "x");
    let c = e.clone();
    assert_eq!(c.command, Command::SetValue);
    assert_eq!(c.term, 4);
    assert_eq!(c.value, "x");
}

#[test]
fn fresh_state_is_follower_with_peers_at_zero() {
    let s = follower(0, None, Vec::new());
    assert_eq!(s.get_node_type(), NodeRole::Follower);
    assert_eq!(s.volatile_state.next_index.get(&"b".to_string()), Some(0));
    assert_eq!(s.volatile_state.match_index.get(&"c".to_string()), Some(0));
    assert_eq!(s.volatile_state.next_index.len(), 2);
    assert!(s.volatile_state.heartbeat_timeout >= 1005 && s.volatile_state.heartbeat_timeout <= 1010);
    assert!(s.volatile_state.election_timeout >= 1150 && s.volatile_state.election_timeout <= 1300);
    assert_eq!(s.volatile_state.persist_timeout, 6000);
    assert!(!s.recieved_leader_heartbeat);
}

#[test]
fn random_delays_stay_in_range() {
    for _ in 0..200 {
        let h = gen_rand_heartbeat_time();
        assert!((5..=10).contains(&h));
        let e = gen_rand_election_time();
        assert!((150..=300).contains(&e));
    }
}

#[test]
fn persist_retry_moves_election_deadline() {
    let mut v = VolatileState::init_state(&conns(&["b"]), 0);
    let p = v.persist_timeout;
    v.reset_persist_timeout(100);
    assert_eq!(v.election_timeout, 2100);
    assert_eq!(v.persist_timeout, p);
}

#[test]
fn quorum_length_is_majority() {
    assert_eq!(get_quorum_length(0), 1);
    assert_eq!(get_quorum_length(1), 2);
    assert_eq!(get_quorum_length(2), 2);
    assert_eq!(get_quorum_length(3), 3);
    assert_eq!(get_quorum_length(4), 3);
}

#[test]
fn vote_granted_to_first_candidate_with_empty_log() {
    let mut s = follower(0, None, Vec::new());
    let resp = s.request_vote(3, &vote_req(1, 7, 0, 0), 2000);
    assert_eq!(resp, ElectionVoteResponse { node_id: 3, term: 1, vote_granted: true });
    assert_eq!(s.persistent_state.voted_for, Some(7));
    assert_eq!(s.persistent_state.node_term, 1);
    assert_eq!(s.get_node_type(), NodeRole::Follower);
    assert!(s.recieved_leader_heartbeat);
    assert!(s.volatile_state.election_timeout >= 2150 && s.volatile_state.election_timeout <= 2300);
}

#[test]
fn one_vote_per_term() {
    let mut s = follower(0, None, Vec::new());
    assert!(s.request_vote(3, &vote_req(1, 7, 0, 0), 2000).vote_granted);
    let resp = s.request_vote(3, &vote_req(1, 8, 5, 5), 2000);
    assert_eq!(resp, ElectionVoteResponse { node_id: 3, term: 1, vote_granted: false });
    assert_eq!(s.persistent_state.voted_for, Some(7));
}

#[test]
fn vote_refused_for_older_term() {
    let mut s = follower(4, None, vec![entry(4, "a")]);
    let resp = s.request_vote(3, &vote_req(3, 7, 9, 9), 2000);
    assert_eq!(resp, ElectionVoteResponse { node_id: 3, term: 4, vote_granted: false });
    assert_eq!(s.persistent_state.voted_for, None);
}

#[test]
fn empty_log_voter_that_voted_refuses_even_same_candidate() {
    let mut s = follower(1, Some(7), Vec::new());
    let resp = s.request_vote(3, &vote_req(1, 7, 0, 0), 2000);
    assert!(!resp.vote_granted);
}

#[test]
fn vote_follows_log_comparison() {
    let log = || vec![entry(2, "a"), entry(2, "b")];
    let mut s = follower(2, None, log());
    assert!(s.request_vote(1, &vote_req(3, 7, 1, 3), 0).vote_granted);
    let mut s = follower(2, None, log());
    assert!(!s.request_vote(1, &vote_req(3, 7, 9, 1), 0).vote_granted);
    assert_eq!(s.persistent_state.node_term, 2);
    let mut s = follower(2, None, log());
    assert!(!s.request_vote(1, &vote_req(3, 7, 1, 2), 0).vote_granted);
    let mut s = follower(2, None, log());
    let r = s.request_vote(1, &vote_req(3, 7, 2, 2), 0);
    assert!(r.vote_granted);
    assert_eq!(r.term, 3);
}

fn append_req(term: u32, leader: u64, prev: usize, prev_term: u32, entries: Vec<LogEntry<String>>) -> AppendEntriesRequest<String> {
    AppendEntriesRequest { term, leader_id: leader, prev_log_index: prev, prev_log_term: prev_term, entries, leader_commit: 0 }
}

#[test]
fn leader_refuses_append_from_older_term() {
    let mut s = follower(5, None, Vec::new());
    s.volatile_state.node_type = NodeRole::Leader;
    let resp = s.append_entries(1, append_req(3, 9, 0, 0, Vec::new()), 0);
    assert_eq!(resp, AppendEntriesResponse { node_id: 1, term: 5, success: false });
    assert_eq!(s.get_node_type(), NodeRole::Leader);
}

#[test]
fn follower_accepts_append_from_older_term() {
    let mut s = follower(5, None, Vec::new());
    let resp = s.append_entries(1, append_req(3, 9, 0, 0, vec![entry(3, "x")]), 0);
    assert_eq!(resp, AppendEntriesResponse { node_id: 1, term: 3, success: true });
    assert_eq!(terms(&s), vec![3]);
}

#[test]
fn append_refused_on_term_mismatch_or_gap() {
    let log = || vec![entry(1, "a"), entry(1, "b"), entry(2, "c")];
    let mut s = follower(2, None, log());
    let r = s.append_entries(1, append_req(2, 9, 2, 7, Vec::new()), 0);
    assert_eq!(r, AppendEntriesResponse { node_id: 1, term: 2, success: false });
    assert_eq!(terms(&s), vec![1, 1, 2]);
    let r = s.append_entries(1, append_req(2, 9, 4, 2, Vec::new()), 0);
    assert!(!r.success);
    let mut e = follower(2, None, Vec::new());
    assert!(!e.append_entries(1, append_req(2, 9, 1, 0, Vec::new()), 0).success);
}

#[test]
fn accepted_append_extends_the_log() {
    let mut s = follower(2, Some(4), vec![entry(1, "a"), entry(1, "b"), entry(2, "c")]);
    let r = s.append_entries(1, append_req(3, 9, 2, 1, vec![entry(3, "d")]), 500);
    assert_eq!(r, AppendEntriesResponse { node_id: 1, term: 3, success: true });
    assert_eq!(terms(&s), vec![1, 1, 2, 3]);
    assert_eq!(s.persistent_state.voted_for, Some(9));
    assert!(s.recieved_leader_heartbeat);
    assert!(s.volatile_state.election_timeout >= 650 && s.volatile_state.election_timeout <= 800);
}

#[test]
fn short_append_cuts_the_log() {
    let mut s = follower(2, None, vec![entry(1, "a"), entry(1, "b"), entry(2, "c")]);
    let r = s.append_entries(1, append_req(2, 9, 2, 1, Vec::new()), 0);
    assert!(r.success);
    assert_eq!(terms(&s), vec![1]);
    assert_eq!(s.persistent_state.voted_for, None);
}

fn leader_with_log() -> State<String> {
    let mut s = follower(2, None, vec![entry(1, "a"), entry(1, "b"), entry(2, "c")]);
    s.volatile_state.node_type = NodeRole::Leader;
    s
}

#[test]
fn heartbeat_request_follows_next_index() {
    let mut s = leader_with_log();
    s.volatile_state.next_index.insert("b".to_string(), 2);
    s.volatile_state.next_index.insert("c".to_string(), 1);
    s.volatile_state.commited_index = 1;
    let r = s.heartbeat_request(&"b".to_string(), 7);
    assert_eq!((r.term, r.leader_id, r.prev_log_index, r.prev_log_term, r.leader_commit), (2, 7, 1, 1, 1));
    assert_eq!(r.entries.iter().map(|e| e.value.clone()).collect::<Vec<_>>(), vec!["b", "c"]);
    let r = s.heartbeat_request(&"c".to_string(), 7);
    assert_eq!((r.prev_log_index, r.prev_log_term, r.entries.len()), (0, 0, 3));
    let r = s.heartbeat_request(&"zz".to_string(), 7);
    assert_eq!((r.prev_log_index, r.prev_log_term, r.entries.len()), (0, 0, 0));
    s.volatile_state.next_index.insert("b".to_string(), 0);
    let r = s.heartbeat_request(&"b".to_string(), 7);
    assert_eq!(r.entries.len(), 0);
}

#[test]
fn heartbeat_responses_move_indices() {
    let mut s = leader_with_log();
    s.volatile_state.next_index.insert("b".to_string(), 3);
    assert!(s.heartbeat_due(s.volatile_state.heartbeat_timeout));
    assert!(!s.heartbeat_due(s.volatile_state.heartbeat_timeout - 1));
    let ok = AppendEntriesResponse { node_id: 2, term: 2, success: true };
    let no = AppendEntriesResponse { node_id: 2, term: 2, success: false };
    s.handle_heartbeat_response("c".to_string(), &ok);
    assert_eq!(s.volatile_state.next_index.get(&"c".to_string()), Some(4));
    assert_eq!(s.volatile_state.match_index.get(&"c".to_string()), Some(3));
    s.handle_heartbeat_response("b".to_string(), &no);
    assert_eq!(s.volatile_state.next_index.get(&"b".to_string()), Some(2));
    s.handle_heartbeat_response("b".to_string(), &no);
    s.handle_heartbeat_response("b".to_string(), &no);
    assert_eq!(s.volatile_state.next_index.get(&"b".to_string()), Some(1));
    s.finish_heartbeat("self".to_string(), 100);
    assert_eq!(s.volatile_state.next_index.get(&"self".to_string()), Some(4));
    assert_eq!(s.volatile_state.match_index.get(&"self".to_string()), Some(3));
    assert!(s.volatile_state.heartbeat_timeout >= 105 && s.volatile_state.heartbeat_timeout <= 110);
}

#[test]
fn follower_does_not_send_heartbeats() {
    let s = follower(1, None, Vec::new());
    assert!(!s.heartbeat_due(u64::MAX));
}

#[test]
fn election_won_with_quorum() {
    let c = conns(&["b", "c"]);
    let mut s = follower(0, None, vec![entry(1, "a")]);
    s.transition(NodeRole::Candidate, 1, 1);
    let req = s.start_election(1, 50);
    assert_eq!(req, vote_req(1, 1, 1, 1));
    assert_eq!(s.volatile_state.votes_recieved, vec![1]);
    assert_eq!(s.persistent_state.voted_for, Some(1));
    let q = get_quorum_length(c.len()) as usize;
    let p = s.handle_vote_response(&ElectionVoteResponse { node_id: 2, term: 1, vote_granted: true }, q, &c, 1);
    assert_eq!(p, ElectionProgress::Elected);
    assert_eq!(s.get_node_type(), NodeRole::Leader);
    assert_eq!(s.persistent_state.node_term, 1);
    assert_eq!(s.volatile_state.next_index.get(&"b".to_string()), Some(2));
    assert_eq!(s.volatile_state.match_index.get(&"c".to_string()), Some(0));
}

#[test]
fn election_lost_to_higher_term() {
    let c = conns(&["b", "c"]);
    let mut s = follower(0, None, Vec::new());
    s.transition(NodeRole::Candidate, 1, 1);
    s.start_election(1, 50);
    let p = s.handle_vote_response(&ElectionVoteResponse { node_id: 2, term: 4, vote_granted: false }, 2, &c, 1);
    assert_eq!(p, ElectionProgress::SteppedDown);
    assert_eq!(s.get_node_type(), NodeRole::Follower);
    assert_eq!(s.persistent_state.node_term, 4);
    assert_eq!(s.persistent_state.voted_for, None);
}

#[test]
fn election_pending_on_stale_refusal() {
    let c = conns(&["b", "c"]);
    let mut s = follower(2, None, Vec::new());
    s.transition(NodeRole::Candidate, 1, 1);
    s.start_election(1, 50);
    assert!(!s.election_timed_out(s.volatile_state.election_timeout));
    assert!(s.election_timed_out(s.volatile_state.election_timeout + 1));
    let p = s.handle_vote_response(&ElectionVoteResponse { node_id: 2, term: 1, vote_granted: false }, 2, &c, 1);
    assert_eq!(p, ElectionProgress::Pending);
    assert_eq!(s.get_node_type(), NodeRole::Candidate);
    assert_eq!(s.volatile_state.votes_recieved, vec![1]);
}

#[test]
fn follower_becomes_candidate_after_timeout() {
    let mut s = follower(0, None, Vec::new());
    let t = s.volatile_state.election_timeout;
    assert_eq!(s.maybe_transition_candidate(1, t), None);
    let req = s.maybe_transition_candidate(1, t + 1).unwrap();
    assert_eq!(req, vote_req(1, 1, 0, 0));
    assert_eq!(s.get_node_type(), NodeRole::Candidate);
    assert_eq!(s.persistent_state.voted_for, Some(1));
    s.maybe_transition_leader(1);
    assert_eq!(s.get_node_type(), NodeRole::Leader);
    assert_eq!(s.persistent_state.node_term, 1);
    assert_eq!(s.maybe_transition_candidate(1, u64::MAX - 300), None);
}

#[test]
fn heartbeat_received_blocks_candidacy() {
    let mut s = follower(0, None, Vec::new());
    s.recieved_leader_heartbeat = true;
    assert_eq!(s.maybe_transition_candidate(1, u64::MAX - 300), None);
    assert_eq!(s.get_node_type(), NodeRole::Follower);
}

#[test]
fn only_leader_appends() {
    let mut s = follower(3, None, Vec::new());
    s.append_entry("x".to_string(), Command::SetValue);
    assert_eq!(s.persistent_state.log.len(), 0);
    s.volatile_state.node_type = NodeRole::Leader;
    s.append_entry("y".to_string(), Command::SetValue);
    assert_eq!(terms(&s), vec![3]);
    assert_eq!(s.persistent_state.log[0].value, "y");
    assert_eq!(s.persistent_state.log[0].command, Command::SetValue);
}

#[test]
fn commit_follows_quorum_of_match_indices() {
    let mut s = leader_with_log();
    s.volatile_state.match_index.insert("b".to_string(), 2);
    s.volatile_state.match_index.insert("c".to_string(), 2);
    s.volatile_state.match_index.insert("self".to_string(), 3);
    assert_eq!(s.commit_target(2), Some(2));
    assert_eq!(s.commit_target(3), None);
    let delivered = s.maybe_commit_log_entries(2);
    assert_eq!(delivered.iter().map(|e| e.value.clone()).collect::<Vec<_>>(), vec!["a", "b"]);
    assert_eq!(s.volatile_state.commited_index, 2);
    assert_eq!(s.maybe_commit_log_entries(2).len(), 0);
    assert_eq!(s.volatile_state.commited_index, 2);
}

#[test]
fn follower_does_not_commit() {
    let mut s = follower(1, None, vec![entry(1, "a")]);
    s.volatile_state.match_index.insert("b".to_string(), 1);
    s.volatile_state.match_index.insert("c".to_string(), 1);
    assert_eq!(s.maybe_commit_log_entries(1).len(), 0);
    assert_eq!(s.volatile_state.commited_index, 0);
}

#[test]
fn persisted_state_keeps_committed_prefix() {
    let s = leader_with_log();
    let snap = s.persistent_state.persist_snapshot(2);
    assert_eq!(snap.node_term, 2);
    assert_eq!(snap.voted_for, None);
    assert_eq!(snap.log.iter().map(|e| e.value.clone()).collect::<Vec<_>>(), vec!["a", "b"]);
    assert_eq!(s.persistent_state.persist_snapshot(0).log.len(), 0);
    let f: PersistentState<String> = PersistentState::fresh();
    assert_eq!((f.node_term, f.voted_for, f.log.len()), (0, None, 0));
}

#[test]
fn persist_only_after_deadline() {
    let mut s = leader_with_log();
    s.volatile_state.commited_index = 1;
    assert!(s.try_persist_state(6000).is_none());
    let snap = s.try_persist_state(6001).unwrap();
    assert_eq!(snap.log.len(), 1);
    assert_eq!(s.volatile_state.persist_timeout, 11001);
}

#[test]
fn ping_messages_carry_term_and_id() {
    let s = follower(6, None, Vec::new());
    assert_eq!(s.ping_request(4), PingRequest { term: 6, node_id: 4 });
    assert_eq!(s.ping_node(5), PingResponse { term: 6, node_id: 5 });
}

#[test]
fn transitions_set_role_and_term() {
    let mut s = follower(6, None, Vec::new());
    s.transition_to_term(NodeRole::Leader, 2, 1);
    assert_eq!((s.get_node_type(), s.persistent_state.node_term), (NodeRole::Leader, 2));
    s.transition(NodeRole::Follower, 3, 1);
    assert_eq!((s.get_node_type(), s.persistent_state.node_term), (NodeRole::Follower, 5));
}

#[test]
fn index_map_counts_values() {
    let mut m = IndexMap::new();
    m.insert("a".to_string(), 2);
    m.insert("b".to_string(), 2);
    m.insert("c".to_string(), 3);
    m.insert("a".to_string(), 3);
    assert_eq!(m.len(), 3);
    assert_eq!(m.count(2), 1);
    assert_eq!(m.count(3), 2);
    assert_eq!(m.get(&"a".to_string()), Some(3));
    assert_eq!(m.value_at(1), 2);
    m.clear();
    assert_eq!(m.len(), 0);
    assert_eq!(m.get(&"a".to_string()), None);
}

#[test]
fn deliveries_follow_log_order() {
    let mut s = leader_with_log();
    s.volatile_state.match_index.insert("b".to_string(), 2);
    s.volatile_state.match_index.insert("c".to_string(), 2);
    let first = s.maybe_commit_log_entries(2);
    s.volatile_state.match_index.insert("b".to_string(), 3);
    s.volatile_state.match_index.insert("c".to_string(), 3);
    let second = s.maybe_commit_log_entries(2);
    let all: Vec<String> = first.iter().chain(second.iter()).map(|e| e.value.clone()).collect();
    assert_eq!(all, vec!["a", "b", "c"]);
    assert_eq!(s.volatile_state.commited_index, 3);
}

#[test]
fn log_entries_carry_their_command() {
    let log = vec![
        LogEntry::new(Command::SetValue, (64u64, "viola".to_string()), 1),
        LogEntry::new(Command::SetValue, (32u64, "hola".to_string()), 1),
    ];
    assert!(log.iter().all(|e| e.command == Command::SetValue && e.term == 1));
    assert_eq!(log[0].value, (64, "viola".to_string()));
    assert_eq!(log[1].value, (32, "hola".to_string()));
}

#[test]
fn election_timeout_makes_a_new_candidacy() {
    let mut s = follower(2, Some(1), Vec::new());
    s.volatile_state.node_type = NodeRole::Candidate;
    let deadline = s.volatile_state.election_timeout;
    assert!(!s.election_timeout_step(1, deadline));
    assert_eq!(s.persistent_state.node_term, 2);
    assert_eq!(s.get_node_type(), NodeRole::Candidate);
    assert!(s.election_timeout_step(1, deadline + 1));
    assert_eq!(s.persistent_state.node_term, 3);
    assert_eq!(s.get_node_type(), NodeRole::Candidate);
    assert_eq!(s.persistent_state.voted_for, Some(1));
}

#[test]
fn end_of_tick_forgets_the_heartbeat() {
    let mut s = follower(1, None, Vec::new());
    s.recieved_leader_heartbeat = true;
    assert!(!s.end_tick());
    assert!(!s.recieved_leader_heartbeat);
    s.volatile_state.node_type = NodeRole::Leader;
    s.recieved_leader_heartbeat = true;
    assert!(s.end_tick());
    assert!(!s.recieved_leader_heartbeat);
    assert_eq!(s.persistent_state.node_term, 1);
}

#[test]
fn failed_heartbeats_keep_next_index_at_least_one() {
    let mut s = leader_with_log();
    s.volatile_state.next_index.insert("b".to_string(), 2);
    let refused = AppendEntriesResponse { node_id: 2, term: 1, success: false };
    for _ in 0..5 {
        s.handle_heartbeat_response("b".to_string(), &refused);
        let ni = s.volatile_state.next_index.get(&"b".to_string()).unwrap();
        assert!(ni >= 1);
    }
    assert_eq!(s.volatile_state.next_index.get(&"b".to_string()), Some(1));
    s.finish_heartbeat("self".to_string(), 1000);
    assert_eq!(s.volatile_state.next_index.get(&"self".to_string()), Some(4));
}

#[test]
fn voted_node_refuses_other_candidates_of_its_term() {
    let mut s = follower(2, Some(7), vec![entry(1, "a")]);
    let before_deadline = s.volatile_state.election_timeout;
    let resp = s.request_vote(3, &vote_req(2, 8, 9, 9), 5000);
    assert_eq!(resp, ElectionVoteResponse { node_id: 3, term: 2, vote_granted: false });
    assert_eq!(s.persistent_state.voted_for, Some(7));
    assert_eq!(s.volatile_state.election_timeout, before_deadline);
    assert!(!s.recieved_leader_heartbeat);
}
