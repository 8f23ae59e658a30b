use vstd::prelude::*;

use crate::index_map::{
    count_value, distinct_keys, has_key, insert_pair, key_position, keys_of,
    lemma_first_position, lemma_insert_keeps_distinct, lemma_key_position, lookup,
};
use crate::kv::{apply_all, apply_operation, parsed_operation, written_key, Operation};
use crate::text::{split_on_space, trimmed};
use crate::log::{clones_of, LogEntry, LogIndex, NodeId};
use crate::rpc::{AppendEntriesRequest, AppendEntriesResponse, ElectionVoteRequest, ElectionVoteResponse};
use crate::state::{
    append_entries_post, append_refused, commit_choice, commit_post, fill_pairs,
    append_panics, finish_heartbeat_post, heartbeat_request_post, heartbeat_response_post,
    request_vote_post, string_views, NodeRole, State,
};
use vstd::set_lib::lemma_len_subset;

verus! {

/// A node grants at most one candidate its vote in a term: after it voted
/// for the sender of `r1`, a request `r2` of the same term from another
/// candidate is refused.
pub proof fn law_one_vote_per_term<T>(
    s0: State<T>,
    s1: State<T>,
    s2: State<T>,
    node_id: NodeId,
    r1: ElectionVoteRequest,
    r2: ElectionVoteRequest,
    now1: u64,
    now2: u64,
    a1: ElectionVoteResponse,
    a2: ElectionVoteResponse,
)
    requires
        request_vote_post(s0, s1, node_id, r1, now1, a1),
        request_vote_post(s1, s2, node_id, r2, now2, a2),
        a1.vote_granted,
        a2.vote_granted,
        r1.term == r2.term,
    ensures
        r1.candidate_id == r2.candidate_id,
{
}

/// Handling a vote request never lowers the node's term, and a granted
/// vote moves the node to the candidate's term as a follower that voted
/// for it.
pub proof fn law_vote_keeps_term_order<T>(
    s0: State<T>,
    s1: State<T>,
    node_id: NodeId,
    r: ElectionVoteRequest,
    now: u64,
    a: ElectionVoteResponse,
)
    requires
        request_vote_post(s0, s1, node_id, r, now, a),
    ensures
        s1.persistent_state.node_term >= s0.persistent_state.node_term,
        a.vote_granted ==> s1.persistent_state.node_term == r.term
            && s1.persistent_state.voted_for == Some(r.candidate_id)
            && s1.volatile_state.node_type == NodeRole::Follower,
{
}

/// An accepted AppendEntries request leaves its entries at the end of the
/// log, and the node a follower in the leader's term.
pub proof fn law_accepted_append_ends_with_entries<T>(
    s0: State<T>,
    s1: State<T>,
    node_id: NodeId,
    req: AppendEntriesRequest<T>,
    now: u64,
    resp: AppendEntriesResponse,
)
    requires
        append_entries_post(s0, s1, node_id, req, now, resp),
        resp.success,
    ensures
        ({
            let log = s1.persistent_state.log@;
            let k = req.entries@.len();
            &&& log.len() >= k
            &&& log.subrange(log.len() - k, log.len() as int) == req.entries@
        }),
        s1.persistent_state.node_term == req.term,
        s1.volatile_state.node_type == NodeRole::Follower,
        resp.term == req.term,
{
    let log = s1.persistent_state.log@;
    let k = req.entries@.len();
    assert(!append_refused(s0, req));
    assert(log.subrange(log.len() - k, log.len() as int) =~= req.entries@);
}

/// A refused AppendEntries request changes nothing and answers with the
/// node's own term.
pub proof fn law_refused_append_changes_nothing<T>(
    s0: State<T>,
    s1: State<T>,
    node_id: NodeId,
    req: AppendEntriesRequest<T>,
    now: u64,
    resp: AppendEntriesResponse,
)
    requires
        append_entries_post(s0, s1, node_id, req, now, resp),
        !resp.success,
    ensures
        s1 == s0,
        resp.term == s0.persistent_state.node_term,
{
}

/// Two commit steps in a row deliver the committed entries once each and
/// in log order: together they deliver the entries between the first
/// commit index and the last.
pub proof fn law_delivery_in_order<T: Clone>(
    s0: State<T>,
    s1: State<T>,
    s2: State<T>,
    q1: usize,
    q2: usize,
    d1: Seq<LogEntry<T>>,
    d2: Seq<LogEntry<T>>,
)
    requires
        commit_post(s0, s1, q1, d1),
        commit_post(s1, s2, q2, d2),
    ensures
        s0.volatile_state.commited_index <= s1.volatile_state.commited_index
            <= s2.volatile_state.commited_index,
        s2.persistent_state.log == s0.persistent_state.log,
        s2.volatile_state.commited_index > s0.volatile_state.commited_index ==> clones_of(
            s0.persistent_state.log@.subrange(
                s0.volatile_state.commited_index as int,
                s2.volatile_state.commited_index as int,
            ),
            d1 + d2,
        ),
        s2.volatile_state.commited_index == s0.volatile_state.commited_index ==> d1 + d2
            =~= Seq::<LogEntry<T>>::empty(),
{
    let c0 = s0.volatile_state.commited_index as int;
    let c1 = s1.volatile_state.commited_index as int;
    let c2 = s2.volatile_state.commited_index as int;
    let log = s0.persistent_state.log@;
    if c2 > c0 {
        if c1 > c0 && c2 > c1 {
            assert(log.subrange(c0, c2) =~= log.subrange(c0, c1) + log.subrange(c1, c2));
        } else if c1 > c0 {
            assert(d2.len() == 0);
            assert(d1 + d2 =~= d1);
        } else {
            assert(d1.len() == 0);
            assert(d1 + d2 =~= d2);
        }
        let d = d1 + d2;
        let src = log.subrange(c0, c2);
        assert forall|i: int| 0 <= i < src.len() implies (#[trigger] d[i]).command == src[i].command
            && d[i].term == src[i].term && cloned::<T>(src[i].value, d[i].value) by {
            if i < d1.len() {
                assert(d[i] == d1[i]);
                assert(src[i] == log.subrange(c0, c1)[i]);
            } else {
                assert(d[i] == d2[i - d1.len()]);
                assert(src[i] == log.subrange(c1, c2)[i - d1.len()]);
            }
        }
    }
}

/// The quorum of a cluster of `n` peers plus one node is a strict majority
/// of the cluster that the cluster can reach.
pub proof fn law_quorum_is_majority(n: nat)
    ensures
        2 * ((n + 1) / 2 + 1) > n + 1,
        (n + 1) / 2 + 1 <= n + 1,
{
}

/// Two different values occur together at most as often as there are
/// values.
pub proof fn lemma_two_counts(vals: Seq<LogIndex>, a: LogIndex, b: LogIndex)
    requires
        a != b,
    ensures
        count_value(vals, a) + count_value(vals, b) <= vals.len(),
    decreases vals.len(),
{
    if vals.len() > 0 {
        lemma_two_counts(vals.drop_last(), a, b);
    }
}

/// At most one match index can be held by a quorum when the cluster has at
/// most `n + 1` members: two quorums of the same cluster overlap.
pub proof fn law_quorum_value_unique(vals: Seq<LogIndex>, n: nat, a: LogIndex, b: LogIndex)
    requires
        vals.len() <= n + 1,
        count_value(vals, a) >= (n + 1) / 2 + 1,
        count_value(vals, b) >= (n + 1) / 2 + 1,
    ensures
        a == b,
{
    if a != b {
        lemma_two_counts(vals, a, b);
    }
}

/// With at most `n + 1` match indices and the quorum of `n` peers, the
/// index to commit up to is determined: every admissible choice is the
/// same, whatever order the indices are visited in.
pub proof fn law_commit_choice_unique(
    vals: Seq<LogIndex>,
    n: nat,
    r1: Option<LogIndex>,
    r2: Option<LogIndex>,
)
    requires
        vals.len() <= n + 1,
        (n + 1) / 2 + 1 <= usize::MAX,
        commit_choice(vals, ((n + 1) / 2 + 1) as usize, r1),
        commit_choice(vals, ((n + 1) / 2 + 1) as usize, r2),
    ensures
        r1 == r2,
{
    let q = ((n + 1) / 2 + 1) as usize;
    match (r1, r2) {
        (Some(a), Some(b)) => {
            law_quorum_value_unique(vals, n, a, b);
        },
        (Some(a), None) => {
            let i = choose|i: int| 0 <= i < vals.len() && vals[i] == a;
            assert(count_value(vals, vals[i]) < q);
        },
        (None, Some(b)) => {
            let i = choose|i: int| 0 <= i < vals.len() && vals[i] == b;
            assert(count_value(vals, vals[i]) < q);
        },
        (None, None) => {},
    }
}

/// The addresses a node keeps indices for: its peers and its own listener.
pub open spec fn cluster_members(conns: Seq<String>, listener: Seq<char>) -> Set<Seq<char>> {
    string_views(conns).to_set().insert(listener)
}

/// A cluster of `conns` peers and one node has at most `conns.len() + 1`
/// addresses.
pub proof fn lemma_members_len(conns: Seq<String>, listener: Seq<char>)
    ensures
        cluster_members(conns, listener).finite(),
        cluster_members(conns, listener).len() <= conns.len() + 1,
{
    let v = string_views(conns);
    v.lemma_cardinality_of_set();
    vstd::seq_lib::seq_to_set_is_finite(v);
    vstd::set::axiom_set_insert_len(v.to_set(), listener);
}

/// A list with distinct keys, all drawn from `allowed`, is no longer than
/// `allowed`.
pub proof fn lemma_distinct_keys_bound(
    pairs: Seq<(Seq<char>, LogIndex)>,
    allowed: Set<Seq<char>>,
)
    requires
        distinct_keys(pairs),
        allowed.finite(),
        forall|i: int| 0 <= i < pairs.len() ==> allowed.contains(#[trigger] pairs[i].0),
    ensures
        pairs.len() <= allowed.len(),
{
    let ks = keys_of(pairs);
    assert forall|i: int, j: int| 0 <= i < ks.len() && 0 <= j < ks.len() && i != j implies ks[i]
        != ks[j] by {
        assert(pairs[i].0 != pairs[j].0);
    }
    assert(ks.no_duplicates());
    ks.unique_seq_to_set();
    assert forall|k: Seq<char>| ks.to_set().contains(k) implies allowed.contains(k) by {
        let i = choose|i: int| 0 <= i < ks.len() && ks[i] == k;
        assert(allowed.contains(pairs[i].0));
    }
    lemma_len_subset(ks.to_set(), allowed);
}

/// A node whose match indices are kept only for its peers and itself
/// commits a determined index: any two admissible choices of the commit
/// rule agree, whatever order the indices are visited in.
pub proof fn law_leader_commit_determined<T>(
    s: State<T>,
    conns: Seq<String>,
    listener: Seq<char>,
    r1: Option<LogIndex>,
    r2: Option<LogIndex>,
)
    requires
        s.volatile_state.match_index.wf(),
        forall|i: int|
            0 <= i < s.volatile_state.match_index.pairs().len() ==> cluster_members(
                conns,
                listener,
            ).contains(#[trigger] s.volatile_state.match_index.pairs()[i].0),
        (conns.len() + 1) / 2 + 1 <= usize::MAX,
        commit_choice(
            s.volatile_state.match_index.values(),
            ((conns.len() + 1) / 2 + 1) as usize,
            r1,
        ),
        commit_choice(
            s.volatile_state.match_index.values(),
            ((conns.len() + 1) / 2 + 1) as usize,
            r2,
        ),
    ensures
        r1 == r2,
{
    let pairs = s.volatile_state.match_index.pairs();
    lemma_members_len(conns, listener);
    lemma_distinct_keys_bound(pairs, cluster_members(conns, listener));
    law_commit_choice_unique(s.volatile_state.match_index.values(), conns.len(), r1, r2);
}

/// Storing under a member address keeps every key of the list a member.
pub proof fn law_insert_stays_in_cluster(
    pairs: Seq<(Seq<char>, LogIndex)>,
    k: Seq<char>,
    v: LogIndex,
    members: Set<Seq<char>>,
)
    requires
        forall|i: int| 0 <= i < pairs.len() ==> members.contains(#[trigger] pairs[i].0),
        members.contains(k),
    ensures
        forall|i: int|
            0 <= i < insert_pair(pairs, k, v).len() ==> members.contains(
                #[trigger] insert_pair(pairs, k, v)[i].0,
            ),
{
    let r = insert_pair(pairs, k, v);
    if has_key(pairs, k) {
        lemma_first_position(pairs, k);
    }
    assert forall|i: int| 0 <= i < r.len() implies members.contains(#[trigger] r[i].0) by {
        if has_key(pairs, k) {
            if i != key_position(pairs, k) {
                assert(r[i] == pairs[i]);
            }
        } else if i < pairs.len() {
            assert(r[i] == pairs[i]);
        }
    }
}

/// The indices a node sets up for its peers have distinct keys, all of them
/// peers.
pub proof fn law_fill_in_cluster(cs: Seq<Seq<char>>, v: LogIndex, members: Set<Seq<char>>)
    requires
        forall|i: int| 0 <= i < cs.len() ==> members.contains(#[trigger] cs[i]),
    ensures
        distinct_keys(fill_pairs(cs, v)),
        forall|i: int|
            0 <= i < fill_pairs(cs, v).len() ==> members.contains(#[trigger] fill_pairs(cs, v)[i].0),
    decreases cs.len(),
{
    if cs.len() > 0 {
        let d = cs.drop_last();
        assert forall|i: int| 0 <= i < d.len() implies members.contains(#[trigger] d[i]) by {
            assert(d[i] == cs[i]);
        }
        law_fill_in_cluster(d, v, members);
        lemma_insert_keeps_distinct(fill_pairs(d, v), cs.last(), v);
        law_insert_stays_in_cluster(fill_pairs(d, v), cs.last(), v, members);
    }
}

/// Storing a value under a key makes a lookup of that key give it, and
/// leaves every other key as it was.
pub proof fn law_lookup_after_insert(
    pairs: Seq<(Seq<char>, LogIndex)>,
    k: Seq<char>,
    v: LogIndex,
    other: Seq<char>,
)
    ensures
        lookup(insert_pair(pairs, k, v), k) == Some(v),
        other != k ==> lookup(insert_pair(pairs, k, v), other) == lookup(pairs, other),
{
    let r = insert_pair(pairs, k, v);
    if exists|i: int| 0 <= i < pairs.len() && #[trigger] pairs[i].0 == k {
        lemma_first_position(pairs, k);
        let p = key_position(pairs, k);
        assert forall|j: int| 0 <= j < p implies #[trigger] r[j].0 != k by {
            assert(r[j] == pairs[j]);
        }
        lemma_key_position(r, k, p);
    } else {
        let n = pairs.len() as int;
        assert forall|j: int| 0 <= j < n implies #[trigger] r[j].0 != k by {
            assert(r[j] == pairs[j]);
        }
        lemma_key_position(r, k, n);
    }
    if other != k {
        if exists|i: int| 0 <= i < pairs.len() && #[trigger] pairs[i].0 == other {
            lemma_first_position(pairs, other);
            let p = key_position(pairs, other);
            assert(r[p].0 == other);
            assert forall|j: int| 0 <= j < p implies #[trigger] r[j].0 != other by {
                if r[j].0 == other {
                    assert(pairs[j].0 == other);
                }
            }
            lemma_key_position(r, other, p);
        } else {
            assert forall|j: int| 0 <= j < r.len() implies #[trigger] r[j].0 != other by {
                if j < pairs.len() {
                    if r[j].0 == other {
                        assert(pairs[j].0 == other);
                    }
                }
            }
        }
    }
}

/// A read of the store gives back what the last write of that key wrote:
/// after storing `v` under `k` a get of `k` finds `v`, other keys keep
/// their values, and after deleting `k` a get finds nothing.
pub proof fn law_read_after_write(
    m: Map<Seq<char>, String>,
    k: Seq<char>,
    v: String,
    other: Seq<char>,
)
    ensures
        m.insert(k, v).contains_key(k) && m.insert(k, v)[k] == v,
        other != k ==> (m.insert(k, v).contains_key(other) == m.contains_key(other) && (
        m.contains_key(other) ==> m.insert(k, v)[other] == m[other])),
        !m.remove(k).contains_key(k),
        other != k ==> (m.remove(k).contains_key(other) == m.contains_key(other) && (
        m.contains_key(other) ==> m.remove(k)[other] == m[other])),
{
}

/// Applying a committed `set` and then reading its key gives the value set.
pub proof fn law_applied_set_is_read(
    m: Map<Seq<char>, String>,
    entry: LogEntry<Operation>,
)
    requires
        entry.value is SetValue,
    ensures
        ({
            let (k, v) = match entry.value {
                Operation::SetValue { key, value } => (key, value),
                _ => arbitrary(),
            };
            let after = match entry.value {
                Operation::SetValue { key, value } => m.insert(key@, value),
                Operation::Delete { key } => m.remove(key@),
                _ => m,
            };
            after.contains_key(k@) && after[k@] == v
        }),
{
}

/// A node that has voted for a candidate in its current term refuses a
/// vote request of that term from any other candidate, and stays as it
/// was.
pub proof fn law_voted_node_refuses_others<T>(
    s0: State<T>,
    s1: State<T>,
    node_id: NodeId,
    voted: NodeId,
    r: ElectionVoteRequest,
    now: u64,
    a: ElectionVoteResponse,
)
    requires
        request_vote_post(s0, s1, node_id, r, now, a),
        s0.persistent_state.voted_for == Some(voted),
        r.term == s0.persistent_state.node_term,
        r.candidate_id != voted,
    ensures
        !a.vote_granted,
        s1 == s0,
        a.term == s0.persistent_state.node_term,
{
}

/// Every next index recorded in `s` is at least 1.
pub open spec fn next_indices_positive<T>(s: State<T>) -> bool {
    let pairs = s.volatile_state.next_index.pairs();
    forall|i: int| 0 <= i < pairs.len() ==> #[trigger] pairs[i].1 >= 1
}

/// Storing a value of at least 1 keeps every value of the list at least 1.
proof fn lemma_insert_keeps_positive(pairs: Seq<(Seq<char>, LogIndex)>, k: Seq<char>, v: LogIndex)
    requires
        forall|i: int| 0 <= i < pairs.len() ==> #[trigger] pairs[i].1 >= 1,
        v >= 1,
    ensures
        forall|i: int|
            0 <= i < insert_pair(pairs, k, v).len() ==> #[trigger] insert_pair(pairs, k, v)[i].1
                >= 1,
{
    if has_key(pairs, k) {
        lemma_first_position(pairs, k);
    }
}

/// Answers to heartbeats never bring a next index below 1: success sets
/// it one past the log, and failure steps it back only while it exceeds 1.
pub proof fn law_heartbeat_response_keeps_next_index_positive<T>(
    s0: State<T>,
    s1: State<T>,
    conn: Seq<char>,
    resp: AppendEntriesResponse,
)
    requires
        heartbeat_response_post(s0, s1, conn, resp),
        resp.success ==> s0.persistent_state.log@.len() < usize::MAX,
        next_indices_positive(s0),
    ensures
        next_indices_positive(s1),
{
    let next = s0.volatile_state.next_index.pairs();
    let n = s0.persistent_state.log@.len();
    if resp.success {
        lemma_insert_keeps_positive(next, conn, (n + 1) as LogIndex);
    } else {
        match lookup(next, conn) {
            Some(ni) => {
                if ni > 1 {
                    lemma_insert_keeps_positive(next, conn, (ni - 1) as LogIndex);
                }
            },
            None => {},
        }
    }
}

/// The end of a heartbeat round keeps every next index at least 1.
pub proof fn law_finish_heartbeat_keeps_next_index_positive<T>(
    s0: State<T>,
    s1: State<T>,
    listener: Seq<char>,
    now: u64,
)
    requires
        finish_heartbeat_post(s0, s1, listener, now),
        s0.persistent_state.log@.len() < usize::MAX,
        next_indices_positive(s0),
    ensures
        next_indices_positive(s1),
{
    let n = s0.persistent_state.log@.len();
    lemma_insert_keeps_positive(s0.volatile_state.next_index.pairs(), listener, (n + 1) as LogIndex);
}

/// A commit step never moves the commit index back and never changes the
/// log; on a node that does not lead it changes nothing and delivers
/// nothing.
pub proof fn law_commit_monotone<T: Clone>(
    s0: State<T>,
    s1: State<T>,
    quorum: usize,
    delivered: Seq<LogEntry<T>>,
)
    requires
        commit_post(s0, s1, quorum, delivered),
    ensures
        s1.volatile_state.commited_index >= s0.volatile_state.commited_index,
        s1.persistent_state == s0.persistent_state,
        s0.volatile_state.node_type != NodeRole::Leader ==> s1 == s0 && delivered.len() == 0,
{
}

/// Operations that change no key `k` leave the entry of `k` as it was.
proof fn lemma_other_keys_untouched(m: Map<Seq<char>, String>, k: Seq<char>, ops: Seq<Operation>)
    requires
        forall|i: int| 0 <= i < ops.len() ==> written_key(#[trigger] ops[i]) != Some(k),
    ensures
        apply_all(m, ops).contains_key(k) == m.contains_key(k),
        m.contains_key(k) ==> apply_all(m, ops)[k] == m[k],
    decreases ops.len(),
{
    if ops.len() > 0 {
        let init = ops.drop_last();
        assert forall|i: int| 0 <= i < init.len() implies written_key(#[trigger] init[i]) != Some(
            k,
        ) by {
            assert(init[i] == ops[i]);
        }
        lemma_other_keys_untouched(m, k, init);
        assert(written_key(ops[ops.len() - 1]) != Some(k));
    }
}

/// After a set of `key` to `value`, any run of sets, deletes and gets of
/// other keys leaves a read of `key` finding `value`; after a delete of
/// `key` it leaves a read finding nothing.
pub proof fn law_other_keys_keep_value(
    m: Map<Seq<char>, String>,
    key: String,
    value: String,
    ops: Seq<Operation>,
)
    requires
        forall|i: int| 0 <= i < ops.len() ==> written_key(#[trigger] ops[i]) != Some(key@),
    ensures
        ({
            let after = apply_all(apply_operation(m, Operation::SetValue { key, value }), ops);
            after.contains_key(key@) && after[key@] == value
        }),
        !apply_all(apply_operation(m, Operation::Delete { key }), ops).contains_key(key@),
{
    lemma_other_keys_untouched(apply_operation(m, Operation::SetValue { key, value }), key@, ops);
    lemma_other_keys_untouched(apply_operation(m, Operation::Delete { key }), key@, ops);
}

/// A vote goes only to a candidate whose log is at least as up to date as
/// the voter's: its last term is higher than the term of the voter's last
/// entry, or equal with a last index at least the voter's log length. A
/// granted vote also never comes from a term below the voter's.
pub proof fn law_vote_needs_up_to_date_log<T>(
    s0: State<T>,
    s1: State<T>,
    node_id: NodeId,
    r: ElectionVoteRequest,
    now: u64,
    a: ElectionVoteResponse,
)
    requires
        request_vote_post(s0, s1, node_id, r, now, a),
    ensures
        ({
            let log = s0.persistent_state.log@;
            a.vote_granted && log.len() > 0 ==> r.last_log_term > log[log.len() - 1].term || (
            r.last_log_term == log[log.len() - 1].term && r.last_log_index >= log.len())
        }),
        ({
            let log = s0.persistent_state.log@;
            log.len() > 0 && log[log.len() - 1].term > r.last_log_term ==> !a.vote_granted && s1
                == s0 && a.term == s0.persistent_state.node_term
        }),
        a.vote_granted ==> r.term >= s0.persistent_state.node_term,
{
}

/// An AppendEntries request succeeds only where the follower's log holds
/// an entry of the request's previous term at the previous index; a term
/// mismatch there is refused, changes nothing and never panics.
pub proof fn law_append_checks_previous_term<T>(
    s0: State<T>,
    s1: State<T>,
    node_id: NodeId,
    req: AppendEntriesRequest<T>,
    now: u64,
    resp: AppendEntriesResponse,
)
    requires
        append_entries_post(s0, s1, node_id, req, now, resp),
    ensures
        ({
            let log = s0.persistent_state.log@;
            let p = req.prev_log_index;
            resp.success && 1 <= p <= log.len() ==> log[p - 1].term == req.prev_log_term
        }),
        ({
            let log = s0.persistent_state.log@;
            let p = req.prev_log_index;
            1 <= p <= log.len() && log[p - 1].term != req.prev_log_term ==> !resp.success && s1
                == s0 && !append_panics(s0, req)
        }),
        resp.success ==> req.prev_log_index <= s0.persistent_state.log@.len(),
{
}

/// A heartbeat to a peer whose next index `ni` lies in `2..=n + 1`, for a
/// log of `n` entries, names entry `ni - 1` as the previous one, with its
/// term, and carries clones of the entries from position `ni - 1` to the
/// end; a peer at next index 1 gets the whole log after index 0.
pub proof fn law_heartbeat_sends_from_next_index<T: Clone>(
    s: State<T>,
    conn: Seq<char>,
    leader_id: NodeId,
    req: AppendEntriesRequest<T>,
    ni: LogIndex,
)
    requires
        heartbeat_request_post(s, conn, leader_id, req),
        lookup(s.volatile_state.next_index.pairs(), conn) == Some(ni),
        1 <= ni <= s.persistent_state.log@.len() + 1,
        s.persistent_state.log@.len() > 0,
    ensures
        ({
            let log = s.persistent_state.log@;
            &&& req.prev_log_index == ni - 1
            &&& req.prev_log_term == if ni >= 2 {
                log[ni - 2].term
            } else {
                0
            }
            &&& clones_of(log.subrange(ni - 1, log.len() as int), req.entries@)
        }),
        req.term == s.persistent_state.node_term,
        req.leader_id == leader_id,
{
}

/// The indices set up for a list of connections hold `v` under the
/// connection at position `i`.
proof fn lemma_fill_holds_at(cs: Seq<Seq<char>>, v: LogIndex, i: int)
    requires
        0 <= i < cs.len(),
    ensures
        lookup(fill_pairs(cs, v), cs[i]) == Some(v),
    decreases cs.len(),
{
    let d = cs.drop_last();
    let pd = fill_pairs(d, v);
    assert(fill_pairs(cs, v) == insert_pair(pd, cs.last(), v));
    law_lookup_after_insert(pd, cs.last(), v, cs[i]);
    if cs[i] != cs.last() {
        assert(i < d.len());
        assert(d[i] == cs[i]);
        lemma_fill_holds_at(d, v, i);
    }
}

/// The indices set up for a list of connections hold `v` under every one
/// of them.
pub proof fn law_fill_holds_every_connection(cs: Seq<Seq<char>>, v: LogIndex)
    ensures
        forall|i: int| 0 <= i < cs.len() ==> lookup(fill_pairs(cs, v), #[trigger] cs[i]) == Some(v),
{
    assert forall|i: int| 0 <= i < cs.len() implies lookup(fill_pairs(cs, v), #[trigger] cs[i])
        == Some(v) by {
        lemma_fill_holds_at(cs, v, i);
    }
}

/// A command line parses to exactly its words: after trimming and splitting
/// on spaces, the key of a get, set or delete is the second word and the
/// value of a set the third, character for character. Only the operation
/// name is case-folded.
pub proof fn law_parsed_words_are_kept(command: Seq<char>, op: Operation)
    requires
        parsed_operation(command, op),
    ensures
        ({
            let words = split_on_space(trimmed(command));
            &&& op matches Operation::SetValue { key, value } ==> key@ == words[1] && value@
                == words[2]
            &&& op matches Operation::Get { key } ==> key@ == words[1]
            &&& op matches Operation::Delete { key } ==> key@ == words[1]
        }),
{
}

} // verus!
