use vstd::prelude::*;

use crate::log::LogIndex;

verus! {

/// Keys of an association list, in order.
pub open spec fn keys_of(pairs: Seq<(Seq<char>, LogIndex)>) -> Seq<Seq<char>> {
    pairs.map_values(|p: (Seq<char>, LogIndex)| p.0)
}

/// Values of an association list, in order.
pub open spec fn values_of(pairs: Seq<(Seq<char>, LogIndex)>) -> Seq<LogIndex> {
    pairs.map_values(|p: (Seq<char>, LogIndex)| p.1)
}

/// No key occurs twice.
pub open spec fn distinct_keys(pairs: Seq<(Seq<char>, LogIndex)>) -> bool {
    forall|i: int, j: int|
        0 <= i < pairs.len() && 0 <= j < pairs.len() && i != j ==> #[trigger] pairs[i].0
            != #[trigger] pairs[j].0
}

/// `k` is a key of the list.
pub open spec fn has_key(pairs: Seq<(Seq<char>, LogIndex)>, k: Seq<char>) -> bool {
    exists|i: int| 0 <= i < pairs.len() && #[trigger] pairs[i].0 == k
}

/// Position of the first pair whose key is `k`.
pub open spec fn key_position(pairs: Seq<(Seq<char>, LogIndex)>, k: Seq<char>) -> int {
    choose|i: int|
        0 <= i < pairs.len() && pairs[i].0 == k && forall|j: int|
            0 <= j < i ==> #[trigger] pairs[j].0 != k
}

/// The value stored under `k`, if any.
pub open spec fn lookup(pairs: Seq<(Seq<char>, LogIndex)>, k: Seq<char>) -> Option<LogIndex> {
    if has_key(pairs, k) {
        Some(pairs[key_position(pairs, k)].1)
    } else {
        None
    }
}

/// The list after storing `v` under `k`: the pair with key `k` is replaced
/// in place, or a new pair is appended.
pub open spec fn insert_pair(pairs: Seq<(Seq<char>, LogIndex)>, k: Seq<char>, v: LogIndex) -> Seq<
    (Seq<char>, LogIndex),
> {
    if has_key(pairs, k) {
        pairs.update(key_position(pairs, k), (k, v))
    } else {
        pairs.push((k, v))
    }
}

/// Number of occurrences of `v` in `s`.
pub open spec fn count_value(s: Seq<LogIndex>, v: LogIndex) -> nat
    decreases s.len(),
{
    if s.len() == 0 {
        0
    } else {
        count_value(s.drop_last(), v) + if s.last() == v {
            1nat
        } else {
            0nat
        }
    }
}

/// The first position of `k` exists and is the first match.
pub proof fn lemma_key_position(pairs: Seq<(Seq<char>, LogIndex)>, k: Seq<char>, i: int)
    requires
        0 <= i < pairs.len(),
        pairs[i].0 == k,
        forall|j: int| 0 <= j < i ==> #[trigger] pairs[j].0 != k,
    ensures
        has_key(pairs, k),
        key_position(pairs, k) == i,
{
    let p = key_position(pairs, k);
    assert(0 <= p < pairs.len() && pairs[p].0 == k && forall|j: int|
        0 <= j < p ==> #[trigger] pairs[j].0 != k);
    if p < i {
        assert(pairs[p].0 != k);
    } else if p > i {
        assert(pairs[i].0 != k);
    }
}

/// A key of the list has a first position.
pub proof fn lemma_first_position(pairs: Seq<(Seq<char>, LogIndex)>, k: Seq<char>)
    requires
        has_key(pairs, k),
    ensures
        0 <= key_position(pairs, k) < pairs.len(),
        pairs[key_position(pairs, k)].0 == k,
        forall|j: int| 0 <= j < key_position(pairs, k) ==> #[trigger] pairs[j].0 != k,
    decreases pairs.len(),
{
    let d = pairs.drop_last();
    if has_key(d, k) {
        lemma_first_position(d, k);
        let p = key_position(d, k);
        assert forall|j: int| 0 <= j < p implies #[trigger] pairs[j].0 != k by {
            assert(pairs[j] == d[j]);
        }
        lemma_key_position(pairs, k, p);
    } else {
        let n = pairs.len() - 1;
        let w = choose|i: int| 0 <= i < pairs.len() && #[trigger] pairs[i].0 == k;
        if w < n {
            assert(d[w].0 == k);
        }
        assert forall|j: int| 0 <= j < n implies #[trigger] pairs[j].0 != k by {
            if pairs[j].0 == k {
                assert(d[j].0 == k);
            }
        }
        lemma_key_position(pairs, k, n);
    }
}

/// A map from connection addresses to log indices, kept as an
/// association list in insertion order.
pub struct IndexMap {
    entries: Vec<(String, LogIndex)>,
}

impl IndexMap {
    /// The pairs of the map, keys taken by their character sequences.
    pub closed spec fn pairs(&self) -> Seq<(Seq<char>, LogIndex)> {
        self.entries@.map_values(|e: (String, LogIndex)| (e.0@, e.1))
    }

    /// Values of the map, in insertion order.
    pub open spec fn values(&self) -> Seq<LogIndex> {
        values_of(self.pairs())
    }

    /// Well-formed: no key occurs twice. This is the type's invariant, and
    /// the constructors and `insert` state it of what they return.
    pub open spec fn wf(&self) -> bool {
        distinct_keys(self.pairs())
    }

    /// No key occurs twice in any map that exists.
    #[verifier::type_invariant]
    spec fn keys_distinct(&self) -> bool {
        distinct_keys(self.pairs())
    }

    pub fn new() -> (res: Self)
        ensures
            res.pairs() == Seq::<(Seq<char>, LogIndex)>::empty(),
            res.wf(),
    {
        let res = IndexMap { entries: Vec::new() };
        assert(res.pairs() =~= Seq::<(Seq<char>, LogIndex)>::empty());
        res
    }


    pub fn len(&self) -> (res: usize)
        ensures
            res == self.pairs().len(),
    {
        self.entries.len()
    }

    pub fn clear(&mut self)
        ensures
            final(self).pairs() == Seq::<(Seq<char>, LogIndex)>::empty(),
            final(self).wf(),
    {
        *self = IndexMap::new();
    }

    /// Position of the first pair with key `key`.
    fn position(&self, key: &String) -> (res: Option<usize>)
        ensures
            match res {
                Some(i) => i < self.pairs().len() && self.pairs()[i as int].0 == key@ && forall|
                    j: int,
                | 0 <= j < i ==> #[trigger] self.pairs()[j].0 != key@,
                None => !has_key(self.pairs(), key@),
            },
    {
        let mut i: usize = 0;
        while i < self.entries.len()
            invariant
                i <= self.entries.len(),
                forall|j: int| 0 <= j < i ==> #[trigger] self.pairs()[j].0 != key@,
            decreases self.entries.len() - i,
        {
            if self.entries[i].0 == *key {
                return Some(i);
            }
            i = i + 1;
        }
        None
    }

    /// The value stored under `key`.
    pub fn get(&self, key: &String) -> (res: Option<LogIndex>)
        ensures
            res == lookup(self.pairs(), key@),
    {
        match self.position(key) {
            Some(i) => {
                proof {
                    lemma_key_position(self.pairs(), key@, i as int);
                }
                Some(self.entries[i].1)
            },
            None => None,
        }
    }

    /// Stores `value` under `key`, replacing an earlier value.
    pub fn insert(&mut self, key: String, value: LogIndex)
        ensures
            final(self).pairs() == insert_pair(old(self).pairs(), key@, value),
            final(self).wf(),
    {
        proof {
            use_type_invariant(&*self);
            lemma_insert_keeps_distinct(self.pairs(), key@, value);
        }
        let ghost before = self.pairs();
        let pos = self.position(&key);
        let mut entries: Vec<(String, LogIndex)> = Vec::new();
        std::mem::swap(&mut entries, &mut self.entries);
        let ghost taken = entries@.map_values(|e: (String, LogIndex)| (e.0@, e.1));
        assert(taken =~= before);
        match pos {
            Some(i) => {
                proof {
                    lemma_key_position(before, key@, i as int);
                }
                entries.set(i, (key, value));
            },
            None => {
                entries.push((key, value));
            },
        }
        assert(entries@.map_values(|e: (String, LogIndex)| (e.0@, e.1)) =~= insert_pair(
            before,
            key@,
            value,
        ));
        self.entries = entries;
    }

    /// Number of stored values equal to `v`.
    pub fn count(&self, v: LogIndex) -> (res: usize)
        ensures
            res == count_value(self.values(), v),
    {
        let mut n: usize = 0;
        let mut i: usize = 0;
        while i < self.entries.len()
            invariant
                i <= self.entries.len(),
                n <= i,
                n == count_value(self.values().take(i as int), v),
            decreases self.entries.len() - i,
        {
            proof {
                assert(self.values().take(i + 1).drop_last() =~= self.values().take(i as int));
            }
            if self.entries[i].1 == v {
                n = n + 1;
            }
            i = i + 1;
        }
        assert(self.values().take(i as int) =~= self.values());
        n
    }

    /// The value at position `i`.
    pub fn value_at(&self, i: usize) -> (res: LogIndex)
        requires
            i < self.pairs().len(),
        ensures
            res == self.values()[i as int],
    {
        self.entries[i].1
    }
}

/// Storing under a key keeps keys distinct.
pub proof fn lemma_insert_keeps_distinct(
    pairs: Seq<(Seq<char>, LogIndex)>,
    k: Seq<char>,
    v: LogIndex,
)
    requires
        distinct_keys(pairs),
    ensures
        distinct_keys(insert_pair(pairs, k, v)),
        has_key(insert_pair(pairs, k, v), k),
        lookup(insert_pair(pairs, k, v), k) == Some(v),
{
    let r = insert_pair(pairs, k, v);
    if has_key(pairs, k) {
        let p = key_position(pairs, k);
        assert forall|i: int, j: int|
            0 <= i < r.len() && 0 <= j < r.len() && i != j implies #[trigger] r[i].0
            != #[trigger] r[j].0 by {
            if i != p && j != p {
                assert(pairs[i].0 != pairs[j].0);
            } else if i == p {
                assert(pairs[j].0 != pairs[p].0);
            } else {
                assert(pairs[i].0 != pairs[p].0);
            }
        }
        assert forall|j: int| 0 <= j < p implies #[trigger] r[j].0 != k by {
            assert(pairs[j].0 != pairs[p].0);
        }
        lemma_key_position(r, k, p);
    } else {
        assert forall|i: int, j: int|
            0 <= i < r.len() && 0 <= j < r.len() && i != j implies #[trigger] r[i].0
            != #[trigger] r[j].0 by {
            if i == pairs.len() {
                assert(pairs[j].0 == r[j].0);
            } else if j == pairs.len() {
                assert(pairs[i].0 == r[i].0);
            }
        }
        let n = pairs.len() as int;
        assert forall|j: int| 0 <= j < n implies #[trigger] r[j].0 != k by {
            assert(r[j].0 == pairs[j].0);
        }
        lemma_key_position(r, k, n);
    }
}

} // verus!
