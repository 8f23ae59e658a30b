use vstd::hash_map::StringHashMap;
use vstd::prelude::*;

use crate::log::{Entry, LogEntry};
use crate::text::{
    lemma_split_nonempty, spec_to_lowercase, split_on_space, split_spaces, to_lowercase, trim, trimmed,
};

verus! {

/// A command of the key-value store.
#[derive(Debug, PartialEq, Eq)]
pub enum Operation {
    SetValue { key: String, value: String },
    Get { key: String },
    Delete { key: String },
    Invalid,
}

impl Clone for Operation {
    fn clone(&self) -> (res: Self)
        ensures
            res == *self,
    {
        match self {
            Operation::SetValue { key, value } => Operation::SetValue { key: key.clone(), value: value.clone() },
            Operation::Get { key } => Operation::Get { key: key.clone() },
            Operation::Delete { key } => Operation::Delete { key: key.clone() },
            Operation::Invalid => Operation::Invalid,
        }
    }
}

impl Entry for Operation {
    fn deliver(&mut self) {
    }
}

/// The three operation names.
pub open spec fn is_opr_name(s: Seq<char>) -> bool {
    s == "set"@ || s == "get"@ || s == "delete"@
}

/// The operation name `s` stands for: `s` trimmed and lowercased, if that
/// is one of the three names.
pub open spec fn parse_opr_spec(s: Seq<char>) -> Option<Seq<char>> {
    let l = spec_to_lowercase(trimmed(s));
    if is_opr_name(l) {
        Some(l)
    } else {
        None
    }
}

/// What validating a command line gives: its words (split on single
/// spaces after trimming) with the operation name its first word stands
/// for, when there are at least two words and the first names an operation.
pub open spec fn validate_spec(command: Seq<char>) -> Option<(Seq<char>, Seq<Seq<char>>)> {
    let parts = split_on_space(trimmed(command));
    if parts.len() == 1 {
        None
    } else {
        match parse_opr_spec(parts[0]) {
            Some(o) => Some((o, parts)),
            None => None,
        }
    }
}

/// Parsing `command` would index a missing word: a `set` with a key and
/// no value.
pub open spec fn parse_command_panics(command: Seq<char>) -> bool {
    validate_spec(command) matches Some((o, parts)) && o == "set"@ && parts.len() < 3
}

/// `op` is what `command` parses to: `get KEY`, `set KEY VALUE` and
/// `delete KEY` (operation name in any case, further words ignored), and
/// [`Operation::Invalid`] for everything else.
pub open spec fn parsed_operation(command: Seq<char>, op: Operation) -> bool {
    match validate_spec(command) {
        Some((o, parts)) => if o == "get"@ {
            op matches Operation::Get { key } && key@ == parts[1]
        } else if o == "set"@ {
            op matches Operation::SetValue { key, value } && key@ == parts[1] && value@ == parts[2]
        } else if o == "delete"@ {
            op matches Operation::Delete { key } && key@ == parts[1]
        } else {
            op == Operation::Invalid
        },
        None => op == Operation::Invalid,
    }
}

/// Keeps `lowered` when it is one of the three operation names.
pub fn match_opr(lowered: String) -> (res: Option<String>)
    ensures
        res matches Some(r) ==> r@ == lowered@,
        res is Some <==> is_opr_name(lowered@),
{
    if lowered == String::from_str("set") || lowered == String::from_str("get") || lowered
        == String::from_str("delete") {
        Some(lowered)
    } else {
        None
    }
}

/// The operation name `opr` stands for, trimmed and lowercased.
pub fn parse_opr(opr: &str) -> (res: Option<String>)
    ensures
        res matches Some(r) ==> parse_opr_spec(opr@) == Some(r@),
        res is None <==> parse_opr_spec(opr@) is None,
{
    let t = trim(opr);
    let l = to_lowercase(t.as_str());
    match_opr(l)
}

/// Splits a command line into its operation name and its words.
pub fn validate(command: String) -> (res: Option<(String, Vec<String>)>)
    ensures
        match validate_spec(command@) {
            Some((o, parts)) => res matches Some((r, words)) && r@ == o && words@.map_values(
                |p: String| p@,
            ) == parts,
            None => res is None,
        },
{
    let t = trim(command.as_str());
    let words = split_spaces(t.as_str());
    proof {
        lemma_split_nonempty(t@);
        assert(words@.map_values(|p: String| p@).len() == words@.len());
        assert(words@.map_values(|p: String| p@)[0] == words@[0]@);
    }
    if words.len() == 1 {
        return None;
    }
    let opr = parse_opr(words[0].as_str());
    match opr {
        Some(o) => Some((o, words)),
        None => None,
    }
}

impl Operation {
    /// Parses a command line of the store.
    pub fn parse_command(command: String) -> (res: Operation)
        requires
            !parse_command_panics(command@),
        ensures
            parsed_operation(command@, res),
            ({
                let words = split_on_space(trimmed(command@));
                &&& res matches Operation::SetValue { key, value } ==> key@ == words[1] && value@
                    == words[2]
                &&& res matches Operation::Get { key } ==> key@ == words[1]
                &&& res matches Operation::Delete { key } ==> key@ == words[1]
            }),
    {
        let ghost c = command@;
        match validate(command) {
            Some(res) => {
                let (o, words) = res;
                proof {
                    lemma_split_nonempty(trimmed(c));
                    assert(words@.map_values(|p: String| p@).len() == words@.len());
                }
                if o == String::from_str("get") {
                    proof {
                        assert(words@.map_values(|p: String| p@)[1] == words@[1]@);
                    }
                    Operation::Get { key: words[1].clone() }
                } else if o == String::from_str("set") {
                    proof {
                        assert(words@.map_values(|p: String| p@)[1] == words@[1]@);
                        assert(words@.map_values(|p: String| p@)[2] == words@[2]@);
                    }
                    Operation::SetValue { key: words[1].clone(), value: words[2].clone() }
                } else if o == String::from_str("delete") {
                    proof {
                        assert(words@.map_values(|p: String| p@)[1] == words@[1]@);
                    }
                    Operation::Delete { key: words[1].clone() }
                } else {
                    Operation::Invalid
                }
            },
            None => Operation::Invalid,
        }
    }

    /// Parses a command line, or gives `None` where
    /// [`Operation::parse_command`] would index a missing word.
    pub fn try_parse_command(command: String) -> (res: Option<Operation>)
        ensures
            match res {
                Some(op) => !parse_command_panics(command@) && parsed_operation(command@, op),
                None => parse_command_panics(command@),
            },
    {
        let ghost c = command@;
        let check = validate(command.clone());
        match check {
            Some(pair) => {
                let (o, words) = pair;
                proof {
                    assert(words@.map_values(|p: String| p@).len() == words@.len());
                }
                if o == String::from_str("set") && words.len() < 3 {
                    return None;
                }
            },
            None => {},
        }
        Some(Operation::parse_command(command))
    }

    /// Set and delete change the store and go through consensus; get and
    /// invalid commands do not.
    pub fn needs_consensus(&self) -> (res: bool)
        ensures
            res == (self is SetValue || self is Delete),
    {
        match self {
            Operation::SetValue { .. } | Operation::Delete { .. } => true,
            _ => false,
        }
    }

    /// Human-readable form: `GET: k`, `SET: k v`, `DELETE k`, `INVALID`.
    pub fn to_display_string(&self) -> (res: String)
        ensures
            res@ == match self {
                Operation::Get { key } => "GET: "@ + key@,
                Operation::SetValue { key, value } => "SET: "@ + key@ + " "@ + value@,
                Operation::Delete { key } => "DELETE "@ + key@,
                Operation::Invalid => "INVALID"@,
            },
    {
        match self {
            Operation::Get { key } => {
                let mut s = String::from_str("GET: ");
                s.append(key.as_str());
                s
            },
            Operation::SetValue { key, value } => {
                let mut s = String::from_str("SET: ");
                s.append(key.as_str());
                s.append(" ");
                s.append(value.as_str());
                s
            },
            Operation::Delete { key } => {
                let mut s = String::from_str("DELETE ");
                s.append(key.as_str());
                s
            },
            Operation::Invalid => String::from_str("INVALID"),
        }
    }
}

/// The store's map after `op`: a set stores its value under its key, a
/// delete removes its key, other operations leave the map as it is.
pub open spec fn apply_operation(m: Map<Seq<char>, String>, op: Operation) -> Map<
    Seq<char>,
    String,
> {
    match op {
        Operation::SetValue { key, value } => m.insert(key@, value),
        Operation::Delete { key } => m.remove(key@),
        _ => m,
    }
}

/// The store's map after the operations `ops`, in order.
pub open spec fn apply_all(m: Map<Seq<char>, String>, ops: Seq<Operation>) -> Map<
    Seq<char>,
    String,
>
    decreases ops.len(),
{
    if ops.len() == 0 {
        m
    } else {
        apply_operation(apply_all(m, ops.drop_last()), ops.last())
    }
}

/// The key that `op` changes, if it changes one.
pub open spec fn written_key(op: Operation) -> Option<Seq<char>> {
    match op {
        Operation::SetValue { key, .. } => Some(key@),
        Operation::Delete { key } => Some(key@),
        _ => None,
    }
}

/// The key-value map of the store.
pub struct StorageLayer {
    pub map: StringHashMap<String>,
}

impl StorageLayer {
    pub fn init_default() -> (res: StorageLayer)
        ensures
            res.map@ == Map::<Seq<char>, String>::empty(),
    {
        StorageLayer { map: StringHashMap::new() }
    }

    pub fn insert(&mut self, key: String, value: String)
        ensures
            final(self).map@ == old(self).map@.insert(key@, value),
    {
        self.map.insert(key, value);
    }

    /// The value stored under `key`.
    pub fn get(&self, key: String) -> (res: Option<String>)
        ensures
            match res {
                Some(v) => self.map@.contains_key(key@) && v == self.map@[key@],
                None => !self.map@.contains_key(key@),
            },
    {
        match self.map.get(key.as_str()) {
            Some(v) => Some(v.clone()),
            None => None,
        }
    }

    /// Stores `value` under `key`, replacing an earlier value.
    pub fn set(&mut self, key: String, value: String)
        ensures
            final(self).map@ == old(self).map@.insert(key@, value),
    {
        self.map.insert(key, value);
    }

    /// Removes `key`.
    pub fn delete(&mut self, key: String)
        ensures
            final(self).map@ == old(self).map@.remove(key@),
    {
        self.map.remove(key.as_str());
    }

    /// Applies a committed log entry: set and delete change the map, other
    /// operations leave it.
    pub fn apply(&mut self, message: LogEntry<Operation>)
        ensures
            final(self).map@ == apply_operation(old(self).map@, message.value),
    {
        match message.value {
            Operation::SetValue { key, value } => self.set(key, value),
            Operation::Delete { key } => self.delete(key),
            _ => {},
        }
    }

    /// The answer to a client's command and the command to pass to
    /// consensus, if any. A get is answered from the map: the value in
    /// double quotes, or `undefined`. Any other command is refused with
    /// `ERR. Not Leader` on a node that does not lead, and otherwise
    /// forwarded and answered `OK.`.
    pub fn respond_to_client(&self, op: Operation, is_leader: bool) -> (res: (String, Option<Operation>))
        ensures
            match op {
                Operation::Get { key } => res.1 is None && if self.map@.contains_key(key@) {
                    res.0@ == "\""@ + self.map@[key@]@ + "\""@
                } else {
                    res.0@ == "undefined"@
                },
                _ => if is_leader {
                    res.0@ == "OK."@ && res.1 == Some(op)
                } else {
                    res.0@ == "ERR. Not Leader"@ && res.1 is None
                },
            },
    {
        match op {
            Operation::Get { key } => {
                let result = self.get(key);
                match result {
                    Some(v) => {
                        let mut val = String::from_str("\"");
                        val.append(v.as_str());
                        val.append("\"");
                        (val, None)
                    },
                    None => (String::from_str("undefined"), None),
                }
            },
            _ => {
                if !is_leader {
                    (String::from_str("ERR. Not Leader"), None)
                } else {
                    (String::from_str("OK."), Some(op))
                }
            },
        }
    }
}

} // verus!
