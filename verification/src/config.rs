use vstd::prelude::*;

use crate::text::{trim, trimmed};
use yaml_rust2::{Yaml, YamlLoader};

verus! {

/// Errors of configuration loading.
#[derive(Debug, Clone, PartialEq, Eq)]
pub enum HelperErrors {
    /// The file could not be read; the message of the I/O error.
    IOError(String),
    /// A socket address did not parse; the message of the parse error.
    SocketParserError(String),
    /// The YAML document does not have the expected shape.
    ParserYamlError,
}

impl HelperErrors {
    /// Human-readable form of the error; a malformed document is reported
    /// with the place in this library's source that raises the report.
    pub fn describe(&self) -> (res: String)
        ensures
            res@ == match self {
                HelperErrors::ParserYamlError => "Custom yaml_rust2::Yaml parser error src/config.rs:32"@,
                HelperErrors::SocketParserError(m) => "Socket Parse Error: "@ + m@,
                HelperErrors::IOError(m) => "IOError: "@ + m@,
            },
    {
        match self {
            HelperErrors::ParserYamlError => {
                String::from_str("Custom yaml_rust2::Yaml parser error src/config.rs:32")
            },
            HelperErrors::SocketParserError(m) => {
                let mut s = String::from_str("Socket Parse Error: ");
                s.append(m.as_str());
                s
            },
            HelperErrors::IOError(m) => {
                let mut s = String::from_str("IOError: ");
                s.append(m.as_str());
                s
            },
        }
    }
}

/// Settings of the Raft layer.
#[derive(Debug, Clone)]
pub struct RaftConfig {
    pub persist_path: String,
    pub listener_addr: String,
    pub connections: Vec<String>,
}

/// Settings of the key-value store.
#[derive(Debug, Clone)]
pub struct StoreConfig {
    pub server_addr: String,
    pub local_path: String,
}

/// The whole configuration of a node.
#[derive(Debug, Clone)]
pub struct Config {
    pub node_id: u64,
    pub node_name: String,
    pub raft: RaftConfig,
    pub store: StoreConfig,
}

/// A YAML node, as the YAML loader produces it.
#[derive(Debug, PartialEq, Eq)]
pub enum YamlValue {
    Real(String),
    Integer(i64),
    Str(String),
    Boolean(bool),
    Array(Vec<YamlValue>),
    Hash(Vec<(YamlValue, YamlValue)>),
    Alias(usize),
    Null,
    BadValue,
}

/// Outcome of one step of reading the configuration: the step fails with
/// [`HelperErrors::ParserYamlError`], panics, or finds a value.
pub enum Fetched<V> {
    Fails,
    Panics,
    Found(V),
}

/// The documents that `YamlLoader::load_from_str` reads from a text, or
/// `None` when it reports a scan error.
pub uninterp spec fn spec_load_yaml(text: Seq<char>) -> Option<Seq<YamlValue>>;

/// Decimal digits of a natural number.
pub open spec fn decimal_digits(n: nat) -> Seq<char>
    decreases n,
{
    if n < 10 {
        seq![(n + 48) as char]
    } else {
        decimal_digits(n / 10).push(((n % 10) + 48) as char)
    }
}

/// Decimal form of an integer, with a leading `-` when negative.
pub open spec fn decimal(i: int) -> Seq<char> {
    if i < 0 {
        seq!['-'] + decimal_digits((-i) as nat)
    } else {
        decimal_digits(i as nat)
    }
}

/// The YAML node type of `yaml_rust2`, carried opaque.
#[verifier::external_type_specification]
#[verifier::external_body]
pub struct ExYaml(Yaml);

/// Converts a node of `yaml_rust2` into a [`YamlValue`], variant by
/// variant, keeping the order of arrays and of mapping entries.
#[verifier::external_body]
fn yaml_value_of(y: &Yaml) -> YamlValue {
    match y {
        Yaml::Real(s) => YamlValue::Real(s.clone()),
        Yaml::Integer(i) => YamlValue::Integer(*i),
        Yaml::String(s) => YamlValue::Str(s.clone()),
        Yaml::Boolean(b) => YamlValue::Boolean(*b),
        Yaml::Array(a) => YamlValue::Array(a.iter().map(yaml_value_of).collect()),
        Yaml::Hash(h) => YamlValue::Hash(h.iter().map(|(k, v)| (yaml_value_of(k), yaml_value_of(v))).collect()),
        Yaml::Alias(n) => YamlValue::Alias(*n),
        Yaml::Null => YamlValue::Null,
        Yaml::BadValue => YamlValue::BadValue,
    }
}

/// Reads the YAML documents of `text` with
/// `yaml_rust2::YamlLoader::load_from_str`. Claimed: the result is
/// `spec_load_yaml` of the text, `None` exactly when the loader reports
/// a scan error; what documents a text holds is not stated here.
#[verifier::external_body]
fn load_yaml(text: &str) -> (res: Option<Vec<YamlValue>>)
    ensures
        match res {
            Some(docs) => spec_load_yaml(text@) == Some(docs@),
            None => spec_load_yaml(text@) is None,
        },
{
    match YamlLoader::load_from_str(text) {
        Ok(docs) => Some(docs.iter().map(yaml_value_of).collect()),
        Err(_) => None,
    }
}

/// The decimal digit `d` as a one-character string.
fn digit_str(d: u64) -> (s: &'static str)
    requires
        d < 10,
    ensures
        s@ == seq![(d + 48) as char],
{
    if d == 0 {
        proof { reveal_strlit("0"); }
        "0"
    } else if d == 1 {
        proof { reveal_strlit("1"); }
        "1"
    } else if d == 2 {
        proof { reveal_strlit("2"); }
        "2"
    } else if d == 3 {
        proof { reveal_strlit("3"); }
        "3"
    } else if d == 4 {
        proof { reveal_strlit("4"); }
        "4"
    } else if d == 5 {
        proof { reveal_strlit("5"); }
        "5"
    } else if d == 6 {
        proof { reveal_strlit("6"); }
        "6"
    } else if d == 7 {
        proof { reveal_strlit("7"); }
        "7"
    } else if d == 8 {
        proof { reveal_strlit("8"); }
        "8"
    } else {
        proof { reveal_strlit("9"); }
        "9"
    }
}

/// Appends the decimal digits of `n` to `s`.
fn append_digits(s: &mut String, n: u64)
    ensures
        final(s)@ == old(s)@ + decimal_digits(n as nat),
    decreases n,
{
    if n >= 10 {
        append_digits(s, n / 10);
    }
    let d = digit_str(n % 10);
    s.append(d);
    assert(s@ =~= old(s)@ + decimal_digits(n as nat));
}

/// The decimal form of an integer, with a leading `-` when negative.
fn i64_to_string(v: i64) -> (res: String)
    ensures
        res@ == decimal(v as int),
{
    let mut s = String::new();
    if v < 0 {
        proof { reveal_strlit("-"); }
        s.append("-");
        let wide: i128 = v as i128;
        let m: u64 = (-wide) as u64;
        append_digits(&mut s, m);
        assert(s@ =~= decimal(v as int));
    } else {
        append_digits(&mut s, v as u64);
        assert(s@ =~= decimal(v as int));
    }
    s
}

/// `y` is the string key `key`.
pub open spec fn is_string_key(y: YamlValue, key: Seq<char>) -> bool {
    y matches YamlValue::Str(k) && k@ == key
}

/// The value under the string key `key` in the mapping entries `pairs`
/// (the first such entry; the loader's mappings have no repeated keys).
pub open spec fn hash_lookup(pairs: Seq<(YamlValue, YamlValue)>, key: Seq<char>) -> Option<
    YamlValue,
> {
    if exists|i: int| 0 <= i < pairs.len() && is_string_key((#[trigger] pairs[i]).0, key) {
        let i = choose|i: int|
            0 <= i < pairs.len() && is_string_key((#[trigger] pairs[i]).0, key) && forall|j: int|
                0 <= j < i ==> !is_string_key((#[trigger] pairs[j]).0, key);
        Some(pairs[i].1)
    } else {
        None
    }
}

/// Looking up `key` in `y`: not a mapping fails, a mapping without the key
/// panics.
pub open spec fn fetch(y: YamlValue, key: Seq<char>) -> Fetched<YamlValue> {
    match y {
        YamlValue::Hash(pairs) => match hash_lookup(pairs@, key) {
            Some(v) => Fetched::Found(v),
            None => Fetched::Panics,
        },
        _ => Fetched::Fails,
    }
}

/// A string, or an integer in decimal form.
pub open spec fn yaml_string(y: YamlValue) -> Option<Seq<char>> {
    match y {
        YamlValue::Str(s) => Some(s@),
        YamlValue::Integer(i) => Some(decimal(i as int)),
        _ => None,
    }
}

/// An array of strings.
pub open spec fn yaml_strings(y: YamlValue) -> Option<Seq<Seq<char>>> {
    match y {
        YamlValue::Array(a) => if forall|i: int| 0 <= i < a@.len() ==> (#[trigger] a@[i]) is Str {
            Some(a@.map_values(|v: YamlValue| v->Str_0@))
        } else {
            None
        },
        _ => None,
    }
}

/// Looking up a string (or integer) under `key`.
pub open spec fn fetch_string(y: YamlValue, key: Seq<char>) -> Fetched<Seq<char>> {
    match fetch(y, key) {
        Fetched::Found(v) => match yaml_string(v) {
            Some(s) => Fetched::Found(s),
            None => Fetched::Fails,
        },
        Fetched::Fails => Fetched::Fails,
        Fetched::Panics => Fetched::Panics,
    }
}

/// Looking up an array of strings under `key`.
pub open spec fn fetch_strings(y: YamlValue, key: Seq<char>) -> Fetched<Seq<Seq<char>>> {
    match fetch(y, key) {
        Fetched::Found(v) => match yaml_strings(v) {
            Some(s) => Fetched::Found(s),
            None => Fetched::Fails,
        },
        Fetched::Fails => Fetched::Fails,
        Fetched::Panics => Fetched::Panics,
    }
}

/// Value of a run of ASCII digits.
pub open spec fn digits_value(s: Seq<char>) -> int
    decreases s.len(),
{
    if s.len() == 0 {
        0
    } else {
        digits_value(s.drop_last()) * 10 + (s.last() as int - 48)
    }
}

/// All characters are ASCII digits.
pub open spec fn all_digits(s: Seq<char>) -> bool {
    forall|i: int| 0 <= i < s.len() ==> '0' <= #[trigger] s[i] <= '9'
}

/// What `str::parse::<u64>` gives: an optional `+` followed by at least
/// one ASCII digit, with a value that fits in 64 bits.
pub open spec fn parse_u64_spec(s: Seq<char>) -> Option<u64> {
    let body = if s.len() > 0 && s[0] == '+' {
        s.drop_first()
    } else {
        s
    };
    if body.len() > 0 && all_digits(body) && digits_value(body) <= u64::MAX {
        Some(digits_value(body) as u64)
    } else {
        None
    }
}

/// Parses an unsigned decimal number as `str::parse::<u64>` does.
pub fn parse_u64(s: &str) -> (res: Option<u64>)
    ensures
        res == parse_u64_spec(s@),
{
    let cs = crate::text::chars_of(s);
    let n = cs.len();
    let mut start: usize = 0;
    if n > 0 && cs[0] == '+' {
        start = 1;
    }
    let ghost body = if s@.len() > 0 && s@[0] == '+' {
        s@.drop_first()
    } else {
        s@
    };
    assert(body =~= s@.subrange(start as int, n as int));
    if start == n {
        return None;
    }
    let mut value: u64 = 0;
    let mut i: usize = start;
    while i < n
        invariant
            n == s@.len(),
            cs@ == s@,
            start <= i <= n,
            body == s@.subrange(start as int, n as int),
            body == (if s@.len() > 0 && s@[0] == '+' {
                s@.drop_first()
            } else {
                s@
            }),
            all_digits(s@.subrange(start as int, i as int)),
            value == digits_value(s@.subrange(start as int, i as int)),
        decreases n - i,
    {
        let c = cs[i];
        assert(s@.subrange(start as int, i + 1).drop_last() =~= s@.subrange(start as int, i as int));
        if c < '0' || c > '9' {
            assert(body[i - start] == c);
            assert(!all_digits(body));
            return None;
        }
        assert(digits_value(s@.subrange(start as int, i + 1)) == value * 10 + (c as int - 48));
        let d = (c as u32 - '0' as u32) as u64;
        let next = match value.checked_mul(10) {
            Some(v) => v.checked_add(d),
            None => None,
        };
        match next {
            Some(v) => {
                value = v;
            },
            None => {
                proof {
                    assert(value * 10 + d > u64::MAX);
                    if all_digits(body) {
                        lemma_digits_value_monotone(body, (i + 1 - start) as int);
                        assert(body.subrange(0, i + 1 - start) =~= s@.subrange(start as int, i + 1));
                    }
                }
                return None;
            },
        }
        i = i + 1;
    }
    assert(s@.subrange(start as int, n as int) =~= body);
    Some(value)
}

/// A longer run of digits has at least the value of its prefix.
pub proof fn lemma_digits_value_monotone(s: Seq<char>, k: int)
    requires
        0 <= k <= s.len(),
        all_digits(s),
    ensures
        digits_value(s.subrange(0, k)) <= digits_value(s),
        digits_value(s.subrange(0, k)) >= 0,
    decreases s.len(),
{
    if s.len() == 0 {
        assert(s.subrange(0, k) =~= s);
    } else if k == s.len() {
        assert(s.subrange(0, k) =~= s);
        lemma_digits_value_nonneg(s);
    } else {
        assert(s.drop_last().subrange(0, k) =~= s.subrange(0, k));
        lemma_digits_value_monotone(s.drop_last(), k);
        lemma_digits_value_nonneg(s.drop_last());
    }
}

/// Digit runs have non-negative values.
pub proof fn lemma_digits_value_nonneg(s: Seq<char>)
    requires
        all_digits(s),
    ensures
        digits_value(s) >= 0,
    decreases s.len(),
{
    if s.len() > 0 {
        lemma_digits_value_nonneg(s.drop_last());
    }
}

/// The step `f` and, when it finds a value, the steps that follow.
pub open spec fn and_then_status<X>(f: Fetched<X>, rest: Fetched<()>) -> Fetched<()> {
    match f {
        Fetched::Found(_) => rest,
        Fetched::Fails => Fetched::Fails,
        Fetched::Panics => Fetched::Panics,
    }
}

/// The value a step found (arbitrary when it found none).
pub open spec fn found<X>(f: Fetched<X>) -> X {
    match f {
        Fetched::Found(x) => x,
        _ => arbitrary(),
    }
}

/// The `metadata` section and the `raft` and `store` sections under
/// `services` of the first document; any missing piece panics.
pub open spec fn config_sections(docs: Seq<YamlValue>) -> Fetched<(YamlValue, YamlValue, YamlValue)> {
    if docs.len() == 0 {
        Fetched::Panics
    } else {
        match (fetch(docs[0], "metadata"@), fetch(docs[0], "services"@)) {
            (Fetched::Found(meta), Fetched::Found(services)) => match (
                fetch(services, "raft"@),
                fetch(services, "store"@),
            ) {
                (Fetched::Found(raft), Fetched::Found(store)) => Fetched::Found((meta, raft, store)),
                _ => Fetched::Panics,
            },
            _ => Fetched::Panics,
        }
    }
}

/// Whether reading a configuration from `docs` panics, fails with
/// [`HelperErrors::ParserYamlError`], or succeeds. The fields are read in
/// the order `node_name`, `node_id`, `persist_file`, `listiner_addr`,
/// `connections`, `server_addr`, `local_path`; the first that is not a
/// string (or, for `connections`, a list of strings) fails, a section
/// without the key panics, and a `node_id` that is not a number panics.
pub open spec fn parse_config_status(docs: Seq<YamlValue>) -> Fetched<()> {
    match config_sections(docs) {
        Fetched::Found(sec) => and_then_status(
            fetch_string(sec.0, "node_name"@),
            and_then_status(node_id_status(sec.0), rest_status_spec(sec.1, sec.2)),
        ),
        _ => Fetched::Panics,
    }
}

/// Reading the node id: a string (or integer) that is a number after
/// trimming; one that is not panics.
pub open spec fn node_id_status(metadata: YamlValue) -> Fetched<()> {
    match fetch_string(metadata, "node_id"@) {
        Fetched::Found(id) => if parse_u64_spec(trimmed(id)) is None {
            Fetched::Panics
        } else {
            Fetched::Found(())
        },
        Fetched::Fails => Fetched::Fails,
        Fetched::Panics => Fetched::Panics,
    }
}

/// Reading the raft and store fields, in order.
pub open spec fn rest_status_spec(raft: YamlValue, store: YamlValue) -> Fetched<()> {
    and_then_status(
        fetch_string(raft, "persist_file"@),
        and_then_status(
            fetch_string(raft, "listiner_addr"@),
            and_then_status(
                fetch_strings(raft, "connections"@),
                and_then_status(
                    fetch_string(store, "server_addr"@),
                    and_then_status(fetch_string(store, "local_path"@), Fetched::Found(())),
                ),
            ),
        ),
    )
}

/// `cfg` holds the values read from `docs`.
pub open spec fn config_from_docs(docs: Seq<YamlValue>, cfg: Config) -> bool {
    let sec = found(config_sections(docs));
    &&& cfg.node_name@ == found(fetch_string(sec.0, "node_name"@))
    &&& Some(cfg.node_id) == parse_u64_spec(trimmed(found(fetch_string(sec.0, "node_id"@))))
    &&& cfg.raft.persist_path@ == found(fetch_string(sec.1, "persist_file"@))
    &&& cfg.raft.listener_addr@ == found(fetch_string(sec.1, "listiner_addr"@))
    &&& cfg.raft.connections@.map_values(|c: String| c@) == found(
        fetch_strings(sec.1, "connections"@),
    )
    &&& cfg.store.server_addr@ == found(fetch_string(sec.2, "server_addr"@))
    &&& cfg.store.local_path@ == found(fetch_string(sec.2, "local_path"@))
}

/// The first entry with the string key `key` gives the lookup result.
pub proof fn lemma_hash_lookup(pairs: Seq<(YamlValue, YamlValue)>, key: Seq<char>, i: int)
    requires
        0 <= i < pairs.len(),
        is_string_key(pairs[i].0, key),
        forall|j: int| 0 <= j < i ==> !is_string_key((#[trigger] pairs[j]).0, key),
    ensures
        hash_lookup(pairs, key) == Some(pairs[i].1),
{
    assert(exists|i: int| 0 <= i < pairs.len() && is_string_key((#[trigger] pairs[i]).0, key));
    let c = choose|c: int|
        0 <= c < pairs.len() && is_string_key((#[trigger] pairs[c]).0, key) && forall|j: int|
            0 <= j < c ==> !is_string_key((#[trigger] pairs[j]).0, key);
    assert(0 <= c < pairs.len() && is_string_key(pairs[c].0, key) && forall|j: int|
        0 <= j < c ==> !is_string_key((#[trigger] pairs[j]).0, key));
    if c < i {
        assert(!is_string_key(pairs[c].0, key));
    } else if c > i {
        assert(!is_string_key(pairs[i].0, key));
    }
}

/// The value under `key` in the mapping `yaml_content`.
pub fn from_yaml_hash<'a>(key: &str, yaml_content: &'a YamlValue) -> (res: Result<
    &'a YamlValue,
    HelperErrors,
>)
    requires
        !(fetch(*yaml_content, key@) is Panics),
    ensures
        match fetch(*yaml_content, key@) {
            Fetched::Found(v) => res matches Ok(r) && *r == v,
            _ => res == Err::<&YamlValue, HelperErrors>(HelperErrors::ParserYamlError),
        },
{
    match yaml_content {
        YamlValue::Hash(pairs) => {
            let k = String::from_str(key);
            let mut i: usize = 0;
            while i < pairs.len()
                invariant
                    i <= pairs@.len(),
                    k@ == key@,
                    *yaml_content == YamlValue::Hash(*pairs),
                    forall|j: int| 0 <= j < i ==> !is_string_key((#[trigger] pairs@[j]).0, key@),
                decreases pairs.len() - i,
            {
                let hit = match &pairs[i].0 {
                    YamlValue::Str(s) => *s == k,
                    _ => false,
                };
                if hit {
                    proof {
                        lemma_hash_lookup(pairs@, key@, i as int);
                    }
                    return Ok(&pairs[i].1);
                }
                i = i + 1;
            }
            Err(HelperErrors::ParserYamlError)
        },
        _ => Err(HelperErrors::ParserYamlError),
    }
}

/// A string, or an integer in decimal form.
pub fn yaml_enum_to_string(yaml_inp: &YamlValue) -> (res: Result<String, HelperErrors>)
    ensures
        match yaml_string(*yaml_inp) {
            Some(s) => res matches Ok(r) && r@ == s,
            None => res == Err::<String, HelperErrors>(HelperErrors::ParserYamlError),
        },
{
    match yaml_inp {
        YamlValue::Str(val) => Ok(val.clone()),
        YamlValue::Integer(val) => Ok(i64_to_string(*val)),
        _ => Err(HelperErrors::ParserYamlError),
    }
}

/// An array of strings.
pub fn yaml_to_vec_string(yaml_inp: &YamlValue) -> (res: Result<Vec<String>, HelperErrors>)
    ensures
        match yaml_strings(*yaml_inp) {
            Some(ss) => res matches Ok(v) && v@.map_values(|s: String| s@) == ss,
            None => res == Err::<Vec<String>, HelperErrors>(HelperErrors::ParserYamlError),
        },
{
    let mut ret_vec: Vec<String> = Vec::new();
    match yaml_inp {
        YamlValue::Array(yaml_arr) => {
            let mut i: usize = 0;
            while i < yaml_arr.len()
                invariant
                    i <= yaml_arr@.len(),
                    *yaml_inp == YamlValue::Array(*yaml_arr),
                    forall|j: int| 0 <= j < i ==> (#[trigger] yaml_arr@[j]) is Str,
                    ret_vec@.map_values(|s: String| s@) == yaml_arr@.subrange(0, i as int).map_values(
                        |v: YamlValue| v->Str_0@,
                    ),
                decreases yaml_arr.len() - i,
            {
                match &yaml_arr[i] {
                    YamlValue::Str(string_val) => {
                        let ghost before = ret_vec@;
                        ret_vec.push(string_val.clone());
                        proof {
                            let a = yaml_arr@.subrange(0, i + 1).map_values(|v: YamlValue| v->Str_0@);
                            let b = yaml_arr@.subrange(0, i as int).map_values(|v: YamlValue| v->Str_0@);
                            assert(a =~= b.push(string_val@));
                            assert(ret_vec@.map_values(|s: String| s@) =~= before.map_values(
                                |s: String| s@,
                            ).push(string_val@));
                        }
                    },
                    _ => {
                        assert(!(yaml_arr@[i as int] is Str));
                        return Err(HelperErrors::ParserYamlError);
                    },
                }
                i = i + 1;
            }
            assert(yaml_arr@.subrange(0, i as int) =~= yaml_arr@);
        },
        _ => {
            return Err(HelperErrors::ParserYamlError);
        },
    }
    Ok(ret_vec)
}

/// Reads a node configuration from loaded YAML documents.
pub fn parse_config_docs(yaml_content: &Vec<YamlValue>) -> (res: Result<Config, HelperErrors>)
    requires
        !(parse_config_status(yaml_content@) is Panics),
    ensures
        match parse_config_status(yaml_content@) {
            Fetched::Found(_) => res matches Ok(cfg) && config_from_docs(yaml_content@, cfg),
            _ => res == Err::<Config, HelperErrors>(HelperErrors::ParserYamlError),
        },
{
    let ghost docs = yaml_content@;
    let first = &yaml_content[0];
    let metadata = match from_yaml_hash("metadata", first) {
        Ok(v) => v,
        Err(e) => {
            return Err(e);
        },
    };
    let services = match from_yaml_hash("services", first) {
        Ok(v) => v,
        Err(e) => {
            return Err(e);
        },
    };
    let raft_conf_yaml = match from_yaml_hash("raft", services) {
        Ok(v) => v,
        Err(e) => {
            return Err(e);
        },
    };
    let store_conf_yaml = match from_yaml_hash("store", services) {
        Ok(v) => v,
        Err(e) => {
            return Err(e);
        },
    };
    assert(config_sections(docs) == Fetched::Found((*metadata, *raft_conf_yaml, *store_conf_yaml)));

    let node_name = match from_yaml_hash("node_name", metadata) {
        Ok(v) => match yaml_enum_to_string(v) {
            Ok(s) => s,
            Err(e) => {
                return Err(e);
            },
        },
        Err(e) => {
            return Err(e);
        },
    };
    let node_id_text = match from_yaml_hash("node_id", metadata) {
        Ok(v) => match yaml_enum_to_string(v) {
            Ok(s) => s,
            Err(e) => {
                return Err(e);
            },
        },
        Err(e) => {
            return Err(e);
        },
    };
    let trimmed_id = trim(node_id_text.as_str());
    let node_id = match parse_u64(trimmed_id.as_str()) {
        Some(n) => n,
        None => {
            return Err(HelperErrors::ParserYamlError);
        },
    };
    let persist_path = match from_yaml_hash("persist_file", raft_conf_yaml) {
        Ok(v) => match yaml_enum_to_string(v) {
            Ok(s) => s,
            Err(e) => {
                return Err(e);
            },
        },
        Err(e) => {
            return Err(e);
        },
    };
    let listener_addr = match from_yaml_hash("listiner_addr", raft_conf_yaml) {
        Ok(v) => match yaml_enum_to_string(v) {
            Ok(s) => s,
            Err(e) => {
                return Err(e);
            },
        },
        Err(e) => {
            return Err(e);
        },
    };
    let connections = match from_yaml_hash("connections", raft_conf_yaml) {
        Ok(v) => match yaml_to_vec_string(v) {
            Ok(s) => s,
            Err(e) => {
                return Err(e);
            },
        },
        Err(e) => {
            return Err(e);
        },
    };
    let server_addr = match from_yaml_hash("server_addr", store_conf_yaml) {
        Ok(v) => match yaml_enum_to_string(v) {
            Ok(s) => s,
            Err(e) => {
                return Err(e);
            },
        },
        Err(e) => {
            return Err(e);
        },
    };
    let local_path = match from_yaml_hash("local_path", store_conf_yaml) {
        Ok(v) => match yaml_enum_to_string(v) {
            Ok(s) => s,
            Err(e) => {
                return Err(e);
            },
        },
        Err(e) => {
            return Err(e);
        },
    };
    let raft = RaftConfig { persist_path, listener_addr, connections };
    let store = StoreConfig { server_addr, local_path };
    Ok(Config { node_id, node_name, raft, store })
}

/// Reads a node configuration from the text of a YAML file: `None` where
/// reading it panics (the loader rejects the text, or
/// [`parse_config_docs`] would panic on the documents).
pub fn parse_config_str(content: &str) -> (res: Option<Result<Config, HelperErrors>>)
    ensures
        match spec_load_yaml(content@) {
            None => res is None,
            Some(docs) => match parse_config_status(docs) {
                Fetched::Panics => res is None,
                Fetched::Fails => res == Some(
                    Err::<Config, HelperErrors>(HelperErrors::ParserYamlError),
                ),
                Fetched::Found(_) => res matches Some(Ok(cfg)) && config_from_docs(docs, cfg),
            },
        },
{
    let docs = match load_yaml(content) {
        Some(d) => d,
        None => {
            return None;
        },
    };
    if config_would_panic(&docs) {
        return None;
    }
    Some(parse_config_docs(&docs))
}

/// Reading a configuration from `docs` panics.
fn config_would_panic(docs: &Vec<YamlValue>) -> (res: bool)
    ensures
        res == (parse_config_status(docs@) is Panics),
{
    match config_status(docs) {
        Fetched::Panics => true,
        _ => false,
    }
}

/// Whether reading a configuration from `docs` panics, fails or succeeds.
fn config_status(docs: &Vec<YamlValue>) -> (res: Fetched<()>)
    ensures
        res == parse_config_status(docs@),
{
    match sections(docs) {
        Some(sec) => {
            let (metadata, raft_conf_yaml, store_conf_yaml) = sec;
            match string_status("node_name", metadata) {
                Fetched::Found(_) => {},
                other => {
                    return other;
                },
            }
            match id_status(metadata) {
                Fetched::Found(_) => {},
                other => {
                    return other;
                },
            }
            rest_status(raft_conf_yaml, store_conf_yaml)
        },
        None => Fetched::Panics,
    }
}

/// The metadata, raft and store sections, when they are all there.
fn sections<'a>(docs: &'a Vec<YamlValue>) -> (res: Option<(&'a YamlValue, &'a YamlValue, &'a YamlValue)>)
    ensures
        match res {
            Some(sec) => config_sections(docs@) == Fetched::Found((*sec.0, *sec.1, *sec.2)),
            None => config_sections(docs@) is Panics,
        },
{
    if docs.len() == 0 {
        return None;
    }
    let first = &docs[0];
    if fetch_panics("metadata", first) || fetch_panics("services", first) {
        return None;
    }
    let metadata = match from_yaml_hash("metadata", first) {
        Ok(v) => v,
        Err(_) => {
            return None;
        },
    };
    let services = match from_yaml_hash("services", first) {
        Ok(v) => v,
        Err(_) => {
            return None;
        },
    };
    if fetch_panics("raft", services) || fetch_panics("store", services) {
        return None;
    }
    let raft_conf_yaml = match from_yaml_hash("raft", services) {
        Ok(v) => v,
        Err(_) => {
            return None;
        },
    };
    let store_conf_yaml = match from_yaml_hash("store", services) {
        Ok(v) => v,
        Err(_) => {
            return None;
        },
    };
    Some((metadata, raft_conf_yaml, store_conf_yaml))
}

/// Status of reading a string (or integer) under `key`.
fn string_status(key: &str, y: &YamlValue) -> (res: Fetched<()>)
    ensures
        res == and_then_status(fetch_string(*y, key@), Fetched::Found(())),
{
    if fetch_panics(key, y) {
        return Fetched::Panics;
    }
    match from_yaml_hash(key, y) {
        Ok(v) => match yaml_enum_to_string(v) {
            Ok(_) => Fetched::Found(()),
            Err(_) => Fetched::Fails,
        },
        Err(_) => Fetched::Fails,
    }
}

/// Status of reading a list of strings under `key`.
fn strings_status(key: &str, y: &YamlValue) -> (res: Fetched<()>)
    ensures
        res == and_then_status(fetch_strings(*y, key@), Fetched::Found(())),
{
    if fetch_panics(key, y) {
        return Fetched::Panics;
    }
    match from_yaml_hash(key, y) {
        Ok(v) => match yaml_to_vec_string(v) {
            Ok(_) => Fetched::Found(()),
            Err(_) => Fetched::Fails,
        },
        Err(_) => Fetched::Fails,
    }
}

/// Status of reading the node id: a number after trimming, or a panic.
fn id_status(metadata: &YamlValue) -> (res: Fetched<()>)
    ensures
        res == node_id_status(*metadata),
{
    if fetch_panics("node_id", metadata) {
        return Fetched::Panics;
    }
    match from_yaml_hash("node_id", metadata) {
        Ok(v) => match yaml_enum_to_string(v) {
            Ok(s) => {
                let t = trim(s.as_str());
                if parse_u64(t.as_str()).is_none() {
                    Fetched::Panics
                } else {
                    Fetched::Found(())
                }
            },
            Err(_) => Fetched::Fails,
        },
        Err(_) => Fetched::Fails,
    }
}

/// Status of reading the raft and store fields.
fn rest_status(raft_conf_yaml: &YamlValue, store_conf_yaml: &YamlValue) -> (res: Fetched<()>)
    ensures
        res == rest_status_spec(*raft_conf_yaml, *store_conf_yaml),
{
    match string_status("persist_file", raft_conf_yaml) {
        Fetched::Found(_) => {},
        other => {
            return other;
        },
    }
    match string_status("listiner_addr", raft_conf_yaml) {
        Fetched::Found(_) => {},
        other => {
            return other;
        },
    }
    match strings_status("connections", raft_conf_yaml) {
        Fetched::Found(_) => {},
        other => {
            return other;
        },
    }
    match string_status("server_addr", store_conf_yaml) {
        Fetched::Found(_) => {},
        other => {
            return other;
        },
    }
    string_status("local_path", store_conf_yaml)
}

/// Looking up `key` in `y` panics.
fn fetch_panics(key: &str, y: &YamlValue) -> (res: bool)
    ensures
        res == (fetch(*y, key@) is Panics),
{
    match y {
        YamlValue::Hash(pairs) => {
            let k = String::from_str(key);
            let mut i: usize = 0;
            while i < pairs.len()
                invariant
                    i <= pairs@.len(),
                    k@ == key@,
                    *y == YamlValue::Hash(*pairs),
                    forall|j: int| 0 <= j < i ==> !is_string_key((#[trigger] pairs@[j]).0, key@),
                decreases pairs.len() - i,
            {
                let hit = match &pairs[i].0 {
                    YamlValue::Str(s) => *s == k,
                    _ => false,
                };
                if hit {
                    proof {
                        lemma_hash_lookup(pairs@, key@, i as int);
                    }
                    return false;
                }
                i = i + 1;
            }
            true
        },
        _ => false,
    }
}

} // verus!
