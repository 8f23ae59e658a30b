use quaso::client::{classify_response, History, ResponseKind};
use quaso::kv::{match_opr, parse_opr, validate, Operation, StorageLayer};
use quaso::log::{Command, LogEntry};
use quaso::pubsub::{publisher_registration, subscriber_registration, Message};

fn words(v: &[&str]) -> Vec<String> {
    v.iter().map(|s| s.to_string()).collect()
}

#[test]
fn operation_names_are_trimmed_and_lowercased() {
    assert_eq!(parse_opr("SET"), Some("set".to_string()));
    assert_eq!(parse_opr("  Get\t"), Some("get".to_string()));
    assert_eq!(parse_opr("delete"), Some("delete".to_string()));
    assert_eq!(parse_opr("put"), None);
    assert_eq!(parse_opr(""), None);
    assert_eq!(match_opr("get".to_string()), Some("get".to_string()));
    assert_eq!(match_opr("GET".to_string()), None);
}

#[test]
fn validate_splits_words() {
    assert_eq!(validate("set a b".to_string()), Some(("set".to_string(), words(&["set", "a", "b"]))));
    assert_eq!(validate("SET a b\n".to_string()), Some(("set".to_string(), words(&["SET", "a", "b"]))));
    assert_eq!(validate("  get   k ".to_string()), Some(("get".to_string(), words(&["get", "", "", "k"]))));
    assert_eq!(validate("get".to_string()), None);
    assert_eq!(validate("".to_string()), None);
    assert_eq!(validate("foo bar".to_string()), None);
}

#[test]
fn commands_parse_to_operations() {
    assert_eq!(Operation::parse_command("get k".to_string()), Operation::Get { key: "k".to_string() });
    assert_eq!(
        Operation::parse_command("Set k v extra".to_string()),
        Operation::SetValue { key: "k".to_string(), value: "v".to_string() }
    );
    assert_eq!(Operation::parse_command("delete x".to_string()), Operation::Delete { key: "x".to_string() });
    assert_eq!(Operation::parse_command("hello world".to_string()), Operation::Invalid);
    assert_eq!(Operation::parse_command("get".to_string()), Operation::Invalid);
    assert_eq!(Operation::parse_command("get  k".to_string()), Operation::Get { key: "".to_string() });
}

#[test]
fn set_without_value_is_caught() {
    assert_eq!(Operation::try_parse_command("set k".to_string()), None);
    assert_eq!(
        Operation::try_parse_command("set k v".to_string()),
        Some(Operation::SetValue { key: "k".to_string(), value: "v".to_string() })
    );
    assert_eq!(Operation::try_parse_command("nope".to_string()), Some(Operation::Invalid));
}

#[test]
fn operations_display() {
    assert_eq!(Operation::Get { key: "a".to_string() }.to_display_string(), "GET: a");
    assert_eq!(
        Operation::SetValue { key: "a".to_string(), value: "b".to_string() }.to_display_string(),
        "SET: a b"
    );
    assert_eq!(Operation::Delete { key: "a".to_string() }.to_display_string(), "DELETE a");
    assert_eq!(Operation::Invalid.to_display_string(), "INVALID");
}

#[test]
fn consensus_only_for_writes() {
    assert!(Operation::SetValue { key: "a".to_string(), value: "b".to_string() }.needs_consensus());
    assert!(Operation::Delete { key: "a".to_string() }.needs_consensus());
    assert!(!Operation::Get { key: "a".to_string() }.needs_consensus());
    assert!(!Operation::Invalid.needs_consensus());
}

#[test]
fn read_after_write() {
    let mut s = StorageLayer::init_default();
    assert_eq!(s.get("a".to_string()), None);
    s.set("a".to_string(), "1".to_string());
    assert_eq!(s.get("a".to_string()), Some("1".to_string()));
    s.insert("a".to_string(), "2".to_string());
    s.insert("b".to_string(), "3".to_string());
    assert_eq!(s.get("a".to_string()), Some("2".to_string()));
    s.delete("a".to_string());
    assert_eq!(s.get("a".to_string()), None);
    assert_eq!(s.get("b".to_string()), Some("3".to_string()));
}

#[test]
fn committed_entries_are_applied() {
    let mut s = StorageLayer::init_default();
    s.apply(LogEntry::new(Command::SetValue, Operation::SetValue { key: "k".to_string(), value: "v".to_string() }, 1));
    assert_eq!(s.get("k".to_string()), Some("v".to_string()));
    s.apply(LogEntry::new(Command::SetValue, Operation::Get { key: "k".to_string() }, 1));
    s.apply(LogEntry::new(Command::SetValue, Operation::Invalid, 1));
    assert_eq!(s.get("k".to_string()), Some("v".to_string()));
    s.apply(LogEntry::new(Command::SetValue, Operation::Delete { key: "k".to_string() }, 2));
    assert_eq!(s.get("k".to_string()), None);
}

#[test]
fn client_replies() {
    let mut s = StorageLayer::init_default();
    let get = || Operation::Get { key: "a".to_string() };
    assert_eq!(s.respond_to_client(get(), true), ("undefined".to_string(), None));
    s.set("a".to_string(), "1".to_string());
    assert_eq!(s.respond_to_client(get(), false), ("\"1\"".to_string(), None));
    let set = || Operation::SetValue { key: "a".to_string(), value: "2".to_string() };
    assert_eq!(s.respond_to_client(set(), false), ("ERR. Not Leader".to_string(), None));
    assert_eq!(s.respond_to_client(set(), true), ("OK.".to_string(), Some(set())));
    assert_eq!(s.respond_to_client(Operation::Invalid, true), ("OK.".to_string(), Some(Operation::Invalid)));
}

#[test]
fn responses_are_classified() {
    assert_eq!(classify_response("  undefined\n"), (ResponseKind::Undefined, "undefined".to_string()));
    assert_eq!(classify_response("ERR. Not Leader").0, ResponseKind::Error);
    assert_eq!(classify_response("WARN x").0, ResponseKind::Error);
    assert_eq!(classify_response("OK.").0, ResponseKind::Success);
    assert_eq!(classify_response("xOKERR").0, ResponseKind::Error);
    assert_eq!(classify_response("\"v\"").0, ResponseKind::Plain);
}

#[test]
fn history_cursor() {
    let mut h = History::init();
    assert_eq!(h.pos, 0);
    h.append("a".to_string());
    h.append("b".to_string());
    assert_eq!(h.pos, 2);
    h.fetch_update(0, String::new());
    assert_eq!(h.pos, 1);
    h.fetch_update(1, String::new());
    assert_eq!(h.pos, 1);
    h.pos_end();
    assert_eq!(h.pos, 2);
    h.fetch_update(1, String::new());
    assert_eq!(h.pos, 2);
    assert_eq!(h.cmds, words(&["a", "b"]));
}

#[test]
fn pubsub_messages() {
    let m = Message { content: "hi".to_string(), channel: "news".to_string() };
    assert_eq!(m.to_display_string(), "{ \"content\": \"hi\", \"channel\":\"news\" }");
    assert_eq!(m.clone(), m);
    assert_eq!(publisher_registration("t"), "PUB t");
    assert_eq!(subscriber_registration("t"), "SUB t");
}

#[test]
fn other_keys_leave_a_written_key_alone() {
    let mut s = StorageLayer::init_default();
    s.set("k".to_string(), "v".to_string());
    s.apply(LogEntry::new(Command::SetValue, Operation::SetValue { key: "j".to_string(), value: "w".to_string() }, 1));
    s.apply(LogEntry::new(Command::SetValue, Operation::Delete { key: "j".to_string() }, 1));
    s.insert("i".to_string(), "x".to_string());
    s.apply(LogEntry::new(Command::SetValue, Operation::Get { key: "k".to_string() }, 1));
    assert_eq!(s.get("k".to_string()), Some("v".to_string()));
    s.delete("k".to_string());
    s.set("j".to_string(), "y".to_string());
    s.apply(LogEntry::new(Command::SetValue, Operation::Delete { key: "i".to_string() }, 2));
    assert_eq!(s.get("k".to_string()), None);
    assert_eq!(s.get("j".to_string()), Some("y".to_string()));
}
