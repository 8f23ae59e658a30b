use quaso::config::{parse_config_docs, parse_config_str, parse_u64, HelperErrors, YamlValue};
use quaso::text::{contains, split_spaces, trim};

const SAMPLE: &str = "metadata:
  node_name: ABC
  node_id: 1
services:
  raft:
    persist_file: ./abc.state
    listiner_addr: 127.0.0.1:5000
    connections:
      - 127.0.0.1:5001
      - 127.0.0.1:5002
  store:
    server_addr: 127.0.0.1:6060
    local_path: ./data
";

#[test]
fn sample_configuration_is_read() {
    let cfg = parse_config_str(SAMPLE).unwrap().unwrap();
    assert_eq!(cfg.node_id, 1);
    assert_eq!(cfg.node_name, "ABC");
    assert_eq!(cfg.raft.persist_path, "./abc.state");
    assert_eq!(cfg.raft.listener_addr, "127.0.0.1:5000");
    assert_eq!(cfg.raft.connections, vec!["127.0.0.1:5001".to_string(), "127.0.0.1:5002".to_string()]);
    assert_eq!(cfg.store.server_addr, "127.0.0.1:6060");
    assert_eq!(cfg.store.local_path, "./data");
}

#[test]
fn quoted_node_id_is_trimmed() {
    let text = SAMPLE.replace("node_id: 1", "node_id: \" 42 \"").replace("node_name: ABC", "node_name: 7");
    let cfg = parse_config_str(&text).unwrap().unwrap();
    assert_eq!(cfg.node_id, 42);
    assert_eq!(cfg.node_name, "7");
}

#[test]
fn wrong_shapes_fail() {
    let text = SAMPLE.replace("node_name: ABC", "node_name: [a]");
    assert_eq!(parse_config_str(&text).unwrap().unwrap_err(), HelperErrors::ParserYamlError);
    let text = SAMPLE.replace("      - 127.0.0.1:5001\n      - 127.0.0.1:5002\n", "").replace("connections:", "connections: one");
    assert_eq!(parse_config_str(&text).unwrap().unwrap_err(), HelperErrors::ParserYamlError);
    let text = SAMPLE.replace("metadata:\n  node_name: ABC\n  node_id: 1\n", "metadata: 5\n");
    assert_eq!(parse_config_str(&text).unwrap().unwrap_err(), HelperErrors::ParserYamlError);
}

#[test]
fn panicking_inputs_are_reported() {
    assert!(parse_config_str(&SAMPLE.replace("node_id: 1", "node_id: abc")).is_none());
    assert!(parse_config_str(&SAMPLE.replace("local_path", "other_path")).is_none());
    assert!(parse_config_str("services: {}\n").is_none());
    assert!(parse_config_str("a: [").is_none());
    assert!(parse_config_str("").is_none());
}

#[test]
fn docs_without_sections_fail_on_the_first_missing_field() {
    let meta = YamlValue::Hash(vec![(YamlValue::Str("node_name".to_string()), YamlValue::Boolean(true))]);
    let empty = YamlValue::Hash(Vec::new());
    let services = YamlValue::Hash(vec![
        (YamlValue::Str("raft".to_string()), empty),
        (YamlValue::Str("store".to_string()), YamlValue::Hash(Vec::new())),
    ]);
    let top = YamlValue::Hash(vec![
        (YamlValue::Str("metadata".to_string()), meta),
        (YamlValue::Str("services".to_string()), services),
    ]);
    assert_eq!(parse_config_docs(&vec![top]).unwrap_err(), HelperErrors::ParserYamlError);
}

#[test]
fn errors_describe_themselves() {
    assert_eq!(HelperErrors::ParserYamlError.describe(), "Custom yaml_rust2::Yaml parser error src/config.rs:32");
    assert_eq!(HelperErrors::IOError("gone".to_string()).describe(), "IOError: gone");
    assert_eq!(HelperErrors::SocketParserError("bad".to_string()).describe(), "Socket Parse Error: bad");
}

#[test]
fn numbers_parse_like_std() {
    for s in ["", "+", "12a", "-1", " 1", "18446744073709551616", "99999999999999999999", "0", "+7", "007", "18446744073709551615"] {
        assert_eq!(parse_u64(s), s.parse::<u64>().ok(), "{}", s);
    }
}

#[test]
fn text_helpers_match_std() {
    for s in ["\t a b \n", "", "   ", "x", "\u{3000}y\u{85}", "a  b ", " a"] {
        assert_eq!(trim(s), s.trim(), "{:?}", s);
        let pieces: Vec<String> = s.split(" ").map(String::from).collect();
        assert_eq!(split_spaces(s), pieces, "{:?}", s);
        assert_eq!(contains(s, "a"), s.contains("a"));
        assert_eq!(contains(s, ""), s.contains(""));
    }
    assert!(contains("hello", "ll"));
    assert!(!contains("hello", "lo!"));
}

#[test]
fn integer_names_are_written_in_decimal() {
    for (n, text) in [(0i64, "0"), (-1234, "-1234"), (9, "9"), (10, "10"), (i64::MAX, "9223372036854775807"), (i64::MIN, "-9223372036854775808")] {
        let meta = YamlValue::Hash(vec![
            (YamlValue::Str("node_name".to_string()), YamlValue::Integer(n)),
            (YamlValue::Str("node_id".to_string()), YamlValue::Integer(3)),
        ]);
        let raft = YamlValue::Hash(vec![
            (YamlValue::Str("persist_file".to_string()), YamlValue::Str("p".to_string())),
            (YamlValue::Str("listiner_addr".to_string()), YamlValue::Str("l".to_string())),
            (YamlValue::Str("connections".to_string()), YamlValue::Array(Vec::new())),
        ]);
        let store = YamlValue::Hash(vec![
            (YamlValue::Str("server_addr".to_string()), YamlValue::Str("s".to_string())),
            (YamlValue::Str("local_path".to_string()), YamlValue::Str("d".to_string())),
        ]);
        let services = YamlValue::Hash(vec![
            (YamlValue::Str("raft".to_string()), raft),
            (YamlValue::Str("store".to_string()), store),
        ]);
        let top = YamlValue::Hash(vec![
            (YamlValue::Str("metadata".to_string()), meta),
            (YamlValue::Str("services".to_string()), services),
        ]);
        let cfg = parse_config_docs(&vec![top]).unwrap();
        assert_eq!(cfg.node_name, text);
        assert_eq!(cfg.node_id, 3);
    }
    let cfg = parse_config_str(&SAMPLE.replace("node_name: ABC", "node_name: -56")).unwrap().unwrap();
    assert_eq!(cfg.node_name, "-56");
}
