use mcpx_rust::cache::{read_cached_tools, CacheError};
use mcpx_rust::float::is_float_literal;
use mcpx_rust::number::parse_i64;
use mcpx_rust::table::NameTable;
use mcpx_rust::text::{
    concat3, has_dash_prefix, has_long_option_prefix, split_once_char, str_eq, trim_start_char,
};

#[test]
fn parse_i64_reads_like_std() {
    for s in ["0", "-0", "+0", "12", "-12", "+12", "007", "9223372036854775807",
              "-9223372036854775808", "9223372036854775808", "-9223372036854775809",
              "", "+", "-", "1a", " 1", "1 ", "--1", "+-1", "99999999999999999999999", "١"] {
        assert_eq!(parse_i64(s), s.parse::<i64>().ok(), "{:?}", s);
    }
}

#[test]
fn prefixes() {
    assert!(has_long_option_prefix("--x"));
    assert!(has_long_option_prefix("--"));
    assert!(!has_long_option_prefix("-x"));
    assert!(!has_long_option_prefix(""));
    assert!(has_dash_prefix("-"));
    assert!(!has_dash_prefix("x-"));
}

#[test]
fn trimming_and_splitting() {
    assert_eq!(trim_start_char("---ab-", '-'), "ab-");
    assert_eq!(trim_start_char("---", '-'), "");
    assert_eq!(trim_start_char("a", '-'), "a");
    assert_eq!(split_once_char("k=v=w", '='), Some(("k", "v=w")));
    assert_eq!(split_once_char("=v", '='), Some(("", "v")));
    assert_eq!(split_once_char("kv", '='), None);
    assert_eq!(split_once_char("é=ü", '='), Some(("é", "ü")));
    assert_eq!(concat3("a", "=", "b"), "a=b");
    assert!(str_eq("ab", "ab"));
    assert!(!str_eq("ab", "abc"));
}

#[test]
fn table_insert_replaces() {
    let mut t: NameTable<String> = NameTable::new();
    t.insert("a".to_string(), "1".to_string());
    t.insert("b".to_string(), "2".to_string());
    t.insert("a".to_string(), "3".to_string());
    assert_eq!(t.get("a"), Some(&"3".to_string()));
    assert_eq!(t.get("b"), Some(&"2".to_string()));
    assert_eq!(t.get("c"), None);
    assert!(t.contains("b"));
    assert!(!t.contains("c"));
    let mut names = t.names();
    names.sort();
    assert_eq!(names, vec!["a".to_string(), "b".to_string()]);
    let entries = t.into_entries();
    assert_eq!(entries.len(), 2);
}

#[test]
fn float_literals_follow_std() {
    for s in ["0", "1.5", "-1.5", "+.5", "5.", ".", "-.", "1e5", "1E5", "1e+5", "1e-5", "1e", "e5",
              "1.2.3", "1..2", "1e5e5", "1.5e3.0", "inf", "NaN", "infinity", "-inf", "", "+", " 1",
              "1 ", "0x10", "1_000", "١", "12345678901234567890123", "1e400", "--1", "+-1"] {
        let std_number = s.parse::<f64>().is_ok()
            && !matches!(s.trim_start_matches(['+', '-']).to_ascii_lowercase().as_str(), "inf" | "infinity" | "nan");
        assert_eq!(is_float_literal(s), std_number, "{:?}", s);
    }
}

fn tool(name: &str) -> rust_mcp_sdk::schema::Tool {
    serde_json::from_str(&format!("{{\"name\": \"{}\", \"inputSchema\": {{\"type\": \"object\"}}}}", name)).unwrap()
}

#[test]
fn cached_tool_list_reads_back() {
    let list = rust_mcp_sdk::schema::ListToolsResult {
        cache_scope: rust_mcp_sdk::schema::ListToolsResultCacheScope::Private,
        meta: None,
        next_cursor: None,
        result_type: "complete".to_string(),
        tools: vec![tool("echo"), tool("add")],
        ttl_ms: 0,
    };
    let text = serde_json::to_string_pretty(&list).unwrap();
    let (read, names) = read_cached_tools(&text).unwrap();
    assert_eq!(names, vec!["echo".to_string(), "add".to_string()]);
    assert_eq!(read.tools.len(), 2);
}

#[test]
fn corrupt_cache_is_an_error() {
    for text in ["", "not json", "{}", "[]", "{\"tools\": 5}"] {
        assert_eq!(read_cached_tools(text).err(), Some(CacheError::Corrupt), "{:?}", text);
    }
}
