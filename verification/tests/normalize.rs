use mcpx_rust::arguments::{normalize_arguments, ArgumentMap};
use mcpx_rust::coerce::{boolean_word, coerce_value, json_or_text, json_or_text_of, ArgValue};
use mcpx_rust::schema::{is_flat_schema, ToolSchema};

/// The JSON value that an argument stands for in a tool call.
fn to_json(v: &ArgValue) -> serde_json::Value {
    match v {
        ArgValue::Bool(b) => serde_json::Value::Bool(*b),
        ArgValue::Integer(n) => serde_json::Value::from(*n),
        ArgValue::NumberText(t) => match t.parse::<f64>().ok().and_then(serde_json::Number::from_f64) {
            Some(n) => serde_json::Value::Number(n),
            None => serde_json::Value::String(t.clone()),
        },
        ArgValue::Json(j) => j.clone(),
        ArgValue::Text(t) => serde_json::Value::String(t.clone()),
        ArgValue::TextList(l) => {
            serde_json::Value::Array(l.iter().map(|s| serde_json::Value::String(s.clone())).collect())
        }
    }
}

fn js(text: &str) -> serde_json::Value {
    serde_json::from_str(text).unwrap()
}

fn words(ws: &[&str]) -> Vec<String> {
    ws.iter().map(|s| s.to_string()).collect()
}

fn schema(props: &[(&str, Option<&str>)]) -> ToolSchema {
    let mut s = ToolSchema::with_properties();
    for (name, t) in props {
        s.add_property(name.to_string(), t.map(|t| t.to_string()));
    }
    s
}

fn get(m: &ArgumentMap, key: &str) -> serde_json::Value {
    to_json(m.get(key).expect("key is set"))
}

#[test]
fn test_normalize_structured() {
    let tool = schema(&[("name", Some("string")), ("count", Some("integer")), ("active", Some("boolean"))]);
    let raw_args = vec![
        "--name".to_string(), "foo".to_string(),
        "--count".to_string(), "42".to_string(),
        "--active".to_string(),
    ];
    let normalized = normalize_arguments(&tool, &raw_args);
    assert_eq!(get(&normalized, "name"), "foo");
    assert_eq!(get(&normalized, "count"), 42);
    assert_eq!(get(&normalized, "active"), true);
}

#[test]
fn test_normalize_flat() {
    let tool = schema(&[("args", Some("array"))]);
    let raw_args = vec![
        "--name".to_string(), "foo".to_string(),
        "positional".to_string(),
        "--recursive".to_string(),
    ];
    let normalized = normalize_arguments(&tool, &raw_args);
    let value = get(&normalized, "args");
    let args = value.as_array().unwrap();
    assert_eq!(args.len(), 3);
    assert_eq!(args[0], "name=foo");
    assert_eq!(args[1], "positional");
    assert_eq!(args[2], "recursive=true");
}

#[test]
fn test_mixed_syntax() {
    let tool = schema(&[("key1", Some("string")), ("key2", Some("string"))]);
    let raw_args = vec!["--key1=val1".to_string(), "key2=val2".to_string()];
    let normalized = normalize_arguments(&tool, &raw_args);
    assert_eq!(get(&normalized, "key1"), "val1");
    assert_eq!(get(&normalized, "key2"), "val2");
}

#[test]
fn flat_schema_detection() {
    assert!(is_flat_schema(&schema(&[("args", Some("array"))])));
    assert!(!is_flat_schema(&schema(&[("args", Some("string"))])));
    assert!(!is_flat_schema(&schema(&[("args", None)])));
    assert!(!is_flat_schema(&schema(&[("argv", Some("array"))])));
    assert!(!is_flat_schema(&ToolSchema::without_properties()));
    assert!(!is_flat_schema(&ToolSchema::with_properties()));
}

#[test]
fn flat_keeps_every_word_in_order() {
    let tool = schema(&[("args", Some("array"))]);
    let m = normalize_arguments(&tool, &words(&["a", "--x=1", "-v", "--y", "-z", "b=c", "--w", "last"]));
    assert_eq!(
        get(&m, "args"),
        js(r#"["a", "x=1", "-v", "y=true", "-z", "b=c", "w=last"]"#)
    );
    assert_eq!(m.names(), vec!["args".to_string()]);
}

#[test]
fn flat_with_no_words_is_an_empty_list() {
    let tool = schema(&[("args", Some("array"))]);
    let m = normalize_arguments(&tool, &Vec::new());
    assert_eq!(get(&m, "args"), js("[]"));
}

#[test]
fn structured_later_setting_wins() {
    let tool = ToolSchema::without_properties();
    let m = normalize_arguments(&tool, &words(&["--k=1", "k=2", "--k", "3", "--k=4"]));
    assert_eq!(get(&m, "k"), 4);
    assert_eq!(m.names(), vec!["k".to_string()]);
}

#[test]
fn structured_drops_plain_words() {
    let tool = ToolSchema::without_properties();
    let m = normalize_arguments(&tool, &words(&["plain", "a=b", "other"]));
    assert_eq!(m.names(), vec!["a".to_string()]);
    assert_eq!(get(&m, "a"), "b");
}

#[test]
fn structured_dash_value_is_not_taken() {
    let tool = schema(&[("n", Some("number"))]);
    let m = normalize_arguments(&tool, &words(&["--flag", "-5", "--n", "x=y"]));
    assert_eq!(get(&m, "flag"), true);
    assert_eq!(get(&m, "n"), "x=y");
    assert!(m.get("-5").is_none());
    assert_eq!(m.names().len(), 2);
}

#[test]
fn structured_splits_at_first_equals_and_strips_all_dashes() {
    let tool = ToolSchema::without_properties();
    let m = normalize_arguments(&tool, &words(&["---a=b=c", "x==y"]));
    assert_eq!(get(&m, "a"), "b=c");
    assert_eq!(get(&m, "x"), "=y");
}

#[test]
fn structured_with_no_words_is_empty() {
    let tool = ToolSchema::without_properties();
    let m = normalize_arguments(&tool, &Vec::new());
    assert!(m.names().is_empty());
}

#[test]
fn undeclared_values_are_json_when_they_parse() {
    let s = ToolSchema::without_properties();
    assert_eq!(to_json(&coerce_value("42", &s, "k")), 42);
    assert_eq!(to_json(&coerce_value("true", &s, "k")), true);
    assert_eq!(to_json(&coerce_value("[1, 2]", &s, "k")), js("[1, 2]"));
    assert_eq!(to_json(&coerce_value("{\"a\": null}", &s, "k")), js(r#"{"a": null}"#));
    assert_eq!(to_json(&coerce_value("\"q\"", &s, "k")), "q");
    assert_eq!(to_json(&coerce_value("hello world", &s, "k")), "hello world");
    assert!(matches!(coerce_value("1.5", &s, "k"), ArgValue::Json(_)));
    assert!(matches!(coerce_value("nope", &s, "k"), ArgValue::Text(ref t) if t == "nope"));
}

#[test]
fn boolean_values() {
    let s = schema(&[("b", Some("boolean"))]);
    for w in ["true", "TRUE", "Yes", "1"] {
        assert_eq!(coerce_value(w, &s, "b"), ArgValue::Bool(true), "{}", w);
    }
    for w in ["false", "No", "0", "FALSE"] {
        assert_eq!(coerce_value(w, &s, "b"), ArgValue::Bool(false), "{}", w);
    }
    assert_eq!(to_json(&coerce_value("maybe", &s, "b")), "maybe");
    assert_eq!(to_json(&coerce_value("null", &s, "b")), serde_json::Value::Null);
    assert_eq!(to_json(&coerce_value("2", &s, "b")), 2);
}

#[test]
fn boolean_words() {
    assert_eq!(boolean_word("yes"), Some(true));
    assert_eq!(boolean_word("0"), Some(false));
    assert_eq!(boolean_word("Yes"), None);
    assert_eq!(boolean_word(""), None);
}

#[test]
fn number_values() {
    let s = schema(&[("n", Some("number")), ("i", Some("integer"))]);
    assert_eq!(coerce_value("42", &s, "i"), ArgValue::Integer(42));
    assert_eq!(coerce_value("-7", &s, "n"), ArgValue::Integer(-7));
    assert_eq!(coerce_value("+7", &s, "n"), ArgValue::Integer(7));
    assert_eq!(coerce_value("-9223372036854775808", &s, "n"), ArgValue::Integer(i64::MIN));
    assert_eq!(coerce_value("9223372036854775807", &s, "n"), ArgValue::Integer(i64::MAX));
    assert_eq!(
        coerce_value("9223372036854775808", &s, "n"),
        ArgValue::NumberText("9223372036854775808".to_string())
    );
    assert_eq!(coerce_value("1.5", &s, "n"), ArgValue::NumberText("1.5".to_string()));
    assert_eq!(to_json(&coerce_value("1.5", &s, "n")), 1.5);
    assert_eq!(to_json(&coerce_value("abc", &s, "i")), "abc");
    assert_eq!(to_json(&coerce_value("[1]", &s, "i")), "[1]");
}

#[test]
fn json_or_text_falls_back_to_the_text() {
    assert_eq!(json_or_text("x y"), ArgValue::Text("x y".to_string()));
    assert_eq!(json_or_text("7"), ArgValue::Json(js("7")));
}

#[test]
fn readme_values_are_parsed_as_json() {
    let s = schema(&[("name", Some("string"))]);
    for key in ["message", "name"] {
        assert_eq!(to_json(&coerce_value("42", &s, key)), 42);
        assert_eq!(to_json(&coerce_value("true", &s, key)), true);
        assert_eq!(to_json(&coerce_value("[1,2]", &s, key)), js("[1,2]"));
        assert_eq!(to_json(&coerce_value("null", &s, key)), serde_json::Value::Null);
        assert_eq!(to_json(&coerce_value("Hello from Rust", &s, key)), "Hello from Rust");
    }
}

#[test]
fn infinity_and_nan_stay_strings() {
    let s = schema(&[("n", Some("number")), ("i", Some("integer"))]);
    for w in ["NaN", "nan", "inf", "-inf", "+Infinity", "infinity", "INF"] {
        assert_eq!(coerce_value(w, &s, "n"), ArgValue::Text(w.to_string()));
        assert_eq!(to_json(&coerce_value(w, &s, "i")), w);
    }
    assert_eq!(to_json(&coerce_value("1e400", &s, "n")), "1e400");
    assert_eq!(to_json(&coerce_value("-2.5e3", &s, "n")), -2500.0);
}

#[test]
fn integer_key_values() {
    let s = schema(&[("count", Some("integer"))]);
    assert_eq!(to_json(&coerce_value("42", &s, "count")), 42);
    assert_eq!(to_json(&coerce_value("-7", &s, "count")), -7);
    assert_eq!(coerce_value("2.5", &s, "count"), ArgValue::NumberText("2.5".to_string()));
    assert_eq!(to_json(&coerce_value("2.5", &s, "count")), 2.5);
    assert_eq!(coerce_value("true", &s, "count"), ArgValue::Text("true".to_string()));
    assert_eq!(coerce_value("abc", &s, "count"), ArgValue::Text("abc".to_string()));
    assert_eq!(coerce_value("", &s, "count"), ArgValue::Text("".to_string()));
    assert_eq!(coerce_value(".5", &s, "count"), ArgValue::NumberText(".5".to_string()));
    assert_eq!(coerce_value("5.", &s, "count"), ArgValue::NumberText("5.".to_string()));
    assert_eq!(coerce_value("1E3", &s, "count"), ArgValue::NumberText("1E3".to_string()));
    assert_eq!(coerce_value("1e", &s, "count"), ArgValue::Text("1e".to_string()));
}

#[test]
fn dash_value_for_integer_key_is_true_as_text() {
    let tool = schema(&[("count", Some("integer"))]);
    let m = normalize_arguments(&tool, &words(&["--count", "-5"]));
    assert_eq!(m.names(), vec!["count".to_string()]);
    assert_eq!(get(&m, "count"), "true");
}

#[test]
fn json_or_text_of_takes_the_parse() {
    assert_eq!(json_or_text_of("x", Some(js("[1]"))), ArgValue::Json(js("[1]")));
    assert_eq!(json_or_text_of("x", None), ArgValue::Text("x".to_string()));
}
