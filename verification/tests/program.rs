use mcpx_rust::cli::{cache_serves, call_failed, find_tool, image_line, plan_action, prepare_args, server_line, tool_line, Action};
use mcpx_rust::config::{
    cache_dir, cache_file, cache_is_fresh, config_path, join_path, Config, ConfigError,
    McpServerConfig, CACHE_LIFETIME_SECS,
};
use mcpx_rust::table::NameTable;

fn words(ws: &[&str]) -> Vec<String> {
    ws.iter().map(|s| s.to_string()).collect()
}

fn server(cmd: &str) -> McpServerConfig {
    McpServerConfig { command: cmd.to_string(), args: words(&["-y", "pkg"]), env: None }
}

#[test]
fn help_with_json_asks_for_a_schema() {
    let p = prepare_args(words(&["mcpx", "--help", "--json", "srv", "tool", "-h"]));
    assert!(p.schema_mode);
    assert_eq!(p.args, words(&["mcpx", "--json", "srv", "tool"]));
}

#[test]
fn server_help_is_forwarded() {
    for h in ["--help", "-h", "help"] {
        let p = prepare_args(words(&["mcpx", "srv", h]));
        assert!(!p.schema_mode);
        assert_eq!(p.args, words(&["mcpx", "srv"]), "{}", h);
    }
    let p = prepare_args(words(&["mcpx", "--help", "srv", "help", "-v"]));
    assert_eq!(p.args, words(&["mcpx", "srv", "-v"]));
}

#[test]
fn program_help_is_kept() {
    for ws in [
        &["mcpx", "--help"][..],
        &["mcpx", "list", "--help"][..],
        &["mcpx", "srv", "tool", "--help"][..],
        &["mcpx", "srv", "x"][..],
        &[][..],
    ] {
        let p = prepare_args(words(ws));
        assert!(!p.schema_mode);
        assert_eq!(p.args, words(ws));
    }
    let p = prepare_args(words(&["mcpx", "--json", "srv"]));
    assert!(!p.schema_mode);
}

#[test]
fn configuration_path() {
    assert_eq!(config_path(Some("/etc/m.toml".into()), Some("/home/u".into())), Ok("/etc/m.toml".to_string()));
    assert_eq!(config_path(Some("rel.toml".into()), None), Ok("rel.toml".to_string()));
    assert_eq!(config_path(None, Some("/home/u".into())), Ok("/home/u/.config/mcpx/config.toml".to_string()));
    assert_eq!(config_path(None, Some("/home/u/".into())), Ok("/home/u/.config/mcpx/config.toml".to_string()));
    assert_eq!(config_path(None, Some("".into())), Ok(".config/mcpx/config.toml".to_string()));
    assert_eq!(config_path(None, None), Err(ConfigError::HomeNotSet));
}

#[test]
fn paths_join_like_std() {
    for (b, r) in [("/a", "b"), ("/a/", "b"), ("", "b"), ("/a", "/b"), ("a", ""), ("/", "x.json")] {
        let expected = std::path::PathBuf::from(b).join(r).to_string_lossy().to_string();
        assert_eq!(join_path(b, r), expected, "{:?} {:?}", b, r);
    }
}

#[test]
fn cache_paths() {
    assert_eq!(cache_dir(Some("/home/u".into())), Ok("/home/u/.cache/mcpx-rust/schemas".to_string()));
    assert_eq!(cache_dir(None), Err(ConfigError::HomeNotSet));
    assert_eq!(cache_file("/c", "everything"), "/c/everything.json");
    assert_eq!(cache_file("/c", "/abs"), "/abs.json");
}

#[test]
fn cache_lifetime_is_a_day() {
    assert_eq!(CACHE_LIFETIME_SECS, 86400);
    assert!(cache_is_fresh(0));
    assert!(cache_is_fresh(86400));
    assert!(!cache_is_fresh(86401));
}

#[test]
fn configured_servers() {
    let mut c = Config::new();
    assert!(c.server_names().is_empty());
    c.add_server("a".into(), server("npx"));
    let mut env = NameTable::new();
    env.insert("TOKEN".to_string(), "x".to_string());
    c.add_server("b".into(), McpServerConfig { command: "b".into(), args: vec![], env: Some(env) });
    c.add_server("a".into(), server("uvx"));
    assert_eq!(c.get_server("a").unwrap().command, "uvx");
    assert_eq!(c.get_server("b").unwrap().env.as_ref().unwrap().get("TOKEN"), Some(&"x".to_string()));
    assert!(c.get_server("c").is_none());
    let mut names = c.server_names();
    names.sort();
    assert_eq!(names, words(&["a", "b"]));
}

fn config() -> Config {
    let mut c = Config::new();
    c.add_server("srv".into(), server("npx"));
    c
}

#[test]
fn actions() {
    let c = config();
    assert!(matches!(plan_action(&c, true, Some("nope".into()), None, false), Ok(Action::ListServers)));
    assert!(matches!(plan_action(&c, false, None, None, false), Ok(Action::ShowUsage)));
    assert!(matches!(plan_action(&c, false, None, Some("t".into()), true), Ok(Action::ShowUsage)));
    match plan_action(&c, false, Some("nope".into()), Some("t".into()), false) {
        Err(e) => assert_eq!(e.name, "nope"),
        Ok(_) => panic!("unknown server accepted"),
    }
    assert!(matches!(plan_action(&c, false, Some("srv".into()), None, true), Ok(Action::PrintHelp)));
    match plan_action(&c, false, Some("srv".into()), Some("t".into()), true) {
        Ok(Action::ExtractSchema { server, tool }) => assert_eq!((server.as_str(), tool.as_str()), ("srv", "t")),
        _ => panic!("schema not asked for"),
    }
    match plan_action(&c, false, Some("srv".into()), Some("t".into()), false) {
        Ok(Action::RunTool { server, tool }) => assert_eq!((server.as_str(), tool.as_deref()), ("srv", Some("t"))),
        _ => panic!("tool not run"),
    }
    match plan_action(&c, false, Some("srv".into()), None, false) {
        Ok(Action::RunTool { server, tool }) => assert_eq!((server.as_str(), tool), ("srv", None)),
        _ => panic!("tools not listed"),
    }
}

#[test]
fn tools_and_lines() {
    let names = words(&["echo", "add", "echo"]);
    assert_eq!(find_tool(&names, "echo"), Some(0));
    assert_eq!(find_tool(&names, "add"), Some(1));
    assert_eq!(find_tool(&names, "sub"), None);
    assert!(cache_serves(&names, "add"));
    assert!(!cache_serves(&names, "sub"));
    assert!(!cache_serves(&Vec::new(), "add"));
    assert!(call_failed(Some(true)));
    assert!(!call_failed(Some(false)));
    assert!(!call_failed(None));
    assert_eq!(server_line("everything"), "  - everything");
    assert_eq!(tool_line("echo", Some("Echoes input".into())), "  - echo: Echoes input");
    assert_eq!(tool_line("echo", None), "  - echo: ");
    assert_eq!(image_line("image/png"), "[Image: image/png]");
}
