use pooprusteek::app::mcp_add::{config_from_json, parse_pasted_json};
use pooprusteek::app::mcp_add::{mcp_add_command, McpAddCommand};
use pooprusteek::app::mcp_add::{adding_servers_note, cache_ttl_note, quick_add_failed_note};
use pooprusteek::app::mcp_add::{
    parse_env_lines, parse_header_lines, parse_quick_add, split_command_line, status_label,
    McpAddState, TransportChoice, WizardState, WizardStep,
};
use pooprusteek::mcp::{MCPServerConfig, MCPServerStatus};

#[test]
fn status_label_covers_every_variant() {
    assert_eq!(status_label(&MCPServerStatus::Connected), "connected");
    assert_eq!(status_label(&MCPServerStatus::Disabled), "disabled");
    assert!(status_label(&MCPServerStatus::AuthRequired(None)).contains("authorization"));
    assert!(status_label(&MCPServerStatus::Error("boom".to_string())).contains("boom"));
}

#[test]
fn split_command_line_splits_command_and_args() {
    let (cmd, args) = split_command_line("npx -y @scope/pkg").unwrap();
    assert_eq!(cmd, "npx");
    assert_eq!(args, vec!["-y".to_string(), "@scope/pkg".to_string()]);
}

#[test]
fn split_command_line_no_args_is_fine() {
    let (cmd, args) = split_command_line("uvx-tool").unwrap();
    assert_eq!(cmd, "uvx-tool");
    assert!(args.is_empty());
}

#[test]
fn split_command_line_empty_is_error() {
    assert!(split_command_line("   ").is_err());
}

#[test]
fn parse_env_lines_parses_key_value_pairs() {
    let map = parse_env_lines("FOO=bar\nBAZ=qux quux\n").unwrap();
    assert_eq!(map.get("FOO").map(String::as_str), Some("bar"));
    assert_eq!(map.get("BAZ").map(String::as_str), Some("qux quux"));
}

#[test]
fn parse_env_lines_ignores_blank_lines() {
    let map = parse_env_lines("\nFOO=bar\n\n").unwrap();
    assert_eq!(map.len(), 1);
}

#[test]
fn parse_env_lines_empty_input_is_empty_map() {
    assert!(parse_env_lines("").unwrap().is_empty());
    assert!(parse_env_lines("   \n  \n").unwrap().is_empty());
}

#[test]
fn parse_env_lines_rejects_missing_equals() {
    assert!(parse_env_lines("NOTKEYVALUE").is_err());
}

#[test]
fn parse_env_lines_rejects_empty_key() {
    assert!(parse_env_lines("=value").is_err());
}

#[test]
fn parse_header_lines_parses_colon_pairs() {
    let map = parse_header_lines("Authorization: Bearer xyz\nX-Custom: 1").unwrap();
    assert_eq!(map.get("Authorization").map(String::as_str), Some("Bearer xyz"));
    assert_eq!(map.get("X-Custom").map(String::as_str), Some("1"));
}

#[test]
fn parse_header_lines_rejects_missing_colon() {
    assert!(parse_header_lines("NoColonHere").is_err());
}

fn entries(raw: &str) -> Vec<(String, MCPServerConfig)> {
    parse_quick_add(raw).unwrap()
}

#[test]
fn parse_quick_add_name_command_args_shorthand() {
    let entries = entries("fetch npx -y @x/fetch");
    assert_eq!(entries.len(), 1);
    assert_eq!(entries[0].0, "fetch");
    match &entries[0].1 {
        MCPServerConfig::Stdio { command, args, env, cwd } => {
            assert_eq!(command, "npx");
            assert_eq!(args, &vec!["-y".to_string(), "@x/fetch".to_string()]);
            assert!(env.is_none());
            assert!(cwd.is_none());
        }
        other => panic!("expected Stdio, got {other:?}"),
    }
}

#[test]
fn parse_quick_add_rejects_missing_command() {
    assert!(parse_quick_add("just-a-name").is_err());
}

#[test]
fn parse_quick_add_rejects_empty_input() {
    assert!(parse_quick_add("   ").is_err());
}

// ── further cases ──

#[test]
fn parse_quick_add_delegates_to_json_parser_when_it_looks_like_json() {
    let json = r#"{"name": "fetch", "transport": "http", "url": "https://x/mcp"}"#;
    let entries = parse_quick_add(json).unwrap();
    assert_eq!(entries.len(), 1);
    assert_eq!(entries[0].0, "fetch");
    assert!(matches!(entries[0].1, MCPServerConfig::Http { .. }));
}

#[test]
fn json_input_is_trimmed_before_the_json_parser() {
    let json = r#"  {"name": "fetch", "transport": "http", "url": "https://x/mcp"}  "#;
    let entries = parse_quick_add(json).unwrap();
    assert_eq!(entries[0].0, "fetch");
    assert_eq!(parse_quick_add("{not json").unwrap_err().starts_with("invalid JSON: "), true);
}

#[test]
fn parse_pasted_json_single_object_with_name() {
    let json = r#"{"name": "fetch", "transport": "stdio", "command": "npx", "args": ["-y", "@x/fetch"]}"#;
    let entries = parse_pasted_json(json).unwrap();
    assert_eq!(entries.len(), 1);
    assert_eq!(entries[0].0, "fetch");
    match &entries[0].1 {
        MCPServerConfig::Stdio { command, args, .. } => {
            assert_eq!(command, "npx");
            assert_eq!(args, &vec!["-y".to_string(), "@x/fetch".to_string()]);
        }
        other => panic!("expected Stdio, got {other:?}"),
    }
}

#[test]
fn parse_pasted_json_mcp_servers_wrapper_multiple_entries() {
    let json = r#"{
        "mcpServers": {
            "fetch": {"transport": "stdio", "command": "npx", "args": ["-y", "@x/fetch"]},
            "notion": {"transport": "http", "url": "https://example.com/mcp"}
        }
    }"#;
    let mut entries = parse_pasted_json(json).unwrap();
    entries.sort_by(|a, b| a.0.cmp(&b.0));
    assert_eq!(entries.len(), 2);
    assert_eq!(entries[0].0, "fetch");
    assert_eq!(entries[1].0, "notion");
}

#[test]
fn parse_pasted_json_rejects_invalid_json() {
    assert!(parse_pasted_json("not json").is_err());
}

#[test]
fn parse_pasted_json_rejects_missing_name_and_wrapper() {
    let json = r#"{"transport": "stdio", "command": "npx"}"#;
    assert!(parse_pasted_json(json).is_err());
}

#[test]
fn parse_pasted_json_rejects_empty_mcp_servers_object() {
    assert!(parse_pasted_json(r#"{"mcpServers": {}}"#).is_err());
}

#[test]
fn pasted_json_errors_are_worded() {
    assert_eq!(parse_pasted_json("   ").unwrap_err(), "empty input");
    assert!(parse_pasted_json("[1,").unwrap_err().starts_with("invalid JSON: "));
    assert_eq!(parse_pasted_json(r#"{"mcpServers": {}}"#).unwrap_err(), "\"mcpServers\" object is empty");
    assert_eq!(
        parse_pasted_json(r#"{"transport": "stdio"}"#).unwrap_err(),
        "expected a top-level \"mcpServers\" object, or a \"name\" field"
    );
    assert_eq!(
        parse_pasted_json(r#"{"name": "x", "transport": "ftp"}"#).unwrap_err(),
        "invalid server config: unknown variant `ftp`, expected one of `stdio`, `http`, `sse`"
    );
    assert_eq!(
        parse_pasted_json(r#"{"mcpServers": {"a": {"transport": "stdio"}}}"#).unwrap_err(),
        "server 'a': missing field `command`"
    );
}

#[test]
fn server_configs_are_read_field_by_field() {
    let c = config_from_json(
        r#"{"transport": "stdio", "command": "uvx", "args": ["tool"], "env": {"A": "1", "B": "2"}, "cwd": null}"#,
    )
    .unwrap();
    match c {
        MCPServerConfig::Stdio { command, args, env, cwd } => {
            assert_eq!(command, "uvx");
            assert_eq!(args, vec!["tool".to_string()]);
            let env = env.unwrap();
            assert_eq!(env.len(), 2);
            assert_eq!(env.get("A").map(|v| v.as_str()), Some("1"));
            assert!(cwd.is_none());
        }
        other => panic!("expected Stdio, got {other:?}"),
    }
    let sse = config_from_json(r#"{"transport": "sse", "url": "https://s", "headers": {"X": "y"}}"#).unwrap();
    match sse {
        MCPServerConfig::Sse { url, headers } => {
            assert_eq!(url, "https://s");
            assert_eq!(headers.get("X").map(|v| v.as_str()), Some("y"));
        }
        other => panic!("expected Sse, got {other:?}"),
    }
    assert_eq!(config_from_json("[1]").unwrap_err(), "invalid type: expected a map");
    assert_eq!(
        config_from_json(r#"{"transport": "stdio", "command": 3}"#).unwrap_err(),
        "invalid type for `command`: expected a string"
    );
    assert_eq!(
        config_from_json(r#"{"transport": "stdio", "command": "x", "args": [1]}"#).unwrap_err(),
        "invalid type in `args`: expected a string"
    );
    assert_eq!(
        config_from_json(r#"{"transport": "http", "url": "u", "headers": []}"#).unwrap_err(),
        "invalid type for `headers`: expected a map"
    );
}

#[test]
fn error_messages_name_the_line() {
    assert_eq!(parse_env_lines("A=1\n\nNOPE").unwrap_err(), "line 3: expected KEY=VALUE");
    assert_eq!(parse_env_lines("  = v").unwrap_err(), "line 1: empty key");
    assert_eq!(parse_header_lines("X: 1\nbad").unwrap_err(), "line 2: expected \"Name: value\"");
    assert_eq!(parse_header_lines(": v").unwrap_err(), "line 1: empty header name");
    assert_eq!(split_command_line("").unwrap_err(), "command is empty");
    assert_eq!(
        parse_quick_add("").unwrap_err(),
        "expected \"<name> <command> [args...]\" or a JSON config"
    );
    assert_eq!(
        parse_quick_add("solo").unwrap_err(),
        "missing command — expected \"<name> <command> [args...]\""
    );
}

#[test]
fn a_repeated_key_keeps_the_last_value() {
    let map = parse_env_lines("A=1\nB=2\nA = 3 \r\n").unwrap();
    assert_eq!(map.len(), 2);
    assert_eq!(map.get("A").map(String::as_str), Some("3"));
    assert_eq!(map.get("B").map(String::as_str), Some("2"));
    assert_eq!(map.get("C"), None);
    // Only the first separator splits: the value keeps the rest.
    let map = parse_header_lines("Link: <a>; rel=x: y").unwrap();
    assert_eq!(map.get("Link").map(String::as_str), Some("<a>; rel=x: y"));
}

#[test]
fn status_labels_read_exactly() {
    assert_eq!(
        status_label(&MCPServerStatus::AuthRequired(Some("https://auth".to_string()))),
        "requires authorization — use /mcp auth"
    );
    assert_eq!(status_label(&MCPServerStatus::Error("boom".to_string())), "failed to connect: boom");
    assert_eq!(status_label(&MCPServerStatus::Pending), "connecting...");
    assert_eq!(status_label(&MCPServerStatus::Connecting), "connecting...");
}

#[test]
fn wizard_builds_each_transport() {
    let mut w = WizardState::new();
    assert_eq!(w.step, WizardStep::Name);
    assert_eq!(w.build_config().unwrap_err(), "no transport selected");

    w.transport = Some(TransportChoice::Stdio);
    w.primary.buffer = "  npx -y pkg ".to_string();
    w.extra.buffer = "TOKEN=abc".to_string();
    match w.build_config().unwrap() {
        MCPServerConfig::Stdio { command, args, env, cwd } => {
            assert_eq!(command, "npx");
            assert_eq!(args, vec!["-y".to_string(), "pkg".to_string()]);
            let env = env.expect("one variable was given");
            assert_eq!(env.get("TOKEN").map(String::as_str), Some("abc"));
            assert!(cwd.is_none());
        }
        other => panic!("expected Stdio, got {other:?}"),
    }

    w.extra.buffer = String::new();
    match w.build_config().unwrap() {
        MCPServerConfig::Stdio { env, .. } => assert!(env.is_none()),
        other => panic!("expected Stdio, got {other:?}"),
    }

    w.transport = Some(TransportChoice::Sse);
    w.primary.buffer = " https://h/sse ".to_string();
    w.extra.buffer = "Auth: t".to_string();
    match w.build_config().unwrap() {
        MCPServerConfig::Sse { url, headers } => {
            assert_eq!(url, "https://h/sse");
            assert_eq!(headers.get("Auth").map(String::as_str), Some("t"));
        }
        other => panic!("expected Sse, got {other:?}"),
    }

    w.transport = Some(TransportChoice::Http);
    w.extra.buffer = "broken".to_string();
    assert_eq!(w.build_config().unwrap_err(), "line 1: expected \"Name: value\"");
}

#[test]
fn transport_labels_and_choose_method() {
    assert_eq!(TransportChoice::Stdio.label(), "stdio (local command)");
    assert_eq!(TransportChoice::Http.primary_label(), "URL");
    assert_eq!(TransportChoice::Sse.extra_label(), "Headers, one \"Name: value\" per line (optional)");
    assert!(matches!(McpAddState::choose_method(), McpAddState::ChooseMethod { selected: 0 }));
}

#[test]
fn mcp_command_notes() {
    assert_eq!(adding_servers_note(2), "Adding 2 MCP server(s)...");
    assert_eq!(
        quick_add_failed_note("fs", "missing command"),
        "Couldn't parse \"/mcp add fs\" as a quick config (missing command) \u{2014} pick a method:"
    );
    assert_eq!(cache_ttl_note(300), "MCP cache TTL set to 300s");
}

#[test]
fn the_mcp_add_command_adds_a_quick_config_or_falls_back_to_the_dialog() {
    match mcp_add_command("  fs npx -y @scope/pkg ") {
        McpAddCommand::Add { entries, note } => {
            assert_eq!(note, "Adding 1 MCP server(s)...");
            assert_eq!(entries.len(), 1);
            assert_eq!(entries[0].0, "fs");
            match &entries[0].1 {
                MCPServerConfig::Stdio { command, args, .. } => {
                    assert_eq!(command, "npx");
                    assert_eq!(args, &vec!["-y".to_string(), "@scope/pkg".to_string()]);
                }
                other => panic!("expected stdio, got {other:?}"),
            }
        }
        McpAddCommand::ChooseMethod { note } => panic!("unexpected fallback: {note}"),
    }
    match mcp_add_command(r#"{"mcpServers": {"a": {"transport": "stdio", "command": "x"}, "b": {"transport": "http", "url": "https://h"}}}"#) {
        McpAddCommand::Add { entries, note } => {
            assert_eq!(entries.len(), 2);
            assert_eq!(note, "Adding 2 MCP server(s)...");
        }
        McpAddCommand::ChooseMethod { note } => panic!("unexpected fallback: {note}"),
    }
    match mcp_add_command("lonely") {
        McpAddCommand::ChooseMethod { note } => assert_eq!(
            note,
            "Couldn't parse \"/mcp add lonely\" as a quick config (missing command \u{2014} expected \"<name> <command> [args...]\") \u{2014} pick a method:"
        ),
        McpAddCommand::Add { .. } => panic!("one word is no quick config"),
    }
    match mcp_add_command("{nope") {
        McpAddCommand::ChooseMethod { note } => {
            assert!(note.starts_with("Couldn't parse \"/mcp add {nope\" as a quick config (invalid JSON: "));
            assert!(note.ends_with(") \u{2014} pick a method:"));
        }
        McpAddCommand::Add { .. } => panic!("broken JSON is no quick config"),
    }
}
