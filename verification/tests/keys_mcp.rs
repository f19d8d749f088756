use pooprusteek::app::keys::mcp::{
    reconnect_done_message, toggle_done_message, McpPanel, McpPanelAction, ServerRow,
};
use pooprusteek::app::list::KeyCode;
use pooprusteek::mcp::MCPServerConfig;
use pooprusteek::string_map::StringMap;

fn row(name: &str, enabled: bool, needs_auth: bool) -> ServerRow {
    ServerRow { name: name.to_string(), enabled, status: "connected".to_string(), needs_auth }
}

fn panel(auth_mode: bool) -> McpPanel {
    McpPanel {
        active: true,
        auth_mode,
        servers: vec![row("git", true, false), row("notion", false, true), row("slack", true, true)],
        selected: 0,
        details_server: None,
        scroll_offset: 0,
        status_message: String::new(),
    }
}

#[test]
fn the_list_moves_and_clamps() {
    let mut p = panel(false);
    assert_eq!(p.key(KeyCode::Up), McpPanelAction::Nothing);
    assert_eq!(p.selected, 0);
    p.key(KeyCode::Down);
    p.key(KeyCode::Char('j'));
    p.key(KeyCode::Down);
    assert_eq!(p.selected, 2);
    p.key(KeyCode::Char('k'));
    assert_eq!(p.selected, 1);
}

#[test]
fn enter_opens_and_closes_details() {
    let mut p = panel(false);
    p.selected = 1;
    p.scroll_offset = 5;
    p.key(KeyCode::Enter);
    assert_eq!(p.details_server.as_deref(), Some("notion"));
    assert_eq!(p.scroll_offset, 0);
    p.key(KeyCode::Down);
    p.key(KeyCode::Down);
    assert_eq!(p.scroll_offset, 2);
    assert_eq!(p.selected, 1);
    assert_eq!(p.key(KeyCode::Char(' ')), McpPanelAction::Nothing);
    p.key(KeyCode::Enter);
    assert_eq!(p.details_server, None);
}

#[test]
fn operations_name_the_selected_server() {
    let mut p = panel(false);
    p.selected = 1;
    assert_eq!(
        p.key(KeyCode::Char(' ')),
        McpPanelAction::Toggle { name: "notion".to_string(), was_enabled: false }
    );
    assert_eq!(p.status_message, "Enabling notion...");
    p.selected = 0;
    p.key(KeyCode::Char(' '));
    assert_eq!(p.status_message, "Disabling git...");
    assert_eq!(p.key(KeyCode::Char('r')), McpPanelAction::Reconnect { name: "git".to_string() });
    assert_eq!(p.status_message, "Reconnecting git...");
    assert_eq!(p.key(KeyCode::Char('d')), McpPanelAction::Remove { name: "git".to_string() });
    assert_eq!(p.key(KeyCode::Esc), McpPanelAction::Close);
    assert!(!p.active);
}

#[test]
fn removal_refreshes_and_reports() {
    let mut p = panel(false);
    p.selected = 2;
    p.removed("slack", None, vec![row("git", true, false), row("notion", false, true)]);
    assert_eq!(p.status_message, "slack removed");
    assert_eq!(p.selected, 1);
    p.removed("git", Some("locked".to_string()), vec![]);
    assert_eq!(p.status_message, "Remove failed: locked");
    assert_eq!(p.selected, 0);
}

#[test]
fn the_auth_picker_lists_only_servers_needing_login() {
    let mut p = panel(true);
    assert_eq!(p.visible_indices(), vec![1, 2]);
    assert_eq!(p.key(KeyCode::Enter), McpPanelAction::Authorize { name: "notion".to_string() });
    p.key(KeyCode::Down);
    p.key(KeyCode::Down);
    assert_eq!(p.selected, 1);
    assert_eq!(p.key(KeyCode::Enter), McpPanelAction::Authorize { name: "slack".to_string() });
    assert_eq!(p.key(KeyCode::Char('q')), McpPanelAction::Close);
    assert!(!p.active);
    assert!(!p.auth_mode);
}

#[test]
fn starting_a_login_needs_a_remote_server() {
    let mut p = panel(true);
    assert_eq!(p.authorization_start("notion", None), None);
    assert_eq!(p.status_message, "notion no longer requires authorization");
    let stdio = MCPServerConfig::Stdio { command: "npx".to_string(), args: vec![], env: None, cwd: None };
    assert_eq!(p.authorization_start("local", Some(&stdio)), None);
    assert_eq!(p.status_message, "stdio servers don't use OAuth");
    let http = MCPServerConfig::Http { url: "https://mcp.notion.com".to_string(), headers: StringMap::new() };
    assert_eq!(p.authorization_start("notion", Some(&http)).as_deref(), Some("https://mcp.notion.com"));
    assert_eq!(p.status_message, "Opening browser for notion...");
}

#[test]
fn finished_operations_are_reported() {
    assert_eq!(toggle_done_message("git", true, None), "git disabled");
    assert_eq!(toggle_done_message("git", false, None), "git enabled");
    assert_eq!(toggle_done_message("git", false, Some("spawn failed".to_string())), "Toggle failed: spawn failed");
    assert_eq!(reconnect_done_message("git", None), "git reconnected");
    assert_eq!(reconnect_done_message("git", Some("timeout".to_string())), "Reconnect failed: timeout");
}

#[test]
fn opening_the_auth_picker_resets_the_panel() {
    let mut p = panel(false);
    p.selected = 2;
    p.scroll_offset = 4;
    p.details_server = Some("git".to_string());
    p.active = false;
    p.open_auth();
    assert!(p.active);
    assert!(p.auth_mode);
    assert_eq!(p.selected, 0);
    assert_eq!(p.scroll_offset, 0);
    assert_eq!(p.details_server, None);
    assert_eq!(p.servers.len(), 3);
}
