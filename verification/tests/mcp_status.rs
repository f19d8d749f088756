use pooprusteek::app::mcp_status::refresh_due_after;
use pooprusteek::app::mcp_status::{McpStatus, ServerState};

fn server(enabled: bool, status: &str) -> ServerState {
    ServerState { enabled, status: status.to_string() }
}

#[test]
fn a_fresh_status_is_due_for_a_refresh() {
    let status = McpStatus::default();
    assert!(status.stats_due());
    assert_eq!((status.server_count, status.connected_count), (0, 0));
}

#[test]
fn only_enabled_connected_servers_count_as_connected() {
    let mut status = McpStatus::default();
    let servers = vec![
        server(true, "connected"),
        server(false, "connected"),
        server(true, "error: boom"),
        server(true, "connected"),
    ];
    assert!(status.record_servers(&servers));
    assert_eq!(status.server_count, 4);
    assert_eq!(status.connected_count, 2);
    // Just refreshed: the throttle holds the next poll back.
    assert!(!status.stats_due());
    // The same numbers again are no change.
    assert!(!status.record_servers(&servers));
}

#[test]
fn invalidating_makes_the_next_poll_due() {
    let mut status = McpStatus::default();
    status.record_servers(&[server(true, "connected")]);
    status.invalidate();
    assert!(status.stats_due());
    assert_eq!(status.connected_count, 1);
}

#[test]
fn refreshes_are_throttled_by_age() {
    assert!(refresh_due_after(None));
    assert!(!refresh_due_after(Some(0)));
    assert!(!refresh_due_after(Some(1)));
    assert!(refresh_due_after(Some(2)));
    assert!(refresh_due_after(Some(60)));
}
