use pooprusteek::app::input::InputState;
use pooprusteek::app::keys::mcp_add::{mcp_add_key, pasted_json_parsed, wizard_name_checked, McpAddAction};
use pooprusteek::app::keys::KeyPress;
use pooprusteek::app::list::KeyCode;
use pooprusteek::app::mcp_add::{McpAddState, TransportChoice, WizardState, WizardStep};
use pooprusteek::mcp::MCPServerConfig;

fn key(code: KeyCode) -> KeyPress {
    KeyPress::plain(code)
}

fn wizard(state: Option<McpAddState>) -> WizardState {
    match state {
        Some(McpAddState::Wizard(w)) => *w,
        other => panic!("expected the wizard, got {other:?}"),
    }
}

#[test]
fn choosing_a_method_opens_the_paste_box_or_the_wizard() {
    let step = mcp_add_key(McpAddState::choose_method(), key(KeyCode::Enter));
    assert!(matches!(step.modal, Some(McpAddState::PasteJson { error: None, .. })));
    let step = mcp_add_key(McpAddState::ChooseMethod { selected: 0 }, key(KeyCode::Char('j')));
    assert!(matches!(step.modal, Some(McpAddState::ChooseMethod { selected: 1 })));
    let step = mcp_add_key(McpAddState::ChooseMethod { selected: 1 }, key(KeyCode::Down));
    assert!(matches!(step.modal, Some(McpAddState::ChooseMethod { selected: 1 })));
    let w = wizard(mcp_add_key(McpAddState::ChooseMethod { selected: 1 }, key(KeyCode::Enter)).modal);
    assert_eq!(w.step, WizardStep::Name);
    assert!(mcp_add_key(McpAddState::choose_method(), key(KeyCode::Esc)).modal.is_none());
}

#[test]
fn the_paste_box_parses_its_text() {
    let input = InputState { buffer: "{\"name\":\"x\"}".to_string(), ..Default::default() };
    let step = mcp_add_key(McpAddState::PasteJson { input, error: None }, key(KeyCode::Enter));
    assert!(matches!(step.action, McpAddAction::Nothing));
    match step.modal {
        Some(McpAddState::PasteJson { error: Some(e), .. }) => {
            assert_eq!(e, "invalid server config: missing field `transport`")
        }
        other => panic!("expected the paste box with an error, got {other:?}"),
    }
    let good = "{\"name\":\"x\",\"transport\":\"http\",\"url\":\"https://x\"}";
    let input = InputState { buffer: good.to_string(), ..Default::default() };
    let step = mcp_add_key(McpAddState::PasteJson { input, error: None }, key(KeyCode::Enter));
    assert!(step.modal.is_none());
    match step.action {
        McpAddAction::Add { entries, announce } => {
            assert_eq!(entries.len(), 1);
            assert_eq!(entries[0].0, "x");
            assert_eq!(announce, "Adding 1 MCP server(s)...");
        }
        other => panic!("expected an add, got {other:?}"),
    }
    let step = pasted_json_parsed(InputState::default(), None, Err("invalid JSON: eof".to_string()));
    assert!(matches!(step.modal, Some(McpAddState::PasteJson { error: Some(_), .. })));
    let entries = vec![
        ("a".to_string(), MCPServerConfig::Http { url: "u".to_string(), headers: Default::default() }),
        ("b".to_string(), MCPServerConfig::Http { url: "v".to_string(), headers: Default::default() }),
    ];
    let step = pasted_json_parsed(InputState::default(), None, Ok(entries));
    assert!(step.modal.is_none());
    match step.action {
        McpAddAction::Add { entries, announce } => {
            assert_eq!(entries.len(), 2);
            assert_eq!(announce, "Adding 2 MCP server(s)...");
        }
        other => panic!("expected an add, got {other:?}"),
    }
}

#[test]
fn the_wizard_walks_to_a_stdio_server() {
    let mut state = McpAddState::Wizard(Box::new(WizardState::new()));
    // An empty name is refused on the spot.
    let step = mcp_add_key(state, key(KeyCode::Enter));
    let w = wizard(step.modal);
    assert_eq!(w.error.as_deref(), Some("name can't be empty"));
    state = McpAddState::Wizard(Box::new(w));
    for c in "fetch".chars() {
        state = mcp_add_key(state, key(KeyCode::Char(c))).modal.unwrap();
    }
    let step = mcp_add_key(state, key(KeyCode::Enter));
    match &step.action {
        McpAddAction::CheckName(name) => assert_eq!(name, "fetch"),
        other => panic!("expected a name check, got {other:?}"),
    }
    let taken = wizard_name_checked(wizard(step.modal), true);
    let w = wizard(taken.modal);
    assert_eq!(w.error.as_deref(), Some("'fetch' already exists"));
    let w = wizard(wizard_name_checked(w, false).modal);
    assert_eq!(w.step, WizardStep::Transport);

    // Transport: stdio is the first row.
    let mut state = McpAddState::Wizard(Box::new(w));
    state = mcp_add_key(state, key(KeyCode::Down)).modal.unwrap();
    state = mcp_add_key(state, key(KeyCode::Up)).modal.unwrap();
    let w = wizard(mcp_add_key(state, key(KeyCode::Enter)).modal);
    assert_eq!(w.transport, Some(TransportChoice::Stdio));
    assert_eq!(w.step, WizardStep::Primary);

    // Primary: a command line.
    let mut state = McpAddState::Wizard(Box::new(w));
    let w = wizard(mcp_add_key(state, key(KeyCode::Enter)).modal);
    assert_eq!(w.error.as_deref(), Some("command is empty"));
    state = McpAddState::Wizard(Box::new(w));
    for c in "npx -y pkg".chars() {
        state = mcp_add_key(state, key(KeyCode::Char(c))).modal.unwrap();
    }
    let w = wizard(mcp_add_key(state, key(KeyCode::Enter)).modal);
    assert_eq!(w.step, WizardStep::Extra);

    // Extra: env lines, newline with Shift+Enter.
    let mut state = McpAddState::Wizard(Box::new(w));
    for c in "A=1".chars() {
        state = mcp_add_key(state, key(KeyCode::Char(c))).modal.unwrap();
    }
    let shift_enter = KeyPress { code: KeyCode::Enter, shift: true, control: false };
    state = mcp_add_key(state, shift_enter).modal.unwrap();
    let w = wizard(mcp_add_key(state, key(KeyCode::Enter)).modal);
    assert_eq!(w.extra.buffer, "A=1\n");
    assert_eq!(w.step, WizardStep::Confirm);

    // Confirm: the server is added and the modal closes.
    let step = mcp_add_key(McpAddState::Wizard(Box::new(w)), key(KeyCode::Enter));
    assert!(step.modal.is_none());
    match step.action {
        McpAddAction::Add { entries, announce } => {
            assert_eq!(announce, "Adding fetch...");
            assert_eq!(entries[0].0, "fetch");
            assert!(matches!(&entries[0].1, MCPServerConfig::Stdio { command, .. } if command == "npx"));
        }
        other => panic!("expected an add, got {other:?}"),
    }
}

#[test]
fn esc_walks_the_wizard_back() {
    let mut w = WizardState::new();
    w.step = WizardStep::Extra;
    w.error = Some("stale".to_string());
    let w = wizard(mcp_add_key(McpAddState::Wizard(Box::new(w)), key(KeyCode::Esc)).modal);
    assert_eq!(w.step, WizardStep::Primary);
    assert!(w.error.is_none());
    let step = mcp_add_key(McpAddState::Wizard(Box::new(WizardState::new())), key(KeyCode::Esc));
    assert!(matches!(step.modal, Some(McpAddState::ChooseMethod { selected: 0 })));
}

#[test]
fn a_url_step_checks_the_url() {
    let mut w = WizardState::new();
    w.step = WizardStep::Primary;
    w.transport = Some(TransportChoice::Http);
    let w = wizard(mcp_add_key(McpAddState::Wizard(Box::new(w)), key(KeyCode::Enter)).modal);
    assert_eq!(w.error.as_deref(), Some("URL can't be empty"));
    let mut w = w;
    w.primary.buffer = "not a url".to_string();
    let w = wizard(mcp_add_key(McpAddState::Wizard(Box::new(w)), key(KeyCode::Enter)).modal);
    assert!(w.error.as_deref().unwrap().starts_with("invalid URL: "));
    let mut w = w;
    w.primary.buffer = "https://example.com/mcp".to_string();
    let w = wizard(mcp_add_key(McpAddState::Wizard(Box::new(w)), key(KeyCode::Enter)).modal);
    assert_eq!(w.step, WizardStep::Extra);
    assert!(w.error.is_none());
}
