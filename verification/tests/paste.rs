use pooprusteek::app::input::InputState;
use pooprusteek::app::mcp_add::{McpAddState, WizardState, WizardStep};
use pooprusteek::app::providers::{ProviderAddState, ProviderWizardStep};
use pooprusteek::app::search::{SearchFocus, SearchViewState};

#[test]
fn insert_str_types_the_text_over_the_selection() {
    let mut input = InputState { buffer: "hello world".to_string(), cursor: 11, ..Default::default() };
    input.selection_anchor = Some(6);
    input.insert_str("there");
    assert_eq!(input.buffer, "hello there");
    assert_eq!(input.cursor, 11);
    assert_eq!(input.selection_anchor, None);
    input.cursor = 5;
    input.insert_str(", 🌍");
    assert_eq!(input.buffer, "hello, 🌍 there");
    assert_eq!(input.cursor, 8);
}

#[test]
fn the_json_box_keeps_newlines_but_drops_carriage_returns() {
    let mut state = McpAddState::PasteJson { input: InputState::default(), error: None };
    state.paste("{\r\n  \"a\": 1\r\n}");
    match state {
        McpAddState::PasteJson { input, .. } => assert_eq!(input.buffer, "{\n  \"a\": 1\n}"),
        other => panic!("unexpected state {other:?}"),
    }
}

#[test]
fn wizard_fields_take_pastes_by_step() {
    let mut wizard = WizardState::new();
    wizard.step = WizardStep::Name;
    let mut state = McpAddState::Wizard(Box::new(wizard));
    state.paste("my\nserver");
    if let McpAddState::Wizard(w) = &mut state {
        assert_eq!(w.name.buffer, "myserver");
        w.step = WizardStep::Extra;
    }
    state.paste("A=1\r\nB=2");
    if let McpAddState::Wizard(w) = &mut state {
        assert_eq!(w.extra.buffer, "A=1\nB=2");
        w.step = WizardStep::Confirm;
    }
    state.paste("ignored");
    if let McpAddState::Wizard(w) = &state {
        assert_eq!(w.name.buffer, "myserver");
        assert_eq!(w.primary.buffer, "");
    }
    let mut choose = McpAddState::choose_method();
    choose.paste("anything");
    assert!(matches!(choose, McpAddState::ChooseMethod { selected: 0 }));
}

#[test]
fn provider_wizard_pastes_are_single_line() {
    let mut wizard = ProviderAddState::new();
    wizard.step = ProviderWizardStep::BaseUrl;
    wizard.paste("http://host/v1\n");
    assert_eq!(wizard.base_url.buffer, "http://host/v1");
    assert_eq!(wizard.name.buffer, "");
    wizard.step = ProviderWizardStep::Confirm;
    wizard.paste("x");
    assert_eq!(wizard.model.buffer, "");
}

#[test]
fn the_search_query_takes_a_paste_only_when_focused() {
    let mut search = SearchViewState::fresh("");
    search.paste("two\nlines");
    assert_eq!(search.query.buffer, "twolines");
    search.focus = SearchFocus::Results;
    search.paste("more");
    assert_eq!(search.query.buffer, "twolines");
}
