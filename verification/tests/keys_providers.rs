use pooprusteek::app::keys::providers::{
    activation_saved, provider_add_failed, provider_add_key, provider_added, providers_key,
    remove_provider, removal_saved, ProviderAddAction, ProvidersAction,
};
use pooprusteek::app::keys::KeyPress;
use pooprusteek::app::list::KeyCode;
use pooprusteek::app::providers::{ProviderAddState, ProviderWizardStep, ProvidersViewState};
use pooprusteek::config::{Config, ProviderEntry};

fn entry(name: &str) -> ProviderEntry {
    ProviderEntry {
        name: name.to_string(),
        base_url: "http://localhost:1234/v1".to_string(),
        api_key: None,
        model: "default".to_string(),
    }
}

fn config(active: Option<&str>) -> Config {
    let mut c = Config::default();
    c.providers = vec![entry("a"), entry("b")];
    c.active_provider = active.map(str::to_string);
    c
}

fn key(code: KeyCode) -> KeyPress {
    KeyPress::plain(code)
}

#[test]
fn navigation_stays_inside_the_rows() {
    let c = config(None);
    let mut view = ProvidersViewState { selected: 9, status_message: String::new() };
    assert!(matches!(providers_key(&mut view, &c, key(KeyCode::Down)), ProvidersAction::Nothing));
    assert_eq!(view.selected, 2);
    providers_key(&mut view, &c, key(KeyCode::Char('k')));
    assert_eq!(view.selected, 1);
    assert!(matches!(providers_key(&mut view, &c, key(KeyCode::Char('q'))), ProvidersAction::CloseView));
    assert!(matches!(providers_key(&mut view, &c, key(KeyCode::Char('a'))), ProvidersAction::OpenAddWizard));
}

#[test]
fn enter_activates_or_reports_already_active() {
    let c = config(Some("a"));
    let mut view = ProvidersViewState { selected: 1, status_message: String::new() };
    assert!(matches!(providers_key(&mut view, &c, key(KeyCode::Enter)), ProvidersAction::Nothing));
    assert_eq!(view.status_message, "a is already active");
    view.selected = 0;
    match providers_key(&mut view, &c, key(KeyCode::Char(' '))) {
        ProvidersAction::Activate { name, active } => {
            assert_eq!(name, "deepseek");
            assert_eq!(active, None);
        }
        other => panic!("expected an activation, got {other:?}"),
    }
    view.selected = 2;
    match providers_key(&mut view, &c, key(KeyCode::Enter)) {
        ProvidersAction::Activate { active, .. } => assert_eq!(active.as_deref(), Some("b")),
        other => panic!("expected an activation, got {other:?}"),
    }
    activation_saved(&mut view, "b", Ok(true));
    assert_eq!(view.status_message, "b is now active");
    activation_saved(&mut view, "b", Ok(false));
    assert_eq!(view.status_message, "b selected, but no usable provider (check token/URL)");
    activation_saved(&mut view, "b", Err("disk full".to_string()));
    assert_eq!(view.status_message, "Failed to save config: disk full");
}

#[test]
fn removing_an_entry() {
    let mut c = config(Some("a"));
    let mut view = ProvidersViewState { selected: 0, status_message: String::new() };
    assert!(matches!(providers_key(&mut view, &c, key(KeyCode::Char('d'))), ProvidersAction::Nothing));
    assert_eq!(view.status_message, "The built-in DeepSeek provider can't be removed");
    view.selected = 1;
    match providers_key(&mut view, &c, key(KeyCode::Char('d'))) {
        ProvidersAction::Remove { name, was_active } => {
            assert_eq!(name, "a");
            assert!(was_active);
            remove_provider(&mut c, &name, was_active);
        }
        other => panic!("expected a removal, got {other:?}"),
    }
    assert_eq!(c.providers.len(), 1);
    assert_eq!(c.providers[0].name, "b");
    assert_eq!(c.active_provider, None);
    view.selected = 2;
    removal_saved(&mut view, &c, "a", true, Ok(()));
    assert_eq!(view.status_message, "a removed — back on deepseek");
    assert_eq!(view.selected, 1);
}

#[test]
fn the_add_wizard_validates_each_step() {
    let c = config(None);
    let mut w = ProviderAddState::new();
    for ch in "a".chars() {
        provider_add_key(&mut w, key(KeyCode::Char(ch)), &c);
    }
    provider_add_key(&mut w, key(KeyCode::Enter), &c);
    assert_eq!(w.error.as_deref(), Some("'a' already exists"));
    assert_eq!(w.step, ProviderWizardStep::Name);
    provider_add_key(&mut w, key(KeyCode::Char('z')), &c);
    provider_add_key(&mut w, key(KeyCode::Enter), &c);
    assert_eq!(w.step, ProviderWizardStep::BaseUrl);
    assert!(w.error.is_none());
    w.base_url.buffer = "ftp://h".to_string();
    provider_add_key(&mut w, key(KeyCode::Enter), &c);
    assert_eq!(w.error.as_deref(), Some("unsupported URL scheme: ftp"));
    w.base_url.buffer = "http://h/v1/".to_string();
    provider_add_key(&mut w, key(KeyCode::Enter), &c);
    assert_eq!(w.step, ProviderWizardStep::ApiKey);
    provider_add_key(&mut w, key(KeyCode::Enter), &c);
    assert_eq!(w.step, ProviderWizardStep::Model);
    provider_add_key(&mut w, key(KeyCode::Enter), &c);
    assert_eq!(w.error.as_deref(), Some("model can't be empty"));
    w.model.buffer = "m".to_string();
    provider_add_key(&mut w, key(KeyCode::Enter), &c);
    assert_eq!(w.step, ProviderWizardStep::Confirm);
    match provider_add_key(&mut w, key(KeyCode::Enter), &c) {
        ProviderAddAction::Add(entry) => {
            assert_eq!(entry.name, "az");
            assert_eq!(entry.base_url, "http://h/v1");
            assert_eq!(entry.model, "m");
            assert_eq!(entry.api_key, None);
        }
        other => panic!("expected an add, got {other:?}"),
    }
    provider_add_key(&mut w, key(KeyCode::Esc), &c);
    assert_eq!(w.step, ProviderWizardStep::Model);
    let mut first = ProviderAddState::new();
    assert!(matches!(provider_add_key(&mut first, key(KeyCode::Esc), &c), ProviderAddAction::Close));
}

#[test]
fn after_saving_the_panel_selects_the_new_entry() {
    let mut c = config(None);
    c.providers.push(entry("new"));
    let mut view = ProvidersViewState::default();
    provider_added(&mut view, &c, "new");
    assert_eq!(view.selected, 3);
    assert_eq!(view.status_message, "new added — Enter to activate");
    let mut w = ProviderAddState::new();
    provider_add_failed(&mut w, "read-only");
    assert_eq!(w.error.as_deref(), Some("Failed to save config: read-only"));
}
