use pooprusteek::app::providers::{
    check_parsed_base_url, parse_quick_add, provider_rows, validate_base_url, validate_name,
    ProviderAddState, ProviderWizardStep, ProvidersViewState,
};
use pooprusteek::config::{Config, ProviderEntry};

fn config_with(entries: Vec<ProviderEntry>, active: Option<&str>) -> Config {
    let mut config = Config::default();
    config.providers = entries;
    config.active_provider = active.map(str::to_string);
    config
}

fn entry(name: &str) -> ProviderEntry {
    ProviderEntry {
        name: name.to_string(),
        base_url: "http://localhost:1234/v1".to_string(),
        api_key: None,
        model: "default".to_string(),
    }
}

#[test]
fn rows_mark_builtin_active_by_default() {
    let rows = provider_rows(&config_with(vec![entry("lmstudio")], None));
    assert_eq!(rows.len(), 2);
    assert!(rows[0].builtin && rows[0].active);
    assert!(!rows[1].builtin && !rows[1].active);
}

#[test]
fn rows_mark_custom_active() {
    let rows = provider_rows(&config_with(vec![entry("lmstudio")], Some("lmstudio")));
    assert!(!rows[0].active);
    assert!(rows[1].active);
}

#[test]
fn stale_active_name_falls_back_to_builtin() {
    let rows = provider_rows(&config_with(vec![entry("lmstudio")], Some("gone")));
    assert!(rows[0].active, "unknown active name must fall back to the built-in provider");
}

#[test]
fn quick_add_minimal_form() {
    let parsed = parse_quick_add("ollama http://localhost:11434/v1 llama3", &Config::default()).unwrap();
    assert_eq!(parsed.name, "ollama");
    assert_eq!(parsed.base_url, "http://localhost:11434/v1");
    assert_eq!(parsed.model, "llama3");
    assert_eq!(parsed.api_key, None);
}

#[test]
fn quick_add_defaults_model_and_trims_trailing_slash() {
    let parsed = parse_quick_add("lmstudio http://localhost:1234/v1/", &Config::default()).unwrap();
    assert_eq!(parsed.model, "default");
    assert_eq!(parsed.base_url, "http://localhost:1234/v1");
}

#[test]
fn quick_add_rejects_reserved_duplicate_and_bad_urls() {
    let config = config_with(vec![entry("lmstudio")], None);
    assert!(parse_quick_add("deepseek http://x/v1", &config).is_err());
    assert!(parse_quick_add("lmstudio http://x/v1", &config).is_err());
    assert!(parse_quick_add("new not-a-url", &config).is_err());
    assert!(parse_quick_add("new ftp://host/v1", &config).is_err());
    assert!(parse_quick_add("toomany http://x/v1 model key extra", &config).is_err());
}

#[test]
fn wizard_builds_entry_with_optional_key() {
    let mut wizard = ProviderAddState::new();
    wizard.name.buffer = "vllm".to_string();
    wizard.base_url.buffer = "https://gpu-box:8000/v1/".to_string();
    wizard.model.buffer = "qwen".to_string();
    let entry = wizard.build_entry(&Config::default()).unwrap();
    assert_eq!(entry.base_url, "https://gpu-box:8000/v1");
    assert_eq!(entry.api_key, None);

    wizard.api_key.buffer = "sk-123".to_string();
    let entry = wizard.build_entry(&Config::default()).unwrap();
    assert_eq!(entry.api_key.as_deref(), Some("sk-123"));
}

#[test]
fn wizard_rejects_empty_model() {
    let mut wizard = ProviderAddState::new();
    wizard.name.buffer = "x".to_string();
    wizard.base_url.buffer = "http://h/v1".to_string();
    assert!(wizard.build_entry(&Config::default()).is_err());
}

// ── further cases ──

#[test]
fn row_details_describe_each_provider() {
    let mut config = config_with(vec![entry("lmstudio")], None);
    config.provider.model = "deepseek-chat".to_string();
    config.providers[0].api_key = Some("k".to_string());
    let rows = provider_rows(&config);
    assert_eq!(rows[0].name, "deepseek");
    assert_eq!(rows[0].detail, "built-in DeepSeek web · deepseek-chat · no token");
    assert_eq!(rows[1].detail, "http://localhost:1234/v1 · default · key set");
    config.provider.token = "t".to_string();
    assert_eq!(provider_rows(&config)[0].detail, "built-in DeepSeek web · deepseek-chat · token set");
}

#[test]
fn exactly_one_row_is_active() {
    let config = config_with(vec![entry("a"), entry("b"), entry("c")], Some("b"));
    let rows = provider_rows(&config);
    assert_eq!(rows.iter().filter(|r| r.active).count(), 1);
    assert!(rows[2].active);
}

#[test]
fn name_errors_read_exactly() {
    let config = config_with(vec![entry("lmstudio")], None);
    assert_eq!(validate_name("", &config).unwrap_err(), "name can't be empty");
    assert_eq!(validate_name("deepseek", &config).unwrap_err(), "'deepseek' is the built-in provider");
    assert_eq!(validate_name("lmstudio", &config).unwrap_err(), "'lmstudio' already exists");
    assert!(validate_name("fresh", &config).is_ok());
}

#[test]
fn base_url_checks_read_exactly() {
    assert_eq!(validate_base_url("").unwrap_err(), "base URL can't be empty");
    assert_eq!(validate_base_url("ftp://host/v1").unwrap_err(), "unsupported URL scheme: ftp");
    assert!(validate_base_url("not-a-url").unwrap_err().starts_with("invalid URL: "));
    assert_eq!(validate_base_url("https://h/v1///").unwrap(), "https://h/v1");
}

#[test]
fn a_parsed_url_is_judged_by_its_scheme_alone() {
    assert_eq!(check_parsed_base_url("http://x/", Ok("http".to_string())).unwrap(), "http://x");
    assert_eq!(
        check_parsed_base_url("x", Ok("file".to_string())).unwrap_err(),
        "unsupported URL scheme: file"
    );
    assert_eq!(
        check_parsed_base_url("x", Err("relative URL without a base".to_string())).unwrap_err(),
        "invalid URL: relative URL without a base"
    );
}

#[test]
fn quick_add_takes_an_optional_key_and_counts_arguments() {
    let parsed = parse_quick_add("p http://h/v1 m sk", &Config::default()).unwrap();
    assert_eq!(parsed.api_key.as_deref(), Some("sk"));
    assert_eq!(parsed.model, "m");
    assert_eq!(
        parse_quick_add("", &Config::default()).unwrap_err(),
        "expected: <name> <base_url> [model] [api_key]"
    );
    assert_eq!(
        parse_quick_add("only", &Config::default()).unwrap_err(),
        "expected a base URL after the name"
    );
}

#[test]
fn wizard_steps_number_one_to_five() {
    let steps = [
        ProviderWizardStep::Name,
        ProviderWizardStep::BaseUrl,
        ProviderWizardStep::ApiKey,
        ProviderWizardStep::Model,
        ProviderWizardStep::Confirm,
    ];
    for (i, step) in steps.iter().enumerate() {
        assert_eq!(step.number(), i + 1);
    }
    assert_eq!(ProviderWizardStep::ApiKey.label(), "API key (blank = none)");
    let view = ProvidersViewState::default();
    assert_eq!(view.selected, 0);
    assert!(view.status_message.is_empty());
}

#[test]
fn reopening_the_panel_starts_on_the_first_row_without_status() {
    let mut view = ProvidersViewState { selected: 3, status_message: "saved".to_string() };
    view.reopen();
    assert_eq!(view.selected, 0);
    assert!(view.status_message.is_empty());
}
