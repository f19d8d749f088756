use pooprusteek::app::keys::dispatch::{
    auto_update_status, auto_update_switch_note, provider_added_note, provider_quick_add_failed_note,
    rag_reload_note, rag_switch_note, sub_agent_label, theme_applied_note, theme_known, unknown_theme_note,
};

#[test]
fn sub_agents_are_labelled_by_their_prompt_head() {
    assert_eq!(sub_agent_label("short task"), "short task");
    let long = "é".repeat(50);
    assert_eq!(sub_agent_label(&long), "é".repeat(40));
}

#[test]
fn provider_notes() {
    assert_eq!(
        provider_added_note("groq"),
        "Provider 'groq' added. Open /providers and press Enter on it to activate."
    );
    assert_eq!(
        provider_quick_add_failed_note("x y", "bad url"),
        "Couldn't parse \"/providers add x y\" (bad url) \u{2014} opening the wizard:"
    );
}

#[test]
fn theme_notes_and_lookup() {
    let presets = vec!["dark".to_string(), "light".to_string()];
    let custom = vec!["mine".to_string()];
    assert!(theme_known("light", &presets, &custom));
    assert!(theme_known("mine", &presets, &custom));
    assert!(!theme_known("neon", &presets, &custom));
    assert_eq!(theme_applied_note("applied dark"), "Theme: applied dark.");
    let all = vec!["dark".to_string(), "light".to_string(), "mine".to_string()];
    assert_eq!(
        unknown_theme_note("neon", &all),
        "Unknown theme 'neon'. Available: dark, light, mine — or /themes to browse with live preview."
    );
}

#[test]
fn rag_and_update_notes() {
    assert_eq!(rag_switch_note(true, true), "RAG enabled.");
    assert!(rag_switch_note(true, false).starts_with("RAG enabled — initializing"));
    assert!(rag_switch_note(false, true).starts_with("RAG disabled:"));
    assert_eq!(rag_reload_note(false, false), "RAG is disabled — run /rag on first.");
    assert!(rag_reload_note(true, false).starts_with("RAG is already initializing"));
    assert!(rag_reload_note(true, true).starts_with("RAG reloading:"));
    assert_eq!(auto_update_switch_note(false), "Auto-update disabled. /update still works manually.");
    assert!(auto_update_switch_note(true).starts_with("Auto-update enabled"));
    assert!(auto_update_status(true).starts_with("Auto-update on startup: on.\nWhen on,"));
    assert!(auto_update_status(false).ends_with("/update — check and install right now"));
}
