//! Keys for the `/providers` surfaces: the full-screen management panel
//! (navigate, activate, remove, add) and the add-wizard modal. Saving the
//! configuration is the app's part: a keystroke yields the change to make,
//! and the app reports back how saving went.

use vstd::prelude::*;
use crate::app::keys::{apply_text_key, inserts, is_text_key, text_key_effect, KeyPress};
use crate::app::list::KeyCode;
use crate::app::providers::{
    base_url_spec, name_check, provider_rows, rows_ok, validate_base_url, validate_name,
    wizard_entry_ok, ProviderAddState, ProviderRow, ProviderWizardStep, ProvidersViewState,
};
use crate::config::{Config, ProviderEntry};
use crate::text::{trim, trimmed, str_eq};

verus! {

/// What the app must do after a keystroke on the panel.
#[derive(Debug)]
pub enum ProvidersAction {
    Nothing,
    /// Leave the panel for the chat.
    CloseView,
    /// Open the add wizard.
    OpenAddWizard,
    /// Set `config.active_provider` to `active` (`None`: the built-in one),
    /// save, rebuild the provider, then call [`activation_saved`].
    Activate { name: String, active: Option<String> },
    /// Call [`remove_provider`] with `name`, save, rebuild the provider when
    /// `was_active`, then call [`removal_saved`].
    Remove { name: String, was_active: bool },
}

/// The last row index of the panel for `c`.
pub open spec fn last_row(c: Config) -> int {
    c.providers@.len() as int
}

/// The action names `name` (meaningful for the actions that carry one).
pub open spec fn action_name(a: ProvidersAction) -> Seq<char> {
    match a {
        ProvidersAction::Activate { name, active } => name@,
        ProvidersAction::Remove { name, was_active } => name@,
        _ => Seq::empty(),
    }
}

/// The effect of a keystroke on the panel, given its rows `rows` and the
/// selection clamped into them, `sel`.
pub open spec fn providers_key_ok(
    old: ProvidersViewState,
    rows: Seq<ProviderRow>,
    key: KeyPress,
    new: ProvidersViewState,
    a: ProvidersAction,
) -> bool {
    let sel = if old.selected < rows.len() - 1 { old.selected as int } else { rows.len() - 1 };
    let row = rows[sel];
    match key.code {
        KeyCode::Esc | KeyCode::Char('q') => a is CloseView && new.selected == sel && new.status_message
            == old.status_message,
        KeyCode::Up | KeyCode::Char('k') => a is Nothing && new.selected == (if sel > 0 { sel - 1 } else { 0 })
            && new.status_message == old.status_message,
        KeyCode::Down | KeyCode::Char('j') => a is Nothing && new.selected == (if sel < rows.len() - 1 {
            sel + 1
        } else {
            sel
        }) && new.status_message == old.status_message,
        KeyCode::Enter | KeyCode::Char(' ') => new.selected == sel && if row.active {
            a is Nothing && new.status_message@ == row.name@ + " is already active"@
        } else {
            &&& new.status_message == old.status_message
            &&& a matches ProvidersAction::Activate { name, active }
            &&& name@ == row.name@
            &&& (row.builtin ==> active is None)
            &&& (!row.builtin ==> (active is Some && active->0@ == row.name@))
        },
        KeyCode::Char('d') => new.selected == sel && if row.builtin {
            a is Nothing && new.status_message@ == "The built-in DeepSeek provider can't be removed"@
        } else {
            &&& new.status_message == old.status_message
            &&& a matches ProvidersAction::Remove { name, was_active }
            &&& name@ == row.name@
            &&& was_active == row.active
        },
        KeyCode::Char('a') => a is OpenAddWizard && new.selected == sel && new.status_message
            == old.status_message,
        _ => a is Nothing && new.selected == sel && new.status_message == old.status_message,
    }
}

/// Key handling for the provider panel.
pub fn providers_key(view: &mut ProvidersViewState, config: &Config, key: KeyPress) -> (a: ProvidersAction)
    ensures
        exists|rows: Seq<ProviderRow>|
            #![trigger rows_ok(*config, rows)]
            rows_ok(*config, rows) && providers_key_ok(*old(view), rows, key, *final(view), a),
{
    let rows = provider_rows(config);
    let ghost rs = rows@;
    let max = rows.len() - 1;
    view.selected = if view.selected < max { view.selected } else { max };
    let sel = view.selected;
    let a = match key.code {
        KeyCode::Esc | KeyCode::Char('q') => ProvidersAction::CloseView,
        KeyCode::Up | KeyCode::Char('k') => {
            view.selected = if sel > 0 { sel - 1 } else { 0 };
            ProvidersAction::Nothing
        },
        KeyCode::Down | KeyCode::Char('j') => {
            view.selected = if sel < max { sel + 1 } else { sel };
            ProvidersAction::Nothing
        },
        KeyCode::Enter | KeyCode::Char(' ') => {
            let row = &rows[sel];
            if row.active {
                let mut m = row.name.clone();
                m.append(" is already active");
                view.status_message = m;
                ProvidersAction::Nothing
            } else {
                let active = if row.builtin { None } else { Some(row.name.clone()) };
                ProvidersAction::Activate { name: row.name.clone(), active }
            }
        },
        KeyCode::Char('d') => {
            let row = &rows[sel];
            if row.builtin {
                view.status_message = "The built-in DeepSeek provider can't be removed".to_owned();
                ProvidersAction::Nothing
            } else {
                ProvidersAction::Remove { name: row.name.clone(), was_active: row.active }
            }
        },
        KeyCode::Char('a') => ProvidersAction::OpenAddWizard,
        _ => ProvidersAction::Nothing,
    };
    assert(rows_ok(*config, rs));
    a
}

/// The status after [`ProvidersAction::Activate`]: saved and usable, saved
/// but with no usable provider, or not saved.
pub open spec fn activation_status(name: Seq<char>, saved: Result<bool, Seq<char>>) -> Seq<char> {
    match saved {
        Ok(true) => name + " is now active"@,
        Ok(false) => name + " selected, but no usable provider (check token/URL)"@,
        Err(e) => "Failed to save config: "@ + e,
    }
}

/// Report how activating `name` went: `saved` is whether the config was
/// saved, and if so whether the rebuilt provider is usable.
pub fn activation_saved(view: &mut ProvidersViewState, name: &str, saved: Result<bool, String>)
    ensures
        final(view).selected == old(view).selected,
        final(view).status_message@ == activation_status(
            name@,
            match saved {
                Ok(b) => Ok(b),
                Err(e) => Err(e@),
            },
        ),
{
    let mut m = String::new();
    match saved {
        Ok(true) => {
            m.append(name);
            m.append(" is now active");
        },
        Ok(false) => {
            m.append(name);
            m.append(" selected, but no usable provider (check token/URL)");
        },
        Err(e) => {
            m.append("Failed to save config: ");
            m.append(e.as_str());
        },
    }
    view.status_message = m;
}

/// The entries of `ps` not named `name`, in order.
pub open spec fn without_named(ps: Seq<ProviderEntry>, name: Seq<char>) -> Seq<ProviderEntry> {
    ps.filter(|e: ProviderEntry| e.name@ != name)
}

/// Drop every entry named `name`; when it was the active one, fall back to
/// the built-in provider.
pub fn remove_provider(config: &mut Config, name: &str, was_active: bool)
    ensures
        final(config).providers@ == without_named(old(config).providers@, name@),
        final(config).active_provider == if was_active {
            None
        } else {
            old(config).active_provider
        },
        final(config).provider == old(config).provider,
{
    let mut kept: Vec<ProviderEntry> = Vec::new();
    let n = config.providers.len();
    let mut i: usize = 0;
    while i < n
        invariant
            i <= n == config.providers@.len(),
            kept@ == config.providers@.take(i as int).filter(|e: ProviderEntry| e.name@ != name@),
        decreases n - i,
    {
        proof {
            assert(config.providers@.take(i + 1).drop_last() == config.providers@.take(i as int));
            reveal(Seq::filter);
        }
        if !str_eq(config.providers[i].name.as_str(), name) {
            kept.push(config.providers[i].duplicate());
        }
        i += 1;
    }
    assert(config.providers@.take(n as int) == config.providers@);
    config.providers = kept;
    if was_active {
        config.active_provider = None;
    }
}

/// The status after [`ProvidersAction::Remove`].
pub open spec fn removal_status(name: Seq<char>, was_active: bool, saved: Result<(), Seq<char>>) -> Seq<char> {
    match saved {
        Ok(()) => name + " removed"@ + if was_active {
            " \u{2014} back on deepseek"@
        } else {
            Seq::empty()
        },
        Err(e) => "Failed to save config: "@ + e,
    }
}

/// Report how removing `name` went, and pull the selection back into the
/// panel's rows for the updated `config`.
pub fn removal_saved(
    view: &mut ProvidersViewState,
    config: &Config,
    name: &str,
    was_active: bool,
    saved: Result<(), String>,
)
    ensures
        final(view).status_message@ == removal_status(
            name@,
            was_active,
            match saved {
                Ok(()) => Ok(()),
                Err(e) => Err(e@),
            },
        ),
        final(view).selected == if old(view).selected < config.providers@.len() {
            old(view).selected as int
        } else {
            config.providers@.len() as int
        },
{
    let mut m = String::new();
    match saved {
        Ok(()) => {
            m.append(name);
            m.append(" removed");
            if was_active {
                m.append(" \u{2014} back on deepseek");
            }
        },
        Err(e) => {
            m.append("Failed to save config: ");
            m.append(e.as_str());
        },
    }
    view.status_message = m;
    let max = config.providers.len();
    view.selected = if view.selected < max { view.selected } else { max };
}

// ─────────────────────────── the add wizard ───────────────────────────

/// What the app must do after a keystroke in the add wizard.
#[derive(Debug)]
pub enum ProviderAddAction {
    Nothing,
    /// Close the wizard.
    Close,
    /// Append `entry` to the config and save; on success call
    /// [`provider_added`] and close the wizard, on failure drop the entry
    /// again and call [`provider_add_failed`].
    Add(ProviderEntry),
}

/// The step before `s` (the name step has none).
pub open spec fn provider_step_back(s: ProviderWizardStep) -> ProviderWizardStep {
    match s {
        ProviderWizardStep::Name => ProviderWizardStep::Name,
        ProviderWizardStep::BaseUrl => ProviderWizardStep::Name,
        ProviderWizardStep::ApiKey => ProviderWizardStep::BaseUrl,
        ProviderWizardStep::Model => ProviderWizardStep::ApiKey,
        ProviderWizardStep::Confirm => ProviderWizardStep::Model,
    }
}

/// `b` holds the same typed fields as `a`.
pub open spec fn same_fields(a: ProviderAddState, b: ProviderAddState) -> bool {
    &&& b.name@ == a.name@
    &&& b.base_url@ == a.base_url@
    &&& b.api_key@ == a.api_key@
    &&& b.model@ == a.model@
}

/// `b` is `a` at step `s` with no error.
pub open spec fn moved_to(a: ProviderAddState, b: ProviderAddState, s: ProviderWizardStep) -> bool {
    same_fields(a, b) && b.step == s && b.error is None
}

/// `b` is `a` on the same step showing error `e`.
pub open spec fn failed_with(a: ProviderAddState, b: ProviderAddState, e: Seq<char>) -> bool {
    same_fields(a, b) && b.step == a.step && b.error is Some && b.error->0@ == e
}

/// Whether typing into the current step's field cannot overflow its cursor.
pub open spec fn provider_key_fits(w: ProviderAddState, key: KeyPress) -> bool {
    inserts(key, false) ==> match w.step {
        ProviderWizardStep::Name => w.name@.without_selection().cursor < usize::MAX,
        ProviderWizardStep::BaseUrl => w.base_url@.without_selection().cursor < usize::MAX,
        ProviderWizardStep::ApiKey => w.api_key@.without_selection().cursor < usize::MAX,
        ProviderWizardStep::Model => w.model@.without_selection().cursor < usize::MAX,
        ProviderWizardStep::Confirm => true,
    }
}

/// The wizard after the keystroke typed into its current field.
pub open spec fn typed(a: ProviderAddState, key: KeyPress, b: ProviderAddState) -> bool {
    &&& b.step == a.step
    &&& b.error == a.error
    &&& b.name@ == (if a.step == ProviderWizardStep::Name { text_key_effect(a.name@, key, false) } else { a.name@ })
    &&& b.base_url@ == (if a.step == ProviderWizardStep::BaseUrl {
        text_key_effect(a.base_url@, key, false)
    } else {
        a.base_url@
    })
    &&& b.api_key@ == (if a.step == ProviderWizardStep::ApiKey {
        text_key_effect(a.api_key@, key, false)
    } else {
        a.api_key@
    })
    &&& b.model@ == (if a.step == ProviderWizardStep::Model { text_key_effect(a.model@, key, false) } else { a.model@ })
}

/// The effect of a keystroke on the add wizard `a`, leaving `b` on screen
/// (when the wizard stays open) and asking the app for `act`.
pub open spec fn provider_add_key_ok(
    a: ProviderAddState,
    key: KeyPress,
    ps: Seq<ProviderEntry>,
    b: ProviderAddState,
    act: ProviderAddAction,
) -> bool {
    if a.step != ProviderWizardStep::Confirm && is_text_key(key, false) {
        act is Nothing && typed(a, key, b)
    } else {
        match key.code {
            KeyCode::Esc => if a.step == ProviderWizardStep::Name {
                act is Close
            } else {
                act is Nothing && moved_to(a, b, provider_step_back(a.step))
            },
            KeyCode::Enter => match a.step {
                ProviderWizardStep::Name => act is Nothing && match name_check(trim(a.name@.buffer), ps) {
                    Ok(()) => moved_to(a, b, ProviderWizardStep::BaseUrl),
                    Err(e) => failed_with(a, b, e),
                },
                ProviderWizardStep::BaseUrl => act is Nothing && match base_url_spec(
                    trim(a.base_url@.buffer),
                ) {
                    Ok(_) => moved_to(a, b, ProviderWizardStep::ApiKey),
                    Err(e) => failed_with(a, b, e),
                },
                ProviderWizardStep::ApiKey => act is Nothing && moved_to(a, b, ProviderWizardStep::Model),
                ProviderWizardStep::Model => act is Nothing && if trim(a.model@.buffer).len() == 0 {
                    failed_with(a, b, "model can't be empty"@)
                } else {
                    moved_to(a, b, ProviderWizardStep::Confirm)
                },
                ProviderWizardStep::Confirm => exists|r: Result<ProviderEntry, String>|
                    #![trigger wizard_entry_ok(a.name@.buffer, a.base_url@.buffer, a.api_key@.buffer, a.model@.buffer, ps, r)]
                    wizard_entry_ok(
                        a.name@.buffer,
                        a.base_url@.buffer,
                        a.api_key@.buffer,
                        a.model@.buffer,
                        ps,
                        r,
                    ) && match r {
                        Ok(entry) => act == ProviderAddAction::Add(entry) && same_fields(a, b) && b.step
                            == a.step && b.error == a.error,
                        Err(e) => act is Nothing && failed_with(a, b, e@),
                    },
            },
            _ => act is Nothing && same_fields(a, b) && b.step == a.step && b.error == a.error,
        }
    }
}

/// Key handling for the `/providers add` wizard. Text steps take the editing
/// keys (single-line: plain Enter always advances); Esc steps back, and from
/// the first step closes the wizard.
pub fn provider_add_key(wizard: &mut ProviderAddState, key: KeyPress, config: &Config) -> (act: ProviderAddAction)
    requires
        provider_key_fits(*old(wizard), key),
    ensures
        provider_add_key_ok(*old(wizard), key, config.providers@, *final(wizard), act),
{
    let handled = match wizard.step {
        ProviderWizardStep::Name => apply_text_key(&mut wizard.name, key, false),
        ProviderWizardStep::BaseUrl => apply_text_key(&mut wizard.base_url, key, false),
        ProviderWizardStep::ApiKey => apply_text_key(&mut wizard.api_key, key, false),
        ProviderWizardStep::Model => apply_text_key(&mut wizard.model, key, false),
        ProviderWizardStep::Confirm => false,
    };
    if handled {
        return ProviderAddAction::Nothing;
    }
    match key.code {
        KeyCode::Esc => {
            match wizard.step {
                ProviderWizardStep::Name => {
                    return ProviderAddAction::Close;
                },
                ProviderWizardStep::BaseUrl => wizard.step = ProviderWizardStep::Name,
                ProviderWizardStep::ApiKey => wizard.step = ProviderWizardStep::BaseUrl,
                ProviderWizardStep::Model => wizard.step = ProviderWizardStep::ApiKey,
                ProviderWizardStep::Confirm => wizard.step = ProviderWizardStep::Model,
            }
            wizard.error = None;
            ProviderAddAction::Nothing
        },
        KeyCode::Enter => {
            match wizard.step {
                ProviderWizardStep::Name => {
                    let name = trimmed(wizard.name.buffer.as_str());
                    match validate_name(name.as_str(), config) {
                        Ok(()) => {
                            wizard.error = None;
                            wizard.step = ProviderWizardStep::BaseUrl;
                        },
                        Err(e) => wizard.error = Some(e),
                    }
                    ProviderAddAction::Nothing
                },
                ProviderWizardStep::BaseUrl => {
                    let url = trimmed(wizard.base_url.buffer.as_str());
                    match validate_base_url(url.as_str()) {
                        Ok(_) => {
                            wizard.error = None;
                            wizard.step = ProviderWizardStep::ApiKey;
                        },
                        Err(e) => wizard.error = Some(e),
                    }
                    ProviderAddAction::Nothing
                },
                ProviderWizardStep::ApiKey => {
                    wizard.error = None;
                    wizard.step = ProviderWizardStep::Model;
                    ProviderAddAction::Nothing
                },
                ProviderWizardStep::Model => {
                    let model = trimmed(wizard.model.buffer.as_str());
                    if model.as_str().unicode_len() == 0 {
                        wizard.error = Some("model can't be empty".to_owned());
                    } else {
                        wizard.error = None;
                        wizard.step = ProviderWizardStep::Confirm;
                    }
                    ProviderAddAction::Nothing
                },
                ProviderWizardStep::Confirm => {
                    let built = wizard.build_entry(config);
                    let ghost r = built;
                    let ghost before = *wizard;
                    match built {
                        Ok(entry) => {
                            assert(wizard_entry_ok(before.name@.buffer, before.base_url@.buffer, before.api_key@.buffer, before.model@.buffer, config.providers@, r));
                            ProviderAddAction::Add(entry)
                        },
                        Err(e) => {
                            wizard.error = Some(e);
                            assert(wizard_entry_ok(before.name@.buffer, before.base_url@.buffer, before.api_key@.buffer, before.model@.buffer, config.providers@, r));
                            ProviderAddAction::Nothing
                        },
                    }
                },
            }
        },
        _ => ProviderAddAction::Nothing,
    }
}

/// The status once an entry named `name` was added and saved.
pub open spec fn added_status(name: Seq<char>) -> Seq<char> {
    name + " added \u{2014} Enter to activate"@
}

/// After the new entry was saved: land on the panel with it selected, one
/// Enter away from active.
pub fn provider_added(view: &mut ProvidersViewState, config: &Config, name: &str)
    ensures
        final(view).selected == config.providers@.len(),
        final(view).status_message@ == added_status(name@),
{
    view.selected = config.providers.len();
    let mut m = name.to_owned();
    m.append(" added \u{2014} Enter to activate");
    view.status_message = m;
}

/// After saving the new entry failed.
pub fn provider_add_failed(wizard: &mut ProviderAddState, error: &str)
    ensures
        failed_with(*old(wizard), *final(wizard), "Failed to save config: "@ + error@),
{
    let mut m = "Failed to save config: ".to_owned();
    m.append(error);
    wizard.error = Some(m);
}

/// The wizard hands over an entry only from the confirm step, and only one
/// that passed every check: a free name, an http(s) base URL, a model.
pub proof fn lemma_added_entries_are_valid(
    a: ProviderAddState,
    key: KeyPress,
    ps: Seq<ProviderEntry>,
    b: ProviderAddState,
    entry: ProviderEntry,
)
    requires
        provider_add_key_ok(a, key, ps, b, ProviderAddAction::Add(entry)),
    ensures
        a.step == ProviderWizardStep::Confirm,
        key.code == KeyCode::Enter,
        name_check(entry.name@, ps) is Ok,
        entry.model@.len() > 0,
{
}

} // verus!
