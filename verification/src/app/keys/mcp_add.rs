//! Keys of the `/mcp add` modal: the method-choice screen, the JSON paste
//! box and the step-by-step wizard. Each text-entry step takes the common
//! editing keys and adds its own Enter/Esc transition on top.
//!
//! One decision needs the outside world: whether a server name is taken
//! (the app asks the MCP manager, then calls [`wizard_name_checked`]).

use vstd::prelude::*;
use crate::app::input::InputState;
use crate::app::keys::{apply_text_key, inserts, is_text_key, text_key_effect, KeyPress};
use crate::app::list::KeyCode;
use crate::app::mcp_add::{
    entry_models, entries_result, env_lines_spec, header_lines_spec, input_blank, parse_env_lines,
    parse_header_lines, parse_pasted_json, pasted_json_spec,
    split_command_line, wizard_config_ok, McpAddState, TransportChoice, WizardState, WizardStep,
};
use crate::app::providers::{parse_url_scheme, url_scheme_of};
use crate::mcp::{ConfigModel, MCPServerConfig};
use crate::text::{decimal, push_decimal, trim, trimmed, words};

verus! {

/// What the app must do after a keystroke in the modal.
#[derive(Debug)]
pub enum McpAddAction {
    /// Nothing beyond showing the new modal state.
    Nothing,
    /// Ask the MCP manager whether a server of this name exists, then call
    /// [`wizard_name_checked`].
    CheckName(String),
    /// Announce `announce` in the chat and add these servers.
    Add { entries: Vec<(String, MCPServerConfig)>, announce: String },
}

/// The modal after a keystroke (`None`: closed) and what the app must do.
#[derive(Debug)]
pub struct McpAddStep {
    pub modal: Option<McpAddState>,
    pub action: McpAddAction,
}

/// The transport the wizard's list offers at row `i`.
pub open spec fn transport_at(i: int) -> TransportChoice {
    if i == 0 {
        TransportChoice::Stdio
    } else if i == 1 {
        TransportChoice::Http
    } else {
        TransportChoice::Sse
    }
}

/// The step before `s` (the name step has none).
pub open spec fn step_back(s: WizardStep) -> WizardStep {
    match s {
        WizardStep::Name => WizardStep::Name,
        WizardStep::Transport => WizardStep::Name,
        WizardStep::Primary => WizardStep::Transport,
        WizardStep::Extra => WizardStep::Primary,
        WizardStep::Confirm => WizardStep::Extra,
    }
}

/// The text field a wizard step edits, and whether it takes newlines.
pub open spec fn step_field(w: WizardState) -> Option<(InputState, bool)> {
    match w.step {
        WizardStep::Name => Some((w.name, false)),
        WizardStep::Primary => Some((w.primary, false)),
        WizardStep::Extra => Some((w.extra, true)),
        _ => None,
    }
}

/// `b` is `a` with only the step and the error changed.
pub open spec fn wizard_moved(a: WizardState, b: WizardState) -> bool {
    &&& b.name@ == a.name@
    &&& b.primary@ == a.primary@
    &&& b.extra@ == a.extra@
    &&& b.transport_selected == a.transport_selected
    &&& b.transport == a.transport
}

/// `b` is `a` with the error cleared and the step set to `s`.
pub open spec fn wizard_to(a: WizardState, b: WizardState, s: WizardStep) -> bool {
    &&& wizard_moved(a, b)
    &&& b.step == s
    &&& b.error is None
}

/// `b` is `a` on the same step, now showing error `e`.
pub open spec fn wizard_err(a: WizardState, b: WizardState, e: Seq<char>) -> bool {
    &&& wizard_moved(a, b)
    &&& b.step == a.step
    &&& b.error matches Some(m) && m@ == e
}

/// Whether the primary value `v` of transport `t` is acceptable: a command
/// line with a command for stdio, a parseable URL otherwise. The error when
/// it is not.
pub open spec fn primary_check(t: Option<TransportChoice>, v: Seq<char>) -> Option<Seq<char>> {
    match t {
        Some(TransportChoice::Stdio) => if words(trim(v)).len() == 0 {
            Some("command is empty"@)
        } else {
            None
        },
        _ => if trim(v).len() == 0 {
            Some("URL can't be empty"@)
        } else {
            match url_scheme_of(trim(v)) {
                Ok(_) => None,
                Err(e) => Some("invalid URL: "@ + e),
            }
        },
    }
}

/// Whether the extra value (env vars or headers) parses; the error if not.
pub open spec fn extra_check(t: Option<TransportChoice>, v: Seq<char>) -> Option<Seq<char>> {
    match t {
        Some(TransportChoice::Stdio) => match env_lines_spec(v) {
            Ok(_) => None,
            Err(e) => Some(e),
        },
        _ => match header_lines_spec(v) {
            Ok(_) => None,
            Err(e) => Some(e),
        },
    }
}

/// Whether the modal can take the keystroke: no counter or index overflows,
/// and the transport row picked is one of the three.
pub open spec fn key_fits(state: McpAddState, key: KeyPress) -> bool {
    match state {
        McpAddState::ChooseMethod { selected } => (key.code == KeyCode::Down || key.code
            == KeyCode::Char('j')) ==> selected < usize::MAX,
        McpAddState::PasteJson { input, error } => inserts(key, true) ==> input@.without_selection().cursor
            < usize::MAX,
        McpAddState::Wizard(w) => {
            &&& field_fits(*w, key)
            &&& w.step == WizardStep::Transport && key.code == KeyCode::Enter ==> w.transport_selected
                <= 2
            &&& w.step == WizardStep::Transport && (key.code == KeyCode::Down || key.code
                == KeyCode::Char('j')) ==> w.transport_selected < usize::MAX
        },
    }
}

/// Typing into the step's field cannot overflow its cursor.
pub open spec fn field_fits(w: WizardState, key: KeyPress) -> bool {
    match step_field(w) {
        Some((f, nl)) => inserts(key, nl) ==> f@.without_selection().cursor < usize::MAX,
        None => true,
    }
}

/// The wizard the modal shows, if it shows one.
pub open spec fn shown_wizard(step: McpAddStep) -> Option<WizardState> {
    match step.modal {
        Some(McpAddState::Wizard(w)) => Some(*w),
        _ => None,
    }
}

/// The paste box the modal shows (its input and error), if it shows one.
pub open spec fn shown_paste(step: McpAddStep) -> Option<(InputState, Option<String>)> {
    match step.modal {
        Some(McpAddState::PasteJson { input, error }) => Some((input, error)),
        _ => None,
    }
}

/// The paste box's input (meaningful when the modal shows the paste box).
pub open spec fn paste_input(step: McpAddStep) -> InputState {
    match step.modal {
        Some(McpAddState::PasteJson { input, error }) => input,
        _ => arbitrary(),
    }
}

/// The paste box's error (meaningful when the modal shows the paste box).
pub open spec fn paste_error(step: McpAddStep) -> Option<String> {
    match step.modal {
        Some(McpAddState::PasteJson { input, error }) => error,
        _ => None,
    }
}

/// `a` asks for the name check of `name`.
pub open spec fn asks_name_check(a: McpAddAction, name: Seq<char>) -> bool {
    match a {
        McpAddAction::CheckName(n) => n@ == name,
        _ => false,
    }
}

/// `a` adds servers whose models are `entries`, announced as `announce`.
pub open spec fn adds_models(a: McpAddAction, entries: Seq<(Seq<char>, ConfigModel)>, announce: Seq<char>) -> bool {
    match a {
        McpAddAction::Add { entries: e, announce: an } => entry_models(e@) == entries && an@ == announce,
        _ => false,
    }
}

/// `a` adds exactly `entries`, announced as `announce`.
pub open spec fn adds(a: McpAddAction, entries: Seq<(String, MCPServerConfig)>, announce: Seq<char>) -> bool {
    match a {
        McpAddAction::Add { entries: e, announce: an } => e@ == entries && an@ == announce,
        _ => false,
    }
}

/// The effect of a keystroke on the method-choice screen.
pub open spec fn choose_method_ok(selected: usize, key: KeyPress, step: McpAddStep) -> bool {
    match key.code {
        KeyCode::Esc => step.modal is None && step.action is Nothing,
        KeyCode::Up | KeyCode::Char('k') => step.action is Nothing && step.modal == Some(
            McpAddState::ChooseMethod { selected: if selected > 0 { (selected - 1) as usize } else { 0 } },
        ),
        KeyCode::Down | KeyCode::Char('j') => step.action is Nothing && step.modal == Some(
            McpAddState::ChooseMethod { selected: if selected < 1 { (selected + 1) as usize } else { 1 } },
        ),
        KeyCode::Enter => step.action is Nothing && if selected == 0 {
            &&& shown_paste(step) is Some
            &&& input_blank(paste_input(step))
            &&& paste_error(step) is None
        } else {
            &&& shown_wizard(step) is Some
            &&& wizard_fresh(shown_wizard(step)->0)
        },
        _ => step.action is Nothing && step.modal == Some(McpAddState::ChooseMethod { selected }),
    }
}

/// A wizard at its first step with nothing entered.
pub open spec fn wizard_fresh(w: WizardState) -> bool {
    &&& w.step == WizardStep::Name
    &&& input_blank(w.name)
    &&& w.transport_selected == 0
    &&& w.transport is None
    &&& input_blank(w.primary)
    &&& input_blank(w.extra)
    &&& w.error is None
}

/// The modal shows the paste box with input `input` and error `error`.
pub open spec fn shows_paste(step: McpAddStep, input: crate::app::input::InputModel, error: Option<String>) -> bool {
    &&& shown_paste(step) is Some
    &&& paste_input(step)@ == input
    &&& paste_error(step) == error
}

/// The effect of a keystroke on the paste box.
pub open spec fn paste_ok(input: InputState, error: Option<String>, key: KeyPress, step: McpAddStep) -> bool {
    if is_text_key(key, true) {
        step.action is Nothing && shows_paste(step, text_key_effect(input@, key, true), error)
    } else {
        match key.code {
            KeyCode::Esc => step.action is Nothing && step.modal == Some(
                McpAddState::ChooseMethod { selected: 0 },
            ),
            KeyCode::Enter => match pasted_json_spec(input@.buffer) {
                Ok(es) => step.modal is None && adds_models(step.action, es, adding_servers_text(es.len())),
                Err(e) => step.action is Nothing && shown_paste(step) is Some && paste_input(step)@ == input@
                    && (paste_error(step) matches Some(m) && m@ == e),
            },
            _ => step.action is Nothing && shows_paste(step, input@, error),
        }
    }
}

/// `b` is `a` with the same step and error.
pub open spec fn wizard_kept(a: WizardState, b: WizardState) -> bool {
    &&& wizard_moved(a, b)
    &&& b.step == a.step
    &&& b.error == a.error
}

/// The effect of Enter on a wizard step (the name step only asks for the
/// name check here).
pub open spec fn wizard_enter_ok(w: WizardState, step: McpAddStep) -> bool {
    let w2 = shown_wizard(step)->0;
    match w.step {
        WizardStep::Name => {
            let name = trim(w.name@.buffer);
            if name.len() == 0 {
                step.action is Nothing && shown_wizard(step) is Some && wizard_err(w, w2, "name can't be empty"@)
            } else {
                asks_name_check(step.action, name) && shown_wizard(step) is Some && wizard_kept(w, w2)
            }
        },
        WizardStep::Transport => {
            &&& step.action is Nothing
            &&& shown_wizard(step) is Some
            &&& w2.name@ == w.name@
            &&& w2.primary@ == w.primary@
            &&& w2.extra@ == w.extra@
            &&& w2.transport_selected == w.transport_selected
            &&& w2.transport == Some(transport_at(w.transport_selected as int))
            &&& w2.step == WizardStep::Primary
            &&& w2.error is None
        },
        WizardStep::Primary => step.action is Nothing && shown_wizard(step) is Some && match primary_check(
            w.transport,
            w.primary@.buffer,
        ) {
            None => wizard_to(w, w2, WizardStep::Extra),
            Some(e) => wizard_err(w, w2, e),
        },
        WizardStep::Extra => step.action is Nothing && shown_wizard(step) is Some && match extra_check(
            w.transport,
            w.extra@.buffer,
        ) {
            None => wizard_to(w, w2, WizardStep::Confirm),
            Some(e) => wizard_err(w, w2, e),
        },
        WizardStep::Confirm => {
            let name = trim(w.name@.buffer);
            exists|r: Result<MCPServerConfig, String>|
                #![trigger wizard_config_ok(w.transport, w.primary@.buffer, w.extra@.buffer, r)]
                wizard_config_ok(w.transport, w.primary@.buffer, w.extra@.buffer, r) && confirm_result_ok(
                    w,
                    name,
                    r,
                    step,
                )
        },
    }
}

/// What the confirm step does with the built config `r`.
pub open spec fn confirm_result_ok(
    w: WizardState,
    name: Seq<char>,
    r: Result<MCPServerConfig, String>,
    step: McpAddStep,
) -> bool {
    match r {
        Ok(config) => {
            &&& step.modal is None
            &&& step.action matches McpAddAction::Add { entries, announce }
            &&& entries@.len() == 1
            &&& entries@[0].0@ == name
            &&& entries@[0].1 == config
            &&& announce@ == "Adding "@ + name + "..."@
        },
        Err(e) => step.action is Nothing && shown_wizard(step) is Some && wizard_err(
            w,
            shown_wizard(step)->0,
            e@,
        ),
    }
}

/// The wizard after typing into the current step's field.
pub open spec fn wizard_typed(w: WizardState, key: KeyPress, w2: WizardState) -> bool {
    &&& w2.step == w.step
    &&& w2.error == w.error
    &&& w2.transport == w.transport
    &&& w2.transport_selected == w.transport_selected
    &&& match w.step {
        WizardStep::Name => w2.name@ == text_key_effect(w.name@, key, false) && w2.primary@ == w.primary@
            && w2.extra@ == w.extra@,
        WizardStep::Primary => w2.primary@ == text_key_effect(w.primary@, key, false) && w2.name@
            == w.name@ && w2.extra@ == w.extra@,
        _ => w2.extra@ == text_key_effect(w.extra@, key, true) && w2.name@ == w.name@ && w2.primary@
            == w.primary@,
    }
}

/// The wizard after moving the transport row to `row`.
pub open spec fn wizard_row(w: WizardState, w2: WizardState, row: int) -> bool {
    &&& w2.name@ == w.name@
    &&& w2.primary@ == w.primary@
    &&& w2.extra@ == w.extra@
    &&& w2.transport == w.transport
    &&& w2.step == w.step
    &&& w2.error == w.error
    &&& w2.transport_selected == row
}

/// Whether the step's text field takes the keystroke.
pub open spec fn typed_into_field(w: WizardState, key: KeyPress) -> bool {
    match step_field(w) {
        Some((f, nl)) => is_text_key(key, nl),
        None => false,
    }
}

/// The effect of a keystroke on the wizard.
pub open spec fn wizard_ok(w: WizardState, key: KeyPress, step: McpAddStep) -> bool {
    let w2 = shown_wizard(step)->0;
    if typed_into_field(w, key) {
        step.action is Nothing && shown_wizard(step) is Some && wizard_typed(w, key, w2)
    } else {
        match key.code {
            KeyCode::Esc => step.action is Nothing && if w.step == WizardStep::Name {
                step.modal == Some(McpAddState::ChooseMethod { selected: 0 })
            } else {
                shown_wizard(step) is Some && wizard_to(w, w2, step_back(w.step))
            },
            KeyCode::Enter => wizard_enter_ok(w, step),
            _ => if w.step == WizardStep::Transport && is_up_key(key.code) {
                step.action is Nothing && shown_wizard(step) is Some && wizard_row(
                    w,
                    w2,
                    if w.transport_selected > 0 { w.transport_selected - 1 } else { 0 },
                )
            } else if w.step == WizardStep::Transport && is_down_key(key.code) {
                step.action is Nothing && shown_wizard(step) is Some && wizard_row(
                    w,
                    w2,
                    if w.transport_selected < 2 { w.transport_selected + 1 } else { 2 },
                )
            } else {
                step.action is Nothing && shown_wizard(step) is Some && wizard_kept(w, w2)
            },
        }
    }
}

/// Up or `k`.
pub open spec fn is_up_key(c: KeyCode) -> bool {
    c == KeyCode::Up || c == KeyCode::Char('k')
}

/// Down or `j`.
pub open spec fn is_down_key(c: KeyCode) -> bool {
    c == KeyCode::Down || c == KeyCode::Char('j')
}

/// The effect of a keystroke on the `/mcp add` modal.
pub open spec fn mcp_add_key_ok(state: McpAddState, key: KeyPress, step: McpAddStep) -> bool {
    match state {
        McpAddState::ChooseMethod { selected } => choose_method_ok(selected, key, step),
        McpAddState::PasteJson { input, error } => paste_ok(input, error, key, step),
        McpAddState::Wizard(w) => wizard_ok(*w, key, step),
    }
}

fn keep(state: McpAddState) -> (step: McpAddStep)
    ensures
        step.modal == Some(state),
        step.action is Nothing,
{
    McpAddStep { modal: Some(state), action: McpAddAction::Nothing }
}

fn choose_method_key(selected: usize, key: KeyPress) -> (step: McpAddStep)
    requires
        key_fits(McpAddState::ChooseMethod { selected }, key),
    ensures
        choose_method_ok(selected, key, step),
{
    match key.code {
        KeyCode::Esc => McpAddStep { modal: None, action: McpAddAction::Nothing },
        KeyCode::Up | KeyCode::Char('k') => keep(
            McpAddState::ChooseMethod { selected: if selected > 0 { selected - 1 } else { 0 } },
        ),
        KeyCode::Down | KeyCode::Char('j') => keep(
            McpAddState::ChooseMethod { selected: if selected < 1 { selected + 1 } else { 1 } },
        ),
        KeyCode::Enter => {
            if selected == 0 {
                keep(McpAddState::PasteJson { input: InputState::default(), error: None })
            } else {
                keep(McpAddState::Wizard(Box::new(WizardState::new())))
            }
        },
        _ => keep(McpAddState::ChooseMethod { selected }),
    }
}

fn paste_key(input: InputState, error: Option<String>, key: KeyPress) -> (step: McpAddStep)
    requires
        inserts(key, true) ==> input@.without_selection().cursor < usize::MAX,
    ensures
        paste_ok(input, error, key, step),
{
    let mut input = input;
    if apply_text_key(&mut input, key, true) {
        return keep(McpAddState::PasteJson { input, error });
    }
    match key.code {
        KeyCode::Esc => keep(McpAddState::ChooseMethod { selected: 0 }),
        KeyCode::Enter => {
            let parsed = parse_pasted_json(input.buffer.as_str());
            let ghost entries = parsed;
            let step = pasted_json_parsed(input, error, parsed);
            proof {
                if let Ok(v) = entries {
                    assert(entry_models(v@).len() == v@.len());
                }
            }
            step
        },
        _ => keep(McpAddState::PasteJson { input, error }),
    }
}

fn error_text(s: &str) -> (r: Option<String>)
    ensures
        r matches Some(m) && m@ == s@,
{
    Some(s.to_owned())
}

/// Whether the primary value is acceptable for the chosen transport.
fn check_primary(transport: Option<TransportChoice>, value: &str) -> (r: Option<String>)
    ensures
        match primary_check(transport, value@) {
            None => r is None,
            Some(e) => r matches Some(m) && m@ == e,
        },
{
    let v = trimmed(value);
    match transport {
        Some(TransportChoice::Stdio) => {
            match split_command_line(v.as_str()) {
                Ok(_) => None,
                Err(e) => Some(e),
            }
        },
        _ => {
            if v.as_str().unicode_len() == 0 {
                return error_text("URL can't be empty");
            }
            match parse_url_scheme(v.as_str()) {
                Ok(_) => None,
                Err(e) => {
                    let mut m = "invalid URL: ".to_owned();
                    m.append(e.as_str());
                    Some(m)
                },
            }
        },
    }
}

/// Whether the extra value parses for the chosen transport.
fn check_extra(transport: Option<TransportChoice>, value: &str) -> (r: Option<String>)
    ensures
        match extra_check(transport, value@) {
            None => r is None,
            Some(e) => r matches Some(m) && m@ == e,
        },
{
    match transport {
        Some(TransportChoice::Stdio) => match parse_env_lines(value) {
            Ok(_) => None,
            Err(e) => Some(e),
        },
        _ => match parse_header_lines(value) {
            Ok(_) => None,
            Err(e) => Some(e),
        },
    }
}

fn wizard_enter(w: WizardState) -> (step: McpAddStep)
    requires
        w.step == WizardStep::Transport ==> w.transport_selected <= 2,
    ensures
        wizard_enter_ok(w, step),
{
    let mut w = w;
    match w.step {
        WizardStep::Name => {
            let name = trimmed(w.name.buffer.as_str());
            if name.as_str().unicode_len() == 0 {
                w.error = error_text("name can't be empty");
                keep(McpAddState::Wizard(Box::new(w)))
            } else {
                McpAddStep { modal: Some(McpAddState::Wizard(Box::new(w))), action: McpAddAction::CheckName(name) }
            }
        },
        WizardStep::Transport => {
            let t = if w.transport_selected == 0 {
                TransportChoice::Stdio
            } else if w.transport_selected == 1 {
                TransportChoice::Http
            } else {
                TransportChoice::Sse
            };
            w.transport = Some(t);
            w.error = None;
            w.step = WizardStep::Primary;
            keep(McpAddState::Wizard(Box::new(w)))
        },
        WizardStep::Primary => {
            match check_primary(w.transport, w.primary.buffer.as_str()) {
                None => {
                    w.error = None;
                    w.step = WizardStep::Extra;
                },
                Some(e) => {
                    w.error = Some(e);
                },
            }
            keep(McpAddState::Wizard(Box::new(w)))
        },
        WizardStep::Extra => {
            match check_extra(w.transport, w.extra.buffer.as_str()) {
                None => {
                    w.error = None;
                    w.step = WizardStep::Confirm;
                },
                Some(e) => {
                    w.error = Some(e);
                },
            }
            keep(McpAddState::Wizard(Box::new(w)))
        },
        WizardStep::Confirm => {
            let built = w.build_config();
            let ghost r = built;
            match built {
                Ok(config) => {
                    let name = trimmed(w.name.buffer.as_str());
                    let mut announce = "Adding ".to_owned();
                    announce.append(name.as_str());
                    announce.append("...");
                    let mut entries: Vec<(String, MCPServerConfig)> = Vec::new();
                    entries.push((name, config));
                    let step = McpAddStep { modal: None, action: McpAddAction::Add { entries, announce } };
                    assert(wizard_config_ok(w.transport, w.primary@.buffer, w.extra@.buffer, r));
                    step
                },
                Err(e) => {
                    let ghost before = w;
                    w.error = Some(e);
                    let step = keep(McpAddState::Wizard(Box::new(w)));
                    assert(wizard_config_ok(before.transport, before.primary@.buffer, before.extra@.buffer, r));
                    step
                },
            }
        },
    }
}

fn wizard_key(w: WizardState, key: KeyPress) -> (step: McpAddStep)
    requires
        key_fits(McpAddState::Wizard(Box::new(w)), key),
    ensures
        wizard_ok(w, key, step),
{
    let mut w = w;
    let handled = match w.step {
        WizardStep::Name => apply_text_key(&mut w.name, key, false),
        WizardStep::Primary => apply_text_key(&mut w.primary, key, false),
        WizardStep::Extra => apply_text_key(&mut w.extra, key, true),
        WizardStep::Transport | WizardStep::Confirm => false,
    };
    if handled {
        return keep(McpAddState::Wizard(Box::new(w)));
    }
    match key.code {
        KeyCode::Esc => {
            match w.step {
                WizardStep::Name => {
                    return keep(McpAddState::ChooseMethod { selected: 0 });
                },
                WizardStep::Transport => w.step = WizardStep::Name,
                WizardStep::Primary => w.step = WizardStep::Transport,
                WizardStep::Extra => w.step = WizardStep::Primary,
                WizardStep::Confirm => w.step = WizardStep::Extra,
            }
            w.error = None;
            keep(McpAddState::Wizard(Box::new(w)))
        },
        KeyCode::Enter => wizard_enter(w),
        _ => {
            let up = match key.code {
                KeyCode::Up | KeyCode::Char('k') => true,
                _ => false,
            };
            let down = match key.code {
                KeyCode::Down | KeyCode::Char('j') => true,
                _ => false,
            };
            if w.step == WizardStep::Transport && up {
                w.transport_selected = if w.transport_selected > 0 { w.transport_selected - 1 } else { 0 };
            } else if w.step == WizardStep::Transport && down {
                w.transport_selected = if w.transport_selected < 2 { w.transport_selected + 1 } else { 2 };
            }
            keep(McpAddState::Wizard(Box::new(w)))
        },
    }
}

/// Key handling for every step of `/mcp add`'s modal.
pub fn mcp_add_key(state: McpAddState, key: KeyPress) -> (step: McpAddStep)
    requires
        key_fits(state, key),
    ensures
        mcp_add_key_ok(state, key, step),
{
    match state {
        McpAddState::ChooseMethod { selected } => choose_method_key(selected, key),
        McpAddState::PasteJson { input, error } => paste_key(input, error, key),
        McpAddState::Wizard(w) => wizard_key(*w, key),
    }
}

/// The answer to [`McpAddAction::CheckName`]: a taken name stays on the
/// name step with an error; a free one moves on to the transport.
pub fn wizard_name_checked(w: WizardState, taken: bool) -> (step: McpAddStep)
    ensures
        step.action is Nothing,
        shown_wizard(step) is Some,
        taken ==> wizard_err(w, shown_wizard(step)->0, "'"@ + trim(w.name@.buffer) + "' already exists"@),
        !taken ==> wizard_to(w, shown_wizard(step)->0, WizardStep::Transport),
{
    let mut w = w;
    if taken {
        let name = trimmed(w.name.buffer.as_str());
        let mut m = "'".to_owned();
        m.append(name.as_str());
        m.append("' already exists");
        w.error = Some(m);
    } else {
        w.error = None;
        w.step = WizardStep::Transport;
    }
    keep(McpAddState::Wizard(Box::new(w)))
}

/// The announcement for adding `n` pasted servers.
pub open spec fn adding_servers_text(n: nat) -> Seq<char> {
    "Adding "@ + decimal(n) + " MCP server(s)..."@
}

/// What parsing the pasted JSON gave: parsed servers close the modal and get
/// added; a parse error is shown under the paste box.
pub fn pasted_json_parsed(
    input: InputState,
    error: Option<String>,
    parsed: Result<Vec<(String, MCPServerConfig)>, String>,
) -> (step: McpAddStep)
    ensures
        parsed is Ok ==> step.modal is None && adds(
            step.action,
            parsed->Ok_0@,
            adding_servers_text(parsed->Ok_0@.len()),
        ),
        parsed is Err ==> step.action is Nothing && shows_paste(step, input@, Some(parsed->Err_0)),
{
    match parsed {
        Ok(entries) => {
            let mut announce = "Adding ".to_owned();
            push_decimal(&mut announce, entries.len() as u64);
            announce.append(" MCP server(s)...");
            McpAddStep { modal: None, action: McpAddAction::Add { entries, announce } }
        },
        Err(reason) => keep(McpAddState::PasteJson { input, error: Some(reason) }),
    }
}

/// Esc walks the wizard back one step at a time and never loses what was
/// typed; from the name step it returns to the method choice.
pub proof fn lemma_esc_steps_back(w: WizardState, step: McpAddStep)
    requires
        wizard_ok(w, KeyPress { code: KeyCode::Esc, shift: false, control: false }, step),
    ensures
        w.step == WizardStep::Name ==> step.modal == Some(McpAddState::ChooseMethod { selected: 0 }),
        w.step != WizardStep::Name ==> shown_wizard(step) is Some && shown_wizard(step)->0.step
            == step_back(w.step) && shown_wizard(step)->0.name@ == w.name@ && shown_wizard(step)->0.primary@
            == w.primary@ && shown_wizard(step)->0.extra@ == w.extra@,
{
}

/// The wizard only reaches the confirm step through a valid extra value, and
/// only reaches the extra step through a valid primary value.
pub proof fn lemma_enter_advances_only_when_valid(w: WizardState, step: McpAddStep)
    requires
        wizard_enter_ok(w, step),
        shown_wizard(step) is Some,
        shown_wizard(step)->0.step != w.step,
    ensures
        w.step == WizardStep::Primary ==> primary_check(w.transport, w.primary@.buffer) is None,
        w.step == WizardStep::Extra ==> extra_check(w.transport, w.extra@.buffer) is None,
        w.step != WizardStep::Name,
{
}

} // verus!
