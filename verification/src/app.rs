pub mod background_stats;
pub mod conversation;
pub mod events;
pub mod generation;
pub mod goal;
pub mod input;
pub mod interaction;
pub mod keys;
pub mod list;
pub mod mcp_add;
pub mod mcp_status;
pub mod multichat;
pub mod providers;
pub mod reduce;
pub mod search;

use vstd::prelude::*;
use crate::app::events::AgentEvent;
use crate::app::list::ListCursor;
use crate::commands::CommandSuggestion;
use crate::agent::sub_agent::join_strings;
use crate::agent::trace::join;
use crate::text::{decimal, push_decimal, strings_view};

verus! {

/// Rows the autocomplete popup shows at once.
pub const AUTOCOMPLETE_VISIBLE: usize = 8;

/// The autocomplete popup under the prompt: `/command` or `@file`
/// suggestions and the cursor over them.
#[derive(Debug, Clone)]
pub struct AutocompleteState {
    pub visible: bool,
    pub items: Vec<CommandSuggestion>,
    pub cursor: ListCursor,
    pub file_mode: bool,
}

impl Default for AutocompleteState {
    fn default() -> (s: AutocompleteState)
        ensures
            !s.visible,
            s.items@.len() == 0,
            s.cursor.selected_spec() == 0,
            s.cursor.scroll_spec() == 0,
            !s.file_mode,
    {
        AutocompleteState { visible: false, items: Vec::new(), cursor: ListCursor::at(0, 0), file_mode: false }
    }
}

/// The status-line text an agent event sets, if any.
pub open spec fn status_text(event: AgentEvent) -> Option<Seq<char>> {
    match event {
        AgentEvent::Started => Some("Thinking..."@),
        AgentEvent::Done(_) => Some("Ready"@),
        AgentEvent::Failed(error) => Some(error@),
        AgentEvent::ToolStarted { name } => Some("Running "@ + name@ + "..."@),
        AgentEvent::ToolDone { .. } => Some("Tool finished"@),
        AgentEvent::ToolError { error } => Some("Tool error: "@ + error@),
        AgentEvent::ToolOutputCleared { cleared, freed_tokens } => Some(
            "Cleared "@ + decimal(cleared@.len()) + " old tool output(s), ~"@ + decimal(freed_tokens as nat)
                + " tokens freed"@,
        ),
        AgentEvent::SessionReset { before_tokens, after_tokens } => Some(
            "Started a fresh provider session, re-seeding ~"@ + decimal(after_tokens as nat)
                + " tokens instead of ~"@ + decimal(before_tokens as nat),
        ),
        _ => None,
    }
}

/// The status-line text an agent event sets; the stream itself and the
/// history edits leave the status line alone.
pub fn status_for(event: &AgentEvent) -> (s: Option<String>)
    ensures
        s.deep_view() == status_text(*event),
{
    match event {
        AgentEvent::Started => Some("Thinking...".to_owned()),
        AgentEvent::Done(_) => Some("Ready".to_owned()),
        AgentEvent::Failed(error) => Some(error.clone()),
        AgentEvent::ToolStarted { name } => {
            let mut s = "Running ".to_owned();
            s.append(name.as_str());
            s.append("...");
            Some(s)
        },
        AgentEvent::ToolDone { .. } => Some("Tool finished".to_owned()),
        AgentEvent::ToolError { error } => {
            let mut s = "Tool error: ".to_owned();
            s.append(error.as_str());
            Some(s)
        },
        AgentEvent::ToolOutputCleared { cleared, freed_tokens } => {
            let mut s = "Cleared ".to_owned();
            push_decimal(&mut s, cleared.len() as u64);
            s.append(" old tool output(s), ~");
            push_decimal(&mut s, *freed_tokens as u64);
            s.append(" tokens freed");
            Some(s)
        },
        AgentEvent::SessionReset { before_tokens, after_tokens } => {
            let mut s = "Started a fresh provider session, re-seeding ~".to_owned();
            push_decimal(&mut s, *after_tokens as u64);
            s.append(" tokens instead of ~");
            push_decimal(&mut s, *before_tokens as u64);
            Some(s)
        },
        AgentEvent::BeginAssistantMessage
        | AgentEvent::Chunk(_)
        | AgentEvent::Message(_)
        | AgentEvent::EndAssistantMessage { .. }
        | AgentEvent::DiscardEmptyAssistant
        | AgentEvent::ContextUsage(_) => None,
    }
}

/// The notice a running goal cycle leaves when the turn is cancelled.
pub const GOAL_CANCELLED_NOTICE: &'static str = "⏹ Goal cycle cancelled. Use /goal to start a new one.";

/// The status line after the focused turn is cancelled, counting the
/// background processes killed with it.
pub fn cancel_status(killed: usize) -> (s: String)
    ensures
        killed > 0 ==> s@ == "Cancelled; killed "@ + decimal(killed as nat) + " background process(es)"@,
        killed == 0 ==> s@ == "Cancelled"@,
{
    if killed > 0 {
        let mut s = "Cancelled; killed ".to_owned();
        push_decimal(&mut s, killed as u64);
        s.append(" background process(es)");
        s
    } else {
        "Cancelled".to_owned()
    }
}

/// The line telling the person which project-instruction files were
/// loaded (`sources`, as displayed), marked when the text was cut to its
/// size limit; `None` when none was found.
pub fn instructions_loaded_message(sources: &[String], truncated: bool) -> (m: Option<String>)
    ensures
        sources@.len() == 0 ==> m is None,
        sources@.len() > 0 && !truncated ==> (m matches Some(text) && text@ == "Project instructions loaded from "@
            + join(strings_view(sources@), ", "@)),
        sources@.len() > 0 && truncated ==> (m matches Some(text) && text@ == "Project instructions loaded from "@
            + join(strings_view(sources@), ", "@) + " (truncated)"@),
{
    if sources.len() == 0 {
        return None;
    }
    let mut text = "Project instructions loaded from ".to_owned();
    let names = join_strings(sources, ", ");
    text.append(names.as_str());
    if truncated {
        text.append(" (truncated)");
    }
    Some(text)
}

/// Whether a tick changes what is drawn: the onboarding view animates, the
/// focused chat's spinner runs while it streams, and the landing logo
/// animates while the chat is empty and no dialog covers it. The tick
/// advances the animation under exactly this condition, so idle ticks
/// neither redraw an unchanged frame nor freeze the spinner.
pub fn tick_is_visual(onboarding: bool, streaming: bool, chat_empty: bool, modal_open: bool) -> (b: bool)
    ensures
        b == (onboarding || streaming || (chat_empty && !modal_open)),
{
    onboarding || streaming || (chat_empty && !modal_open)
}

/// The focused chat's animation frame after a tick: one further (wrapping)
/// when the tick is visual, unchanged otherwise.
pub fn tick_animation(frame: u64, visual: bool) -> (next: u64)
    ensures
        visual ==> next == (if frame < u64::MAX { (frame + 1) as u64 } else { 0 }),
        !visual ==> next == frame,
{
    if visual {
        if frame < u64::MAX { frame + 1 } else { 0 }
    } else {
        frame
    }
}

/// The status line the app starts with, and whether it opens on the
/// onboarding view. With a provider: a whitelist notice, else an
/// instructions notice, else "Ready" (both notices report something that
/// happened silently). Without one: "No token configured", on onboarding.
/// Settings migrated from an old place override either, joined by " · ",
/// so that change is never silent.
pub fn startup_status(
    has_provider: bool,
    whitelist_notice: Option<String>,
    instructions_notice: Option<String>,
    migration_notices: &[String],
) -> (r: (String, bool))
    ensures
        r.1 == !has_provider,
        migration_notices@.len() > 0 ==> r.0@ == join(strings_view(migration_notices@), " · "@),
        migration_notices@.len() == 0 && !has_provider ==> r.0@ == "No token configured"@,
        migration_notices@.len() == 0 && has_provider ==> r.0@ == match whitelist_notice {
            Some(w) => w@,
            None => match instructions_notice {
                Some(i) => i@,
                None => "Ready"@,
            },
        },
{
    let mut status = if has_provider {
        match whitelist_notice {
            Some(w) => w,
            None => match instructions_notice {
                Some(i) => i,
                None => "Ready".to_owned(),
            },
        }
    } else {
        "No token configured".to_owned()
    };
    if migration_notices.len() > 0 {
        status = join_strings(migration_notices, " · ");
    }
    (status, !has_provider)
}

/// Whether `a` and `b` name the same path, compared component by component
/// as `std::path::Path` compares them.
pub uninterp spec fn same_path_of(a: Seq<char>, b: Seq<char>) -> bool;

/// Whether path `a` sorts before path `b` in `std::path::Path`'s order.
pub uninterp spec fn path_precedes_of(a: Seq<char>, b: Seq<char>) -> bool;

/// `Path::new(a) == Path::new(b)`: equality of the paths' components
/// (repeated separators and `.` components do not count). Named, not
/// restated.
#[verifier::external_body]
fn same_path(a: &str, b: &str) -> (r: bool)
    ensures
        r == same_path_of(a@, b@),
{
    std::path::Path::new(a) == std::path::Path::new(b)
}

/// `Path::new(a) < Path::new(b)`: the order of the paths' components.
/// Named, not restated.
#[verifier::external_body]
fn path_precedes(a: &str, b: &str) -> (r: bool)
    ensures
        r == path_precedes_of(a@, b@),
{
    std::path::Path::new(a) < std::path::Path::new(b)
}

/// The directories that hold all of the app's own data, in path order and
/// without a repeat: the config directory and the data directory, which
/// may be one and the same (on Windows they usually share a parent; on
/// Linux they may differ).
pub fn wipe_roots(config_dir: String, data_dir: String) -> (roots: Vec<String>)
    ensures
        same_path_of(config_dir@, data_dir@) ==> strings_view(roots@) == seq![config_dir@],
        !same_path_of(config_dir@, data_dir@) && path_precedes_of(data_dir@, config_dir@)
            ==> strings_view(roots@) == seq![data_dir@, config_dir@],
        !same_path_of(config_dir@, data_dir@) && !path_precedes_of(data_dir@, config_dir@)
            ==> strings_view(roots@) == seq![config_dir@, data_dir@],
{
    let mut roots: Vec<String> = Vec::new();
    if same_path(config_dir.as_str(), data_dir.as_str()) {
        roots.push(config_dir);
    } else if path_precedes(data_dir.as_str(), config_dir.as_str()) {
        roots.push(data_dir);
        roots.push(config_dir);
    } else {
        roots.push(config_dir);
        roots.push(data_dir);
    }
    assert(strings_view(roots@) =~= roots@.map_values(|w: String| w@));
    roots
}

} // verus!
