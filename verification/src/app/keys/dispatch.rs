//! What a slash command's effect tells the person: the notes the command
//! interpreter leaves in the chat once it turned a command's intent into
//! effects (the effects themselves — provider rebuilds, the embedding
//! service, the updater — are the app's).

use vstd::prelude::*;
use crate::agent::sub_agent::join_strings;
use crate::agent::trace::join;
use crate::text::{chars_of, string_of, strings_view};

verus! {

/// The label of a sub-agent spawned by `/agent <prompt>`: the prompt's
/// first 40 characters.
pub fn sub_agent_label(prompt: &str) -> (label: String)
    ensures
        label@ == if prompt@.len() > 40 { prompt@.take(40) } else { prompt@ },
{
    let v = chars_of(prompt);
    let n = if v.len() > 40 { 40 } else { v.len() };
    proof {
        if v@.len() <= 40 {
            assert(v@.subrange(0, n as int) =~= v@);
        }
    }
    string_of(&v, 0, n)
}

/// The note after `/providers add <args>` saved provider `name`.
pub fn provider_added_note(name: &str) -> (s: String)
    ensures
        s@ == "Provider '"@ + name@ + "' added. Open /providers and press Enter on it to activate."@,
{
    let mut s = "Provider '".to_owned();
    s.append(name);
    s.append("' added. Open /providers and press Enter on it to activate.");
    s
}

/// The note when `/providers add <raw>` did not parse (`reason` says why);
/// the provider wizard opens after it.
pub fn provider_quick_add_failed_note(raw: &str, reason: &str) -> (s: String)
    ensures
        s@ == "Couldn't parse \"/providers add "@ + raw@ + "\" ("@ + reason@ + ") \u{2014} opening the wizard:"@,
{
    let mut s = "Couldn't parse \"/providers add ".to_owned();
    s.append(raw);
    s.append("\" (");
    s.append(reason);
    s.append(") \u{2014} opening the wizard:");
    s
}

/// The chat's echo of what applying a theme reported.
pub fn theme_applied_note(message: &str) -> (s: String)
    ensures
        s@ == "Theme: "@ + message@ + "."@,
{
    let mut s = "Theme: ".to_owned();
    s.append(message);
    s.append(".");
    s
}

/// The note for `/theme <name>` naming no known theme, listing the themes
/// there are (presets first, then custom ones).
pub fn unknown_theme_note(name: &str, available: &[String]) -> (s: String)
    ensures
        s@ == "Unknown theme '"@ + name@ + "'. Available: "@ + join(strings_view(available@), ", "@)
            + " — or /themes to browse with live preview."@,
{
    let mut s = "Unknown theme '".to_owned();
    s.append(name);
    s.append("'. Available: ");
    let listed = join_strings(available, ", ");
    s.append(listed.as_str());
    s.append(" — or /themes to browse with live preview.");
    s
}

/// Whether `name` is a theme: a preset or a custom theme.
pub fn theme_known(name: &str, presets: &[String], custom: &[String]) -> (known: bool)
    ensures
        known == (exists|i: int| 0 <= i < presets@.len() && #[trigger] presets@[i]@ == name@)
            || (exists|i: int| 0 <= i < custom@.len() && #[trigger] custom@[i]@ == name@),
{
    let mut i: usize = 0;
    while i < presets.len()
        invariant
            i <= presets@.len(),
            forall|j: int| 0 <= j < i ==> presets@[j]@ != name@,
        decreases presets.len() - i,
    {
        if crate::text::str_eq(presets[i].as_str(), name) {
            return true;
        }
        i += 1;
    }
    let mut k: usize = 0;
    while k < custom.len()
        invariant
            k <= custom@.len(),
            forall|j: int| 0 <= j < presets@.len() ==> presets@[j]@ != name@,
            forall|j: int| 0 <= j < k ==> custom@[j]@ != name@,
        decreases custom.len() - k,
    {
        if crate::text::str_eq(custom[k].as_str(), name) {
            return true;
        }
        k += 1;
    }
    false
}

/// The note after `/rag on` or `/rag off` was saved: turning it on starts
/// the background initialisation unless the service is already ready.
pub fn rag_switch_note(on: bool, ready: bool) -> (s: String)
    ensures
        on && !ready ==> s@ == "RAG enabled — initializing in the background (first run downloads the ~120 MB embedding model). Hints start once it's ready."@,
        on && ready ==> s@ == "RAG enabled."@,
        !on ==> s@ == "RAG disabled: no more hints, full MCP schemas return to the system prompt from the next turn. Re-enable with /rag on."@,
{
    if on {
        if !ready {
            "RAG enabled — initializing in the background (first run downloads the ~120 MB embedding model). Hints start once it's ready.".to_owned()
        } else {
            "RAG enabled.".to_owned()
        }
    } else {
        "RAG disabled: no more hints, full MCP schemas return to the system prompt from the next turn. Re-enable with /rag on.".to_owned()
    }
}

/// The note for `/rag reload`: refused while the service is disabled or
/// still initializing (`started` says the reload began).
pub fn rag_reload_note(enabled: bool, started: bool) -> (s: String)
    ensures
        !enabled ==> s@ == "RAG is disabled — run /rag on first."@,
        enabled && !started ==> s@ == "RAG is already initializing — wait for it to finish before reloading."@,
        enabled && started ==> s@ == "RAG reloading: verifying the model (missing files are re-downloaded) and re-embedding skills + MCP tools in the background."@,
{
    if !enabled {
        "RAG is disabled — run /rag on first.".to_owned()
    } else if !started {
        "RAG is already initializing — wait for it to finish before reloading.".to_owned()
    } else {
        "RAG reloading: verifying the model (missing files are re-downloaded) and re-embedding skills + MCP tools in the background.".to_owned()
    }
}

/// The note after `/autoupdate on|off` was saved.
pub fn auto_update_switch_note(on: bool) -> (s: String)
    ensures
        on ==> s@ == "Auto-update enabled — every startup checks the `latest` release in the background."@,
        !on ==> s@ == "Auto-update disabled. /update still works manually."@,
{
    if on {
        "Auto-update enabled — every startup checks the `latest` release in the background.".to_owned()
    } else {
        "Auto-update disabled. /update still works manually.".to_owned()
    }
}

/// What `/autoupdate` says of the current setting.
pub fn auto_update_status(auto: bool) -> (s: String)
    ensures
        s@ == "Auto-update on startup: "@ + (if auto { "on"@ } else { "off"@ })
            + ".\nWhen on, every launch compares the binary's SHA-256 with the `latest` release in the background and installs on mismatch (applied on the next start).\n\u{2022} /autoupdate on|off — toggle\n\u{2022} /update — check and install right now"@,
{
    let mut s = "Auto-update on startup: ".to_owned();
    if auto {
        s.append("on");
    } else {
        s.append("off");
    }
    s.append(".\nWhen on, every launch compares the binary's SHA-256 with the `latest` release in the background and installs on mismatch (applied on the next start).\n\u{2022} /autoupdate on|off — toggle\n\u{2022} /update — check and install right now");
    s
}

} // verus!
