//! The pure key→intent layer of the key handlers: the standard text-editing
//! keystrokes every text field shares, the keys of the approval and confirm
//! modals, and the clean-up of pasted text.

pub mod autocomplete;
pub mod chat;
pub mod dispatch;
pub mod mcp;
pub mod mcp_add;
pub mod paste;
pub mod providers;
pub mod search;

use vstd::prelude::*;
use crate::app::input::{InputState, InputModel};
use crate::app::list::KeyCode;
use crate::app::events;
use crate::text::{chars_of, lines, next_line};

verus! {

/// A keystroke: its code and the modifiers the handlers read.
#[derive(Debug, Clone, Copy, PartialEq, Eq, Structural)]
pub struct KeyPress {
    pub code: KeyCode,
    pub shift: bool,
    pub control: bool,
}

impl KeyPress {
    /// A keystroke without modifiers.
    pub fn plain(code: KeyCode) -> (k: KeyPress)
        ensures
            k == (KeyPress { code, shift: false, control: false }),
    {
        KeyPress { code, shift: false, control: false }
    }
}

/// Whether a text field takes the keystroke as an edit.
pub open spec fn is_text_key(key: KeyPress, allow_newline: bool) -> bool {
    match key.code {
        KeyCode::Enter => allow_newline && key.shift,
        KeyCode::Char(_) => !key.control,
        KeyCode::Backspace | KeyCode::Delete | KeyCode::Left | KeyCode::Right | KeyCode::Home
        | KeyCode::End => true,
        _ => false,
    }
}

/// Whether the keystroke types a character (or a newline) into the field.
pub open spec fn inserts(key: KeyPress, allow_newline: bool) -> bool {
    match key.code {
        KeyCode::Enter => allow_newline && key.shift,
        KeyCode::Char(_) => !key.control,
        _ => false,
    }
}

/// The edit a text-field keystroke makes: Shift+Enter a newline (where
/// newlines are allowed), a character itself, Backspace/Delete a deletion,
/// the arrows a move (a word at a time with Ctrl), Home/End a jump. Moves
/// collapse the selection.
pub open spec fn text_key_effect(m: InputModel, key: KeyPress, allow_newline: bool) -> InputModel {
    match key.code {
        KeyCode::Enter => if allow_newline && key.shift {
            m.insert_char('\n')
        } else {
            m
        },
        KeyCode::Char(c) => if !key.control {
            m.insert_char(c)
        } else {
            m
        },
        KeyCode::Backspace => m.backspace(),
        KeyCode::Delete => m.delete_forward(),
        KeyCode::Left => m.move_left(false, key.control),
        KeyCode::Right => m.move_right(false, key.control),
        KeyCode::Home => m.move_home(false),
        KeyCode::End => m.move_end(false),
        _ => m,
    }
}

/// Apply a standard text-editing keystroke to `input`; returns whether the
/// key was consumed. `allow_newline` gates Shift+Enter — off for single-line
/// fields so plain Enter always means "submit" there.
pub fn apply_text_key(input: &mut InputState, key: KeyPress, allow_newline: bool) -> (consumed: bool)
    requires
        inserts(key, allow_newline) ==> old(input)@.without_selection().cursor < usize::MAX,
    ensures
        consumed == is_text_key(key, allow_newline),
        final(input)@ == text_key_effect(old(input)@, key, allow_newline),
{
    match key.code {
        KeyCode::Enter => {
            if allow_newline && key.shift {
                input.insert_newline();
                true
            } else {
                false
            }
        },
        KeyCode::Char(c) => {
            if !key.control {
                input.insert_char(c);
                true
            } else {
                false
            }
        },
        KeyCode::Backspace => {
            input.backspace();
            true
        },
        KeyCode::Delete => {
            input.delete_forward();
            true
        },
        KeyCode::Left => {
            input.move_left(false, key.control);
            true
        },
        KeyCode::Right => {
            input.move_right(false, key.control);
            true
        },
        KeyCode::Home => {
            input.move_home(false);
            true
        },
        KeyCode::End => {
            input.move_end(false);
            true
        },
        _ => false,
    }
}

/// A keystroke that a text field does not take leaves it untouched.
pub proof fn lemma_ignored_keys_change_nothing(m: InputModel, key: KeyPress, allow_newline: bool)
    requires
        !is_text_key(key, allow_newline),
    ensures
        text_key_effect(m, key, allow_newline) == m,
{
}

/// How many argument lines the tool-approval modal shows at once. The
/// keyboard scroll clamp and the mouse-wheel clamp must agree.
pub const TOOL_APPROVAL_VISIBLE_LINES: usize = 12;

/// What a keystroke means to the tool-approval modal.
#[derive(Debug, Clone, Copy, PartialEq, Eq, Structural)]
pub enum ApprovalKey {
    Approve,
    Deny,
    ToggleAlways,
    ScrollUp,
    ScrollDown,
}

pub open spec fn approval_key_spec(code: KeyCode) -> Option<ApprovalKey> {
    match code {
        KeyCode::Char('y') | KeyCode::Char('Y') | KeyCode::Enter => Some(ApprovalKey::Approve),
        KeyCode::Char('n') | KeyCode::Char('N') | KeyCode::Esc => Some(ApprovalKey::Deny),
        KeyCode::Char('a') | KeyCode::Char('A') => Some(ApprovalKey::ToggleAlways),
        KeyCode::Up => Some(ApprovalKey::ScrollUp),
        KeyCode::Down => Some(ApprovalKey::ScrollDown),
        _ => None,
    }
}

pub fn approval_key(code: KeyCode) -> (r: Option<ApprovalKey>)
    ensures
        r == approval_key_spec(code),
{
    match code {
        KeyCode::Char('y') | KeyCode::Char('Y') | KeyCode::Enter => Some(ApprovalKey::Approve),
        KeyCode::Char('n') | KeyCode::Char('N') | KeyCode::Esc => Some(ApprovalKey::Deny),
        KeyCode::Char('a') | KeyCode::Char('A') => Some(ApprovalKey::ToggleAlways),
        KeyCode::Up => Some(ApprovalKey::ScrollUp),
        KeyCode::Down => Some(ApprovalKey::ScrollDown),
        _ => None,
    }
}

/// Rows moved per mouse-wheel notch — a little faster than one arrow press.
pub const WHEEL_STEP: usize = 3;

/// How many lines `s` has, as `str::lines` counts them.
pub fn line_count(s: &str) -> (n: usize)
    ensures
        n == lines(s@).len(),
{
    let v = chars_of(s);
    let mut start: usize = 0;
    let mut n: usize = 0;
    assert(v@.skip(0) =~= v@);
    while start < v.len()
        invariant
            start <= v@.len(),
            v@ == s@,
            n <= start,
            n + lines(v@.skip(start as int)).len() == lines(v@).len(),
        decreases v.len() - start,
    {
        let (_, next) = next_line(&v, start);
        n += 1;
        start = next;
    }
    assert(v@.skip(start as int).len() == 0);
    n
}

/// The furthest the tool-approval modal's arguments scroll: the lines that
/// do not fit its window.
pub open spec fn approval_max_scroll(arguments: Seq<char>) -> int {
    if lines(arguments).len() > TOOL_APPROVAL_VISIBLE_LINES {
        lines(arguments).len() - TOOL_APPROVAL_VISIBLE_LINES
    } else {
        0
    }
}

/// The tool-approval modal's scroll after moving `step` rows up (towards
/// the top, stopping there) or down (stopping where the last line shows).
/// The arrow keys and the mouse wheel both move it this way, so neither can
/// scroll past the other's limit.
pub fn approval_scroll(scroll: usize, arguments: &str, up: bool, step: usize) -> (r: usize)
    requires
        scroll + step <= usize::MAX,
    ensures
        up ==> r == (if scroll >= step { scroll - step } else { 0 }),
        !up ==> r == (if scroll + step <= approval_max_scroll(arguments@) {
            scroll + step
        } else {
            approval_max_scroll(arguments@)
        }),
{
    if up {
        return if scroll >= step { scroll - step } else { 0 };
    }
    let n = line_count(arguments);
    let max_scroll = if n > TOOL_APPROVAL_VISIBLE_LINES { n - TOOL_APPROVAL_VISIBLE_LINES } else { 0 };
    if scroll + step <= max_scroll {
        scroll + step
    } else {
        max_scroll
    }
}

/// The chat transcript's scroll (rows from the bottom) after a wheel notch:
/// up goes to older messages.
pub fn chat_wheel_scroll(offset: u32, up: bool) -> (r: u32)
    ensures
        up ==> r == (if offset + 3 <= u32::MAX { offset + 3 } else { u32::MAX as int }),
        !up ==> r == (if offset >= 3 { offset - 3 } else { 0 }),
{
    if up {
        offset.saturating_add(3)
    } else {
        offset.saturating_sub(3)
    }
}

/// What a keystroke means to the generic confirm modal: `Some(true)` =
/// confirmed, `Some(false)` = cancelled, `None` = ignored.
pub open spec fn confirm_key_spec(code: KeyCode) -> Option<bool> {
    match code {
        KeyCode::Enter | KeyCode::Char('y') | KeyCode::Char('Y') => Some(true),
        KeyCode::Esc | KeyCode::Char('n') | KeyCode::Char('N') => Some(false),
        _ => None,
    }
}

pub fn confirm_key(code: KeyCode) -> (r: Option<bool>)
    ensures
        r == confirm_key_spec(code),
{
    match code {
        KeyCode::Enter | KeyCode::Char('y') | KeyCode::Char('Y') => Some(true),
        KeyCode::Esc | KeyCode::Char('n') | KeyCode::Char('N') => Some(false),
        _ => None,
    }
}

/// The two modals read the same keys the same way: what approves also
/// confirms, and what denies also cancels.
pub proof fn lemma_modals_agree(code: KeyCode)
    ensures
        approval_key_spec(code) == Some(ApprovalKey::Approve) <==> confirm_key_spec(code) == Some(true),
        approval_key_spec(code) == Some(ApprovalKey::Deny) <==> confirm_key_spec(code) == Some(false),
{
}

/// Whether a pasted character is kept: carriage returns never, newlines only
/// in multi-line fields.
pub open spec fn paste_keeps(c: char, allow_newline: bool) -> bool {
    c != '\r' && (allow_newline || c != '\n')
}

/// `text` with the characters `paste_keeps` drops removed.
pub open spec fn sanitize_spec(text: Seq<char>, allow_newline: bool) -> Seq<char> {
    text.filter(|c: char| paste_keeps(c, allow_newline))
}

/// Sanitizing never lengthens a paste.
pub proof fn lemma_sanitize_len(text: Seq<char>, allow_newline: bool)
    ensures
        sanitize_spec(text, allow_newline).len() <= text.len(),
{
    text.lemma_filter_len(|c: char| paste_keeps(c, allow_newline));
}

/// Strip carriage returns always (so Windows `\r\n` never leaves a stray CR);
/// additionally drop newlines for single-line fields.
pub fn sanitize(text: &str, allow_newline: bool) -> (s: String)
    ensures
        s@ == sanitize_spec(text@, allow_newline),
{
    let v = chars_of(text);
    let mut s = String::new();
    let mut i: usize = 0;
    while i < v.len()
        invariant
            i <= v.len(),
            v@ == text@,
            s@ == v@.take(i as int).filter(|c: char| paste_keeps(c, allow_newline)),
        decreases v.len() - i,
    {
        let c = v[i];
        proof {
            assert(v@.take(i + 1).drop_last() == v@.take(i as int));
            reveal(Seq::filter);
        }
        if c != '\r' && (allow_newline || c != '\n') {
            crate::text::push_char(&mut s, c);
        }
        i += 1;
    }
    assert(v@.take(v.len() as int) == v@);
    s
}

/// The status line after the approval modal answered for `tool_name`:
/// "Running <tool>" once approved, "Denied <tool>" once refused.
pub fn approval_status(approved: bool, tool_name: &str) -> (s: String)
    ensures
        s@ == (if approved { "Running "@ } else { "Denied "@ }) + tool_name@,
{
    let mut s = if approved { "Running ".to_owned() } else { "Denied ".to_owned() };
    s.append(tool_name);
    s
}

/// Who handles a keystroke.
#[derive(Debug, Clone, Copy, PartialEq, Eq, Structural)]
pub enum KeyTarget {
    /// The onboarding screen, which captures every key while it is up.
    Onboarding,
    /// The autocomplete popup already took the key; nothing else runs.
    Autocomplete,
    /// The open modal dialog.
    Modal,
    /// The MCP panel.
    Mcp,
    /// The provider-management panel.
    Providers,
    /// The history-search screen.
    Search,
    /// The chat (and every other screen).
    Chat,
}

/// Route a keystroke: onboarding captures everything while on display;
/// otherwise a key the autocomplete popup took (`autocomplete_took`, asked
/// only off the onboarding screen) goes no further; then an open modal,
/// then the MCP, provider and search screens, and the chat last.
pub fn key_target(view: events::View, modal_open: bool, autocomplete_took: bool) -> (t: KeyTarget)
    ensures
        t == (if view == events::View::Onboarding {
            KeyTarget::Onboarding
        } else if autocomplete_took {
            KeyTarget::Autocomplete
        } else if modal_open {
            KeyTarget::Modal
        } else if view == events::View::Mcp {
            KeyTarget::Mcp
        } else if view == events::View::Providers {
            KeyTarget::Providers
        } else if view == events::View::Search {
            KeyTarget::Search
        } else {
            KeyTarget::Chat
        }),
{
    match view {
        events::View::Onboarding => KeyTarget::Onboarding,
        _ => if autocomplete_took {
            KeyTarget::Autocomplete
        } else if modal_open {
            KeyTarget::Modal
        } else {
            match view {
                events::View::Mcp => KeyTarget::Mcp,
                events::View::Providers => KeyTarget::Providers,
                events::View::Search => KeyTarget::Search,
                _ => KeyTarget::Chat,
            }
        },
    }
}

} // verus!
