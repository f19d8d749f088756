//! Keys of the default chat view: the global shortcuts (cancel, quit,
//! clear, chat switching, stats panel), prompt editing, history recall,
//! scrolling and Enter. A key is decoded here into what it asks for; the
//! app carries it out (cancelling a turn, stopping background processes,
//! submitting the prompt).

use vstd::prelude::*;
use crate::app::keys::{KeyPress, text_key_effect};
use crate::app::input::InputModel;
use crate::app::list::KeyCode;
use crate::agent::sub_agent::join_strings;
use crate::agent::trace::join;
use crate::text::{chars_of, decimal, push_decimal, strings_view, trim, trimmed};

verus! {

/// What a key on the chat view asks for.
#[derive(Debug, Clone, Copy, PartialEq, Eq, Structural)]
pub enum ChatKey {
    /// Cancel the focused chat's running turn.
    CancelTurn,
    /// Stop the background processes and quit.
    Quit,
    /// Clear the chat and its scroll; with `end_goal`, also leave a goal
    /// that was being set up, so its state is not orphaned.
    ClearChat { end_goal: bool },
    /// Clear the chat and its scroll (Ctrl+L).
    Clear,
    /// Focus the next (+1) or previous (-1) chat.
    CycleFocus(i8),
    /// Show or hide the stats panel.
    ToggleStats,
    SelectAll,
    InsertNewline,
    /// Submit the prompt.
    Submit,
    Insert(char),
    Backspace,
    Delete,
    MoveLeft { extend: bool, word: bool },
    MoveRight { extend: bool, word: bool },
    Home { extend: bool },
    End { extend: bool },
    /// Recall the previous prompt; the popup closes and stays closed.
    HistoryPrev,
    /// Recall the next prompt; the popup closes and stays closed.
    HistoryNext,
    /// Scroll the messages back (towards older ones) by this many lines.
    ScrollBack(usize),
    /// Scroll the messages forward by this many lines.
    ScrollForward(usize),
    Nothing,
}

/// What `key` asks for on the chat view. `busy`: a turn runs in the focused
/// chat (or its task is still there, so a turn stuck behind a lost approval
/// can still be cancelled); `generating`: a reply is being generated;
/// `chat_empty`: the chat holds no messages; `goal_mode`: goal mode is on.
pub open spec fn chat_key_spec(key: KeyPress, busy: bool, generating: bool, chat_empty: bool, goal_mode: bool) -> ChatKey {
    match key.code {
        KeyCode::Char(c) if key.control && (c == 'c' || c == 'C') => if busy {
            ChatKey::CancelTurn
        } else {
            ChatKey::Quit
        },
        KeyCode::Esc => if busy {
            ChatKey::CancelTurn
        } else if chat_empty {
            ChatKey::Quit
        } else {
            ChatKey::ClearChat { end_goal: goal_mode }
        },
        KeyCode::Tab => ChatKey::CycleFocus(1i8),
        KeyCode::BackTab => ChatKey::CycleFocus(-1i8),
        KeyCode::Char('p') if key.control => ChatKey::ToggleStats,
        KeyCode::Char('l') if key.control => ChatKey::Clear,
        KeyCode::Char('a') if key.control => ChatKey::SelectAll,
        KeyCode::Enter if key.shift => ChatKey::InsertNewline,
        KeyCode::Enter if !generating => ChatKey::Submit,
        KeyCode::Char(c) if !key.control => ChatKey::Insert(c),
        KeyCode::Backspace => ChatKey::Backspace,
        KeyCode::Delete => ChatKey::Delete,
        KeyCode::Left => ChatKey::MoveLeft { extend: key.shift, word: key.control },
        KeyCode::Right => ChatKey::MoveRight { extend: key.shift, word: key.control },
        KeyCode::Home => ChatKey::Home { extend: key.shift },
        KeyCode::End => ChatKey::End { extend: key.shift },
        KeyCode::Up if key.control && !generating => ChatKey::HistoryPrev,
        KeyCode::Down if key.control && !generating => ChatKey::HistoryNext,
        KeyCode::Up => ChatKey::ScrollBack(1),
        KeyCode::Down => ChatKey::ScrollForward(1),
        KeyCode::PageUp => ChatKey::ScrollBack(10),
        KeyCode::PageDown => ChatKey::ScrollForward(10),
        _ => ChatKey::Nothing,
    }
}

/// Decode `key` on the chat view (see [`chat_key_spec`]).
pub fn chat_key(key: KeyPress, busy: bool, generating: bool, chat_empty: bool, goal_mode: bool) -> (k: ChatKey)
    ensures
        k == chat_key_spec(key, busy, generating, chat_empty, goal_mode),
{
    match key.code {
        KeyCode::Char(c) => {
            if key.control && (c == 'c' || c == 'C') {
                if busy { ChatKey::CancelTurn } else { ChatKey::Quit }
            } else if key.control && c == 'p' {
                ChatKey::ToggleStats
            } else if key.control && c == 'l' {
                ChatKey::Clear
            } else if key.control && c == 'a' {
                ChatKey::SelectAll
            } else if !key.control {
                ChatKey::Insert(c)
            } else {
                ChatKey::Nothing
            }
        },
        KeyCode::Esc => {
            if busy {
                ChatKey::CancelTurn
            } else if chat_empty {
                ChatKey::Quit
            } else {
                ChatKey::ClearChat { end_goal: goal_mode }
            }
        },
        KeyCode::Tab => ChatKey::CycleFocus(1i8),
        KeyCode::BackTab => ChatKey::CycleFocus(-1i8),
        KeyCode::Enter => {
            if key.shift {
                ChatKey::InsertNewline
            } else if !generating {
                ChatKey::Submit
            } else {
                ChatKey::Nothing
            }
        },
        KeyCode::Backspace => ChatKey::Backspace,
        KeyCode::Delete => ChatKey::Delete,
        KeyCode::Left => ChatKey::MoveLeft { extend: key.shift, word: key.control },
        KeyCode::Right => ChatKey::MoveRight { extend: key.shift, word: key.control },
        KeyCode::Home => ChatKey::Home { extend: key.shift },
        KeyCode::End => ChatKey::End { extend: key.shift },
        KeyCode::Up => {
            if key.control && !generating { ChatKey::HistoryPrev } else { ChatKey::ScrollBack(1) }
        },
        KeyCode::Down => {
            if key.control && !generating { ChatKey::HistoryNext } else { ChatKey::ScrollForward(1) }
        },
        KeyCode::PageUp => ChatKey::ScrollBack(10),
        KeyCode::PageDown => ChatKey::ScrollForward(10),
        _ => ChatKey::Nothing,
    }
}

/// The edit a decoded chat key makes to the prompt: a character or a
/// newline is typed, Backspace deletes before the cursor and Delete the
/// character under it; every other key leaves the text to the app.
pub open spec fn chat_edit(m: InputModel, k: ChatKey) -> InputModel {
    match k {
        ChatKey::Insert(c) => m.insert_char(c),
        ChatKey::InsertNewline => m.insert_char('\n'),
        ChatKey::Backspace => m.backspace(),
        ChatKey::Delete => m.delete_forward(),
        _ => m,
    }
}

/// On the chat view Backspace and Delete keep their meaning, whatever the
/// modifiers and whatever the chat is doing: the prompt is edited exactly
/// as any text field edits it for that key (Delete removes the character
/// under the cursor, Backspace the one before it), and the two keys never
/// decode to the same action.
pub proof fn lemma_deletion_keys_keep_their_meaning(
    m: InputModel,
    del: KeyPress,
    bs: KeyPress,
    busy: bool,
    generating: bool,
    chat_empty: bool,
    goal_mode: bool,
    busy2: bool,
    generating2: bool,
    chat_empty2: bool,
    goal_mode2: bool,
)
    requires
        del.code == KeyCode::Delete,
        bs.code == KeyCode::Backspace,
    ensures
        chat_edit(m, chat_key_spec(del, busy, generating, chat_empty, goal_mode)) == text_key_effect(m, del, true),
        chat_edit(m, chat_key_spec(bs, busy, generating, chat_empty, goal_mode)) == text_key_effect(m, bs, true),
        chat_edit(m, chat_key_spec(del, busy, generating, chat_empty, goal_mode)) == m.delete_forward(),
        chat_edit(m, chat_key_spec(bs, busy, generating, chat_empty, goal_mode)) == m.backspace(),
        chat_key_spec(del, busy, generating, chat_empty, goal_mode)
            != chat_key_spec(bs, busy2, generating2, chat_empty2, goal_mode2),
{
}

/// A character typed without Ctrl goes into the prompt, as in any text
/// field.
pub proof fn lemma_typed_characters_are_inserted(
    m: InputModel,
    key: KeyPress,
    busy: bool,
    generating: bool,
    chat_empty: bool,
    goal_mode: bool,
)
    requires
        key.code is Char,
        !key.control,
    ensures
        chat_edit(m, chat_key_spec(key, busy, generating, chat_empty, goal_mode)) == text_key_effect(m, key, true),
{
}

/// Whether the popup is refreshed from the prompt after the key: not after
/// history recall (a recalled `/command` must not pop the menu), and not
/// after a cancel or quit, which end the key's handling.
pub open spec fn refreshes_popup_spec(k: ChatKey) -> bool {
    !(k is HistoryPrev || k is HistoryNext || k is CancelTurn || k is Quit)
}

/// See [`refreshes_popup_spec`].
pub fn refreshes_popup(k: ChatKey) -> (b: bool)
    ensures
        b == refreshes_popup_spec(k),
{
    match k {
        ChatKey::HistoryPrev | ChatKey::HistoryNext | ChatKey::CancelTurn | ChatKey::Quit => false,
        _ => true,
    }
}

/// The message window's scroll after `k`: back adds, forward subtracts,
/// both saturating; clearing the chat resets it; anything else keeps it.
pub open spec fn scroll_after_spec(offset: usize, k: ChatKey) -> usize {
    match k {
        ChatKey::ScrollBack(n) => if offset + n <= usize::MAX { (offset + n) as usize } else { usize::MAX },
        ChatKey::ScrollForward(n) => if offset >= n { (offset - n) as usize } else { 0 },
        ChatKey::ClearChat { .. } | ChatKey::Clear => 0,
        _ => offset,
    }
}

/// See [`scroll_after_spec`].
pub fn scroll_after(offset: usize, k: ChatKey) -> (o: usize)
    ensures
        o == scroll_after_spec(offset, k),
{
    match k {
        ChatKey::ScrollBack(n) => offset.saturating_add(n),
        ChatKey::ScrollForward(n) => offset.saturating_sub(n),
        ChatKey::ClearChat { .. } | ChatKey::Clear => 0,
        _ => offset,
    }
}

/// A running turn can always be cancelled from the chat with Esc or
/// Ctrl+C, also when its reply is no longer being generated (a turn stuck
/// behind a lost approval), and neither key then quits.
pub proof fn lemma_busy_turn_cancellable(key: KeyPress, generating: bool, chat_empty: bool, goal_mode: bool)
    requires
        key.code == KeyCode::Esc || (key.control && (key.code == KeyCode::Char('c') || key.code == KeyCode::Char('C'))),
    ensures
        chat_key_spec(key, true, generating, chat_empty, goal_mode) == ChatKey::CancelTurn,
{
}

/// Enter never submits a prompt while a reply is being generated.
pub proof fn lemma_no_submit_while_generating(key: KeyPress, busy: bool, chat_empty: bool, goal_mode: bool)
    ensures
        chat_key_spec(key, busy, true, chat_empty, goal_mode) != ChatKey::Submit,
{
}

/// What reading an attached file gave. Text that is not UTF-8 and a file
/// that could not be opened are different facts: calling a missing file
/// "binary content" would mislead the model.
#[derive(Debug, Clone)]
pub enum FileRead {
    Text(String),
    /// The file is there but does not read as text.
    NotText,
    /// The file could not be read; the error as displayed.
    Failed(String),
}

/// A file attached to the prompt, with what reading it gave.
#[derive(Debug, Clone)]
pub struct Attachment {
    pub display_name: String,
    /// The file's size, formatted for people.
    pub size_label: String,
    pub is_image: bool,
    pub read: FileRead,
}

/// What the model is shown of an attached file's content.
pub open spec fn attachment_body(a: Attachment) -> Seq<char> {
    match a.read {
        FileRead::Text(content) => content@,
        FileRead::NotText => (if a.is_image { "Image file"@ } else { "Binary file"@ })
            + " — content not read as text."@,
        FileRead::Failed(error) => "Could not read file: "@ + error@,
    }
}

/// The fenced block sent to the model for an attached file.
pub open spec fn attachment_block(a: Attachment) -> Seq<char> {
    "```\nFile: "@ + a.display_name@ + " ("@ + a.size_label@ + "):\n"@ + attachment_body(a) + "\n```"@
}

/// The blocks of `files`, in order.
pub open spec fn attachment_blocks(files: Seq<Attachment>) -> Seq<Seq<char>> {
    files.map_values(|a: Attachment| attachment_block(a))
}

/// The display names of `files`, in order.
pub open spec fn attachment_names(files: Seq<Attachment>) -> Seq<Seq<char>> {
    files.map_values(|a: Attachment| a.display_name@)
}

fn attachment_block_exec(a: &Attachment) -> (s: String)
    ensures
        s@ == attachment_block(*a),
{
    let mut s = "```\nFile: ".to_owned();
    s.append(a.display_name.as_str());
    s.append(" (");
    s.append(a.size_label.as_str());
    s.append("):\n");
    match &a.read {
        FileRead::Text(content) => s.append(content.as_str()),
        FileRead::NotText => {
            if a.is_image {
                s.append("Image file");
            } else {
                s.append("Binary file");
            }
            s.append(" — content not read as text.");
        },
        FileRead::Failed(error) => {
            s.append("Could not read file: ");
            s.append(error.as_str());
        },
    }
    s.append("\n```");
    s
}

/// The section sent to the model for the attached files (their blocks,
/// one per line break) and their display names for the chat's
/// "attached" summary. No file is dropped: one that did not read as text
/// still gets a block saying so.
pub fn build_attachment_section(files: &[Attachment]) -> (r: (String, Vec<String>))
    ensures
        r.0@ == join(attachment_blocks(files@), "\n"@),
        strings_view(r.1@) == attachment_names(files@),
{
    let mut blocks: Vec<String> = Vec::new();
    let mut names: Vec<String> = Vec::new();
    let mut i: usize = 0;
    while i < files.len()
        invariant
            i <= files@.len(),
            strings_view(blocks@) == attachment_blocks(files@.take(i as int)),
            strings_view(names@) == attachment_names(files@.take(i as int)),
        decreases files.len() - i,
    {
        let ghost (b0, n0) = (blocks@, names@);
        blocks.push(attachment_block_exec(&files[i]));
        names.push(files[i].display_name.clone());
        assert(files@.take(i + 1) =~= files@.take(i as int).push(files@[i as int]));
        assert(strings_view(blocks@) =~= strings_view(b0).push(attachment_block(files@[i as int])));
        assert(strings_view(names@) =~= strings_view(n0).push(files@[i as int].display_name@));
        assert(attachment_blocks(files@.take(i + 1)) =~= attachment_blocks(files@.take(i as int)).push(
            attachment_block(files@[i as int]),
        ));
        assert(attachment_names(files@.take(i + 1)) =~= attachment_names(files@.take(i as int)).push(
            files@[i as int].display_name@,
        ));
        i += 1;
    }
    assert(files@.take(files@.len() as int) =~= files@);
    (join_strings(blocks.as_slice(), "\n"), names)
}

/// The text sent to the model: the prompt, then the attachment section
/// after a blank line (right at the start when the prompt is blank).
pub fn with_attachments(expanded: &str, section: &str) -> (s: String)
    ensures
        section@.len() == 0 ==> s@ == expanded@,
        section@.len() > 0 && trim(expanded@).len() > 0 ==> s@ == expanded@ + "\n\n"@ + section@,
        section@.len() > 0 && trim(expanded@).len() == 0 ==> s@ == expanded@ + section@,
{
    let mut s = expanded.to_owned();
    let v = chars_of(section);
    if v.len() == 0 {
        return s;
    }
    let t = trimmed(expanded);
    let tv = chars_of(t.as_str());
    if tv.len() > 0 {
        s.append("\n\n");
    }
    s.append(section);
    s
}

/// What the chat shows for a prompt sent with attachments: the prompt and
/// a line naming the files (their bodies go to the model only).
pub fn attachment_display(input: &str, names: &[String]) -> (s: String)
    ensures
        s@ == input@ + "\n📎 attached: "@ + join(strings_view(names@), ", "@),
{
    let mut s = input.to_owned();
    s.append("\n📎 attached: ");
    let joined = join_strings(names, ", ");
    s.append(joined.as_str());
    s
}

/// Where a submitted prompt goes.
#[derive(Debug, Clone, Copy, PartialEq, Eq, Structural)]
pub enum SubmitRoute {
    /// Nothing to send (a goal being defined gets a nudge instead).
    Empty,
    /// Goal mode takes the input; if it declines, the input is a turn.
    Goal,
    /// A `/command`.
    Command,
    /// A message turn to the model.
    Turn,
}

/// Where the trimmed prompt `input` goes: nowhere when empty, to the
/// command registry when it starts with `/`, to goal mode while that is on,
/// else to the model.
pub fn submit_route(input: &str, goal_mode: bool) -> (r: SubmitRoute)
    ensures
        input@.len() == 0 ==> r == SubmitRoute::Empty,
        input@.len() > 0 && input@[0] == '/' ==> r == SubmitRoute::Command,
        input@.len() > 0 && input@[0] != '/' && goal_mode ==> r == SubmitRoute::Goal,
        input@.len() > 0 && input@[0] != '/' && !goal_mode ==> r == SubmitRoute::Turn,
{
    let v = chars_of(input);
    if v.len() == 0 {
        SubmitRoute::Empty
    } else if v[0] == '/' {
        SubmitRoute::Command
    } else if goal_mode {
        SubmitRoute::Goal
    } else {
        SubmitRoute::Turn
    }
}

/// The note left when ephemeral background jobs were stopped before a new
/// turn; `None` when none was.
pub fn cleanup_note(killed: usize) -> (n: Option<String>)
    ensures
        killed == 0 ==> n is None,
        killed > 0 ==> (n matches Some(t) && t@ == "Cleaned "@ + decimal(killed as nat)
            + " ephemeral job(s) before the new turn."@),
{
    if killed == 0 {
        return None;
    }
    let mut t = "Cleaned ".to_owned();
    push_decimal(&mut t, killed as u64);
    t.append(" ephemeral job(s) before the new turn.");
    Some(t)
}

} // verus!
