//! Autocomplete: which suggestions the prompt asks for (`/command` or
//! `@file`), the dropdown navigation it intercepts, and the prompt text an
//! accepted command leaves. Listing files and asking the command registry
//! is the app's.

use vstd::prelude::*;
use crate::app::{AUTOCOMPLETE_VISIBLE, AutocompleteState};
use crate::app::list::{KeyCode, follow_spec, last_index, min};
use crate::commands::CommandSuggestion;
use crate::text::{chars_of, is_whitespace, is_ws, split_words, string_of, strings_view, words};

verus! {

/// Index of the last `'@'` of `s`.
pub open spec fn last_at(s: Seq<char>) -> Option<int>
    decreases s.len(),
{
    if s.len() == 0 {
        None
    } else if s.last() == '@' {
        Some(s.len() - 1)
    } else {
        last_at(s.drop_last())
    }
}

/// The first whitespace-separated word of `s`, empty when there is none.
pub open spec fn first_word(s: Seq<char>) -> Seq<char> {
    if words(s).len() > 0 {
        words(s)[0]
    } else {
        Seq::empty()
    }
}

/// Some character of `s` is whitespace.
pub open spec fn has_ws(s: Seq<char>) -> bool {
    exists|i: int| 0 <= i < s.len() && is_ws(#[trigger] s[i])
}

/// What the prompt asks the popup for.
#[derive(Debug, Clone, PartialEq, Eq)]
pub enum Completion {
    /// Files whose names start with the path after the last `@`.
    Files(String),
    /// Commands matching the text after `/`.
    Commands(String),
    /// Nothing: the popup closes.
    Off,
}

/// `c` is what `buffer` asks for. An `@path` after the last `@` asks for
/// files; else a `/` at the start with no whitespace after it asks for
/// commands; nothing is asked while a turn runs or a modal is open.
pub open spec fn completes_as(c: Completion, buffer: Seq<char>, busy: bool, modal_open: bool) -> bool {
    let path = match last_at(buffer) {
        Some(k) => first_word(buffer.skip(k + 1)),
        None => Seq::empty(),
    };
    if last_at(buffer) is Some && path.len() > 0 && !busy && !modal_open {
        c matches Completion::Files(p) && p@ == path
    } else if buffer.len() > 0 && buffer[0] == '/' && !busy && !modal_open && !has_ws(buffer.skip(1)) {
        c matches Completion::Commands(q) && q@ == buffer.skip(1)
    } else {
        c is Off
    }
}

proof fn lemma_last_at(s: Seq<char>)
    ensures
        last_at(s) matches Some(k) ==> 0 <= k < s.len() && s[k] == '@' && forall|j: int| k < j < s.len() ==> s[j] != '@',
        last_at(s) is None ==> forall|j: int| 0 <= j < s.len() ==> s[j] != '@',
    decreases s.len(),
{
    if s.len() > 0 && s.last() != '@' {
        lemma_last_at(s.drop_last());
        assert forall|j: int| 0 <= j < s.len() - 1 implies s.drop_last()[j] == s[j] by {}
    }
}

/// Position of the last `'@'` of `v`.
fn find_last_at(v: &Vec<char>) -> (r: Option<usize>)
    ensures
        r matches Some(a) ==> a < v@.len() && last_at(v@) == Some(a as int),
        r is None ==> last_at(v@) is None,
{
    proof { lemma_last_at(v@); }
    let mut k = v.len();
    while k > 0
        invariant
            k <= v@.len(),
            forall|j: int| k <= j < v@.len() ==> v@[j] != '@',
        decreases k,
    {
        k -= 1;
        if v[k] == '@' {
            proof { lemma_last_at(v@); }
            return Some(k);
        }
    }
    None
}

/// Whether some character of `v` from position 1 on is whitespace.
fn whitespace_after_first(v: &Vec<char>) -> (b: bool)
    requires
        v@.len() > 0,
    ensures
        b == has_ws(v@.skip(1)),
{
    let mut i: usize = 1;
    while i < v.len()
        invariant
            1 <= i <= v@.len(),
            forall|j: int| 1 <= j < i ==> !is_ws(v@[j]),
        decreases v.len() - i,
    {
        if is_whitespace(v[i]) {
            assert(v@.skip(1)[i - 1] == v@[i as int]);
            assert(is_ws(v@.skip(1)[i - 1]));
            return true;
        }
        i += 1;
    }
    assert forall|j: int| 0 <= j < v@.skip(1).len() implies !is_ws(#[trigger] v@.skip(1)[j]) by {
        assert(v@.skip(1)[j] == v@[j + 1]);
    }
    false
}

/// What `buffer` asks the popup for.
pub fn completion_for(buffer: &str, busy: bool, modal_open: bool) -> (c: Completion)
    ensures
        completes_as(c, buffer@, busy, modal_open),
{
    let v = chars_of(buffer);
    let at = find_last_at(&v);
    if let Some(a) = at {
        let rest = string_of(&v, a + 1, v.len());
        assert(rest@ == v@.skip(a + 1));
        let found = split_words(rest.as_str());
        if found.len() > 0 {
            assert(found@[0]@ == strings_view(found@)[0]);
            assert(found@[0]@ == first_word(v@.skip(a + 1)));
            if found[0].as_str().unicode_len() > 0 && !busy && !modal_open {
                return Completion::Files(found[0].clone());
            }
        } else {
            assert(words(v@.skip(a + 1)).len() == 0);
            assert(first_word(v@.skip(a + 1)).len() == 0);
        }
    }
    if v.len() > 0 && v[0] == '/' && !busy && !modal_open {
        if whitespace_after_first(&v) {
            return Completion::Off;
        }
        let q = string_of(&v, 1, v.len());
        assert(q@ == v@.skip(1));
        return Completion::Commands(q);
    }
    Completion::Off
}

/// The popup's row after `selected`, wrapping to the first.
pub open spec fn next_row(selected: int, n: int) -> int {
    (selected + 1) % n
}

/// The popup's row before `selected`, wrapping to the last.
pub open spec fn prev_row(selected: int, n: int) -> int {
    (selected + n - 1) % n
}

/// What a key did to the open popup.
#[derive(Debug, Clone, Copy, PartialEq, Eq)]
pub enum AutocompleteKey {
    /// Not the popup's key: it goes on to the prompt.
    Pass,
    /// The cursor moved.
    Moved,
    /// Accept the selected suggestion.
    Accept,
}

impl AutocompleteState {
    /// The popup shows and owns the navigation keys.
    pub open spec fn open_spec(&self, modal_open: bool) -> bool {
        self.visible && self.items@.len() > 0 && !modal_open
    }

    pub fn is_open(&self, modal_open: bool) -> (b: bool)
        ensures
            b == self.open_spec(modal_open),
    {
        self.visible && self.items.len() > 0 && !modal_open
    }

    /// Move to the next row, wrapping around, and keep it in the window.
    pub fn select_next(&mut self)
        requires
            old(self).items@.len() > 0,
        ensures
            final(self).cursor.selected_spec() as int == next_row(
                old(self).cursor.selected_spec() as int,
                old(self).items@.len() as int,
            ),
            final(self).cursor.scroll_spec() as int == follow_spec(
                final(self).cursor.selected_spec() as int,
                old(self).cursor.scroll_spec() as int,
                old(self).items@.len() as int,
                AUTOCOMPLETE_VISIBLE as int,
            ),
            final(self).items@ == old(self).items@,
            final(self).visible == old(self).visible,
            final(self).file_mode == old(self).file_mode,
    {
        let n = self.items.len();
        let r = self.cursor.selected() % n;
        let next = if r + 1 == n { 0 } else { r + 1 };
        proof {
            let s = self.cursor.selected_spec() as int;
            vstd::arithmetic::div_mod::lemma_add_mod_noop(s, 1, n as int);
            if n == 1 {
                vstd::arithmetic::div_mod::lemma_mod_self_0(1);
                vstd::arithmetic::div_mod::lemma_mod_self_0(n as int);
            } else {
                vstd::arithmetic::div_mod::lemma_small_mod(1, n as nat);
                if r + 1 < n {
                    vstd::arithmetic::div_mod::lemma_small_mod((r + 1) as nat, n as nat);
                } else {
                    vstd::arithmetic::div_mod::lemma_mod_self_0(n as int);
                }
            }
        }
        self.cursor.move_to(next, n, AUTOCOMPLETE_VISIBLE);
    }

    /// Move to the previous row, wrapping around, and keep it in the window.
    pub fn select_prev(&mut self)
        requires
            old(self).items@.len() > 0,
        ensures
            final(self).cursor.selected_spec() as int == prev_row(
                old(self).cursor.selected_spec() as int,
                old(self).items@.len() as int,
            ),
            final(self).cursor.scroll_spec() as int == follow_spec(
                final(self).cursor.selected_spec() as int,
                old(self).cursor.scroll_spec() as int,
                old(self).items@.len() as int,
                AUTOCOMPLETE_VISIBLE as int,
            ),
            final(self).items@ == old(self).items@,
            final(self).visible == old(self).visible,
            final(self).file_mode == old(self).file_mode,
    {
        let n = self.items.len();
        let r = self.cursor.selected() % n;
        let prev = if r == 0 { n - 1 } else { r - 1 };
        proof {
            let s = self.cursor.selected_spec() as int;
            vstd::arithmetic::div_mod::lemma_add_mod_noop(s, n - 1, n as int);
            vstd::arithmetic::div_mod::lemma_small_mod((n - 1) as nat, n as nat);
            if r == 0 {
                vstd::arithmetic::div_mod::lemma_small_mod((n - 1) as nat, n as nat);
            } else {
                vstd::arithmetic::div_mod::lemma_mod_add_multiples_vanish((r - 1) as int, n as int);
                vstd::arithmetic::div_mod::lemma_small_mod((r - 1) as nat, n as nat);
            }
        }
        self.cursor.move_to(prev, n, AUTOCOMPLETE_VISIBLE);
    }

    /// Fill the popup: it shows when there is anything to show, with the
    /// cursor on the first row.
    pub fn show(&mut self, items: Vec<CommandSuggestion>, file_mode: bool)
        ensures
            final(self).items@ == items@,
            final(self).visible == (items@.len() > 0),
            final(self).cursor.selected_spec() == 0,
            final(self).cursor.scroll_spec() == 0,
            final(self).file_mode == file_mode,
    {
        self.visible = items.len() > 0;
        self.items = items;
        self.cursor.reset();
        self.file_mode = file_mode;
    }

    /// Close the popup and drop its suggestions.
    pub fn close(&mut self)
        ensures
            !final(self).visible,
            final(self).items@.len() == 0,
            final(self).cursor.selected_spec() == 0,
            final(self).cursor.scroll_spec() == old(self).cursor.scroll_spec(),
            final(self).file_mode == old(self).file_mode,
    {
        self.visible = false;
        self.items.clear();
        self.cursor = crate::app::list::ListCursor::at(0, self.cursor.scroll());
    }

    /// The row an accept takes: the cursor's, pulled back onto the list.
    /// `None` when the popup is closed or empty.
    pub fn accepted_index(&self) -> (i: Option<usize>)
        ensures
            !self.visible || self.items@.len() == 0 ==> i is None,
            self.visible && self.items@.len() > 0 ==> i == Some(
                min(self.cursor.selected_spec() as int, last_index(self.items@.len() as int)) as usize,
            ),
    {
        if !self.visible || self.items.len() == 0 {
            return None;
        }
        let last = self.items.len() - 1;
        let selected = self.cursor.selected();
        Some(if selected <= last { selected } else { last })
    }
}

/// What `code` does while the popup is up. The popup owns only bare
/// Tab/BackTab/Up/Down, and Enter while no turn runs; a modified key
/// (`modified`: Ctrl or Alt held) always goes on, so history recall keeps
/// working under a popup it opened.
pub fn autocomplete_key(
    state: &mut AutocompleteState,
    code: KeyCode,
    modified: bool,
    busy: bool,
    modal_open: bool,
) -> (r: AutocompleteKey)
    ensures
        !old(state).open_spec(modal_open) || modified ==> r == AutocompleteKey::Pass,
        old(state).open_spec(modal_open) && !modified && (code == KeyCode::Tab || code == KeyCode::Down)
            ==> r == AutocompleteKey::Moved && final(state).cursor.selected_spec() as int == next_row(
            old(state).cursor.selected_spec() as int,
            old(state).items@.len() as int,
        ),
        old(state).open_spec(modal_open) && !modified && (code == KeyCode::BackTab || code == KeyCode::Up)
            ==> r == AutocompleteKey::Moved && final(state).cursor.selected_spec() as int == prev_row(
            old(state).cursor.selected_spec() as int,
            old(state).items@.len() as int,
        ),
        old(state).open_spec(modal_open) && !modified && code == KeyCode::Enter ==> r == if busy {
            AutocompleteKey::Pass
        } else {
            AutocompleteKey::Accept
        },
        r != AutocompleteKey::Moved ==> final(state).cursor == old(state).cursor,
        final(state).items@ == old(state).items@,
        final(state).visible == old(state).visible,
        final(state).file_mode == old(state).file_mode,
{
    if !state.is_open(modal_open) || modified {
        return AutocompleteKey::Pass;
    }
    match code {
        KeyCode::Tab | KeyCode::Down => {
            state.select_next();
            AutocompleteKey::Moved
        },
        KeyCode::BackTab | KeyCode::Up => {
            state.select_prev();
            AutocompleteKey::Moved
        },
        KeyCode::Enter => {
            if busy {
                AutocompleteKey::Pass
            } else {
                AutocompleteKey::Accept
            }
        },
        _ => AutocompleteKey::Pass,
    }
}

/// The prompt after a command suggestion is accepted: `/name ` ready for
/// its arguments.
pub fn accepted_command_buffer(name: &str) -> (b: String)
    ensures
        b@ == "/"@ + name@ + " "@,
{
    let mut b = "/".to_owned();
    b.append(name);
    b.append(" ");
    b
}


/// `s` without its trailing `'/'` characters (`trim_end_matches('/')`).
pub open spec fn trim_end_slashes(s: Seq<char>) -> Seq<char>
    decreases s.len(),
{
    if s.len() > 0 && s.last() == '/' {
        trim_end_slashes(s.drop_last())
    } else {
        s
    }
}

/// The text before the last `'@'` of `s`; all of it goes when there is none.
pub open spec fn before_last_at(s: Seq<char>) -> Seq<char> {
    match last_at(s) {
        Some(k) => s.take(k),
        None => Seq::empty(),
    }
}

/// The prompt after a directory suggestion `name` is accepted in file mode:
/// the text before the last `@`, then `@`, the name without its trailing
/// slashes and a single `/`, ready to complete inside the directory.
pub fn accepted_dir_buffer(buffer: &str, name: &str) -> (b: String)
    ensures
        b@ == before_last_at(buffer@) + "@"@ + trim_end_slashes(name@) + "/"@,
{
    let v = chars_of(buffer);
    let before = match find_last_at(&v) {
        Some(k) => string_of(&v, 0, k),
        None => String::new(),
    };
    let n = chars_of(name);
    let mut j = n.len();
    assert(n@.take(j as int) =~= n@);
    while j > 0 && n[j - 1] == '/'
        invariant
            j <= n@.len(),
            trim_end_slashes(n@) == trim_end_slashes(n@.take(j as int)),
        decreases j,
    {
        assert(n@.take(j as int).drop_last() =~= n@.take(j - 1));
        j -= 1;
    }
    assert(trim_end_slashes(n@.take(j as int)) == n@.take(j as int));
    assert(n@.subrange(0, j as int) =~= n@.take(j as int));
    let mut b = before;
    b.append("@");
    let trimmed_name = string_of(&n, 0, j);
    b.append(trimmed_name.as_str());
    b.append("/");
    proof {
        assert(v@.subrange(0, v@.len() as int) =~= v@);
        if let Some(k) = last_at(buffer@) {
            assert(v@.subrange(0, k) =~= buffer@.take(k));
        }
    }
    b
}

} // verus!
