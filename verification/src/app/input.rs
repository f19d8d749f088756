//! Text-input editing state and operations.
//!
//! [`InputState`] owns the prompt line: its buffer, a cursor and an optional
//! selection anchor (both character indices), and the recall history. Each
//! editing operation is stated over [`InputModel`], the mathematical view
//! of the state, so that byte/char offsets, word boundaries and selection
//! deletion are pinned down exactly.

use vstd::prelude::*;
use crate::text::{
    is_ws, is_whitespace, utf8_len, utf8_width, chars_of, string_of, push_char, push_chars,
    lemma_utf8_len_take_next, lemma_utf8_len_take_le, lemma_utf8_len_encoding,
};

verus! {

/// Whether `c` is alphabetic or numeric in Unicode, as `char::is_alphanumeric`
/// reports it.
pub uninterp spec fn alphanumeric(c: char) -> bool;

/// `char::is_alphanumeric`. Its result is named `alphanumeric`; the Unicode
/// `Alphabetic` and `Numeric` tables behind it are not restated here.
#[verifier::external_body]
fn is_alphanumeric(c: char) -> (b: bool)
    ensures
        b == alphanumeric(c),
{
    c.is_alphanumeric()
}

/// Characters that make up a word for word-wise cursor movement.
pub open spec fn word_char(c: char) -> bool {
    alphanumeric(c) || c == '_'
}

fn char_is_word(ch: char) -> (b: bool)
    ensures
        b == word_char(ch),
{
    is_alphanumeric(ch) || ch == '_'
}

/// Start of the run of whitespace that ends at `i`.
pub open spec fn ws_start(s: Seq<char>, i: int) -> int
    decreases i,
{
    if 0 < i <= s.len() && is_ws(s[i - 1]) {
        ws_start(s, i - 1)
    } else {
        i
    }
}

/// Start of the run of non-whitespace characters of word class `w` that
/// ends at `i`.
pub open spec fn class_start(s: Seq<char>, i: int, w: bool) -> int
    decreases i,
{
    if 0 < i <= s.len() && !is_ws(s[i - 1]) && word_char(s[i - 1]) == w {
        class_start(s, i - 1, w)
    } else {
        i
    }
}

/// End of the run of whitespace that starts at `i`.
pub open spec fn ws_end(s: Seq<char>, i: int) -> int
    decreases s.len() - i,
{
    if 0 <= i < s.len() && is_ws(s[i]) {
        ws_end(s, i + 1)
    } else {
        i
    }
}

/// End of the run of non-whitespace characters of word class `w` that
/// starts at `i`.
pub open spec fn class_end(s: Seq<char>, i: int, w: bool) -> int
    decreases s.len() - i,
{
    if 0 <= i < s.len() && !is_ws(s[i]) && word_char(s[i]) == w {
        class_end(s, i + 1, w)
    } else {
        i
    }
}

/// Where a word-wise move left from `cursor` lands: skip the whitespace
/// before the cursor, then the run of characters of the class (word or
/// punctuation) of the character before that.
pub open spec fn prev_word_start_spec(s: Seq<char>, cursor: int) -> int {
    if cursor <= 0 {
        0
    } else {
        let i = ws_start(s, cursor);
        if i <= 0 {
            0
        } else {
            class_start(s, i, word_char(s[i - 1]))
        }
    }
}

/// Where a word-wise move right from `cursor` lands: skip whitespace, then
/// the run of characters of the class of the first character after it.
pub open spec fn next_word_end_spec(s: Seq<char>, cursor: int) -> int {
    if cursor >= s.len() {
        s.len() as int
    } else {
        let i = ws_end(s, cursor);
        if i >= s.len() {
            s.len() as int
        } else {
            class_end(s, i, word_char(s[i]))
        }
    }
}

proof fn lemma_ws_start_bounds(s: Seq<char>, i: int)
    requires
        0 <= i,
    ensures
        0 <= ws_start(s, i) <= i,
    decreases i,
{
    if 0 < i <= s.len() && is_ws(s[i - 1]) {
        lemma_ws_start_bounds(s, i - 1);
    }
}

proof fn lemma_class_start_bounds(s: Seq<char>, i: int, w: bool)
    requires
        0 <= i,
    ensures
        0 <= class_start(s, i, w) <= i,
    decreases i,
{
    if 0 < i <= s.len() && !is_ws(s[i - 1]) && word_char(s[i - 1]) == w {
        lemma_class_start_bounds(s, i - 1, w);
    }
}

proof fn lemma_ws_end_bounds(s: Seq<char>, i: int)
    requires
        0 <= i <= s.len(),
    ensures
        i <= ws_end(s, i) <= s.len(),
    decreases s.len() - i,
{
    if 0 <= i < s.len() && is_ws(s[i]) {
        lemma_ws_end_bounds(s, i + 1);
    }
}

proof fn lemma_class_end_bounds(s: Seq<char>, i: int, w: bool)
    requires
        0 <= i <= s.len(),
    ensures
        i <= class_end(s, i, w) <= s.len(),
    decreases s.len() - i,
{
    if 0 <= i < s.len() && !is_ws(s[i]) && word_char(s[i]) == w {
        lemma_class_end_bounds(s, i + 1, w);
    }
}

/// A word-wise move left never passes the start nor moves right.
pub proof fn lemma_prev_word_start_bounds(s: Seq<char>, cursor: int)
    requires
        0 <= cursor,
    ensures
        0 <= prev_word_start_spec(s, cursor) <= cursor,
{
    if cursor > 0 {
        lemma_ws_start_bounds(s, cursor);
        let i = ws_start(s, cursor);
        if i > 0 {
            lemma_class_start_bounds(s, i, word_char(s[i - 1]));
        }
    }
}

/// A word-wise move right never passes the end nor moves left (from inside
/// the buffer).
pub proof fn lemma_next_word_end_bounds(s: Seq<char>, cursor: int)
    requires
        0 <= cursor,
    ensures
        next_word_end_spec(s, cursor) <= s.len(),
        cursor <= s.len() ==> cursor <= next_word_end_spec(s, cursor),
{
    if cursor < s.len() {
        lemma_ws_end_bounds(s, cursor);
        let i = ws_end(s, cursor);
        if i < s.len() {
            lemma_class_end_bounds(s, i, word_char(s[i]));
        }
    }
}

fn prev_word_start(chars: &Vec<char>, cursor: usize) -> (r: usize)
    requires
        cursor <= chars.len(),
    ensures
        r == prev_word_start_spec(chars@, cursor as int),
{
    if cursor == 0 {
        return 0;
    }
    let mut i = cursor;
    while i > 0 && is_whitespace(chars[i - 1])
        invariant
            i <= cursor <= chars.len(),
            ws_start(chars@, i as int) == ws_start(chars@, cursor as int),
        decreases i,
    {
        i -= 1;
    }
    if i == 0 {
        return 0;
    }
    let word = char_is_word(chars[i - 1]);
    let ghost top = i as int;
    while i > 0 && char_is_word(chars[i - 1]) == word && !is_whitespace(chars[i - 1])
        invariant
            i <= top <= chars.len(),
            top > 0,
            word == word_char(chars@[top - 1]),
            top == ws_start(chars@, cursor as int),
            class_start(chars@, i as int, word) == class_start(chars@, top, word),
        decreases i,
    {
        i -= 1;
    }
    i
}

fn next_word_end(chars: &Vec<char>, cursor: usize) -> (r: usize)
    ensures
        r == next_word_end_spec(chars@, cursor as int),
{
    let total = chars.len();
    if cursor >= total {
        return total;
    }
    let mut i = cursor;
    while i < total && is_whitespace(chars[i])
        invariant
            cursor <= i <= total == chars.len(),
            ws_end(chars@, i as int) == ws_end(chars@, cursor as int),
        decreases total - i,
    {
        i += 1;
    }
    if i >= total {
        return total;
    }
    let word = char_is_word(chars[i]);
    let ghost low = i as int;
    while i < total && !is_whitespace(chars[i]) && char_is_word(chars[i]) == word
        invariant
            low <= i <= total == chars.len(),
            low < total,
            word == word_char(chars@[low]),
            low == ws_end(chars@, cursor as int),
            class_end(chars@, i as int, word) == class_end(chars@, low, word),
        decreases total - i,
    {
        i += 1;
    }
    i
}

/// Bytes that `c` takes in UTF-8 (`char::len_utf8`).
fn char_width(c: char) -> (w: usize)
    ensures
        w == utf8_width(c),
{
    let u = c as u32;
    if u < 0x80 {
        1
    } else if u < 0x800 {
        2
    } else if u < 0x10000 {
        3
    } else {
        4
    }
}

/// Byte offset of the `char_pos`-th character, or the string's length if
/// `char_pos` is past the end.
pub fn char_to_byte_pos(s: &str, char_pos: usize) -> (r: usize)
    ensures
        r == utf8_len(s@.take(if char_pos < s@.len() { char_pos as int } else { s@.len() as int })),
{
    let chars = chars_of(s);
    let total_bytes = s.as_bytes().len();
    proof {
        lemma_utf8_len_encoding(s@);
    }
    let n = chars.len();
    let stop = if char_pos < n { char_pos } else { n };
    let mut i: usize = 0;
    let mut total: usize = 0;
    while i < stop
        invariant
            i <= stop <= n == s@.len(),
            chars@ == s@,
            utf8_len(s@) == total_bytes,
            total == utf8_len(s@.take(i as int)),
        decreases stop - i,
    {
        proof {
            lemma_utf8_len_take_next(s@, i as int);
            lemma_utf8_len_take_le(s@, i + 1);
        }
        total = total + char_width(chars[i]);
        i += 1;
    }
    total
}

/// `s` without the characters at `[start, end)`, both clamped to its length.
pub open spec fn remove_chars(s: Seq<char>, start: int, end: int) -> Seq<char> {
    let a = if start < s.len() { start } else { s.len() as int };
    let b = if end < s.len() { end } else { s.len() as int };
    s.take(a) + s.skip(b)
}

/// `i`, at most `n`.
pub open spec fn at_most(i: int, n: int) -> int {
    if i < n { i } else { n }
}

/// The mathematical view of [`InputState`]: positions as integers, strings
/// as character sequences.
#[verifier::ext_equal]
pub struct InputModel {
    pub buffer: Seq<char>,
    pub cursor: int,
    pub anchor: Option<int>,
    pub history: Seq<Seq<char>>,
    pub history_index: Option<int>,
    pub unsent: Seq<char>,
}

pub open spec fn opt_int(o: Option<usize>) -> Option<int> {
    match o {
        Some(v) => Some(v as int),
        None => None,
    }
}

impl InputModel {
    /// Cursor and anchor inside the buffer, and the recall position inside
    /// the history.
    pub open spec fn valid(self) -> bool {
        &&& 0 <= self.cursor <= self.buffer.len()
        &&& (self.anchor matches Some(a) ==> 0 <= a <= self.buffer.len())
        &&& (self.history_index matches Some(i) ==> 0 <= i < self.history.len())
    }

    /// The state once the selection, if any, is deleted; the cursor goes to
    /// the selection's start.
    pub open spec fn without_selection(self) -> InputModel {
        match self.anchor {
            None => self,
            Some(a) => {
                let start = if a <= self.cursor { a } else { self.cursor };
                let end = if a <= self.cursor { self.cursor } else { a };
                InputModel {
                    buffer: remove_chars(self.buffer, start, end),
                    cursor: start,
                    anchor: None,
                    ..self
                }
            },
        }
    }

    pub open spec fn insert_char(self, c: char) -> InputModel {
        let m = self.without_selection();
        let k = at_most(m.cursor, m.buffer.len() as int);
        InputModel {
            buffer: m.buffer.take(k).push(c) + m.buffer.skip(k),
            cursor: m.cursor + 1,
            anchor: None,
            ..m
        }
    }

    /// The state after typing the characters of `t` one by one.
    pub open spec fn insert_text(self, t: Seq<char>) -> InputModel
        decreases t.len(),
    {
        if t.len() == 0 {
            self
        } else {
            self.insert_text(t.drop_last()).insert_char(t.last())
        }
    }

    pub open spec fn backspace(self) -> InputModel {
        if self.anchor is Some {
            self.without_selection()
        } else if 0 < self.cursor <= self.buffer.len() {
            InputModel { buffer: self.buffer.remove(self.cursor - 1), cursor: self.cursor - 1, ..self }
        } else {
            self
        }
    }

    pub open spec fn delete_forward(self) -> InputModel {
        if self.anchor is Some {
            self.without_selection()
        } else if 0 <= self.cursor < self.buffer.len() {
            InputModel { buffer: self.buffer.remove(self.cursor), ..self }
        } else {
            self
        }
    }

    /// On a cursor move: extend the selection (shift held) or collapse it.
    pub open spec fn anchored(self, extend: bool) -> InputModel {
        if !extend {
            InputModel { anchor: None, ..self }
        } else if self.anchor is None {
            InputModel { anchor: Some(self.cursor), ..self }
        } else {
            self
        }
    }

    pub open spec fn move_left(self, extend: bool, word: bool) -> InputModel {
        let m = self.anchored(extend);
        let clamped = at_most(m.cursor, m.buffer.len() as int);
        InputModel {
            cursor: if word {
                prev_word_start_spec(m.buffer, clamped)
            } else if clamped > 0 {
                clamped - 1
            } else {
                0
            },
            ..m
        }
    }

    pub open spec fn move_right(self, extend: bool, word: bool) -> InputModel {
        let m = self.anchored(extend);
        InputModel {
            cursor: if word {
                next_word_end_spec(m.buffer, m.cursor)
            } else if m.cursor < m.buffer.len() {
                m.cursor + 1
            } else {
                m.cursor
            },
            ..m
        }
    }

    pub open spec fn move_home(self, extend: bool) -> InputModel {
        InputModel { cursor: 0, ..self.anchored(extend) }
    }

    pub open spec fn move_end(self, extend: bool) -> InputModel {
        let m = self.anchored(extend);
        InputModel { cursor: m.buffer.len() as int, ..m }
    }

    pub open spec fn select_all(self) -> InputModel {
        InputModel { anchor: Some(0), cursor: self.buffer.len() as int, ..self }
    }

    /// The buffer replaced by history entry `i`, cursor at its end.
    pub open spec fn recall(self, i: int) -> InputModel {
        InputModel {
            buffer: self.history[i],
            cursor: self.history[i].len() as int,
            anchor: None,
            history_index: Some(i),
            ..self
        }
    }

    pub open spec fn history_prev(self) -> InputModel {
        if self.history.len() == 0 {
            self
        } else {
            match self.history_index {
                None => InputModel { unsent: self.buffer, ..self }.recall(self.history.len() - 1),
                Some(i) => if i > 0 {
                    self.recall(i - 1)
                } else {
                    self
                },
            }
        }
    }

    pub open spec fn history_next(self) -> InputModel {
        match self.history_index {
            Some(i) if i + 1 < self.history.len() => self.recall(i + 1),
            _ => InputModel {
                buffer: self.unsent,
                cursor: self.unsent.len() as int,
                anchor: None,
                history_index: None,
                unsent: Seq::empty(),
                ..self
            },
        }
    }
}

/// Editable state of the prompt input line.
#[derive(Debug, Clone)]
pub struct InputState {
    /// Current text in the prompt.
    pub buffer: String,
    /// Cursor position as a character index into `buffer`.
    pub cursor: usize,
    /// Anchor of an active selection, if any (character index into `buffer`).
    pub selection_anchor: Option<usize>,
    /// Previously submitted inputs, for up/down recall.
    pub history: Vec<String>,
    /// Position within `history` while recalling; `None` when editing fresh.
    pub history_index: Option<usize>,
    /// Buffer stashed when the user starts browsing history, restored on exit.
    pub unsent: String,
}

impl View for InputState {
    type V = InputModel;

    open spec fn view(&self) -> InputModel {
        InputModel {
            buffer: self.buffer@,
            cursor: self.cursor as int,
            anchor: opt_int(self.selection_anchor),
            history: self.history@.map_values(|h: String| h@),
            history_index: opt_int(self.history_index),
            unsent: self.unsent@,
        }
    }
}

impl Default for InputState {
    fn default() -> (s: InputState)
        ensures
            s@.buffer == Seq::<char>::empty(),
            s@.cursor == 0,
            s@.anchor is None,
            s@.history == Seq::<Seq<char>>::empty(),
            s@.history_index is None,
            s@.unsent == Seq::<char>::empty(),
    {
        let s = InputState {
            buffer: String::new(),
            cursor: 0,
            selection_anchor: None,
            history: Vec::new(),
            history_index: None,
            unsent: String::new(),
        };
        assert(s@.history =~= Seq::<Seq<char>>::empty());
        s
    }
}

/// Typing text leaves no selection and the cursor just past the text.
pub proof fn lemma_insert_text_cursor(m: InputModel, t: Seq<char>)
    ensures
        t.len() > 0 ==> m.insert_text(t).anchor is None && m.insert_text(t).cursor == m.without_selection().cursor
            + t.len(),
    decreases t.len(),
{
    if t.len() == 1 {
        assert(t.drop_last().len() == 0);
        assert(m.insert_text(t.drop_last()) == m);
    } else if t.len() > 1 {
        lemma_insert_text_cursor(m, t.drop_last());
        let x = m.insert_text(t.drop_last());
        assert(x.without_selection() == x);
    }
}

/// The prompt ends in a backslash with the cursor right after it.
pub open spec fn continues_line(m: InputModel) -> bool {
    m.buffer.len() > 0 && m.buffer.last() == '\\' && m.cursor == m.buffer.len()
}

impl InputState {
    fn char_count(&self) -> (n: usize)
        ensures
            n == self.buffer@.len(),
    {
        self.buffer.as_str().unicode_len()
    }

    /// On a cursor move: extend the selection (shift held) or collapse it.
    fn anchor_for_move(&mut self, extend: bool)
        ensures
            final(self)@ == old(self)@.anchored(extend),
    {
        if !extend {
            self.selection_anchor = None;
        } else if self.selection_anchor.is_none() {
            self.selection_anchor = Some(self.cursor);
        }
    }

    /// Delete the active selection, if any. Returns whether anything was removed.
    pub fn delete_selection(&mut self) -> (removed: bool)
        ensures
            removed == (old(self)@.anchor is Some),
            final(self)@ == old(self)@.without_selection(),
    {
        let anchor = match self.selection_anchor {
            Some(a) => a,
            None => {
                return false;
            },
        };
        self.selection_anchor = None;
        let (start, end) = if anchor <= self.cursor {
            (anchor, self.cursor)
        } else {
            (self.cursor, anchor)
        };
        let chars = chars_of(self.buffer.as_str());
        let n = chars.len();
        let a = if start < n { start } else { n };
        let b = if end < n { end } else { n };
        let mut kept = string_of(&chars, 0, a);
        push_chars(&mut kept, &chars, b, n);
        assert(chars@.subrange(0, a as int) == chars@.take(a as int));
        assert(chars@.subrange(b as int, n as int) == chars@.skip(b as int));
        self.buffer = kept;
        self.cursor = start;
        true
    }

    fn insert_at_cursor(&mut self, c: char)
        requires
            old(self).selection_anchor is None,
            old(self).cursor < usize::MAX,
        ensures
            final(self)@ == old(self)@.insert_char(c),
    {
        let chars = chars_of(self.buffer.as_str());
        let n = chars.len();
        let k = if self.cursor < n { self.cursor } else { n };
        let mut s = string_of(&chars, 0, k);
        push_char(&mut s, c);
        push_chars(&mut s, &chars, k, n);
        assert(chars@.subrange(0, k as int) == chars@.take(k as int));
        assert(chars@.subrange(k as int, n as int) == chars@.skip(k as int));
        self.buffer = s;
        self.cursor = self.cursor + 1;
    }

    /// Insert a character at the cursor, replacing any selection first.
    pub fn insert_char(&mut self, c: char)
        requires
            old(self)@.without_selection().cursor < usize::MAX,
        ensures
            final(self)@ == old(self)@.insert_char(c),
    {
        self.delete_selection();
        self.insert_at_cursor(c);
    }

    /// Insert `text` at the cursor as if typed, replacing any selection
    /// first.
    pub fn insert_str(&mut self, text: &str)
        requires
            old(self)@.without_selection().cursor + text@.len() < usize::MAX,
        ensures
            final(self)@ == old(self)@.insert_text(text@),
    {
        let v = chars_of(text);
        let ghost start = self@;
        let mut i: usize = 0;
        while i < v.len()
            invariant
                i <= v@.len(),
                v@ == text@,
                start.without_selection().cursor + v@.len() < usize::MAX,
                self@ == start.insert_text(v@.take(i as int)),
            decreases v.len() - i,
        {
            proof {
                lemma_insert_text_cursor(start, v@.take(i as int));
                assert(v@.take(i + 1).drop_last() =~= v@.take(i as int));
                if i == 0 {
                    assert(v@.take(0) =~= Seq::<char>::empty());
                }
            }
            self.insert_char(v[i]);
            i += 1;
        }
        assert(v@.take(v@.len() as int) =~= v@);
    }
    /// Enter on a prompt that ends in `\` with the cursor right after it:
    /// the backslash becomes a newline and nothing is sent (line
    /// continuation). Returns whether that happened.
    pub fn continue_line(&mut self) -> (b: bool)
        ensures
            b == continues_line(old(self)@),
            b ==> final(self)@ == (InputModel {
                buffer: old(self)@.buffer.drop_last(),
                cursor: old(self)@.cursor - 1,
                ..old(self)@
            }).insert_char('\n'),
            !b ==> final(self)@ == old(self)@,
    {
        let v = chars_of(self.buffer.as_str());
        let n = v.len();
        if n > 0 && v[n - 1] == '\\' && self.cursor == n {
            self.buffer = string_of(&v, 0, n - 1);
            self.cursor = n - 1;
            assert(v@.subrange(0, n - 1) =~= v@.drop_last());
            self.insert_newline();
            true
        } else {
            false
        }
    }


    /// Insert a newline at the cursor, replacing any selection first.
    pub fn insert_newline(&mut self)
        requires
            old(self)@.without_selection().cursor < usize::MAX,
        ensures
            final(self)@ == old(self)@.insert_char('\n'),
    {
        self.delete_selection();
        self.insert_at_cursor('\n');
    }

    /// Delete the character before the cursor, or the selection if there is one.
    pub fn backspace(&mut self)
        ensures
            final(self)@ == old(self)@.backspace(),
    {
        if self.selection_anchor.is_some() {
            self.delete_selection();
            return;
        }
        let chars = chars_of(self.buffer.as_str());
        let n = chars.len();
        if self.cursor > 0 && self.cursor <= n {
            let k = self.cursor - 1;
            let mut s = string_of(&chars, 0, k);
            push_chars(&mut s, &chars, k + 1, n);
            assert(s@ == chars@.remove(k as int));
            self.buffer = s;
            self.cursor = k;
        }
    }

    /// Delete the character at the cursor, or the selection if there is one.
    pub fn delete_forward(&mut self)
        ensures
            final(self)@ == old(self)@.delete_forward(),
    {
        if self.selection_anchor.is_some() {
            self.delete_selection();
            return;
        }
        let chars = chars_of(self.buffer.as_str());
        let n = chars.len();
        if self.cursor < n {
            let k = self.cursor;
            let mut s = string_of(&chars, 0, k);
            push_chars(&mut s, &chars, k + 1, n);
            assert(s@ == chars@.remove(k as int));
            self.buffer = s;
        }
    }

    /// Move the cursor left by one character, or one word when `word` is set.
    pub fn move_left(&mut self, extend: bool, word: bool)
        ensures
            final(self)@ == old(self)@.move_left(extend, word),
    {
        self.anchor_for_move(extend);
        let chars = chars_of(self.buffer.as_str());
        let n = chars.len();
        let clamped = if self.cursor < n { self.cursor } else { n };
        self.cursor = if word {
            prev_word_start(&chars, clamped)
        } else {
            clamped.saturating_sub(1)
        };
    }

    /// Move the cursor right by one character, or one word when `word` is set.
    pub fn move_right(&mut self, extend: bool, word: bool)
        ensures
            final(self)@ == old(self)@.move_right(extend, word),
    {
        self.anchor_for_move(extend);
        let chars = chars_of(self.buffer.as_str());
        let n = chars.len();
        self.cursor = if word {
            next_word_end(&chars, self.cursor)
        } else if self.cursor < n {
            self.cursor + 1
        } else {
            self.cursor
        };
    }

    /// Move the cursor to the start of the buffer.
    pub fn move_home(&mut self, extend: bool)
        ensures
            final(self)@ == old(self)@.move_home(extend),
    {
        self.anchor_for_move(extend);
        self.cursor = 0;
    }

    /// Move the cursor to the end of the buffer.
    pub fn move_end(&mut self, extend: bool)
        ensures
            final(self)@ == old(self)@.move_end(extend),
    {
        self.anchor_for_move(extend);
        self.cursor = self.char_count();
    }

    /// Select the entire buffer.
    pub fn select_all(&mut self)
        ensures
            final(self)@ == old(self)@.select_all(),
    {
        self.selection_anchor = Some(0);
        self.cursor = self.char_count();
    }

    fn recall(&mut self, i: usize)
        requires
            i < old(self).history.len(),
        ensures
            final(self)@ == old(self)@.recall(i as int),
    {
        self.buffer = self.history[i].clone();
        self.cursor = self.char_count();
        self.selection_anchor = None;
        self.history_index = Some(i);
    }

    /// Recall the previous (older) history entry. On first recall the current
    /// buffer is stashed in `unsent`.
    pub fn history_prev(&mut self)
        requires
            old(self)@.history_index matches Some(i) ==> i <= old(self)@.history.len(),
        ensures
            final(self)@ == old(self)@.history_prev(),
    {
        if self.history.len() == 0 {
            return;
        }
        match self.history_index {
            None => {
                self.unsent = self.buffer.clone();
                let last = self.history.len() - 1;
                self.recall(last);
            },
            Some(i) => {
                if i > 0 {
                    self.recall(i - 1);
                }
            },
        }
    }

    /// Recall the next (newer) history entry, restoring the stashed `unsent`
    /// buffer once past the most recent entry.
    pub fn history_next(&mut self)
        requires
            old(self)@.history_index matches Some(i) ==> i < usize::MAX,
        ensures
            final(self)@ == old(self)@.history_next(),
    {
        match self.history_index {
            Some(i) if i + 1 < self.history.len() => {
                self.recall(i + 1);
            },
            _ => {
                let restored = self.unsent.clone();
                self.unsent = String::new();
                self.buffer = restored;
                self.cursor = self.char_count();
                self.history_index = None;
                self.selection_anchor = None;
            },
        }
    }
}

/// Every editing operation keeps the cursor and the selection anchor inside
/// the buffer and the recall position inside the history.
pub proof fn lemma_edits_keep_valid(m: InputModel, c: char, extend: bool, word: bool)
    requires
        m.valid(),
    ensures
        m.without_selection().valid(),
        m.insert_char(c).valid(),
        m.backspace().valid(),
        m.delete_forward().valid(),
        m.move_left(extend, word).valid(),
        m.move_right(extend, word).valid(),
        m.move_home(extend).valid(),
        m.move_end(extend).valid(),
        m.select_all().valid(),
        m.history_prev().valid(),
        m.history_next().valid(),
{
    let n = m.buffer.len() as int;
    lemma_prev_word_start_bounds(m.buffer, at_most(m.cursor, n));
    lemma_next_word_end_bounds(m.buffer, m.cursor);
}

/// Typing a character and deleting it again with backspace gives back the
/// state it started from, when nothing was selected.
pub proof fn lemma_insert_then_backspace(m: InputModel, c: char)
    requires
        m.anchor is None,
        0 <= m.cursor <= m.buffer.len(),
    ensures
        m.insert_char(c).backspace() == m,
{
    let k = m.cursor;
    let b = m.insert_char(c).buffer;
    assert(b.remove(k) =~= m.buffer);
}

/// Selecting everything and typing a character leaves just that character.
pub proof fn lemma_select_all_then_insert(m: InputModel, c: char)
    ensures
        m.select_all().insert_char(c).buffer == seq![c],
        m.select_all().insert_char(c).cursor == 1,
        m.select_all().insert_char(c).anchor is None,
{
    let s = m.select_all().without_selection();
    assert(s.buffer =~= Seq::<char>::empty());
    assert(s.buffer.take(0).push(c) + s.buffer.skip(0) =~= seq![c]);
}

/// Stepping into the history and straight back out restores the draft that
/// was being edited, with the cursor at its end.
pub proof fn lemma_history_round_trip(m: InputModel)
    requires
        m.history.len() > 0,
        m.history_index is None,
    ensures
        m.history_prev().history_next().buffer == m.buffer,
        m.history_prev().history_next().cursor == m.buffer.len(),
        m.history_prev().history_next().history_index is None,
        m.history_prev().history_next().anchor is None,
        m.history_prev().history_next().history == m.history,
{
}

} // verus!
