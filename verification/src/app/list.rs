//! List navigation vocabulary and scroll-window arithmetic shared by every
//! panel. Actions (`Enter`, `Space`, letters) are not here: each panel has
//! its own.

use vstd::prelude::*;

verus! {

/// Height of one list row per panel. Keys and rendering both read it from
/// here, so the page step cannot drift from what is on screen.
pub const ROWS_SERVER: u16 = 1;
pub const ROWS_PROVIDER: u16 = 1;
/// A theme takes two rows: name and description.
pub const ROWS_THEME: u16 = 2;
/// A search result takes three: title, snippet, spacer.
pub const ROWS_MATCH: u16 = 3;

/// Chrome rows of a full-screen panel: header and footer frames.
pub const PANEL_CHROME_ROWS: u16 = 8;

pub open spec fn page_rows_spec(terminal_rows: int, rows_per_item: int) -> int {
    let body = if terminal_rows > PANEL_CHROME_ROWS { terminal_rows - PANEL_CHROME_ROWS } else { 0 };
    let per = if rows_per_item > 1 { rows_per_item } else { 1 };
    let n = body / per;
    if n > 1 { n } else { 1 }
}

/// How many list rows fit on a screen `terminal_rows` high, with
/// `rows_per_item` rows per entry (2 for themes, 3 for search). Never 0.
pub fn page_rows(terminal_rows: u16, rows_per_item: u16) -> (n: usize)
    ensures
        n as int == page_rows_spec(terminal_rows as int, rows_per_item as int),
        n >= 1,
{
    let body = terminal_rows.saturating_sub(PANEL_CHROME_ROWS);
    let per = if rows_per_item > 1 { rows_per_item } else { 1 };
    let n = body / per;
    if n > 1 { n as usize } else { 1 }
}

/// Footer hint of a panel with letter aliases.
pub const NAV_HINT: &'static str = "j/k \u{2191}\u{2193} g/G PgUp/Dn";

/// The same for a list filtered by typing: no letters there.
pub const NAV_HINT_ARROWS: &'static str = "\u{2191}\u{2193} Home/End PgUp/Dn";

/// A terminal key code, reduced to the keys the panels and text fields
/// tell apart.
#[derive(Debug, Clone, Copy, PartialEq, Eq, Structural)]
pub enum KeyCode {
    Up,
    Down,
    Left,
    Right,
    PageUp,
    PageDown,
    Home,
    End,
    Enter,
    Esc,
    Tab,
    BackTab,
    Backspace,
    Delete,
    Char(char),
    Other,
}

/// A navigation intent — the one thing every list has in common.
#[derive(Debug, Clone, Copy, PartialEq, Eq, Structural)]
pub enum ListNav {
    Up,
    Down,
    PageUp,
    PageDown,
    First,
    Last,
}

pub open spec fn from_code_spec(code: KeyCode) -> Option<ListNav> {
    match code {
        KeyCode::Up => Some(ListNav::Up),
        KeyCode::Down => Some(ListNav::Down),
        KeyCode::PageUp => Some(ListNav::PageUp),
        KeyCode::PageDown => Some(ListNav::PageDown),
        KeyCode::Home => Some(ListNav::First),
        KeyCode::End => Some(ListNav::Last),
        _ => None,
    }
}

pub open spec fn from_code_vim_spec(code: KeyCode) -> Option<ListNav> {
    match code {
        KeyCode::Char('k') => Some(ListNav::Up),
        KeyCode::Char('j') => Some(ListNav::Down),
        KeyCode::Char('g') => Some(ListNav::First),
        KeyCode::Char('G') => Some(ListNav::Last),
        other => from_code_spec(other),
    }
}

/// Last valid index of a list of `len` entries (0 when empty).
pub open spec fn last_index(len: int) -> int {
    if len > 0 { len - 1 } else { 0 }
}

pub open spec fn min(a: int, b: int) -> int {
    if a <= b { a } else { b }
}

pub open spec fn sat_sub(a: int, b: int) -> int {
    if a >= b { a - b } else { 0 }
}

pub open spec fn move_within_spec(nav: ListNav, selected: int, len: int, page: int) -> int {
    let max = last_index(len);
    let page = if page > 1 { page } else { 1 };
    match nav {
        ListNav::Up => sat_sub(selected, 1),
        ListNav::Down => min(selected + 1, max),
        ListNav::PageUp => sat_sub(selected, page),
        ListNav::PageDown => min(selected + page, max),
        ListNav::First => 0,
        ListNav::Last => max,
    }
}

impl ListNav {
    /// Arrows and Home/End/PageUp/PageDown only — for a list that also takes
    /// typed text, where a letter belongs to the query.
    pub fn from_code(code: KeyCode) -> (r: Option<Self>)
        ensures
            r == from_code_spec(code),
    {
        match code {
            KeyCode::Up => Some(Self::Up),
            KeyCode::Down => Some(Self::Down),
            KeyCode::PageUp => Some(Self::PageUp),
            KeyCode::PageDown => Some(Self::PageDown),
            KeyCode::Home => Some(Self::First),
            KeyCode::End => Some(Self::Last),
            _ => None,
        }
    }

    /// The same plus the vim aliases `k/j/g/G` — for panels where letters
    /// are free.
    pub fn from_code_vim(code: KeyCode) -> (r: Option<Self>)
        ensures
            r == from_code_vim_spec(code),
    {
        match code {
            KeyCode::Char('k') => Some(Self::Up),
            KeyCode::Char('j') => Some(Self::Down),
            KeyCode::Char('g') => Some(Self::First),
            KeyCode::Char('G') => Some(Self::Last),
            other => Self::from_code(other),
        }
    }

    /// The new cursor position — for panels that keep no window.
    pub fn move_within(self, selected: usize, len: usize, page: usize) -> (r: usize)
        ensures
            r as int == move_within_spec(self, selected as int, len as int, page as int),
    {
        let max = len.saturating_sub(1);
        let page = if page > 1 { page } else { 1 };
        match self {
            Self::Up => selected.saturating_sub(1),
            Self::Down => if selected >= max { max } else { selected + 1 },
            Self::PageUp => selected.saturating_sub(page),
            Self::PageDown => if selected >= max || page >= max - selected { max } else { selected + page },
            Self::First => 0,
            Self::Last => max,
        }
    }
}

/// Where the window starts once it follows `selected` from `scroll`.
pub open spec fn follow_spec(selected: int, scroll: int, len: int, visible: int) -> int {
    let page = if visible > 1 { visible } else { 1 };
    let s = if selected < scroll {
        selected
    } else if selected >= scroll + page {
        selected + 1 - page
    } else {
        scroll
    };
    min(s, last_index(len))
}

/// The visible slice for a window that starts at `start`.
pub open spec fn window_spec(start: int, len: int, visible: int) -> ListWindow {
    let v1 = if visible > 1 { visible } else { 1 };
    let s = min(start, sat_sub(len, v1));
    let e = min(s + visible, len);
    ListWindow { start: s as usize, end: e as usize, more_above: s > 0, more_below: e < len }
}

/// A list cursor with its scroll window. The list length is not stored:
/// rows are rebuilt almost everywhere, so it comes in as a parameter.
#[derive(Debug, Clone, Copy, Default, PartialEq, Eq)]
pub struct ListCursor {
    pub selected: usize,
    /// Start of the window. Read from outside only through `window()`.
    scroll: usize,
}

impl ListCursor {
    pub closed spec fn scroll_spec(&self) -> usize {
        self.scroll
    }

    pub closed spec fn selected_spec(&self) -> usize {
        self.selected
    }

    /// A cursor at `selected` whose window starts at `scroll`.
    pub fn at(selected: usize, scroll: usize) -> (c: Self)
        ensures
            c.selected_spec() == selected,
            c.scroll_spec() == scroll,
    {
        ListCursor { selected, scroll }
    }

    /// The row the cursor is on.
    pub fn selected(&self) -> (s: usize)
        ensures
            s == self.selected_spec(),
    {
        self.selected
    }

    /// Where the window starts.
    pub fn scroll(&self) -> (s: usize)
        ensures
            s == self.scroll_spec(),
    {
        self.scroll
    }

    /// Apply a move. `visible` is the window height in list rows.
    pub fn apply(&mut self, nav: ListNav, len: usize, visible: usize)
        ensures
            final(self).selected_spec() as int == move_within_spec(nav, old(self).selected_spec() as int, len as int, visible as int),
            final(self).scroll_spec() as int == follow_spec(final(self).selected_spec() as int, old(self).scroll_spec() as int, len as int, visible as int),
    {
        self.selected = nav.move_within(self.selected, len, visible);
        self.follow(len, visible);
    }

    /// Pull the window to the cursor and both into bounds — after the list
    /// changed under them (filter, removal, reload).
    pub fn clamp(&mut self, len: usize, visible: usize)
        ensures
            final(self).selected_spec() as int == min(old(self).selected_spec() as int, last_index(len as int)),
            final(self).scroll_spec() as int == follow_spec(final(self).selected_spec() as int, old(self).scroll_spec() as int, len as int, visible as int),
    {
        let max = len.saturating_sub(1);
        self.selected = if self.selected <= max { self.selected } else { max };
        self.follow(len, visible);
    }

    /// Put the cursor on `index` and pull the window — for a list with its
    /// own move policy (autocomplete wraps around).
    pub fn move_to(&mut self, index: usize, len: usize, visible: usize)
        ensures
            final(self).selected_spec() as int == min(index as int, last_index(len as int)),
            final(self).scroll_spec() as int == follow_spec(final(self).selected_spec() as int, old(self).scroll_spec() as int, len as int, visible as int),
    {
        let max = len.saturating_sub(1);
        self.selected = if index <= max { index } else { max };
        self.follow(len, visible);
    }

    pub fn reset(&mut self)
        ensures
            final(self).selected_spec() == 0,
            final(self).scroll_spec() == 0,
    {
        self.selected = 0;
        self.scroll = 0;
    }

    /// The visible slice with the stored window: it stays put while the
    /// cursor is inside, so the list does not jump on every key.
    pub fn window(&self, len: usize, visible: usize) -> (w: ListWindow)
        ensures
            w == window_spec(self.scroll_spec() as int, len as int, visible as int),
    {
        ListWindow::new(self.scroll, len, visible)
    }

    /// Keep `scroll` such that `selected` stays inside the window.
    fn follow(&mut self, len: usize, visible: usize)
        ensures
            final(self).selected == old(self).selected,
            final(self).scroll as int == follow_spec(old(self).selected_spec() as int, old(self).scroll as int, len as int, visible as int),
    {
        let page = if visible > 1 { visible } else { 1 };
        if self.selected < self.scroll {
            self.scroll = self.selected;
        } else if self.selected - self.scroll >= page {
            self.scroll = self.selected - (page - 1);
        }
        // The list may have shrunk: never leave the window past its end.
        let max = len.saturating_sub(1);
        if self.scroll > max {
            self.scroll = max;
        }
    }
}

/// The slice of a list that lands on screen, and whether it is cut at
/// either side.
#[derive(Debug, Clone, Copy, PartialEq, Eq)]
pub struct ListWindow {
    pub start: usize,
    pub end: usize,
    pub more_above: bool,
    pub more_below: bool,
}

impl ListWindow {
    fn new(start: usize, len: usize, visible: usize) -> (w: Self)
        ensures
            w == window_spec(start as int, len as int, visible as int),
    {
        // Leave no emptiness below the end of the list: the stored offset may
        // come from a smaller window. A zero-height window draws nothing.
        let v1 = if visible > 1 { visible } else { 1 };
        let limit = len.saturating_sub(v1);
        let start = if start <= limit { start } else { limit };
        let end = if visible >= len - start { len } else { start + visible };
        ListWindow { start, end, more_above: start > 0, more_below: end < len }
    }

    /// The window derived from a cursor alone: the height of a full-screen
    /// panel is only known while drawing, so there is nothing to remember.
    pub fn anchored(selected: usize, len: usize, visible: usize) -> (w: Self)
        ensures
            w == window_spec(sat_sub(selected as int, sat_sub(visible as int, 1)), len as int, visible as int),
    {
        Self::new(selected.saturating_sub(visible.saturating_sub(1)), len, visible)
    }

    /// The indices of the slice.
    pub fn range(&self) -> (r: std::ops::Range<usize>)
        ensures
            r.start == self.start,
            r.end == self.end,
    {
        self.start..self.end
    }
}

/// The cursor is always on screen: after a clamp, a jump or a move from a
/// position inside the list, the stored window of a non-empty list with a
/// window at least one row high contains the selected row.
pub proof fn lemma_cursor_stays_visible(selected: int, scroll: int, len: int, visible: int)
    requires
        0 <= selected < len,
        0 <= scroll,
        visible >= 1,
        len <= usize::MAX,
    ensures
        ({
            let w = window_spec(follow_spec(selected, scroll, len, visible), len, visible);
            w.start <= selected < w.end
        }),
{
}

/// A move never leaves a non-empty list: the cursor lands on a valid row.
pub proof fn lemma_move_stays_in_list(nav: ListNav, selected: int, len: int, page: int)
    requires
        0 <= selected < len,
    ensures
        0 <= move_within_spec(nav, selected, len, page) < len,
{
}

} // verus!
