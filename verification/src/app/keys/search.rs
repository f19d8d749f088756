//! Keys for the `/search` screen. Two focus zones: the query line owns
//! plain characters (text editing), the result list owns navigation and
//! single-letter actions — so `s`/`r`/`u` can be hotkeys without fighting
//! the input field.

use vstd::prelude::*;
use crate::app::keys::{apply_text_key, inserts, text_key_effect, KeyPress};
use crate::app::list::{
    from_code_vim_spec, move_within_spec, page_rows, page_rows_spec, KeyCode, ListNav, ROWS_MATCH,
};
use crate::app::search::{
    filter_next, sort_next, visible_spec, SearchFocus, SearchViewState,
};
use crate::text::{trim, trimmed};

verus! {

/// What the app must do after a keystroke on the search screen.
#[derive(Debug)]
pub enum SearchAction {
    Nothing,
    /// Leave the screen for the chat.
    CloseView,
    /// Run a history search for this query.
    StartSearch(String),
    /// Leave for the chat and load this session.
    LoadSession(String),
}

/// The hits shown for the state's settings.
pub open spec fn shown(s: SearchViewState) -> Seq<usize> {
    visible_spec(s.matches@, s.sort, s.role_filter, s.unique_sessions)
}

/// Whether the keystroke can be taken without overflowing the query cursor.
pub open spec fn search_key_fits(s: SearchViewState, key: KeyPress) -> bool {
    s.focus == SearchFocus::Query && inserts(key, false) ==> s.query@.without_selection().cursor < usize::MAX
}

/// The effect of a keystroke while the query line has the focus.
pub open spec fn query_key_ok(old: SearchViewState, key: KeyPress, new: SearchViewState, a: SearchAction) -> bool {
    match key.code {
        KeyCode::Esc => a is CloseView && new == old,
        KeyCode::Enter => new == old && if trim(old.query@.buffer).len() > 0 {
            a matches SearchAction::StartSearch(q) && q@ == trim(old.query@.buffer)
        } else {
            a is Nothing
        },
        _ => if (key.code == KeyCode::Down || key.code == KeyCode::Tab) && shown(old).len() > 0 {
            a is Nothing && new == (SearchViewState { focus: SearchFocus::Results, ..old })
        } else {
            &&& a is Nothing
            &&& new.query@ == text_key_effect(old.query@, key, false)
            &&& new == (SearchViewState { query: new.query, ..old })
        },
    }
}

/// The effect of a keystroke while the result list has the focus, the
/// selection first pulled into the list (`sel`).
pub open spec fn results_key_ok(
    old: SearchViewState,
    key: KeyPress,
    rows: u16,
    new: SearchViewState,
    a: SearchAction,
) -> bool {
    let vis = shown(old);
    let sel = if old.selected < vis.len() { old.selected as int } else if vis.len() > 0 {
        vis.len() - 1
    } else {
        0
    };
    let page = page_rows_spec(rows as int, ROWS_MATCH as int);
    match from_code_vim_spec(key.code) {
        Some(nav) => a is Nothing && if nav == ListNav::Up && sel == 0 {
            new == (SearchViewState { focus: SearchFocus::Query, selected: sel as usize, ..old })
        } else {
            new == (SearchViewState {
                selected: move_within_spec(nav, sel, vis.len() as int, page) as usize,
                ..old
            })
        },
        None => match key.code {
            KeyCode::Esc | KeyCode::Tab => a is Nothing && new == (SearchViewState {
                focus: SearchFocus::Query,
                selected: sel as usize,
                ..old
            }),
            KeyCode::Char('q') => a is CloseView && new == (SearchViewState { selected: sel as usize, ..old }),
            KeyCode::Char('s') => a is Nothing && new == (SearchViewState {
                sort: sort_next(old.sort),
                selected: 0,
                ..old
            }),
            KeyCode::Char('r') => {
                let filtered = SearchViewState { role_filter: filter_next(old.role_filter), selected: 0, ..old };
                a is Nothing && new == (SearchViewState {
                    focus: if shown(filtered).len() == 0 {
                        SearchFocus::Query
                    } else {
                        old.focus
                    },
                    ..filtered
                })
            },
            KeyCode::Char('u') => a is Nothing && new == (SearchViewState {
                unique_sessions: !old.unique_sessions,
                selected: 0,
                ..old
            }),
            KeyCode::Enter => new == (SearchViewState { selected: sel as usize, ..old }) && if sel < vis.len() {
                a matches SearchAction::LoadSession(id) && id@ == old.matches@[vis[sel] as int].session_id@
            } else {
                a is Nothing
            },
            _ => a is Nothing && new == (SearchViewState { selected: sel as usize, ..old }),
        },
    }
}

/// The effect of a keystroke on the search screen.
pub open spec fn search_key_ok(
    old: SearchViewState,
    key: KeyPress,
    rows: u16,
    new: SearchViewState,
    a: SearchAction,
) -> bool {
    match old.focus {
        SearchFocus::Query => query_key_ok(old, key, new, a),
        SearchFocus::Results => results_key_ok(old, key, rows, new, a),
    }
}

/// Key handling for the search screen; `terminal_rows` sizes the page step.
pub fn search_key(search: &mut SearchViewState, key: KeyPress, terminal_rows: u16) -> (a: SearchAction)
    requires
        search_key_fits(*old(search), key),
    ensures
        search_key_ok(*old(search), key, terminal_rows, *final(search), a),
{
    match search.focus {
        SearchFocus::Query => match key.code {
            KeyCode::Esc => SearchAction::CloseView,
            KeyCode::Enter => {
                let query = trimmed(search.query.buffer.as_str());
                if query.as_str().unicode_len() > 0 {
                    SearchAction::StartSearch(query)
                } else {
                    SearchAction::Nothing
                }
            },
            _ => {
                let to_list = match key.code {
                    KeyCode::Down | KeyCode::Tab => search.visible().len() > 0,
                    _ => false,
                };
                if to_list {
                    search.focus = SearchFocus::Results;
                } else {
                    apply_text_key(&mut search.query, key, false);
                }
                SearchAction::Nothing
            },
        },
        SearchFocus::Results => {
            let visible = search.visible();
            let max = if visible.len() > 0 { visible.len() - 1 } else { 0 };
            search.selected = if search.selected <= max { search.selected } else { max };
            let page = page_rows(terminal_rows, ROWS_MATCH);
            if let Some(nav) = ListNav::from_code_vim(key.code) {
                if nav == ListNav::Up && search.selected == 0 {
                    search.focus = SearchFocus::Query;
                } else {
                    search.selected = nav.move_within(search.selected, visible.len(), page);
                }
                return SearchAction::Nothing;
            }
            match key.code {
                KeyCode::Esc | KeyCode::Tab => {
                    search.focus = SearchFocus::Query;
                    SearchAction::Nothing
                },
                KeyCode::Char('q') => SearchAction::CloseView,
                KeyCode::Char('s') => {
                    search.sort = search.sort.next();
                    search.reset_selection();
                    SearchAction::Nothing
                },
                KeyCode::Char('r') => {
                    search.role_filter = search.role_filter.next();
                    search.reset_selection();
                    if search.visible().len() == 0 {
                        search.focus = SearchFocus::Query;
                    }
                    SearchAction::Nothing
                },
                KeyCode::Char('u') => {
                    search.unique_sessions = !search.unique_sessions;
                    search.reset_selection();
                    SearchAction::Nothing
                },
                KeyCode::Enter => {
                    if search.selected < visible.len() {
                        let index = visible[search.selected];
                        SearchAction::LoadSession(search.matches[index].session_id.clone())
                    } else {
                        SearchAction::Nothing
                    }
                },
                _ => SearchAction::Nothing,
            }
        },
    }
}

} // verus!
