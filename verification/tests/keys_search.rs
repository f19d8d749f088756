use pooprusteek::app::keys::search::{search_key, SearchAction};
use pooprusteek::app::keys::KeyPress;
use pooprusteek::app::list::KeyCode;
use pooprusteek::app::search::{HistoryMatch, RoleFilter, SearchFocus, SearchSort, SearchViewState};

fn hit(session: &str, role: &str) -> HistoryMatch {
    HistoryMatch {
        session_id: session.to_string(),
        title: String::new(),
        role: role.to_string(),
        timestamp: String::new(),
        text: String::new(),
    }
}

fn key(code: KeyCode) -> KeyPress {
    KeyPress::plain(code)
}

#[test]
fn the_query_line_edits_and_searches() {
    let mut s = SearchViewState::fresh("");
    for c in " rust ".chars() {
        search_key(&mut s, key(KeyCode::Char(c)), 40);
    }
    assert_eq!(s.query.buffer, " rust ");
    match search_key(&mut s, key(KeyCode::Enter), 40) {
        SearchAction::StartSearch(q) => assert_eq!(q, "rust"),
        other => panic!("expected a search, got {other:?}"),
    }
    // No results yet: Down stays on the query line.
    search_key(&mut s, key(KeyCode::Down), 40);
    assert_eq!(s.focus, SearchFocus::Query);
    assert!(matches!(search_key(&mut s, key(KeyCode::Esc), 40), SearchAction::CloseView));
}

#[test]
fn the_result_list_navigates_and_loads() {
    let mut s = SearchViewState::fresh("q");
    s.matches = vec![hit("s1", "user"), hit("s2", "assistant"), hit("s3", "user")];
    search_key(&mut s, key(KeyCode::Tab), 40);
    assert_eq!(s.focus, SearchFocus::Results);
    search_key(&mut s, key(KeyCode::Char('j')), 40);
    search_key(&mut s, key(KeyCode::Char('j')), 40);
    search_key(&mut s, key(KeyCode::Char('j')), 40);
    assert_eq!(s.selected, 2);
    match search_key(&mut s, key(KeyCode::Enter), 40) {
        SearchAction::LoadSession(id) => assert_eq!(id, "s3"),
        other => panic!("expected a load, got {other:?}"),
    }
    search_key(&mut s, key(KeyCode::Char('g')), 40);
    assert_eq!(s.selected, 0);
    // Up from the first row hands the focus back to the query.
    search_key(&mut s, key(KeyCode::Up), 40);
    assert_eq!(s.focus, SearchFocus::Query);
}

#[test]
fn hotkeys_change_the_view_and_reset_the_selection() {
    let mut s = SearchViewState::fresh("q");
    s.matches = vec![hit("s1", "user"), hit("s1", "user")];
    s.focus = SearchFocus::Results;
    s.selected = 1;
    search_key(&mut s, key(KeyCode::Char('s')), 40);
    assert_eq!(s.sort, SearchSort::Newest);
    assert_eq!(s.selected, 0);
    search_key(&mut s, key(KeyCode::Char('u')), 40);
    assert!(s.unique_sessions);
    search_key(&mut s, key(KeyCode::Char('r')), 40);
    assert_eq!(s.role_filter, RoleFilter::User);
    assert_eq!(s.focus, SearchFocus::Results);
    // No assistant hits: the focus returns to the query line.
    search_key(&mut s, key(KeyCode::Char('r')), 40);
    assert_eq!(s.role_filter, RoleFilter::Assistant);
    assert_eq!(s.focus, SearchFocus::Query);
}
