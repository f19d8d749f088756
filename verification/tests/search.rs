use pooprusteek::app::search::{
    visible_indices, HistoryMatch, RoleFilter, SearchFocus, SearchSort, SearchViewState,
};

fn hit(session: &str, role: &str, ts: &str) -> HistoryMatch {
    HistoryMatch {
        session_id: session.to_string(),
        title: format!("title-{session}"),
        role: role.to_string(),
        timestamp: ts.to_string(),
        text: String::new(),
    }
}

fn fixture() -> Vec<HistoryMatch> {
    vec![
        hit("s1", "assistant", "2026-07-03T10:00:00Z"), // 0: most relevant
        hit("s2", "user", "2026-07-05T09:00:00Z"),      // 1
        hit("s1", "user", "2026-07-01T08:00:00Z"),      // 2
        hit("s3", "assistant", ""),                     // 3: no timestamp
    ]
}

#[test]
fn relevance_keeps_base_order() {
    let v = visible_indices(&fixture(), SearchSort::Relevance, RoleFilter::All, false);
    assert_eq!(v, vec![0, 1, 2, 3]);
}

#[test]
fn role_filter_narrows() {
    let v = visible_indices(&fixture(), SearchSort::Relevance, RoleFilter::User, false);
    assert_eq!(v, vec![1, 2]);
}

#[test]
fn unique_sessions_keeps_most_relevant_chunk() {
    let v = visible_indices(&fixture(), SearchSort::Relevance, RoleFilter::All, true);
    assert_eq!(v, vec![0, 1, 3], "s1's second (less relevant) chunk must drop");
}

#[test]
fn newest_sorts_by_timestamp_desc_with_empty_last() {
    let v = visible_indices(&fixture(), SearchSort::Newest, RoleFilter::All, false);
    assert_eq!(v, vec![1, 0, 2, 3]);
}

#[test]
fn oldest_sorts_by_timestamp_asc() {
    let v = visible_indices(&fixture(), SearchSort::Oldest, RoleFilter::All, false);
    assert_eq!(v, vec![3, 2, 0, 1]);
}

#[test]
fn fresh_prefills_query_with_cursor_at_end() {
    let s = SearchViewState::fresh("тест");
    assert_eq!(s.query.buffer, "тест");
    assert_eq!(s.query.cursor, 4);
}

// ── further cases ──

#[test]
fn dedup_counts_only_admitted_hits() {
    // With the user filter, s1's first admitted chunk is index 2.
    let v = visible_indices(&fixture(), SearchSort::Relevance, RoleFilter::User, true);
    assert_eq!(v, vec![1, 2]);
    let v = visible_indices(&fixture(), SearchSort::Relevance, RoleFilter::Assistant, true);
    assert_eq!(v, vec![0, 3]);
}

#[test]
fn equal_timestamps_keep_the_base_order() {
    let ms = vec![hit("a", "user", "t"), hit("b", "user", "t"), hit("c", "user", "s")];
    assert_eq!(visible_indices(&ms, SearchSort::Newest, RoleFilter::All, false), vec![0, 1, 2]);
    assert_eq!(visible_indices(&ms, SearchSort::Oldest, RoleFilter::All, false), vec![2, 0, 1]);
}

#[test]
fn sort_and_filter_cycles_and_labels() {
    assert_eq!(SearchSort::Relevance.next(), SearchSort::Newest);
    assert_eq!(SearchSort::Newest.next(), SearchSort::Oldest);
    assert_eq!(SearchSort::Oldest.next(), SearchSort::Relevance);
    assert_eq!(SearchSort::Newest.label(), "newest");
    assert_eq!(RoleFilter::All.next(), RoleFilter::User);
    assert_eq!(RoleFilter::Assistant.next(), RoleFilter::All);
    assert_eq!(RoleFilter::Assistant.label(), "assistant");
}

#[test]
fn a_stale_reply_is_dropped() {
    let mut s = SearchViewState::fresh("");
    s.last_query = "current".to_string();
    s.searching = true;
    s.apply_results("earlier", fixture());
    assert!(s.searching);
    assert!(s.matches.is_empty());
}

#[test]
fn results_for_the_current_query_land_and_focus_the_list() {
    let mut s = SearchViewState::fresh("");
    s.last_query = "q".to_string();
    s.searching = true;
    s.selected = 3;
    s.apply_results("q", fixture());
    assert!(!s.searching);
    assert_eq!(s.matches.len(), 4);
    assert_eq!(s.selected, 0);
    assert_eq!(s.status, "4 matches");
    assert_eq!(s.focus, SearchFocus::Results);
    assert_eq!(s.visible(), vec![0, 1, 2, 3]);

    s.apply_results("q", Vec::new());
    assert_eq!(s.status, "No matches — the index may still be building (see /rag)");
}
