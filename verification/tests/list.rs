use pooprusteek::app::list::{page_rows, KeyCode, ListCursor, ListNav, ListWindow};

#[test]
fn arrows_map_without_letters() {
    assert_eq!(ListNav::from_code(KeyCode::Up), Some(ListNav::Up));
    assert_eq!(ListNav::from_code(KeyCode::Home), Some(ListNav::First));
    assert_eq!(ListNav::from_code(KeyCode::PageDown), Some(ListNav::PageDown));
    // Letters belong to the search line, not to navigation.
    assert_eq!(ListNav::from_code(KeyCode::Char('j')), None);
    assert_eq!(ListNav::from_code(KeyCode::Char('g')), None);
}

#[test]
fn vim_aliases_extend_the_arrow_set() {
    assert_eq!(ListNav::from_code_vim(KeyCode::Char('j')), Some(ListNav::Down));
    assert_eq!(ListNav::from_code_vim(KeyCode::Char('k')), Some(ListNav::Up));
    assert_eq!(ListNav::from_code_vim(KeyCode::Char('g')), Some(ListNav::First));
    assert_eq!(ListNav::from_code_vim(KeyCode::Char('G')), Some(ListNav::Last));
    assert_eq!(ListNav::from_code_vim(KeyCode::Up), Some(ListNav::Up));
    assert_eq!(ListNav::from_code_vim(KeyCode::Char('x')), None);
}

#[test]
fn move_to_places_the_cursor_and_pulls_the_window() {
    let mut cursor = ListCursor::default();
    cursor.move_to(17, 20, 5);
    assert_eq!(cursor.selected, 17);
    assert_eq!(cursor.window(20, 5).range(), 13..18);
    // The cursor never stops past the end of the list.
    cursor.move_to(99, 3, 5);
    assert_eq!(cursor.selected, 2);
}

#[test]
fn cursor_stops_at_both_ends() {
    let mut cursor = ListCursor::default();
    cursor.apply(ListNav::Up, 5, 3);
    assert_eq!(cursor.selected, 0);
    for _ in 0..10 {
        cursor.apply(ListNav::Down, 5, 3);
    }
    assert_eq!(cursor.selected, 4);
}

#[test]
fn an_empty_list_keeps_the_cursor_at_zero() {
    let mut cursor = ListCursor::default();
    for nav in [ListNav::Down, ListNav::Last, ListNav::PageDown] {
        cursor.apply(nav, 0, 5);
        assert_eq!(cursor, ListCursor::default());
    }
}

#[test]
fn paging_moves_by_one_window() {
    let mut cursor = ListCursor::default();
    cursor.apply(ListNav::PageDown, 100, 10);
    assert_eq!(cursor.selected, 10);
    cursor.apply(ListNav::PageUp, 100, 10);
    assert_eq!(cursor.selected, 0);
}

#[test]
fn window_stays_put_while_the_cursor_is_inside_it() {
    let mut cursor = ListCursor::default();
    for _ in 0..4 {
        cursor.apply(ListNav::Down, 20, 5);
    }
    // The cursor reached the last visible row; the window has not moved yet.
    assert_eq!(cursor.selected, 4);
    assert_eq!(cursor.scroll(), 0);
    cursor.apply(ListNav::Down, 20, 5);
    assert_eq!((cursor.selected, cursor.scroll()), (5, 1));
}

#[test]
fn window_follows_the_cursor_back_up() {
    let mut cursor = ListCursor::at(10, 6);
    cursor.apply(ListNav::First, 20, 5);
    assert_eq!((cursor.selected, cursor.scroll()), (0, 0));
}

#[test]
fn last_scrolls_the_window_to_the_end() {
    let mut cursor = ListCursor::default();
    cursor.apply(ListNav::Last, 20, 5);
    assert_eq!(cursor.selected, 19);
    let window = cursor.window(20, 5);
    assert_eq!((window.start, window.end), (15, 20));
    assert!(window.more_above && !window.more_below);
}

#[test]
fn clamp_pulls_a_stale_cursor_back_into_a_shrunken_list() {
    let mut cursor = ListCursor::at(18, 14);
    cursor.clamp(3, 5);
    assert_eq!(cursor.selected, 2);
    let window = cursor.window(3, 5);
    // Three rows in a window of five are shown whole.
    assert_eq!((window.start, window.end), (0, 3));
    assert!(!window.more_above && !window.more_below);
}

#[test]
fn a_grown_window_stops_showing_emptiness_under_the_list() {
    // The offset advanced in a narrow window, then the terminal grew.
    let mut cursor = ListCursor::default();
    for _ in 0..8 {
        cursor.apply(ListNav::Down, 10, 2);
    }
    let window = cursor.window(10, 10);
    assert_eq!((window.start, window.end), (0, 10));
    assert!(!window.more_above && !window.more_below);
}

#[test]
fn anchored_window_needs_no_stored_scroll() {
    let window = ListWindow::anchored(0, 20, 5);
    assert_eq!((window.start, window.end), (0, 5));
    assert!(!window.more_above && window.more_below);

    let window = ListWindow::anchored(7, 20, 5);
    assert_eq!((window.start, window.end), (3, 8));
    assert!(window.more_above && window.more_below);

    let window = ListWindow::anchored(19, 20, 5);
    assert_eq!((window.start, window.end), (15, 20));
    assert!(window.more_above && !window.more_below);
}

#[test]
fn a_window_over_nothing_is_empty_and_reports_no_overflow() {
    let window = ListWindow::anchored(0, 0, 5);
    assert_eq!((window.start, window.end), (0, 0));
    assert!(!window.more_above && !window.more_below);
    assert_eq!(window.range().count(), 0);
}

#[test]
fn a_zero_height_window_draws_nothing() {
    let window = ListWindow::anchored(3, 10, 0);
    assert_eq!(window.range().count(), 0);
}

#[test]
fn page_rows_follows_the_terminal_and_the_row_height() {
    assert_eq!(page_rows(40, 1), 32);
    assert_eq!(page_rows(40, 2), 16);
    assert_eq!(page_rows(40, 3), 10);
    // A tiny terminal still gives a one-row step, not zero.
    assert_eq!(page_rows(4, 1), 1);
    assert_eq!(page_rows(0, 3), 1);
}

#[test]
fn a_list_shorter_than_the_window_is_shown_whole() {
    let window = ListWindow::anchored(1, 3, 10);
    assert_eq!((window.start, window.end), (0, 3));
    assert!(!window.more_above && !window.more_below);
}

#[test]
fn reset_puts_cursor_and_window_at_the_top() {
    let mut cursor = ListCursor::at(12, 9);
    cursor.reset();
    assert_eq!((cursor.selected, cursor.scroll()), (0, 0));
}

#[test]
fn move_within_pages_without_a_window() {
    assert_eq!(ListNav::PageDown.move_within(3, 10, 4), 7);
    assert_eq!(ListNav::PageDown.move_within(8, 10, 4), 9);
    assert_eq!(ListNav::PageUp.move_within(2, 10, 4), 0);
    assert_eq!(ListNav::Last.move_within(0, 0, 4), 0);
}
