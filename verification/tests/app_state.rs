use std::path::PathBuf;
use tere_state::app_state::TereAppState;
use tere_state::dir_entry::CustomDirEntry;
use tere_state::settings::TereSettings;

fn entry(name: &str) -> CustomDirEntry {
    CustomDirEntry::new(PathBuf::from(name), name.to_string(), false)
}

fn strings_to_ls_buf(strings: Vec<&str>) -> Vec<CustomDirEntry> {
    strings.iter().map(|s| entry(s)).collect()
}

fn create_test_filenames(n: u32) -> Vec<CustomDirEntry> {
    (1..=n).map(|i| entry(&format!("file {}", i))).collect()
}

fn create_test_state(win_h: u32, n_filenames: u32) -> TereAppState {
    create_test_state_with_buf(win_h, create_test_filenames(n_filenames))
}

fn create_test_state_with_buf(win_h: u32, buf: Vec<CustomDirEntry>) -> TereAppState {
    TereAppState::with_listing(buf, 10, win_h, TereSettings::default())
}

fn visible_names(s: &TereAppState) -> Vec<String> {
    s.visible_items().iter().map(|x| x.file_name_checked()).collect()
}

#[test]
fn test_scrolling_bufsize_less_than_window_size() {
    let mut state = create_test_state(10, 4);

    for i in 1..=3 {
        state.move_cursor(1, false);
        assert_eq!(state.cursor_pos, i);
        assert_eq!(state.scroll_pos, 0);
    }

    for _ in 0..5 {
        state.move_cursor(1, false);
        assert_eq!(state.cursor_pos, 3);
        assert_eq!(state.scroll_pos, 0);
    }

    state.move_cursor(100, false);
    assert_eq!(state.cursor_pos, 3);
    assert_eq!(state.scroll_pos, 0);

    for i in 1..=3 {
        state.move_cursor(-1, false);
        assert_eq!(state.cursor_pos, 3 - i);
        assert_eq!(state.scroll_pos, 0);
    }

    assert_eq!(state.cursor_pos, 0);

    for _ in 0..5 {
        state.move_cursor(-1, false);
        assert_eq!(state.cursor_pos, 0);
        assert_eq!(state.scroll_pos, 0);
    }

    state.move_cursor(-100, false);
    assert_eq!(state.cursor_pos, 0);
    assert_eq!(state.scroll_pos, 0);

    // test jumping all the way to the bottom and back
    state.move_cursor(100, false);
    assert_eq!(state.cursor_pos, 3);
    assert_eq!(state.scroll_pos, 0);
    state.move_cursor(-100, false);
    assert_eq!(state.cursor_pos, 0);
    assert_eq!(state.scroll_pos, 0);
}

#[test]
fn test_scrolling_bufsize_equal_to_window_size() {
    let mut state = create_test_state(4, 4);

    for i in 1..=3 {
        state.move_cursor(1, false);
        assert_eq!(state.cursor_pos, i);
        assert_eq!(state.scroll_pos, 0);
    }

    for _ in 0..5 {
        state.move_cursor(1, false);
        assert_eq!(state.cursor_pos, 3);
        assert_eq!(state.scroll_pos, 0);
    }

    for i in 1..=3 {
        state.move_cursor(-1, false);
        assert_eq!(state.cursor_pos, 3 - i);
        assert_eq!(state.scroll_pos, 0);
    }

    // test jumping all the way to the bottom and back
    state.move_cursor(100, false);
    assert_eq!(state.cursor_pos, 3);
    assert_eq!(state.scroll_pos, 0);
    state.move_cursor(-100, false);
    assert_eq!(state.cursor_pos, 0);
    assert_eq!(state.scroll_pos, 0);
}

fn test_scrolling_bufsize_larger_than_window_size_helper(win_h: u32, n_files: u32) {
    let mut state = create_test_state(win_h, n_files);
    let max_cursor = win_h - 1;
    let max_scroll = n_files - win_h;

    // move cursor all the way to the bottom of the window
    for i in 1..=max_cursor {
        state.move_cursor(1, false);
        assert_eq!(state.cursor_pos, i);
        assert_eq!(state.scroll_pos, 0);
    }

    // scroll to the end of the list
    for i in 1..=max_scroll {
        state.move_cursor(1, false);
        assert_eq!(state.cursor_pos, max_cursor);
        assert_eq!(state.scroll_pos, i);
    }

    assert_eq!(state.scroll_pos, max_scroll);

    // check that nothing changes when trying to scroll further
    for _ in 0..5 {
        state.move_cursor(1, false);
        assert_eq!(state.cursor_pos, max_cursor);
        assert_eq!(state.scroll_pos, max_scroll);
    }
    state.move_cursor(win_h as i32 + 100, false);
    assert_eq!(state.cursor_pos, max_cursor);
    assert_eq!(state.scroll_pos, max_scroll);

    // scroll back to the top of the window
    for i in 1..=max_cursor {
        state.move_cursor(-1, false);
        assert_eq!(state.cursor_pos, max_cursor - i);
        assert_eq!(state.scroll_pos, max_scroll);
    }
    assert_eq!(state.cursor_pos, 0);
    assert_eq!(state.scroll_pos, max_scroll);

    // scroll back to the top of the list
    for i in 1..=max_scroll {
        state.move_cursor(-1, false);
        assert_eq!(state.cursor_pos, 0);
        assert_eq!(state.scroll_pos, max_scroll - i);
    }

    // check that nothing changes when trying to scroll further
    assert_eq!(state.cursor_pos, 0);
    assert_eq!(state.scroll_pos, 0);
    for _ in 0..5 {
        state.move_cursor(-1, false);
        assert_eq!(state.cursor_pos, 0);
        assert_eq!(state.scroll_pos, 0);
    }
    state.move_cursor(-100, false);
    assert_eq!(state.cursor_pos, 0);
    assert_eq!(state.scroll_pos, 0);

    // test jumping all the way to the bottom and back
    state.move_cursor(win_h as i32 + 100, false);
    assert_eq!(state.cursor_pos, max_cursor);
    assert_eq!(state.scroll_pos, max_scroll);
    state.move_cursor(-100 - win_h as i32, false);
    assert_eq!(state.cursor_pos, 0);
    assert_eq!(state.scroll_pos, 0);
}

#[test]
fn test_scrolling_bufsize_larger_than_window_size1() {
    test_scrolling_bufsize_larger_than_window_size_helper(4, 5);
}

#[test]
fn test_scrolling_bufsize_larger_than_window_size2() {
    test_scrolling_bufsize_larger_than_window_size_helper(4, 6);
}

#[test]
fn test_scrolling_bufsize_larger_than_window_size3() {
    test_scrolling_bufsize_larger_than_window_size_helper(4, 7);
}

#[test]
fn test_scrolling_bufsize_larger_than_window_size4() {
    test_scrolling_bufsize_larger_than_window_size_helper(4, 8);
}

#[test]
fn test_scrolling_bufsize_larger_than_window_size5() {
    test_scrolling_bufsize_larger_than_window_size_helper(4, 10);
}

#[test]
fn test_basic_advance_search() {
    let mut s = create_test_state_with_buf(5, strings_to_ls_buf(vec!["..", "foo", "frob", "bar", "baz"]));
    s.move_cursor_to(2);

    // current state:
    //   ..
    //   foo
    // > frob
    //   bar
    //   baz

    assert_eq!(s.cursor_pos, 2);
    assert_eq!(s.scroll_pos, 0);

    s.advance_search("b");
    assert_eq!(s.cursor_pos, 3);
    s.move_cursor_to_adjacent_match(1);
    assert_eq!(s.cursor_pos, 4);
    s.move_cursor_to_adjacent_match(1);
    assert_eq!(s.cursor_pos, 3);
}

#[test]
fn test_advance_search_wrap() {
    let mut s = create_test_state_with_buf(3, strings_to_ls_buf(vec!["..", "foo", "frob", "bar", "baz"]));
    s.move_cursor_to(4);

    // current state: ('|' shows the window position)
    //   ..
    //   foo
    //   frob  |
    //   bar   |
    // > baz   |

    assert_eq!(s.cursor_pos, 2);
    assert_eq!(s.scroll_pos, 2);

    s.advance_search("f");

    // state should now be
    //   ..
    // > foo   |
    //   frob  |
    //   bar   |
    //   baz

    assert_eq!(s.cursor_pos, 0);
    assert_eq!(s.scroll_pos, 1);

    s.move_cursor_to_adjacent_match(1);
    assert_eq!(s.cursor_pos, 1);
    s.move_cursor_to_adjacent_match(1);
    assert_eq!(s.cursor_pos, 0);
}

#[test]
fn test_advance_and_erase_search_with_cursor_on_match() {
    let mut s = create_test_state_with_buf(6, strings_to_ls_buf(vec!["..", "foo", "frob", "bar", "baz"]));
    s.move_cursor_to(3);

    // current state:
    //   ..
    //   foo
    //   frob
    // > bar
    //   baz

    assert_eq!(s.cursor_pos, 3);
    assert_eq!(s.scroll_pos, 0);

    s.advance_search("b");

    // state shouldn't have changed

    assert_eq!(s.cursor_pos, 3);
    assert_eq!(s.scroll_pos, 0);

    s.move_cursor_to_adjacent_match(1);
    assert_eq!(s.cursor_pos, 4);
    s.move_cursor_to_adjacent_match(1);
    assert_eq!(s.cursor_pos, 3);
    s.move_cursor_to_adjacent_match(1);
    assert_eq!(s.cursor_pos, 4);

    // we're now on 'baz'
    // erase the search char. should still stay at baz.
    s.erase_search_char();
    assert_eq!(s.cursor_pos, 4);
}

#[test]
fn test_advance_and_erase_with_filter_search() {
    let mut s = create_test_state_with_buf(6, strings_to_ls_buf(vec!["..", "bar", "baz", "foo", "frob"]));
    s.settings.filter_search = true;

    // current state:
    // > ..
    //   bar
    //   baz
    //   foo
    //   frob

    assert_eq!(s.cursor_pos, 0);
    assert_eq!(s.scroll_pos, 0);

    s.advance_search("f");

    // state should now be
    // > foo
    //   frob

    assert_eq!(s.cursor_pos, 0);
    assert_eq!(s.scroll_pos, 0);
    assert_eq!(s.visible_items().len(), 2);

    s.move_cursor_to_adjacent_match(1);
    assert_eq!(s.cursor_pos, 1);
    assert_eq!(s.scroll_pos, 0);
    s.move_cursor_to_adjacent_match(1);
    assert_eq!(s.cursor_pos, 0);
    assert_eq!(s.scroll_pos, 0);

    s.erase_search_char();

    // now:
    //   ..
    //   bar
    //   baz
    // > foo
    //   frob

    assert_eq!(s.cursor_pos, 3);
}

#[test]
fn test_advance_and_cleat_with_filter_search() {
    let mut s = create_test_state_with_buf(6, strings_to_ls_buf(vec!["..", "bar", "baz", "foo", "forb"]));
    s.settings.filter_search = true;

    // current state:
    // > ..
    //   bar
    //   baz
    //   foo
    //   forb

    assert_eq!(s.cursor_pos, 0);
    assert_eq!(s.scroll_pos, 0);

    s.advance_search("f");
    s.advance_search("o");

    // state should now be
    // > foo
    //   forb

    assert_eq!(s.cursor_pos, 0);
    assert_eq!(s.scroll_pos, 0);
    assert_eq!(visible_names(&s), vec!["foo", "forb"]);

    s.move_cursor_to_adjacent_match(1);
    assert_eq!(s.cursor_pos, 1);
    assert_eq!(s.scroll_pos, 0);
    s.move_cursor_to_adjacent_match(1);
    assert_eq!(s.cursor_pos, 0);
    assert_eq!(s.scroll_pos, 0);

    s.clear_search();

    // now:
    //   ..
    //   bar
    //   baz
    // > foo
    //   forb

    assert_eq!(s.cursor_pos, 3);
    assert_eq!(s.visible_items().len(), s.num_total_items());
}

#[test]
fn test_advance_search_with_filter_search_and_scrolling() {
    let mut s = create_test_state_with_buf(3, strings_to_ls_buf(vec!["..", "foo", "frob", "bar", "baz"]));
    s.settings.filter_search = true;

    s.move_cursor_to(3);

    // current state: ('|' shows the window position)
    //   ..
    //   foo   |
    //   frob  |
    // > bar   |
    //   baz

    assert_eq!(s.cursor_pos, 2);
    assert_eq!(s.scroll_pos, 1);

    s.advance_search("f");

    // state should now be
    // > foo   |
    //   frob  |
    //         |

    assert_eq!(s.cursor_pos, 0);
    assert_eq!(s.scroll_pos, 0);
    assert_eq!(s.visible_items().len(), 2);

    s.move_cursor_to_adjacent_match(1);
    assert_eq!(s.cursor_pos, 1);
    s.move_cursor_to_adjacent_match(1);
    assert_eq!(s.cursor_pos, 0);
}

#[test]
fn test_advance_and_erase_search_with_filter_and_cursor_on_match() {
    let mut s = create_test_state_with_buf(6, strings_to_ls_buf(vec!["..", "foo", "frob", "bar", "baz"]));
    s.settings.filter_search = true;
    s.move_cursor_to(2);

    // current state:
    //   ..
    //   foo
    // > frob
    //   bar
    //   baz

    assert_eq!(s.cursor_pos, 2);
    assert_eq!(s.scroll_pos, 0);

    s.advance_search("f");

    // state should now be
    //   foo
    // > frob

    assert_eq!(visible_names(&s), vec!["foo", "frob"]);
    assert_eq!(s.cursor_pos, 1);
    assert_eq!(s.scroll_pos, 0);

    s.move_cursor_to_adjacent_match(1);
    assert_eq!(s.cursor_pos, 0);
    s.move_cursor_to_adjacent_match(1);
    assert_eq!(s.cursor_pos, 1);

    // we're now at frob. erase char, we should still be at frob:
    //   ..
    //   foo
    // > frob
    //   bar
    //   baz

    s.erase_search_char();
    assert_eq!(s.cursor_pos, 2);

    assert_eq!(visible_names(&s), vec!["..", "foo", "frob", "bar", "baz"]);
}

#[test]
fn test_advance_and_erase_search_with_filter_and_cursor_on_match2() {
    let mut s = create_test_state_with_buf(6, strings_to_ls_buf(vec!["..", "foo", "frob", "bar", "baz"]));
    s.settings.filter_search = true;
    s.move_cursor_to(4);

    // current state:
    //   ..
    //   foo
    //   frob
    //   bar
    // > baz

    assert_eq!(s.cursor_pos, 4);
    assert_eq!(s.scroll_pos, 0);

    s.advance_search("b");

    // state should now be
    //   bar
    // > baz

    assert_eq!(s.cursor_pos, 1);
    assert_eq!(s.scroll_pos, 0);

    s.move_cursor_to_adjacent_match(1);
    assert_eq!(s.cursor_pos, 0);
    s.move_cursor_to_adjacent_match(1);
    assert_eq!(s.cursor_pos, 1);

    // we're now on 'baz'
    // erase the search char. now the state should be
    //   ..
    //   foo
    //   frob
    //   bar
    // > baz

    s.erase_search_char();
    assert_eq!(s.cursor_pos, 4);
}

#[test]
fn test_advance_and_erase_search_with_filter_and_scrolling() {
    let mut s = create_test_state_with_buf(2, strings_to_ls_buf(vec!["..", "foo", "frob", "bar", "baz"]));
    s.settings.filter_search = true;

    // current state:
    // > ..   |
    //   foo  |
    //   frob
    //   bar
    //   baz

    assert_eq!(s.cursor_pos, 0);
    assert_eq!(s.scroll_pos, 0);

    s.advance_search("b");

    // state should now be
    // > bar
    //   baz

    assert_eq!(s.cursor_pos, 0);
    assert_eq!(s.scroll_pos, 0);

    s.move_cursor_to_adjacent_match(1);
    assert_eq!(s.cursor_pos, 1);
    s.move_cursor_to_adjacent_match(1);
    assert_eq!(s.cursor_pos, 0);

    // we're now on 'bar'
    // erase the search char. now the state should be
    //   ..
    //   foo
    //   frob |
    // > bar  |
    //   baz

    s.erase_search_char();
    assert_eq!(s.cursor_pos, 1);
    assert_eq!(s.scroll_pos, 2);
}
