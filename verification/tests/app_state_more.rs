use std::path::PathBuf;
use tere_state::app_state::TereAppState;
use tere_state::dir_entry::CustomDirEntry;
use tere_state::settings::TereSettings;

fn entry(name: &str, is_dir: bool) -> CustomDirEntry {
    CustomDirEntry::new(PathBuf::from(name), name.to_string(), is_dir)
}

fn files(names: &[&str]) -> Vec<CustomDirEntry> {
    names.iter().map(|n| entry(n, false)).collect()
}

fn state(win_h: u32, names: &[&str]) -> TereAppState {
    TereAppState::with_listing(files(names), 10, win_h, TereSettings::default())
}

fn visible_names(s: &TereAppState) -> Vec<String> {
    s.visible_items().iter().map(|x| x.file_name_checked()).collect()
}

#[test]
fn init_sorts_the_listing_and_sets_the_header() {
    let s = TereAppState::init(
        TereSettings::default(),
        80,
        24,
        Ok("/home/user".to_string()),
        entry("..", true),
        Some(vec![entry("b.txt", false), entry("src", true), entry("a.txt", false)]),
    );
    assert_eq!(s.header_msg, "/home/user");
    assert_eq!(s.info_msg, "");
    assert_eq!(visible_names(&s), vec!["..", "src", "a.txt", "b.txt"]);
    assert_eq!(s.cursor_pos, 0);
    assert_eq!(s.scroll_pos, 0);
    assert!(!s.is_searching());
    assert_eq!(s.num_total_items(), 4);
    assert_eq!(s.num_matching_items(), 4);
}

#[test]
fn init_with_unreadable_folder_has_empty_listing() {
    let s = TereAppState::init(
        TereSettings::default(),
        80,
        24,
        Err("permission denied".to_string()),
        entry("..", true),
        None,
    );
    assert_eq!(s.header_msg, "Unable to get current dir! (permission denied)");
    assert_eq!(s.num_total_items(), 0);
    assert!(s.visible_items().is_empty());
}

#[test]
fn folders_only_listing() {
    let settings = TereSettings { folders_only: true, filter_search: false };
    let mut s = TereAppState::with_listing(Vec::new(), 80, 24, settings);
    s.update_ls_output_buf(entry("..", true), Some(vec![entry("x", false), entry("b", true), entry("a", true)]));
    assert_eq!(visible_names(&s), vec!["..", "a", "b"]);
    // a failed read leaves the listing as it was
    s.update_ls_output_buf(entry("..", true), None);
    assert_eq!(visible_names(&s), vec!["..", "a", "b"]);
}

#[test]
fn update_header_shows_folder_or_error() {
    let mut s = state(5, &["a"]);
    s.update_header(Ok("/tmp".to_string()));
    assert_eq!(s.header_msg, "/tmp");
    s.update_header(Err("gone".to_string()));
    assert_eq!(s.header_msg, "Unable to get current dir! (gone)");
}

#[test]
fn shrinking_window_keeps_cursor_on_item() {
    let mut s = state(10, &["0", "1", "2", "3", "4", "5", "6", "7", "8", "9"]);
    s.move_cursor_to(7);
    assert_eq!((s.cursor_pos, s.scroll_pos), (7, 0));
    s.update_main_window_dimensions(10, 4);
    assert_eq!((s.cursor_pos, s.scroll_pos), (3, 4));
    assert_eq!(s.cursor_pos + s.scroll_pos, 7);
}

#[test]
fn growing_window_scrolls_back() {
    let mut s = state(3, &["0", "1", "2", "3", "4", "5", "6", "7", "8", "9"]);
    s.move_cursor_to(6);
    assert_eq!((s.cursor_pos, s.scroll_pos), (2, 4));
    s.update_main_window_dimensions(10, 5);
    assert_eq!((s.cursor_pos, s.scroll_pos), (4, 2));
    s.update_main_window_dimensions(10, 20);
    assert_eq!((s.cursor_pos, s.scroll_pos), (6, 0));
}

#[test]
fn move_cursor_to_filename_found_and_not_found() {
    let mut s = state(3, &["a", "b", "c", "d", "e"]);
    assert!(s.move_cursor_to_filename("d"));
    assert_eq!(s.cursor_pos + s.scroll_pos, 3);
    assert!(!s.move_cursor_to_filename("zz"));
    assert_eq!(s.cursor_pos + s.scroll_pos, 3);
}

#[test]
fn item_at_cursor_pos() {
    let mut s = state(2, &["a", "b", "c"]);
    s.move_cursor_to(2);
    assert_eq!(s.cursor_pos_to_visible_item_index(s.cursor_pos), 2);
    assert_eq!(s.get_item_at_cursor_pos(s.cursor_pos).map(|e| e.file_name_checked()), Some("c".to_string()));
    assert_eq!(s.get_item_at_cursor_pos(0).map(|e| e.file_name_checked()), Some("b".to_string()));
    assert!(s.get_item_at_cursor_pos(5).is_none());
}

#[test]
fn wrapping_moves_through_state() {
    let mut s = state(2, &["a", "b", "c"]);
    s.move_cursor(-1, true);
    assert_eq!(s.cursor_pos + s.scroll_pos, 2);
    s.move_cursor(1, true);
    assert_eq!((s.cursor_pos, s.scroll_pos), (0, 0));
}

#[test]
fn search_string_grows_and_shrinks() {
    let mut s = state(5, &["foo", "frob", "bar"]);
    assert!(!s.is_searching());
    s.advance_search("fr");
    assert_eq!(s.search_string(), "fr");
    assert!(s.is_searching());
    assert_eq!(s.num_matching_items(), 1);
    assert_eq!(s.visible_match_indices(), vec![1]);
    s.erase_search_char();
    assert_eq!(s.search_string(), "f");
    assert_eq!(s.num_matching_items(), 2);
    assert_eq!(s.visible_match_indices(), vec![0, 1]);
    s.erase_search_char();
    assert_eq!(s.search_string(), "");
    assert!(!s.is_searching());
    // erasing from an empty search changes nothing
    s.erase_search_char();
    assert_eq!(s.search_string(), "");
}

#[test]
fn match_indices_with_filter_count_shown_items() {
    let mut s = state(5, &["foo", "bar", "baz"]);
    s.settings.filter_search = true;
    s.advance_search("ba");
    assert_eq!(visible_names(&s), vec!["bar", "baz"]);
    assert_eq!(s.visible_match_indices(), vec![0, 1]);
}

#[test]
fn jumping_backwards_between_matches() {
    let mut s = state(10, &["a1", "b", "a2", "c", "a3"]);
    s.advance_search("a");
    assert_eq!(s.cursor_pos, 0);
    s.move_cursor_to_adjacent_match(-1);
    assert_eq!(s.cursor_pos, 4);
    s.move_cursor_to_adjacent_match(-1);
    assert_eq!(s.cursor_pos, 2);
    s.move_cursor_to_adjacent_match(1);
    assert_eq!(s.cursor_pos, 4);
}

#[test]
fn no_match_leaves_cursor() {
    let mut s = state(10, &["a", "b", "c"]);
    s.move_cursor_to(1);
    s.advance_search("zz");
    assert_eq!(s.cursor_pos, 1);
    assert_eq!(s.num_matching_items(), 0);
    s.move_cursor_to_adjacent_match(1);
    assert_eq!(s.cursor_pos, 1);
}

#[test]
fn clear_search_without_filter_keeps_cursor() {
    let mut s = state(10, &["a", "bb", "bc"]);
    s.advance_search("b");
    assert_eq!(s.cursor_pos, 1);
    s.clear_search();
    assert_eq!(s.cursor_pos, 1);
    assert!(!s.is_searching());
    assert_eq!(s.num_matching_items(), 3);
}

#[test]
fn change_dir_to_item_under_cursor_and_back() {
    let mut s = TereAppState::with_listing(
        vec![entry("..", true), entry("docs", true), entry("src", true)],
        80,
        10,
        TereSettings::default(),
    );
    s.move_cursor_to(2);
    s.advance_search("s");
    let target = s.change_dir("");
    assert_eq!(target, "src");
    assert!(!s.is_searching());
    // the new folder is listed, then the cursor returns to the folder left
    s.update_ls_output_buf(entry("..", true), Some(vec![entry("main.rs", false), entry("lib", true)]));
    s.finish_change_dir(Some("nothing-here"));
    assert_eq!((s.cursor_pos, s.scroll_pos), (0, 0));
    let target = s.change_dir("..");
    assert_eq!(target, "..");
    s.update_ls_output_buf(entry("..", true), Some(vec![entry("src", true), entry("docs", true)]));
    s.finish_change_dir(Some("src"));
    assert_eq!(visible_names(&s), vec!["..", "docs", "src"]);
    assert_eq!((s.cursor_pos, s.scroll_pos), (2, 0));
}

#[test]
fn change_dir_with_empty_listing_gives_empty_target() {
    let mut s = state(5, &[]);
    assert_eq!(s.change_dir(""), "");
    s.finish_change_dir(None);
    assert_eq!((s.cursor_pos, s.scroll_pos), (0, 0));
}

#[test]
fn getters_read_the_state() {
    let mut s = TereAppState::with_listing(files(&["a", "b", "c"]), 30, 2, TereSettings { folders_only: true, filter_search: false });
    s.move_cursor_to(2);
    assert_eq!(s.cursor(), 1);
    assert_eq!(s.scroll(), 1);
    assert_eq!(s.window_width(), 30);
    assert_eq!(s.window_height(), 2);
    assert!(s.current_settings().folders_only);
    assert!(!s.current_settings().filter_search);
    s.update_header(Ok("/x".to_string()));
    assert_eq!(s.header_message(), "/x");
    assert_eq!(s.info_message(), "");
}

#[test]
fn change_dir_checks() {
    let mut s = state(3, &["a", "b", "c"]);
    assert!(s.can_change_dir());
    assert!(s.can_finish_change_dir(Some("b")));
    assert!(s.can_finish_change_dir(None));
    s.cursor_pos = u32::MAX;
    s.scroll_pos = 1;
    assert!(!s.can_change_dir());
    // a window of no rows cannot show the folder left
    let z = state(0, &["a", "b", "c"]);
    assert!(!z.can_finish_change_dir(Some("c")));
    assert!(!z.can_finish_change_dir(Some("a")));
    // a folder that is not listed needs no move
    assert!(z.can_finish_change_dir(Some("zz")));
}
