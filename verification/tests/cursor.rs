use tere_state::cursor::{amount_to_row, cursor_after_move, move_is_defined, move_to_is_defined};

#[test]
fn move_within_window() {
    assert_eq!(cursor_after_move(1, 0, 10, 5, 2, false), (3, 0));
}

#[test]
fn move_above_window_scrolls_up() {
    assert_eq!(cursor_after_move(1, 4, 10, 5, -3, false), (0, 2));
    assert_eq!(cursor_after_move(1, 1, 10, 5, -7, false), (0, 0));
}

#[test]
fn move_below_window_scrolls_down() {
    assert_eq!(cursor_after_move(4, 0, 10, 5, 2, false), (4, 2));
}

#[test]
fn move_past_the_end_lands_on_last_item() {
    assert_eq!(cursor_after_move(0, 0, 10, 5, 100, false), (4, 5));
    assert_eq!(cursor_after_move(0, 0, 3, 5, 100, false), (2, 0));
}

#[test]
fn move_by_zero_changes_nothing() {
    assert_eq!(cursor_after_move(2, 3, 10, 5, 0, false), (2, 3));
    assert_eq!(cursor_after_move(2, 3, 10, 5, 0, true), (2, 3));
}

#[test]
fn wrapping_move_goes_round() {
    // item 9 (cursor 4, scroll 5) plus one is item 0
    assert_eq!(cursor_after_move(4, 5, 10, 5, 1, true), (0, 0));
    // item 0 minus one is item 9
    assert_eq!(cursor_after_move(0, 0, 10, 5, -1, true), (4, 5));
    // item 2 plus 13 is item 5
    let (c, s) = cursor_after_move(2, 0, 10, 5, 13, true);
    assert_eq!(c + s, 5);
}

#[test]
fn amount_to_reach_a_row() {
    assert_eq!(amount_to_row(2, 3, 1), -4);
    assert_eq!(amount_to_row(0, 0, 7), 7);
}

#[test]
fn move_on_empty_list_stays_at_top() {
    assert_eq!(cursor_after_move(0, 0, 0, 5, 1, false), (0, 0));
    assert_eq!(cursor_after_move(0, 0, 0, 5, -1, true), (0, 0));
}

#[test]
fn move_definedness() {
    assert!(move_is_defined(0, 0, 10, 5, 3, false));
    assert!(move_is_defined(0, 0, 10, 5, -3, true));
    // a window of no rows cannot show a later item
    assert!(!move_is_defined(0, 0, 10, 0, 3, false));
    // the aimed-at row overflows an i32
    assert!(!move_is_defined(10, 0, 100, 5, i32::MAX, false));
    // moving above the top by i32::MIN rows
    assert!(!move_is_defined(0, 0, 10, 5, i32::MIN, false));
    assert!(move_to_is_defined(2, 3, 10, 5, 7));
    assert!(!move_to_is_defined(0, 0, 10, 0, 7));
}
