//! The cursor and the scrolled window over a list of items: where a move
//! leaves them.
//!
//! The cursor is a row of the window, counted from its top; the scroll
//! position is the index of the item shown on the top row. So the item under
//! the cursor is the one at index `scroll + cursor`.

use vstd::prelude::*;

verus! {

/// The cursor is on an item and inside a window of `h` rows.
pub open spec fn view_valid(cursor: u32, scroll: u32, n: nat, h: u32) -> bool {
    &&& cursor < h
    &&& scroll + cursor < n
}

/// The row that a move of `amount` rows aims at, before the window scrolls;
/// `None` where computing it overflows an `i32` or divides by zero. With
/// `wrap` and a nonempty list, the aimed-at item index goes round the list.
pub open spec fn move_target(cursor: u32, scroll: u32, n: nat, amount: i32, wrap: bool) -> Option<int> {
    let base = (cursor as i32) as int + amount as int;
    if !(i32::MIN <= base <= i32::MAX) {
        None
    } else if wrap && n > 0 {
        let offset = (scroll as i32) as int;
        let len = ((n as u32) as i32) as int;
        let x = offset + base;
        if !(i32::MIN <= x <= i32::MAX) || len == 0 || (x == i32::MIN && len == -1) {
            None
        } else {
            let t = x % len - offset;
            if i32::MIN <= t <= i32::MAX {
                Some(t)
            } else {
                None
            }
        }
    } else {
        Some(base)
    }
}

/// The cursor and scroll position after a move of `amount` rows over a list
/// of `n` items shown in a window of `h` rows; `None` where the move
/// overflows. A move above the window scrolls up, as far as the top of the
/// list; a move below the last item puts the cursor on the last item with the
/// window scrolled as far as it goes; a move below the window scrolls down.
pub open spec fn move_result(cursor: u32, scroll: u32, n: nat, h: u32, amount: i32, wrap: bool) -> Option<(u32, u32)> {
    match move_target(cursor, scroll, n, amount, wrap) {
        None => None,
        Some(t) => {
            let count = (n as u32) as int;
            if t < 0 {
                if t == i32::MIN {
                    None
                } else if scroll >= -t {
                    Some((0u32, (scroll + t) as u32))
                } else {
                    Some((0u32, 0u32))
                }
            } else if t + scroll > u32::MAX {
                None
            } else if t + scroll >= count {
                let top: int = if count >= h { count - h } else { 0 };
                if top + 1 > u32::MAX {
                    None
                } else if count >= top + 1 {
                    Some(((count - top - 1) as u32, top as u32))
                } else {
                    Some((0u32, top as u32))
                }
            } else if t >= h {
                if h == 0 {
                    None
                } else if t + scroll >= h - 1 {
                    Some(((h - 1) as u32, (t + scroll - (h - 1)) as u32))
                } else {
                    Some(((h - 1) as u32, 0u32))
                }
            } else {
                Some((t as u32, scroll))
            }
        },
    }
}

/// The amount of rows by which the cursor moves to reach item `row`; `None`
/// where computing it overflows an `i32`.
pub open spec fn move_to_amount(cursor: u32, scroll: u32, row: u32) -> Option<i32> {
    let d = (row as i32) as int - (cursor as i32) as int;
    let a = d - (scroll as i32) as int;
    if i32::MIN <= d <= i32::MAX && i32::MIN <= a <= i32::MAX {
        Some(a as i32)
    } else {
        None
    }
}

/// The cursor and scroll position after moving the cursor to item `row`.
pub open spec fn move_to_result(cursor: u32, scroll: u32, n: nat, h: u32, row: u32) -> Option<(u32, u32)> {
    match move_to_amount(cursor, scroll, row) {
        None => None,
        Some(a) => move_result(cursor, scroll, n, h, a, false),
    }
}

/// The cursor and scroll position after a move of `amount` rows over a list
/// of `n_items` items shown in a window of `h` rows.
pub fn cursor_after_move(cursor: u32, scroll: u32, n_items: usize, h: u32, amount: i32, wrap: bool) -> (r: (u32, u32))
    requires
        move_result(cursor, scroll, n_items as nat, h, amount, wrap) is Some,
    ensures
        r == move_result(cursor, scroll, n_items as nat, h, amount, wrap)->0,
{
    let n_visible_items = n_items as u32;
    let max_y = h;
    let mut new_cursor_pos: i32 = cursor as i32 + amount;
    if wrap && n_items > 0 {
        let offset = scroll as i32;
        let rem = (offset + new_cursor_pos).checked_rem_euclid(n_visible_items as i32);
        new_cursor_pos = rem.unwrap() - offset;
    }
    if new_cursor_pos < 0 {
        // attempting to go above the current view, scroll up
        let up = (0 - new_cursor_pos) as u32;
        let new_scroll = if scroll >= up { scroll - up } else { 0 };
        (0, new_scroll)
    } else if new_cursor_pos as u32 + scroll >= n_visible_items {
        // attempting to go below content
        let new_scroll = if n_visible_items >= max_y { n_visible_items - max_y } else { 0 };
        let new_cursor = if n_visible_items >= new_scroll + 1 { n_visible_items - (new_scroll + 1) } else { 0 };
        (new_cursor, new_scroll)
    } else if new_cursor_pos as u32 >= max_y {
        // attempting to go below current view, scroll down
        let new_cursor = max_y - 1;
        let bottom = scroll + new_cursor_pos as u32;
        let lowest = if n_visible_items < bottom { n_visible_items } else { bottom };
        let new_scroll = if lowest >= new_cursor { lowest - new_cursor } else { 0 };
        (new_cursor, new_scroll)
    } else {
        // scrolling within view
        (new_cursor_pos as u32, scroll)
    }
}

/// Whether a move of `amount` rows over a list of `n_items` items shown in a
/// window of `h` rows can be made without overflow.
pub fn move_is_defined(cursor: u32, scroll: u32, n_items: usize, h: u32, amount: i32, wrap: bool) -> (r: bool)
    ensures
        r == move_result(cursor, scroll, n_items as nat, h, amount, wrap) is Some,
{
    let lowest: i64 = -0x8000_0000i64;
    let highest: i64 = 0x7fff_ffffi64;
    let base: i64 = (cursor as i32) as i64 + amount as i64;
    if base < lowest || base > highest {
        return false;
    }
    let mut t: i64 = base;
    if wrap && n_items > 0 {
        let offset: i64 = (scroll as i32) as i64;
        let len: i64 = ((n_items as u32) as i32) as i64;
        let x: i64 = offset + base;
        if x < lowest || x > highest || len == 0 || (x == lowest && len == -1) {
            return false;
        }
        let rem = (x as i32).checked_rem_euclid(len as i32).unwrap();
        t = rem as i64 - offset;
        if t < lowest || t > highest {
            return false;
        }
    }
    let count: i64 = (n_items as u32) as i64;
    if t < 0 {
        t != lowest
    } else if t + scroll as i64 > 0xffff_ffffi64 {
        false
    } else if t + scroll as i64 >= count {
        let top: i64 = if count >= h as i64 { count - h as i64 } else { 0 };
        top + 1 <= 0xffff_ffffi64
    } else if t >= h as i64 {
        h != 0
    } else {
        true
    }
}

/// Whether moving the cursor to item `row` of a list of `n_items` items shown
/// in a window of `h` rows can be done without overflow.
pub fn move_to_is_defined(cursor: u32, scroll: u32, n_items: usize, h: u32, row: u32) -> (r: bool)
    ensures
        r == move_to_result(cursor, scroll, n_items as nat, h, row) is Some,
{
    let d: i64 = (row as i32) as i64 - (cursor as i32) as i64;
    let a: i64 = d - (scroll as i32) as i64;
    if d < -0x8000_0000i64 || d > 0x7fff_ffffi64 || a < -0x8000_0000i64 || a > 0x7fff_ffffi64 {
        return false;
    }
    move_is_defined(cursor, scroll, n_items, h, a as i32, false)
}

/// The amount of rows by which the cursor moves to reach item `row`.
pub fn amount_to_row(cursor: u32, scroll: u32, row: u32) -> (r: i32)
    requires
        move_to_amount(cursor, scroll, row) is Some,
    ensures
        r == move_to_amount(cursor, scroll, row)->0,
{
    row as i32 - cursor as i32 - scroll as i32
}


/// The index of the item that a move of `amount` from item `index` lands on,
/// in a list of `n` items: with `wrap`, counted round the list; without, held
/// to the first and last items.
pub open spec fn landing_index(index: int, n: nat, amount: int, wrap: bool) -> int {
    let t = index + amount;
    if wrap && n > 0 {
        t % (n as int)
    } else if t < 0 {
        0
    } else if t >= n {
        n - 1
    } else {
        t
    }
}

/// The scroll position that shows item `idx` in a window of `h` rows scrolled
/// to `scroll`: unchanged where the item is already in view, else the least
/// scroll that brings it in from above or from below. A move past the last
/// item (`past_end`) always scrolls as far down as the list goes.
pub open spec fn scroll_showing(idx: int, scroll: int, h: int, past_end: bool) -> int {
    if idx < scroll {
        idx
    } else if idx < scroll + h && !past_end {
        scroll
    } else if idx - (h - 1) >= 0 {
        idx - (h - 1)
    } else {
        0
    }
}

/// What a move does, said directly: from a cursor on an item inside the
/// window, the cursor lands on the item `amount` places on (round the list
/// with `wrap`, else held to the first and last items), and the window
/// scrolls by the least that shows it.
pub proof fn lemma_move_result_direct(cursor: u32, scroll: u32, n: nat, h: u32, amount: i32, wrap: bool)
    requires
        n <= i32::MAX,
        view_valid(cursor, scroll, n, h),
        move_result(cursor, scroll, n, h, amount, wrap) is Some,
    ensures
        ({
            let (c, s) = move_result(cursor, scroll, n, h, amount, wrap)->0;
            let idx = landing_index(scroll + cursor, n, amount as int, wrap);
            let past_end = !wrap && scroll + cursor + amount >= n;
            &&& s + c == idx
            &&& s == scroll_showing(idx, scroll as int, h as int, past_end)
        }),
{
    assert((n as u32) as int == n);
    assert(((n as u32) as i32) as int == n);
    assert((cursor as i32) as int == cursor);
    assert((scroll as i32) as int == scroll);
    if wrap {
        let x = scroll + cursor + amount;
        assert(0 <= x % (n as int) < n) by (nonlinear_arith)
            requires n > 0;
    }
}

/// Over an empty list every move puts the cursor on the top row.
pub proof fn lemma_move_over_empty_list_goes_to_top(cursor: u32, scroll: u32, h: u32, amount: i32, wrap: bool)
    requires
        move_result(cursor, scroll, 0, h, amount, wrap) is Some,
    ensures
        (move_result(cursor, scroll, 0, h, amount, wrap)->0).0 == 0,
{
}

/// A move never takes the cursor off the items or out of the window: from a
/// state where the cursor is on an item inside the window, every move that
/// does not overflow leaves it on an item inside the window.
pub proof fn lemma_move_keeps_view_valid(cursor: u32, scroll: u32, n: nat, h: u32, amount: i32, wrap: bool)
    requires
        n <= u32::MAX,
        view_valid(cursor, scroll, n, h),
        move_result(cursor, scroll, n, h, amount, wrap) is Some,
    ensures
        ({
            let (c, s) = move_result(cursor, scroll, n, h, amount, wrap)->0;
            view_valid(c, s, n, h)
        }),
{
}

/// A move by zero rows, without wrapping, changes nothing where the cursor is
/// on an item inside the window.
pub proof fn lemma_move_by_zero_is_identity(cursor: u32, scroll: u32, n: nat, h: u32)
    requires
        n <= u32::MAX,
        view_valid(cursor, scroll, n, h),
        cursor <= i32::MAX,
    ensures
        move_result(cursor, scroll, n, h, 0, false) == Some((cursor, scroll)),
{
}

/// Moving the cursor to item `row` of a list of `n` items puts it on that
/// item inside the window; where `row` is past the end, it puts it on the last
/// item (from a scroll position inside the list).
pub proof fn lemma_move_to_reaches_row(cursor: u32, scroll: u32, n: nat, h: u32, row: u32)
    requires
        0 < n <= u32::MAX,
        h >= 1,
        cursor <= i32::MAX,
        scroll <= i32::MAX,
        row <= i32::MAX,
        move_to_result(cursor, scroll, n, h, row) is Some,
    ensures
        ({
            let (c, s) = move_to_result(cursor, scroll, n, h, row)->0;
            &&& row < n ==> view_valid(c, s, n, h) && s + c == row
            &&& row >= n && scroll < n ==> view_valid(c, s, n, h) && s + c == n - 1
        }),
{
    let a = move_to_amount(cursor, scroll, row)->0;
    assert(a == row - cursor - scroll);
    assert(move_target(cursor, scroll, n, a, false) == Some(row - scroll));
    assert((n as u32) as int == n);
    let r = move_result(cursor, scroll, n, h, a, false)->0;
    assert(move_to_result(cursor, scroll, n, h, row)->0 == r);
}

/// With wrapping, a move of `amount` rows over a nonempty list lands on the
/// item `amount` places after the one under the cursor, counted round the
/// list.
pub proof fn lemma_wrapping_move_lands_modulo(cursor: u32, scroll: u32, n: nat, h: u32, amount: i32)
    requires
        0 < n <= i32::MAX,
        h >= 1,
        cursor <= i32::MAX,
        scroll <= i32::MAX,
        move_result(cursor, scroll, n, h, amount, true) is Some,
    ensures
        ({
            let (c, s) = move_result(cursor, scroll, n, h, amount, true)->0;
            &&& view_valid(c, s, n, h)
            &&& s + c == (scroll + cursor + amount) % (n as int)
        }),
{
}


/// On lists of fewer than 2^29 items, from a cursor and scroll position below
/// 2^29, no move of fewer than 2^30 rows overflows (with a window of at least
/// one row).
pub proof fn lemma_small_move_defined(cursor: u32, scroll: u32, n: nat, h: u32, amount: i32, wrap: bool)
    requires
        cursor < 0x2000_0000,
        scroll < 0x2000_0000,
        n < 0x2000_0000,
        -0x4000_0000 < amount < 0x4000_0000,
        h >= 1,
    ensures
        move_result(cursor, scroll, n, h, amount, wrap) is Some,
{
    if wrap && n > 0 {
        let offset = scroll as int;
        let x = offset + cursor + amount;
        assert(0 <= x % (n as int) < n) by (nonlinear_arith)
            requires n > 0;
    }
}

/// On lists of fewer than 2^29 items, from a cursor and scroll position below
/// 2^29, moving the cursor to an item below 2^29 does not overflow (with a
/// window of at least one row).
pub proof fn lemma_small_move_to_defined(cursor: u32, scroll: u32, n: nat, h: u32, row: u32)
    requires
        cursor < 0x2000_0000,
        scroll < 0x2000_0000,
        n < 0x2000_0000,
        row < 0x2000_0000,
        h >= 1,
    ensures
        move_to_result(cursor, scroll, n, h, row) is Some,
{
    let a = move_to_amount(cursor, scroll, row)->0;
    lemma_small_move_defined(cursor, scroll, n, h, a, false);
}

} // verus!
