//! What the operations on the application state do, as functions of plain
//! values, and the laws that relate them.

use vstd::prelude::*;
use crate::cursor::{lemma_move_to_reaches_row, lemma_small_move_to_defined, move_result, move_to_result, view_valid};
use crate::dir_entry::CustomDirEntry;
use crate::filtered_vec::{all_indices, indices_valid, lemma_indices_unique, lemma_kept_len_bounded, select};
use crate::matches_vec::{next_pos, prev_pos};

verus! {

/// The first index of `s` whose item satisfies `p`, if any.
pub open spec fn first_such<A>(s: Seq<A>, p: spec_fn(A) -> bool) -> Option<int> {
    if exists|i: int| is_first_such(s, p, i) {
        Some(choose|i: int| is_first_such(s, p, i))
    } else {
        None
    }
}

/// `i` is the first index of `s` whose item satisfies `p`.
pub open spec fn is_first_such<A>(s: Seq<A>, p: spec_fn(A) -> bool, i: int) -> bool {
    &&& 0 <= i < s.len()
    &&& p(s[i])
    &&& forall|k: int| 0 <= k < i ==> !p(#[trigger] s[k])
}

/// The first index found by a scan is the first such index.
pub proof fn lemma_first_such_found<A>(s: Seq<A>, p: spec_fn(A) -> bool, i: int)
    requires
        is_first_such(s, p, i),
    ensures
        first_such(s, p) == Some(i),
{
    let j = choose|j: int| is_first_such(s, p, j);
    assert(is_first_such(s, p, j));
    if j < i {
        assert(!p(s[j]));
    } else if j > i {
        assert(!p(s[i]));
    }
}

/// Where some item satisfies `p`, there is a first such index, at or before
/// it.
pub proof fn lemma_first_such_exists<A>(s: Seq<A>, p: spec_fn(A) -> bool, i: int)
    requires
        0 <= i < s.len(),
        p(s[i]),
    ensures
        first_such(s, p) matches Some(j) && is_first_such(s, p, j) && j <= i,
    decreases i,
{
    if exists|k: int| 0 <= k < i && p(#[trigger] s[k]) {
        let k = choose|k: int| 0 <= k < i && p(#[trigger] s[k]);
        lemma_first_such_exists(s, p, k);
    } else {
        lemma_first_such_found(s, p, i);
    }
}

/// Where some item is named `name`, the first such item has an index, at or
/// before it.
pub proof fn lemma_index_of_name_exists(items: Seq<CustomDirEntry>, name: Seq<char>, i: int)
    requires
        0 <= i < items.len(),
        items[i].name() == name,
    ensures
        index_of_name(items, name) matches Some(j) && 0 <= j <= i && items[j].name() == name,
{
    let p = |e: CustomDirEntry| e.name() == name;
    lemma_first_such_exists(items, p, i);
}

/// Where no item satisfies `p`, there is no first such index.
pub proof fn lemma_first_such_none<A>(s: Seq<A>, p: spec_fn(A) -> bool)
    requires
        forall|i: int| 0 <= i < s.len() ==> !p(#[trigger] s[i]),
    ensures
        first_such(s, p) is None,
{
    if exists|i: int| is_first_such(s, p, i) {
        let j = choose|j: int| is_first_such(s, p, j);
        assert(!p(s[j]));
    }
}

/// The first index of an item named `name`.
pub open spec fn index_of_name(items: Seq<CustomDirEntry>, name: Seq<char>) -> Option<int> {
    first_such(items, |e: CustomDirEntry| e.name() == name)
}

/// The name of the item at index `idx`, if there is one.
pub open spec fn name_at(items: Seq<CustomDirEntry>, idx: int) -> Option<Seq<char>> {
    if 0 <= idx < items.len() {
        Some(items[idx].name())
    } else {
        None
    }
}

/// The row that an index into the items becomes: itself where it fits a
/// `u32`, else the largest `u32`.
pub open spec fn row_of_index(i: int) -> u32 {
    if i <= u32::MAX {
        i as u32
    } else {
        u32::MAX
    }
}

/// `kept` is the list of indices of the items whose name begins with
/// `search`, in increasing order.
pub open spec fn kept_by_search(items: Seq<CustomDirEntry>, search: Seq<char>, kept: Seq<usize>) -> bool {
    &&& indices_valid(kept, items.len())
    &&& forall|i: int| 0 <= i < items.len() ==> (kept.contains(i as usize) <==> search.is_prefix_of(#[trigger] items[i].name()))
}

/// The items shown: with `filter`, only those at the indices `kept`.
pub open spec fn shown(items: Seq<CustomDirEntry>, kept: Seq<usize>, filter: bool) -> Seq<CustomDirEntry> {
    if filter {
        select(items, kept)
    } else {
        items
    }
}

/// Where the cursor goes when it is sent to the item named `name`: `None`
/// where the move overflows, `Some(None)` where no such item is shown (the
/// cursor stays), else the new cursor and scroll position.
pub open spec fn goto_name(cursor: u32, scroll: u32, items: Seq<CustomDirEntry>, h: u32, name: Seq<char>) -> Option<Option<(u32, u32)>> {
    match index_of_name(items, name) {
        None => Some(None),
        Some(i) => match move_to_result(cursor, scroll, items.len(), h, row_of_index(i)) {
            None => None,
            Some(r) => Some(Some(r)),
        },
    }
}

/// Where the cursor goes after the shown items changed under it: back onto the
/// item named `prev` that it was on, or onto the first item where that one is
/// no longer shown. `None` where a move overflows.
pub open spec fn settle_on(cursor: u32, scroll: u32, items: Seq<CustomDirEntry>, h: u32, prev: Option<Seq<char>>) -> Option<(u32, u32)> {
    match prev {
        None => Some((cursor, scroll)),
        Some(name) => match goto_name(cursor, scroll, items, h, name) {
            None => None,
            Some(Some(r)) => Some(r),
            Some(None) => move_to_result(cursor, scroll, items.len(), h, 0),
        },
    }
}

/// The header shown for the current folder, or for the error met in
/// looking it up.
pub open spec fn header_for(cwd: Result<Seq<char>, Seq<char>>) -> Seq<char> {
    match cwd {
        Ok(path) => path,
        Err(e) => "Unable to get current dir! ("@ + e + ")"@,
    }
}

/// The cursor and scroll position after the window height changes from
/// `old_h` to `h`: the cursor is first brought inside the new window; where
/// the window grew, it then scrolls back by as much as it grew (or to the
/// top), the cursor moving down to stay on its item. `None` where a step
/// overflows.
pub open spec fn resize_result(cursor: u32, scroll: u32, n: nat, old_h: u32, h: u32) -> Option<(u32, u32)> {
    match move_result(cursor, scroll, n, h, 0, false) {
        None => None,
        Some((c, s)) => {
            let grow: int = if h >= old_h { h - old_h } else { 0 };
            if grow > 0 {
                let s2: int = if s >= grow { s - grow } else { 0 };
                if c + (s - s2) <= u32::MAX {
                    Some(((c + (s - s2)) as u32, s2 as u32))
                } else {
                    None
                }
            } else {
                Some((c, s))
            }
        },
    }
}

/// The indices of the items whose name begins with `search`, in increasing
/// order.
pub open spec fn search_kept(items: Seq<CustomDirEntry>, search: Seq<char>) -> Seq<usize> {
    choose|kept: Seq<usize>| kept_by_search(items, search, kept)
}

/// The indices, into the shown items, of those that match the search: with
/// filtering every shown item matches.
pub open spec fn match_indices(kept: Seq<usize>, filter: bool) -> Seq<usize> {
    if filter {
        all_indices(kept.len())
    } else {
        kept
    }
}

/// The position of the first match at or after the item at index `idx`, or of
/// the first match where none is.
pub open spec fn match_start(matches: Seq<usize>, idx: int) -> nat {
    match first_such(matches, |m: usize| m >= idx) {
        Some(j) => j as nat,
        None => 0,
    }
}

/// The position among `len` matches after a step in direction `dir` from
/// `pos`: forward where `dir` is positive, backward where it is negative.
pub open spec fn adjacent_pos(len: nat, pos: nat, dir: i32) -> nat {
    if dir < 0 {
        prev_pos(len, pos)
    } else if dir > 0 {
        next_pos(len, pos)
    } else {
        pos
    }
}

/// The cursor, scroll position and current match after a step to an
/// adjacent match. Nothing moves unless a search is typed and some item
/// matches it. `None` where a move overflows.
pub open spec fn adjacent_result(
    cursor: u32,
    scroll: u32,
    n_visible: nat,
    h: u32,
    n_kept: nat,
    searching: bool,
    matches: Seq<usize>,
    pos: nat,
    dir: i32,
) -> Option<(u32, u32, nat)> {
    if n_kept > 0 && searching && matches.len() > 0 {
        let p = adjacent_pos(matches.len(), pos, dir);
        match move_to_result(cursor, scroll, n_visible, h, matches[p as int] as u32) {
            None => None,
            Some((c, s)) => Some((c, s, p)),
        }
    } else {
        Some((cursor, scroll, pos))
    }
}

/// The cursor, scroll position, matches and current match after the search
/// changed, where `kept` is the new list of matching indices, `prev` the name
/// of the item that was under the cursor and `searching` whether the new
/// search is nonempty. With filtering, the cursor settles back on its item
/// (or on the first item); without, it jumps to the first match at or after
/// it. `None` where a move overflows.
pub open spec fn after_search_change(
    cursor: u32,
    scroll: u32,
    h: u32,
    items: Seq<CustomDirEntry>,
    kept: Seq<usize>,
    filter: bool,
    prev: Option<Seq<char>>,
    searching: bool,
) -> Option<(u32, u32, Seq<usize>, nat)> {
    let vis = shown(items, kept, filter);
    let m = match_indices(kept, filter);
    if filter {
        match settle_on(cursor, scroll, vis, h, prev) {
            None => None,
            Some((c, s)) => Some((c, s, m, match_start(m, c + s))),
        }
    } else {
        match adjacent_result(cursor, scroll, vis.len(), h, kept.len(), searching, m, match_start(m, cursor + scroll), 0) {
            None => None,
            Some((c, s, p)) => Some((c, s, m, p)),
        }
    }
}

/// The indices of the items that match a search are unique.
pub proof fn lemma_search_kept(items: Seq<CustomDirEntry>, search: Seq<char>, kept: Seq<usize>)
    requires
        kept_by_search(items, search, kept),
    ensures
        search_kept(items, search) == kept,
{
    let c = search_kept(items, search);
    assert(kept_by_search(items, search, c));
    assert forall|i: usize| c.contains(i) <==> kept.contains(i) by {
        if c.contains(i) {
            let j = choose|j: int| 0 <= j < c.len() && c[j] == i;
            assert(i < items.len());
            assert(search.is_prefix_of(items[i as int].name()));
        }
        if kept.contains(i) {
            let j = choose|j: int| 0 <= j < kept.len() && kept[j] == i;
            assert(i < items.len());
            assert(search.is_prefix_of(items[i as int].name()));
        }
    }
    lemma_indices_unique(c, kept, items.len());
}

/// Where the window height changes, the cursor stays on the item it was on
/// and inside the new window.
pub proof fn lemma_resize_keeps_item(cursor: u32, scroll: u32, n: nat, old_h: u32, h: u32)
    requires
        n <= u32::MAX,
        view_valid(cursor, scroll, n, old_h),
        h >= 1,
        cursor <= i32::MAX,
        resize_result(cursor, scroll, n, old_h, h) is Some,
    ensures
        ({
            let (c, s) = resize_result(cursor, scroll, n, old_h, h)->0;
            &&& view_valid(c, s, n, h)
            &&& s + c == scroll + cursor
        }),
{
}

/// With filtering, the items shown are exactly those whose name begins with
/// the search, in the order of the listing.
pub proof fn lemma_filtered_items_match(items: Seq<CustomDirEntry>, search: Seq<char>, kept: Seq<usize>)
    requires
        items.len() <= usize::MAX,
        kept_by_search(items, search, kept),
    ensures
        forall|j: int| 0 <= j < kept.len() ==> search.is_prefix_of(#[trigger] select(items, kept)[j].name()),
        forall|i: int| 0 <= i < items.len() && search.is_prefix_of(#[trigger] items[i].name())
            ==> exists|j: int| 0 <= j < kept.len() && select(items, kept)[j] == items[i],
        forall|j: int, k: int| 0 <= j < k < kept.len() ==> kept[j] < kept[k],
{
    assert forall|j: int| 0 <= j < kept.len() implies search.is_prefix_of(#[trigger] select(items, kept)[j].name()) by {
        assert(kept.contains(kept[j]));
        assert(items[kept[j] as int] == select(items, kept)[j]);
    }
    assert forall|i: int| 0 <= i < items.len() && search.is_prefix_of(#[trigger] items[i].name())
        implies exists|j: int| 0 <= j < kept.len() && select(items, kept)[j] == items[i] by {
        assert(kept.contains(i as usize));
        let j = choose|j: int| 0 <= j < kept.len() && kept[j] == i as usize;
        assert(kept[j] as int == i);
        assert(select(items, kept)[j] == items[i]);
    }
}

/// Typing a character and erasing it gives back the search, and so the same
/// matching items.
pub proof fn lemma_erase_undoes_advance(items: Seq<CustomDirEntry>, search: Seq<char>, c: char)
    ensures
        (search + seq![c]).drop_last() == search,
        search_kept(items, (search + seq![c]).drop_last()) == search_kept(items, search),
{
    assert((search + seq![c]).drop_last() =~= search);
}

/// Sending the cursor to a name that is shown puts it on an item of that name.
pub proof fn lemma_goto_name_lands_on_name(cursor: u32, scroll: u32, items: Seq<CustomDirEntry>, h: u32, name: Seq<char>)
    requires
        index_of_name(items, name) is Some,
        items.len() <= i32::MAX,
        h >= 1,
        cursor <= i32::MAX,
        scroll <= i32::MAX,
        goto_name(cursor, scroll, items, h, name) is Some,
    ensures
        goto_name(cursor, scroll, items, h, name)->0 matches Some(pos) && {
            &&& view_valid(pos.0, pos.1, items.len(), h)
            &&& items[pos.1 + pos.0].name() == name
        },
{
    let i = index_of_name(items, name)->0;
    let p = |e: CustomDirEntry| e.name() == name;
    assert(exists|k: int| is_first_such(items, p, k));
    assert(is_first_such(items, p, i));
    lemma_move_to_reaches_row(cursor, scroll, items.len(), h, i as u32);
}

/// Jumping to a match puts the cursor on an item whose name begins with the
/// search, where the matches are those of the search.
pub proof fn lemma_jump_lands_on_match(
    cursor: u32,
    scroll: u32,
    h: u32,
    items: Seq<CustomDirEntry>,
    search: Seq<char>,
    kept: Seq<usize>,
    filter: bool,
    pos: nat,
    dir: i32,
)
    requires
        kept_by_search(items, search, kept),
        items.len() <= i32::MAX,
        h >= 1,
        cursor <= i32::MAX,
        scroll <= i32::MAX,
        search.len() > 0,
        kept.len() > 0,
        pos < kept.len(),
        adjacent_result(cursor, scroll, shown(items, kept, filter).len(), h, kept.len(), true,
            match_indices(kept, filter), pos, dir) is Some,
    ensures
        ({
            let (c, s, p) = adjacent_result(cursor, scroll, shown(items, kept, filter).len(), h, kept.len(), true,
                match_indices(kept, filter), pos, dir)->0;
            let vis = shown(items, kept, filter);
            &&& view_valid(c, s, vis.len(), h)
            &&& search.is_prefix_of(vis[s + c].name())
            &&& p < kept.len()
        }),
{
    let m = match_indices(kept, filter);
    let vis = shown(items, kept, filter);
    crate::matches_vec::lemma_increment_decrement_inverse(kept.len(), pos);
    let p = adjacent_pos(m.len(), pos, dir);
    assert(p < kept.len());
    let row = m[p as int];
    assert(kept[0] < items.len());
    lemma_kept_len_bounded(kept, items.len());
    assert(vis.len() > 0);
    assert(row < vis.len());
    lemma_move_to_reaches_row(cursor, scroll, vis.len(), h, row as u32);
    assert(kept.contains(kept[p as int]));
    if filter {
        assert(vis[p as int] == items[kept[p as int] as int]);
    }
}


spec fn kept_upto(items: Seq<CustomDirEntry>, search: Seq<char>, kept: Seq<usize>, n: nat) -> bool {
    &&& indices_valid(kept, n)
    &&& forall|i: int| 0 <= i < n ==> (kept.contains(i as usize) <==> search.is_prefix_of(#[trigger] items[i].name()))
}

proof fn lemma_kept_prefix_exists(items: Seq<CustomDirEntry>, search: Seq<char>, n: nat)
    requires
        n <= items.len(),
        n <= usize::MAX,
    ensures
        exists|kept: Seq<usize>| #[trigger] kept_upto(items, search, kept, n),
    decreases n,
{
    if n == 0 {
        let kept = Seq::<usize>::empty();
        assert(kept_upto(items, search, kept, 0));
    } else {
        lemma_kept_prefix_exists(items, search, (n - 1) as nat);
        let k = choose|kept: Seq<usize>| #[trigger] kept_upto(items, search, kept, (n - 1) as nat);
        let last = (n - 1) as usize;
        let kept = if search.is_prefix_of(items[n - 1].name()) { k.push(last) } else { k };
        assert(indices_valid(kept, n));
        assert forall|i: int| 0 <= i < n implies (kept.contains(i as usize) <==> search.is_prefix_of(#[trigger] items[i].name())) by {
            if search.is_prefix_of(items[n - 1].name()) {
                if i == n - 1 {
                    assert(kept[kept.len() - 1] == last);
                } else if kept.contains(i as usize) {
                    let j = choose|j: int| 0 <= j < kept.len() && kept[j] == i as usize;
                    assert(j < k.len());
                    assert(k[j] == i as usize);
                } else if k.contains(i as usize) {
                    let j = choose|j: int| 0 <= j < k.len() && k[j] == i as usize;
                    assert(kept[j] == i as usize);
                }
            } else if i == n - 1 {
                if k.contains(i as usize) {
                    let j = choose|j: int| 0 <= j < k.len() && k[j] == i as usize;
                }
            }
        }
        assert(kept_upto(items, search, kept, n));
    }
}

/// For every search there is the list of indices of the items whose name
/// begins with it.
pub proof fn lemma_search_kept_exists(items: Seq<CustomDirEntry>, search: Seq<char>)
    requires
        items.len() <= usize::MAX,
    ensures
        kept_by_search(items, search, search_kept(items, search)),
{
    lemma_kept_prefix_exists(items, search, items.len());
    let k = choose|kept: Seq<usize>| #[trigger] kept_upto(items, search, kept, items.len());
    assert(kept_by_search(items, search, k));
}

/// On lists of fewer than 2^29 items, from a cursor and scroll position below
/// 2^29, with a window of at least one row, a change of search moves the
/// cursor without overflow.
pub proof fn lemma_small_search_change_defined(
    cursor: u32,
    scroll: u32,
    h: u32,
    items: Seq<CustomDirEntry>,
    search: Seq<char>,
    filter: bool,
    prev: Option<Seq<char>>,
)
    requires
        cursor < 0x2000_0000,
        scroll < 0x2000_0000,
        items.len() < 0x2000_0000,
        h >= 1,
    ensures
        after_search_change(cursor, scroll, h, items, search_kept(items, search), filter, prev, search.len() > 0) is Some,
{
    let kept = search_kept(items, search);
    lemma_search_kept_exists(items, search);
    lemma_kept_len_bounded(kept, items.len());
    let vis = shown(items, kept, filter);
    let m = match_indices(kept, filter);
    if filter {
        lemma_small_move_to_defined(cursor, scroll, vis.len(), h, 0);
        if let Some(name) = prev {
            if let Some(i) = index_of_name(vis, name) {
                let p = |e: CustomDirEntry| e.name() == name;
                assert(exists|k: int| is_first_such(vis, p, k));
                assert(is_first_such(vis, p, i));
                lemma_small_move_to_defined(cursor, scroll, vis.len(), h, row_of_index(i));
            }
        }
    } else {
        let p = match_start(m, cursor + scroll);
        if kept.len() > 0 {
            let q = |x: usize| x >= cursor + scroll;
            if exists|j: int| is_first_such(m, q, j) {
                let j = choose|j: int| is_first_such(m, q, j);
                assert(is_first_such(m, q, j));
            }
            assert(p < m.len());
            assert(m[p as int] < items.len());
            lemma_small_move_to_defined(cursor, scroll, vis.len(), h, m[p as int] as u32);
        }
    }
}


/// A jump to an adjacent match changes nothing while no search is typed, or
/// while no item matches the search.
pub proof fn lemma_no_jump_without_search(
    cursor: u32,
    scroll: u32,
    n_visible: nat,
    h: u32,
    n_kept: nat,
    searching: bool,
    matches: Seq<usize>,
    pos: nat,
    dir: i32,
)
    requires
        !searching || n_kept == 0,
    ensures
        adjacent_result(cursor, scroll, n_visible, h, n_kept, searching, matches, pos, dir) == Some((cursor, scroll, pos)),
{
}

/// With filtering, where the item that was under the cursor is no longer
/// shown after a change of search (or there was none), the cursor ends on the
/// first shown item, whatever row it was on.
pub proof fn lemma_unshown_item_sends_cursor_to_first(
    cursor: u32,
    scroll: u32,
    h: u32,
    items: Seq<CustomDirEntry>,
    kept: Seq<usize>,
    name: Seq<char>,
    searching: bool,
)
    requires
        cursor <= i32::MAX,
        scroll <= i32::MAX,
        index_of_name(shown(items, kept, true), name) is None,
        after_search_change(cursor, scroll, h, items, kept, true, Some(name), searching) is Some,
    ensures
        ({
            let (c, s, m, p) = after_search_change(cursor, scroll, h, items, kept, true, Some(name), searching)->0;
            &&& c == 0
            &&& s == 0
        }),
{
}

/// Where the window grows by `g` rows, from a cursor on an item inside the
/// old window, the window scrolls back by `g` rows (or to the top) and the
/// cursor moves down by as much, so that it stays on its item.
pub proof fn lemma_growing_window_scrolls_back(cursor: u32, scroll: u32, n: nat, old_h: u32, h: u32)
    requires
        n <= u32::MAX,
        view_valid(cursor, scroll, n, old_h),
        old_h < h,
        cursor <= i32::MAX,
        resize_result(cursor, scroll, n, old_h, h) is Some,
    ensures
        ({
            let (c, s) = resize_result(cursor, scroll, n, old_h, h)->0;
            let g = h - old_h;
            &&& s == (if scroll >= g { scroll - g } else { 0 })
            &&& c == cursor + (scroll - s)
        }),
{
}


/// With filtering, where the item that was under the cursor is still shown
/// after a change of search, the cursor ends back on it, inside the window.
pub proof fn lemma_shown_item_keeps_cursor(
    cursor: u32,
    scroll: u32,
    h: u32,
    items: Seq<CustomDirEntry>,
    kept: Seq<usize>,
    name: Seq<char>,
    searching: bool,
)
    requires
        cursor <= i32::MAX,
        scroll <= i32::MAX,
        h >= 1,
        shown(items, kept, true).len() <= i32::MAX,
        index_of_name(shown(items, kept, true), name) is Some,
        after_search_change(cursor, scroll, h, items, kept, true, Some(name), searching) is Some,
    ensures
        ({
            let vis = shown(items, kept, true);
            let (c, s, m, p) = after_search_change(cursor, scroll, h, items, kept, true, Some(name), searching)->0;
            &&& view_valid(c, s, vis.len(), h)
            &&& vis[s + c].name() == name
        }),
{
    let vis = shown(items, kept, true);
    assert(goto_name(cursor, scroll, vis, h, name) is Some);
    lemma_goto_name_lands_on_name(cursor, scroll, vis, h, name);
}

/// Without filtering, a change of search to a nonempty search that some item
/// matches sends the cursor to the first match at or after the item it was
/// on, or to the first match where there is none after it.
pub proof fn lemma_search_goes_to_next_match(
    cursor: u32,
    scroll: u32,
    h: u32,
    items: Seq<CustomDirEntry>,
    search: Seq<char>,
    kept: Seq<usize>,
    prev: Option<Seq<char>>,
)
    requires
        kept_by_search(items, search, kept),
        search.len() > 0,
        kept.len() > 0,
        items.len() <= i32::MAX,
        cursor <= i32::MAX,
        scroll <= i32::MAX,
        h >= 1,
        after_search_change(cursor, scroll, h, items, kept, false, prev, true) is Some,
    ensures
        ({
            let (c, s, m, p) = after_search_change(cursor, scroll, h, items, kept, false, prev, true)->0;
            let old_idx = scroll + cursor;
            &&& view_valid(c, s, items.len(), h)
            &&& kept.contains((s + c) as usize)
            &&& search.is_prefix_of(items[s + c].name())
            &&& (exists|j: int| 0 <= j < kept.len() && kept[j] >= old_idx) ==> {
                &&& s + c >= old_idx
                &&& forall|j: int| 0 <= j < kept.len() && old_idx <= #[trigger] kept[j] ==> s + c <= kept[j]
            }
            &&& (forall|j: int| 0 <= j < kept.len() ==> #[trigger] kept[j] < old_idx) ==> s + c == kept[0]
        }),
{
    let old_idx = scroll + cursor;
    let q = |x: usize| x >= old_idx;
    let p = match_start(kept, old_idx);
    lemma_kept_len_bounded(kept, items.len());
    if exists|j: int| 0 <= j < kept.len() && kept[j] >= old_idx {
        let j0 = choose|j: int| 0 <= j < kept.len() && kept[j] >= old_idx;
        lemma_first_such_exists(kept, q, j0);
        let j = first_such(kept, q)->0;
        assert(p == j);
        assert forall|k: int| 0 <= k < kept.len() && old_idx <= #[trigger] kept[k] implies kept[j] <= kept[k] by {
            if k < j {
                assert(!q(kept[k]));
            }
        }
    } else {
        lemma_first_such_none(kept, q);
        assert(p == 0);
    }
    assert(p < kept.len());
    let row = kept[p as int];
    assert(row < items.len());
    assert(adjacent_pos(kept.len(), p, 0) == p);
    let r = move_to_result(cursor, scroll, items.len(), h, row as u32);
    assert(shown(items, kept, false) == items);
    assert(match_indices(kept, false) == kept);
    assert(after_search_change(cursor, scroll, h, items, kept, false, prev, true) == match r {
        None => None,
        Some((c, s)) => Some((c, s, kept, p)),
    });
    lemma_move_to_reaches_row(cursor, scroll, items.len(), h, row as u32);
    assert(kept.contains(row));
}

/// A jump to the next match (positive `dir`) or the previous one (negative
/// `dir`) goes one place round the list of matches and puts the cursor on
/// that match; a jump one way then the other comes back to where it started.
pub proof fn lemma_jump_steps_round_matches(
    cursor: u32,
    scroll: u32,
    n_visible: nat,
    h: u32,
    n_kept: nat,
    matches: Seq<usize>,
    pos: nat,
    dir: i32,
)
    requires
        n_kept > 0,
        matches.len() > 0,
        pos < matches.len(),
        dir != 0,
        0 < n_visible <= i32::MAX,
        forall|j: int| 0 <= j < matches.len() ==> #[trigger] matches[j] < n_visible,
        cursor <= i32::MAX,
        scroll <= i32::MAX,
        h >= 1,
        adjacent_result(cursor, scroll, n_visible, h, n_kept, true, matches, pos, dir) is Some,
    ensures
        ({
            let (c, s, p) = adjacent_result(cursor, scroll, n_visible, h, n_kept, true, matches, pos, dir)->0;
            &&& p as int == (if dir > 0 { (pos + 1) as int % (matches.len() as int) } else if pos == 0 { matches.len() - 1 } else { pos - 1 })
            &&& s + c == matches[p as int]
            &&& view_valid(c, s, n_visible, h)
            &&& adjacent_pos(matches.len(), adjacent_pos(matches.len(), pos, dir), if dir > 0 { -1i32 } else { 1i32 }) == pos
        }),
{
    crate::matches_vec::lemma_increment_decrement_inverse(matches.len(), pos);
    let p = adjacent_pos(matches.len(), pos, dir);
    lemma_move_to_reaches_row(cursor, scroll, n_visible, h, matches[p as int] as u32);
}

} // verus!
