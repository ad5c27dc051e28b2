//! The state of the application: the listing of the current folder, the
//! search typed over it, and the cursor and scrolled window over the items
//! that are shown. It has no notion of a terminal: what is read from the
//! file system is handed to it as plain values.

use vstd::prelude::*;
use crate::cursor::{amount_to_row, cursor_after_move, move_is_defined, move_result, move_to_is_defined, move_to_result};
use crate::dir_entry::CustomDirEntry;
use crate::filtered_vec::{all_indices, indices_valid, lemma_all_indices_select_all, FilteredVec};
use crate::listing_order::{is_listing_of, listed, listed_entries, sort_listing, stable_arrangement};
use crate::matches_vec::MatchesVec;
use crate::settings::TereSettings;
use crate::state_spec::{
    adjacent_result, after_search_change, first_such, goto_name, header_for, index_of_name,
    kept_by_search, lemma_first_such_found, lemma_index_of_name_exists, lemma_first_such_none, lemma_search_kept, match_indices,
    match_start, name_at, resize_result, row_of_index, search_kept, shown,
};
use crate::text::{chars_of, has_prefix, pop_char};

verus! {

struct SearchState {
    matches: MatchesVec<usize>,
}

/// This struct represents the state of the application. Note that it has no
/// notion of curses windows.
pub struct TereAppState {
    // Width and height of the main window. These values have to be updated by
    // calling using the update_main_window_dimensions function if the window
    // dimensions change.
    main_win_w: u32,
    main_win_h: u32,
    // The list of files/folders in the current directory, including ".."
    // (the parent folder).
    ls_output_buf: FilteredVec<CustomDirEntry>,
    /// The row on which the cursor is currently on, counted starting from the
    /// top of the screen (not from the start of the listing).
    pub cursor_pos: u32,
    /// The top of the screen corresponds to this row in the visible items.
    pub scroll_pos: u32,
    search_string: String,
    // The indices (into the visible items) of the items that match the search,
    // with the one that the cursor last jumped to.
    search_state: SearchState,
    pub header_msg: String,
    pub info_msg: String,
    pub settings: TereSettings,
}

impl TereAppState {
    /// Width of the main window.
    pub closed spec fn win_w(&self) -> u32 {
        self.main_win_w
    }

    /// Height of the main window.
    pub closed spec fn win_h(&self) -> u32 {
        self.main_win_h
    }

    /// All items of the listing, in order.
    pub closed spec fn listing(&self) -> Seq<CustomDirEntry> {
        self.ls_output_buf.items()
    }

    /// The indices of the items of the listing that match the search.
    pub closed spec fn kept(&self) -> Seq<usize> {
        self.ls_output_buf.kept()
    }

    /// The search typed so far.
    pub closed spec fn search(&self) -> Seq<char> {
        self.search_string@
    }

    /// The indices, into the visible items, of the matches that the cursor
    /// jumps between.
    pub closed spec fn matches(&self) -> Seq<usize> {
        self.search_state.matches.items()
    }

    /// The position, among the matches, of the current match.
    pub closed spec fn match_pos(&self) -> nat {
        self.search_state.matches.pos()
    }

    /// The row of the cursor.
    pub closed spec fn cur(&self) -> u32 {
        self.cursor_pos
    }

    /// The scroll position.
    pub closed spec fn scr(&self) -> u32 {
        self.scroll_pos
    }

    /// The settings.
    pub closed spec fn config(&self) -> TereSettings {
        self.settings
    }

    /// The header message.
    pub closed spec fn header(&self) -> Seq<char> {
        self.header_msg@
    }

    /// The info message.
    pub closed spec fn info(&self) -> Seq<char> {
        self.info_msg@
    }

    /// The items currently shown.
    pub open spec fn visible(&self) -> Seq<CustomDirEntry> {
        shown(self.listing(), self.kept(), self.config().filter_search)
    }

    /// Everything but the cursor and the scroll position is the same in both
    /// states.
    pub open spec fn same_but_view(&self, other: &TereAppState) -> bool {
        &&& self.win_w() == other.win_w()
        &&& self.win_h() == other.win_h()
        &&& self.listing() == other.listing()
        &&& self.kept() == other.kept()
        &&& self.search() == other.search()
        &&& self.matches() == other.matches()
        &&& self.match_pos() == other.match_pos()
        &&& self.header() == other.header()
        &&& self.info() == other.info()
        &&& self.config() == other.config()
    }

    /// The cursor and scroll position of the state.
    pub open spec fn view_pos(&self) -> (u32, u32) {
        (self.cur(), self.scr())
    }

    proof fn lemma_kept_valid(&self)
        requires
            self.ls_output_buf.wf(),
        ensures
            indices_valid(self.kept(), self.listing().len()),
            self.listing().len() <= usize::MAX,
    {
        self.ls_output_buf.lemma_kept_valid();
    }

    /// The number of items currently shown.
    fn num_visible_items(&self) -> (r: usize)
        ensures
            r == self.visible().len(),
    {
        if self.settings.filter_search {
            self.ls_output_buf.kept_indices().len()
        } else {
            self.ls_output_buf.all_items().len()
        }
    }

    /// Move the cursor down to later items (positive amount) or up to earlier
    /// items (negative amount) in the currently visible items, and update the
    /// scroll position as necessary
    pub fn move_cursor(&mut self, amount: i32, wrap: bool)
        requires
            move_result(old(self).cur(), old(self).scr(), old(self).visible().len(), old(self).win_h(), amount, wrap) is Some,
        ensures
            final(self).same_but_view(old(self)),
            final(self).view_pos() == move_result(old(self).cur(), old(self).scr(), old(self).visible().len(), old(self).win_h(), amount, wrap)->0,
    {
        let n = self.num_visible_items();
        let (c, s) = cursor_after_move(self.cursor_pos, self.scroll_pos, n, self.main_win_h, amount, wrap);
        self.cursor_pos = c;
        self.scroll_pos = s;
    }

    /// Move the cursor so that it is at the location `row` in the
    /// currently visible items, and update the scroll position as necessary
    pub fn move_cursor_to(&mut self, row: u32)
        requires
            move_to_result(old(self).cur(), old(self).scr(), old(self).visible().len(), old(self).win_h(), row) is Some,
        ensures
            final(self).same_but_view(old(self)),
            final(self).view_pos() == move_to_result(old(self).cur(), old(self).scr(), old(self).visible().len(), old(self).win_h(), row)->0,
    {
        let amount = amount_to_row(self.cursor_pos, self.scroll_pos, row);
        self.move_cursor(amount, false);
    }

    /// A state over the given listing, kept in the order given, with nothing
    /// searched and the cursor on the first item.
    pub fn with_listing(items: Vec<CustomDirEntry>, window_w: u32, window_h: u32, settings: TereSettings) -> (r: Self)
        ensures
            r.win_w() == window_w,
            r.win_h() == window_h,
            r.listing() == items@,
            r.kept() == all_indices(items@.len()),
            r.cur() == 0,
            r.scr() == 0,
            r.search() == Seq::<char>::empty(),
            r.matches() == Seq::<usize>::empty(),
            r.match_pos() == 0,
            r.header() == Seq::<char>::empty(),
            r.info() == Seq::<char>::empty(),
            r.config() == settings,
    {
        TereAppState {
            main_win_w: window_w,
            main_win_h: window_h,
            ls_output_buf: FilteredVec::from(items),
            cursor_pos: 0,
            scroll_pos: 0,
            search_string: String::new(),
            search_state: SearchState { matches: MatchesVec::from_vec(Vec::new()) },
            header_msg: String::new(),
            info_msg: String::new(),
            settings,
        }
    }

    /// The state at start: the header shows the current folder (`cwd`, or the
    /// error met in looking it up), and the listing holds the parent folder
    /// `pardir` and the `entries` read from the current folder (none where
    /// reading failed).
    pub fn init(
        settings: TereSettings,
        window_w: u32,
        window_h: u32,
        cwd: Result<String, String>,
        pardir: CustomDirEntry,
        entries: Option<Vec<CustomDirEntry>>,
    ) -> (r: Self)
        ensures
            r.win_w() == window_w,
            r.win_h() == window_h,
            r.cur() == 0,
            r.scr() == 0,
            r.search() == Seq::<char>::empty(),
            r.matches() == Seq::<usize>::empty(),
            r.match_pos() == 0,
            r.header() == header_for(match cwd { Ok(p) => Ok(p@), Err(e) => Err(e@) }),
            r.info() == Seq::<char>::empty(),
            r.config() == settings,
            r.kept() == all_indices(r.listing().len()),
            match entries {
                None => r.listing() == Seq::<CustomDirEntry>::empty(),
                Some(v) => is_listing_of(r.listing(), pardir, v@, settings.folders_only),
            },
    {
        let mut ret = Self::with_listing(Vec::new(), window_w, window_h, settings);
        ret.update_header(cwd);
        ret.update_ls_output_buf(pardir, entries);
        assert(ret.listing() == Seq::<CustomDirEntry>::empty() ==> ret.kept() =~= all_indices(0));
        ret
    }

    /// Show the current folder (`cwd`) in the header, or the error met in
    /// looking it up.
    pub fn update_header(&mut self, cwd: Result<String, String>)
        ensures
            final(self).header() == header_for(match cwd { Ok(p) => Ok(p@), Err(e) => Err(e@) }),
            final(self).cur() == old(self).cur(),
            final(self).scr() == old(self).scr(),
            final(self).win_w() == old(self).win_w(),
            final(self).win_h() == old(self).win_h(),
            final(self).listing() == old(self).listing(),
            final(self).kept() == old(self).kept(),
            final(self).search() == old(self).search(),
            final(self).matches() == old(self).matches(),
            final(self).match_pos() == old(self).match_pos(),
            final(self).info() == old(self).info(),
            final(self).config() == old(self).config(),
    {
        let header = match cwd {
            Ok(path) => path,
            Err(e) => {
                let mut msg = "Unable to get current dir! (".to_owned();
                msg.append(e.as_str());
                msg.append(")");
                msg
            },
        };
        self.header_msg = header;
    }

    /// Replace the listing by the parent folder `pardir` and the `entries` read
    /// from the current folder (only the folders among them where the settings
    /// ask for folders only), folders first, then files, each group by name;
    /// tied entries keep their order.
    /// Nothing changes where reading the folder failed (`entries` is `None`).
    #[verifier::spinoff_prover]
    pub fn update_ls_output_buf(&mut self, pardir: CustomDirEntry, entries: Option<Vec<CustomDirEntry>>)
        ensures
            match entries {
                None => {
                    &&& final(self).listing() == old(self).listing()
                    &&& final(self).kept() == old(self).kept()
                },
                Some(v) => {
                    &&& is_listing_of(final(self).listing(), pardir, v@, old(self).config().folders_only)
                    &&& final(self).kept() == all_indices(final(self).listing().len())
                },
            },
            final(self).cur() == old(self).cur(),
            final(self).scr() == old(self).scr(),
            final(self).win_w() == old(self).win_w(),
            final(self).win_h() == old(self).win_h(),
            final(self).search() == old(self).search(),
            final(self).matches() == old(self).matches(),
            final(self).match_pos() == old(self).match_pos(),
            final(self).header() == old(self).header(),
            final(self).info() == old(self).info(),
            final(self).config() == old(self).config(),
    {
        if let Some(entries) = entries {
            let ghost entries_view = entries@;
            let mut new_output_buf: Vec<CustomDirEntry> = Vec::new();
            new_output_buf.push(pardir);
            let mut listed_ones = listed_entries(entries, self.settings.folders_only);
            let ghost first = new_output_buf@;
            let ghost rest = listed_ones@;
            new_output_buf.append(&mut listed_ones);
            assert(new_output_buf@ =~= seq![pardir] + rest);
            let ghost unsorted = new_output_buf@;
            let sorted = sort_listing(new_output_buf);
            let ghost pos = choose|pos: Seq<int>| stable_arrangement(sorted@, unsorted, pos);
            self.ls_output_buf = FilteredVec::from(sorted);
            assert(stable_arrangement(self.listing(), seq![pardir] + listed(entries_view, self.settings.folders_only), pos));
            assert(is_listing_of(self.listing(), pardir, entries_view, self.settings.folders_only));
        }
    }

    /// Take new window dimensions. The cursor is brought back inside the
    /// window; where the window grew, it scrolls back as far as it can, the
    /// cursor staying on its item.
    pub fn update_main_window_dimensions(&mut self, w: u32, h: u32)
        requires
            resize_result(old(self).cur(), old(self).scr(), old(self).visible().len(), old(self).win_h(), h) is Some,
        ensures
            final(self).win_w() == w,
            final(self).win_h() == h,
            final(self).view_pos() == resize_result(old(self).cur(), old(self).scr(), old(self).visible().len(), old(self).win_h(), h)->0,
            final(self).listing() == old(self).listing(),
            final(self).kept() == old(self).kept(),
            final(self).search() == old(self).search(),
            final(self).matches() == old(self).matches(),
            final(self).match_pos() == old(self).match_pos(),
            final(self).header() == old(self).header(),
            final(self).info() == old(self).info(),
            final(self).config() == old(self).config(),
    {
        let delta_h = if h >= self.main_win_h { h - self.main_win_h } else { 0 };
        self.main_win_w = w;
        self.main_win_h = h;
        self.move_cursor(0, false);  // make sure that cursor is within view
        if delta_h > 0 {
            // height is increasing, scroll backwards as much as possible
            let old_scroll_pos = self.scroll_pos;
            self.scroll_pos = if old_scroll_pos >= delta_h { old_scroll_pos - delta_h } else { 0 };
            self.cursor_pos = self.cursor_pos + (old_scroll_pos - self.scroll_pos);
        }
    }

    /// The items currently shown: those that match the search where the
    /// settings ask to filter, else all items.
    pub fn visible_items(&self) -> (r: Vec<&CustomDirEntry>)
        ensures
            r@.unref() == self.visible(),
    {
        if self.settings.filter_search {
            self.ls_output_buf.kept_items()
        } else {
            let all = self.ls_output_buf.all_items();
            let mut r: Vec<&CustomDirEntry> = Vec::new();
            let mut i: usize = 0;
            while i < all.len()
                invariant
                    i <= all@.len(),
                    r@.len() == i,
                    forall|k: int| 0 <= k < i ==> *r@[k] == all@[k],
                decreases all@.len() - i,
            {
                r.push(&all[i]);
                i = i + 1;
            }
            assert(r@.unref() =~= all@);
            r
        }
    }

    /// Convert a cursor position (in the range 0..window_height) to an index
    /// into the currently visible items.
    pub fn cursor_pos_to_visible_item_index(&self, cursor_pos: u32) -> (r: usize)
        requires
            cursor_pos + self.scr() <= u32::MAX,
        ensures
            r == cursor_pos + self.scr(),
    {
        (cursor_pos + self.scroll_pos) as usize
    }

    /// The item shown on row `cursor_pos` of the window, if any.
    pub fn get_item_at_cursor_pos(&self, cursor_pos: u32) -> (r: Option<&CustomDirEntry>)
        requires
            cursor_pos + self.scr() <= u32::MAX,
        ensures
            r == (if cursor_pos + self.scr() < self.visible().len() {
                Some(&self.visible()[cursor_pos + self.scr()])
            } else {
                None
            }),
    {
        proof {
            use_type_invariant(&self.ls_output_buf);
            self.lemma_kept_valid();
        }
        let idx = self.cursor_pos_to_visible_item_index(cursor_pos);
        if self.settings.filter_search {
            let kept = self.ls_output_buf.kept_indices();
            if idx < kept.len() {
                Some(&self.ls_output_buf.all_items()[kept[idx]])
            } else {
                None
            }
        } else {
            let all = self.ls_output_buf.all_items();
            if idx < all.len() {
                Some(&all[idx])
            } else {
                None
            }
        }
    }

    /// The name of the item under the cursor, if any.
    fn name_under_cursor(&self) -> (r: Option<String>)
        requires
            self.cur() + self.scr() <= u32::MAX,
        ensures
            match r {
                None => name_at(self.visible(), self.cur() + self.scr()) is None,
                Some(n) => name_at(self.visible(), self.cur() + self.scr()) == Some(n@),
            },
    {
        match self.get_item_at_cursor_pos(self.cursor_pos) {
            Some(item) => Some(item.file_name_checked()),
            None => None,
        }
    }

    /// Get the index of a filename into the currently visible items. Returns
    /// None if it's not found.
    fn index_of_filename(&self, fname: &str) -> (r: Option<usize>)
        ensures
            index_of_name(self.visible(), fname@) == match r {
                None => None,
                Some(i) => Some(i as int),
            },
    {
        let target = fname.to_owned();
        let items = self.visible_items();
        let ghost vis = self.visible();
        let ghost is_named = |e: CustomDirEntry| e.name() == fname@;
        assert(index_of_name(vis, fname@) == first_such(vis, is_named)) by {
            assert((|e: CustomDirEntry| e.name() == fname@) =~= is_named);
        }
        let mut i: usize = 0;
        while i < items.len()
            invariant
                i <= items@.len(),
                items@.unref() == vis,
                vis == self.visible(),
                target@ == fname@,
                is_named == |e: CustomDirEntry| e.name() == fname@,
                index_of_name(vis, fname@) == first_such(vis, is_named),
                forall|k: int| 0 <= k < i ==> !is_named(#[trigger] vis[k]),
            decreases items@.len() - i,
        {
            assert(vis[i as int] == *items@[i as int]);
            if items[i].file_name().eq(&target) {
                proof {
                    lemma_first_such_found(vis, is_named, i as int);
                }
                return Some(i);
            }
            i = i + 1;
        }
        proof {
            lemma_first_such_none(vis, is_named);
        }
        None
    }

    /// Move cursor to the position of a given filename. If the filename was
    /// not found, don't move the cursor and return false, otherwise return true.
    pub fn move_cursor_to_filename(&mut self, fname: &str) -> (found: bool)
        requires
            goto_name(old(self).cur(), old(self).scr(), old(self).visible(), old(self).win_h(), fname@) is Some,
        ensures
            final(self).same_but_view(old(self)),
            match goto_name(old(self).cur(), old(self).scr(), old(self).visible(), old(self).win_h(), fname@)->0 {
                None => !found && final(self).view_pos() == old(self).view_pos(),
                Some(pos) => found && final(self).view_pos() == pos,
            },
            found <==> exists|i: int| 0 <= i < old(self).visible().len() && #[trigger] old(self).visible()[i].name() == fname@,
    {
        proof {
            if exists|i: int| 0 <= i < old(self).visible().len() && #[trigger] old(self).visible()[i].name() == fname@ {
                let i = choose|i: int| 0 <= i < old(self).visible().len() && #[trigger] old(self).visible()[i].name() == fname@;
                lemma_index_of_name_exists(old(self).visible(), fname@, i);
            }
        }
        match self.index_of_filename(fname) {
            Some(idx) => {
                let row: u32 = if idx <= 0xffff_ffffusize { idx as u32 } else { 0xffff_ffffu32 };
                self.move_cursor_to(row);
                true
            },
            None => false,
        }
    }

    /// Whether a search has been typed.
    pub fn is_searching(&self) -> (r: bool)
        ensures
            r == (self.search().len() > 0),
    {
        !self.search_string.as_str().is_empty()
    }

    /// The search typed so far.
    pub fn search_string(&self) -> (r: &String)
        ensures
            r@ == self.search(),
    {
        &self.search_string
    }

    /// The total number of items in the listing.
    pub fn num_total_items(&self) -> (r: usize)
        ensures
            r == self.listing().len(),
    {
        self.ls_output_buf.all_items().len()
    }

    /// The number of items that match the current search. The indices of
    /// those items are valid: increasing and below the number of items, which
    /// fits a `usize`.
    pub fn num_matching_items(&self) -> (r: usize)
        ensures
            r == self.kept().len(),
            indices_valid(self.kept(), self.listing().len()),
            self.listing().len() <= usize::MAX,
    {
        proof {
            use_type_invariant(&self.ls_output_buf);
            self.lemma_kept_valid();
        }
        self.ls_output_buf.kept_indices().len()
    }

    /// The row of the cursor.
    pub fn cursor(&self) -> (r: u32)
        ensures
            r == self.cur(),
    {
        self.cursor_pos
    }

    /// The scroll position: the index of the item on the top row.
    pub fn scroll(&self) -> (r: u32)
        ensures
            r == self.scr(),
    {
        self.scroll_pos
    }

    /// The width of the main window.
    pub fn window_width(&self) -> (r: u32)
        ensures
            r == self.win_w(),
    {
        self.main_win_w
    }

    /// The height of the main window.
    pub fn window_height(&self) -> (r: u32)
        ensures
            r == self.win_h(),
    {
        self.main_win_h
    }

    /// The settings.
    pub fn current_settings(&self) -> (r: &TereSettings)
        ensures
            *r == self.config(),
    {
        &self.settings
    }

    /// The header message.
    pub fn header_message(&self) -> (r: &String)
        ensures
            r@ == self.header(),
    {
        &self.header_msg
    }

    /// The info message.
    pub fn info_message(&self) -> (r: &String)
        ensures
            r@ == self.info(),
    {
        &self.info_msg
    }

    /// Return a vector that contains the indices into the currently visible
    /// items that contain a match
    pub fn visible_match_indices(&self) -> (r: Vec<usize>)
        ensures
            r@ == match_indices(self.kept(), self.config().filter_search),
    {
        let kept = self.ls_output_buf.kept_indices();
        let mut r: Vec<usize> = Vec::new();
        let mut i: usize = 0;
        while i < kept.len()
            invariant
                i <= kept@.len(),
                r@.len() == i,
                forall|k: int| 0 <= k < i ==> r@[k] == (if self.settings.filter_search { k as usize } else { kept@[k] }),
            decreases kept@.len() - i,
        {
            if self.settings.filter_search {
                r.push(i);
            } else {
                r.push(kept[i]);
            }
            i = i + 1;
        }
        assert(r@ =~= match_indices(self.kept(), self.config().filter_search));
        r
    }

    /// Keep, among the items, those whose name begins with the search.
    fn update_search_matches(&mut self)
        ensures
            kept_by_search(final(self).listing(), final(self).search(), final(self).kept()),
            final(self).kept() == search_kept(final(self).listing(), final(self).search()),
            final(self).listing() == old(self).listing(),
            final(self).view_pos() == old(self).view_pos(),
            final(self).win_w() == old(self).win_w(),
            final(self).win_h() == old(self).win_h(),
            final(self).search() == old(self).search(),
            final(self).matches() == old(self).matches(),
            final(self).match_pos() == old(self).match_pos(),
            final(self).header() == old(self).header(),
            final(self).info() == old(self).info(),
            final(self).config() == old(self).config(),
    {
        let search = chars_of(self.search_string.as_str());
        let ghost sv = search@;
        let matcher = |itm: &CustomDirEntry| -> (b: bool)
            ensures
                b == search@.is_prefix_of(itm.name()),
            {
                let name = chars_of(itm.file_name().as_str());
                has_prefix(&name, &search)
            };
        self.ls_output_buf.apply_filter(matcher);
        proof {
            use_type_invariant(&self.ls_output_buf);
            self.lemma_kept_valid();
            let items = self.listing();
            let kept = self.kept();
            assert forall|i: int| 0 <= i < items.len() implies (kept.contains(i as usize) <==> sv.is_prefix_of(#[trigger] items[i].name())) by {
                if kept.contains(i as usize) {
                    let j = choose|j: int| 0 <= j < kept.len() && kept[j] == i as usize;
                    assert(matcher.ensures((&items[kept[j] as int],), true));
                    assert(kept[j] as int == i);
                } else {
                    assert(matcher.ensures((&items[i],), false));
                }
            }
            lemma_search_kept(items, sv, kept);
        }
    }

    /// Start the list of matches over: the matches are the visible matching
    /// items, and the current one is the first at or after the cursor.
    fn rebuild_matches(&mut self)
        ensures
            final(self).matches() == match_indices(old(self).kept(), old(self).config().filter_search),
            final(self).match_pos() == match_start(final(self).matches(), old(self).cur() + old(self).scr()),
            final(self).listing() == old(self).listing(),
            final(self).kept() == old(self).kept(),
            final(self).view_pos() == old(self).view_pos(),
            final(self).win_w() == old(self).win_w(),
            final(self).win_h() == old(self).win_h(),
            final(self).search() == old(self).search(),
            final(self).header() == old(self).header(),
            final(self).info() == old(self).info(),
            final(self).config() == old(self).config(),
    {
        let m = self.visible_match_indices();
        let idx: u64 = self.cursor_pos as u64 + self.scroll_pos as u64;
        let ghost at_or_after = |x: usize| x >= idx;
        let mut j: usize = 0;
        while j < m.len() && (m[j] as u64) < idx
            invariant
                j <= m@.len(),
                at_or_after == |x: usize| x >= idx,
                forall|k: int| 0 <= k < j ==> !at_or_after(#[trigger] m@[k]),
            decreases m@.len() - j,
        {
            j = j + 1;
        }
        proof {
            assert(match_start(m@, idx as int) == match first_such(m@, at_or_after) {
                Some(j) => j as nat,
                None => 0,
            }) by {
                assert((|x: usize| x >= idx as int) =~= at_or_after);
            }
            if j < m@.len() {
                lemma_first_such_found(m@, at_or_after, j as int);
            } else {
                lemma_first_such_none(m@, at_or_after);
            }
        }
        self.search_state.matches = MatchesVec::from_vec_at(m, j);
    }

    /// Move the cursor to the next or previous match in the current list of
    /// matches, and update the match list to point to the new current value.
    /// If dir is positive, move to the next match, if it's negative, move to
    /// the previous match, and if it's zero, move to the cursor to the current
    /// match (without modifying the match list).
    pub fn move_cursor_to_adjacent_match(&mut self, dir: i32)
        requires
            adjacent_result(old(self).cur(), old(self).scr(), old(self).visible().len(), old(self).win_h(),
                old(self).kept().len(), old(self).search().len() > 0, old(self).matches(), old(self).match_pos(), dir) is Some,
        ensures
            ({
                let (c, s, p) = adjacent_result(old(self).cur(), old(self).scr(), old(self).visible().len(), old(self).win_h(),
                    old(self).kept().len(), old(self).search().len() > 0, old(self).matches(), old(self).match_pos(), dir)->0;
                &&& final(self).view_pos() == (c, s)
                &&& final(self).match_pos() == p
            }),
            final(self).matches() == old(self).matches(),
            final(self).listing() == old(self).listing(),
            final(self).kept() == old(self).kept(),
            final(self).win_w() == old(self).win_w(),
            final(self).win_h() == old(self).win_h(),
            final(self).search() == old(self).search(),
            final(self).header() == old(self).header(),
            final(self).info() == old(self).info(),
            final(self).config() == old(self).config(),
    {
        if self.num_matching_items() > 0 && self.is_searching() && self.search_state.matches.len() > 0 {
            proof {
                use_type_invariant(&self.search_state.matches);
                self.search_state.matches.lemma_pos_in_range();
                crate::matches_vec::lemma_increment_decrement_inverse(self.matches().len(), self.match_pos());
            }
            if dir < 0 {
                self.search_state.matches.decrement();
            } else if dir > 0 {
                self.search_state.matches.increment();
            }
            let i = *self.search_state.matches.current_item().unwrap();
            self.move_cursor_to(i as u32);
        }
    }

    /// Add `query` to the search: keep the items whose name begins with it,
    /// and move the cursor accordingly (see `after_search_change`).
    pub fn advance_search(&mut self, query: &str)
        requires
            old(self).cur() + old(self).scr() <= u32::MAX,
            after_search_change(old(self).cur(), old(self).scr(), old(self).win_h(), old(self).listing(),
                search_kept(old(self).listing(), old(self).search() + query@), old(self).config().filter_search,
                name_at(old(self).visible(), old(self).cur() + old(self).scr()),
                (old(self).search() + query@).len() > 0) is Some,
        ensures
            final(self).search() == old(self).search() + query@,
            kept_by_search(final(self).listing(), final(self).search(), final(self).kept()),
            final(self).kept() == search_kept(old(self).listing(), final(self).search()),
            ({
                let (c, s, m, p) = after_search_change(old(self).cur(), old(self).scr(), old(self).win_h(), old(self).listing(),
                    final(self).kept(), old(self).config().filter_search,
                    name_at(old(self).visible(), old(self).cur() + old(self).scr()),
                    final(self).search().len() > 0)->0;
                &&& final(self).view_pos() == (c, s)
                &&& final(self).matches() == m
                &&& final(self).match_pos() == p
            }),
            final(self).listing() == old(self).listing(),
            final(self).win_w() == old(self).win_w(),
            final(self).win_h() == old(self).win_h(),
            final(self).header() == old(self).header(),
            final(self).info() == old(self).info(),
            final(self).config() == old(self).config(),
    {
        self.search_string.append(query);
        self.refresh_search();
    }

    /// Erase the last character of the search, if any: keep the items whose
    /// name begins with what remains, and move the cursor accordingly (see
    /// `after_search_change`). Nothing changes where the search is empty.
    pub fn erase_search_char(&mut self)
        requires
            old(self).search().len() > 0 ==> {
                &&& old(self).cur() + old(self).scr() <= u32::MAX
                &&& after_search_change(old(self).cur(), old(self).scr(), old(self).win_h(), old(self).listing(),
                    search_kept(old(self).listing(), old(self).search().drop_last()), old(self).config().filter_search,
                    name_at(old(self).visible(), old(self).cur() + old(self).scr()),
                    old(self).search().drop_last().len() > 0) is Some
            },
        ensures
            old(self).search().len() == 0 ==> final(self).same_but_view(old(self)) && final(self).view_pos() == old(self).view_pos(),
            old(self).search().len() > 0 ==> {
                &&& final(self).search() == old(self).search().drop_last()
                &&& kept_by_search(final(self).listing(), final(self).search(), final(self).kept())
                &&& final(self).kept() == search_kept(old(self).listing(), final(self).search())
                &&& ({
                    let (c, s, m, p) = after_search_change(old(self).cur(), old(self).scr(), old(self).win_h(), old(self).listing(),
                        final(self).kept(), old(self).config().filter_search,
                        name_at(old(self).visible(), old(self).cur() + old(self).scr()),
                        final(self).search().len() > 0)->0;
                    &&& final(self).view_pos() == (c, s)
                    &&& final(self).matches() == m
                    &&& final(self).match_pos() == p
                })
            },
            final(self).listing() == old(self).listing(),
            final(self).win_w() == old(self).win_w(),
            final(self).win_h() == old(self).win_h(),
            final(self).header() == old(self).header(),
            final(self).info() == old(self).info(),
            final(self).config() == old(self).config(),
    {
        if let Some(_) = pop_char(&mut self.search_string) {
            self.refresh_search();
        }
    }

    /// After the search changed: filter the items by the search, and put the
    /// cursor and the matches back in place.
    fn refresh_search(&mut self)
        requires
            old(self).cur() + old(self).scr() <= u32::MAX,
            after_search_change(old(self).cur(), old(self).scr(), old(self).win_h(), old(self).listing(),
                search_kept(old(self).listing(), old(self).search()), old(self).config().filter_search,
                name_at(old(self).visible(), old(self).cur() + old(self).scr()),
                old(self).search().len() > 0) is Some,
        ensures
            final(self).search() == old(self).search(),
            kept_by_search(final(self).listing(), final(self).search(), final(self).kept()),
            final(self).kept() == search_kept(old(self).listing(), final(self).search()),
            ({
                let (c, s, m, p) = after_search_change(old(self).cur(), old(self).scr(), old(self).win_h(), old(self).listing(),
                    final(self).kept(), old(self).config().filter_search,
                    name_at(old(self).visible(), old(self).cur() + old(self).scr()),
                    final(self).search().len() > 0)->0;
                &&& final(self).view_pos() == (c, s)
                &&& final(self).matches() == m
                &&& final(self).match_pos() == p
            }),
            final(self).listing() == old(self).listing(),
            final(self).win_w() == old(self).win_w(),
            final(self).win_h() == old(self).win_h(),
            final(self).header() == old(self).header(),
            final(self).info() == old(self).info(),
            final(self).config() == old(self).config(),
    {
        let previous_item_under_cursor = self.name_under_cursor();
        self.update_search_matches();
        if self.settings.filter_search {
            if let Some(name) = previous_item_under_cursor {
                if !self.move_cursor_to_filename(name.as_str()) {
                    self.move_cursor_to(0);
                }
            }
            self.rebuild_matches();
        } else {
            self.rebuild_matches();
            self.move_cursor_to_adjacent_match(0);
        }
    }

    /// Clear the search: every item is shown again, and the cursor goes back
    /// onto the item it was on.
    pub fn clear_search(&mut self)
        requires
            old(self).cur() + old(self).scr() <= u32::MAX,
            name_at(old(self).visible(), old(self).cur() + old(self).scr()) matches Some(name)
                ==> goto_name(old(self).cur(), old(self).scr(), old(self).listing(), old(self).win_h(), name) is Some,
        ensures
            final(self).search() == Seq::<char>::empty(),
            final(self).kept() == all_indices(old(self).listing().len()),
            final(self).visible() == old(self).listing(),
            final(self).matches() == Seq::<usize>::empty(),
            final(self).match_pos() == 0,
            final(self).view_pos() == match name_at(old(self).visible(), old(self).cur() + old(self).scr()) {
                None => old(self).view_pos(),
                Some(name) => match goto_name(old(self).cur(), old(self).scr(), old(self).listing(), old(self).win_h(), name)->0 {
                    None => old(self).view_pos(),
                    Some(pos) => pos,
                },
            },
            final(self).listing() == old(self).listing(),
            final(self).win_w() == old(self).win_w(),
            final(self).win_h() == old(self).win_h(),
            final(self).header() == old(self).header(),
            final(self).info() == old(self).info(),
            final(self).config() == old(self).config(),
    {
        let previous_item_under_cursor = self.name_under_cursor();
        self.search_string = String::new();
        self.ls_output_buf.clear_filter();
        self.search_state.matches.clear();
        proof {
            use_type_invariant(&self.ls_output_buf);
            self.lemma_kept_valid();
            lemma_all_indices_select_all(self.listing());
        }
        if let Some(name) = previous_item_under_cursor {
            self.move_cursor_to_filename(name.as_str());
        }
    }

    /// Begin to change the current folder: the search is cleared, and the
    /// folder to make current is returned: `path`, or where `path` is empty
    /// the item under the cursor (the empty string where there is none).
    pub fn change_dir(&mut self, path: &str) -> (target: String)
        requires
            old(self).cur() + old(self).scr() <= u32::MAX,
            name_at(old(self).visible(), old(self).cur() + old(self).scr()) matches Some(name)
                ==> goto_name(old(self).cur(), old(self).scr(), old(self).listing(), old(self).win_h(), name) is Some,
        ensures
            target@ == (if path@.len() > 0 {
                path@
            } else {
                match name_at(old(self).visible(), old(self).cur() + old(self).scr()) {
                    Some(name) => name,
                    None => Seq::<char>::empty(),
                }
            }),
            final(self).search() == Seq::<char>::empty(),
            final(self).kept() == all_indices(old(self).listing().len()),
            final(self).matches() == Seq::<usize>::empty(),
            final(self).match_pos() == 0,
            final(self).view_pos() == match name_at(old(self).visible(), old(self).cur() + old(self).scr()) {
                None => old(self).view_pos(),
                Some(name) => match goto_name(old(self).cur(), old(self).scr(), old(self).listing(), old(self).win_h(), name)->0 {
                    None => old(self).view_pos(),
                    Some(pos) => pos,
                },
            },
            final(self).listing() == old(self).listing(),
            final(self).win_w() == old(self).win_w(),
            final(self).win_h() == old(self).win_h(),
            final(self).header() == old(self).header(),
            final(self).info() == old(self).info(),
            final(self).config() == old(self).config(),
    {
        let final_path = if path.is_empty() {
            match self.name_under_cursor() {
                Some(name) => name,
                None => String::new(),
            }
        } else {
            path.to_owned()
        };
        self.clear_search();
        final_path
    }

    /// End a change of folder, once the new listing is in: the cursor goes to
    /// the top, then onto the folder that was left (`old_cwd_name`) where it is
    /// shown.
    pub fn finish_change_dir(&mut self, old_cwd_name: Option<&str>)
        requires
            old_cwd_name matches Some(name) ==> (index_of_name(old(self).visible(), name@) matches Some(i)
                ==> move_result(0, 0, old(self).visible().len(), old(self).win_h(), i as i32, false) is Some),
        ensures
            final(self).same_but_view(old(self)),
            final(self).view_pos() == match old_cwd_name {
                None => (0u32, 0u32),
                Some(name) => match index_of_name(old(self).visible(), name@) {
                    None => (0u32, 0u32),
                    Some(i) => move_result(0, 0, old(self).visible().len(), old(self).win_h(), i as i32, false)->0,
                },
            },
    {
        self.cursor_pos = 0;
        self.scroll_pos = 0;
        if let Some(name) = old_cwd_name {
            if let Some(idx) = self.index_of_filename(name) {
                self.move_cursor(idx as i32, false);
            }
        }
    }

    /// The index in the listing of the first item named `name`, if any.
    fn index_in_listing(&self, name: &String) -> (r: Option<usize>)
        ensures
            index_of_name(self.listing(), name@) == match r {
                None => None,
                Some(i) => Some(i as int),
            },
    {
        let items = self.ls_output_buf.all_items();
        let ghost all = self.listing();
        let ghost is_named = |e: CustomDirEntry| e.name() == name@;
        assert(index_of_name(all, name@) == first_such(all, is_named)) by {
            assert((|e: CustomDirEntry| e.name() == name@) =~= is_named);
        }
        let mut i: usize = 0;
        while i < items.len()
            invariant
                i <= items@.len(),
                items@ == all,
                all == self.listing(),
                is_named == |e: CustomDirEntry| e.name() == name@,
                index_of_name(all, name@) == first_such(all, is_named),
                forall|k: int| 0 <= k < i ==> !is_named(#[trigger] all[k]),
            decreases items@.len() - i,
        {
            if items[i].file_name().eq(name) {
                proof {
                    lemma_first_such_found(all, is_named, i as int);
                }
                return Some(i);
            }
            i = i + 1;
        }
        proof {
            lemma_first_such_none(all, is_named);
        }
        None
    }

    /// Whether `change_dir` can be called: finding the item under the cursor
    /// and moving back onto it once the search is cleared do not overflow.
    pub fn can_change_dir(&self) -> (r: bool)
        ensures
            r == {
                &&& self.cur() + self.scr() <= u32::MAX
                &&& (name_at(self.visible(), self.cur() + self.scr()) matches Some(name)
                    ==> goto_name(self.cur(), self.scr(), self.listing(), self.win_h(), name) is Some)
            },
    {
        if self.cursor_pos as u64 + self.scroll_pos as u64 > 0xffff_ffffu64 {
            return false;
        }
        match self.name_under_cursor() {
            None => true,
            Some(name) => match self.index_in_listing(&name) {
                None => true,
                Some(i) => {
                    let row: u32 = if i <= 0xffff_ffffusize { i as u32 } else { 0xffff_ffffu32 };
                    assert(row == row_of_index(i as int));
                    move_to_is_defined(self.cursor_pos, self.scroll_pos, self.ls_output_buf.all_items().len(), self.main_win_h, row)
                },
            },
        }
    }

    /// Whether `finish_change_dir` can be called with `old_cwd_name`: moving
    /// onto the folder that was left does not overflow.
    pub fn can_finish_change_dir(&self, old_cwd_name: Option<&str>) -> (r: bool)
        ensures
            r == (old_cwd_name matches Some(name) ==> (index_of_name(self.visible(), name@) matches Some(i)
                ==> move_result(0, 0, self.visible().len(), self.win_h(), i as i32, false) is Some)),
    {
        match old_cwd_name {
            None => true,
            Some(name) => match self.index_of_filename(name) {
                None => true,
                Some(idx) => move_is_defined(0, 0, self.num_visible_items(), self.main_win_h, idx as i32, false),
            },
        }
    }
}

} // verus!
