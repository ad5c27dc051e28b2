# tere_state

The application state of a terminal file browser, verified with Verus: the
listing of the current folder (folders first, then files, each group by
name), a search typed over it that keeps the items whose name begins with it
(optionally hiding the others), the list of matches that the cursor jumps
between, and the cursor and scrolled window over the items shown.

Layout:

- `src/text.rs`: file names as sequences of characters: lexicographic order,
  prefixes.
- `src/filtered_vec.rs`: a vector with a filter over it (`FilteredVec`).
- `src/matches_vec.rs`: a cyclic list with a current position (`MatchesVec`).
- `src/dir_entry.rs`, `src/settings.rs`: a listing entry and the settings, as
  plain values.
- `src/listing_order.rs`: the order of a listing, and the stable sort into it.
- `src/cursor.rs`: where a move leaves the cursor and the window, with its
  laws.
- `src/state_spec.rs`: what the operations on the state do, as functions of
  plain values, and the laws that relate them.
- `src/app_state.rs`: the state itself (`TereAppState`).
- `app/lib.rs`: the command line (clap), the current folder and the reading of
  folders, handed to the state as plain values.
