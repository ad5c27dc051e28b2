//! Application state of a terminal file browser: the listing of a folder,
//! its filtering by a typed search, and the position of the cursor and the
//! scrolled window over that listing.

pub mod text;
pub mod matches_vec;
pub mod filtered_vec;
pub mod dir_entry;
pub mod settings;
pub mod listing_order;
pub mod cursor;
pub mod state_spec;
pub mod app_state;
