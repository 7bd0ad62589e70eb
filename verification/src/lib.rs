//! Ranking core of a desktop application launcher.
//!
//! Given the text a user has typed and a list of candidate application
//! paths found on disk, this library decides which candidates to show
//! and in what order: it scores every path with a fuzzy matcher, sorts
//! by score, keeps the best ten, and derives a display name from each
//! path. The surrounding process (window handling, directory scanning,
//! spawning the selected program) stays outside the library.

pub mod entry;
pub mod fuzzy;
pub mod query;
pub mod rank;

pub use entry::display_name;
pub use entry::Runnable;
pub use query::query_accepted;
pub use query::search_dirs;
pub use rank::rank_apps;
