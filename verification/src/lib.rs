//! Merging of user-configured launcher entries into a list of detected games.
//!
//! A configuration lists custom entries by title. An entry whose title matches
//! a detected game overrides that game field by field; an entry without a
//! match must bring every field itself. The merged list holds the detected
//! games that no custom entry replaced, followed by the custom entries.

pub mod model;
pub mod paths;
pub mod merge;
pub mod laws;
pub mod helpers;

pub use model::{Config, ConfigEntry, Game};
pub use merge::{add_custom_entries, merge_entries, MergeReport};
pub use helpers::{get_regex, value_or_backup};
