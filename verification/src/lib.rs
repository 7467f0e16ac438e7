//! Builds the ordered navigation index (a `SUMMARY.md` body) for a tree of
//! markdown documents: derives a (path, title) entry per document, synthesizes
//! index entries for directories that lack one, sorts all entries by their
//! path components, and renders one hyperlink list line per entry.
pub mod entry;
pub mod order;
pub mod path_math;
pub mod render;
pub mod strings;
pub mod title;
pub mod tree;
