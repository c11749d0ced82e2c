//! Verified core of a side-by-side git diff review tool: the diff model, patch synthesis for
//! staging whole hunks and line selections, literal search over diff rows, diff summaries,
//! review-source classification, the base16 theme primitive and its palettes, the parsing and
//! decisions of the terminal color probe, and the renderer: the rows, headers and layout of the
//! outline and diff panes.
pub mod bytes;
pub mod model;
pub mod error;
pub mod synthesis;
pub mod staging;
pub mod text;
pub mod align;
pub mod search;
pub mod summary;
pub mod source;
pub mod stage_op;
pub mod theme;
pub mod highlight;
pub mod terminal_query;
pub mod render;
pub mod scope;
pub mod styled;
pub mod panel;
pub mod diff_line;
pub mod header;
pub mod layout;
pub mod body;
