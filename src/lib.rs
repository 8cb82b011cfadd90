//! Markdown rendering for a rich-text view: alert blocks are rewritten into
//! marker lines, the text is tokenized, and the event stream is turned into a
//! sequence of styled text runs.
pub mod text;
pub mod alert;
pub mod events;
pub mod style;
pub mod render;
pub mod recent;
pub mod editor;
