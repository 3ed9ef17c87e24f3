//! Views that hold text, and the store that owns them.

pub mod cursor_edit_facts;
pub mod cursor_edits;
pub mod label;
pub mod store;
pub mod text_field;
