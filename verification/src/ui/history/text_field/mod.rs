//! The reversible commands of a text field, and the carat state they save
//! and restore.

pub mod carat_snapshot;
pub mod round_trips;
pub mod text_backspace;
pub mod text_insertion;
