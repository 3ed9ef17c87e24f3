//! Rich text and reversible editing at several carats.
//!
//! [`text`] holds the text model: an attributed string gives every character
//! a table of formatting attributes and falls back to a table of defaults,
//! and windows onto ranges of it read and write through to it. [`ui`] holds
//! the editing surface, a text field with its carats, the store that owns
//! the fields, and the two commands that change a field and can take the
//! change back: typing and backspace. [`platform`] holds what every such
//! command offers. [`graphics`] holds the plain values the others share.
//!
//! Every type stands for a mathematical value, its view, and every function
//! says in its contract what it does to that value. What doing and undoing
//! a command add up to is proved in
//! [`ui::history::text_field::round_trips`].

pub mod graphics;
pub mod platform;
pub mod text;
pub mod ui;
