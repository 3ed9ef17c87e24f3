//! Reversible commands, by the kind of view they act on.

pub mod text_field;
