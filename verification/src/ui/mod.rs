//! The editing surface and the commands that change it.

pub mod history;
pub mod view;
