//! What the commands of every view have in common.

pub mod history;
