//! The text model: sequences edited by splicing, and strings that carry
//! formatting per character.

pub mod attributed_string;
pub mod boundaries;
pub mod splice;
