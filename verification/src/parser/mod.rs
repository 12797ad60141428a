//! Parsers of the AetherScript language.

pub mod v2;
pub mod extended;
pub mod core_syntax;
pub mod core_items;
