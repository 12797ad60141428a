//! Lexers of the AetherScript language.

pub mod v2;
