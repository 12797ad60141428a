//! A verified front end for AetherScript V2: lexer, parser and MIR passes.

pub mod error;
pub mod text;

pub mod lexer;
pub mod ast;
pub mod parser;
pub mod mir;
pub mod optimizations;
