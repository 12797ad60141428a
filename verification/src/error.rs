//! Source locations and the errors reported by the lexer and the parser.

use vstd::prelude::*;

verus! {

/// A position in a source file: file name, 1-based line and column, and the
/// 0-based character offset from the start of the file.
#[derive(Debug, PartialEq, Eq)]
pub struct SourceLocation {
    pub file: String,
    pub line: usize,
    pub column: usize,
    pub offset: usize,
}

impl SourceLocation {
    /// Builds a location from its parts.
    pub fn new(file: String, line: usize, column: usize, offset: usize) -> (r: SourceLocation)
        ensures
            r.file@ == file@,
            r.line == line,
            r.column == column,
            r.offset == offset,
    {
        SourceLocation { file, line, column, offset }
    }

    /// The location used where no source position is known:
    /// file `<unknown>`, line 0, column 0, offset 0.
    pub fn unknown() -> (r: SourceLocation)
        ensures
            r.line == 0,
            r.column == 0,
            r.offset == 0,
    {
        SourceLocation { file: String::from_str("<unknown>"), line: 0, column: 0, offset: 0 }
    }

    /// A field-by-field copy of this location.
    pub fn duplicate(&self) -> (r: SourceLocation)
        ensures
            r == *self,
    {
        SourceLocation {
            file: self.file.clone(),
            line: self.line,
            column: self.column,
            offset: self.offset,
        }
    }
}

/// An error found while turning source text into tokens.
#[derive(Debug, PartialEq, Eq)]
pub enum LexerError {
    /// A character that starts no token.
    UnexpectedCharacter { character: char, location: SourceLocation },
    /// A string literal without its closing quote.
    UnterminatedString { location: SourceLocation },
    /// A character literal that is empty, unclosed or longer than one character.
    InvalidCharacterLiteral { location: SourceLocation },
    /// An integer literal that does not fit in 64 bits.
    IntegerOverflow { text: String, location: SourceLocation },
    /// A block comment without its closing `*/`.
    UnterminatedComment { location: SourceLocation },
}

/// An error found while parsing a token stream.
#[derive(Debug, PartialEq, Eq)]
pub enum ParserError {
    /// The parser wanted one thing and found another.
    UnexpectedToken { expected: String, found: String, location: SourceLocation },
    /// The input ended while something was still expected.
    UnexpectedEof { expected: String },
    /// A syntax error with a message and an optional hint on how to fix it.
    SyntaxError { message: String, location: SourceLocation, suggestion: Option<String> },
}

/// An error found while analysing or transforming a program.
#[derive(Debug, PartialEq, Eq)]
pub struct SemanticError {
    pub message: String,
    pub location: SourceLocation,
}

/// Copies an optional string.
pub fn duplicate_opt_string(s: &Option<String>) -> (r: Option<String>)
    ensures
        r == *s,
{
    match s {
        Some(v) => Some(v.clone()),
        None => None,
    }
}

impl ParserError {
    /// A variant-by-variant copy of this error.
    pub fn duplicate(&self) -> (r: ParserError)
        ensures
            r == *self,
    {
        match self {
            ParserError::UnexpectedToken { expected, found, location } => ParserError::UnexpectedToken {
                expected: expected.clone(),
                found: found.clone(),
                location: location.duplicate(),
            },
            ParserError::UnexpectedEof { expected } => ParserError::UnexpectedEof {
                expected: expected.clone(),
            },
            ParserError::SyntaxError { message, location, suggestion } => ParserError::SyntaxError {
                message: message.clone(),
                location: location.duplicate(),
                suggestion: duplicate_opt_string(suggestion),
            },
        }
    }
}

} // verus!
