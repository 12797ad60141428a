//! The extended V2 parser. It reads the V2 language together with generic
//! parameters and `where` clauses, traits with methods and axioms, `if`,
//! `try`/`catch`/`finally` and `throw` statements, import aliases, and
//! expressions with operator precedence (braces around a binary expression
//! are allowed but no longer needed). The annotations written before a
//! function fill in its intent and metadata.
//!
//! The parser keeps the token stream, the index of the current token and the
//! errors collected during recovery. Every parsing method keeps the stream
//! well formed (see [`Parser::wf`]), leaves the tokens as they were, never
//! moves backwards, and, on success, has consumed at least one token.

use vstd::prelude::*;
use crate::ast::Expression;
use crate::error::{ParserError, SourceLocation};
use crate::lexer::v2::{Keyword, Token, TokenType, token_stream_wf};
use super::v2::{describe_token_type, kind_matches, token_tag, token_description};

pub mod annotations;
pub mod generics;
pub mod traits;
pub mod items;
pub mod types;
pub mod statements;
pub mod expressions;

verus! {

/// The extended V2 parser.
pub struct Parser {
    tokens: Vec<Token>,
    position: usize,
    errors: Vec<ParserError>,
}

/// Parsed annotation (e.g. `@extern(library: "libc")`).
#[derive(Debug, PartialEq)]
pub struct Annotation {
    pub name: String,
    pub arguments: Vec<AnnotationArgument>,
    pub source_location: SourceLocation,
}

/// Annotation argument, labeled (`key: value`) or not.
#[derive(Debug, PartialEq)]
pub struct AnnotationArgument {
    pub label: Option<String>,
    pub value: AnnotationValue,
    pub source_location: SourceLocation,
}

/// Annotation argument values. A float keeps the text it was written
/// with; a braced expression is parsed.
#[derive(Debug, PartialEq)]
pub enum AnnotationValue {
    String(String),
    Integer(i64),
    Float(String),
    Boolean(bool),
    Identifier(String),
    Expression(Box<Expression>),
}

/// A parser over a stream that the lexer produced is ready to parse: a
/// well-formed stream at position 0 makes a well-formed parser, so every
/// parsing method may be called on it.
pub proof fn lemma_parser_over_token_stream(p: Parser, tokens: Seq<Token>)
    requires
        token_stream_wf(tokens),
        p.toks() == tokens,
        p.pos() == 0,
    ensures
        p.wf(),
        p.at_eof() <==> tokens.len() == 1,
{
}

impl Parser {
    /// The token stream.
    pub closed spec fn toks(&self) -> Seq<Token> {
        self.tokens@
    }

    /// The index of the current token.
    pub closed spec fn pos(&self) -> int {
        self.position as int
    }

    /// The errors collected so far.
    pub closed spec fn errs(&self) -> Seq<ParserError> {
        self.errors@
    }

    /// The parser is on a well-formed stream (see `token_stream_wf`) and its
    /// position is inside it.
    pub open spec fn wf(&self) -> bool {
        &&& token_stream_wf(self.toks())
        &&& 0 <= self.pos() < self.toks().len()
    }

    /// The kind of the current token.
    pub open spec fn cur(&self) -> TokenType {
        self.toks()[self.pos()].token_type
    }

    /// The kind of the token at index `i`.
    pub open spec fn kind_at(&self, i: int) -> TokenType {
        self.toks()[i].token_type
    }

    /// The current token is the end of the stream.
    pub open spec fn at_eof(&self) -> bool {
        self.cur() is Eof
    }

    /// What `check` answers for `t`.
    pub open spec fn spec_check(&self, t: TokenType) -> bool {
        !self.at_eof() && kind_matches(self.cur(), t)
    }

    /// What `check_keyword` answers for `k`.
    pub open spec fn spec_check_keyword(&self, k: Keyword) -> bool {
        self.cur() == TokenType::Keyword(k)
    }

    /// `self` is `prev` with the position moved forward or kept, the tokens
    /// and errors unchanged, and the state well formed.
    pub open spec fn moved_from(&self, prev: Parser) -> bool {
        &&& self.wf()
        &&& self.toks() == prev.toks()
        &&& self.errs() == prev.errs()
        &&& prev.pos() <= self.pos()
    }

    /// The position after `advance` from position `p`.
    pub open spec fn next_pos(&self, p: int) -> int {
        if self.kind_at(p) is Eof { p } else { p + 1 }
    }

    /// Creates an extended V2 parser over a token stream.
    pub fn new(tokens: Vec<Token>) -> (p: Parser)
        ensures
            p.toks() == tokens@,
            p.pos() == 0,
            p.errs().len() == 0,
    {
        Parser { tokens, position: 0, errors: Vec::new() }
    }

    /// The current token, without advancing.
    pub fn peek(&self) -> (t: &Token)
        requires
            self.wf(),
        ensures
            *t == self.toks()[self.pos()],
    {
        &self.tokens[self.position]
    }

    /// The token after the current one, if there is one.
    pub fn peek_next(&self) -> (t: Option<&Token>)
        requires
            self.wf(),
        ensures
            t is Some <==> self.pos() + 1 < self.toks().len(),
            t matches Some(tok) ==> *tok == self.toks()[self.pos() + 1],
    {
        let n = self.tokens.len();
        if self.position + 1 < n { self.peek_at(self.position + 1) } else { None }
    }

    /// The token at index `pos`, if there is one.
    pub fn peek_at(&self, pos: usize) -> (t: Option<&Token>)
        ensures
            t is Some <==> pos < self.toks().len(),
            t matches Some(tok) ==> *tok == self.toks()[pos as int],
    {
        if pos < self.tokens.len() {
            Some(&self.tokens[pos])
        } else {
            None
        }
    }

    /// Moves to the next token unless at the end of the stream, and returns
    /// the token before the new position.
    pub fn advance(&mut self) -> (t: &Token)
        requires
            old(self).wf(),
        ensures
            final(self).moved_from(*old(self)),
            final(self).pos() == old(self).next_pos(old(self).pos()),
            *t == final(self).toks()[if final(self).pos() == 0 { 0 } else { final(self).pos() - 1 }],
    {
        let n = self.tokens.len();
        if !self.is_at_end() {
            self.position = self.position + 1;
        }
        self.previous()
    }

    /// The token before the current one (the first token at the start).
    pub fn previous(&self) -> (t: &Token)
        requires
            self.wf(),
        ensures
            *t == self.toks()[if self.pos() == 0 { 0 } else { self.pos() - 1 }],
    {
        if self.position == 0 {
            &self.tokens[0]
        } else {
            &self.tokens[self.position - 1]
        }
    }

    /// Whether the current token is the end of the stream.
    pub fn is_at_end(&self) -> (b: bool)
        requires
            self.wf(),
        ensures
            b == self.at_eof(),
    {
        match self.peek().token_type {
            TokenType::Eof => true,
            _ => false,
        }
    }

    /// Whether a token of kind `actual` is accepted where `expected` is asked for.
    pub fn matches_token_type(&self, actual: &TokenType, expected: &TokenType) -> (b: bool)
        ensures
            b == kind_matches(*actual, *expected),
    {
        match (actual, expected) {
            (TokenType::Keyword(a), TokenType::Keyword(b)) => *a == *b,
            _ => token_tag(actual) == token_tag(expected),
        }
    }

    /// Whether the current token, not the end of the stream, matches `token_type`.
    pub fn check(&self, token_type: &TokenType) -> (b: bool)
        requires
            self.wf(),
        ensures
            b == self.spec_check(*token_type),
    {
        if self.is_at_end() {
            return false;
        }
        self.matches_token_type(&self.peek().token_type, token_type)
    }

    /// Whether the current token is the keyword `keyword`.
    pub fn check_keyword(&self, keyword: Keyword) -> (b: bool)
        requires
            self.wf(),
        ensures
            b == self.spec_check_keyword(keyword),
    {
        if self.is_at_end() {
            return false;
        }
        match &self.peek().token_type {
            TokenType::Keyword(k) => *k == keyword,
            _ => false,
        }
    }

    /// The error for an unexpected current token.
    pub fn unexpected(&self, expected: &str) -> (e: ParserError)
        requires
            self.wf(),
        ensures
            e matches ParserError::UnexpectedToken { expected: ex, found, location }
                && ex@ == expected@ && found@ == token_description(self.cur())
                && location == self.toks()[self.pos()].location,
    {
        ParserError::UnexpectedToken {
            expected: String::from_str(expected),
            found: describe_token_type(&self.peek().token_type),
            location: self.peek().location.duplicate(),
        }
    }

    /// Consumes the current token if it matches `token_type`; otherwise
    /// reports it and stays in place.
    pub fn expect(&mut self, token_type: &TokenType, message: &str) -> (r: Result<&Token, ParserError>)
        requires
            old(self).wf(),
        ensures
            final(self).moved_from(*old(self)),
            r is Ok <==> old(self).spec_check(*token_type),
            r is Ok ==> final(self).pos() == old(self).pos() + 1,
            r matches Ok(t) ==> *t == old(self).toks()[old(self).pos()],
            r is Err ==> final(self).pos() == old(self).pos(),
            r matches Err(e) ==> e matches ParserError::UnexpectedToken { expected, found, location }
                && expected@ == message@ && found@ == token_description(old(self).cur())
                && location == old(self).toks()[old(self).pos()].location,
    {
        if self.check(token_type) {
            Ok(self.advance())
        } else {
            Err(self.unexpected(message))
        }
    }

    /// Consumes the current token if it is the keyword `keyword`; otherwise
    /// reports it and stays in place.
    pub fn expect_keyword(&mut self, keyword: Keyword, message: &str) -> (r: Result<&Token, ParserError>)
        requires
            old(self).wf(),
        ensures
            final(self).moved_from(*old(self)),
            r is Ok <==> old(self).spec_check_keyword(keyword),
            r is Ok ==> final(self).pos() == old(self).pos() + 1,
            r matches Ok(t) ==> *t == old(self).toks()[old(self).pos()],
            r is Err ==> final(self).pos() == old(self).pos(),
            r matches Err(e) ==> e matches ParserError::UnexpectedToken { expected, found, location }
                && expected@ == message@ && found@ == token_description(old(self).cur())
                && location == old(self).toks()[old(self).pos()].location,
    {
        if self.check_keyword(keyword) {
            Ok(self.advance())
        } else {
            Err(self.unexpected(message))
        }
    }

    /// Consumes the current token if it matches one of `types`.
    pub fn match_any(&mut self, types: &[TokenType]) -> (b: bool)
        requires
            old(self).wf(),
        ensures
            final(self).moved_from(*old(self)),
            b == exists|i: int| 0 <= i < types@.len() && old(self).spec_check(#[trigger] types@[i]),
            final(self).pos() == if b { old(self).pos() + 1 } else { old(self).pos() },
    {
        let mut i: usize = 0;
        while i < types.len()
            invariant
                self.wf(),
                *self == *old(self),
                i <= types@.len(),
                forall|j: int| 0 <= j < i ==> !old(self).spec_check(#[trigger] types@[j]),
            decreases types@.len() - i,
        {
            if self.check(&types[i]) {
                self.advance();
                return true;
            }
            i = i + 1;
        }
        false
    }

    /// The errors collected so far.
    pub fn errors(&self) -> (e: &[ParserError])
        ensures
            e@ == self.errs(),
    {
        self.errors.as_slice()
    }

    /// Records an error.
    pub fn add_error(&mut self, error: ParserError)
        ensures
            final(self).toks() == old(self).toks(),
            final(self).pos() == old(self).pos(),
            final(self).errs() == old(self).errs().push(error),
    {
        self.errors.push(error);
    }

    /// Whether any error has been recorded.
    pub fn has_errors(&self) -> (b: bool)
        ensures
            b == (self.errs().len() > 0),
    {
        self.errors.len() > 0
    }

    /// Hands out the recorded errors and leaves the list empty.
    pub fn take_errors(&mut self) -> (e: Vec<ParserError>)
        ensures
            e@ == old(self).errs(),
            final(self).errs().len() == 0,
            final(self).toks() == old(self).toks(),
            final(self).pos() == old(self).pos(),
    {
        let mut taken: Vec<ParserError> = Vec::new();
        std::mem::swap(&mut taken, &mut self.errors);
        taken
    }

    /// The index of the current token.
    pub fn current_position(&self) -> (p: usize)
        ensures
            p as int == self.pos(),
    {
        self.position
    }

    /// The location of the current token.
    pub fn current_location(&self) -> (l: SourceLocation)
        requires
            self.wf(),
        ensures
            l == self.toks()[self.pos()].location,
    {
        self.peek().location.duplicate()
    }

    /// The number of tokens in the stream.
    pub fn token_count(&self) -> (n: usize)
        ensures
            n == self.toks().len(),
    {
        self.tokens.len()
    }

    /// The kind of the token at index `i`.
    pub fn token_kind(&self, i: usize) -> (t: &TokenType)
        requires
            i < self.toks().len(),
        ensures
            *t == self.kind_at(i as int),
    {
        &self.tokens[i].token_type
    }

    /// Goes back to an earlier position of the same stream.
    pub fn restore_position(&mut self, saved: usize)
        requires
            old(self).wf(),
            saved < old(self).toks().len(),
        ensures
            final(self).wf(),
            final(self).toks() == old(self).toks(),
            final(self).errs() == old(self).errs(),
            final(self).pos() == saved,
    {
        self.position = saved;
    }
}

} // verus!
