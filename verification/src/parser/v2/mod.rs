//! The V2 parser: a recursive-descent parser from the V2 token stream to the
//! abstract syntax tree.
//!
//! The parser keeps the token stream, the index of the current token and the
//! errors collected during recovery. Every parsing method keeps the stream
//! well formed (see [`Parser::wf`]), leaves the tokens as they were, never
//! moves backwards, and, on success, has consumed at least one token.

use vstd::prelude::*;
use crate::error::{ParserError, SourceLocation};
use crate::lexer::v2::{Keyword, Token, TokenType, token_stream_wf};
use crate::text::{string_of, signed_decimal, spec_signed_decimal};

pub mod items;
pub mod types;
pub mod statements;
pub mod expressions;

verus! {

/// The variant of a token kind, as a number: two kinds have the same tag
/// exactly when they are the same variant, whatever their payloads.
pub open spec fn spec_tag(t: TokenType) -> int {
    match t {
        TokenType::IntegerLiteral(..) => 0,
        TokenType::FloatLiteral(..) => 1,
        TokenType::StringLiteral(..) => 2,
        TokenType::CharLiteral(..) => 3,
        TokenType::BoolLiteral(..) => 4,
        TokenType::Identifier(..) => 5,
        TokenType::Keyword(..) => 6,
        TokenType::Plus => 7,
        TokenType::Minus => 8,
        TokenType::Star => 9,
        TokenType::Slash => 10,
        TokenType::Percent => 11,
        TokenType::Equal => 12,
        TokenType::EqualEqual => 13,
        TokenType::Bang => 14,
        TokenType::BangEqual => 15,
        TokenType::Less => 16,
        TokenType::LessEqual => 17,
        TokenType::Greater => 18,
        TokenType::GreaterEqual => 19,
        TokenType::AmpAmp => 20,
        TokenType::PipePipe => 21,
        TokenType::Ampersand => 22,
        TokenType::Pipe => 23,
        TokenType::Caret => 24,
        TokenType::Tilde => 25,
        TokenType::At => 26,
        TokenType::Dot => 27,
        TokenType::DotDot => 28,
        TokenType::DotDotEqual => 29,
        TokenType::Comma => 30,
        TokenType::Semicolon => 31,
        TokenType::Colon => 32,
        TokenType::DoubleColon => 33,
        TokenType::LeftParen => 34,
        TokenType::RightParen => 35,
        TokenType::LeftBrace => 36,
        TokenType::RightBrace => 37,
        TokenType::LeftBracket => 38,
        TokenType::RightBracket => 39,
        TokenType::Arrow => 40,
        TokenType::FatArrow => 41,
        TokenType::Underscore => 42,
        TokenType::Eof => 43,
    }
}

/// The tag of a token kind; see [`spec_tag`].
pub fn token_tag(t: &TokenType) -> (r: u8)
    ensures
        r as int == spec_tag(*t),
{
    match t {
        TokenType::IntegerLiteral(..) => 0,
        TokenType::FloatLiteral(..) => 1,
        TokenType::StringLiteral(..) => 2,
        TokenType::CharLiteral(..) => 3,
        TokenType::BoolLiteral(..) => 4,
        TokenType::Identifier(..) => 5,
        TokenType::Keyword(..) => 6,
        TokenType::Plus => 7,
        TokenType::Minus => 8,
        TokenType::Star => 9,
        TokenType::Slash => 10,
        TokenType::Percent => 11,
        TokenType::Equal => 12,
        TokenType::EqualEqual => 13,
        TokenType::Bang => 14,
        TokenType::BangEqual => 15,
        TokenType::Less => 16,
        TokenType::LessEqual => 17,
        TokenType::Greater => 18,
        TokenType::GreaterEqual => 19,
        TokenType::AmpAmp => 20,
        TokenType::PipePipe => 21,
        TokenType::Ampersand => 22,
        TokenType::Pipe => 23,
        TokenType::Caret => 24,
        TokenType::Tilde => 25,
        TokenType::At => 26,
        TokenType::Dot => 27,
        TokenType::DotDot => 28,
        TokenType::DotDotEqual => 29,
        TokenType::Comma => 30,
        TokenType::Semicolon => 31,
        TokenType::Colon => 32,
        TokenType::DoubleColon => 33,
        TokenType::LeftParen => 34,
        TokenType::RightParen => 35,
        TokenType::LeftBrace => 36,
        TokenType::RightBrace => 37,
        TokenType::LeftBracket => 38,
        TokenType::RightBracket => 39,
        TokenType::Arrow => 40,
        TokenType::FatArrow => 41,
        TokenType::Underscore => 42,
        TokenType::Eof => 43,
    }
}

/// The name of a keyword's variant.
pub open spec fn keyword_text(k: Keyword) -> Seq<char> {
    match k {
        Keyword::Module => "Module"@,
        Keyword::Import => "Import"@,
        Keyword::Func => "Func"@,
        Keyword::Let => "Let"@,
        Keyword::Var => "Var"@,
        Keyword::Mut => "Mut"@,
        Keyword::Const => "Const"@,
        Keyword::Struct => "Struct"@,
        Keyword::Enum => "Enum"@,
        Keyword::Case => "Case"@,
        Keyword::Return => "Return"@,
        Keyword::When => "When"@,
        Keyword::Else => "Else"@,
        Keyword::If => "If"@,
        Keyword::While => "While"@,
        Keyword::For => "For"@,
        Keyword::In => "In"@,
        Keyword::Match => "Match"@,
        Keyword::Break => "Break"@,
        Keyword::Continue => "Continue"@,
        Keyword::Concurrent => "Concurrent"@,
        Keyword::Pub => "Pub"@,
        Keyword::Range => "Range"@,
        Keyword::Int => "Int"@,
        Keyword::Int32 => "Int32"@,
        Keyword::Int64 => "Int64"@,
        Keyword::Float => "Float"@,
        Keyword::Float32 => "Float32"@,
        Keyword::Float64 => "Float64"@,
        Keyword::String_ => "String_"@,
        Keyword::Char => "Char"@,
        Keyword::Bool => "Bool"@,
        Keyword::Void => "Void"@,
        Keyword::SizeT => "SizeT"@,
        Keyword::Array => "Array"@,
        Keyword::Map_ => "Map_"@,
        Keyword::Pointer => "Pointer"@,
        Keyword::MutPointer => "MutPointer"@,
        Keyword::Trait => "Trait"@,
        Keyword::Where => "Where"@,
        Keyword::Try => "Try"@,
        Keyword::Catch => "Catch"@,
        Keyword::Finally => "Finally"@,
        Keyword::Throw => "Throw"@,
        Keyword::As => "As"@,
        Keyword::ForAll => "ForAll"@,
        Keyword::Exists => "Exists"@,
    }
}

/// The name of a keyword's variant.
pub fn keyword_name(k: Keyword) -> (s: String)
    ensures
        s@ == keyword_text(k),
{
    match k {
        Keyword::Module => String::from_str("Module"),
        Keyword::Import => String::from_str("Import"),
        Keyword::Func => String::from_str("Func"),
        Keyword::Let => String::from_str("Let"),
        Keyword::Var => String::from_str("Var"),
        Keyword::Mut => String::from_str("Mut"),
        Keyword::Const => String::from_str("Const"),
        Keyword::Struct => String::from_str("Struct"),
        Keyword::Enum => String::from_str("Enum"),
        Keyword::Case => String::from_str("Case"),
        Keyword::Return => String::from_str("Return"),
        Keyword::When => String::from_str("When"),
        Keyword::Else => String::from_str("Else"),
        Keyword::If => String::from_str("If"),
        Keyword::While => String::from_str("While"),
        Keyword::For => String::from_str("For"),
        Keyword::In => String::from_str("In"),
        Keyword::Match => String::from_str("Match"),
        Keyword::Break => String::from_str("Break"),
        Keyword::Continue => String::from_str("Continue"),
        Keyword::Concurrent => String::from_str("Concurrent"),
        Keyword::Pub => String::from_str("Pub"),
        Keyword::Range => String::from_str("Range"),
        Keyword::Int => String::from_str("Int"),
        Keyword::Int32 => String::from_str("Int32"),
        Keyword::Int64 => String::from_str("Int64"),
        Keyword::Float => String::from_str("Float"),
        Keyword::Float32 => String::from_str("Float32"),
        Keyword::Float64 => String::from_str("Float64"),
        Keyword::String_ => String::from_str("String_"),
        Keyword::Char => String::from_str("Char"),
        Keyword::Bool => String::from_str("Bool"),
        Keyword::Void => String::from_str("Void"),
        Keyword::SizeT => String::from_str("SizeT"),
        Keyword::Array => String::from_str("Array"),
        Keyword::Map_ => String::from_str("Map_"),
        Keyword::Pointer => String::from_str("Pointer"),
        Keyword::MutPointer => String::from_str("MutPointer"),
        Keyword::Trait => String::from_str("Trait"),
        Keyword::Where => String::from_str("Where"),
        Keyword::Try => String::from_str("Try"),
        Keyword::Catch => String::from_str("Catch"),
        Keyword::Finally => String::from_str("Finally"),
        Keyword::Throw => String::from_str("Throw"),
        Keyword::As => String::from_str("As"),
        Keyword::ForAll => String::from_str("ForAll"),
        Keyword::Exists => String::from_str("Exists"),
    }
}

/// `s` with backslashes, the quote character, newlines, carriage returns,
/// tabs and NUL characters escaped as in Rust's debug output.
pub open spec fn escaped(s: Seq<char>, quote: char) -> Seq<char>
    decreases s.len(),
{
    if s.len() == 0 {
        seq![]
    } else {
        escaped(s.drop_last(), quote) + escape_char(s.last(), quote)
    }
}

/// One character escaped as in Rust's debug output inside `quote`s.
pub open spec fn escape_char(c: char, quote: char) -> Seq<char> {
    if c == '\\' {
        seq!['\\', '\\']
    } else if c == quote {
        seq!['\\', quote]
    } else if c == '\n' {
        seq!['\\', 'n']
    } else if c == '\r' {
        seq!['\\', 'r']
    } else if c == '\t' {
        seq!['\\', 't']
    } else if c == '\0' {
        seq!['\\', '0']
    } else {
        seq![c]
    }
}

/// The description of a token kind: its variant's name, followed by its
/// payload in parentheses where it has one (text quoted and escaped).
pub open spec fn token_description(t: TokenType) -> Seq<char> {
    match t {
        TokenType::IntegerLiteral(n) => "IntegerLiteral("@ + spec_signed_decimal(n as int) + ")"@,
        TokenType::FloatLiteral(text) => "FloatLiteral("@ + text@ + ")"@,
        TokenType::StringLiteral(text) => "StringLiteral(\""@ + escaped(text@, '"') + "\")"@,
        TokenType::CharLiteral(c) => "CharLiteral('"@ + escape_char(c, '\'') + "')"@,
        TokenType::BoolLiteral(b) => if b { "BoolLiteral(true)"@ } else { "BoolLiteral(false)"@ },
        TokenType::Identifier(name) => "Identifier(\""@ + escaped(name@, '"') + "\")"@,
        TokenType::Keyword(k) => "Keyword("@ + keyword_text(k) + ")"@,
        TokenType::Plus => "Plus"@,
        TokenType::Minus => "Minus"@,
        TokenType::Star => "Star"@,
        TokenType::Slash => "Slash"@,
        TokenType::Percent => "Percent"@,
        TokenType::Equal => "Equal"@,
        TokenType::EqualEqual => "EqualEqual"@,
        TokenType::Bang => "Bang"@,
        TokenType::BangEqual => "BangEqual"@,
        TokenType::Less => "Less"@,
        TokenType::LessEqual => "LessEqual"@,
        TokenType::Greater => "Greater"@,
        TokenType::GreaterEqual => "GreaterEqual"@,
        TokenType::AmpAmp => "AmpAmp"@,
        TokenType::PipePipe => "PipePipe"@,
        TokenType::Ampersand => "Ampersand"@,
        TokenType::Pipe => "Pipe"@,
        TokenType::Caret => "Caret"@,
        TokenType::Tilde => "Tilde"@,
        TokenType::At => "At"@,
        TokenType::Dot => "Dot"@,
        TokenType::DotDot => "DotDot"@,
        TokenType::DotDotEqual => "DotDotEqual"@,
        TokenType::Comma => "Comma"@,
        TokenType::Semicolon => "Semicolon"@,
        TokenType::Colon => "Colon"@,
        TokenType::DoubleColon => "DoubleColon"@,
        TokenType::LeftParen => "LeftParen"@,
        TokenType::RightParen => "RightParen"@,
        TokenType::LeftBrace => "LeftBrace"@,
        TokenType::RightBrace => "RightBrace"@,
        TokenType::LeftBracket => "LeftBracket"@,
        TokenType::RightBracket => "RightBracket"@,
        TokenType::Arrow => "Arrow"@,
        TokenType::FatArrow => "FatArrow"@,
        TokenType::Underscore => "Underscore"@,
        TokenType::Eof => "Eof"@,
    }
}

/// Appends `s` escaped inside `quote`s to `out`.
fn push_escaped(out: &mut Vec<char>, s: &Vec<char>, quote: char)
    ensures
        final(out)@ == old(out)@ + escaped(s@, quote),
{
    let mut i: usize = 0;
    assert(s@.subrange(0, 0) =~= Seq::<char>::empty());
    assert(old(out)@ + escaped(Seq::<char>::empty(), quote) =~= old(out)@);
    while i < s.len()
        invariant
            i <= s@.len(),
            out@ == old(out)@ + escaped(s@.subrange(0, i as int), quote),
        decreases s@.len() - i,
    {
        let c = s[i];
        let ghost before = out@;
        if c == '\\' {
            out.push('\\');
            out.push('\\');
        } else if c == quote {
            out.push('\\');
            out.push(quote);
        } else if c == '\n' {
            out.push('\\');
            out.push('n');
        } else if c == '\r' {
            out.push('\\');
            out.push('r');
        } else if c == '\t' {
            out.push('\\');
            out.push('t');
        } else if c == '\0' {
            out.push('\\');
            out.push('0');
        } else {
            out.push(c);
        }
        assert(s@.subrange(0, i as int + 1).drop_last() =~= s@.subrange(0, i as int));
        assert(out@ =~= before + escape_char(c, quote));
        i = i + 1;
    }
    assert(s@.subrange(0, i as int) =~= s@);
}

/// The text `s` quoted by `quote` and escaped.
fn escaped_string(s: &str, quote: char) -> (r: String)
    ensures
        r@ == escaped(s@, quote),
{
    let chars = crate::parser::v2::items::lexeme_chars(s);
    let mut out: Vec<char> = Vec::new();
    push_escaped(&mut out, &chars, quote);
    assert(out@ =~= escaped(s@, quote));
    string_of(&out)
}

/// A description of a token kind, written as the kind's variant name
/// followed by its payload in parentheses where it has one.
pub fn describe_token_type(t: &TokenType) -> (s: String)
    ensures
        s@ == token_description(*t),
{
    match t {
        TokenType::IntegerLiteral(n) => {
            let mut s = String::from_str("IntegerLiteral(");
            let d = signed_decimal(*n);
            s.append(d.as_str());
            s.append(")");
            s
        },
        TokenType::FloatLiteral(text) => {
            let mut s = String::from_str("FloatLiteral(");
            s.append(text.as_str());
            s.append(")");
            s
        },
        TokenType::StringLiteral(text) => {
            let mut s = String::from_str("StringLiteral(\"");
            let e = escaped_string(text.as_str(), '"');
            s.append(e.as_str());
            s.append("\")");
            s
        },
        TokenType::CharLiteral(c) => {
            let mut s = String::from_str("CharLiteral('");
            let mut v: Vec<char> = Vec::new();
            let mut one: Vec<char> = Vec::new();
            one.push(*c);
            push_escaped(&mut v, &one, '\'');
            proof {
                assert(one@.drop_last() =~= Seq::<char>::empty());
                assert(one@.last() == *c);
                assert(escaped(one@, '\'') == escaped(Seq::<char>::empty(), '\'') + escape_char(*c, '\''));
                assert(escaped(Seq::<char>::empty(), '\'') + escape_char(*c, '\'') =~= escape_char(*c, '\''));
                assert(v@ =~= escape_char(*c, '\''));
            }
            let cs = string_of(&v);
            s.append(cs.as_str());
            s.append("')");
            s
        },
        TokenType::BoolLiteral(b) => {
            if *b { String::from_str("BoolLiteral(true)") } else { String::from_str("BoolLiteral(false)") }
        },
        TokenType::Identifier(name) => {
            let mut s = String::from_str("Identifier(\"");
            let e = escaped_string(name.as_str(), '"');
            s.append(e.as_str());
            s.append("\")");
            s
        },
        TokenType::Keyword(k) => {
            let mut s = String::from_str("Keyword(");
            let n = keyword_name(*k);
            s.append(n.as_str());
            s.append(")");
            s
        },
        TokenType::Plus => String::from_str("Plus"),
        TokenType::Minus => String::from_str("Minus"),
        TokenType::Star => String::from_str("Star"),
        TokenType::Slash => String::from_str("Slash"),
        TokenType::Percent => String::from_str("Percent"),
        TokenType::Equal => String::from_str("Equal"),
        TokenType::EqualEqual => String::from_str("EqualEqual"),
        TokenType::Bang => String::from_str("Bang"),
        TokenType::BangEqual => String::from_str("BangEqual"),
        TokenType::Less => String::from_str("Less"),
        TokenType::LessEqual => String::from_str("LessEqual"),
        TokenType::Greater => String::from_str("Greater"),
        TokenType::GreaterEqual => String::from_str("GreaterEqual"),
        TokenType::AmpAmp => String::from_str("AmpAmp"),
        TokenType::PipePipe => String::from_str("PipePipe"),
        TokenType::Ampersand => String::from_str("Ampersand"),
        TokenType::Pipe => String::from_str("Pipe"),
        TokenType::Caret => String::from_str("Caret"),
        TokenType::Tilde => String::from_str("Tilde"),
        TokenType::At => String::from_str("At"),
        TokenType::Dot => String::from_str("Dot"),
        TokenType::DotDot => String::from_str("DotDot"),
        TokenType::DotDotEqual => String::from_str("DotDotEqual"),
        TokenType::Comma => String::from_str("Comma"),
        TokenType::Semicolon => String::from_str("Semicolon"),
        TokenType::Colon => String::from_str("Colon"),
        TokenType::DoubleColon => String::from_str("DoubleColon"),
        TokenType::LeftParen => String::from_str("LeftParen"),
        TokenType::RightParen => String::from_str("RightParen"),
        TokenType::LeftBrace => String::from_str("LeftBrace"),
        TokenType::RightBrace => String::from_str("RightBrace"),
        TokenType::LeftBracket => String::from_str("LeftBracket"),
        TokenType::RightBracket => String::from_str("RightBracket"),
        TokenType::Arrow => String::from_str("Arrow"),
        TokenType::FatArrow => String::from_str("FatArrow"),
        TokenType::Underscore => String::from_str("Underscore"),
        TokenType::Eof => String::from_str("Eof"),
    }
}

/// Whether a token of kind `actual` is accepted where `expected` is asked
/// for: keywords must be the same keyword, other kinds the same variant
/// whatever their payload.
pub open spec fn kind_matches(actual: TokenType, expected: TokenType) -> bool {
    &&& spec_tag(actual) == spec_tag(expected)
    &&& (actual is Keyword ==> actual->Keyword_0 == expected->Keyword_0)
}

/// The V2 parser.
pub struct Parser {
    tokens: Vec<Token>,
    position: usize,
    errors: Vec<ParserError>,
}

/// Parsed annotation (e.g. `@extern(library: "libc")`).
#[derive(Debug, PartialEq)]
pub struct Annotation {
    pub name: String,
    pub arguments: Vec<AnnotationArgument>,
    pub source_location: SourceLocation,
}

/// Annotation argument, labeled (`key: value`) or not.
#[derive(Debug, PartialEq)]
pub struct AnnotationArgument {
    pub label: Option<String>,
    pub value: AnnotationValue,
    pub source_location: SourceLocation,
}

/// Annotation argument values. A braced expression is kept as the text of
/// its tokens.
#[derive(Debug, PartialEq)]
pub enum AnnotationValue {
    String(String),
    Integer(i64),
    Boolean(bool),
    Identifier(String),
    Expression(String, SourceLocation),
}

/// A parser over a stream that the lexer produced is ready to parse: a
/// well-formed stream at position 0 makes a well-formed parser, so every
/// parsing method may be called on it.
pub proof fn lemma_parser_over_token_stream(p: Parser, tokens: Seq<Token>)
    requires
        token_stream_wf(tokens),
        p.toks() == tokens,
        p.pos() == 0,
    ensures
        p.wf(),
        p.at_eof() <==> tokens.len() == 1,
{
}

impl Parser {
    /// The token stream.
    pub closed spec fn toks(&self) -> Seq<Token> {
        self.tokens@
    }

    /// The index of the current token.
    pub closed spec fn pos(&self) -> int {
        self.position as int
    }

    /// The errors collected so far.
    pub closed spec fn errs(&self) -> Seq<ParserError> {
        self.errors@
    }

    /// The parser is on a well-formed stream (see `token_stream_wf`) and its
    /// position is inside it.
    pub open spec fn wf(&self) -> bool {
        &&& token_stream_wf(self.toks())
        &&& 0 <= self.pos() < self.toks().len()
    }

    /// The kind of the current token.
    pub open spec fn cur(&self) -> TokenType {
        self.toks()[self.pos()].token_type
    }

    /// The kind of the token at index `i`.
    pub open spec fn kind_at(&self, i: int) -> TokenType {
        self.toks()[i].token_type
    }

    /// The current token is the end of the stream.
    pub open spec fn at_eof(&self) -> bool {
        self.cur() is Eof
    }

    /// What `check` answers for `t`.
    pub open spec fn spec_check(&self, t: TokenType) -> bool {
        !self.at_eof() && kind_matches(self.cur(), t)
    }

    /// What `check_keyword` answers for `k`.
    pub open spec fn spec_check_keyword(&self, k: Keyword) -> bool {
        self.cur() == TokenType::Keyword(k)
    }

    /// `self` is `prev` with the position moved forward or kept, the tokens
    /// and errors unchanged, and the state well formed.
    pub open spec fn moved_from(&self, prev: Parser) -> bool {
        &&& self.wf()
        &&& self.toks() == prev.toks()
        &&& self.errs() == prev.errs()
        &&& prev.pos() <= self.pos()
    }

    /// The position after `advance` from position `p`.
    pub open spec fn next_pos(&self, p: int) -> int {
        if self.kind_at(p) is Eof { p } else { p + 1 }
    }

    /// Creates a V2 parser over a token stream.
    pub fn new(tokens: Vec<Token>) -> (p: Parser)
        ensures
            p.toks() == tokens@,
            p.pos() == 0,
            p.errs().len() == 0,
    {
        Parser { tokens, position: 0, errors: Vec::new() }
    }

    /// The current token, without advancing.
    pub fn peek(&self) -> (t: &Token)
        requires
            self.wf(),
        ensures
            *t == self.toks()[self.pos()],
    {
        &self.tokens[self.position]
    }

    /// The token after the current one, if there is one.
    pub fn peek_next(&self) -> (t: Option<&Token>)
        requires
            self.wf(),
        ensures
            t is Some <==> self.pos() + 1 < self.toks().len(),
            t matches Some(tok) ==> *tok == self.toks()[self.pos() + 1],
    {
        let n = self.tokens.len();
        if self.position + 1 < n { self.peek_at(self.position + 1) } else { None }
    }

    /// The token at index `pos`, if there is one.
    pub fn peek_at(&self, pos: usize) -> (t: Option<&Token>)
        ensures
            t is Some <==> pos < self.toks().len(),
            t matches Some(tok) ==> *tok == self.toks()[pos as int],
    {
        if pos < self.tokens.len() {
            Some(&self.tokens[pos])
        } else {
            None
        }
    }

    /// Moves to the next token unless at the end of the stream, and returns
    /// the token before the new position.
    pub fn advance(&mut self) -> (t: &Token)
        requires
            old(self).wf(),
        ensures
            final(self).moved_from(*old(self)),
            final(self).pos() == old(self).next_pos(old(self).pos()),
            *t == final(self).toks()[if final(self).pos() == 0 { 0 } else { final(self).pos() - 1 }],
    {
        let n = self.tokens.len();
        if !self.is_at_end() {
            self.position = self.position + 1;
        }
        self.previous()
    }

    /// The token before the current one (the first token at the start).
    pub fn previous(&self) -> (t: &Token)
        requires
            self.wf(),
        ensures
            *t == self.toks()[if self.pos() == 0 { 0 } else { self.pos() - 1 }],
    {
        if self.position == 0 {
            &self.tokens[0]
        } else {
            &self.tokens[self.position - 1]
        }
    }

    /// Whether the current token is the end of the stream.
    pub fn is_at_end(&self) -> (b: bool)
        requires
            self.wf(),
        ensures
            b == self.at_eof(),
    {
        match self.peek().token_type {
            TokenType::Eof => true,
            _ => false,
        }
    }

    /// Whether a token of kind `actual` is accepted where `expected` is asked for.
    pub fn matches_token_type(&self, actual: &TokenType, expected: &TokenType) -> (b: bool)
        ensures
            b == kind_matches(*actual, *expected),
    {
        match (actual, expected) {
            (TokenType::Keyword(a), TokenType::Keyword(b)) => *a == *b,
            _ => token_tag(actual) == token_tag(expected),
        }
    }

    /// Whether the current token, not the end of the stream, matches `token_type`.
    pub fn check(&self, token_type: &TokenType) -> (b: bool)
        requires
            self.wf(),
        ensures
            b == self.spec_check(*token_type),
    {
        if self.is_at_end() {
            return false;
        }
        self.matches_token_type(&self.peek().token_type, token_type)
    }

    /// Whether the current token is the keyword `keyword`.
    pub fn check_keyword(&self, keyword: Keyword) -> (b: bool)
        requires
            self.wf(),
        ensures
            b == self.spec_check_keyword(keyword),
    {
        if self.is_at_end() {
            return false;
        }
        match &self.peek().token_type {
            TokenType::Keyword(k) => *k == keyword,
            _ => false,
        }
    }

    /// The error for an unexpected current token.
    pub fn unexpected(&self, expected: &str) -> (e: ParserError)
        requires
            self.wf(),
        ensures
            e matches ParserError::UnexpectedToken { expected: ex, found, location }
                && ex@ == expected@ && found@ == token_description(self.cur())
                && location == self.toks()[self.pos()].location,
    {
        ParserError::UnexpectedToken {
            expected: String::from_str(expected),
            found: describe_token_type(&self.peek().token_type),
            location: self.peek().location.duplicate(),
        }
    }

    /// Consumes the current token if it matches `token_type`; otherwise
    /// reports it and stays in place.
    pub fn expect(&mut self, token_type: &TokenType, message: &str) -> (r: Result<&Token, ParserError>)
        requires
            old(self).wf(),
        ensures
            final(self).moved_from(*old(self)),
            r is Ok <==> old(self).spec_check(*token_type),
            r is Ok ==> final(self).pos() == old(self).pos() + 1,
            r matches Ok(t) ==> *t == old(self).toks()[old(self).pos()],
            r is Err ==> final(self).pos() == old(self).pos(),
            r matches Err(e) ==> e matches ParserError::UnexpectedToken { expected, found, location }
                && expected@ == message@ && found@ == token_description(old(self).cur())
                && location == old(self).toks()[old(self).pos()].location,
    {
        if self.check(token_type) {
            Ok(self.advance())
        } else {
            Err(self.unexpected(message))
        }
    }

    /// Consumes the current token if it is the keyword `keyword`; otherwise
    /// reports it and stays in place.
    pub fn expect_keyword(&mut self, keyword: Keyword, message: &str) -> (r: Result<&Token, ParserError>)
        requires
            old(self).wf(),
        ensures
            final(self).moved_from(*old(self)),
            r is Ok <==> old(self).spec_check_keyword(keyword),
            r is Ok ==> final(self).pos() == old(self).pos() + 1,
            r matches Ok(t) ==> *t == old(self).toks()[old(self).pos()],
            r is Err ==> final(self).pos() == old(self).pos(),
            r matches Err(e) ==> e matches ParserError::UnexpectedToken { expected, found, location }
                && expected@ == message@ && found@ == token_description(old(self).cur())
                && location == old(self).toks()[old(self).pos()].location,
    {
        if self.check_keyword(keyword) {
            Ok(self.advance())
        } else {
            Err(self.unexpected(message))
        }
    }

    /// Consumes the current token if it matches one of `types`.
    pub fn match_any(&mut self, types: &[TokenType]) -> (b: bool)
        requires
            old(self).wf(),
        ensures
            final(self).moved_from(*old(self)),
            b == exists|i: int| 0 <= i < types@.len() && old(self).spec_check(#[trigger] types@[i]),
            final(self).pos() == if b { old(self).pos() + 1 } else { old(self).pos() },
    {
        let mut i: usize = 0;
        while i < types.len()
            invariant
                self.wf(),
                *self == *old(self),
                i <= types@.len(),
                forall|j: int| 0 <= j < i ==> !old(self).spec_check(#[trigger] types@[j]),
            decreases types@.len() - i,
        {
            if self.check(&types[i]) {
                self.advance();
                return true;
            }
            i = i + 1;
        }
        false
    }

    /// The errors collected so far.
    pub fn errors(&self) -> (e: &[ParserError])
        ensures
            e@ == self.errs(),
    {
        self.errors.as_slice()
    }

    /// Records an error.
    pub fn add_error(&mut self, error: ParserError)
        ensures
            final(self).toks() == old(self).toks(),
            final(self).pos() == old(self).pos(),
            final(self).errs() == old(self).errs().push(error),
    {
        self.errors.push(error);
    }

    /// Whether any error has been recorded.
    pub fn has_errors(&self) -> (b: bool)
        ensures
            b == (self.errs().len() > 0),
    {
        self.errors.len() > 0
    }

    /// Hands out the recorded errors and leaves the list empty.
    pub fn take_errors(&mut self) -> (e: Vec<ParserError>)
        ensures
            e@ == old(self).errs(),
            final(self).errs().len() == 0,
            final(self).toks() == old(self).toks(),
            final(self).pos() == old(self).pos(),
    {
        let mut taken: Vec<ParserError> = Vec::new();
        std::mem::swap(&mut taken, &mut self.errors);
        taken
    }

    /// The index of the current token.
    pub fn current_position(&self) -> (p: usize)
        ensures
            p as int == self.pos(),
    {
        self.position
    }

    /// The location of the current token.
    pub fn current_location(&self) -> (l: SourceLocation)
        requires
            self.wf(),
        ensures
            l == self.toks()[self.pos()].location,
    {
        self.peek().location.duplicate()
    }

    /// The number of tokens in the stream.
    pub fn token_count(&self) -> (n: usize)
        ensures
            n == self.toks().len(),
    {
        self.tokens.len()
    }

    /// The kind of the token at index `i`.
    pub fn token_kind(&self, i: usize) -> (t: &TokenType)
        requires
            i < self.toks().len(),
        ensures
            *t == self.kind_at(i as int),
    {
        &self.tokens[i].token_type
    }

    /// Goes back to an earlier position of the same stream.
    pub fn restore_position(&mut self, saved: usize)
        requires
            old(self).wf(),
            saved < old(self).toks().len(),
        ensures
            final(self).wf(),
            final(self).toks() == old(self).toks(),
            final(self).errs() == old(self).errs(),
            final(self).pos() == saved,
    {
        self.position = saved;
    }
}

} // verus!
