//! The V2 lexer: turns AetherScript source text into a stream of tokens that
//! always ends with exactly one `Eof` token.

use vstd::prelude::*;
use vstd::std_specs::iter::IteratorSpec;
use crate::error::{LexerError, SourceLocation};
use crate::text::string_of;

verus! {

/// The reserved words of the V2 syntax.
#[derive(Debug, Clone, Copy, PartialEq, Eq, Structural)]
pub enum Keyword {
    Module, Import, Func, Let, Var, Mut, Const, Struct, Enum, Case, Return, When, Else, If,
    While, For, In, Match, Break, Continue, Concurrent, Pub, Range, Int, Int32, Int64, Float,
    Float32, Float64, String_, Char, Bool, Void, SizeT, Array, Map_, Pointer, MutPointer, Trait,
    Where, Try, Catch, Finally, Throw, As, ForAll, Exists,
}

/// The kind of a token, with its value where it carries one. A float literal
/// keeps its source text.
#[derive(Debug, PartialEq)]
pub enum TokenType {
    IntegerLiteral(i64),
    FloatLiteral(String),
    StringLiteral(String),
    CharLiteral(char),
    BoolLiteral(bool),
    Identifier(String),
    Keyword(Keyword),
    Plus, Minus, Star, Slash, Percent,
    Equal, EqualEqual, Bang, BangEqual,
    Less, LessEqual, Greater, GreaterEqual,
    AmpAmp, PipePipe, Ampersand, Pipe, Caret, Tilde, At,
    Dot, DotDot, DotDotEqual, Comma, Semicolon, Colon, DoubleColon,
    LeftParen, RightParen, LeftBrace, RightBrace, LeftBracket, RightBracket,
    Arrow, FatArrow, Underscore,
    Eof,
}

/// A token: its kind, the source text it was read from, and where it starts.
#[derive(Debug, PartialEq)]
pub struct Token {
    pub token_type: TokenType,
    pub lexeme: String,
    pub location: SourceLocation,
}

/// A token stream the parser can work on: not empty, ending with `Eof`, and
/// with no `Eof` before the end (the end of input is read only once).
pub open spec fn token_stream_wf(ts: Seq<Token>) -> bool {
    &&& ts.len() > 0
    &&& ts.last().token_type is Eof
    &&& forall|i: int| 0 <= i < ts.len() - 1 ==> !(#[trigger] ts[i].token_type is Eof)
}

pub open spec fn is_digit(c: char) -> bool {
    '0' <= c && c <= '9'
}

pub open spec fn is_ident_start(c: char) -> bool {
    ('a' <= c && c <= 'z') || ('A' <= c && c <= 'Z') || c == '_'
}

pub open spec fn is_ident_char(c: char) -> bool {
    is_ident_start(c) || is_digit(c)
}

/// The keyword that a word spells, if any.
pub open spec fn spec_keyword_of(w: Seq<char>) -> Option<Keyword> {
    if w == "module"@ { Some(Keyword::Module) }
    else if w == "import"@ { Some(Keyword::Import) }
    else if w == "func"@ { Some(Keyword::Func) }
    else if w == "let"@ { Some(Keyword::Let) }
    else if w == "var"@ { Some(Keyword::Var) }
    else if w == "mut"@ { Some(Keyword::Mut) }
    else if w == "const"@ { Some(Keyword::Const) }
    else if w == "struct"@ { Some(Keyword::Struct) }
    else if w == "enum"@ { Some(Keyword::Enum) }
    else if w == "case"@ { Some(Keyword::Case) }
    else if w == "return"@ { Some(Keyword::Return) }
    else if w == "when"@ { Some(Keyword::When) }
    else if w == "else"@ { Some(Keyword::Else) }
    else if w == "if"@ { Some(Keyword::If) }
    else if w == "while"@ { Some(Keyword::While) }
    else if w == "for"@ { Some(Keyword::For) }
    else if w == "in"@ { Some(Keyword::In) }
    else if w == "match"@ { Some(Keyword::Match) }
    else if w == "break"@ { Some(Keyword::Break) }
    else if w == "continue"@ { Some(Keyword::Continue) }
    else if w == "concurrent"@ { Some(Keyword::Concurrent) }
    else if w == "pub"@ { Some(Keyword::Pub) }
    else if w == "range"@ { Some(Keyword::Range) }
    else if w == "Int"@ { Some(Keyword::Int) }
    else if w == "Int32"@ { Some(Keyword::Int32) }
    else if w == "Int64"@ { Some(Keyword::Int64) }
    else if w == "Float"@ { Some(Keyword::Float) }
    else if w == "Float32"@ { Some(Keyword::Float32) }
    else if w == "Float64"@ { Some(Keyword::Float64) }
    else if w == "String"@ { Some(Keyword::String_) }
    else if w == "Char"@ { Some(Keyword::Char) }
    else if w == "Bool"@ { Some(Keyword::Bool) }
    else if w == "Void"@ { Some(Keyword::Void) }
    else if w == "SizeT"@ { Some(Keyword::SizeT) }
    else if w == "Array"@ { Some(Keyword::Array) }
    else if w == "Map"@ { Some(Keyword::Map_) }
    else if w == "Pointer"@ { Some(Keyword::Pointer) }
    else if w == "MutPointer"@ { Some(Keyword::MutPointer) }
    else if w == "trait"@ { Some(Keyword::Trait) }
    else if w == "where"@ { Some(Keyword::Where) }
    else if w == "try"@ { Some(Keyword::Try) }
    else if w == "catch"@ { Some(Keyword::Catch) }
    else if w == "finally"@ { Some(Keyword::Finally) }
    else if w == "throw"@ { Some(Keyword::Throw) }
    else if w == "as"@ { Some(Keyword::As) }
    else if w == "forall"@ { Some(Keyword::ForAll) }
    else if w == "exists"@ { Some(Keyword::Exists) }
    else { None }
}

/// Whether the characters `w` spell the literal `lit`.
fn word_is(w: &Vec<char>, lit: &str) -> (b: bool)
    ensures
        b == (w@ == lit@),
{
    let n = lit.unicode_len();
    if w.len() != n {
        return false;
    }
    let mut i: usize = 0;
    while i < n
        invariant
            n == lit@.len(),
            w@.len() == n,
            i <= n,
            forall|j: int| 0 <= j < i ==> w@[j] == lit@[j],
        decreases n - i,
    {
        if w[i] != lit.get_char(i) {
            return false;
        }
        i = i + 1;
    }
    assert(w@ =~= lit@);
    true
}

/// The keyword that the characters `w` spell, if any.
pub fn keyword_of(w: &Vec<char>) -> (k: Option<Keyword>)
    ensures
        k == spec_keyword_of(w@),
{
    if word_is(w, "module") { Some(Keyword::Module) }
    else if word_is(w, "import") { Some(Keyword::Import) }
    else if word_is(w, "func") { Some(Keyword::Func) }
    else if word_is(w, "let") { Some(Keyword::Let) }
    else if word_is(w, "var") { Some(Keyword::Var) }
    else if word_is(w, "mut") { Some(Keyword::Mut) }
    else if word_is(w, "const") { Some(Keyword::Const) }
    else if word_is(w, "struct") { Some(Keyword::Struct) }
    else if word_is(w, "enum") { Some(Keyword::Enum) }
    else if word_is(w, "case") { Some(Keyword::Case) }
    else if word_is(w, "return") { Some(Keyword::Return) }
    else if word_is(w, "when") { Some(Keyword::When) }
    else if word_is(w, "else") { Some(Keyword::Else) }
    else if word_is(w, "if") { Some(Keyword::If) }
    else if word_is(w, "while") { Some(Keyword::While) }
    else if word_is(w, "for") { Some(Keyword::For) }
    else if word_is(w, "in") { Some(Keyword::In) }
    else if word_is(w, "match") { Some(Keyword::Match) }
    else if word_is(w, "break") { Some(Keyword::Break) }
    else if word_is(w, "continue") { Some(Keyword::Continue) }
    else if word_is(w, "concurrent") { Some(Keyword::Concurrent) }
    else if word_is(w, "pub") { Some(Keyword::Pub) }
    else if word_is(w, "range") { Some(Keyword::Range) }
    else if word_is(w, "Int") { Some(Keyword::Int) }
    else if word_is(w, "Int32") { Some(Keyword::Int32) }
    else if word_is(w, "Int64") { Some(Keyword::Int64) }
    else if word_is(w, "Float") { Some(Keyword::Float) }
    else if word_is(w, "Float32") { Some(Keyword::Float32) }
    else if word_is(w, "Float64") { Some(Keyword::Float64) }
    else if word_is(w, "String") { Some(Keyword::String_) }
    else if word_is(w, "Char") { Some(Keyword::Char) }
    else if word_is(w, "Bool") { Some(Keyword::Bool) }
    else if word_is(w, "Void") { Some(Keyword::Void) }
    else if word_is(w, "SizeT") { Some(Keyword::SizeT) }
    else if word_is(w, "Array") { Some(Keyword::Array) }
    else if word_is(w, "Map") { Some(Keyword::Map_) }
    else if word_is(w, "Pointer") { Some(Keyword::Pointer) }
    else if word_is(w, "MutPointer") { Some(Keyword::MutPointer) }
    else if word_is(w, "trait") { Some(Keyword::Trait) }
    else if word_is(w, "where") { Some(Keyword::Where) }
    else if word_is(w, "try") { Some(Keyword::Try) }
    else if word_is(w, "catch") { Some(Keyword::Catch) }
    else if word_is(w, "finally") { Some(Keyword::Finally) }
    else if word_is(w, "throw") { Some(Keyword::Throw) }
    else if word_is(w, "as") { Some(Keyword::As) }
    else if word_is(w, "forall") { Some(Keyword::ForAll) }
    else if word_is(w, "exists") { Some(Keyword::Exists) }
    else { None }
}

/// The characters of a string slice, in order.
fn chars_of(s: &str) -> (v: Vec<char>)
    ensures
        v@ == s@,
{
    broadcast use {vstd::string::axiom_spec_iter, vstd::string::next_postcondition};
    let mut it = s.chars();
    let mut v: Vec<char> = Vec::new();
    assert(v@ + it.remaining() =~= s@);
    loop
        invariant
            v@ + it.remaining() == s@,
            it.decrease() is Some,
        ensures
            v@ == s@,
        decreases it.decrease()->0,
    {
        let ghost before = it.remaining();
        match it.next() {
            Some(c) => {
                v.push(c);
                assert(v@ + it.remaining() =~= s@) by {
                    assert(before =~= seq![c] + before.drop_first());
                }
            },
            None => {
                assert(v@ =~= s@);
                break;
            },
        }
    }
    v
}

/// The lexer state: the source characters, the next character to read and
/// its line and column.
pub struct Lexer {
    chars: Vec<char>,
    position: usize,
    line: usize,
    column: usize,
    file: String,
}

impl Lexer {
    pub closed spec fn source(&self) -> Seq<char> {
        self.chars@
    }

    pub closed spec fn pos(&self) -> int {
        self.position as int
    }

    pub closed spec fn wf(&self) -> bool {
        &&& self.position <= self.chars@.len()
        &&& self.line >= 1
        &&& self.column >= 1
    }

    /// A lexer at the start of `source`; `file` names it in locations.
    pub fn new(source: &str, file: String) -> (l: Lexer)
        ensures
            l.wf(),
            l.source() == source@,
            l.pos() == 0,
    {
        Lexer { chars: chars_of(source), position: 0, line: 1, column: 1, file }
    }

    fn location(&self) -> (r: SourceLocation)
        requires
            self.wf(),
        ensures
            r.line >= 1,
            r.column >= 1,
    {
        SourceLocation { file: self.file.clone(), line: self.line, column: self.column, offset: self.position }
    }

    fn current(&self) -> (c: Option<char>)
        requires
            self.wf(),
        ensures
            c == if self.pos() < self.source().len() { Some(self.source()[self.pos()]) } else { None::<char> },
    {
        if self.position < self.chars.len() {
            Some(self.chars[self.position])
        } else {
            None
        }
    }

    fn lookahead(&self, k: usize) -> (c: Option<char>)
        requires
            self.wf(),
            k <= 2,
        ensures
            c == if self.pos() + k < self.source().len() { Some(self.source()[self.pos() + k]) } else { None::<char> },
    {
        let n = self.chars.len();
        if k < n - self.position {
            Some(self.chars[self.position + k])
        } else {
            None
        }
    }

    /// Moves past one character, keeping line and column up to date.
    fn bump(&mut self)
        requires
            old(self).wf(),
            old(self).pos() < old(self).source().len(),
        ensures
            final(self).wf(),
            final(self).source() == old(self).source(),
            final(self).pos() == old(self).pos() + 1,
    {
        let n = self.chars.len();
        let c = self.chars[self.position];
        self.position = self.position + 1;
        if c == '\n' {
            if self.line < usize::MAX {
                self.line = self.line + 1;
            }
            self.column = 1;
        } else if self.column < usize::MAX {
            self.column = self.column + 1;
        }
    }

    /// Skips whitespace, `//` line comments and `/* */` block comments.
    fn skip_trivia(&mut self) -> (r: Result<(), LexerError>)
        requires
            old(self).wf(),
        ensures
            final(self).wf(),
            final(self).source() == old(self).source(),
            final(self).pos() >= old(self).pos(),
    {
        loop
            invariant
                self.wf(),
                self.source() == old(self).source(),
                self.pos() >= old(self).pos(),
            decreases self.source().len() - self.pos(),
        {
            let ghost p0 = self.pos();
            match self.current() {
                Some(c) => {
                    if c == ' ' || c == '\t' || c == '\n' || c == '\r' {
                        self.bump();
                    } else if c == '/' && self.lookahead(1) == Some('/') {
                        self.bump();
                        self.bump();
                        while self.position < self.chars.len() && self.chars[self.position] != '\n'
                            invariant
                                self.wf(),
                                self.source() == old(self).source(),
                                self.pos() > p0,
                                p0 >= old(self).pos(),
                            decreases self.source().len() - self.pos(),
                        {
                            self.bump();
                        }
                    } else if c == '/' && self.lookahead(1) == Some('*') {
                        let start = self.location();
                        self.bump();
                        self.bump();
                        loop
                            invariant
                                self.wf(),
                                self.source() == old(self).source(),
                                self.pos() > p0,
                                p0 >= old(self).pos(),
                            decreases self.source().len() - self.pos(),
                        {
                            if self.position >= self.chars.len() {
                                return Err(LexerError::UnterminatedComment { location: start });
                            }
                            if self.chars[self.position] == '*' && self.lookahead(1) == Some('/') {
                                self.bump();
                                self.bump();
                                break;
                            }
                            self.bump();
                        }
                    } else {
                        return Ok(());
                    }
                },
                None => {
                    return Ok(());
                },
            }
        }
    }

    /// The characters from `start` up to the current position.
    fn text_from(&self, start: usize) -> (s: Vec<char>)
        requires
            self.wf(),
            start <= self.pos(),
        ensures
            s@ == self.source().subrange(start as int, self.pos()),
    {
        let mut out: Vec<char> = Vec::new();
        let mut i = start;
        while i < self.position
            invariant
                self.wf(),
                start <= i <= self.pos(),
                out@ == self.source().subrange(start as int, i as int),
            decreases self.pos() - i,
        {
            out.push(self.chars[i]);
            i = i + 1;
        }
        out
    }

    fn at_ident_char(&self) -> (b: bool)
        requires
            self.wf(),
        ensures
            b == (self.pos() < self.source().len() && is_ident_char(self.source()[self.pos()])),
    {
        if self.position < self.chars.len() {
            let c = self.chars[self.position];
            ('a' <= c && c <= 'z') || ('A' <= c && c <= 'Z') || c == '_' || ('0' <= c && c <= '9')
        } else {
            false
        }
    }

    /// Reads an identifier, a keyword, `_`, or `true`/`false`.
    fn scan_word(&mut self, location: SourceLocation) -> (t: Token)
        requires
            old(self).wf(),
            old(self).pos() < old(self).source().len(),
            is_ident_start(old(self).source()[old(self).pos()]),
        ensures
            final(self).wf(),
            final(self).source() == old(self).source(),
            final(self).pos() > old(self).pos(),
            !(t.token_type is Eof),
            t.location == location,
    {
        let start = self.position;
        self.bump();
        while self.at_ident_char()
            invariant
                self.wf(),
                self.source() == old(self).source(),
                self.pos() > start,
                start == old(self).pos(),
            decreases self.source().len() - self.pos(),
        {
            self.bump();
        }
        let word = self.text_from(start);
        let lexeme = string_of(&word);
        if word.len() == 1 && word[0] == '_' {
            return Token { token_type: TokenType::Underscore, lexeme, location };
        }
        if word_is(&word, "true") {
            return Token { token_type: TokenType::BoolLiteral(true), lexeme, location };
        }
        if word_is(&word, "false") {
            return Token { token_type: TokenType::BoolLiteral(false), lexeme, location };
        }
        match keyword_of(&word) {
            Some(k) => Token { token_type: TokenType::Keyword(k), lexeme, location },
            None => Token { token_type: TokenType::Identifier(string_of(&word)), lexeme, location },
        }
    }

    /// Reads an integer literal, or a float literal when a `.` followed by a
    /// digit comes after the integer part.
    fn scan_number(&mut self, location: SourceLocation) -> (r: Result<Token, LexerError>)
        requires
            old(self).wf(),
            old(self).pos() < old(self).source().len(),
            is_digit(old(self).source()[old(self).pos()]),
        ensures
            final(self).wf(),
            final(self).source() == old(self).source(),
            final(self).pos() > old(self).pos(),
            r matches Ok(t) ==> !(t.token_type is Eof) && t.location == location,
    {
        let start = self.position;
        let mut value: i64 = 0;
        let mut overflow = false;
        while self.position < self.chars.len() && '0' <= self.chars[self.position] && self.chars[self.position] <= '9'
            invariant
                self.wf(),
                self.source() == old(self).source(),
                self.pos() >= start,
                start == old(self).pos(),
                value >= 0,
            decreases self.source().len() - self.pos(),
        {
            let d = self.chars[self.position];
            let digit: i64 = if d == '0' { 0 } else if d == '1' { 1 } else if d == '2' { 2 } else if d == '3' { 3 }
                else if d == '4' { 4 } else if d == '5' { 5 } else if d == '6' { 6 } else if d == '7' { 7 }
                else if d == '8' { 8 } else { 9 };
            if value > (i64::MAX - digit) / 10 {
                overflow = true;
            } else {
                value = value * 10 + digit;
            }
            self.bump();
        }
        if self.lookahead(1).is_some() && self.chars[self.position] == '.' && '0' <= self.chars[self.position + 1]
            && self.chars[self.position + 1] <= '9' {
            self.bump();
            while self.position < self.chars.len() && '0' <= self.chars[self.position] && self.chars[self.position] <= '9'
                invariant
                    self.wf(),
                    self.source() == old(self).source(),
                    self.pos() > start,
                    start == old(self).pos(),
                decreases self.source().len() - self.pos(),
            {
                self.bump();
            }
            let text = self.text_from(start);
            let lexeme = string_of(&text);
            return Ok(Token { token_type: TokenType::FloatLiteral(string_of(&text)), lexeme, location });
        }
        let text = self.text_from(start);
        if overflow {
            return Err(LexerError::IntegerOverflow { text: string_of(&text), location });
        }
        Ok(Token { token_type: TokenType::IntegerLiteral(value), lexeme: string_of(&text), location })
    }

    /// Reads the character after a backslash in a string or character literal.
    fn escaped(c: char) -> (r: char) {
        if c == 'n' { '\n' } else if c == 't' { '\t' } else if c == 'r' { '\r' } else if c == '0' { '\0' } else { c }
    }

    /// Reads a string literal; the current character is the opening quote.
    fn scan_string(&mut self, location: SourceLocation) -> (r: Result<Token, LexerError>)
        requires
            old(self).wf(),
            old(self).pos() < old(self).source().len(),
        ensures
            final(self).wf(),
            final(self).source() == old(self).source(),
            final(self).pos() > old(self).pos(),
            r matches Ok(t) ==> !(t.token_type is Eof) && t.location == location,
    {
        let start = self.position;
        self.bump();
        let mut value: Vec<char> = Vec::new();
        loop
            invariant
                self.wf(),
                self.source() == old(self).source(),
                self.pos() > start,
                start == old(self).pos(),
            decreases self.source().len() - self.pos(),
        {
            if self.position >= self.chars.len() {
                return Err(LexerError::UnterminatedString { location });
            }
            let c = self.chars[self.position];
            self.bump();
            if c == '"' {
                break;
            }
            if c == '\\' {
                if self.position >= self.chars.len() {
                    return Err(LexerError::UnterminatedString { location });
                }
                let e = self.chars[self.position];
                self.bump();
                value.push(Self::escaped(e));
            } else {
                value.push(c);
            }
        }
        let text = self.text_from(start);
        Ok(Token { token_type: TokenType::StringLiteral(string_of(&value)), lexeme: string_of(&text), location })
    }

    /// Reads a character literal; the current character is the opening quote.
    fn scan_char(&mut self, location: SourceLocation) -> (r: Result<Token, LexerError>)
        requires
            old(self).wf(),
            old(self).pos() < old(self).source().len(),
        ensures
            final(self).wf(),
            final(self).source() == old(self).source(),
            final(self).pos() > old(self).pos(),
            r matches Ok(t) ==> !(t.token_type is Eof) && t.location == location,
    {
        let start = self.position;
        self.bump();
        if self.position >= self.chars.len() {
            return Err(LexerError::InvalidCharacterLiteral { location });
        }
        let mut c = self.chars[self.position];
        if c == '\'' {
            return Err(LexerError::InvalidCharacterLiteral { location });
        }
        self.bump();
        if c == '\\' {
            if self.position >= self.chars.len() {
                return Err(LexerError::InvalidCharacterLiteral { location });
            }
            c = Self::escaped(self.chars[self.position]);
            self.bump();
        }
        if self.position >= self.chars.len() || self.chars[self.position] != '\'' {
            return Err(LexerError::InvalidCharacterLiteral { location });
        }
        self.bump();
        let text = self.text_from(start);
        Ok(Token { token_type: TokenType::CharLiteral(c), lexeme: string_of(&text), location })
    }

    /// Reads an operator or punctuation token of `n` characters.
    fn symbol(&mut self, n: usize, token_type: TokenType, location: SourceLocation) -> (t: Token)
        requires
            old(self).wf(),
            1 <= n <= 3,
            old(self).pos() + n <= old(self).source().len(),
            !(token_type is Eof),
        ensures
            final(self).wf(),
            final(self).source() == old(self).source(),
            final(self).pos() == old(self).pos() + n,
            t.token_type == token_type,
            t.location == location,
    {
        let start = self.position;
        let mut i: usize = 0;
        while i < n
            invariant
                self.wf(),
                self.source() == old(self).source(),
                self.pos() == old(self).pos() + i,
                i <= n,
                old(self).pos() + n <= old(self).source().len(),
                start == old(self).pos(),
            decreases n - i,
        {
            self.bump();
            i = i + 1;
        }
        let text = self.text_from(start);
        Token { token_type, lexeme: string_of(&text), location }
    }

    /// Reads the next token; the current character is not whitespace or the
    /// start of a comment.
    fn scan_token(&mut self) -> (r: Result<Token, LexerError>)
        requires
            old(self).wf(),
            old(self).pos() < old(self).source().len(),
        ensures
            final(self).wf(),
            final(self).source() == old(self).source(),
            final(self).pos() > old(self).pos(),
            r matches Ok(t) ==> !(t.token_type is Eof) && t.location.line >= 1 && t.location.column >= 1,
    {
        let location = self.location();
        let c = self.chars[self.position];
        let c1 = self.lookahead(1);
        let c2 = self.lookahead(2);
        if ('a' <= c && c <= 'z') || ('A' <= c && c <= 'Z') || c == '_' {
            return Ok(self.scan_word(location));
        }
        if '0' <= c && c <= '9' {
            return self.scan_number(location);
        }
        if c == '"' {
            return self.scan_string(location);
        }
        if c == '\'' {
            return self.scan_char(location);
        }
        let t = if c == '+' {
            self.symbol(1, TokenType::Plus, location)
        } else if c == '-' {
            if c1 == Some('>') { self.symbol(2, TokenType::Arrow, location) } else { self.symbol(1, TokenType::Minus, location) }
        } else if c == '*' {
            self.symbol(1, TokenType::Star, location)
        } else if c == '/' {
            self.symbol(1, TokenType::Slash, location)
        } else if c == '%' {
            self.symbol(1, TokenType::Percent, location)
        } else if c == '=' {
            if c1 == Some('=') {
                self.symbol(2, TokenType::EqualEqual, location)
            } else if c1 == Some('>') {
                self.symbol(2, TokenType::FatArrow, location)
            } else {
                self.symbol(1, TokenType::Equal, location)
            }
        } else if c == '!' {
            if c1 == Some('=') { self.symbol(2, TokenType::BangEqual, location) } else { self.symbol(1, TokenType::Bang, location) }
        } else if c == '<' {
            if c1 == Some('=') { self.symbol(2, TokenType::LessEqual, location) } else { self.symbol(1, TokenType::Less, location) }
        } else if c == '>' {
            if c1 == Some('=') { self.symbol(2, TokenType::GreaterEqual, location) } else { self.symbol(1, TokenType::Greater, location) }
        } else if c == '&' {
            if c1 == Some('&') { self.symbol(2, TokenType::AmpAmp, location) } else { self.symbol(1, TokenType::Ampersand, location) }
        } else if c == '|' {
            if c1 == Some('|') { self.symbol(2, TokenType::PipePipe, location) } else { self.symbol(1, TokenType::Pipe, location) }
        } else if c == '^' {
            self.symbol(1, TokenType::Caret, location)
        } else if c == '~' {
            self.symbol(1, TokenType::Tilde, location)
        } else if c == '@' {
            self.symbol(1, TokenType::At, location)
        } else if c == '.' {
            if c1 == Some('.') {
                if c2 == Some('=') { self.symbol(3, TokenType::DotDotEqual, location) } else { self.symbol(2, TokenType::DotDot, location) }
            } else {
                self.symbol(1, TokenType::Dot, location)
            }
        } else if c == ',' {
            self.symbol(1, TokenType::Comma, location)
        } else if c == ';' {
            self.symbol(1, TokenType::Semicolon, location)
        } else if c == ':' {
            if c1 == Some(':') { self.symbol(2, TokenType::DoubleColon, location) } else { self.symbol(1, TokenType::Colon, location) }
        } else if c == '(' {
            self.symbol(1, TokenType::LeftParen, location)
        } else if c == ')' {
            self.symbol(1, TokenType::RightParen, location)
        } else if c == '{' {
            self.symbol(1, TokenType::LeftBrace, location)
        } else if c == '}' {
            self.symbol(1, TokenType::RightBrace, location)
        } else if c == '[' {
            self.symbol(1, TokenType::LeftBracket, location)
        } else if c == ']' {
            self.symbol(1, TokenType::RightBracket, location)
        } else {
            self.bump();
            return Err(LexerError::UnexpectedCharacter { character: c, location });
        };
        Ok(t)
    }

    /// Reads the whole source. On success the tokens form a well-formed
    /// stream: at least one token, the last one `Eof` and no other `Eof`,
    /// every location on line 1 or later and column 1 or later.
    pub fn tokenize(&mut self) -> (r: Result<Vec<Token>, LexerError>)
        requires
            old(self).wf(),
        ensures
            final(self).wf(),
            final(self).source() == old(self).source(),
            r matches Ok(ts) ==> {
                &&& token_stream_wf(ts@)
                &&& forall|i: int| 0 <= i < ts@.len() ==>
                    (#[trigger] ts@[i]).location.line >= 1 && ts@[i].location.column >= 1
            },
    {
        let mut tokens: Vec<Token> = Vec::new();
        loop
            invariant
                self.wf(),
                self.source() == old(self).source(),
                forall|i: int| 0 <= i < tokens@.len() ==> !(#[trigger] tokens@[i].token_type is Eof),
                forall|i: int| 0 <= i < tokens@.len() ==>
                    (#[trigger] tokens@[i]).location.line >= 1 && tokens@[i].location.column >= 1,
            decreases self.source().len() - self.pos(),
        {
            self.skip_trivia()?;
            if self.position >= self.chars.len() {
                let location = self.location();
                tokens.push(Token { token_type: TokenType::Eof, lexeme: String::new(), location });
                return Ok(tokens);
            }
            let t = self.scan_token()?;
            tokens.push(t);
        }
    }
}

} // verus!
