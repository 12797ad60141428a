//! Expressions: literals, variables, calls, field and index access, braced
//! binary expressions, ranges, lambdas with capture lists, struct, enum,
//! array and map literals, and match expressions and patterns.

use vstd::prelude::*;
use crate::ast::{
    Argument, Block, Capture, CaptureMode, Expression, FieldValue, FunctionCall, FunctionReference,
    Identifier, LambdaBody, MapEntry, MatchCase, Parameter, PassingMode, Pattern, PrimitiveType,
    Statement, TypeSpecifier,
};
use crate::error::{ParserError, SourceLocation};
use crate::lexer::v2::{Keyword, Token, TokenType};
use crate::text::{spec_decimal, string_of, push_decimal};
use super::Parser;
use super::types::{ident_name, token_is, TypeShape, shape_of, type_at};
use crate::parser::core_syntax::{CoreStmt, core_block_at, core_stmt_at, core_stmts_from, lemma_stmts_denote_push, stmts_denote};

verus! {

/// The binary operators of braced expressions.
#[derive(Debug, Clone, Copy, PartialEq, Eq, Structural)]
pub enum BinaryOp {
    Add,
    Subtract,
    Multiply,
    Divide,
    Modulo,
    Equals,
    NotEquals,
    LessThan,
    LessEqual,
    GreaterThan,
    GreaterEqual,
    And,
    Or,
}

/// The binary operator that a token kind stands for, if any.
pub open spec fn spec_binary_op(t: TokenType) -> Option<BinaryOp> {
    match t {
        TokenType::Plus => Some(BinaryOp::Add),
        TokenType::Minus => Some(BinaryOp::Subtract),
        TokenType::Star => Some(BinaryOp::Multiply),
        TokenType::Slash => Some(BinaryOp::Divide),
        TokenType::Percent => Some(BinaryOp::Modulo),
        TokenType::EqualEqual => Some(BinaryOp::Equals),
        TokenType::BangEqual => Some(BinaryOp::NotEquals),
        TokenType::Less => Some(BinaryOp::LessThan),
        TokenType::LessEqual => Some(BinaryOp::LessEqual),
        TokenType::Greater => Some(BinaryOp::GreaterThan),
        TokenType::GreaterEqual => Some(BinaryOp::GreaterEqual),
        TokenType::AmpAmp => Some(BinaryOp::And),
        TokenType::PipePipe => Some(BinaryOp::Or),
        _ => None,
    }
}

/// `e` is the binary expression of `op` applied to `left` and `right`:
/// `&&` and `||` give a two-operand `LogicalAnd`/`LogicalOr`, the other
/// operators their own node.
pub open spec fn is_binary(op: BinaryOp, left: Expression, right: Expression, e: Expression) -> bool {
    match op {
        BinaryOp::Add => e matches Expression::Add { left: l, right: r, .. } && *l == left && *r == right,
        BinaryOp::Subtract => e matches Expression::Subtract { left: l, right: r, .. } && *l == left && *r == right,
        BinaryOp::Multiply => e matches Expression::Multiply { left: l, right: r, .. } && *l == left && *r == right,
        BinaryOp::Divide => e matches Expression::Divide { left: l, right: r, .. } && *l == left && *r == right,
        BinaryOp::Modulo => e matches Expression::Modulo { left: l, right: r, .. } && *l == left && *r == right,
        BinaryOp::Equals => e matches Expression::Equals { left: l, right: r, .. } && *l == left && *r == right,
        BinaryOp::NotEquals => e matches Expression::NotEquals { left: l, right: r, .. } && *l == left && *r == right,
        BinaryOp::LessThan => e matches Expression::LessThan { left: l, right: r, .. } && *l == left && *r == right,
        BinaryOp::LessEqual => e matches Expression::LessThanOrEqual { left: l, right: r, .. } && *l == left && *r == right,
        BinaryOp::GreaterThan => e matches Expression::GreaterThan { left: l, right: r, .. } && *l == left && *r == right,
        BinaryOp::GreaterEqual => e matches Expression::GreaterThanOrEqual { left: l, right: r, .. } && *l == left && *r == right,
        BinaryOp::And => e matches Expression::LogicalAnd { operands, .. } && operands@ == seq![left, right],
        BinaryOp::Or => e matches Expression::LogicalOr { operands, .. } && operands@ == seq![left, right],
    }
}

/// The source location of a binary expression (nothing is said of it for
/// other expressions).
pub open spec fn binary_location(e: Expression) -> SourceLocation {
    match e {
        Expression::Add { source_location, .. } => source_location,
        Expression::Subtract { source_location, .. } => source_location,
        Expression::Multiply { source_location, .. } => source_location,
        Expression::Divide { source_location, .. } => source_location,
        Expression::Modulo { source_location, .. } => source_location,
        Expression::Equals { source_location, .. } => source_location,
        Expression::NotEquals { source_location, .. } => source_location,
        Expression::LessThan { source_location, .. } => source_location,
        Expression::LessThanOrEqual { source_location, .. } => source_location,
        Expression::GreaterThan { source_location, .. } => source_location,
        Expression::GreaterThanOrEqual { source_location, .. } => source_location,
        Expression::LogicalAnd { source_location, .. } => source_location,
        Expression::LogicalOr { source_location, .. } => source_location,
        _ => arbitrary(),
    }
}

/// Expressions that an identifier followed by calls, indexing and field
/// accesses produces.
pub open spec fn postfix_family(e: Expression) -> bool {
    ||| e is Variable
    ||| e is FunctionCall
    ||| e is ArrayAccess
    ||| e is FieldAccess
    ||| e is MethodCall
}

/// What `parse_expression` may produce when the first token has kind `first`.
pub open spec fn expr_head(first: TokenType, e: Expression) -> bool {
    match first {
        TokenType::Bang => e is LogicalNot,
        TokenType::Minus => e is Negate,
        TokenType::Ampersand => e is AddressOf,
        TokenType::DotDot => e matches Expression::Range { start, .. } && start is None,
        TokenType::DotDotEqual => e matches Expression::Range { start, .. } && start is None,
        TokenType::IntegerLiteral(v) => {
            ||| e matches Expression::IntegerLiteral { value, .. } && value == v
            ||| e matches Expression::Range { start, .. } && start is Some
        },
        TokenType::FloatLiteral(s) => e matches Expression::FloatLiteral { value, .. } && value == s,
        TokenType::StringLiteral(s) => e matches Expression::StringLiteral { value, .. } && value == s,
        TokenType::CharLiteral(c) => e matches Expression::CharacterLiteral { value, .. } && value == c,
        TokenType::BoolLiteral(b) => e matches Expression::BooleanLiteral { value, .. } && value == b,
        TokenType::Identifier(_) => postfix_family(e) || e is StructConstruct || e is EnumVariant,
        TokenType::LeftBracket => true,
        TokenType::LeftBrace => true,
        TokenType::LeftParen => true,
        TokenType::Caret => true,
        _ => false,
    }
}

/// What `parse_primary_expression` may produce when the first token has
/// kind `first`.
pub open spec fn primary_head(first: TokenType, e: Expression) -> bool {
    match first {
        TokenType::Bang => e is LogicalNot,
        TokenType::Minus => e is Negate,
        TokenType::IntegerLiteral(v) => e matches Expression::IntegerLiteral { value, .. } && value == v,
        TokenType::FloatLiteral(s) => e matches Expression::FloatLiteral { value, .. } && value == s,
        TokenType::StringLiteral(s) => e matches Expression::StringLiteral { value, .. } && value == s,
        TokenType::CharLiteral(c) => e matches Expression::CharacterLiteral { value, .. } && value == c,
        TokenType::BoolLiteral(b) => e matches Expression::BooleanLiteral { value, .. } && value == b,
        TokenType::Keyword(k) => (k == Keyword::Range && (e is Variable || e is FunctionCall))
            || (k == Keyword::Match && e is Match),
        TokenType::Identifier(_) => postfix_family(e) || e is StructConstruct || e is EnumVariant,
        TokenType::LeftBrace => true,
        TokenType::LeftParen => true,
        _ => false,
    }
}

/// From index `i` at brace depth `depth`, whether a colon at depth 0
/// comes before a `}` closing depth 0 or a `;`.
pub open spec fn map_colon_ahead(toks: Seq<Token>, i: int, depth: int) -> bool
    decreases toks.len() - i,
{
    if i >= toks.len() || i < 0 {
        false
    } else if toks[i].token_type is LeftBrace {
        map_colon_ahead(toks, i + 1, depth + 1)
    } else if toks[i].token_type is RightBrace {
        if depth == 0 { false } else { map_colon_ahead(toks, i + 1, depth - 1) }
    } else if toks[i].token_type is Colon {
        if depth == 0 { true } else { map_colon_ahead(toks, i + 1, depth) }
    } else if toks[i].token_type is Semicolon {
        false
    } else {
        map_colon_ahead(toks, i + 1, depth)
    }
}

/// A `{` at index `i` starts a map literal: `{}`, or a colon at the top
/// level of the braces before any `;`.
pub open spec fn map_literal_ahead(toks: Seq<Token>, i: int) -> bool {
    (i + 1 < toks.len() && toks[i + 1].token_type is RightBrace) || map_colon_ahead(toks, i + 1, 0)
}

/// The core of the expression language: literals, variables, `!`, unary
/// `-`, binary operators, calls of named functions, index and field
/// accesses, and method calls. Call arguments carry their names.
pub enum CoreExpr {
    Int(i64),
    Float(String),
    Str(String),
    Char(char),
    Bool(bool),
    Var(Seq<char>),
    Not(Box<CoreExpr>),
    Neg(Box<CoreExpr>),
    Binary(BinaryOp, Box<CoreExpr>, Box<CoreExpr>),
    Call(Seq<char>, Seq<(Seq<char>, CoreExpr)>),
    Index(Box<CoreExpr>, Box<CoreExpr>),
    Field(Box<CoreExpr>, Seq<char>),
    Method(Box<CoreExpr>, Seq<char>, Seq<(Seq<char>, CoreExpr)>),
    /// A struct construction `Name { field: value, ... }`.
    Struct(Seq<char>, Seq<(Seq<char>, CoreExpr)>),
    /// An enum variant `Enum::Variant(values)`.
    Variant(Seq<char>, Seq<char>, Seq<CoreExpr>),
    /// An array literal `[e, ...]` with its element type.
    Array(PrimitiveType, Seq<CoreExpr>),
    /// A map literal `{k: v, ...}`.
    MapLiteral(Seq<(CoreExpr, CoreExpr)>),
    /// A match expression `match v { pattern => e, ... }`.
    Match(Box<CoreExpr>, Seq<(PatternShape, CoreExpr)>),
    /// A range `[start]..[end]`, or `..=` where inclusive.
    Range(Option<Box<CoreExpr>>, Option<Box<CoreExpr>>, bool),
    /// A lambda `[captures](params) [-> type] => e` whose body is an
    /// expression.
    Lambda(Seq<(Seq<char>, CaptureMode)>, Seq<(Seq<char>, TypeShape)>, Option<TypeShape>, Box<CoreExpr>),
    /// An address `&e`, or `&mut e` where the flag is set.
    AddrOf(bool, Box<CoreExpr>),
}

/// Field values are the named core values, one for one.
pub open spec fn field_values_denote(fs: Seq<FieldValue>, cs: Seq<(Seq<char>, CoreExpr)>) -> bool
    decreases cs,
{
    if cs.len() == 0 {
        fs.len() == 0
    } else {
        &&& fs.len() == cs.len()
        &&& field_values_denote(fs.drop_last(), cs.drop_last())
        &&& fs.last().field_name.name@ == cs.last().0
        &&& denotes(*fs.last().value, cs.last().1)
    }
}

/// Expressions are the core expressions, one for one.
pub open spec fn values_denote(es: Seq<Expression>, cs: Seq<CoreExpr>) -> bool
    decreases cs,
{
    if cs.len() == 0 {
        es.len() == 0
    } else {
        &&& es.len() == cs.len()
        &&& values_denote(es.drop_last(), cs.drop_last())
        &&& denotes(es.last(), cs.last())
    }
}

/// Pushing a field value and its core value keeps the denotation.
pub proof fn lemma_field_values_push(fs: Seq<FieldValue>, cs: Seq<(Seq<char>, CoreExpr)>, f: FieldValue, c: (Seq<char>, CoreExpr))
    requires
        field_values_denote(fs, cs),
        f.field_name.name@ == c.0,
        denotes(*f.value, c.1),
    ensures
        field_values_denote(fs.push(f), cs.push(c)),
{
    assert(fs.push(f).drop_last() =~= fs);
    assert(cs.push(c).drop_last() =~= cs);
}

/// Boxed expressions are the core expressions, one for one.
pub open spec fn boxed_values_denote(es: Seq<Box<Expression>>, cs: Seq<CoreExpr>) -> bool
    decreases cs,
{
    if cs.len() == 0 {
        es.len() == 0
    } else {
        &&& es.len() == cs.len()
        &&& boxed_values_denote(es.drop_last(), cs.drop_last())
        &&& denotes(*es.last(), cs.last())
    }
}

/// Match cases are the core arms (pattern and body), one for one.
pub open spec fn match_cases_denote(cases: Seq<MatchCase>, arms: Seq<(PatternShape, CoreExpr)>) -> bool
    decreases arms,
{
    if arms.len() == 0 {
        cases.len() == 0
    } else {
        &&& cases.len() == arms.len()
        &&& match_cases_denote(cases.drop_last(), arms.drop_last())
        &&& pattern_shape(cases.last().pattern) == arms.last().0
        &&& denotes(*cases.last().body, arms.last().1)
    }
}

/// Pushing a match case and its core arm keeps the denotation.
pub proof fn lemma_match_cases_push(cases: Seq<MatchCase>, arms: Seq<(PatternShape, CoreExpr)>, c: MatchCase, a: (PatternShape, CoreExpr))
    requires
        match_cases_denote(cases, arms),
        pattern_shape(c.pattern) == a.0,
        denotes(*c.body, a.1),
    ensures
        match_cases_denote(cases.push(c), arms.push(a)),
{
    assert(cases.push(c).drop_last() =~= cases);
    assert(arms.push(a).drop_last() =~= arms);
}

/// Map entries are the core key and value pairs, one for one.
pub open spec fn map_entries_denote(es: Seq<MapEntry>, cs: Seq<(CoreExpr, CoreExpr)>) -> bool
    decreases cs,
{
    if cs.len() == 0 {
        es.len() == 0
    } else {
        &&& es.len() == cs.len()
        &&& map_entries_denote(es.drop_last(), cs.drop_last())
        &&& denotes(*es.last().key, cs.last().0)
        &&& denotes(*es.last().value, cs.last().1)
    }
}

/// Pushing a map entry and its core pair keeps the denotation.
pub proof fn lemma_map_entries_push(es: Seq<MapEntry>, cs: Seq<(CoreExpr, CoreExpr)>, e: MapEntry, c: (CoreExpr, CoreExpr))
    requires
        map_entries_denote(es, cs),
        denotes(*e.key, c.0),
        denotes(*e.value, c.1),
    ensures
        map_entries_denote(es.push(e), cs.push(c)),
{
    assert(es.push(e).drop_last() =~= es);
    assert(cs.push(c).drop_last() =~= cs);
}

/// Each boxed expression denotes the core expression at its index.
pub proof fn lemma_boxed_values_index(es: Seq<Box<Expression>>, cs: Seq<CoreExpr>, k: int)
    requires
        boxed_values_denote(es, cs),
        0 <= k < cs.len(),
    ensures
        es.len() == cs.len(),
        denotes(*es[k], cs[k]),
    decreases cs.len(),
{
    if k < cs.len() - 1 {
        lemma_boxed_values_index(es.drop_last(), cs.drop_last(), k);
    }
}

/// Pushing a boxed expression and its core expression keeps the denotation.
pub proof fn lemma_boxed_values_push(es: Seq<Box<Expression>>, cs: Seq<CoreExpr>, e: Box<Expression>, c: CoreExpr)
    requires
        boxed_values_denote(es, cs),
        denotes(*e, c),
    ensures
        boxed_values_denote(es.push(e), cs.push(c)),
{
    assert(es.push(e).drop_last() =~= es);
    assert(cs.push(c).drop_last() =~= cs);
}

/// Pushing an expression and its core expression keeps the denotation.
pub proof fn lemma_values_push(es: Seq<Expression>, cs: Seq<CoreExpr>, e: Expression, c: CoreExpr)
    requires
        values_denote(es, cs),
        denotes(e, c),
    ensures
        values_denote(es.push(e), cs.push(c)),
{
    assert(es.push(e).drop_last() =~= es);
    assert(cs.push(c).drop_last() =~= cs);
}

/// Call arguments are the named core arguments, one for one.
pub open spec fn args_denote(args: Seq<Argument>, cs: Seq<(Seq<char>, CoreExpr)>) -> bool
    decreases cs,
{
    if cs.len() == 0 {
        args.len() == 0
    } else {
        &&& args.len() == cs.len()
        &&& args_denote(args.drop_last(), cs.drop_last())
        &&& args.last().parameter_name.name@ == cs.last().0
        &&& denotes(*args.last().value, cs.last().1)
    }
}

/// Pushing an argument and its core argument keeps the denotation.
pub proof fn lemma_args_denote_push(args: Seq<Argument>, cs: Seq<(Seq<char>, CoreExpr)>, a: Argument, c: (Seq<char>, CoreExpr))
    requires
        args_denote(args, cs),
        a.parameter_name.name@ == c.0,
        denotes(*a.value, c.1),
    ensures
        args_denote(args.push(a), cs.push(c)),
{
    assert(args.push(a).drop_last() =~= args);
    assert(cs.push(c).drop_last() =~= cs);
}

/// The syntax tree `e` is the core expression `c` (source locations aside).
pub open spec fn denotes(e: Expression, c: CoreExpr) -> bool
    decreases c,
{
    match c {
        CoreExpr::Int(v) => e matches Expression::IntegerLiteral { value, .. } && value == v,
        CoreExpr::Float(v) => e matches Expression::FloatLiteral { value, .. } && value == v,
        CoreExpr::Str(v) => e matches Expression::StringLiteral { value, .. } && value == v,
        CoreExpr::Char(v) => e matches Expression::CharacterLiteral { value, .. } && value == v,
        CoreExpr::Bool(v) => e matches Expression::BooleanLiteral { value, .. } && value == v,
        CoreExpr::Var(n) => e matches Expression::Variable { name, .. } && name.name@ == n,
        CoreExpr::Not(c1) => e matches Expression::LogicalNot { operand, .. } && denotes(*operand, *c1),
        CoreExpr::AddrOf(m, c1) => e matches Expression::AddressOf { operand, mutability, .. }
            && mutability == m && denotes(*operand, *c1),
        CoreExpr::Neg(c1) => e matches Expression::Negate { operand, .. } && denotes(*operand, *c1),
        CoreExpr::Binary(op, l, r) => match op {
            BinaryOp::Add => e matches Expression::Add { left, right, .. } && denotes(*left, *l) && denotes(*right, *r),
            BinaryOp::Subtract => e matches Expression::Subtract { left, right, .. } && denotes(*left, *l) && denotes(*right, *r),
            BinaryOp::Multiply => e matches Expression::Multiply { left, right, .. } && denotes(*left, *l) && denotes(*right, *r),
            BinaryOp::Divide => e matches Expression::Divide { left, right, .. } && denotes(*left, *l) && denotes(*right, *r),
            BinaryOp::Modulo => e matches Expression::Modulo { left, right, .. } && denotes(*left, *l) && denotes(*right, *r),
            BinaryOp::Equals => e matches Expression::Equals { left, right, .. } && denotes(*left, *l) && denotes(*right, *r),
            BinaryOp::NotEquals => e matches Expression::NotEquals { left, right, .. } && denotes(*left, *l) && denotes(*right, *r),
            BinaryOp::LessThan => e matches Expression::LessThan { left, right, .. } && denotes(*left, *l) && denotes(*right, *r),
            BinaryOp::LessEqual => e matches Expression::LessThanOrEqual { left, right, .. } && denotes(*left, *l) && denotes(*right, *r),
            BinaryOp::GreaterThan => e matches Expression::GreaterThan { left, right, .. } && denotes(*left, *l) && denotes(*right, *r),
            BinaryOp::GreaterEqual => e matches Expression::GreaterThanOrEqual { left, right, .. } && denotes(*left, *l) && denotes(*right, *r),
            BinaryOp::And => e matches Expression::LogicalAnd { operands, .. } && operands@.len() == 2
                && denotes(operands@[0], *l) && denotes(operands@[1], *r),
            BinaryOp::Or => e matches Expression::LogicalOr { operands, .. } && operands@.len() == 2
                && denotes(operands@[0], *l) && denotes(operands@[1], *r),
        },
        CoreExpr::Call(f, args) => e matches Expression::FunctionCall { call, .. }
            && call.function_reference == (FunctionReference::Local { name: call.function_reference->name })
            && call.function_reference->name.name@ == f && call.variadic_arguments@.len() == 0
            && args_denote(call.arguments@, args),
        CoreExpr::Index(a, i) => e matches Expression::ArrayAccess { array, index, .. }
            && denotes(*array, *a) && denotes(*index, *i),
        CoreExpr::Field(a, f) => e matches Expression::FieldAccess { instance, field_name, .. }
            && denotes(*instance, *a) && field_name.name@ == f,
        CoreExpr::Method(a, m, args) => e matches Expression::MethodCall { receiver, method_name, arguments, .. }
            && denotes(*receiver, *a) && method_name.name@ == m && args_denote(arguments@, args),
        CoreExpr::Struct(n, fs) => e matches Expression::StructConstruct { struct_name, field_values, .. }
            && struct_name.name@ == n && field_values_denote(field_values@, fs),
        CoreExpr::Variant(en, v, vs) => e matches Expression::EnumVariant { enum_name, variant_name, values, .. }
            && enum_name.name@ == en && variant_name.name@ == v && values_denote(values@, vs),
        CoreExpr::Lambda(cs, ps, rt, b) => e matches Expression::Lambda { captures, parameters, return_type, body, .. }
            && captures_view(captures@) == cs && params_view(parameters@) == ps && params_plain(parameters@)
            && (match rt {
                Some(t) => return_type matches Some(x) && shape_of(*x) == t,
                None => return_type is None,
            })
            && (body matches LambdaBody::Expression(be) && denotes(*be, *b)),
        CoreExpr::Range(s, en, incl) => e matches Expression::Range { start, end, inclusive, .. }
            && inclusive == incl
            && (match s {
                Some(sc) => start matches Some(se) && denotes(*se, *sc),
                None => start is None,
            })
            && (match en {
                Some(ec) => end matches Some(ee) && denotes(*ee, *ec),
                None => end is None,
            }),
        CoreExpr::Match(v, arms) => e matches Expression::Match { value, cases, .. }
            && denotes(*value, *v) && match_cases_denote(cases@, arms),
        CoreExpr::MapLiteral(cs) => e matches Expression::MapLiteral { key_type, value_type, entries, .. }
            && (*key_type matches TypeSpecifier::Primitive { primitive_type, .. } && primitive_type == PrimitiveType::String)
            && (*value_type matches TypeSpecifier::Primitive { primitive_type, .. } && primitive_type == PrimitiveType::Integer)
            && map_entries_denote(entries@, cs),
        CoreExpr::Array(t, cs) => e matches Expression::ArrayLiteral { element_type, elements, .. }
            && (*element_type matches TypeSpecifier::Primitive { primitive_type, .. } && primitive_type == t)
            && boxed_values_denote(elements@, cs),
    }
}

/// The literal that a token stands for, if it is a literal token.
pub open spec fn literal_of(t: TokenType) -> Option<CoreExpr> {
    match t {
        TokenType::IntegerLiteral(v) => Some(CoreExpr::Int(v)),
        TokenType::FloatLiteral(v) => Some(CoreExpr::Float(v)),
        TokenType::StringLiteral(v) => Some(CoreExpr::Str(v)),
        TokenType::CharLiteral(v) => Some(CoreExpr::Char(v)),
        TokenType::BoolLiteral(v) => Some(CoreExpr::Bool(v)),
        _ => None,
    }
}

/// A `{` at index `k` starts a struct construction: `{`, an identifier, `:`.
pub open spec fn struct_fields_ahead(toks: Seq<Token>, k: int) -> bool {
    &&& 0 <= k
    &&& k + 2 < toks.len()
    &&& toks[k].token_type is LeftBrace
    &&& toks[k + 1].token_type is Identifier
    &&& toks[k + 2].token_type is Colon
}

/// The core operand of a braced expression written at index `i`, and the
/// index after it. `None` where what is written there is no core operand
/// (nothing is then said of it here).
pub open spec fn core_primary_at(toks: Seq<Token>, i: int) -> Option<(CoreExpr, int)>
    decreases toks.len() - i, 3int,
{
    if i < 0 || i >= toks.len() {
        None
    } else if toks[i].token_type is LeftBrace {
        if map_literal_ahead(toks, i) { core_map_at(toks, i) } else { core_braced_at(toks, i) }
    } else if toks[i].token_type is Bang {
        match core_primary_at(toks, i + 1) {
            Some((c, j)) => Some((CoreExpr::Not(Box::new(c)), j)),
            None => None,
        }
    } else if toks[i].token_type is Minus {
        match core_primary_at(toks, i + 1) {
            Some((c, j)) => Some((CoreExpr::Neg(Box::new(c)), j)),
            None => None,
        }
    } else if literal_of(toks[i].token_type) is Some {
        Some((literal_of(toks[i].token_type)->0, i + 1))
    } else if toks[i].token_type == TokenType::Keyword(Keyword::Range) {
        core_postfix_from(toks, i + 1, CoreExpr::Var(range_name()), 2, false)
    } else if variable_head_at(toks, i) {
        core_postfix_from(toks, i + 1, CoreExpr::Var(toks[i].token_type->Identifier_0@), 0, true)
    } else if toks[i].token_type == TokenType::Keyword(Keyword::Match) {
        core_match_at(toks, i)
    } else if toks[i].token_type is LeftParen {
        core_paren_or_lambda(toks, i, seq![])
    } else {
        core_construction_at(toks, i)
    }
}

/// The fields `name: value [,] ... }` of a struct construction from `j`,
/// and the index after the `}`.
pub open spec fn core_field_values_from(toks: Seq<Token>, j: int) -> Option<(Seq<(Seq<char>, CoreExpr)>, int)>
    decreases toks.len() - j, 0int,
{
    if j < 0 || j >= toks.len() || toks[j].token_type is Eof {
        None
    } else if toks[j].token_type is RightBrace {
        Some((seq![], j + 1))
    } else if toks[j].token_type is Identifier && token_is(toks, j + 1, TokenType::Colon) {
        match core_expression_at(toks, j + 2) {
            Some((c, k)) => if j + 2 < k < toks.len() {
                let next = if toks[k].token_type is Comma { k + 1 } else { k };
                match core_field_values_from(toks, next) {
                    Some((rest, m)) => Some((seq![(toks[j].token_type->Identifier_0@, c)] + rest, m)),
                    None => None,
                }
            } else {
                None
            },
            None => None,
        }
    } else {
        None
    }
}

/// The values `e, ... )` of an enum variant from `j`, and the index after
/// the `)`.
pub open spec fn core_variant_values(toks: Seq<Token>, j: int) -> Option<(Seq<CoreExpr>, int)>
    decreases toks.len() - j, 5int,
{
    match core_expression_at(toks, j) {
        Some((c, k)) => if j < k <= toks.len() {
            if token_is(toks, k, TokenType::Comma) {
                match core_variant_values(toks, k + 1) {
                    Some((rest, m)) => Some((seq![c] + rest, m)),
                    None => None,
                }
            } else if token_is(toks, k, TokenType::RightParen) {
                Some((seq![c], k + 1))
            } else {
                None
            }
        } else {
            None
        },
        None => None,
    }
}

/// The index just after the `]` that closes the `depth` brackets open
/// when scanning from `j`, or where the tokens end if they do not close.
pub open spec fn bracket_end(toks: Seq<Token>, j: int, depth: nat) -> int
    decreases toks.len() - j,
{
    if depth == 0 || j < 0 || j >= toks.len() {
        j
    } else if toks[j].token_type is LeftBracket {
        bracket_end(toks, j + 1, depth + 1)
    } else if toks[j].token_type is RightBracket {
        bracket_end(toks, j + 1, (depth - 1) as nat)
    } else {
        bracket_end(toks, j + 1, depth)
    }
}

/// A `[` at `i` starts an array literal rather than a capture list: it is
/// `[]` not followed by `(`, its first token is no identifier and no `&`,
/// or its brackets are not followed by `(`.
pub open spec fn array_literal_ahead(toks: Seq<Token>, i: int) -> bool {
    &&& 0 <= i < toks.len()
    &&& toks[i].token_type is LeftBracket
    &&& if i + 1 < toks.len() && toks[i + 1].token_type is RightBracket {
        !(i + 2 < toks.len() && toks[i + 2].token_type is LeftParen)
    } else if i + 1 < toks.len() {
        !(toks[i + 1].token_type is Identifier || toks[i + 1].token_type is Ampersand)
            || !(bracket_end(toks, i + 1, 1) < toks.len() && toks[bracket_end(toks, i + 1, 1)].token_type is LeftParen)
    } else {
        true
    }
}

/// The elements `e, ... ]` of an array literal from `j` (a trailing comma
/// allowed), and the index after the `]`.
pub open spec fn core_array_items(toks: Seq<Token>, j: int) -> Option<(Seq<CoreExpr>, int)>
    decreases toks.len() - j, 6int,
{
    if token_is(toks, j, TokenType::RightBracket) {
        Some((seq![], j + 1))
    } else {
        match core_expression_at(toks, j) {
            Some((c, k)) => if j < k <= toks.len() {
                if token_is(toks, k, TokenType::RightBracket) {
                    Some((seq![c], k + 1))
                } else if token_is(toks, k, TokenType::Comma) {
                    match core_array_items(toks, k + 1) {
                        Some((rest, m)) => Some((seq![c] + rest, m)),
                        None => None,
                    }
                } else {
                    None
                }
            } else {
                None
            },
            None => None,
        }
    }
}

/// The entries `k: v, ... }` of a map literal from `j` (a trailing comma
/// allowed), and the index after the `}`.
pub open spec fn core_map_entries(toks: Seq<Token>, j: int) -> Option<(Seq<(CoreExpr, CoreExpr)>, int)>
    decreases toks.len() - j, 7int,
{
    match core_expression_at(toks, j) {
        Some((key, a)) => if j < a && token_is(toks, a, TokenType::Colon) {
            match core_expression_at(toks, a + 1) {
                Some((value, b)) => if a + 1 < b <= toks.len() {
                    if token_is(toks, b, TokenType::Comma) {
                        if token_is(toks, b + 1, TokenType::RightBrace) {
                            Some((seq![(key, value)], b + 2))
                        } else {
                            match core_map_entries(toks, b + 1) {
                                Some((rest, m)) => Some((seq![(key, value)] + rest, m)),
                                None => None,
                            }
                        }
                    } else if token_is(toks, b, TokenType::RightBrace) {
                        Some((seq![(key, value)], b + 1))
                    } else {
                        None
                    }
                } else {
                    None
                },
                None => None,
            }
        } else {
            None
        },
        None => None,
    }
}

/// The map literal `{}` or `{k: v, ...}` at `i` (a `{`), and the index
/// after it.
pub open spec fn core_map_at(toks: Seq<Token>, i: int) -> Option<(CoreExpr, int)>
    decreases toks.len() - i, 1int,
{
    if i < 0 || i >= toks.len() {
        None
    } else if token_is(toks, i + 1, TokenType::RightBrace) {
        Some((CoreExpr::MapLiteral(seq![]), i + 2))
    } else {
        match core_map_entries(toks, i + 1) {
            Some((cs, m)) => Some((CoreExpr::MapLiteral(cs), m)),
            None => None,
        }
    }
}

/// The arms `pattern => e [,] ... }` of a match expression from `j`, and
/// the index after the `}`.
pub open spec fn core_match_arms(toks: Seq<Token>, j: int) -> Option<(Seq<(PatternShape, CoreExpr)>, int)>
    decreases toks.len() - j, 0int,
{
    if j < 0 || j >= toks.len() || toks[j].token_type is Eof {
        None
    } else if toks[j].token_type is RightBrace {
        Some((seq![], j + 1))
    } else {
        match pattern_at(toks, j) {
            Some((ps, b)) => if j < b && token_is(toks, b, TokenType::FatArrow) {
                match core_expression_at(toks, b + 1) {
                    Some((c, d)) => if b + 1 < d < toks.len() {
                        let next = if toks[d].token_type is Comma { d + 1 } else { d };
                        match core_match_arms(toks, next) {
                            Some((rest, m)) => Some((seq![(ps, c)] + rest, m)),
                            None => None,
                        }
                    } else {
                        None
                    },
                    None => None,
                }
            } else {
                None
            },
            None => None,
        }
    }
}

/// The match expression `match v { arms }` at `i`, and the index after it.
pub open spec fn core_match_at(toks: Seq<Token>, i: int) -> Option<(CoreExpr, int)>
    decreases toks.len() - i, 0int,
{
    if 0 <= i < toks.len() && toks[i].token_type == TokenType::Keyword(Keyword::Match) {
        match core_expression_at(toks, i + 1) {
            Some((v, a)) => if i + 1 < a && token_is(toks, a, TokenType::LeftBrace) {
                match core_match_arms(toks, a + 1) {
                    Some((arms, m)) => Some((CoreExpr::Match(Box::new(v), arms), m)),
                    None => None,
                }
            } else {
                None
            },
            None => None,
        }
    } else {
        None
    }
}

/// Whether a `)` closing the parenthesis opened before index `i` is
/// followed by `=>`, scanning from `i` at nesting depth `depth`.
pub open spec fn closes_into_fat_arrow(toks: Seq<Token>, i: int, depth: int) -> bool
    decreases toks.len() - i,
{
    if i >= toks.len() || i < 0 {
        false
    } else if toks[i].token_type is LeftParen {
        closes_into_fat_arrow(toks, i + 1, depth + 1)
    } else if toks[i].token_type is RightParen {
        if depth - 1 == 0 {
            i + 1 < toks.len() && toks[i + 1].token_type is FatArrow
        } else {
            closes_into_fat_arrow(toks, i + 1, depth - 1)
        }
    } else {
        closes_into_fat_arrow(toks, i + 1, depth)
    }
}

/// Lambda parameters start at `j`: an identifier followed by `:`, or by
/// `,` or `)` when the parenthesis closes into `=>`.
pub open spec fn lambda_params_ahead(toks: Seq<Token>, j: int) -> bool {
    &&& 0 <= j
    &&& j + 1 < toks.len()
    &&& toks[j].token_type is Identifier
    &&& {
        let next = toks[j + 1].token_type;
        ||| next is Colon
        ||| (next is Comma || next is RightParen) && closes_into_fat_arrow(toks, j + 1, 1)
    }
}

/// The parenthesized expression `( e )` at `i` (no lambda), and the index
/// after the `)`.
pub open spec fn core_paren_at(toks: Seq<Token>, i: int) -> Option<(CoreExpr, int)>
    decreases toks.len() - i, 0int,
{
    if 0 <= i && i + 1 < toks.len() && toks[i].token_type is LeftParen && !(toks[i + 1].token_type is RightParen)
        && !lambda_params_ahead(toks, i + 1) {
        match core_expression_at(toks, i + 1) {
            Some((c, k)) => if i + 1 < k && token_is(toks, k, TokenType::RightParen) { Some((c, k + 1)) } else { None },
            None => None,
        }
    } else {
        None
    }
}

/// A token that can start the end of a range.
pub open spec fn range_end_start(t: TokenType) -> bool {
    t is IntegerLiteral || t is FloatLiteral || t is Identifier || t is LeftParen || t is LeftBrace
}

/// The end of a range at `j`: an integer, a plain variable, a
/// parenthesized expression or a braced expression.
pub open spec fn core_range_operand_at(toks: Seq<Token>, j: int) -> Option<(CoreExpr, int)>
    decreases toks.len() - j, 2int,
{
    if j < 0 || j >= toks.len() {
        None
    } else {
        match toks[j].token_type {
            TokenType::IntegerLiteral(v) => Some((CoreExpr::Int(v), j + 1)),
            TokenType::Identifier(n) => Some((CoreExpr::Var(n@), j + 1)),
            TokenType::LeftParen => core_paren_at(toks, j),
            TokenType::LeftBrace => core_braced_at(toks, j),
            _ => None,
        }
    }
}

/// The range from its `..` or `..=` at `j` with the given start, and the
/// index after it; its end is read where a token that can start one
/// follows.
pub open spec fn core_range_rest(toks: Seq<Token>, j: int, start: Option<Box<CoreExpr>>) -> Option<(CoreExpr, int)>
    decreases toks.len() - j, 0int,
{
    if 0 <= j < toks.len() && (toks[j].token_type is DotDot || toks[j].token_type is DotDotEqual) {
        let inclusive = toks[j].token_type is DotDotEqual;
        if j + 1 < toks.len() && range_end_start(toks[j + 1].token_type) {
            match core_range_operand_at(toks, j + 1) {
                Some((e, k)) => Some((CoreExpr::Range(start, Some(Box::new(e)), inclusive), k)),
                None => None,
            }
        } else {
            Some((CoreExpr::Range(start, None, inclusive), j + 1))
        }
    } else {
        None
    }
}

/// The captures `[&[mut]] name, ... ]` of a capture list from `j` (a
/// trailing comma allowed), each with its mode, and the index after the
/// `]`.
pub open spec fn captures_from(toks: Seq<Token>, j: int) -> Option<(Seq<(Seq<char>, CaptureMode)>, int)>
    decreases toks.len() - j,
{
    if j < 0 || j >= toks.len() {
        None
    } else if toks[j].token_type is RightBracket {
        Some((seq![], j + 1))
    } else {
        let (mode, k) = if toks[j].token_type is Ampersand {
            if j + 1 < toks.len() && toks[j + 1].token_type == TokenType::Keyword(Keyword::Mut) {
                (CaptureMode::ByMutableReference, j + 2)
            } else {
                (CaptureMode::ByReference, j + 1)
            }
        } else {
            (CaptureMode::ByValue, j)
        };
        if k + 1 < toks.len() && toks[k].token_type is Identifier {
            let c = (toks[k].token_type->Identifier_0@, mode);
            if toks[k + 1].token_type is RightBracket {
                Some((seq![c], k + 2))
            } else if toks[k + 1].token_type is Comma {
                match captures_from(toks, k + 2) {
                    Some((rest, m)) => Some((seq![c] + rest, m)),
                    None => None,
                }
            } else {
                None
            }
        } else {
            None
        }
    }
}

/// The names and modes of captures.
pub open spec fn captures_view(cs: Seq<Capture>) -> Seq<(Seq<char>, CaptureMode)> {
    cs.map_values(|c: Capture| (c.name.name@, c.mode))
}

/// The parameters `name [: type] (, name [: type])*` of a lambda from `j`
/// (a parameter without a type is an `Int`), and the index after the last.
pub open spec fn lambda_params_from(toks: Seq<Token>, j: int, extended: bool) -> Option<(Seq<(Seq<char>, TypeShape)>, int)>
    decreases toks.len() - j,
{
    if 0 <= j && j + 1 < toks.len() && toks[j].token_type is Identifier {
        let typed = if toks[j + 1].token_type is Colon {
            match type_at(toks, j + 2, extended) {
                Some((t, k)) => if j + 2 < k < toks.len() { Some((t, k)) } else { None },
                None => None,
            }
        } else {
            Some((TypeShape::Primitive(PrimitiveType::Integer), j + 1))
        };
        match typed {
            Some((t, k)) => {
                let p = (toks[j].token_type->Identifier_0@, t);
                if toks[k].token_type is Comma {
                    match lambda_params_from(toks, k + 1, extended) {
                        Some((rest, m)) => Some((seq![p] + rest, m)),
                        None => None,
                    }
                } else {
                    Some((seq![p], k))
                }
            },
            None => None,
        }
    } else {
        None
    }
}

/// The names and type shapes of parameters.
pub open spec fn params_view(ps: Seq<Parameter>) -> Seq<(Seq<char>, TypeShape)> {
    ps.map_values(|p: Parameter| (p.name.name@, shape_of(*p.param_type)))
}

/// Parameters passed by value, with no intent and no constraint.
pub open spec fn params_plain(ps: Seq<Parameter>) -> bool {
    forall|k: int| 0 <= k < ps.len() ==> (#[trigger] ps[k]).passing_mode == PassingMode::ByValue
        && ps[k].intent is None && ps[k].constraint is None
}

/// What follows the parameters of a lambda, from `j`: an optional
/// `-> type`, `=>` and an expression body (not a block).
pub open spec fn core_lambda_rest(
    toks: Seq<Token>,
    j: int,
    cs: Seq<(Seq<char>, CaptureMode)>,
    ps: Seq<(Seq<char>, TypeShape)>,
) -> Option<(CoreExpr, int)>
    decreases toks.len() - j, 0int,
{
    let typed = if token_is(toks, j, TokenType::Arrow) {
        match type_at(toks, j + 1, false) {
            Some((t, k)) => if j + 1 < k { Some((Some(t), k)) } else { None },
            None => None,
        }
    } else {
        Some((None, j))
    };
    match typed {
        Some((rt, k)) => if j <= k && token_is(toks, k, TokenType::FatArrow) && !token_is(toks, k + 1, TokenType::LeftBrace) {
            match core_expression_at(toks, k + 1) {
                Some((b, m)) => Some((CoreExpr::Lambda(cs, ps, rt, Box::new(b)), m)),
                None => None,
            }
        } else {
            None
        },
        None => None,
    }
}

/// A `(` at `i` with the captures `cs` before it: a lambda `()` or
/// `(params)` and its rest, or, without captures, a parenthesized
/// expression.
pub open spec fn core_paren_or_lambda(toks: Seq<Token>, i: int, cs: Seq<(Seq<char>, CaptureMode)>) -> Option<(CoreExpr, int)>
    decreases toks.len() - i, 1int,
{
    if 0 <= i && i + 1 < toks.len() && toks[i].token_type is LeftParen {
        if toks[i + 1].token_type is RightParen {
            core_lambda_rest(toks, i + 2, cs, seq![])
        } else if lambda_params_ahead(toks, i + 1) {
            match lambda_params_from(toks, i + 1, false) {
                Some((ps, k)) => if i + 1 < k && token_is(toks, k, TokenType::RightParen) {
                    core_lambda_rest(toks, k + 1, cs, ps)
                } else {
                    None
                },
                None => None,
            }
        } else if cs.len() == 0 {
            core_paren_at(toks, i)
        } else {
            None
        }
    } else {
        None
    }
}

/// A capture list `[...]` at `i` followed by a lambda.
pub open spec fn core_capture_lambda_at(toks: Seq<Token>, i: int) -> Option<(CoreExpr, int)>
    decreases toks.len() - i, 0int,
{
    if 0 <= i < toks.len() && toks[i].token_type is LeftBracket {
        match captures_from(toks, i + 1) {
            Some((cs, k)) => if i < k < toks.len() { core_paren_or_lambda(toks, k, cs) } else { None },
            None => None,
        }
    } else {
        None
    }
}

/// An identifier `name` at `i` followed by `::` or by the `{` of a struct
/// construction: the enum variant `name::Variant[(values)]` or the struct
/// construction `name { fields }`, and the index after it.
pub open spec fn core_construction_at(toks: Seq<Token>, i: int) -> Option<(CoreExpr, int)>
    decreases toks.len() - i, 1int,
{
    if 0 <= i && i + 1 < toks.len() && toks[i].token_type is Identifier {
        let name = toks[i].token_type->Identifier_0@;
        if toks[i + 1].token_type is DoubleColon {
            if i + 2 < toks.len() && toks[i + 2].token_type is Identifier {
                let variant = toks[i + 2].token_type->Identifier_0@;
                if token_is(toks, i + 3, TokenType::LeftParen) {
                    if token_is(toks, i + 4, TokenType::RightParen) {
                        Some((CoreExpr::Variant(name, variant, seq![]), i + 5))
                    } else {
                        match core_variant_values(toks, i + 4) {
                            Some((vs, m)) => Some((CoreExpr::Variant(name, variant, vs), m)),
                            None => None,
                        }
                    }
                } else {
                    Some((CoreExpr::Variant(name, variant, seq![]), i + 3))
                }
            } else {
                None
            }
        } else if struct_fields_ahead(toks, i + 1) {
            match core_field_values_from(toks, i + 2) {
                Some((fs, m)) => Some((CoreExpr::Struct(name, fs), m)),
                None => None,
            }
        } else {
            None
        }
    } else {
        None
    }
}

/// The name of a variable expression.
pub open spec fn variable_name(e: Expression) -> Seq<char> {
    match e {
        Expression::Variable { name, .. } => name.name@,
        _ => seq![],
    }
}

/// `r` and the position `pos` after it are what `spec` reads, where it
/// reads something.
pub open spec fn parsed_as(r: Result<Expression, ParserError>, pos: int, spec: Option<(CoreExpr, int)>) -> bool {
    match spec {
        Some((c, j)) => r matches Ok(e) && denotes(e, c) && pos == j,
        None => true,
    }
}

/// The name of the `range` function.
pub open spec fn range_name() -> Seq<char> {
    seq!['r', 'a', 'n', 'g', 'e']
}

/// An identifier at index `i` starts a variable (with what follows it): the
/// token after it opens no enum path or struct construction.
pub open spec fn variable_head_at(toks: Seq<Token>, i: int) -> bool {
    &&& 0 <= i
    &&& i + 1 < toks.len()
    &&& toks[i].token_type is Identifier
    &&& !(toks[i + 1].token_type is DoubleColon)
    &&& !struct_fields_ahead(toks, i + 1)
}

/// The length of a call argument label at `j` that `label_mode` skips: an
/// identifier (with mode 1 also a keyword) and `:`; 0 without one, and
/// always with mode 0.
pub open spec fn label_len(toks: Seq<Token>, j: int, label_mode: u8) -> int {
    if label_mode != 0 && 0 <= j && j + 1 < toks.len() && toks[j + 1].token_type is Colon
        && (toks[j].token_type is Identifier || (label_mode == 1 && toks[j].token_type is Keyword)) {
        2
    } else {
        0
    }
}

/// Call arguments `e, e, ... )` from index `j` (just after the `(`), named
/// `arg_0`, `arg_1`, ..., and the index after the `)`.
pub open spec fn core_args_at(toks: Seq<Token>, j: int, label_mode: u8) -> Option<(Seq<(Seq<char>, CoreExpr)>, int)>
    decreases toks.len() - j, 5int,
{
    if token_is(toks, j, TokenType::RightParen) {
        Some((seq![], j + 1))
    } else if 0 <= j < toks.len() {
        match core_expression_at(toks, j + label_len(toks, j, label_mode)) {
            Some((c, k)) => if j < k <= toks.len() {
                match core_args_rest(toks, k, 1, label_mode) {
                    Some((rest, m)) => Some((seq![(spec_arg_name(0), c)] + rest, m)),
                    None => None,
                }
            } else {
                None
            },
            None => None,
        }
    } else {
        None
    }
}

/// Further call arguments `, e ... )` from index `j`, the next named
/// `arg_index`, and the index after the `)`.
pub open spec fn core_args_rest(toks: Seq<Token>, j: int, index: nat, label_mode: u8)
    -> Option<(Seq<(Seq<char>, CoreExpr)>, int)>
    decreases toks.len() - j, 5int,
{
    if token_is(toks, j, TokenType::Comma) {
        match core_expression_at(toks, j + 1 + label_len(toks, j + 1, label_mode)) {
            Some((c, k)) => if j < k <= toks.len() {
                match core_args_rest(toks, k, index + 1, label_mode) {
                    Some((rest, m)) => Some((seq![(spec_arg_name(index), c)] + rest, m)),
                    None => None,
                }
            } else {
                None
            },
            None => None,
        }
    } else if token_is(toks, j, TokenType::RightParen) {
        Some((seq![], j + 1))
    } else {
        None
    }
}

/// What follows a variable from index `j`: calls `(args)` (only on a
/// variable), and where `full`, index accesses `[e]` and member accesses
/// `.name` or `.name(args)`; `acc` is the expression read so far.
pub open spec fn core_postfix_from(toks: Seq<Token>, j: int, acc: CoreExpr, label_mode: u8, full: bool)
    -> Option<(CoreExpr, int)>
    decreases toks.len() - j, 0int,
{
    if token_is(toks, j, TokenType::LeftParen) {
        match acc {
            CoreExpr::Var(n) => match core_args_at(toks, j + 1, label_mode) {
                Some((args, k)) => if j < k <= toks.len() {
                    core_postfix_from(toks, k, CoreExpr::Call(n, args), label_mode, full)
                } else {
                    None
                },
                None => None,
            },
            _ => None,
        }
    } else if full && token_is(toks, j, TokenType::LeftBracket) {
        match core_expression_at(toks, j + 1) {
            Some((ix, k)) => if j < k < toks.len() && toks[k].token_type is RightBracket {
                core_postfix_from(toks, k + 1, CoreExpr::Index(Box::new(acc), Box::new(ix)), label_mode, full)
            } else {
                None
            },
            None => None,
        }
    } else if full && token_is(toks, j, TokenType::Dot) {
        if j + 1 < toks.len() && toks[j + 1].token_type is Identifier {
            let m = toks[j + 1].token_type->Identifier_0@;
            if token_is(toks, j + 2, TokenType::LeftParen) {
                match core_args_at(toks, j + 3, 0) {
                    Some((args, k)) => if j < k <= toks.len() {
                        core_postfix_from(toks, k, CoreExpr::Method(Box::new(acc), m, args), label_mode, full)
                    } else {
                        None
                    },
                    None => None,
                }
            } else {
                core_postfix_from(toks, j + 2, CoreExpr::Field(Box::new(acc), m), label_mode, full)
            }
        } else {
            None
        }
    } else {
        Some((acc, j))
    }
}

/// The braced expression `{a op b op ...}` at index `i` (a `{`), folded
/// from the left, and the index after its `}`.
pub open spec fn core_braced_at(toks: Seq<Token>, i: int) -> Option<(CoreExpr, int)>
    decreases toks.len() - i, 1int,
{
    if 0 <= i < toks.len() {
        match core_primary_at(toks, i + 1) {
            Some((c, j)) => if i + 1 < j <= toks.len() { core_fold_at(toks, j, c) } else { None },
            None => None,
        }
    } else {
        None
    }
}

/// The rest `op b op c ... }` of a braced expression from index `j`, with
/// `acc` the operand folded so far.
pub open spec fn core_fold_at(toks: Seq<Token>, j: int, acc: CoreExpr) -> Option<(CoreExpr, int)>
    decreases toks.len() - j, 0int,
{
    if j < 0 || j >= toks.len() {
        None
    } else if toks[j].token_type is RightBrace {
        Some((acc, j + 1))
    } else {
        match spec_binary_op(toks[j].token_type) {
            Some(op) => match core_primary_at(toks, j + 1) {
                Some((c, k)) => if j < k <= toks.len() {
                    core_fold_at(toks, k, CoreExpr::Binary(op, Box::new(acc), Box::new(c)))
                } else {
                    None
                },
                None => None,
            },
            None => None,
        }
    }
}

/// The core expression written at index `i` where a full expression is
/// read, and the index after it: as for an operand, except that `!`, `-`
/// and `^` take a full expression, `&` and `&mut` before a full expression
/// take its address, and `..`, `..=` or an integer followed by one of them
/// starts a range.
pub open spec fn core_expression_at(toks: Seq<Token>, i: int) -> Option<(CoreExpr, int)>
    decreases toks.len() - i, 4int,
{
    if i < 0 || i >= toks.len() {
        None
    } else if toks[i].token_type is LeftBrace {
        if map_literal_ahead(toks, i) { core_map_at(toks, i) } else { core_braced_at(toks, i) }
    } else if toks[i].token_type is Bang {
        match core_expression_at(toks, i + 1) {
            Some((c, j)) => Some((CoreExpr::Not(Box::new(c)), j)),
            None => None,
        }
    } else if toks[i].token_type is Minus {
        match core_expression_at(toks, i + 1) {
            Some((c, j)) => Some((CoreExpr::Neg(Box::new(c)), j)),
            None => None,
        }
    } else if toks[i].token_type is Ampersand {
        let mutable = i + 1 < toks.len() && toks[i + 1].token_type == TokenType::Keyword(Keyword::Mut);
        match core_expression_at(toks, if mutable { i + 2 } else { i + 1 }) {
            Some((c, j)) => Some((CoreExpr::AddrOf(mutable, Box::new(c)), j)),
            None => None,
        }
    } else if toks[i].token_type is Caret {
        core_expression_at(toks, i + 1)
    } else if toks[i].token_type is DotDot || toks[i].token_type is DotDotEqual {
        core_range_rest(toks, i, None)
    } else if literal_of(toks[i].token_type) is Some {
        if toks[i].token_type is IntegerLiteral && i + 1 < toks.len()
            && (toks[i + 1].token_type is DotDot || toks[i + 1].token_type is DotDotEqual) {
            core_range_rest(toks, i + 1, Some(Box::new(literal_of(toks[i].token_type)->0)))
        } else {
            Some((literal_of(toks[i].token_type)->0, i + 1))
        }
    } else if variable_head_at(toks, i) {
        core_postfix_from(toks, i + 1, CoreExpr::Var(toks[i].token_type->Identifier_0@), 1, true)
    } else if array_literal_ahead(toks, i) {
        match core_array_items(toks, i + 1) {
            Some((cs, m)) => Some((CoreExpr::Array(PrimitiveType::Integer, cs), m)),
            None => None,
        }
    } else if toks[i].token_type is LeftBracket {
        core_capture_lambda_at(toks, i)
    } else if toks[i].token_type is LeftParen {
        core_paren_or_lambda(toks, i, seq![])
    } else {
        core_construction_at(toks, i)
    }
}

/// What a pattern says, without its source locations.
pub enum PatternShape {
    Wildcard(Option<Seq<char>>),
    Variant(Option<Seq<char>>, Seq<char>, Seq<Seq<char>>, Option<Box<PatternShape>>),
    Struct(Seq<char>, Seq<(Seq<char>, PatternShape)>),
    Literal(CoreExpr),
}

/// The names of a sequence of identifiers.
pub open spec fn names_of(ids: Seq<Identifier>) -> Seq<Seq<char>> {
    Seq::new(ids.len(), |k: int| ids[k].name@)
}

/// The core expression of a literal pattern's value: integer, string and
/// boolean literals give theirs; any other expression the empty variable,
/// which no literal pattern is read as.
pub open spec fn literal_value_of(e: Expression) -> CoreExpr {
    match e {
        Expression::IntegerLiteral { value, .. } => CoreExpr::Int(value),
        Expression::StringLiteral { value, .. } => CoreExpr::Str(value),
        Expression::BooleanLiteral { value, .. } => CoreExpr::Bool(value),
        _ => CoreExpr::Var(seq![]),
    }
}

/// The shapes of a struct pattern's fields.
pub open spec fn field_shapes(fs: Seq<(Identifier, Pattern)>) -> Seq<(Seq<char>, PatternShape)>
    decreases fs,
{
    if fs.len() == 0 {
        seq![]
    } else {
        field_shapes(fs.drop_last()).push((fs.last().0.name@, pattern_shape(fs.last().1)))
    }
}

/// The shape of a pattern.
pub open spec fn pattern_shape(p: Pattern) -> PatternShape
    decreases p,
{
    match p {
        Pattern::Wildcard { binding, .. } => PatternShape::Wildcard(match binding {
            Some(b) => Some(b.name@),
            None => None,
        }),
        Pattern::EnumVariant { enum_name, variant_name, bindings, nested_pattern, .. } => PatternShape::Variant(
            match enum_name {
                Some(n) => Some(n.name@),
                None => None,
            },
            variant_name.name@,
            names_of(bindings@),
            match nested_pattern {
                Some(q) => Some(Box::new(pattern_shape(*q))),
                None => None,
            },
        ),
        Pattern::Struct { struct_name, fields, .. } => PatternShape::Struct(struct_name.name@, field_shapes(fields@)),
        Pattern::Literal { value, .. } => PatternShape::Literal(literal_value_of(*value)),
    }
}

/// The name that a binding token gives: an identifier its name, and `_`
/// itself where `wildcards` allows it.
pub open spec fn binding_item(t: TokenType, wildcards: bool) -> Option<Seq<char>> {
    if wildcards && t is Underscore {
        Some(seq!['_'])
    } else if t is Identifier {
        Some(t->Identifier_0@)
    } else {
        None
    }
}

/// The bindings `b, b, ... )` from index `j` (after a `(`), and the index
/// after the `)`.
pub open spec fn binding_items_at(toks: Seq<Token>, j: int, wildcards: bool) -> Option<(Seq<Seq<char>>, int)>
    decreases toks.len() - j,
{
    if 0 <= j && j + 1 < toks.len() {
        match binding_item(toks[j].token_type, wildcards) {
            Some(n) => if toks[j + 1].token_type is Comma {
                match binding_items_at(toks, j + 2, wildcards) {
                    Some((rest, k)) => Some((seq![n] + rest, k)),
                    None => None,
                }
            } else if toks[j + 1].token_type is RightParen {
                Some((seq![n], j + 2))
            } else {
                None
            },
            None => None,
        }
    } else {
        None
    }
}

/// The parenthesized bindings `( ... )` at index `i`, and the index after
/// them.
pub open spec fn bindings_at(toks: Seq<Token>, i: int, wildcards: bool) -> Option<(Seq<Seq<char>>, int)> {
    if 0 <= i && i + 1 < toks.len() && toks[i].token_type is LeftParen {
        if toks[i + 1].token_type is RightParen {
            Some((seq![], i + 2))
        } else {
            binding_items_at(toks, i + 1, wildcards)
        }
    } else {
        None
    }
}

/// The fields `name [: pattern], ... }` of a struct pattern from index
/// `j`, and the index after the `}`. A field without a pattern binds its
/// own name.
pub open spec fn field_items_at(toks: Seq<Token>, j: int) -> Option<(Seq<(Seq<char>, PatternShape)>, int)>
    decreases toks.len() - j, 0int,
{
    if j < 0 || j + 1 >= toks.len() {
        None
    } else if toks[j].token_type is RightBrace {
        Some((seq![], j + 1))
    } else if toks[j].token_type is Identifier {
        let name = toks[j].token_type->Identifier_0@;
        let field = if toks[j + 1].token_type is Colon {
            match pattern_at(toks, j + 2) {
                Some((p, k)) => if j + 2 < k <= toks.len() { Some((p, k)) } else { None },
                None => None,
            }
        } else {
            Some((PatternShape::Wildcard(Some(name)), j + 1))
        };
        match field {
            Some((p, k)) => if 0 <= k < toks.len() && toks[k].token_type is Comma {
                match field_items_at(toks, k + 1) {
                    Some((rest, m)) => Some((seq![(name, p)] + rest, m)),
                    None => None,
                }
            } else if 0 <= k < toks.len() && toks[k].token_type is RightBrace {
                Some((seq![(name, p)], k + 1))
            } else {
                None
            },
            None => None,
        }
    } else {
        None
    }
}

/// The pattern written at index `i` and the index after it, if a pattern
/// is written there: `_`, a binding, `Enum::Variant` with optional
/// bindings (which may be `_`), `Variant(bindings)`, `Variant binding`,
/// `Struct { field [: pattern], ... }`, or an integer, string or boolean
/// literal.
pub open spec fn pattern_at(toks: Seq<Token>, i: int) -> Option<(PatternShape, int)>
    decreases toks.len() - i, 1int,
{
    if i < 0 || i + 1 >= toks.len() {
        None
    } else {
        match toks[i].token_type {
            TokenType::Underscore => Some((PatternShape::Wildcard(None), i + 1)),
            TokenType::Identifier(name) => {
                let next = toks[i + 1].token_type;
                if next is DoubleColon {
                    if i + 3 < toks.len() && toks[i + 2].token_type is Identifier {
                        let variant = toks[i + 2].token_type->Identifier_0@;
                        if toks[i + 3].token_type is LeftParen {
                            match bindings_at(toks, i + 3, true) {
                                Some((bs, k)) => Some((PatternShape::Variant(Some(name@), variant, bs, None), k)),
                                None => None,
                            }
                        } else {
                            Some((PatternShape::Variant(Some(name@), variant, seq![], None), i + 3))
                        }
                    } else {
                        None
                    }
                } else if next is LeftBrace {
                    match field_items_at(toks, i + 2) {
                        Some((fs, k)) => Some((PatternShape::Struct(name@, fs), k)),
                        None => None,
                    }
                } else if next is LeftParen {
                    match bindings_at(toks, i + 1, false) {
                        Some((bs, k)) => Some((PatternShape::Variant(None, name@, bs, None), k)),
                        None => None,
                    }
                } else if next is Identifier {
                    Some((PatternShape::Variant(None, name@, seq![next->Identifier_0@], None), i + 2))
                } else {
                    Some((PatternShape::Wildcard(Some(name@)), i + 1))
                }
            },
            TokenType::IntegerLiteral(v) => Some((PatternShape::Literal(CoreExpr::Int(v)), i + 1)),
            TokenType::StringLiteral(v) => Some((PatternShape::Literal(CoreExpr::Str(v)), i + 1)),
            TokenType::BoolLiteral(v) => Some((PatternShape::Literal(CoreExpr::Bool(v)), i + 1)),
            _ => None,
        }
    }
}

/// The name given to the `i`-th argument of a call: `arg_` and `i` in decimal.
pub open spec fn spec_arg_name(i: nat) -> Seq<char> {
    seq!['a', 'r', 'g', '_'] + spec_decimal(i)
}

/// The name of the `i`-th argument of a call.
pub fn arg_name(i: usize) -> (s: String)
    ensures
        s@ == spec_arg_name(i as nat),
{
    let mut v: Vec<char> = Vec::new();
    v.push('a');
    v.push('r');
    v.push('g');
    v.push('_');
    push_decimal(&mut v, i as u64);
    assert(v@ =~= spec_arg_name(i as nat));
    string_of(&v)
}

/// A placeholder type at `location`.
pub fn placeholder_type(primitive_type: PrimitiveType, location: &SourceLocation) -> (t: TypeSpecifier)
    ensures
        t matches TypeSpecifier::Primitive { primitive_type: p, source_location } && p == primitive_type
            && source_location == *location,
{
    TypeSpecifier::Primitive { primitive_type, source_location: location.duplicate() }
}

impl Parser {
    /// Builds the binary expression of `op` over `left` and `right`.
    pub fn build_binary_expression(
        &self,
        left: Expression,
        op: BinaryOp,
        right: Expression,
        source_location: SourceLocation,
    ) -> (e: Expression)
        ensures
            is_binary(op, left, right, e),
            binary_location(e) == source_location,
    {
        match op {
            BinaryOp::Add => Expression::Add { left: Box::new(left), right: Box::new(right), source_location },
            BinaryOp::Subtract => Expression::Subtract { left: Box::new(left), right: Box::new(right), source_location },
            BinaryOp::Multiply => Expression::Multiply { left: Box::new(left), right: Box::new(right), source_location },
            BinaryOp::Divide => Expression::Divide { left: Box::new(left), right: Box::new(right), source_location },
            BinaryOp::Modulo => Expression::Modulo { left: Box::new(left), right: Box::new(right), source_location },
            BinaryOp::Equals => Expression::Equals { left: Box::new(left), right: Box::new(right), source_location },
            BinaryOp::NotEquals => Expression::NotEquals { left: Box::new(left), right: Box::new(right), source_location },
            BinaryOp::LessThan => Expression::LessThan { left: Box::new(left), right: Box::new(right), source_location },
            BinaryOp::LessEqual => Expression::LessThanOrEqual { left: Box::new(left), right: Box::new(right), source_location },
            BinaryOp::GreaterThan => Expression::GreaterThan { left: Box::new(left), right: Box::new(right), source_location },
            BinaryOp::GreaterEqual => Expression::GreaterThanOrEqual {
                left: Box::new(left),
                right: Box::new(right),
                source_location,
            },
            BinaryOp::And => {
                let ghost (l, r) = (left, right);
                let mut operands: Vec<Expression> = Vec::new();
                operands.push(left);
                operands.push(right);
                assert(operands@ =~= seq![l, r]);
                Expression::LogicalAnd { operands, source_location }
            },
            BinaryOp::Or => {
                let ghost (l, r) = (left, right);
                let mut operands: Vec<Expression> = Vec::new();
                operands.push(left);
                operands.push(right);
                assert(operands@ =~= seq![l, r]);
                Expression::LogicalOr { operands, source_location }
            },
        }
    }

    /// Parses one binary operator token.
    #[verifier::spinoff_prover]
    #[verifier::rlimit(100)]
    pub fn parse_binary_operator(&mut self) -> (r: Result<BinaryOp, ParserError>)
        requires
            old(self).wf(),
        ensures
            final(self).moved_from(*old(self)),
            r is Ok <==> spec_binary_op(old(self).cur()) is Some,
            r matches Ok(op) ==> spec_binary_op(old(self).cur()) == Some(op) && final(self).pos() == old(self).pos() + 1,
            r is Err ==> final(self).pos() == old(self).pos(),
    {
        let op = match &self.peek().token_type {
            TokenType::Plus => BinaryOp::Add,
            TokenType::Minus => BinaryOp::Subtract,
            TokenType::Star => BinaryOp::Multiply,
            TokenType::Slash => BinaryOp::Divide,
            TokenType::Percent => BinaryOp::Modulo,
            TokenType::EqualEqual => BinaryOp::Equals,
            TokenType::BangEqual => BinaryOp::NotEquals,
            TokenType::Less => BinaryOp::LessThan,
            TokenType::LessEqual => BinaryOp::LessEqual,
            TokenType::Greater => BinaryOp::GreaterThan,
            TokenType::GreaterEqual => BinaryOp::GreaterEqual,
            TokenType::AmpAmp => BinaryOp::And,
            TokenType::PipePipe => BinaryOp::Or,
            _ => {
                return Err(self.unexpected("binary operator"));
            },
        };
        self.advance();
        Ok(op)
    }

    /// Skips an argument label (`label:`) if one starts at the current
    /// token; `mode` 1 takes identifiers and keywords as labels, 2 only
    /// identifiers, 0 none.
    fn skip_argument_label(&mut self, mode: u8)
        requires
            old(self).wf(),
        ensures
            final(self).moved_from(*old(self)),
            final(self).pos() == old(self).pos() + label_len(old(self).toks(), old(self).pos(), mode),
    {
        if mode == 0 {
            return;
        }
        let labeled = match &self.peek().token_type {
            TokenType::Identifier(_) => match self.peek_next() {
                Some(t) => matches!(t.token_type, TokenType::Colon),
                None => false,
            },
            TokenType::Keyword(_) => mode == 1 && match self.peek_next() {
                Some(t) => matches!(t.token_type, TokenType::Colon),
                None => false,
            },
            _ => false,
        };
        if labeled {
            self.advance();
            self.advance();
        }
    }

    /// Parses call arguments after the opening parenthesis, up to and
    /// including the closing one. Arguments are named `arg_0`, `arg_1`, ...
    #[verifier::spinoff_prover]
    #[verifier::rlimit(100)]
    pub fn parse_call_arguments(
        &mut self,
        label_mode: u8,
        close_message: &str,
        location: &SourceLocation,
    ) -> (r: Result<Vec<Argument>, ParserError>)
        requires
            old(self).wf(),
        ensures
            final(self).moved_from(*old(self)),
            r is Ok ==> final(self).pos() > old(self).pos(),
            r is Ok ==> final(self).kind_at(final(self).pos() - 1) is RightParen,
            r matches Ok(args) ==> forall|i: int| 0 <= i < args@.len() ==>
                (#[trigger] args@[i]).parameter_name.name@ == spec_arg_name(i as nat),
            core_args_at(old(self).toks(), old(self).pos(), label_mode) matches Some((cs, j))
                ==> r matches Ok(args) && args_denote(args@, cs) && final(self).pos() == j,
        decreases old(self).toks().len() - old(self).pos(), 17nat,
    {
        let ghost toks = old(self).toks();
        let ghost p0 = old(self).pos();
        let mut arguments: Vec<Argument> = Vec::new();
        let ghost mut acc: Seq<(Seq<char>, CoreExpr)> = seq![];
        if !self.check(&TokenType::RightParen) {
            self.skip_argument_label(label_mode);
            let ghost c0 = core_expression_at(toks, self.pos())->Some_0.0;
            let value = self.parse_expression()?;
            let argument = Argument {
                parameter_name: Identifier::new(arg_name(0), location.duplicate()),
                value: Box::new(value),
                source_location: location.duplicate(),
            };
            let ghost ag = argument;
            arguments.push(argument);
            proof {
                if core_args_at(toks, p0, label_mode) is Some {
                    lemma_args_denote_push(Seq::empty(), acc, ag, (spec_arg_name(0), c0));
                    assert(arguments@ == Seq::<Argument>::empty().push(ag));
                    match core_args_rest(toks, self.pos(), 1, label_mode) {
                        Some((rest, m)) => {
                            assert(acc.push((spec_arg_name(0), c0)) + rest =~= seq![(spec_arg_name(0), c0)] + rest);
                        },
                        None => {},
                    }
                }
                acc = acc.push((spec_arg_name(0), c0));
            }
            while self.check(&TokenType::Comma)
                invariant
                    self.moved_from(*old(self)),
                    self.pos() > old(self).pos(),
                    forall|i: int| 0 <= i < arguments@.len() ==>
                        (#[trigger] arguments@[i]).parameter_name.name@ == spec_arg_name(i as nat),
                    toks == self.toks(),
                    p0 == old(self).pos(),
                    acc.len() == arguments@.len(),
                    acc + Seq::<(Seq<char>, CoreExpr)>::empty() == acc,
                    core_args_at(toks, p0, label_mode) is Some ==> {
                        &&& core_args_at(toks, p0, label_mode) == match core_args_rest(
                            toks,
                            self.pos(),
                            arguments@.len() as nat,
                            label_mode,
                        ) {
                            Some((rest, m)) => Some((acc + rest, m)),
                            None => None,
                        }
                        &&& args_denote(arguments@, acc)
                    },
                decreases self.toks().len() - self.pos(),
            {
                let ghost p = self.pos();
                self.advance();
                self.skip_argument_label(label_mode);
                let ghost c = core_expression_at(toks, self.pos())->Some_0.0;
                let value = self.parse_expression()?;
                let index = arguments.len();
                let argument = Argument {
                    parameter_name: Identifier::new(arg_name(index), location.duplicate()),
                    value: Box::new(value),
                    source_location: location.duplicate(),
                };
                let ghost ag = argument;
                let ghost before = arguments@;
                arguments.push(argument);
                proof {
                    if core_args_at(toks, p0, label_mode) is Some {
                        lemma_args_denote_push(before, acc, ag, (spec_arg_name(index as nat), c));
                        match core_args_rest(toks, self.pos(), (index + 1) as nat, label_mode) {
                            Some((rest, m)) => {
                                assert(acc + (seq![(spec_arg_name(index as nat), c)] + rest)
                                    =~= acc.push((spec_arg_name(index as nat), c)) + rest);
                            },
                            None => {},
                        }
                    }
                    acc = acc.push((spec_arg_name(index as nat), c));
                }
            }
        }
        self.expect(&TokenType::RightParen, close_message)?;
        Ok(arguments)
    }

    /// Parses the calls, index accesses and member accesses that follow a
    /// variable. With `full` false only calls are taken.
    #[verifier::spinoff_prover]
    #[verifier::rlimit(100)]
    pub fn parse_postfix(
        &mut self,
        initial: Expression,
        label_mode: u8,
        full: bool,
        start_location: &SourceLocation,
    ) -> (r: Result<Expression, ParserError>)
        requires
            old(self).wf(),
            postfix_family(initial),
        ensures
            final(self).moved_from(*old(self)),
            r matches Ok(e) ==> postfix_family(e),
            r matches Ok(e) ==> (!full && initial is Variable ==> e is Variable || e is FunctionCall),
            initial is Variable ==> parsed_as(
                r,
                final(self).pos(),
                core_postfix_from(old(self).toks(), old(self).pos(), CoreExpr::Var(variable_name(initial)), label_mode, full),
            ),
        decreases old(self).toks().len() - old(self).pos(), 14nat,
    {
        let ghost was_variable = initial is Variable;
        let ghost toks = old(self).toks();
        let ghost p0 = old(self).pos();
        let ghost c0 = CoreExpr::Var(variable_name(initial));
        let ghost mut acc: CoreExpr = c0;
        let ghost core = was_variable && core_postfix_from(toks, p0, c0, label_mode, full) is Some;
        let mut expr = initial;
        loop
            invariant
                self.moved_from(*old(self)),
                toks == self.toks(),
                p0 == old(self).pos(),
                c0 == CoreExpr::Var(variable_name(initial)),
                core == (was_variable && core_postfix_from(toks, p0, c0, label_mode, full) is Some),
                core ==> core_postfix_from(toks, p0, c0, label_mode, full)
                    == core_postfix_from(toks, self.pos(), acc, label_mode, full) && denotes(expr, acc),
                postfix_family(expr),
                was_variable == (initial is Variable),
                !full && was_variable ==> expr is Variable || expr is FunctionCall,
            decreases self.toks().len() - self.pos(),
        {
            let ghost p = self.pos();
            if self.check(&TokenType::LeftParen) {
                self.advance();
                let arguments = self.parse_call_arguments(label_mode, "expected ')'", start_location)?;
                let function_name = match &expr {
                    Expression::Variable { name, .. } => name.duplicate(),
                    _ => {
                        return Err(ParserError::UnexpectedToken {
                            expected: String::from_str("function name"),
                            found: String::from_str("complex expression"),
                            location: start_location.duplicate(),
                        });
                    },
                };
                expr = Expression::FunctionCall {
                    call: FunctionCall {
                        function_reference: FunctionReference::Local { name: function_name },
                        arguments,
                        variadic_arguments: Vec::new(),
                    },
                    source_location: start_location.duplicate(),
                };
                proof {
                    if core {
                        acc = CoreExpr::Call(acc->Var_0, core_args_at(toks, p + 1, label_mode)->Some_0.0);
                    }
                }
            } else if full && self.check(&TokenType::LeftBracket) {
                self.advance();
                let index = self.parse_expression()?;
                self.expect(&TokenType::RightBracket, "expected ']'")?;
                expr = Expression::ArrayAccess {
                    array: Box::new(expr),
                    index: Box::new(index),
                    source_location: start_location.duplicate(),
                };
                proof {
                    if core {
                        acc = CoreExpr::Index(Box::new(acc), Box::new(core_expression_at(toks, p + 1)->Some_0.0));
                    }
                }
            } else if full && self.check(&TokenType::Dot) {
                self.advance();
                let member = match &self.peek().token_type {
                    TokenType::Identifier(member_name) => Some(member_name.clone()),
                    _ => None,
                };
                match member {
                    Some(member_name) => {
                        let member_loc = self.current_location();
                        self.advance();
                        if self.check(&TokenType::LeftParen) {
                            self.advance();
                            let arguments = self.parse_call_arguments(
                                0,
                                "expected ')' after method arguments",
                                start_location,
                            )?;
                            expr = Expression::MethodCall {
                                receiver: Box::new(expr),
                                method_name: Identifier::new(member_name, member_loc),
                                arguments,
                                source_location: start_location.duplicate(),
                            };
                            proof {
                                if core {
                                    acc = CoreExpr::Method(
                                        Box::new(acc),
                                        toks[p + 1].token_type->Identifier_0@,
                                        core_args_at(toks, p + 3, 0)->Some_0.0,
                                    );
                                }
                            }
                        } else {
                            expr = Expression::FieldAccess {
                                instance: Box::new(expr),
                                field_name: Identifier::new(member_name, member_loc),
                                source_location: start_location.duplicate(),
                            };
                            proof {
                                if core {
                                    acc = CoreExpr::Field(Box::new(acc), toks[p + 1].token_type->Identifier_0@);
                                }
                            }
                        }
                    },
                    None => {
                        return Err(self.unexpected("field name or method name"));
                    },
                }
            } else {
                return Ok(expr);
            }
        }
    }

    /// Parses an expression: a braced binary expression or map literal,
    /// `!e`, `-e`, `&e`, `&mut e`, `^e`, a prefix range, a literal (an
    /// integer may start a range), a variable with calls, indexing and
    /// member accesses, an enum variant `E::V(...)`, a struct construction,
    /// an array literal, a lambda with a capture list, or a parenthesized
    /// expression or lambda.
    #[verifier::spinoff_prover]
    #[verifier::rlimit(100)]
    pub fn parse_expression(&mut self) -> (r: Result<Expression, ParserError>)
        requires
            old(self).wf(),
        ensures
            final(self).moved_from(*old(self)),
            r is Ok ==> final(self).pos() > old(self).pos(),
            r matches Ok(e) ==> expr_head(old(self).cur(), e),
            core_expression_at(old(self).toks(), old(self).pos()) matches Some((c, j))
                ==> r matches Ok(e) && denotes(e, c) && final(self).pos() == j,
        decreases old(self).toks().len() - old(self).pos(), 16nat,
    {
        let start_location = self.current_location();
        proof {
            let i = old(self).pos();
            let toks = old(self).toks();
            assert(toks[i].token_type is Identifier || core_construction_at(toks, i) is None);
        }

        if self.check(&TokenType::LeftBrace) {
            if self.looks_like_map_literal() {
                return self.parse_map_literal();
            }
            return self.parse_braced_expression();
        }
        if self.check(&TokenType::Bang) {
            self.advance();
            let operand = self.parse_expression()?;
            return Ok(Expression::LogicalNot { operand: Box::new(operand), source_location: start_location });
        }
        if self.check(&TokenType::Minus) {
            self.advance();
            let operand = self.parse_expression()?;
            return Ok(Expression::Negate { operand: Box::new(operand), source_location: start_location });
        }
        if self.check(&TokenType::Ampersand) {
            self.advance();
            let is_mut = if self.check_keyword(Keyword::Mut) {
                self.advance();
                true
            } else {
                false
            };
            let operand = self.parse_expression()?;
            return Ok(Expression::AddressOf {
                operand: Box::new(operand),
                mutability: is_mut,
                source_location: start_location,
            });
        }
        if self.check(&TokenType::Caret) {
            // `^e` marks a move; the operand itself is the expression.
            self.advance();
            let operand = self.parse_expression()?;
            return Ok(operand);
        }
        if self.check(&TokenType::DotDot) || self.check(&TokenType::DotDotEqual) {
            return self.parse_range_expression(None, start_location);
        }

        let literal = match &self.peek().token_type {
            TokenType::IntegerLiteral(value) => Some(Expression::IntegerLiteral {
                value: *value,
                source_location: start_location.duplicate(),
            }),
            TokenType::FloatLiteral(value) => Some(Expression::FloatLiteral {
                value: value.clone(),
                source_location: start_location.duplicate(),
            }),
            TokenType::StringLiteral(value) => Some(Expression::StringLiteral {
                value: value.clone(),
                source_location: start_location.duplicate(),
            }),
            TokenType::CharLiteral(value) => Some(Expression::CharacterLiteral {
                value: *value,
                source_location: start_location.duplicate(),
            }),
            TokenType::BoolLiteral(value) => Some(Expression::BooleanLiteral {
                value: *value,
                source_location: start_location.duplicate(),
            }),
            _ => None,
        };
        if let Some(expr) = literal {
            let is_integer = matches!(expr, Expression::IntegerLiteral { .. });
            self.advance();
            if is_integer && (self.check(&TokenType::DotDot) || self.check(&TokenType::DotDotEqual)) {
                proof {
                    assert(denotes(expr, literal_of(old(self).cur())->0));
                }
                return self.parse_range_expression(Some(expr), start_location);
            }
            return Ok(expr);
        }

        let ident = match &self.peek().token_type {
            TokenType::Identifier(name) => Some(name.clone()),
            _ => None,
        };
        if let Some(name) = ident {
            self.advance();
            if self.check(&TokenType::DoubleColon) {
                return self.parse_enum_variant_expression(name, start_location);
            }
            if self.check(&TokenType::LeftBrace) && self.looks_like_struct_construction() {
                return self.parse_struct_construction(name, start_location);
            }
            let expr = Expression::Variable {
                name: Identifier::new(name, start_location.duplicate()),
                source_location: start_location.duplicate(),
            };
            return self.parse_postfix(expr, 1, true, &start_location);
        }

        if self.check(&TokenType::LeftBracket) {
            if self.looks_like_array_literal() {
                return self.parse_array_literal();
            }
            proof {
                let toks = old(self).toks();
                let i = old(self).pos();
                assert(core_capture_lambda_at(toks, i) == match captures_from(toks, i + 1) {
                    Some((cs, k)) => if i < k < toks.len() { core_paren_or_lambda(toks, k, cs) } else { None },
                    None => None,
                });
            }
            let captures = self.parse_capture_list()?;
            if !self.check(&TokenType::LeftParen) {
                return Err(ParserError::SyntaxError {
                    message: String::from_str("expected '(' after capture list"),
                    location: self.current_location(),
                    suggestion: Some(String::from_str("use [captures](params) => body syntax")),
                });
            }
            return self.parse_paren_expr_or_lambda_with_captures(captures);
        }
        if self.check(&TokenType::LeftParen) {
            return self.parse_paren_expr_or_lambda();
        }
        Err(self.unexpected("expression"))
    }

    /// Parses a braced expression `{a op b op c ...}`, folding the operators
    /// from the left; `{a}` is `a` itself.
    #[verifier::spinoff_prover]
    #[verifier::rlimit(100)]
    pub fn parse_braced_expression(&mut self) -> (r: Result<Expression, ParserError>)
        requires
            old(self).wf(),
        ensures
            final(self).moved_from(*old(self)),
            r is Ok ==> final(self).pos() > old(self).pos(),
            r is Ok ==> old(self).cur() is LeftBrace && final(self).kind_at(final(self).pos() - 1) is RightBrace,
            old(self).cur() is LeftBrace ==> (core_braced_at(old(self).toks(), old(self).pos()) matches Some((c, j))
                ==> r matches Ok(e) && denotes(e, c) && final(self).pos() == j),
        decreases old(self).toks().len() - old(self).pos(), 12nat,
    {
        let ghost toks = old(self).toks();
        let ghost i0 = old(self).pos();
        let start_location = self.current_location();
        self.expect(&TokenType::LeftBrace, "expected '{'")?;
        let mut left = self.parse_primary_expression()?;
        let ghost mut acc: CoreExpr = CoreExpr::Int(0);
        proof {
            if core_braced_at(toks, i0) is Some {
                acc = core_primary_at(toks, i0 + 1)->Some_0.0;
            }
        }
        while !self.check(&TokenType::RightBrace) && !self.is_at_end()
            invariant
                self.moved_from(*old(self)),
                self.pos() > old(self).pos(),
                old(self).cur() is LeftBrace,
                toks == self.toks(),
                i0 == old(self).pos(),
                core_braced_at(toks, i0) is Some ==> core_fold_at(toks, self.pos(), acc) == core_braced_at(toks, i0)
                    && denotes(left, acc),
            decreases self.toks().len() - self.pos(),
        {
            let ghost p = self.pos();
            let operator = self.parse_binary_operator()?;
            let right = self.parse_primary_expression()?;
            let ghost l = left;
            left = self.build_binary_expression(left, operator, right, start_location.duplicate());
            proof {
                if core_braced_at(toks, i0) is Some {
                    let c = core_primary_at(toks, p + 1)->Some_0.0;
                    let new_acc = CoreExpr::Binary(operator, Box::new(acc), Box::new(c));
                    assert(seq![l, right][0] == l && seq![l, right][1] == right);
                    assert(denotes(left, new_acc));
                    acc = new_acc;
                }
            }
        }
        self.expect(&TokenType::RightBrace, "expected '}' after binary expression")?;
        Ok(left)
    }

    /// Parses an operand of a braced expression: a map literal or braced
    /// expression, `!e`, `-e`, a literal, `range(...)`, a variable with calls,
    /// indexing and member accesses, an enum variant, a struct construction,
    /// a match expression, or a parenthesized expression or lambda.
    #[verifier::spinoff_prover]
    #[verifier::rlimit(100)]
    pub fn parse_primary_expression(&mut self) -> (r: Result<Expression, ParserError>)
        requires
            old(self).wf(),
        ensures
            final(self).moved_from(*old(self)),
            r is Ok ==> final(self).pos() > old(self).pos(),
            r matches Ok(e) ==> primary_head(old(self).cur(), e),
            core_primary_at(old(self).toks(), old(self).pos()) matches Some((c, j))
                ==> r matches Ok(e) && denotes(e, c) && final(self).pos() == j,
        decreases old(self).toks().len() - old(self).pos(), 16nat,
    {
        let start_location = self.current_location();
        proof {
            let i = old(self).pos();
            let toks = old(self).toks();
            assert(toks[i].token_type is Identifier || core_construction_at(toks, i) is None);
        }

        if self.check(&TokenType::LeftBrace) {
            if self.looks_like_map_literal() {
                return self.parse_map_literal();
            }
            return self.parse_braced_expression();
        }
        if self.check(&TokenType::Bang) {
            self.advance();
            let operand = self.parse_primary_expression()?;
            return Ok(Expression::LogicalNot { operand: Box::new(operand), source_location: start_location });
        }
        if self.check(&TokenType::Minus) {
            self.advance();
            let operand = self.parse_primary_expression()?;
            return Ok(Expression::Negate { operand: Box::new(operand), source_location: start_location });
        }

        let literal = match &self.peek().token_type {
            TokenType::IntegerLiteral(value) => Some(Expression::IntegerLiteral {
                value: *value,
                source_location: start_location.duplicate(),
            }),
            TokenType::FloatLiteral(value) => Some(Expression::FloatLiteral {
                value: value.clone(),
                source_location: start_location.duplicate(),
            }),
            TokenType::StringLiteral(value) => Some(Expression::StringLiteral {
                value: value.clone(),
                source_location: start_location.duplicate(),
            }),
            TokenType::CharLiteral(value) => Some(Expression::CharacterLiteral {
                value: *value,
                source_location: start_location.duplicate(),
            }),
            TokenType::BoolLiteral(value) => Some(Expression::BooleanLiteral {
                value: *value,
                source_location: start_location.duplicate(),
            }),
            _ => None,
        };
        if let Some(expr) = literal {
            self.advance();
            return Ok(expr);
        }

        if self.check_keyword(Keyword::Range) {
            // `range` is a keyword but may be called like a function.
            self.advance();
            let range = Identifier::new(String::from_str("range"), start_location.duplicate());
            proof {
                reveal_strlit("range");
                assert(range.name@ == range_name());
            }
            let expr = Expression::Variable { name: range, source_location: start_location.duplicate() };
            return self.parse_postfix(expr, 2, false, &start_location);
        }

        let ident = match &self.peek().token_type {
            TokenType::Identifier(name) => Some(name.clone()),
            _ => None,
        };
        if let Some(name) = ident {
            self.advance();
            if self.check(&TokenType::DoubleColon) {
                return self.parse_enum_variant_expression(name, start_location);
            }
            if self.check(&TokenType::LeftBrace) && self.looks_like_struct_construction() {
                return self.parse_struct_construction(name, start_location);
            }
            let expr = Expression::Variable {
                name: Identifier::new(name, start_location.duplicate()),
                source_location: start_location.duplicate(),
            };
            return self.parse_postfix(expr, 0, true, &start_location);
        }

        if self.check_keyword(Keyword::Match) {
            return self.parse_match_expression();
        }
        if self.check(&TokenType::LeftParen) {
            return self.parse_paren_expr_or_lambda();
        }
        Err(self.unexpected("primary expression"))
    }

    /// Parses a parenthesized expression or a lambda without captures.
    #[verifier::spinoff_prover]
    #[verifier::rlimit(100)]
    pub fn parse_paren_expr_or_lambda(&mut self) -> (r: Result<Expression, ParserError>)
        requires
            old(self).wf(),
        ensures
            final(self).moved_from(*old(self)),
            r is Ok ==> final(self).pos() > old(self).pos() && old(self).cur() is LeftParen,
            core_paren_or_lambda(old(self).toks(), old(self).pos(), seq![]) matches Some((c, m))
                ==> r matches Ok(e) && denotes(e, c) && final(self).pos() == m,
        decreases old(self).toks().len() - old(self).pos(), 11nat,
    {
        let captures: Vec<Capture> = Vec::new();
        proof {
            assert(captures_view(captures@) =~= Seq::<(Seq<char>, CaptureMode)>::empty());
        }
        self.parse_paren_expr_or_lambda_with_captures(captures)
    }

    /// Parses `( expr )`, or a lambda `(params) [-> type] => body` with the
    /// given captures. Captures before something that is not a lambda are
    /// an error.
    #[verifier::spinoff_prover]
    #[verifier::rlimit(100)]
    pub fn parse_paren_expr_or_lambda_with_captures(
        &mut self,
        captures: Vec<Capture>,
    ) -> (r: Result<Expression, ParserError>)
        requires
            old(self).wf(),
        ensures
            final(self).moved_from(*old(self)),
            r is Ok ==> final(self).pos() > old(self).pos() && old(self).cur() is LeftParen,
            r is Ok && captures@.len() > 0 ==> r->Ok_0 is Lambda,
            core_paren_or_lambda(old(self).toks(), old(self).pos(), captures_view(captures@)) matches Some((c, m))
                ==> r matches Ok(e) && denotes(e, c) && final(self).pos() == m,
        decreases old(self).toks().len() - old(self).pos(), 10nat,
    {
        let start_location = self.current_location();
        self.expect(&TokenType::LeftParen, "expected '('")?;

        if self.check(&TokenType::RightParen) {
            self.advance();
            let no_params: Vec<Parameter> = Vec::new();
            proof {
                assert(params_view(no_params@) =~= Seq::<(Seq<char>, TypeShape)>::empty());
            }
            return self.parse_lambda_after_params(captures, no_params, start_location);
        }
        if self.is_lambda_param_start() {
            let params = self.parse_lambda_params()?;
            self.expect(&TokenType::RightParen, "expected ')' after lambda parameters")?;
            return self.parse_lambda_after_params(captures, params, start_location);
        }
        if captures.len() > 0 {
            return Err(ParserError::SyntaxError {
                message: String::from_str("capture list must be followed by lambda parameters"),
                location: start_location,
                suggestion: Some(String::from_str("use [captures](params) => body syntax")),
            });
        }
        let inner = self.parse_expression()?;
        self.expect(&TokenType::RightParen, "expected ')'")?;
        Ok(inner)
    }

    /// Whether the current position starts lambda parameters: an
    /// identifier followed by `:`, or by `,` or `)` when the parenthesis
    /// closes into `=>`.
    pub fn is_lambda_param_start(&self) -> (b: bool)
        requires
            self.wf(),
        ensures
            b == (self.cur() is Identifier && self.pos() + 1 < self.toks().len() && {
                let next = self.kind_at(self.pos() + 1);
                ||| next is Colon
                ||| (next is Comma || next is RightParen) && closes_into_fat_arrow(self.toks(), self.pos() + 1, 1)
            }),
    {
        if !(matches!(self.peek().token_type, TokenType::Identifier(_))) {
            return false;
        }
        let n = self.token_count();
        if self.current_position() + 1 >= n {
            return false;
        }
        let next_is_colon = matches!(*self.token_kind(self.current_position() + 1), TokenType::Colon);
        if next_is_colon {
            return true;
        }
        let next_is_list = matches!(*self.token_kind(self.current_position() + 1), TokenType::Comma)
            || matches!(*self.token_kind(self.current_position() + 1), TokenType::RightParen);
        if !next_is_list {
            return false;
        }
        let mut depth: usize = 1;
        let mut i = self.current_position() + 1;
        while i < n
            invariant
                self.wf(),
                n == self.toks().len(),
                self.pos() + 1 <= i <= n,
                1 <= depth <= i - self.pos(),
                self.cur() is Identifier,
                self.pos() + 1 < self.toks().len(),
                self.kind_at(self.pos() + 1) is Comma || self.kind_at(self.pos() + 1) is RightParen,
                closes_into_fat_arrow(self.toks(), self.pos() + 1, 1) == closes_into_fat_arrow(self.toks(), i as int, depth as int),
            decreases n - i,
        {
            if matches!(*self.token_kind(i), TokenType::LeftParen) {
                depth = depth + 1;
            } else if matches!(*self.token_kind(i), TokenType::RightParen) {
                depth = depth - 1;
                if depth == 0 {
                    return i + 1 < n && matches!(*self.token_kind(i + 1), TokenType::FatArrow);
                }
            }
            i = i + 1;
        }
        false
    }

    /// Parses lambda parameters `name [: type], ...`; a parameter without a
    /// type gets `Int` as a placeholder.
    #[verifier::spinoff_prover]
    #[verifier::rlimit(100)]
    pub fn parse_lambda_params(&mut self) -> (r: Result<Vec<Parameter>, ParserError>)
        requires
            old(self).wf(),
        ensures
            final(self).moved_from(*old(self)),
            r is Ok ==> final(self).pos() > old(self).pos(),
            r matches Ok(ps) ==> ps@.len() >= 1,
            r matches Ok(ps) ==> params_plain(ps@),
            r is Ok <==> lambda_params_from(old(self).toks(), old(self).pos(), false) is Some,
            r matches Ok(ps) ==> lambda_params_from(old(self).toks(), old(self).pos(), false) == Some((params_view(ps@), final(self).pos())),
    {
        let ghost toks = old(self).toks();
        let ghost p0 = old(self).pos();
        let mut params: Vec<Parameter> = Vec::new();
        proof {
            match lambda_params_from(toks, p0, false) {
                Some((ps, m)) => {
                    assert(params_view(params@) + ps =~= ps);
                },
                None => {},
            }
        }
        loop
            invariant_except_break
                lambda_params_from(toks, p0, false) == match lambda_params_from(toks, self.pos(), false) {
                    Some((ps, m)) => Some((params_view(params@) + ps, m)),
                    None => None,
                },
            invariant
                self.moved_from(*old(self)),
                toks == self.toks(),
                p0 == old(self).pos(),
                params@.len() >= 1 ==> self.pos() > old(self).pos(),
                params_plain(params@),
            ensures
                self.moved_from(*old(self)),
                params@.len() >= 1,
                self.pos() > old(self).pos(),
                toks == self.toks(),
                lambda_params_from(toks, p0, false) == Some((params_view(params@), self.pos())),
                params_plain(params@),
            decreases self.toks().len() - self.pos(),
        {
            let ghost q = self.pos();
            let param_loc = self.current_location();
            let name = self.parse_identifier()?;
            let param_type = if self.check(&TokenType::Colon) {
                self.advance();
                Box::new(self.parse_type()?)
            } else {
                Box::new(placeholder_type(PrimitiveType::Integer, &param_loc))
            };
            let ghost pv = (name.name@, shape_of(*param_type));
            let ghost before = params@;
            params.push(Parameter {
                name,
                param_type,
                intent: None,
                constraint: None,
                passing_mode: PassingMode::ByValue,
                source_location: param_loc,
            });
            proof {
                assert(params_view(params@) =~= params_view(before).push(pv));
                assert forall|k: int| 0 <= k < params@.len() implies (#[trigger] params@[k]).passing_mode == PassingMode::ByValue
                    && params@[k].intent is None && params@[k].constraint is None by {
                    if k < before.len() {
                        assert(params@[k] == before[k]);
                    }
                }
            }
            if !self.check(&TokenType::Comma) {
                proof {
                    assert(params_view(before) + seq![pv] =~= params_view(params@));
                }
                break;
            }
            self.advance();
            proof {
                match lambda_params_from(toks, self.pos(), false) {
                    Some((ps, m)) => {
                        assert(params_view(before) + (seq![pv] + ps) =~= params_view(params@) + ps);
                    },
                    None => {},
                }
            }
        }
        Ok(params)
    }

    /// Parses what follows lambda parameters: `[-> type] => body`, where the
    /// body is a block or an expression.
    #[verifier::spinoff_prover]
    #[verifier::rlimit(100)]
    pub fn parse_lambda_after_params(
        &mut self,
        captures: Vec<Capture>,
        parameters: Vec<Parameter>,
        start_location: SourceLocation,
    ) -> (r: Result<Expression, ParserError>)
        requires
            old(self).wf(),
        ensures
            final(self).moved_from(*old(self)),
            r is Ok ==> final(self).pos() > old(self).pos(),
            r matches Ok(e) ==> e matches Expression::Lambda { captures: c, parameters: p, .. }
                && c == captures && p == parameters,
            params_plain(parameters@) ==> (core_lambda_rest(old(self).toks(), old(self).pos(), captures_view(captures@),
                params_view(parameters@)) matches Some((c, m)) ==> r matches Ok(e) && denotes(e, c) && final(self).pos() == m),
        decreases old(self).toks().len() - old(self).pos(), 9nat,
    {
        let return_type = if self.check(&TokenType::Arrow) {
            self.advance();
            Some(Box::new(self.parse_type()?))
        } else {
            None
        };
        self.expect(&TokenType::FatArrow, "expected '=>' for lambda body")?;
        let body = if self.check(&TokenType::LeftBrace) {
            self.parse_lambda_block()?
        } else {
            LambdaBody::Expression(Box::new(self.parse_expression()?))
        };
        Ok(Expression::Lambda { captures, parameters, return_type, body, source_location: start_location })
    }

    /// Parses a lambda block: `{}` is an empty block, `{ expr }` a block
    /// returning `expr`, anything else a block of statements.
    #[verifier::spinoff_prover]
    #[verifier::rlimit(100)]
    pub fn parse_lambda_block(&mut self) -> (r: Result<LambdaBody, ParserError>)
        requires
            old(self).wf(),
        ensures
            final(self).moved_from(*old(self)),
            r is Ok ==> final(self).pos() > old(self).pos(),
            r matches Ok(b) ==> b is Block,
            old(self).cur() is LeftBrace && token_is(old(self).toks(), old(self).pos() + 1, TokenType::RightBrace)
                ==> (r matches Ok(LambdaBody::Block(b)) && b.statements@.len() == 0 && final(self).pos() == old(self).pos() + 2),
            old(self).cur() is LeftBrace && !token_is(old(self).toks(), old(self).pos() + 1, TokenType::RightBrace)
                ==> (core_expression_at(old(self).toks(), old(self).pos() + 1) matches Some((c, k))
                ==> (token_is(old(self).toks(), k, TokenType::RightBrace) ==> (r matches Ok(LambdaBody::Block(b))
                    && b.statements@.len() == 1
                    && (b.statements@[0] matches Statement::Return { value: Some(v), .. } && denotes(*v, c))
                    && final(self).pos() == k + 1))),
            old(self).cur() is LeftBrace && old(self).kind_at(old(self).pos() + 1) is Keyword
                ==> (core_block_at(old(self).toks(), old(self).pos(), false) matches Some((cs, j))
                ==> r matches Ok(LambdaBody::Block(b)) && stmts_denote(b.statements@, cs) && final(self).pos() == j),
        decreases old(self).toks().len() - old(self).pos(), 8nat,
    {
        let ghost toks = old(self).toks();
        let ghost i0 = old(self).pos();
        let ghost keyword_first = old(self).cur() is LeftBrace && old(self).kind_at(old(self).pos() + 1) is Keyword;
        let block_start = self.current_location();
        self.expect(&TokenType::LeftBrace, "expected '{'")?;

        if self.check(&TokenType::RightBrace) {
            self.advance();
            return Ok(LambdaBody::Block(Block { statements: Vec::new(), source_location: block_start }));
        }

        let saved_pos = self.current_position();
        match self.parse_expression() {
            Ok(expr) => {
                if self.check(&TokenType::RightBrace) {
                    self.advance();
                    let mut statements: Vec<Statement> = Vec::new();
                    statements.push(Statement::Return {
                        value: Some(Box::new(expr)),
                        source_location: block_start.duplicate(),
                    });
                    return Ok(LambdaBody::Block(Block { statements, source_location: block_start }));
                }
                self.restore_position(saved_pos);
            },
            Err(_) => {
                self.restore_position(saved_pos);
            },
        }

        let ghost no_simple = !token_is(old(self).toks(), old(self).pos() + 1, TokenType::RightBrace)
            && !(core_expression_at(old(self).toks(), old(self).pos() + 1) matches Some((c, k))
                && token_is(old(self).toks(), k, TokenType::RightBrace));
        assert(no_simple);
        let mut statements: Vec<Statement> = Vec::new();
        let ghost mut cs: Seq<CoreStmt> = seq![];
        proof {
            match core_stmts_from(toks, self.pos(), false) {
                Some((rest, e)) => {
                    assert(cs + rest =~= rest);
                },
                None => {},
            }
        }
        while !self.check(&TokenType::RightBrace) && !self.is_at_end()
            invariant
                self.moved_from(*old(self)),
                self.pos() > old(self).pos(),
                no_simple == (!token_is(old(self).toks(), old(self).pos() + 1, TokenType::RightBrace)
                    && !(core_expression_at(old(self).toks(), old(self).pos() + 1) matches Some((c, k))
                    && token_is(old(self).toks(), k, TokenType::RightBrace))),
                no_simple,
                toks == self.toks(),
                i0 == old(self).pos(),
                keyword_first == (old(self).cur() is LeftBrace && old(self).kind_at(old(self).pos() + 1) is Keyword),
                keyword_first && core_block_at(toks, i0, false) is Some ==> core_block_at(toks, i0, false)
                    == match core_stmts_from(toks, self.pos(), false) {
                        Some((rest, e)) => Some((cs + rest, e)),
                        None => None,
                    },
                keyword_first && core_block_at(toks, i0, false) is Some ==> stmts_denote(statements@, cs),
            decreases self.toks().len() - self.pos(),
        {
            let ghost p = self.pos();
            let ghost c = core_stmt_at(toks, p, false)->Some_0.0;
            let ghost before = statements@;
            let statement = self.parse_statement()?;
            let ghost sg = statement;
            statements.push(statement);
            proof {
                if keyword_first && core_block_at(toks, i0, false) is Some {
                    lemma_stmts_denote_push(before, cs, sg, c);
                    assert(statements@ == before.push(sg));
                    match core_stmts_from(toks, self.pos(), false) {
                        Some((rest, e)) => {
                            assert(cs + (seq![c] + rest) =~= cs.push(c) + rest);
                        },
                        None => {},
                    }
                    cs = cs.push(c);
                }
            }
        }
        self.expect(&TokenType::RightBrace, "expected '}' after lambda block")?;
        proof {
            assert(cs + Seq::<CoreStmt>::empty() =~= cs);
        }
        Ok(LambdaBody::Block(Block { statements, source_location: block_start }))
    }

    /// Parses `{ field: value, ... }` after a type name.
    #[verifier::spinoff_prover]
    #[verifier::rlimit(100)]
    pub fn parse_struct_construction(
        &mut self,
        struct_name: String,
        start_location: SourceLocation,
    ) -> (r: Result<Expression, ParserError>)
        requires
            old(self).wf(),
        ensures
            final(self).moved_from(*old(self)),
            r is Ok ==> final(self).pos() > old(self).pos(),
            r matches Ok(e) ==> e matches Expression::StructConstruct { struct_name: n, .. } && n.name == struct_name,
            old(self).pos() >= 1 && old(self).cur() is LeftBrace
                && old(self).kind_at(old(self).pos() - 1)->Identifier_0@ == struct_name@
                ==> (core_construction_at(old(self).toks(), old(self).pos() - 1) matches Some((c, m))
                    ==> r matches Ok(e) && denotes(e, c) && final(self).pos() == m),
        decreases old(self).toks().len() - old(self).pos(), 14nat,
    {
        let ghost toks = old(self).toks();
        let ghost p0 = old(self).pos();
        let ghost spec_fs: Option<(Seq<(Seq<char>, CoreExpr)>, int)> =
            if p0 >= 1 && old(self).cur() is LeftBrace && core_construction_at(toks, p0 - 1) is Some {
                core_field_values_from(toks, p0 + 1)
            } else {
                None
            };
        proof {
            if p0 >= 1 && old(self).cur() is LeftBrace && core_construction_at(toks, p0 - 1) is Some {
                assert(spec_fs is Some);
            }
        }
        self.expect(&TokenType::LeftBrace, "expected '{'")?;
        let mut field_values: Vec<FieldValue> = Vec::new();
        let ghost mut done: Seq<(Seq<char>, CoreExpr)> = seq![];
        while !self.check(&TokenType::RightBrace) && !self.is_at_end()
            invariant
                self.moved_from(*old(self)),
                self.pos() > old(self).pos(),
                toks == self.toks(),
                p0 == old(self).pos(),
                p0 >= 1 && old(self).cur() is LeftBrace && core_construction_at(toks, p0 - 1) is Some
                    ==> spec_fs is Some,
                spec_fs matches Some((all, m)) ==> {
                    &&& core_field_values_from(toks, self.pos()) matches Some((rest, m2))
                    &&& m2 == m
                    &&& all == done + rest
                    &&& field_values_denote(field_values@, done)
                },
            decreases self.toks().len() - self.pos(),
        {
            let ghost p = self.pos();
            proof {
                if spec_fs is Some {
                    assert(core_field_values_from(toks, p) is Some);
                    assert(!(toks[p].token_type is RightBrace));
                    assert(toks[p].token_type is Identifier && token_is(toks, p + 1, TokenType::Colon));
                    assert(core_expression_at(toks, p + 2) is Some);
                }
            }
            let field_loc = self.current_location();
            let field = match &self.peek().token_type {
                TokenType::Identifier(name) => Some(name.clone()),
                _ => None,
            };
            let field_name = match field {
                Some(name) => {
                    self.advance();
                    Identifier::new(name, field_loc.duplicate())
                },
                None => {
                    return Err(self.unexpected("field name"));
                },
            };
            self.expect(&TokenType::Colon, "expected ':' after field name")?;
            let ghost cv = core_expression_at(toks, self.pos())->Some_0.0;
            let value = Box::new(self.parse_expression()?);
            let fv = FieldValue { field_name, value, source_location: field_loc };
            let ghost g = fv;
            let ghost before = field_values@;
            field_values.push(fv);
            if self.check(&TokenType::Comma) {
                self.advance();
            }
            proof {
                let item = (toks[p].token_type->Identifier_0@, cv);
                if spec_fs is Some {
                    lemma_field_values_push(before, done, g, item);
                    match core_field_values_from(toks, self.pos()) {
                        Some((rest, m)) => {
                            assert(done + (seq![item] + rest) =~= done.push(item) + rest);
                        },
                        None => {},
                    }
                }
                done = done.push(item);
            }
        }
        self.expect(&TokenType::RightBrace, "expected '}'")?;
        proof {
            if spec_fs is Some {
                assert(done + Seq::<(Seq<char>, CoreExpr)>::empty() =~= done);
            }
        }
        Ok(Expression::StructConstruct {
            struct_name: Identifier::new(struct_name, start_location.duplicate()),
            field_values,
            source_location: start_location,
        })
    }

    /// Parses `::Variant` or `::Variant(values)` after an enum name.
    #[verifier::spinoff_prover]
    #[verifier::rlimit(100)]
    pub fn parse_enum_variant_expression(
        &mut self,
        enum_name: String,
        start_location: SourceLocation,
    ) -> (r: Result<Expression, ParserError>)
        requires
            old(self).wf(),
        ensures
            final(self).moved_from(*old(self)),
            r is Ok ==> final(self).pos() > old(self).pos(),
            r matches Ok(e) ==> e matches Expression::EnumVariant { enum_name: n, .. } && n.name == enum_name,
            old(self).pos() >= 1 && old(self).cur() is DoubleColon
                && old(self).kind_at(old(self).pos() - 1)->Identifier_0@ == enum_name@
                ==> (core_construction_at(old(self).toks(), old(self).pos() - 1) matches Some((c, m))
                    ==> r matches Ok(e) && denotes(e, c) && final(self).pos() == m),
        decreases old(self).toks().len() - old(self).pos(), 14nat,
    {
        let ghost toks = old(self).toks();
        let ghost p0 = old(self).pos();
        let ghost spec_vs: Option<(Seq<CoreExpr>, int)> =
            if p0 >= 1 && old(self).cur() is DoubleColon && core_construction_at(toks, p0 - 1) is Some
                && token_is(toks, p0 + 2, TokenType::LeftParen) && !token_is(toks, p0 + 3, TokenType::RightParen) {
                core_variant_values(toks, p0 + 3)
            } else {
                None
            };
        proof {
            if p0 >= 1 && old(self).cur() is DoubleColon && core_construction_at(toks, p0 - 1) is Some {
                assert(toks[p0 + 1].token_type is Identifier);
                if token_is(toks, p0 + 2, TokenType::LeftParen) && !token_is(toks, p0 + 3, TokenType::RightParen) {
                    assert(spec_vs is Some);
                }
            }
        }
        self.expect(&TokenType::DoubleColon, "expected '::'")?;
        let variant = match &self.peek().token_type {
            TokenType::Identifier(name) => Some(name.clone()),
            _ => None,
        };
        let variant_name = match variant {
            Some(name) => {
                self.advance();
                Identifier::new(name, self.current_location())
            },
            None => {
                return Err(self.unexpected("variant name"));
            },
        };
        let mut values: Vec<Expression> = Vec::new();
        if self.check(&TokenType::LeftParen) {
            self.advance();
            if !self.check(&TokenType::RightParen) {
                let ghost mut done: Seq<CoreExpr> = seq![];
                loop
                    invariant_except_break
                        spec_vs matches Some((all, m)) ==> {
                            &&& core_variant_values(toks, self.pos()) matches Some((rest, m2))
                            &&& m2 == m
                            &&& all == done + rest
                            &&& values_denote(values@, done)
                        },
                    invariant
                        self.moved_from(*old(self)),
                        self.pos() > old(self).pos(),
                        toks == self.toks(),
                        p0 == old(self).pos(),
                        token_is(toks, p0 + 2, TokenType::LeftParen),
                        !token_is(toks, p0 + 3, TokenType::RightParen),
                        p0 >= 1 && old(self).cur() is DoubleColon && core_construction_at(toks, p0 - 1) is Some
                            && token_is(toks, p0 + 2, TokenType::LeftParen)
                            && !token_is(toks, p0 + 3, TokenType::RightParen) ==> spec_vs is Some,
                    ensures
                        self.moved_from(*old(self)),
                        self.pos() > old(self).pos(),
                        toks == self.toks(),
                        spec_vs matches Some((all, m)) ==> {
                            &&& values_denote(values@, all)
                            &&& self.spec_check(TokenType::RightParen)
                            &&& self.pos() + 1 == m
                        },
                    decreases self.toks().len() - self.pos(),
                {
                    proof {
                        if spec_vs is Some {
                            assert(core_variant_values(toks, self.pos()) is Some);
                            assert(core_expression_at(toks, self.pos()) is Some);
                        }
                    }
                    let ghost cv = core_expression_at(toks, self.pos())->Some_0.0;
                    let value = self.parse_expression()?;
                    let ghost g = value;
                    let ghost before = values@;
                    values.push(value);
                    proof {
                        if spec_vs is Some {
                            lemma_values_push(before, done, g, cv);
                        }
                    }
                    if self.check(&TokenType::Comma) {
                        self.advance();
                        proof {
                            if spec_vs is Some {
                                match core_variant_values(toks, self.pos()) {
                                    Some((rest, m)) => {
                                        assert(done + (seq![cv] + rest) =~= done.push(cv) + rest);
                                    },
                                    None => {},
                                }
                            }
                            done = done.push(cv);
                        }
                    } else {
                        proof {
                            if spec_vs is Some {
                                assert(done + seq![cv] =~= done.push(cv));
                            }
                        }
                        break;
                    }
                }
            }
            self.expect(&TokenType::RightParen, "expected ')'")?;
        }
        proof {
            if p0 >= 1 && old(self).cur() is DoubleColon && core_construction_at(toks, p0 - 1) is Some {
                let (c, m) = core_construction_at(toks, p0 - 1)->Some_0;
                assert(c matches CoreExpr::Variant(_, v, vs) && v == variant_name.name@ && values_denote(values@, vs));
                assert(self.pos() == m);
            }
        }
        Ok(Expression::EnumVariant {
            enum_name: Identifier::new(enum_name, start_location.duplicate()),
            variant_name,
            values,
            source_location: start_location,
        })
    }

    /// Parses an array literal `[e, e, ...]`; its element type is `Int` as
    /// a placeholder.
    #[verifier::spinoff_prover]
    #[verifier::rlimit(100)]
    pub fn parse_array_literal(&mut self) -> (r: Result<Expression, ParserError>)
        requires
            old(self).wf(),
        ensures
            final(self).moved_from(*old(self)),
            r is Ok ==> final(self).pos() > old(self).pos(),
            r matches Ok(e) ==> e is ArrayLiteral,
            old(self).cur() is LeftBracket ==> (core_array_items(old(self).toks(), old(self).pos() + 1) matches Some((cs, m))
                ==> r matches Ok(e) && denotes(e, CoreExpr::Array(PrimitiveType::Integer, cs)) && final(self).pos() == m),
        decreases old(self).toks().len() - old(self).pos(), 14nat,
    {
        let ghost toks = old(self).toks();
        let ghost spec_items: Option<(Seq<CoreExpr>, int)> =
            if old(self).cur() is LeftBracket { core_array_items(toks, old(self).pos() + 1) } else { None };
        let start_location = self.current_location();
        self.expect(&TokenType::LeftBracket, "expected '['")?;
        let mut elements: Vec<Box<Expression>> = Vec::new();
        let ghost mut done: Seq<CoreExpr> = seq![];
        while !self.check(&TokenType::RightBracket)
            invariant
                self.moved_from(*old(self)),
                self.pos() > old(self).pos(),
                toks == self.toks(),
                spec_items == (if old(self).cur() is LeftBracket { core_array_items(toks, old(self).pos() + 1) } else { None }),
                spec_items matches Some((all, m)) ==> {
                    &&& core_array_items(toks, self.pos()) matches Some((rest, m2))
                    &&& m2 == m
                    &&& all == done + rest
                    &&& boxed_values_denote(elements@, done)
                },
            decreases self.toks().len() - self.pos(),
        {
            proof {
                if spec_items is Some {
                    assert(core_array_items(toks, self.pos()) is Some);
                    assert(core_expression_at(toks, self.pos()) is Some);
                }
            }
            let ghost cv = core_expression_at(toks, self.pos())->Some_0.0;
            let element = self.parse_expression()?;
            let boxed = Box::new(element);
            let ghost g = boxed;
            let ghost before = elements@;
            elements.push(boxed);
            proof {
                if spec_items is Some {
                    lemma_boxed_values_push(before, done, g, cv);
                }
            }
            if !self.check(&TokenType::RightBracket) {
                self.expect(&TokenType::Comma, "expected ',' or ']'")?;
                proof {
                    if spec_items is Some {
                        match core_array_items(toks, self.pos()) {
                            Some((rest, m)) => {
                                assert(done + (seq![cv] + rest) =~= done.push(cv) + rest);
                            },
                            None => {},
                        }
                    }
                }
            } else {
                proof {
                    if spec_items is Some {
                        assert(core_array_items(toks, self.pos()) == Some((Seq::<CoreExpr>::empty(), self.pos() + 1)));
                        assert(done + seq![cv] =~= done.push(cv) + Seq::<CoreExpr>::empty());
                    }
                }
            }
            proof {
                done = done.push(cv);
            }
        }
        self.expect(&TokenType::RightBracket, "expected ']'")?;
        proof {
            if spec_items is Some {
                assert(done + Seq::<CoreExpr>::empty() =~= done);
            }
        }
        let element_type = Box::new(placeholder_type(PrimitiveType::Integer, &start_location));
        Ok(Expression::ArrayLiteral { element_type, elements, source_location: start_location })
    }

    /// Whether a `{` here starts a map literal: `{}` or a colon at the top
    /// level of the braces before any `;`.
    pub fn looks_like_map_literal(&self) -> (b: bool)
        requires
            self.wf(),
        ensures
            b == (self.spec_check(TokenType::LeftBrace) && (
                (self.pos() + 1 < self.toks().len() && self.kind_at(self.pos() + 1) is RightBrace)
                || map_colon_ahead(self.toks(), self.pos() + 1, 0))),
    {
        if !self.check(&TokenType::LeftBrace) {
            return false;
        }
        let n = self.token_count();
        if self.current_position() + 1 < n && matches!(*self.token_kind(self.current_position() + 1), TokenType::RightBrace) {
            return true;
        }
        let mut depth: u64 = 0;
        let mut i = self.current_position() + 1;
        while i < n
            invariant
                self.wf(),
                n == self.toks().len(),
                self.pos() + 1 <= i <= n,
                depth <= i,
                self.spec_check(TokenType::LeftBrace),
                !(self.pos() + 1 < self.toks().len() && self.kind_at(self.pos() + 1) is RightBrace),
                map_colon_ahead(self.toks(), self.pos() + 1, 0) == map_colon_ahead(self.toks(), i as int, depth as int),
            decreases n - i,
        {
            if matches!(*self.token_kind(i), TokenType::LeftBrace) {
                depth = depth + 1;
            } else if matches!(*self.token_kind(i), TokenType::RightBrace) {
                if depth == 0 {
                    return false;
                }
                depth = depth - 1;
            } else if matches!(*self.token_kind(i), TokenType::Colon) {
                if depth == 0 {
                    return true;
                }
            } else if matches!(*self.token_kind(i), TokenType::Semicolon) {
                return false;
            }
            i = i + 1;
        }
        false
    }

    /// Parses a map literal `{ key: value, ... }`; its types are `String`
    /// to `Int` as placeholders.
    #[verifier::spinoff_prover]
    #[verifier::rlimit(100)]
    pub fn parse_map_literal(&mut self) -> (r: Result<Expression, ParserError>)
        requires
            old(self).wf(),
        ensures
            final(self).moved_from(*old(self)),
            r is Ok ==> final(self).pos() > old(self).pos(),
            r matches Ok(e) ==> e is MapLiteral,
            old(self).cur() is LeftBrace ==> (core_map_at(old(self).toks(), old(self).pos()) matches Some((c, m))
                ==> r matches Ok(e) && denotes(e, c) && final(self).pos() == m),
        decreases old(self).toks().len() - old(self).pos(), 14nat,
    {
        let ghost toks = old(self).toks();
        let ghost p0 = old(self).pos();
        let start_location = self.current_location();
        self.expect(&TokenType::LeftBrace, "expected '{'")?;
        let mut entries: Vec<MapEntry> = Vec::new();
        let ghost mut done: Seq<(CoreExpr, CoreExpr)> = seq![];
        let ghost spec_entries: Option<(Seq<(CoreExpr, CoreExpr)>, int)> =
            if old(self).cur() is LeftBrace { core_map_entries(toks, p0 + 1) } else { None };
        proof {
            if old(self).cur() is LeftBrace && core_map_at(toks, p0) is Some && !token_is(toks, p0 + 1, TokenType::RightBrace) {
                assert(core_map_at(toks, p0) == match core_map_entries(toks, p0 + 1) {
                    Some((cs, m)) => Some((CoreExpr::MapLiteral(cs), m)),
                    None => None,
                });
            }
        }
        if self.check(&TokenType::RightBrace) {
            self.advance();
        } else {
            while !self.check(&TokenType::RightBrace) && !self.is_at_end()
                invariant
                    self.moved_from(*old(self)),
                    self.pos() > old(self).pos(),
                    toks == self.toks(),
                    spec_entries == (if old(self).cur() is LeftBrace { core_map_entries(toks, p0 + 1) } else { None }),
                    p0 == old(self).pos(),
                    !token_is(toks, p0 + 1, TokenType::RightBrace),
                    old(self).cur() is LeftBrace && core_map_at(toks, p0) is Some ==> spec_entries is Some,
                    spec_entries matches Some((all, m)) ==> {
                        &&& map_entries_denote(entries@, done)
                        &&& {
                            ||| (token_is(toks, self.pos(), TokenType::RightBrace) && all == done && m == self.pos() + 1)
                            ||| (!(toks[self.pos()].token_type is RightBrace) && !(toks[self.pos()].token_type is Eof)
                                && (core_map_entries(toks, self.pos()) matches Some((rest, m2)) && m2 == m && all == done + rest))
                        }
                    },
                ensures
                    self.moved_from(*old(self)),
                    self.pos() > old(self).pos(),
                    toks == self.toks(),
                    spec_entries matches Some((all, m)) ==> {
                        &&& map_entries_denote(entries@, all)
                        &&& token_is(toks, self.pos(), TokenType::RightBrace)
                        &&& m == self.pos() + 1
                    },
                decreases self.toks().len() - self.pos(),
            {
                let ghost p = self.pos();
                proof {
                    if spec_entries is Some {
                        assert(core_map_entries(toks, p) is Some);
                        assert(core_expression_at(toks, p) is Some);
                    }
                }
                let ghost kc = core_expression_at(toks, p)->Some_0.0;
                let key = self.parse_expression()?;
                self.expect(&TokenType::Colon, "expected ':' after map key")?;
                let ghost vc = core_expression_at(toks, self.pos())->Some_0.0;
                let value = self.parse_expression()?;
                let entry = MapEntry {
                    key: Box::new(key),
                    value: Box::new(value),
                    source_location: self.current_location(),
                };
                let ghost g = entry;
                let ghost before = entries@;
                entries.push(entry);
                proof {
                    if spec_entries is Some {
                        lemma_map_entries_push(before, done, g, (kc, vc));
                    }
                }
                if self.check(&TokenType::Comma) {
                    self.advance();
                    proof {
                        if spec_entries is Some {
                            if toks[self.pos()].token_type is Eof {
                                assert(core_construction_at(toks, self.pos()) is None);
                                assert(core_expression_at(toks, self.pos()) is None);
                            }
                            match core_map_entries(toks, self.pos()) {
                                Some((rest, m)) => {
                                    assert(done + (seq![(kc, vc)] + rest) =~= done.push((kc, vc)) + rest);
                                },
                                None => {},
                            }
                            assert(done + seq![(kc, vc)] =~= done.push((kc, vc)));
                        }
                        done = done.push((kc, vc));
                    }
                } else {
                    proof {
                        if spec_entries is Some {
                            assert(done + seq![(kc, vc)] =~= done.push((kc, vc)));
                        }
                        done = done.push((kc, vc));
                    }
                    break;
                }
            }
            self.expect(&TokenType::RightBrace, "expected '}' after map entries")?;
        }
        proof {
            if old(self).cur() is LeftBrace && core_map_at(toks, p0) is Some {
                let (c, m) = core_map_at(toks, p0)->Some_0;
                assert(c matches CoreExpr::MapLiteral(cs) && map_entries_denote(entries@, cs));
                assert(self.pos() == m);
            }
        }
        let key_type = Box::new(placeholder_type(PrimitiveType::String, &start_location));
        let value_type = Box::new(placeholder_type(PrimitiveType::Integer, &start_location));
        Ok(Expression::MapLiteral { key_type, value_type, entries, source_location: start_location })
    }

    /// Whether a `[` here starts an array literal rather than a capture
    /// list: a capture list is `[]` or `[ident...]`/`[&...]` whose closing
    /// bracket is followed by `(`.
    pub fn looks_like_array_literal(&self) -> (b: bool)
        requires
            self.wf(),
        ensures
            b == array_literal_ahead(self.toks(), self.pos()),
    {
        if !(matches!(self.peek().token_type, TokenType::LeftBracket)) {
            return false;
        }
        let n = self.token_count();
        if self.current_position() + 1 < n && matches!(*self.token_kind(self.current_position() + 1), TokenType::RightBracket) {
            if n - self.current_position() > 2 && matches!(*self.token_kind(self.current_position() + 2), TokenType::LeftParen) {
                return false;
            }
            return true;
        }
        if self.current_position() + 1 < n {
            let first_is_capture = matches!(*self.token_kind(self.current_position() + 1), TokenType::Identifier(_))
                || matches!(*self.token_kind(self.current_position() + 1), TokenType::Ampersand);
            if !first_is_capture {
                return true;
            }
            let mut depth: u64 = 1;
            let mut pos = self.current_position() + 1;
            while depth > 0 && pos < n
                invariant
                    self.wf(),
                    n == self.toks().len(),
                    self.pos() + 1 <= pos <= n,
                    depth <= pos + 1,
                    bracket_end(self.toks(), pos as int, depth as nat) == bracket_end(self.toks(), self.pos() + 1, 1),
                decreases n - pos,
            {
                if matches!(*self.token_kind(pos), TokenType::LeftBracket) {
                    depth = depth + 1;
                } else if matches!(*self.token_kind(pos), TokenType::RightBracket) {
                    depth = depth - 1;
                }
                pos = pos + 1;
            }
            if pos < n && matches!(*self.token_kind(pos), TokenType::LeftParen) {
                return false;
            }
            return true;
        }
        true
    }

    /// Whether a `{` here starts a struct construction: `{` then an
    /// identifier then `:`.
    pub fn looks_like_struct_construction(&self) -> (b: bool)
        requires
            self.wf(),
        ensures
            b == (self.cur() is LeftBrace && self.pos() + 2 < self.toks().len()
                && self.kind_at(self.pos() + 1) is Identifier && self.kind_at(self.pos() + 2) is Colon),
    {
        if !(matches!(self.peek().token_type, TokenType::LeftBrace)) {
            return false;
        }
        let n = self.token_count();
        n - self.current_position() > 2 && matches!(*self.token_kind(self.current_position() + 1), TokenType::Identifier(_))
            && matches!(*self.token_kind(self.current_position() + 2), TokenType::Colon)
    }

    /// Parses a capture list `[x, &y, &mut z]`.
    #[verifier::spinoff_prover]
    #[verifier::rlimit(100)]
    pub fn parse_capture_list(&mut self) -> (r: Result<Vec<Capture>, ParserError>)
        requires
            old(self).wf(),
        ensures
            final(self).moved_from(*old(self)),
            r is Ok ==> final(self).pos() > old(self).pos() && old(self).cur() is LeftBracket,
            old(self).cur() is LeftBracket ==> (r is Ok <==> captures_from(old(self).toks(), old(self).pos() + 1) is Some),
            r matches Ok(cs) ==> captures_from(old(self).toks(), old(self).pos() + 1) == Some((captures_view(cs@), final(self).pos())),
    {
        let ghost toks = old(self).toks();
        let ghost p1 = old(self).pos() + 1;
        let mut captures: Vec<Capture> = Vec::new();
        self.expect(&TokenType::LeftBracket, "expected '[' to start capture list")?;
        proof {
            match captures_from(toks, p1) {
                Some((cs, m)) => {
                    assert(captures_view(captures@) + cs =~= cs);
                },
                None => {},
            }
        }
        while !self.check(&TokenType::RightBracket)
            invariant
                self.moved_from(*old(self)),
                self.pos() > old(self).pos(),
                old(self).cur() is LeftBracket,
                toks == self.toks(),
                p1 == old(self).pos() + 1,
                captures_from(toks, p1) == match captures_from(toks, self.pos()) {
                    Some((cs, m)) => Some((captures_view(captures@) + cs, m)),
                    None => None,
                },
            decreases self.toks().len() - self.pos(),
        {
            let ghost q = self.pos();
            let capture_location = self.current_location();
            let mode = if self.check(&TokenType::Ampersand) {
                self.advance();
                if self.check_keyword(Keyword::Mut) {
                    self.advance();
                    CaptureMode::ByMutableReference
                } else {
                    CaptureMode::ByReference
                }
            } else {
                CaptureMode::ByValue
            };
            let name = self.parse_identifier()?;
            let ghost c = (name.name@, mode);
            let ghost before = captures@;
            captures.push(Capture { name, mode, source_location: capture_location });
            proof {
                assert(captures_view(captures@) =~= captures_view(before).push(c));
            }
            if !self.check(&TokenType::RightBracket) {
                self.expect(&TokenType::Comma, "expected ',' between captures")?;
                proof {
                    match captures_from(toks, self.pos()) {
                        Some((cs, m)) => {
                            assert(captures_view(before) + (seq![c] + cs) =~= captures_view(captures@) + cs);
                        },
                        None => {},
                    }
                }
            } else {
                proof {
                    assert(captures_view(before) + seq![c] =~= captures_view(captures@) + Seq::<(Seq<char>, CaptureMode)>::empty());
                }
            }
        }
        self.expect(&TokenType::RightBracket, "expected ']' to end capture list")?;
        proof {
            assert(captures_view(captures@) + Seq::<(Seq<char>, CaptureMode)>::empty() =~= captures_view(captures@));
        }
        Ok(captures)
    }

    /// Parses `..` or `..=` and, when an operand follows, the end of the
    /// range.
    #[verifier::spinoff_prover]
    #[verifier::rlimit(100)]
    pub fn parse_range_expression(
        &mut self,
        start: Option<Expression>,
        start_location: SourceLocation,
    ) -> (r: Result<Expression, ParserError>)
        requires
            old(self).wf(),
        ensures
            final(self).moved_from(*old(self)),
            r is Ok ==> final(self).pos() > old(self).pos(),
            r is Ok ==> old(self).cur() is DotDot || old(self).cur() is DotDotEqual,
            r matches Ok(e) ==> e matches Expression::Range { start: s, inclusive, .. }
                && (s is Some <==> start is Some)
                && (inclusive <==> old(self).cur() is DotDotEqual),
            start is None ==> (core_range_rest(old(self).toks(), old(self).pos(), None) matches Some((c, m))
                ==> r matches Ok(e) && denotes(e, c) && final(self).pos() == m),
            start matches Some(s) ==> forall|sc: CoreExpr| #[trigger] denotes(s, sc) ==> (
                core_range_rest(old(self).toks(), old(self).pos(), Some(Box::new(sc))) matches Some((c, m))
                ==> r matches Ok(e) && denotes(e, c) && final(self).pos() == m),
        decreases old(self).toks().len() - old(self).pos(), 14nat,
    {
        let inclusive = if self.check(&TokenType::DotDotEqual) {
            self.advance();
            true
        } else if self.check(&TokenType::DotDot) {
            self.advance();
            false
        } else {
            return Err(self.unexpected("'..' or '..='"));
        };
        let end = if self.is_range_end_start() {
            Some(Box::new(self.parse_range_operand()?))
        } else {
            None
        };
        let start = match start {
            Some(s) => Some(Box::new(s)),
            None => None,
        };
        Ok(Expression::Range { start, end, inclusive, source_location: start_location })
    }

    /// Whether the current token can start the end of a range.
    pub fn is_range_end_start(&self) -> (b: bool)
        requires
            self.wf(),
        ensures
            b == (self.cur() is IntegerLiteral || self.cur() is FloatLiteral || self.cur() is Identifier
                || self.cur() is LeftParen || self.cur() is LeftBrace),
    {
        match &self.peek().token_type {
            TokenType::IntegerLiteral(_) => true,
            TokenType::FloatLiteral(_) => true,
            TokenType::Identifier(_) => true,
            TokenType::LeftParen => true,
            TokenType::LeftBrace => true,
            _ => false,
        }
    }

    /// Parses the end of a range: an integer, a variable, a parenthesized
    /// expression or a braced expression.
    #[verifier::spinoff_prover]
    #[verifier::rlimit(100)]
    pub fn parse_range_operand(&mut self) -> (r: Result<Expression, ParserError>)
        requires
            old(self).wf(),
        ensures
            final(self).moved_from(*old(self)),
            r is Ok ==> final(self).pos() > old(self).pos(),
            r matches Ok(e) ==> (old(self).cur() matches TokenType::IntegerLiteral(v)
                ==> e matches Expression::IntegerLiteral { value, .. } && value == v),
            r matches Ok(e) ==> (old(self).cur() matches TokenType::Identifier(n)
                ==> e matches Expression::Variable { name, .. } && name.name == n),
            core_range_operand_at(old(self).toks(), old(self).pos()) matches Some((c, m))
                ==> r matches Ok(e) && denotes(e, c) && final(self).pos() == m,
        decreases old(self).toks().len() - old(self).pos(), 13nat,
    {
        let start_location = self.current_location();
        let simple = match &self.peek().token_type {
            TokenType::IntegerLiteral(value) => Some(Expression::IntegerLiteral {
                value: *value,
                source_location: start_location.duplicate(),
            }),
            TokenType::Identifier(name) => Some(Expression::Variable {
                name: Identifier::new(name.clone(), start_location.duplicate()),
                source_location: start_location.duplicate(),
            }),
            _ => None,
        };
        if let Some(expr) = simple {
            self.advance();
            return Ok(expr);
        }
        if self.check(&TokenType::LeftParen) {
            return self.parse_paren_expr_or_lambda();
        }
        if self.check(&TokenType::LeftBrace) {
            return self.parse_braced_expression();
        }
        Err(self.unexpected("range end value"))
    }

    /// Parses `match value { pattern => expr, ... }` as an expression.
    #[verifier::spinoff_prover]
    #[verifier::rlimit(100)]
    pub fn parse_match_expression(&mut self) -> (r: Result<Expression, ParserError>)
        requires
            old(self).wf(),
        ensures
            final(self).moved_from(*old(self)),
            r is Ok ==> final(self).pos() > old(self).pos(),
            r matches Ok(e) ==> e is Match && old(self).cur() == TokenType::Keyword(Keyword::Match),
            core_match_at(old(self).toks(), old(self).pos()) matches Some((c, m))
                ==> r matches Ok(e) && denotes(e, c) && final(self).pos() == m,
        decreases old(self).toks().len() - old(self).pos(), 14nat,
    {
        let ghost toks = old(self).toks();
        let ghost p0 = old(self).pos();
        let start_location = self.current_location();
        self.expect_keyword(Keyword::Match, "expected 'match'")?;
        let ghost vc = core_expression_at(toks, p0 + 1)->Some_0.0;
        let value = Box::new(self.parse_expression()?);
        self.expect(&TokenType::LeftBrace, "expected '{' after match value")?;
        let ghost spec_arms: Option<(Seq<(PatternShape, CoreExpr)>, int)> =
            if core_match_at(toks, p0) is Some { core_match_arms(toks, self.pos()) } else { None };
        proof {
            if core_match_at(toks, p0) is Some {
                assert(spec_arms is Some);
            }
        }
        let mut cases: Vec<MatchCase> = Vec::new();
        let ghost mut done: Seq<(PatternShape, CoreExpr)> = seq![];
        while !self.check(&TokenType::RightBrace) && !self.is_at_end()
            invariant
                self.moved_from(*old(self)),
                self.pos() > old(self).pos(),
                old(self).cur() == TokenType::Keyword(Keyword::Match),
                toks == self.toks(),
                p0 == old(self).pos(),
                core_match_at(toks, p0) is Some ==> spec_arms is Some,
                spec_arms matches Some((all, m)) ==> {
                    &&& core_match_arms(toks, self.pos()) matches Some((rest, m2))
                    &&& m2 == m
                    &&& all == done + rest
                    &&& match_cases_denote(cases@, done)
                },
            decreases self.toks().len() - self.pos(),
        {
            let ghost p = self.pos();
            proof {
                if spec_arms is Some {
                    assert(core_match_arms(toks, p) is Some);
                    assert(!(toks[p].token_type is RightBrace));
                }
            }
            let case = self.parse_match_arm()?;
            let ghost cg = case;
            let ghost before = cases@;
            cases.push(case);
            if self.check(&TokenType::Comma) {
                self.advance();
            }
            proof {
                if spec_arms is Some {
                    let (ps, b) = pattern_at(toks, p)->Some_0;
                    let c = core_expression_at(toks, b + 1)->Some_0.0;
                    lemma_match_cases_push(before, done, cg, (ps, c));
                    match core_match_arms(toks, self.pos()) {
                        Some((rest, m)) => {
                            assert(done + (seq![(ps, c)] + rest) =~= done.push((ps, c)) + rest);
                        },
                        None => {},
                    }
                    done = done.push((ps, c));
                }
            }
        }
        self.expect(&TokenType::RightBrace, "expected '}' to close match")?;
        proof {
            if spec_arms is Some {
                assert(done + Seq::<(PatternShape, CoreExpr)>::empty() =~= done);
            }
        }
        Ok(Expression::Match { value, cases, source_location: start_location })
    }

    /// Parses `pattern => expression`.
    #[verifier::spinoff_prover]
    #[verifier::rlimit(100)]
    pub fn parse_match_arm(&mut self) -> (r: Result<MatchCase, ParserError>)
        requires
            old(self).wf(),
        ensures
            final(self).moved_from(*old(self)),
            r is Ok ==> final(self).pos() > old(self).pos(),
            pattern_at(old(self).toks(), old(self).pos()) matches Some((ps, b)) ==> (
                token_is(old(self).toks(), b, TokenType::FatArrow) ==> (
                    core_expression_at(old(self).toks(), b + 1) matches Some((c, d)) ==> (
                        r matches Ok(arm) && pattern_shape(arm.pattern) == ps && denotes(*arm.body, c)
                            && final(self).pos() == d))),
        decreases old(self).toks().len() - old(self).pos(), 14nat,
    {
        let start_location = self.current_location();
        let pattern = self.parse_pattern()?;
        self.expect(&TokenType::FatArrow, "expected '=>' after pattern")?;
        let body = Box::new(self.parse_expression()?);
        Ok(MatchCase { pattern, body, source_location: start_location })
    }

    /// Parses the bindings of `(x, y)` after an enum variant in a pattern;
    /// with `wildcards` an `_` stands for an ignored binding named `_`.
    #[verifier::spinoff_prover]
    #[verifier::rlimit(100)]
    fn parse_pattern_bindings(&mut self, wildcards: bool) -> (r: Result<Vec<Identifier>, ParserError>)
        requires
            old(self).wf(),
            old(self).cur() is LeftParen,
        ensures
            final(self).moved_from(*old(self)),
            r is Ok ==> final(self).pos() > old(self).pos(),
            r is Ok <==> bindings_at(old(self).toks(), old(self).pos(), wildcards) is Some,
            r matches Ok(bs) ==> bindings_at(old(self).toks(), old(self).pos(), wildcards)
                == Some((names_of(bs@), final(self).pos())),
    {
        let ghost toks = old(self).toks();
        let ghost i0 = old(self).pos();
        self.advance();
        let mut bindings: Vec<Identifier> = Vec::new();
        if !self.check(&TokenType::RightParen) {
            assert(names_of(bindings@) =~= Seq::<Seq<char>>::empty());
            loop
                invariant_except_break
                    self.moved_from(*old(self)),
                    self.pos() > old(self).pos(),
                    toks == self.toks(),
                    i0 == old(self).pos(),
                    bindings_at(toks, i0, wildcards) == match binding_items_at(toks, self.pos(), wildcards) {
                        Some((rest, k)) => Some((names_of(bindings@) + rest, k)),
                        None => None,
                    },
                ensures
                    self.moved_from(*old(self)),
                    self.pos() > old(self).pos(),
                    toks == self.toks(),
                    bindings_at(toks, i0, wildcards) == if self.cur() is RightParen {
                        Some((names_of(bindings@), self.pos() + 1))
                    } else {
                        None
                    },
                decreases self.toks().len() - self.pos(),
            {
                let ghost p = self.pos();
                let ghost before = bindings@;
                if wildcards && self.check(&TokenType::Underscore) {
                    self.advance();
                    bindings.push(Identifier::new(String::from_str("_"), self.current_location()));
                    proof {
                        reveal_strlit("_");
                    }
                } else {
                    let binding = self.parse_identifier()?;
                    bindings.push(binding);
                }
                proof {
                    let n = binding_item(toks[p].token_type, wildcards)->0;
                    assert(bindings@.last().name@ == n);
                    assert(bindings@.drop_last() =~= before);
                    assert(names_of(bindings@) =~= names_of(before).push(n));
                    match binding_items_at(toks, p + 2, wildcards) {
                        Some((rest, k)) => {
                            assert(names_of(before) + (seq![n] + rest) =~= names_of(bindings@) + rest);
                        },
                        None => {},
                    }
                    assert(names_of(before) + seq![n] =~= names_of(bindings@));
                }
                if self.check(&TokenType::Comma) {
                    self.advance();
                } else {
                    break;
                }
            }
        }
        self.expect(&TokenType::RightParen, "expected ')'")?;
        Ok(bindings)
    }

    /// Parses a pattern: `_`, a binding, `Enum::Variant(bindings)`,
    /// `Variant(bindings)`, `Variant binding`, `Struct { field: pattern, ... }`,
    /// or an integer, string or boolean literal.
    #[verifier::spinoff_prover]
    #[verifier::rlimit(100)]
    pub fn parse_pattern(&mut self) -> (r: Result<Pattern, ParserError>)
        requires
            old(self).wf(),
        ensures
            final(self).moved_from(*old(self)),
            r is Ok ==> final(self).pos() > old(self).pos(),
            r matches Ok(p) ==> (old(self).cur() is Underscore ==> (p matches Pattern::Wildcard { binding, .. } && binding is None)),
            r matches Ok(p) ==> (old(self).cur() is IntegerLiteral || old(self).cur() is StringLiteral
                || old(self).cur() is BoolLiteral ==> p is Literal),
            r is Ok ==> (old(self).cur() is Underscore || old(self).cur() is Identifier
                || old(self).cur() is IntegerLiteral || old(self).cur() is StringLiteral
                || old(self).cur() is BoolLiteral),
            r is Ok <==> pattern_at(old(self).toks(), old(self).pos()) is Some,
            r matches Ok(p) ==> pattern_at(old(self).toks(), old(self).pos()) == Some((pattern_shape(p), final(self).pos())),
            !(old(self).cur() is Underscore || old(self).cur() is Identifier || old(self).cur() is IntegerLiteral
                || old(self).cur() is StringLiteral || old(self).cur() is BoolLiteral) ==> (r matches Err(e)
                && e matches ParserError::UnexpectedToken { expected, location, .. }
                && expected@ == "pattern (_, identifier, or literal)"@
                && location == old(self).toks()[old(self).pos()].location),
        decreases old(self).toks().len() - old(self).pos(),
    {
        let ghost toks = old(self).toks();
        let ghost i = old(self).pos();
        let start_location = self.current_location();

        if self.check(&TokenType::Underscore) {
            self.advance();
            return Ok(Pattern::Wildcard { binding: None, source_location: start_location });
        }

        let ident = match &self.peek().token_type {
            TokenType::Identifier(name) => Some(name.clone()),
            _ => None,
        };
        if let Some(name) = ident {
            self.advance();
            if self.check(&TokenType::DoubleColon) {
                self.advance();
                let variant_name = self.parse_identifier()?;
                let bindings = if self.check(&TokenType::LeftParen) {
                    self.parse_pattern_bindings(true)?
                } else {
                    let empty: Vec<Identifier> = Vec::new();
                    assert(names_of(empty@) =~= Seq::<Seq<char>>::empty());
                    empty
                };
                return Ok(Pattern::EnumVariant {
                    enum_name: Some(Identifier::new(name, start_location.duplicate())),
                    variant_name,
                    bindings,
                    nested_pattern: None,
                    source_location: start_location,
                });
            }
            if self.check(&TokenType::LeftBrace) {
                self.advance();
                let mut fields: Vec<(Identifier, Pattern)> = Vec::new();
                assert(field_shapes(fields@) =~= Seq::<(Seq<char>, PatternShape)>::empty());
                while !self.check(&TokenType::RightBrace) && !self.is_at_end()
                    invariant_except_break
                        old(self).cur() is Identifier,
                        self.moved_from(*old(self)),
                        self.pos() > old(self).pos(),
                        toks == self.toks(),
                        i == old(self).pos(),
                        pattern_at(toks, i) == match field_items_at(toks, i + 2) {
                            Some((fs, k)) => Some((PatternShape::Struct(ident_name(toks[i].token_type)@, fs), k)),
                            None => None,
                        },
                        field_items_at(toks, i + 2) == match field_items_at(toks, self.pos()) {
                            Some((rest, m)) => Some((field_shapes(fields@) + rest, m)),
                            None => None,
                        },
                    ensures
                        self.moved_from(*old(self)),
                        self.pos() > old(self).pos(),
                        toks == self.toks(),
                        field_items_at(toks, i + 2) == if self.cur() is RightBrace {
                            Some((field_shapes(fields@), self.pos() + 1))
                        } else {
                            None
                        },
                    decreases self.toks().len() - self.pos(),
                {
                    let ghost p = self.pos();
                    let ghost before = fields@;
                    let field_name = self.parse_identifier()?;
                    let pattern = if self.check(&TokenType::Colon) {
                        self.advance();
                        self.parse_pattern()?
                    } else {
                        Pattern::Wildcard {
                            binding: Some(field_name.duplicate()),
                            source_location: field_name.source_location.duplicate(),
                        }
                    };
                    let ghost entry = (field_name.name@, pattern_shape(pattern));
                    fields.push((field_name, pattern));
                    proof {
                        assert(fields@.drop_last() =~= before);
                        assert(field_shapes(fields@) =~= field_shapes(before).push(entry));
                        match field_items_at(toks, self.pos() + 1) {
                            Some((rest, m)) => {
                                assert(field_shapes(before) + (seq![entry] + rest) =~= field_shapes(fields@) + rest);
                            },
                            None => {},
                        }
                        assert(field_shapes(before) + seq![entry] =~= field_shapes(fields@));
                    }
                    if self.check(&TokenType::Comma) {
                        self.advance();
                    } else {
                        break;
                    }
                }
                self.expect(&TokenType::RightBrace, "expected '}' after struct pattern fields")?;
                return Ok(Pattern::Struct {
                    struct_name: Identifier::new(name, start_location.duplicate()),
                    fields,
                    source_location: start_location,
                });
            }
            if self.check(&TokenType::LeftParen) {
                let bindings = self.parse_pattern_bindings(false)?;
                return Ok(Pattern::EnumVariant {
                    enum_name: None,
                    variant_name: Identifier::new(name, start_location.duplicate()),
                    bindings,
                    nested_pattern: None,
                    source_location: start_location,
                });
            }
            if matches!(self.peek().token_type, TokenType::Identifier(_)) {
                let binding = self.parse_identifier()?;
                let mut bindings: Vec<Identifier> = Vec::new();
                bindings.push(binding);
                assert(names_of(bindings@) =~= seq![ident_name(toks[i + 1].token_type)@]);
                return Ok(Pattern::EnumVariant {
                    enum_name: None,
                    variant_name: Identifier::new(name, start_location.duplicate()),
                    bindings,
                    nested_pattern: None,
                    source_location: start_location,
                });
            }
            return Ok(Pattern::Wildcard {
                binding: Some(Identifier::new(name, start_location.duplicate())),
                source_location: start_location,
            });
        }

        let literal = match &self.peek().token_type {
            TokenType::IntegerLiteral(value) => Some(Expression::IntegerLiteral {
                value: *value,
                source_location: start_location.duplicate(),
            }),
            TokenType::StringLiteral(value) => Some(Expression::StringLiteral {
                value: value.clone(),
                source_location: start_location.duplicate(),
            }),
            TokenType::BoolLiteral(value) => Some(Expression::BooleanLiteral {
                value: *value,
                source_location: start_location.duplicate(),
            }),
            _ => None,
        };
        if let Some(value) = literal {
            self.advance();
            return Ok(Pattern::Literal { value: Box::new(value), source_location: start_location });
        }
        Err(self.unexpected("pattern (_, identifier, or literal)"))
    }
}

} // verus!
