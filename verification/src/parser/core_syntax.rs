//! The core statement language of both grammars and where it is read
//! from: declarations, returns, assignments, expression statements,
//! conditionals, loops, `match`, `concurrent`, `try` and `throw`, built of
//! core expressions, types and patterns. The statement parsers of both
//! grammars state what they produce on it exactly; `extended` selects the
//! grammar with precedence (`if`, `try`, `throw`) over the one with braced
//! binary expressions (`when`).

use vstd::prelude::*;
use crate::ast::{
    AssignmentTarget, Block, CatchClause, ElseIf, Expression, MatchArm, Mutability, PrimitiveType, Statement,
};
use crate::lexer::v2::{Keyword, Token, TokenType};
use crate::parser::v2::expressions::{CoreExpr, PatternShape, denotes, pattern_at, pattern_shape};
use crate::parser::v2::types::{TypeShape, shape_of, token_is, type_at};

verus! {

/// The place an assignment writes: a variable, an element `name[index]`,
/// or a field `name.field`.
pub enum CoreTarget {
    Var(Seq<char>),
    Index(Seq<char>, CoreExpr),
    Field(Seq<char>, Seq<char>),
}

/// A core statement.
pub enum CoreStmt {
    /// `let [mut] name [: type] [= value];` or `var ...` (mutable).
    Let(Seq<char>, TypeShape, bool, Option<CoreExpr>),
    Return(Option<CoreExpr>),
    Assign(CoreTarget, CoreExpr),
    Expr(CoreExpr),
    /// The condition, the block, the `else if` arms and the `else` block.
    If(CoreExpr, Seq<CoreStmt>, Seq<(CoreExpr, Seq<CoreStmt>)>, Option<Seq<CoreStmt>>),
    While(CoreExpr, Seq<CoreStmt>),
    /// `for name in from..to` (inclusive with `..=`).
    Count(Seq<char>, CoreExpr, CoreExpr, bool, Seq<CoreStmt>),
    /// `for name [: type] in collection`.
    Each(Seq<char>, TypeShape, CoreExpr, Seq<CoreStmt>),
    /// The value and the arms: pattern, guard and body.
    Match(CoreExpr, Seq<(PatternShape, Option<CoreExpr>, Seq<CoreStmt>)>),
    Break,
    Continue,
    Concurrent(Seq<CoreStmt>),
    /// The protected block, the catch clauses (type, binding, handler) and
    /// the `finally` block.
    Try(Seq<CoreStmt>, Seq<(TypeShape, Option<Seq<char>>, Seq<CoreStmt>)>, Option<Seq<CoreStmt>>),
    Throw(CoreExpr),
}

// ==================== WHAT A SYNTAX TREE SAYS ====================

/// An optional expression is the optional core expression.
pub open spec fn opt_denotes(e: Option<Box<Expression>>, c: Option<CoreExpr>) -> bool {
    match e {
        Some(x) => c is Some && denotes(*x, c->0),
        None => c is None,
    }
}

/// An assignment target is the core target.
pub open spec fn target_denotes(t: AssignmentTarget, c: CoreTarget) -> bool {
    match c {
        CoreTarget::Var(n) => t matches AssignmentTarget::Variable { name } && name.name@ == n,
        CoreTarget::Index(n, i) => t matches AssignmentTarget::ArrayElement { array, index }
            && denotes(*array, CoreExpr::Var(n)) && denotes(*index, i),
        CoreTarget::Field(n, f) => t matches AssignmentTarget::StructField { instance, field_name }
            && denotes(*instance, CoreExpr::Var(n)) && field_name.name@ == f,
    }
}

/// Statements are the core statements, one for one.
pub open spec fn stmts_denote(ss: Seq<Statement>, cs: Seq<CoreStmt>) -> bool
    decreases ss,
{
    if ss.len() == 0 {
        cs.len() == 0
    } else {
        &&& cs.len() == ss.len()
        &&& stmts_denote(ss.drop_last(), cs.drop_last())
        &&& stmt_denotes(ss.last(), cs.last())
    }
}

/// An optional block is the optional core block.
pub open spec fn opt_block_denotes(b: Option<Block>, c: Option<Seq<CoreStmt>>) -> bool
    decreases b,
{
    match b {
        Some(x) => c is Some && stmts_denote(x.statements@, c->0),
        None => c is None,
    }
}

/// `else if` arms are the core arms, one for one.
pub open spec fn else_ifs_denote(es: Seq<ElseIf>, cs: Seq<(CoreExpr, Seq<CoreStmt>)>) -> bool
    decreases es,
{
    if es.len() == 0 {
        cs.len() == 0
    } else {
        &&& cs.len() == es.len()
        &&& else_ifs_denote(es.drop_last(), cs.drop_last())
        &&& denotes(*es.last().condition, cs.last().0)
        &&& stmts_denote(es.last().block.statements@, cs.last().1)
    }
}

/// Match arms are the core arms, one for one.
pub open spec fn arms_denote(arms: Seq<MatchArm>, cs: Seq<(PatternShape, Option<CoreExpr>, Seq<CoreStmt>)>) -> bool
    decreases arms,
{
    if arms.len() == 0 {
        cs.len() == 0
    } else {
        &&& cs.len() == arms.len()
        &&& arms_denote(arms.drop_last(), cs.drop_last())
        &&& pattern_shape(arms.last().pattern) == cs.last().0
        &&& opt_denotes(arms.last().guard, cs.last().1)
        &&& stmts_denote(arms.last().body.statements@, cs.last().2)
    }
}

/// Catch clauses are the core clauses, one for one.
pub open spec fn catches_denote(cl: Seq<CatchClause>, cs: Seq<(TypeShape, Option<Seq<char>>, Seq<CoreStmt>)>) -> bool
    decreases cl,
{
    if cl.len() == 0 {
        cs.len() == 0
    } else {
        &&& cs.len() == cl.len()
        &&& catches_denote(cl.drop_last(), cs.drop_last())
        &&& shape_of(*cl.last().exception_type) == cs.last().0
        &&& match cl.last().binding_variable {
            Some(b) => cs.last().1 == Some(b.name@),
            None => cs.last().1 is None,
        }
        &&& stmts_denote(cl.last().handler_block.statements@, cs.last().2)
    }
}

/// The syntax tree `s` is the core statement `c` (source locations aside).
pub open spec fn stmt_denotes(s: Statement, c: CoreStmt) -> bool
    decreases s,
{
    match s {
        Statement::VariableDeclaration { name, type_spec, mutability, initial_value, intent, .. } => match c {
            CoreStmt::Let(n, t, m, init) => name.name@ == n && shape_of(*type_spec) == t
                && ((mutability == Mutability::Mutable) == m) && opt_denotes(initial_value, init) && intent is None,
            _ => false,
        },
        Statement::Return { value, .. } => match c {
            CoreStmt::Return(v) => opt_denotes(value, v),
            _ => false,
        },
        Statement::Assignment { target, value, .. } => match c {
            CoreStmt::Assign(t, v) => target_denotes(target, t) && denotes(*value, v),
            _ => false,
        },
        Statement::Expression { expr, .. } => match c {
            CoreStmt::Expr(v) => denotes(*expr, v),
            _ => false,
        },
        Statement::Throw { exception, .. } => match c {
            CoreStmt::Throw(v) => denotes(*exception, v),
            _ => false,
        },
        Statement::If { condition, then_block, else_ifs, else_block, .. } => match c {
            CoreStmt::If(cond, then, elifs, els) => denotes(*condition, cond)
                && stmts_denote(then_block.statements@, then) && else_ifs_denote(else_ifs@, elifs)
                && opt_block_denotes(else_block, els),
            _ => false,
        },
        Statement::WhileLoop { condition, invariant: loop_invariant, body, label, .. } => match c {
            CoreStmt::While(cond, b) => denotes(*condition, cond) && stmts_denote(body.statements@, b)
                && loop_invariant is None && label is None,
            _ => false,
        },
        Statement::FixedIterationLoop { counter, from_value, to_value, step_value, inclusive, body, label, .. } => match c {
            CoreStmt::Count(n, f, t, incl, b) => counter.name@ == n && denotes(*from_value, f) && denotes(*to_value, t)
                && step_value is None && inclusive == incl && stmts_denote(body.statements@, b) && label is None,
            _ => false,
        },
        Statement::ForEachLoop { collection, element_binding, element_type, index_binding, body, label, .. } => match c {
            CoreStmt::Each(n, t, coll, b) => element_binding.name@ == n && shape_of(*element_type) == t
                && denotes(*collection, coll) && index_binding is None && stmts_denote(body.statements@, b)
                && label is None,
            _ => false,
        },
        Statement::Match { value, arms, .. } => match c {
            CoreStmt::Match(v, a) => denotes(*value, v) && arms_denote(arms@, a),
            _ => false,
        },
        Statement::Break { target_label, .. } => c is Break && target_label is None,
        Statement::Continue { target_label, .. } => c is Continue && target_label is None,
        Statement::Concurrent { block, .. } => match c {
            CoreStmt::Concurrent(b) => stmts_denote(block.statements@, b),
            _ => false,
        },
        Statement::TryBlock { protected_block, catch_clauses, finally_block, .. } => match c {
            CoreStmt::Try(b, cl, f) => stmts_denote(protected_block.statements@, b)
                && catches_denote(catch_clauses@, cl) && opt_block_denotes(finally_block, f),
            _ => false,
        },
    }
}

/// Pushing a statement and its core statement keeps the denotation.
pub proof fn lemma_stmts_denote_push(ss: Seq<Statement>, cs: Seq<CoreStmt>, s: Statement, c: CoreStmt)
    requires
        stmts_denote(ss, cs),
        stmt_denotes(s, c),
    ensures
        stmts_denote(ss.push(s), cs.push(c)),
{
    assert(ss.push(s).drop_last() =~= ss);
    assert(cs.push(c).drop_last() =~= cs);
}

/// Pushing an `else if` arm and its core arm keeps the denotation.
pub proof fn lemma_else_ifs_denote_push(es: Seq<ElseIf>, cs: Seq<(CoreExpr, Seq<CoreStmt>)>, e: ElseIf, c: (CoreExpr, Seq<CoreStmt>))
    requires
        else_ifs_denote(es, cs),
        denotes(*e.condition, c.0),
        stmts_denote(e.block.statements@, c.1),
    ensures
        else_ifs_denote(es.push(e), cs.push(c)),
{
    assert(es.push(e).drop_last() =~= es);
    assert(cs.push(c).drop_last() =~= cs);
}

/// Pushing a match arm and its core arm keeps the denotation.
pub proof fn lemma_arms_denote_push(
    arms: Seq<MatchArm>,
    cs: Seq<(PatternShape, Option<CoreExpr>, Seq<CoreStmt>)>,
    a: MatchArm,
    c: (PatternShape, Option<CoreExpr>, Seq<CoreStmt>),
)
    requires
        arms_denote(arms, cs),
        pattern_shape(a.pattern) == c.0,
        opt_denotes(a.guard, c.1),
        stmts_denote(a.body.statements@, c.2),
    ensures
        arms_denote(arms.push(a), cs.push(c)),
{
    assert(arms.push(a).drop_last() =~= arms);
    assert(cs.push(c).drop_last() =~= cs);
}

/// Pushing a catch clause and its core clause keeps the denotation.
pub proof fn lemma_catches_denote_push(
    cl: Seq<CatchClause>,
    cs: Seq<(TypeShape, Option<Seq<char>>, Seq<CoreStmt>)>,
    k: CatchClause,
    c: (TypeShape, Option<Seq<char>>, Seq<CoreStmt>),
)
    requires
        catches_denote(cl, cs),
        shape_of(*k.exception_type) == c.0,
        match k.binding_variable {
            Some(b) => c.1 == Some(b.name@),
            None => c.1 is None,
        },
        stmts_denote(k.handler_block.statements@, c.2),
    ensures
        catches_denote(cl.push(k), cs.push(c)),
{
    assert(cl.push(k).drop_last() =~= cl);
    assert(cs.push(c).drop_last() =~= cs);
}

/// A conditional with condition `c`, block `b` and the `else if` arms
/// `elifs` read so far, completed by what the rest `tail` reads.
pub open spec fn if_with(
    c: CoreExpr,
    b: Seq<CoreStmt>,
    elifs: Seq<(CoreExpr, Seq<CoreStmt>)>,
    tail: Option<(Seq<(CoreExpr, Seq<CoreStmt>)>, Option<Seq<CoreStmt>>, int)>,
) -> Option<(CoreStmt, int)> {
    match tail {
        Some((es, el, e)) => Some((CoreStmt::If(c, b, elifs + es, el), e)),
        None => None,
    }
}

/// Moving one `else if` arm from the rest of a conditional to the arms read.
pub proof fn lemma_if_with_arm(
    c: CoreExpr,
    b: Seq<CoreStmt>,
    elifs: Seq<(CoreExpr, Seq<CoreStmt>)>,
    arm: (CoreExpr, Seq<CoreStmt>),
    tail: Option<(Seq<(CoreExpr, Seq<CoreStmt>)>, Option<Seq<CoreStmt>>, int)>,
)
    ensures
        if_with(c, b, elifs, match tail {
            Some((es, el, e)) => Some((seq![arm] + es, el, e)),
            None => None,
        }) == if_with(c, b, elifs.push(arm), tail),
{
    match tail {
        Some((es, el, e)) => {
            assert(elifs + (seq![arm] + es) =~= elifs.push(arm) + es);
        },
        None => {},
    }
}

/// A conditional with nothing after its arms read so far.
pub proof fn lemma_if_with_end(
    c: CoreExpr,
    b: Seq<CoreStmt>,
    elifs: Seq<(CoreExpr, Seq<CoreStmt>)>,
    els: Option<Seq<CoreStmt>>,
    e: int,
)
    ensures
        if_with(c, b, elifs, Some((seq![], els, e))) == Some((CoreStmt::If(c, b, elifs, els), e)),
{
    assert(elifs + Seq::<(CoreExpr, Seq<CoreStmt>)>::empty() =~= elifs);
}

// ==================== WHERE IT IS READ FROM ====================

/// The keyword of a conditional: `if` with precedence, `when` otherwise.
pub open spec fn if_keyword(extended: bool) -> Keyword {
    if extended { Keyword::If } else { Keyword::When }
}

/// The token at `i` is the keyword `k`.
pub open spec fn keyword_at(toks: Seq<Token>, i: int, k: Keyword) -> bool {
    0 <= i < toks.len() && toks[i].token_type == TokenType::Keyword(k)
}

/// The core expression read as a full expression at `i`.
pub open spec fn expression_at(toks: Seq<Token>, i: int, extended: bool) -> Option<(CoreExpr, int)> {
    if extended {
        crate::parser::extended::expressions::core_full_at(toks, i)
    } else {
        crate::parser::v2::expressions::core_expression_at(toks, i)
    }
}

/// The core expression read as an operand (the bounds of a `for` loop) at `i`.
pub open spec fn operand_at(toks: Seq<Token>, i: int, extended: bool) -> Option<(CoreExpr, int)> {
    if extended {
        crate::parser::extended::expressions::core_primary_at(toks, i)
    } else {
        crate::parser::v2::expressions::core_primary_at(toks, i)
    }
}

/// The name of the placeholder type of a declaration without a type.
pub open spec fn inferred_name() -> Seq<char> {
    seq!['_', 'i', 'n', 'f', 'e', 'r', 'r', 'e', 'd']
}

/// A declaration `let [mut] name [: type] [= value];` or `var name ...;`
/// at `i`, and the index after it.
pub open spec fn core_let_at(toks: Seq<Token>, i: int, extended: bool) -> Option<(CoreStmt, int)> {
    let is_var = keyword_at(toks, i, Keyword::Var);
    let is_mut = !is_var && keyword_at(toks, i + 1, Keyword::Mut);
    let j = if is_mut { i + 2 } else { i + 1 };
    if (is_var || keyword_at(toks, i, Keyword::Let)) && 0 <= j < toks.len() && toks[j].token_type is Identifier {
        let name = toks[j].token_type->Identifier_0@;
        let typed = if token_is(toks, j + 1, TokenType::Colon) {
            match type_at(toks, j + 2, extended) {
                Some((t, k)) => if j + 2 < k <= toks.len() { Some((t, k)) } else { None },
                None => None,
            }
        } else {
            Some((TypeShape::Named(inferred_name()), j + 1))
        };
        match typed {
            Some((t, k)) => {
                let init = if token_is(toks, k, TokenType::Equal) {
                    match expression_at(toks, k + 1, extended) {
                        Some((e, m)) => Some((Some(e), m)),
                        None => None,
                    }
                } else {
                    Some((None, k))
                };
                match init {
                    Some((e, m)) => if token_is(toks, m, TokenType::Semicolon) {
                        Some((CoreStmt::Let(name, t, is_var || is_mut, e), m + 1))
                    } else {
                        None
                    },
                    None => None,
                }
            },
            None => None,
        }
    } else {
        None
    }
}

/// `return [value];` at `i`, and the index after it.
pub open spec fn core_return_at(toks: Seq<Token>, i: int, extended: bool) -> Option<(CoreStmt, int)> {
    if keyword_at(toks, i, Keyword::Return) {
        if token_is(toks, i + 1, TokenType::Semicolon) {
            Some((CoreStmt::Return(None), i + 2))
        } else {
            match expression_at(toks, i + 1, extended) {
                Some((e, k)) => if token_is(toks, k, TokenType::Semicolon) {
                    Some((CoreStmt::Return(Some(e)), k + 1))
                } else {
                    None
                },
                None => None,
            }
        }
    } else {
        None
    }
}

/// An assignment target `name`, `name[index]` or `name.field` at `i`, and
/// the index after it.
pub open spec fn core_target_at(toks: Seq<Token>, i: int, extended: bool) -> Option<(CoreTarget, int)> {
    if 0 <= i < toks.len() && toks[i].token_type is Identifier {
        let name = toks[i].token_type->Identifier_0@;
        if token_is(toks, i + 1, TokenType::LeftBracket) {
            match expression_at(toks, i + 2, extended) {
                Some((e, k)) => if token_is(toks, k, TokenType::RightBracket) {
                    Some((CoreTarget::Index(name, e), k + 1))
                } else {
                    None
                },
                None => None,
            }
        } else if token_is(toks, i + 1, TokenType::Dot) {
            if i + 2 < toks.len() && toks[i + 2].token_type is Identifier {
                Some((CoreTarget::Field(name, toks[i + 2].token_type->Identifier_0@), i + 3))
            } else {
                None
            }
        } else {
            Some((CoreTarget::Var(name), i + 1))
        }
    } else {
        None
    }
}

/// `target = value;` at `i`, and the index after it.
pub open spec fn core_assign_at(toks: Seq<Token>, i: int, extended: bool) -> Option<(CoreStmt, int)> {
    match core_target_at(toks, i, extended) {
        Some((t, j)) => if token_is(toks, j, TokenType::Equal) {
            match expression_at(toks, j + 1, extended) {
                Some((e, k)) => if token_is(toks, k, TokenType::Semicolon) {
                    Some((CoreStmt::Assign(t, e), k + 1))
                } else {
                    None
                },
                None => None,
            }
        } else {
            None
        },
        None => None,
    }
}

/// `expression;` at `i`, and the index after it.
pub open spec fn core_expr_stmt_at(toks: Seq<Token>, i: int, extended: bool) -> Option<(CoreStmt, int)> {
    match expression_at(toks, i, extended) {
        Some((e, k)) => if token_is(toks, k, TokenType::Semicolon) {
            Some((CoreStmt::Expr(e), k + 1))
        } else {
            None
        },
        None => None,
    }
}

/// `throw expression;` at `i`, and the index after it.
pub open spec fn core_throw_at(toks: Seq<Token>, i: int, extended: bool) -> Option<(CoreStmt, int)> {
    if keyword_at(toks, i, Keyword::Throw) {
        match expression_at(toks, i + 1, extended) {
            Some((e, k)) => if token_is(toks, k, TokenType::Semicolon) {
                Some((CoreStmt::Throw(e), k + 1))
            } else {
                None
            },
            None => None,
        }
    } else {
        None
    }
}

/// A block `{ statement* }` at `i`, and the index after its `}`.
pub open spec fn core_block_at(toks: Seq<Token>, i: int, extended: bool) -> Option<(Seq<CoreStmt>, int)>
    decreases toks.len() - i, 0int,
{
    if 0 <= i < toks.len() && toks[i].token_type is LeftBrace {
        core_stmts_from(toks, i + 1, extended)
    } else {
        None
    }
}

/// The statements of a block from `j` up to its `}`, and the index after it.
pub open spec fn core_stmts_from(toks: Seq<Token>, j: int, extended: bool) -> Option<(Seq<CoreStmt>, int)>
    decreases toks.len() - j, 2int,
{
    if j < 0 || j >= toks.len() || toks[j].token_type is Eof {
        None
    } else if toks[j].token_type is RightBrace {
        Some((seq![], j + 1))
    } else {
        match core_stmt_at(toks, j, extended) {
            Some((c, k)) => if j < k <= toks.len() {
                match core_stmts_from(toks, k, extended) {
                    Some((rest, m)) => Some((seq![c] + rest, m)),
                    None => None,
                }
            } else {
                None
            },
            None => None,
        }
    }
}

/// An `if cond { }` arm (`when` in place of `if` without precedence) at
/// `i`, as it follows `else`, and the index after it.
pub open spec fn core_else_if_at(toks: Seq<Token>, i: int, extended: bool) -> Option<((CoreExpr, Seq<CoreStmt>), int)>
    decreases toks.len() - i, 0int,
{
    if keyword_at(toks, i, if_keyword(extended)) {
        match expression_at(toks, i + 1, extended) {
            Some((c, k)) => if i + 1 < k <= toks.len() {
                match core_block_at(toks, k, extended) {
                    Some((b, m)) => Some(((c, b), m)),
                    None => None,
                }
            } else {
                None
            },
            None => None,
        }
    } else {
        None
    }
}

/// The `else if` arms and `else` block from `j`, after a conditional's
/// block, and the index after them.
pub open spec fn core_if_tail(toks: Seq<Token>, j: int, extended: bool)
    -> Option<(Seq<(CoreExpr, Seq<CoreStmt>)>, Option<Seq<CoreStmt>>, int)>
    decreases toks.len() - j, 0int,
{
    if keyword_at(toks, j, Keyword::Else) {
        if keyword_at(toks, j + 1, if_keyword(extended)) {
            match core_else_if_at(toks, j + 1, extended) {
                Some((arm, m)) => if j < m <= toks.len() {
                    match core_if_tail(toks, m, extended) {
                        Some((es, el, e)) => Some((seq![arm] + es, el, e)),
                        None => None,
                    }
                } else {
                    None
                },
                None => None,
            }
        } else {
            match core_block_at(toks, j + 1, extended) {
                Some((b, m)) => Some((seq![], Some(b), m)),
                None => None,
            }
        }
    } else {
        Some((seq![], None, j))
    }
}

/// A conditional `if cond { } [else if cond { }]* [else { }]` (`when` in
/// place of `if` without precedence) at `i`, and the index after it.
pub open spec fn core_if_at(toks: Seq<Token>, i: int, extended: bool) -> Option<(CoreStmt, int)>
    decreases toks.len() - i, 0int,
{
    if keyword_at(toks, i, if_keyword(extended)) {
        match expression_at(toks, i + 1, extended) {
            Some((c, k)) => if i + 1 < k <= toks.len() {
                match core_block_at(toks, k, extended) {
                    Some((b, m)) => if k < m <= toks.len() {
                        match core_if_tail(toks, m, extended) {
                            Some((es, el, e)) => Some((CoreStmt::If(c, b, es, el), e)),
                            None => None,
                        }
                    } else {
                        None
                    },
                    None => None,
                }
            } else {
                None
            },
            None => None,
        }
    } else {
        None
    }
}

/// `while cond { }` at `i`, and the index after it.
pub open spec fn core_while_at(toks: Seq<Token>, i: int, extended: bool) -> Option<(CoreStmt, int)>
    decreases toks.len() - i, 0int,
{
    if keyword_at(toks, i, Keyword::While) {
        match expression_at(toks, i + 1, extended) {
            Some((c, k)) => if i + 1 < k <= toks.len() {
                match core_block_at(toks, k, extended) {
                    Some((b, m)) => Some((CoreStmt::While(c, b), m)),
                    None => None,
                }
            } else {
                None
            },
            None => None,
        }
    } else {
        None
    }
}

/// The head `for name [: type]` of a for loop at `i`: the name, the type
/// where one is written, and the index after them.
pub open spec fn for_head_at(toks: Seq<Token>, i: int, extended: bool) -> Option<(Seq<char>, Option<TypeShape>, int)> {
    if keyword_at(toks, i, Keyword::For) && i + 1 < toks.len() && toks[i + 1].token_type is Identifier {
        let name = toks[i + 1].token_type->Identifier_0@;
        if token_is(toks, i + 2, TokenType::Colon) {
            match type_at(toks, i + 3, extended) {
                Some((t, k)) => if i + 3 < k <= toks.len() { Some((name, Some(t), k)) } else { None },
                None => None,
            }
        } else {
            Some((name, None, i + 2))
        }
    } else {
        None
    }
}

/// The rest `in from..to { }` (`..=` inclusive) or `in collection { }` of
/// a for loop over `name` of type `ty` from `k`, and the index after it.
pub open spec fn core_for_rest(toks: Seq<Token>, name: Seq<char>, ty: Option<TypeShape>, k: int, extended: bool) -> Option<(CoreStmt, int)>
    decreases toks.len() - k, 1int,
{
    if keyword_at(toks, k, Keyword::In) {
        match operand_at(toks, k + 1, extended) {
            Some((f, m)) => if k + 1 < m <= toks.len() { core_for_tail(toks, name, ty, f, m, extended) } else { None },
            None => None,
        }
    } else {
        None
    }
}

/// What follows the first operand `f` of a for loop, at `m`: `..` or `..=`,
/// the end and the body of a counting loop, or the body of a for-each loop
/// over the collection `f` (without a type its elements are `Int`).
pub open spec fn core_for_tail(
    toks: Seq<Token>,
    name: Seq<char>,
    ty: Option<TypeShape>,
    f: CoreExpr,
    m: int,
    extended: bool,
) -> Option<(CoreStmt, int)>
    decreases toks.len() - m, 1int,
{
    if token_is(toks, m, TokenType::DotDot) || token_is(toks, m, TokenType::DotDotEqual) {
        match operand_at(toks, m + 1, extended) {
            Some((t, p)) => if m + 1 < p <= toks.len() {
                match core_block_at(toks, p, extended) {
                    Some((b, e)) => Some((CoreStmt::Count(name, f, t, token_is(toks, m, TokenType::DotDotEqual), b), e)),
                    None => None,
                }
            } else {
                None
            },
            None => None,
        }
    } else {
        match core_block_at(toks, m, extended) {
            Some((b, e)) => Some((
                CoreStmt::Each(
                    name,
                    match ty {
                        Some(t) => t,
                        None => TypeShape::Primitive(PrimitiveType::Integer),
                    },
                    f,
                    b,
                ),
                e,
            )),
            None => None,
        }
    }
}

/// `for name [: type] in from..to { }` (`..=` inclusive) or
/// `for name [: type] in collection { }` at `i`, and the index after it.
pub open spec fn core_for_at(toks: Seq<Token>, i: int, extended: bool) -> Option<(CoreStmt, int)>
    decreases toks.len() - i, 0int,
{
    match for_head_at(toks, i, extended) {
        Some((name, ty, k)) => if i < k { core_for_rest(toks, name, ty, k, extended) } else { None },
        None => None,
    }
}

/// The arms `pattern [if guard] => { } ... }` of a match from `j`, and the
/// index after the `}`.
pub open spec fn core_arms_from(toks: Seq<Token>, j: int, extended: bool)
    -> Option<(Seq<(PatternShape, Option<CoreExpr>, Seq<CoreStmt>)>, int)>
    decreases toks.len() - j, 0int,
{
    if j < 0 || j >= toks.len() || toks[j].token_type is Eof {
        None
    } else if toks[j].token_type is RightBrace {
        Some((seq![], j + 1))
    } else {
        match pattern_at(toks, j) {
            Some((p, k)) => if j < k <= toks.len() {
                let guarded = if keyword_at(toks, k, Keyword::If) {
                    match expression_at(toks, k + 1, extended) {
                        Some((g, m)) => Some((Some(g), m)),
                        None => None,
                    }
                } else {
                    Some((None, k))
                };
                match guarded {
                    Some((g, m)) => if k <= m < toks.len() && toks[m].token_type is FatArrow {
                        match core_block_at(toks, m + 1, extended) {
                            Some((b, n)) => if m + 1 < n <= toks.len() {
                                match core_arms_from(toks, n, extended) {
                                    Some((rest, e)) => Some((seq![(p, g, b)] + rest, e)),
                                    None => None,
                                }
                            } else {
                                None
                            },
                            None => None,
                        }
                    } else {
                        None
                    },
                    None => None,
                }
            } else {
                None
            },
            None => None,
        }
    }
}

/// `match value { arms }` at `i`, and the index after it.
pub open spec fn core_match_at(toks: Seq<Token>, i: int, extended: bool) -> Option<(CoreStmt, int)>
    decreases toks.len() - i, 0int,
{
    if keyword_at(toks, i, Keyword::Match) {
        match expression_at(toks, i + 1, extended) {
            Some((v, k)) => if i + 1 < k < toks.len() && toks[k].token_type is LeftBrace {
                match core_arms_from(toks, k + 1, extended) {
                    Some((arms, e)) => Some((CoreStmt::Match(v, arms), e)),
                    None => None,
                }
            } else {
                None
            },
            None => None,
        }
    } else {
        None
    }
}

/// The catch clauses `catch type [as name] { } ...` from `j`, and the index
/// after them.
pub open spec fn core_catches_from(toks: Seq<Token>, j: int, extended: bool)
    -> Option<(Seq<(TypeShape, Option<Seq<char>>, Seq<CoreStmt>)>, int)>
    decreases toks.len() - j, 0int,
{
    if keyword_at(toks, j, Keyword::Catch) {
        match type_at(toks, j + 1, extended) {
            Some((t, k)) => if j + 1 < k <= toks.len() {
                let bound = if keyword_at(toks, k, Keyword::As) {
                    if k + 1 < toks.len() && toks[k + 1].token_type is Identifier {
                        Some((Some(toks[k + 1].token_type->Identifier_0@), k + 2))
                    } else {
                        None
                    }
                } else {
                    Some((None, k))
                };
                match bound {
                    Some((name, m)) => match core_block_at(toks, m, extended) {
                        Some((b, n)) => if j < n <= toks.len() {
                            match core_catches_from(toks, n, extended) {
                                Some((rest, e)) => Some((seq![(t, name, b)] + rest, e)),
                                None => None,
                            }
                        } else {
                            None
                        },
                        None => None,
                    },
                    None => None,
                }
            } else {
                None
            },
            None => None,
        }
    } else {
        Some((seq![], j))
    }
}

/// `try { } [catch ...]* [finally { }]` at `i`, and the index after it.
pub open spec fn core_try_at(toks: Seq<Token>, i: int, extended: bool) -> Option<(CoreStmt, int)>
    decreases toks.len() - i, 0int,
{
    if keyword_at(toks, i, Keyword::Try) {
        match core_block_at(toks, i + 1, extended) {
            Some((b, k)) => if i + 1 < k <= toks.len() {
                match core_catches_from(toks, k, extended) {
                    Some((cl, m)) => if k <= m <= toks.len() {
                        if keyword_at(toks, m, Keyword::Finally) {
                            match core_block_at(toks, m + 1, extended) {
                                Some((f, e)) => Some((CoreStmt::Try(b, cl, Some(f)), e)),
                                None => None,
                            }
                        } else {
                            Some((CoreStmt::Try(b, cl, None), m))
                        }
                    } else {
                        None
                    },
                    None => None,
                }
            } else {
                None
            },
            None => None,
        }
    } else {
        None
    }
}

/// `concurrent { }` at `i`, and the index after it.
pub open spec fn core_concurrent_at(toks: Seq<Token>, i: int, extended: bool) -> Option<(CoreStmt, int)>
    decreases toks.len() - i, 0int,
{
    if keyword_at(toks, i, Keyword::Concurrent) {
        match core_block_at(toks, i + 1, extended) {
            Some((b, e)) => Some((CoreStmt::Concurrent(b), e)),
            None => None,
        }
    } else {
        None
    }
}

/// The core statement at `i` and the index after it, chosen by its first
/// token as the parser chooses it: each statement keyword its statement,
/// an identifier before a target and `=` an assignment, anything else an
/// expression statement. `None` where what is written there is no core
/// statement (nothing is then said of it here).
pub open spec fn core_stmt_at(toks: Seq<Token>, i: int, extended: bool) -> Option<(CoreStmt, int)>
    decreases toks.len() - i, 1int,
{
    if keyword_at(toks, i, Keyword::Let) || keyword_at(toks, i, Keyword::Var) {
        core_let_at(toks, i, extended)
    } else if keyword_at(toks, i, Keyword::Return) {
        core_return_at(toks, i, extended)
    } else if keyword_at(toks, i, if_keyword(extended)) {
        core_if_at(toks, i, extended)
    } else if keyword_at(toks, i, Keyword::While) {
        core_while_at(toks, i, extended)
    } else if keyword_at(toks, i, Keyword::For) {
        core_for_at(toks, i, extended)
    } else if keyword_at(toks, i, Keyword::Match) {
        core_match_at(toks, i, extended)
    } else if keyword_at(toks, i, Keyword::Break) {
        if token_is(toks, i + 1, TokenType::Semicolon) { Some((CoreStmt::Break, i + 2)) } else { None }
    } else if keyword_at(toks, i, Keyword::Continue) {
        if token_is(toks, i + 1, TokenType::Semicolon) { Some((CoreStmt::Continue, i + 2)) } else { None }
    } else if keyword_at(toks, i, Keyword::Concurrent) {
        core_concurrent_at(toks, i, extended)
    } else if extended && keyword_at(toks, i, Keyword::Try) {
        core_try_at(toks, i, extended)
    } else if extended && keyword_at(toks, i, Keyword::Throw) {
        core_throw_at(toks, i, extended)
    } else if 0 <= i < toks.len() && toks[i].token_type is Identifier
        && crate::parser::v2::statements::assignment_ahead(toks, i + 1) {
        core_assign_at(toks, i, extended)
    } else {
        core_expr_stmt_at(toks, i, extended)
    }
}

} // verus!
