//! Expressions with operator precedence: ranges, `||`, `&&`, equality,
//! comparison, additive and multiplicative operators, unary operators,
//! calls (with labeled arguments), index and member accesses, and the
//! atoms: literals, variables, struct, enum, array and map literals,
//! braced and parenthesized expressions, lambdas and match expressions and
//! patterns.

use vstd::prelude::*;
use crate::ast::{
    Argument, Block, Capture, CaptureMode, Expression, FieldValue, FunctionCall, FunctionReference,
    Identifier, LambdaBody, MapEntry, MatchCase, Parameter, PassingMode, Pattern, PrimitiveType,
    Statement, TypeSpecifier,
};
use crate::error::{ParserError, SourceLocation};
use crate::lexer::v2::{Keyword, Token, TokenType};
use crate::parser::v2::expressions::{
    BinaryOp, CoreExpr, PatternShape, binary_location, arg_name, args_denote, binding_item, binding_items_at, bindings_at, denotes,
    lemma_args_denote_push, parsed_as, range_name, variable_head_at, variable_name,
    field_items_at, field_shapes, is_binary, literal_of, names_of, pattern_at, pattern_shape, placeholder_type,
    postfix_family, spec_arg_name, spec_binary_op, field_values_denote, values_denote,
    lemma_field_values_push, lemma_values_push, struct_fields_ahead, array_literal_ahead, bracket_end,
    boxed_values_denote, lemma_boxed_values_push, lemma_boxed_values_index, map_entries_denote,
    lemma_map_entries_push, captures_from, captures_view, lambda_params_from, params_view, params_plain, range_end_start, match_cases_denote, lemma_match_cases_push, closes_into_fat_arrow, lambda_params_ahead,
};
use crate::parser::v2::types::{ident_name, token_is, shape_of, type_at, TypeShape};
use super::Parser;
use crate::parser::core_syntax::{CoreStmt, core_block_at, core_stmt_at, core_stmts_from, lemma_stmts_denote_push, stmts_denote};

verus! {

/// How tightly an expression binds, by its outermost node: ranges 0, `||`
/// 1, `&&` 2, equality 3, comparison 4, additive 5, multiplicative 6,
/// unary 7, anything else 8.
pub open spec fn level_of(e: Expression) -> int {
    match e {
        Expression::Range { .. } => 0,
        Expression::LogicalOr { .. } => 1,
        Expression::LogicalAnd { .. } => 2,
        Expression::Equals { .. } => 3,
        Expression::NotEquals { .. } => 3,
        Expression::LessThan { .. } => 4,
        Expression::LessThanOrEqual { .. } => 4,
        Expression::GreaterThan { .. } => 4,
        Expression::GreaterThanOrEqual { .. } => 4,
        Expression::Add { .. } => 5,
        Expression::Subtract { .. } => 5,
        Expression::Multiply { .. } => 6,
        Expression::Divide { .. } => 6,
        Expression::Modulo { .. } => 6,
        Expression::LogicalNot { .. } => 7,
        Expression::Negate { .. } => 7,
        Expression::AddressOf { .. } => 7,
        _ => 8,
    }
}

/// An expression parsed from the current token binds at least as tightly
/// as `level`, unless it begins with a parenthesis, a brace or a bracket
/// (an empty capture list before a parenthesis), whose contents may be
/// anything.
pub open spec fn binds_at_least(first: TokenType, e: Expression, level: int) -> bool {
    level_of(e) >= level || first is LeftParen || first is LeftBrace || first is LeftBracket
}

/// The operator of each binary level: the token kinds that it takes.
pub open spec fn level_operator(level: int, t: TokenType) -> bool {
    if level == 1 {
        t is PipePipe
    } else if level == 2 {
        t is AmpAmp
    } else if level == 3 {
        t is EqualEqual || t is BangEqual
    } else if level == 4 {
        t is Less || t is LessEqual || t is Greater || t is GreaterEqual
    } else if level == 5 {
        t is Plus || t is Minus
    } else if level == 6 {
        t is Star || t is Slash || t is Percent
    } else {
        false
    }
}

/// The element type given to an array literal: the type of its first
/// element when that is an integer, float, string or boolean literal (at
/// that literal's location), otherwise `Int` at `location`.
pub open spec fn element_type_of(t: TypeSpecifier, elements: Seq<Box<Expression>>, location: SourceLocation) -> bool {
    t matches TypeSpecifier::Primitive { primitive_type, source_location } && {
        if elements.len() > 0 {
            match *elements[0] {
                Expression::IntegerLiteral { source_location: l, .. } => primitive_type == PrimitiveType::Integer && source_location == l,
                Expression::FloatLiteral { source_location: l, .. } => primitive_type == PrimitiveType::Float && source_location == l,
                Expression::StringLiteral { source_location: l, .. } => primitive_type == PrimitiveType::String && source_location == l,
                Expression::BooleanLiteral { source_location: l, .. } => primitive_type == PrimitiveType::Boolean && source_location == l,
                _ => primitive_type == PrimitiveType::Integer && source_location == location,
            }
        } else {
            primitive_type == PrimitiveType::Integer && source_location == location
        }
    }
}

/// The name of the `i`-th call argument: its label, or `arg_i`.
pub open spec fn argument_name(label: Option<String>, i: nat) -> Seq<char> {
    match label {
        Some(l) => l@,
        None => spec_arg_name(i),
    }
}

/// The view of an optional label.
pub open spec fn label_view(label: Option<String>) -> Option<Seq<char>> {
    match label {
        Some(l) => Some(l@),
        None => None,
    }
}

/// A parsed argument list is the named core arguments, one for one.
pub open spec fn labeled_denote(list: Seq<(Option<String>, Expression)>, cs: Seq<(Seq<char>, CoreExpr)>) -> bool {
    &&& list.len() == cs.len()
    &&& forall|k: int| 0 <= k < list.len() ==> arg_label_name(label_view((#[trigger] list[k]).0), k as nat) == cs[k].0
        && denotes(list[k].1, cs[k].1)
}

/// Arguments named and valued as `arguments_from` names them from a list
/// that denotes core arguments denote them too.
pub proof fn lemma_args_from_list(args: Seq<Argument>, list: Seq<(Option<String>, Expression)>, cs: Seq<(Seq<char>, CoreExpr)>)
    requires
        args.len() == list.len(),
        forall|i: int| 0 <= i < args.len() ==> {
            &&& (#[trigger] args[i]).parameter_name.name@ == argument_name(list[i].0, i as nat)
            &&& *args[i].value == list[i].1
        },
        labeled_denote(list, cs),
    ensures
        args_denote(args, cs),
    decreases args.len(),
{
    if args.len() > 0 {
        let n = (args.len() - 1) as int;
        assert(labeled_denote(list.drop_last(), cs.drop_last())) by {
            assert forall|k: int| 0 <= k < list.drop_last().len() implies arg_label_name(
                label_view((#[trigger] list.drop_last()[k]).0),
                k as nat,
            ) == cs.drop_last()[k].0 && denotes(list.drop_last()[k].1, cs.drop_last()[k].1) by {
                assert(list.drop_last()[k] == list[k]);
            }
        }
        assert forall|i: int| 0 <= i < args.drop_last().len() implies {
            &&& (#[trigger] args.drop_last()[i]).parameter_name.name@ == argument_name(list.drop_last()[i].0, i as nat)
            &&& *args.drop_last()[i].value == list.drop_last()[i].1
        } by {
            assert(args.drop_last()[i] == args[i]);
            assert(list.drop_last()[i] == list[i]);
        }
        lemma_args_from_list(args.drop_last(), list.drop_last(), cs.drop_last());
        assert(args[n].parameter_name.name@ == argument_name(list[n].0, n as nat));
        assert(arg_label_name(label_view(list[n].0), n as nat) == cs[n].0);
        assert(denotes(list[n].1, cs[n].1));
    }
}

/// A token at which an expression that `parse_expression` reads may
/// start: any but a keyword other than `match`.
pub open spec fn keyword_free_start(t: TokenType) -> bool {
    t is Keyword ==> t == TokenType::Keyword(Keyword::Match)
}

/// What `parse_atomic_expression` produces when the first token has kind
/// `first`.
pub open spec fn atom_head(first: TokenType, e: Expression) -> bool {
    match first {
        TokenType::IntegerLiteral(v) => e matches Expression::IntegerLiteral { value, .. } && value == v,
        TokenType::FloatLiteral(s) => e matches Expression::FloatLiteral { value, .. } && value == s,
        TokenType::StringLiteral(s) => e matches Expression::StringLiteral { value, .. } && value == s,
        TokenType::CharLiteral(c) => e matches Expression::CharacterLiteral { value, .. } && value == c,
        TokenType::BoolLiteral(b) => e matches Expression::BooleanLiteral { value, .. } && value == b,
        TokenType::Identifier(n) => (e matches Expression::Variable { name, .. } && name.name == n)
            || e is StructConstruct || e is EnumVariant,
        TokenType::Keyword(k) => k == Keyword::Match && e is Match,
        TokenType::LeftBracket => true,
        TokenType::LeftBrace => true,
        TokenType::LeftParen => true,
        _ => false,
    }
}

/// What `parse_primary_expression` may produce when the first token has
/// kind `first`.
pub open spec fn primary_head(first: TokenType, e: Expression) -> bool {
    match first {
        TokenType::Bang => e is LogicalNot,
        TokenType::Minus => e is Negate,
        TokenType::IntegerLiteral(v) => e matches Expression::IntegerLiteral { value, .. } && value == v,
        TokenType::FloatLiteral(s) => e matches Expression::FloatLiteral { value, .. } && value == s,
        TokenType::StringLiteral(s) => e matches Expression::StringLiteral { value, .. } && value == s,
        TokenType::CharLiteral(c) => e matches Expression::CharacterLiteral { value, .. } && value == c,
        TokenType::BoolLiteral(b) => e matches Expression::BooleanLiteral { value, .. } && value == b,
        TokenType::Keyword(k) => (k == Keyword::Range && (e is Variable || e is FunctionCall))
            || (k == Keyword::Match && e is Match),
        TokenType::Identifier(_) => postfix_family(e) || e is StructConstruct || e is EnumVariant,
        TokenType::LeftBracket => true,
        TokenType::LeftBrace => true,
        TokenType::LeftParen => true,
        _ => false,
    }
}

/// A `{` at index `i` starts a map literal: `{}`, or an identifier or a
/// string literal followed by `:`.
pub open spec fn map_entry_ahead(toks: Seq<Token>, i: int) -> bool {
    ||| (i + 1 < toks.len() && toks[i + 1].token_type is RightBrace)
    ||| (i + 2 < toks.len() && (toks[i + 1].token_type is Identifier || toks[i + 1].token_type is StringLiteral)
        && toks[i + 2].token_type is Colon)
}

/// The fields `name: value [,] ... }` of a struct construction from `j`,
/// each value a full expression, and the index after the `}`.
pub open spec fn core_field_values_from(toks: Seq<Token>, j: int) -> Option<(Seq<(Seq<char>, CoreExpr)>, int)>
    decreases toks.len() - j, 0int,
{
    if j < 0 || j >= toks.len() || toks[j].token_type is Eof {
        None
    } else if toks[j].token_type is RightBrace {
        Some((seq![], j + 1))
    } else if toks[j].token_type is Identifier && token_is(toks, j + 1, TokenType::Colon) {
        match core_full_at(toks, j + 2) {
            Some((c, k)) => if j + 2 < k < toks.len() {
                let next = if toks[k].token_type is Comma { k + 1 } else { k };
                match core_field_values_from(toks, next) {
                    Some((rest, m)) => Some((seq![(toks[j].token_type->Identifier_0@, c)] + rest, m)),
                    None => None,
                }
            } else {
                None
            },
            None => None,
        }
    } else {
        None
    }
}

/// The values `e, ... )` of an enum variant from `j`, each a full
/// expression, and the index after the `)`.
pub open spec fn core_variant_values(toks: Seq<Token>, j: int) -> Option<(Seq<CoreExpr>, int)>
    decreases toks.len() - j, 41int,
{
    match core_full_at(toks, j) {
        Some((c, k)) => if j < k <= toks.len() {
            if token_is(toks, k, TokenType::Comma) {
                match core_variant_values(toks, k + 1) {
                    Some((rest, m)) => Some((seq![c] + rest, m)),
                    None => None,
                }
            } else if token_is(toks, k, TokenType::RightParen) {
                Some((seq![c], k + 1))
            } else {
                None
            }
        } else {
            None
        },
        None => None,
    }
}

/// The elements `e, ... ]` of an array literal from `j`, each a full
/// expression (a trailing comma allowed), and the index after the `]`.
pub open spec fn core_array_items(toks: Seq<Token>, j: int) -> Option<(Seq<CoreExpr>, int)>
    decreases toks.len() - j, 42int,
{
    if token_is(toks, j, TokenType::RightBracket) {
        Some((seq![], j + 1))
    } else {
        match core_full_at(toks, j) {
            Some((c, k)) => if j < k <= toks.len() {
                if token_is(toks, k, TokenType::RightBracket) {
                    Some((seq![c], k + 1))
                } else if token_is(toks, k, TokenType::Comma) {
                    match core_array_items(toks, k + 1) {
                        Some((rest, m)) => Some((seq![c] + rest, m)),
                        None => None,
                    }
                } else {
                    None
                }
            } else {
                None
            },
            None => None,
        }
    }
}

/// The element type of an array literal with elements `cs`: that of its
/// first element where that is an integer, float, string or boolean
/// literal, `Int` otherwise.
pub open spec fn array_element_primitive(cs: Seq<CoreExpr>) -> PrimitiveType {
    if cs.len() == 0 {
        PrimitiveType::Integer
    } else {
        match cs[0] {
            CoreExpr::Float(_) => PrimitiveType::Float,
            CoreExpr::Str(_) => PrimitiveType::String,
            CoreExpr::Bool(_) => PrimitiveType::Boolean,
            _ => PrimitiveType::Integer,
        }
    }
}

/// The array literal at `i` (a `[` that starts one), and the index after it.
pub open spec fn core_array_at(toks: Seq<Token>, i: int) -> Option<(CoreExpr, int)>
    decreases toks.len() - i, 16int,
{
    if array_literal_ahead(toks, i) {
        match core_array_items(toks, i + 1) {
            Some((cs, m)) => Some((CoreExpr::Array(array_element_primitive(cs), cs), m)),
            None => None,
        }
    } else {
        None
    }
}

/// The entries `k: v, ... }` of a map literal from `j` (a trailing comma
/// allowed), and the index after the `}`.
pub open spec fn core_map_entries(toks: Seq<Token>, j: int) -> Option<(Seq<(CoreExpr, CoreExpr)>, int)>
    decreases toks.len() - j, 43int,
{
    match core_full_at(toks, j) {
        Some((key, a)) => if j < a && token_is(toks, a, TokenType::Colon) {
            match core_full_at(toks, a + 1) {
                Some((value, b)) => if a + 1 < b <= toks.len() {
                    if token_is(toks, b, TokenType::Comma) {
                        if token_is(toks, b + 1, TokenType::RightBrace) {
                            Some((seq![(key, value)], b + 2))
                        } else {
                            match core_map_entries(toks, b + 1) {
                                Some((rest, m)) => Some((seq![(key, value)] + rest, m)),
                                None => None,
                            }
                        }
                    } else if token_is(toks, b, TokenType::RightBrace) {
                        Some((seq![(key, value)], b + 1))
                    } else {
                        None
                    }
                } else {
                    None
                },
                None => None,
            }
        } else {
            None
        },
        None => None,
    }
}

/// The map literal `{}` or `{k: v, ...}` at `i` (a `{`), and the index
/// after it.
pub open spec fn core_map_at(toks: Seq<Token>, i: int) -> Option<(CoreExpr, int)>
    decreases toks.len() - i, 16int,
{
    if i < 0 || i >= toks.len() {
        None
    } else if token_is(toks, i + 1, TokenType::RightBrace) {
        Some((CoreExpr::MapLiteral(seq![]), i + 2))
    } else {
        match core_map_entries(toks, i + 1) {
            Some((cs, m)) => Some((CoreExpr::MapLiteral(cs), m)),
            None => None,
        }
    }
}

/// The arms `pattern => e [,] ... }` of a match expression from `j`, and
/// the index after the `}`.
pub open spec fn core_match_arms(toks: Seq<Token>, j: int) -> Option<(Seq<(PatternShape, CoreExpr)>, int)>
    decreases toks.len() - j, 0int,
{
    if j < 0 || j >= toks.len() || toks[j].token_type is Eof {
        None
    } else if toks[j].token_type is RightBrace {
        Some((seq![], j + 1))
    } else {
        match pattern_at(toks, j) {
            Some((ps, b)) => if j < b && token_is(toks, b, TokenType::FatArrow) {
                match core_full_at(toks, b + 1) {
                    Some((c, d)) => if b + 1 < d < toks.len() {
                        let next = if toks[d].token_type is Comma { d + 1 } else { d };
                        match core_match_arms(toks, next) {
                            Some((rest, m)) => Some((seq![(ps, c)] + rest, m)),
                            None => None,
                        }
                    } else {
                        None
                    },
                    None => None,
                }
            } else {
                None
            },
            None => None,
        }
    }
}

/// The arms of a match from `p`, where no `}` stands, are the arm written
/// there followed by the arms after it.
pub proof fn lemma_match_arms_step(toks: Seq<Token>, p: int)
    requires
        core_match_arms(toks, p) is Some,
        !(toks[p].token_type is RightBrace),
    ensures
        pattern_at(toks, p) matches Some((ps, b)) && token_is(toks, b, TokenType::FatArrow) && p < b
            && (core_full_at(toks, b + 1) matches Some((c, d)) && b + 1 < d < toks.len()
            && core_match_arms(toks, p) == match core_match_arms(toks, if toks[d].token_type is Comma { d + 1 } else { d }) {
                Some((rest, m)) => Some((seq![(ps, c)] + rest, m)),
                None => None,
            }),
{
}

/// A match expression at `i` is its value, a `{` and its arms.
pub proof fn lemma_match_at_parts(toks: Seq<Token>, i: int)
    requires
        core_match_at(toks, i) is Some,
    ensures
        toks[i].token_type == TokenType::Keyword(Keyword::Match),
        core_full_at(toks, i + 1) matches Some((v, a)) && i + 1 < a && token_is(toks, a, TokenType::LeftBrace)
            && (core_match_arms(toks, a + 1) matches Some((arms, m))
            && core_match_at(toks, i) == Some((CoreExpr::Match(Box::new(v), arms), m))),
{
}

/// The match expression `match v { arms }` at `i`, and the index after it.
pub open spec fn core_match_at(toks: Seq<Token>, i: int) -> Option<(CoreExpr, int)>
    decreases toks.len() - i, 16int,
{
    if 0 <= i < toks.len() && toks[i].token_type == TokenType::Keyword(Keyword::Match) {
        match core_full_at(toks, i + 1) {
            Some((v, a)) => if i + 1 < a && token_is(toks, a, TokenType::LeftBrace) {
                match core_match_arms(toks, a + 1) {
                    Some((arms, m)) => Some((CoreExpr::Match(Box::new(v), arms), m)),
                    None => None,
                }
            } else {
                None
            },
            None => None,
        }
    } else {
        None
    }
}

/// The parenthesized expression `( e )` at `i` (no lambda), and the index
/// after the `)`.
pub open spec fn core_paren_at(toks: Seq<Token>, i: int) -> Option<(CoreExpr, int)>
    decreases toks.len() - i, 16int,
{
    if 0 <= i && i + 1 < toks.len() && toks[i].token_type is LeftParen && !(toks[i + 1].token_type is RightParen)
        && !lambda_params_ahead(toks, i + 1) {
        match core_full_at(toks, i + 1) {
            Some((c, k)) => if i + 1 < k && token_is(toks, k, TokenType::RightParen) { Some((c, k + 1)) } else { None },
            None => None,
        }
    } else {
        None
    }
}

/// What follows the parameters of a lambda, from `j`: an optional
/// `-> type`, `=>` and an expression body (not a block).
pub open spec fn core_lambda_rest(
    toks: Seq<Token>,
    j: int,
    cs: Seq<(Seq<char>, CaptureMode)>,
    ps: Seq<(Seq<char>, TypeShape)>,
) -> Option<(CoreExpr, int)>
    decreases toks.len() - j, 0int,
{
    let typed = if token_is(toks, j, TokenType::Arrow) {
        match type_at(toks, j + 1, true) {
            Some((t, k)) => if j + 1 < k { Some((Some(t), k)) } else { None },
            None => None,
        }
    } else {
        Some((None, j))
    };
    match typed {
        Some((rt, k)) => if j <= k && token_is(toks, k, TokenType::FatArrow) && !token_is(toks, k + 1, TokenType::LeftBrace) {
            match core_full_at(toks, k + 1) {
                Some((b, m)) => Some((CoreExpr::Lambda(cs, ps, rt, Box::new(b)), m)),
                None => None,
            }
        } else {
            None
        },
        None => None,
    }
}

/// A `(` at `i` with the captures `cs` before it: a lambda `()` or
/// `(params)` and its rest, or, without captures, a parenthesized
/// expression.
pub open spec fn core_paren_or_lambda(toks: Seq<Token>, i: int, cs: Seq<(Seq<char>, CaptureMode)>) -> Option<(CoreExpr, int)>
    decreases toks.len() - i, 17int,
{
    if 0 <= i && i + 1 < toks.len() && toks[i].token_type is LeftParen {
        if toks[i + 1].token_type is RightParen {
            core_lambda_rest(toks, i + 2, cs, seq![])
        } else if lambda_params_ahead(toks, i + 1) {
            match lambda_params_from(toks, i + 1, true) {
                Some((ps, k)) => if i + 1 < k && token_is(toks, k, TokenType::RightParen) {
                    core_lambda_rest(toks, k + 1, cs, ps)
                } else {
                    None
                },
                None => None,
            }
        } else if cs.len() == 0 {
            core_paren_at(toks, i)
        } else {
            None
        }
    } else {
        None
    }
}

/// A capture list `[...]` at `i` followed by a lambda.
pub open spec fn core_capture_lambda_at(toks: Seq<Token>, i: int) -> Option<(CoreExpr, int)>
    decreases toks.len() - i, 16int,
{
    if 0 <= i < toks.len() && toks[i].token_type is LeftBracket {
        match captures_from(toks, i + 1) {
            Some((cs, k)) => if i < k < toks.len() { core_paren_or_lambda(toks, k, cs) } else { None },
            None => None,
        }
    } else {
        None
    }
}

/// An identifier `name` at `i` followed by `::` or by the `{` of a struct
/// construction: the enum variant `name::Variant[(values)]` or the struct
/// construction `name { fields }`, and the index after it.
pub open spec fn core_construction_at(toks: Seq<Token>, i: int) -> Option<(CoreExpr, int)>
    decreases toks.len() - i, 16int,
{
    if 0 <= i && i + 1 < toks.len() && toks[i].token_type is Identifier {
        let name = toks[i].token_type->Identifier_0@;
        if toks[i + 1].token_type is DoubleColon {
            if i + 2 < toks.len() && toks[i + 2].token_type is Identifier {
                let variant = toks[i + 2].token_type->Identifier_0@;
                if token_is(toks, i + 3, TokenType::LeftParen) {
                    if token_is(toks, i + 4, TokenType::RightParen) {
                        Some((CoreExpr::Variant(name, variant, seq![]), i + 5))
                    } else {
                        match core_variant_values(toks, i + 4) {
                            Some((vs, m)) => Some((CoreExpr::Variant(name, variant, vs), m)),
                            None => None,
                        }
                    }
                } else {
                    Some((CoreExpr::Variant(name, variant, seq![]), i + 3))
                }
            } else {
                None
            }
        } else if struct_fields_ahead(toks, i + 1) {
            match core_field_values_from(toks, i + 2) {
                Some((fs, m)) => Some((CoreExpr::Struct(name, fs), m)),
                None => None,
            }
        } else {
            None
        }
    } else {
        None
    }
}

/// The core atom written at index `i` and the index after it: a braced
/// expression `{ e }`, a literal, or a plain variable. `None` where what is
/// written there is no core atom (nothing is then said of it here).
pub open spec fn core_atom_at(toks: Seq<Token>, i: int) -> Option<(CoreExpr, int)>
    decreases toks.len() - i, 18int,
{
    if i < 0 || i >= toks.len() {
        None
    } else if toks[i].token_type is LeftBrace {
        if map_entry_ahead(toks, i) { core_map_at(toks, i) } else { core_braced_at(toks, i) }
    } else if toks[i].token_type is LeftBracket {
        if array_literal_ahead(toks, i) { core_array_at(toks, i) } else { core_capture_lambda_at(toks, i) }
    } else if literal_of(toks[i].token_type) is Some {
        Some((literal_of(toks[i].token_type)->0, i + 1))
    } else if variable_head_at(toks, i) {
        Some((CoreExpr::Var(toks[i].token_type->Identifier_0@), i + 1))
    } else if toks[i].token_type == TokenType::Keyword(Keyword::Match) {
        core_match_at(toks, i)
    } else if toks[i].token_type is LeftParen {
        core_paren_or_lambda(toks, i, seq![])
    } else {
        core_construction_at(toks, i)
    }
}

/// The name of the `index`-th call argument: its label, or `arg_index`.
pub open spec fn arg_label_name(label: Option<Seq<char>>, index: nat) -> Seq<char> {
    match label {
        Some(l) => l,
        None => spec_arg_name(index),
    }
}

/// A call's argument list `( [label:] e, ... )` at index `j` (a `(`), each
/// argument named by its label or `arg_i`, and the index after the `)`.
pub open spec fn core_arg_list_at(toks: Seq<Token>, j: int) -> Option<(Seq<(Seq<char>, CoreExpr)>, int)>
    decreases toks.len() - j, 0int,
{
    if token_is(toks, j, TokenType::LeftParen) {
        if token_is(toks, j + 1, TokenType::RightParen) {
            Some((seq![], j + 2))
        } else {
            core_arg_items(toks, j + 1, 0)
        }
    } else {
        None
    }
}

/// The arguments `[label:] e, ... )` from index `j`, the next being the
/// `index`-th, and the index after the `)`.
pub open spec fn core_arg_items(toks: Seq<Token>, j: int, index: nat) -> Option<(Seq<(Seq<char>, CoreExpr)>, int)>
    decreases toks.len() - j, 40int,
{
    if 0 <= j && j + 1 < toks.len() {
        let labeled = toks[j].token_type is Identifier && toks[j + 1].token_type is Colon;
        let label = if labeled { Some(toks[j].token_type->Identifier_0@) } else { None };
        match core_full_at(toks, if labeled { j + 2 } else { j }) {
            Some((c, k)) => if j < k <= toks.len() {
                if token_is(toks, k, TokenType::Comma) {
                    match core_arg_items(toks, k + 1, index + 1) {
                        Some((rest, m)) => Some((seq![(arg_label_name(label, index), c)] + rest, m)),
                        None => None,
                    }
                } else if token_is(toks, k, TokenType::RightParen) {
                    Some((seq![(arg_label_name(label, index), c)], k + 1))
                } else {
                    None
                }
            } else {
                None
            },
            None => None,
        }
    } else {
        None
    }
}

/// What follows an expression from index `j`: calls `(args)` (only on a
/// variable), and where `full`, index accesses `[e]` and member accesses
/// `.name` or `.name(args)`; `acc` is the expression read so far.
pub open spec fn core_chain_from(toks: Seq<Token>, j: int, acc: CoreExpr, full: bool) -> Option<(CoreExpr, int)>
    decreases toks.len() - j, 1int,
{
    if token_is(toks, j, TokenType::LeftParen) {
        match acc {
            CoreExpr::Var(n) => match core_arg_list_at(toks, j) {
                Some((args, k)) => if j < k <= toks.len() {
                    core_chain_from(toks, k, CoreExpr::Call(n, args), full)
                } else {
                    None
                },
                None => None,
            },
            _ => None,
        }
    } else if full && token_is(toks, j, TokenType::LeftBracket) {
        match core_full_at(toks, j + 1) {
            Some((ix, k)) => if j < k < toks.len() && toks[k].token_type is RightBracket {
                core_chain_from(toks, k + 1, CoreExpr::Index(Box::new(acc), Box::new(ix)), full)
            } else {
                None
            },
            None => None,
        }
    } else if full && token_is(toks, j, TokenType::Dot) {
        if j + 1 < toks.len() && toks[j + 1].token_type is Identifier {
            let m = toks[j + 1].token_type->Identifier_0@;
            if token_is(toks, j + 2, TokenType::LeftParen) {
                match core_arg_list_at(toks, j + 2) {
                    Some((args, k)) => if j < k <= toks.len() {
                        core_chain_from(toks, k, CoreExpr::Method(Box::new(acc), m, args), full)
                    } else {
                        None
                    },
                    None => None,
                }
            } else {
                core_chain_from(toks, j + 2, CoreExpr::Field(Box::new(acc), m), full)
            }
        } else {
            None
        }
    } else {
        Some((acc, j))
    }
}

/// The end of a range at `j`: an integer, a plain variable, a
/// parenthesized expression or a braced expression.
pub open spec fn core_range_operand_at(toks: Seq<Token>, j: int) -> Option<(CoreExpr, int)> {
    if j < 0 || j >= toks.len() {
        None
    } else {
        match toks[j].token_type {
            TokenType::IntegerLiteral(v) => Some((CoreExpr::Int(v), j + 1)),
            TokenType::Identifier(n) => Some((CoreExpr::Var(n@), j + 1)),
            TokenType::LeftParen => core_paren_or_lambda(toks, j, seq![]),
            TokenType::LeftBrace => core_braced_at(toks, j),
            _ => None,
        }
    }
}

/// The range from its `..` or `..=` at `j` with the given start, and the
/// index after it; its end is read where a token that can start one
/// follows.
pub open spec fn core_range_rest(toks: Seq<Token>, j: int, start: Option<Box<CoreExpr>>) -> Option<(CoreExpr, int)> {
    if 0 <= j < toks.len() && (toks[j].token_type is DotDot || toks[j].token_type is DotDotEqual) {
        let inclusive = toks[j].token_type is DotDotEqual;
        if j + 1 < toks.len() && range_end_start(toks[j + 1].token_type) {
            match core_range_operand_at(toks, j + 1) {
                Some((e, k)) => Some((CoreExpr::Range(start, Some(Box::new(e)), inclusive), k)),
                None => None,
            }
        } else {
            Some((CoreExpr::Range(start, None, inclusive), j + 1))
        }
    } else {
        None
    }
}

/// Whether what follows an expression from `j` (with `acc` the expression
/// read so far) reaches a call `(args)` on something other than a plain
/// variable, every call, index and member access before it reading as in
/// `core_chain_from`.
pub open spec fn chain_calls_complex(toks: Seq<Token>, j: int, acc: CoreExpr) -> bool
    decreases toks.len() - j,
{
    if token_is(toks, j, TokenType::LeftParen) {
        match core_arg_list_at(toks, j) {
            Some((args, k)) => if j < k <= toks.len() {
                match acc {
                    CoreExpr::Var(n) => chain_calls_complex(toks, k, CoreExpr::Call(n, args)),
                    _ => true,
                }
            } else {
                false
            },
            None => false,
        }
    } else if token_is(toks, j, TokenType::LeftBracket) {
        match core_full_at(toks, j + 1) {
            Some((ix, k)) => if j < k < toks.len() && toks[k].token_type is RightBracket {
                chain_calls_complex(toks, k + 1, CoreExpr::Index(Box::new(acc), Box::new(ix)))
            } else {
                false
            },
            None => false,
        }
    } else if token_is(toks, j, TokenType::Dot) {
        if j + 1 < toks.len() && toks[j + 1].token_type is Identifier {
            let m = toks[j + 1].token_type->Identifier_0@;
            if token_is(toks, j + 2, TokenType::LeftParen) {
                match core_arg_list_at(toks, j + 2) {
                    Some((args, k)) => if j < k <= toks.len() {
                        chain_calls_complex(toks, k, CoreExpr::Method(Box::new(acc), m, args))
                    } else {
                        false
                    },
                    None => false,
                }
            } else {
                chain_calls_complex(toks, j + 2, CoreExpr::Field(Box::new(acc), m))
            }
        } else {
            false
        }
    } else {
        false
    }
}

/// The braced expression `{ e }` at index `i` (a `{`) with `e` a core
/// `||` expression, and the index after its `}`.
pub open spec fn core_braced_at(toks: Seq<Token>, i: int) -> Option<(CoreExpr, int)>
    decreases toks.len() - i, 17int,
{
    if 0 <= i < toks.len() && toks[i].token_type is LeftBrace {
        match core_level_at(toks, i + 1, 1) {
            Some((c, j)) => if i + 1 < j < toks.len() && toks[j].token_type is RightBrace {
                Some((c, j + 1))
            } else {
                None
            },
            None => None,
        }
    } else {
        None
    }
}

/// A core atom followed by calls, index accesses and member accesses.
pub open spec fn core_postfix_at(toks: Seq<Token>, i: int) -> Option<(CoreExpr, int)>
    decreases toks.len() - i, 19int,
{
    match core_atom_at(toks, i) {
        Some((c, j)) => if i < j <= toks.len() { core_chain_from(toks, j, c, true) } else { None },
        None => None,
    }
}

/// The core unary expression at index `i`: `!`, `-`, `&` or `&mut` before
/// a unary expression, or a core postfix expression.
pub open spec fn core_unary_at(toks: Seq<Token>, i: int) -> Option<(CoreExpr, int)>
    decreases toks.len() - i, 20int,
{
    if i < 0 || i >= toks.len() {
        None
    } else if toks[i].token_type is Bang {
        match core_unary_at(toks, i + 1) {
            Some((c, j)) => Some((CoreExpr::Not(Box::new(c)), j)),
            None => None,
        }
    } else if toks[i].token_type is Minus {
        match core_unary_at(toks, i + 1) {
            Some((c, j)) => Some((CoreExpr::Neg(Box::new(c)), j)),
            None => None,
        }
    } else if toks[i].token_type is Ampersand {
        let mutable = i + 1 < toks.len() && toks[i + 1].token_type == TokenType::Keyword(Keyword::Mut);
        match core_unary_at(toks, if mutable { i + 2 } else { i + 1 }) {
            Some((c, j)) => Some((CoreExpr::AddrOf(mutable, Box::new(c)), j)),
            None => None,
        }
    } else {
        core_postfix_at(toks, i)
    }
}

/// The operand of a binary level `level` (1 `||` to 6 `*`): the next
/// level up, or a unary expression above the multiplicative level.
pub open spec fn core_operand_at(toks: Seq<Token>, i: int, level: int) -> Option<(CoreExpr, int)>
    decreases toks.len() - i, 2 * (20 - level) - 1,
{
    if level < 1 || level > 6 {
        None
    } else if level == 6 {
        core_unary_at(toks, i)
    } else {
        core_level_at(toks, i, level + 1)
    }
}

/// The core expression of binary level `level` at index `i`: operands of
/// the level separated by its operators, folded from the left.
pub open spec fn core_level_at(toks: Seq<Token>, i: int, level: int) -> Option<(CoreExpr, int)>
    decreases toks.len() - i, 2 * (20 - level),
{
    if level < 1 || level > 6 {
        None
    } else {
        match core_operand_at(toks, i, level) {
            Some((c, j)) => if i < j <= toks.len() { core_level_fold(toks, j, c, level) } else { None },
            None => None,
        }
    }
}

/// The rest of a level-`level` expression from index `j`, with `acc` the
/// expression folded so far.
pub open spec fn core_level_fold(toks: Seq<Token>, j: int, acc: CoreExpr, level: int) -> Option<(CoreExpr, int)>
    decreases toks.len() - j, 0int,
{
    if 1 <= level <= 6 && 0 <= j < toks.len() && level_operator(level, toks[j].token_type) {
        match core_operand_at(toks, j + 1, level) {
            Some((c, k)) => if j < k <= toks.len() {
                core_level_fold(
                    toks,
                    k,
                    CoreExpr::Binary(spec_binary_op(toks[j].token_type)->0, Box::new(acc), Box::new(c)),
                    level,
                )
            } else {
                None
            },
            None => None,
        }
    } else {
        Some((acc, j))
    }
}

/// A token that can start an expression: a literal, an identifier, `(`,
/// `{`, `[`, `!`, `-` or `match`.
pub open spec fn expression_start(t: TokenType) -> bool {
    t is IntegerLiteral || t is FloatLiteral || t is StringLiteral || t is CharLiteral || t is BoolLiteral
        || t is Identifier || t is LeftParen || t is LeftBrace || t is LeftBracket || t is Bang || t is Minus
        || t == TokenType::Keyword(Keyword::Match)
}

/// What follows the `||` expression `c` that ends at `j` (read from `i`)
/// where a full expression is read: nothing, or `..` with an end where an
/// expression follows, or `..=` and an end.
pub open spec fn core_range_tail(toks: Seq<Token>, i: int, j: int, c: CoreExpr) -> Option<(CoreExpr, int)>
    decreases toks.len() - i, 38int,
{
    if i < j < toks.len() {
        if toks[j].token_type is DotDot {
            if j + 1 < toks.len() && expression_start(toks[j + 1].token_type) {
                match core_level_at(toks, j + 1, 1) {
                    Some((e, k)) => Some((CoreExpr::Range(Some(Box::new(c)), Some(Box::new(e)), false), k)),
                    None => None,
                }
            } else {
                Some((CoreExpr::Range(Some(Box::new(c)), None, false), j + 1))
            }
        } else if toks[j].token_type is DotDotEqual {
            match core_level_at(toks, j + 1, 1) {
                Some((e, k)) => Some((CoreExpr::Range(Some(Box::new(c)), Some(Box::new(e)), true), k)),
                None => None,
            }
        } else {
            Some((c, j))
        }
    } else {
        None
    }
}

/// The core expression at index `i` where a full expression is read: an
/// `||` expression, or a range `..e`, `..=e`, `a..b`, `a..` (where no
/// expression follows) or `a..=b` over `||` expressions.
pub open spec fn core_full_at(toks: Seq<Token>, i: int) -> Option<(CoreExpr, int)>
    decreases toks.len() - i, 39int,
{
    if i < 0 || i >= toks.len() {
        None
    } else if toks[i].token_type is DotDot || toks[i].token_type is DotDotEqual {
        match core_level_at(toks, i + 1, 1) {
            Some((e, j)) => Some((CoreExpr::Range(None, Some(Box::new(e)), toks[i].token_type is DotDotEqual), j)),
            None => None,
        }
    } else {
        match core_level_at(toks, i, 1) {
            Some((c, j)) => core_range_tail(toks, i, j, c),
            None => None,
        }
    }
}

/// The core operand at index `i` where `parse_primary_expression` reads
/// one: a braced expression, `!` or `-` before an operand, a literal, or a
/// plain variable.
pub open spec fn core_primary_at(toks: Seq<Token>, i: int) -> Option<(CoreExpr, int)>
    decreases toks.len() - i,
{
    if i < 0 || i >= toks.len() {
        None
    } else if toks[i].token_type is LeftBrace {
        if map_entry_ahead(toks, i) { core_map_at(toks, i) } else { core_braced_at(toks, i) }
    } else if toks[i].token_type is Bang {
        match core_primary_at(toks, i + 1) {
            Some((c, j)) => Some((CoreExpr::Not(Box::new(c)), j)),
            None => None,
        }
    } else if toks[i].token_type is Minus {
        match core_primary_at(toks, i + 1) {
            Some((c, j)) => Some((CoreExpr::Neg(Box::new(c)), j)),
            None => None,
        }
    } else if literal_of(toks[i].token_type) is Some {
        Some((literal_of(toks[i].token_type)->0, i + 1))
    } else if toks[i].token_type == TokenType::Keyword(Keyword::Range) {
        core_chain_from(toks, i + 1, CoreExpr::Var(range_name()), false)
    } else if variable_head_at(toks, i) {
        core_chain_from(toks, i + 1, CoreExpr::Var(toks[i].token_type->Identifier_0@), true)
    } else if toks[i].token_type is LeftBracket {
        if array_literal_ahead(toks, i) { core_array_at(toks, i) } else { core_capture_lambda_at(toks, i) }
    } else if toks[i].token_type == TokenType::Keyword(Keyword::Match) {
        core_match_at(toks, i)
    } else if toks[i].token_type is LeftParen {
        core_paren_or_lambda(toks, i, seq![])
    } else {
        core_construction_at(toks, i)
    }
}

/// Call arguments from a parsed argument list: each argument is named by
/// its label, or `arg_i` for the `i`-th when it has none.
fn arguments_from(list: Vec<(Option<String>, Expression)>, location: &SourceLocation) -> (args: Vec<Argument>)
    ensures
        args@.len() == list@.len(),
        forall|i: int| 0 <= i < args@.len() ==> {
            &&& (#[trigger] args@[i]).parameter_name.name@ == argument_name(list@[i].0, i as nat)
            &&& *args@[i].value == list@[i].1
        },
{
    let ghost input = list@;
    let total = list.len();
    assert(input.len() == total);
    let mut rest = list;
    let mut args: Vec<Argument> = Vec::new();
    let mut i: usize = 0;
    while rest.len() > 0
        invariant
            i == args@.len(),
            i + rest@.len() == input.len(),
            input.len() <= usize::MAX,
            rest@ == input.subrange(i as int, input.len() as int),
            forall|k: int| 0 <= k < args@.len() ==> {
                &&& (#[trigger] args@[k]).parameter_name.name@ == argument_name(input[k].0, k as nat)
                &&& *args@[k].value == input[k].1
            },
        decreases rest@.len(),
    {
        let (label, value) = rest.remove(0);
        let name = match label {
            Some(l) => l,
            None => arg_name(i),
        };
        args.push(Argument {
            parameter_name: Identifier::new(name, location.duplicate()),
            value: Box::new(value),
            source_location: location.duplicate(),
        });
        assert(rest@ =~= input.subrange(i as int + 1, input.len() as int));
        i = i + 1;
    }
    args
}

impl Parser {
    /// Builds the binary expression of `op` over `left` and `right`.
    pub fn build_binary_expression(
        &self,
        left: Expression,
        op: BinaryOp,
        right: Expression,
        source_location: SourceLocation,
    ) -> (e: Expression)
        ensures
            is_binary(op, left, right, e),
            binary_location(e) == source_location,
    {
        match op {
            BinaryOp::Add => Expression::Add { left: Box::new(left), right: Box::new(right), source_location },
            BinaryOp::Subtract => Expression::Subtract { left: Box::new(left), right: Box::new(right), source_location },
            BinaryOp::Multiply => Expression::Multiply { left: Box::new(left), right: Box::new(right), source_location },
            BinaryOp::Divide => Expression::Divide { left: Box::new(left), right: Box::new(right), source_location },
            BinaryOp::Modulo => Expression::Modulo { left: Box::new(left), right: Box::new(right), source_location },
            BinaryOp::Equals => Expression::Equals { left: Box::new(left), right: Box::new(right), source_location },
            BinaryOp::NotEquals => Expression::NotEquals { left: Box::new(left), right: Box::new(right), source_location },
            BinaryOp::LessThan => Expression::LessThan { left: Box::new(left), right: Box::new(right), source_location },
            BinaryOp::LessEqual => Expression::LessThanOrEqual { left: Box::new(left), right: Box::new(right), source_location },
            BinaryOp::GreaterThan => Expression::GreaterThan { left: Box::new(left), right: Box::new(right), source_location },
            BinaryOp::GreaterEqual => Expression::GreaterThanOrEqual {
                left: Box::new(left),
                right: Box::new(right),
                source_location,
            },
            BinaryOp::And => {
                let ghost (l, r) = (left, right);
                let mut operands: Vec<Expression> = Vec::new();
                operands.push(left);
                operands.push(right);
                assert(operands@ =~= seq![l, r]);
                Expression::LogicalAnd { operands, source_location }
            },
            BinaryOp::Or => {
                let ghost (l, r) = (left, right);
                let mut operands: Vec<Expression> = Vec::new();
                operands.push(left);
                operands.push(right);
                assert(operands@ =~= seq![l, r]);
                Expression::LogicalOr { operands, source_location }
            },
        }
    }

    /// Parses one binary operator token.
    #[verifier::spinoff_prover]
    #[verifier::rlimit(100)]
    pub fn parse_binary_operator(&mut self) -> (r: Result<BinaryOp, ParserError>)
        requires
            old(self).wf(),
        ensures
            final(self).moved_from(*old(self)),
            r is Ok <==> spec_binary_op(old(self).cur()) is Some,
            r matches Ok(op) ==> spec_binary_op(old(self).cur()) == Some(op) && final(self).pos() == old(self).pos() + 1,
            r is Err ==> final(self).pos() == old(self).pos(),
    {
        let op = match &self.peek().token_type {
            TokenType::Plus => BinaryOp::Add,
            TokenType::Minus => BinaryOp::Subtract,
            TokenType::Star => BinaryOp::Multiply,
            TokenType::Slash => BinaryOp::Divide,
            TokenType::Percent => BinaryOp::Modulo,
            TokenType::EqualEqual => BinaryOp::Equals,
            TokenType::BangEqual => BinaryOp::NotEquals,
            TokenType::Less => BinaryOp::LessThan,
            TokenType::LessEqual => BinaryOp::LessEqual,
            TokenType::Greater => BinaryOp::GreaterThan,
            TokenType::GreaterEqual => BinaryOp::GreaterEqual,
            TokenType::AmpAmp => BinaryOp::And,
            TokenType::PipePipe => BinaryOp::Or,
            _ => {
                return Err(self.unexpected("binary operator"));
            },
        };
        self.advance();
        Ok(op)
    }

    /// Parses a call's argument list `( [label:] expr, ... )`, keeping each
    /// argument's label when it has one.
    #[verifier::spinoff_prover]
    #[verifier::rlimit(100)]
    pub fn parse_argument_list(&mut self) -> (r: Result<Vec<(Option<String>, Expression)>, ParserError>)
        requires
            old(self).wf(),
        ensures
            final(self).moved_from(*old(self)),
            r is Ok ==> final(self).pos() > old(self).pos(),
            r is Ok ==> old(self).cur() is LeftParen && final(self).kind_at(final(self).pos() - 1) is RightParen,
            core_arg_list_at(old(self).toks(), old(self).pos()) matches Some((cs, j))
                ==> r matches Ok(list) && labeled_denote(list@, cs) && final(self).pos() == j,
        decreases old(self).toks().len() - old(self).pos(), 15nat,
    {
        let ghost toks = old(self).toks();
        let ghost p0 = old(self).pos();
        self.expect(&TokenType::LeftParen, "expected '('")?;
        let mut args: Vec<(Option<String>, Expression)> = Vec::new();
        let ghost mut acc: Seq<(Seq<char>, CoreExpr)> = seq![];
        if !self.check(&TokenType::RightParen) {
            proof {
                match core_arg_items(toks, self.pos(), 0) {
                    Some((rest, m)) => {
                        assert(acc + rest =~= rest);
                    },
                    None => {},
                }
            }
            loop
                invariant_except_break
                    self.moved_from(*old(self)),
                    self.pos() > old(self).pos(),
                    old(self).cur() is LeftParen,
                    toks == self.toks(),
                    p0 == old(self).pos(),
                    core_arg_list_at(toks, p0) is Some ==> {
                        &&& core_arg_list_at(toks, p0) == match core_arg_items(toks, self.pos(), args@.len() as nat) {
                            Some((rest, m)) => Some((acc + rest, m)),
                            None => None,
                        }
                        &&& labeled_denote(args@, acc)
                    },
                ensures
                    self.moved_from(*old(self)),
                    self.pos() > old(self).pos(),
                    old(self).cur() is LeftParen,
                    core_arg_list_at(toks, p0) is Some ==> {
                        &&& core_arg_list_at(toks, p0) == if token_is(toks, self.pos(), TokenType::RightParen) {
                            Some((acc, self.pos() + 1))
                        } else {
                            None
                        }
                        &&& labeled_denote(args@, acc)
                    },
                decreases self.toks().len() - self.pos(),
            {
                let ghost p = self.pos();
                let label = match &self.peek().token_type {
                    TokenType::Identifier(name) => {
                        let labeled = match self.peek_next() {
                            Some(next) => matches!(next.token_type, TokenType::Colon),
                            None => false,
                        };
                        if labeled { Some(name.clone()) } else { None }
                    },
                    _ => None,
                };
                if label.is_some() {
                    self.advance();
                    self.advance();
                }
                let ghost c = core_full_at(toks, self.pos())->Some_0.0;
                let value = self.parse_expression()?;
                let ghost name = arg_label_name(label_view(label), args@.len() as nat);
                let ghost before = args@;
                let ghost entry = (label, value);
                args.push((label, value));
                proof {
                    if core_arg_list_at(toks, p0) is Some {
                        assert(args@ == before.push(entry));
                        assert forall|k: int| 0 <= k < args@.len() implies arg_label_name(
                            label_view((#[trigger] args@[k]).0),
                            k as nat,
                        ) == acc.push((name, c))[k].0 && denotes(args@[k].1, acc.push((name, c))[k].1) by {
                            if k < before.len() {
                                assert(args@[k] == before[k]);
                            }
                        }
                        match core_arg_items(toks, self.pos() + 1, args@.len() as nat) {
                            Some((rest, m)) => {
                                assert(acc + (seq![(name, c)] + rest) =~= acc.push((name, c)) + rest);
                            },
                            None => {},
                        }
                        assert(acc + seq![(name, c)] =~= acc.push((name, c)));
                    }
                    acc = acc.push((name, c));
                }
                if self.check(&TokenType::Comma) {
                    self.advance();
                } else {
                    break;
                }
            }
        }
        self.expect(&TokenType::RightParen, "expected ')'")?;
        Ok(args)
    }

    /// Parses an expression, the lowest precedence first: a range, or an
    /// expression built from `||`, `&&`, equality, comparison, additive,
    /// multiplicative and unary operators over postfix expressions. Braces
    /// around an expression are allowed.
    #[verifier::spinoff_prover]
    #[verifier::rlimit(100)]
    pub fn parse_expression(&mut self) -> (r: Result<Expression, ParserError>)
        requires
            old(self).wf(),
        ensures
            final(self).moved_from(*old(self)),
            r is Ok ==> final(self).pos() > old(self).pos(),
            r is Ok ==> keyword_free_start(old(self).cur()),
            r matches Ok(e) ==> e is Range || binds_at_least(old(self).cur(), e, 1),
            r matches Ok(e) ==> ((old(self).cur() is DotDot || old(self).cur() is DotDotEqual)
                ==> (e matches Expression::Range { start, .. } && start is None)),
            core_full_at(old(self).toks(), old(self).pos()) matches Some((c, j))
                ==> r matches Ok(e) && denotes(e, c) && final(self).pos() == j,
        decreases old(self).toks().len() - old(self).pos(), 25nat,
    {
        self.parse_range_expression_full()
    }

    /// Parses `..end`, `..=end`, `start..`, `start..end`, `start..=end`, or an
    /// `||` expression.
    #[verifier::spinoff_prover]
    #[verifier::rlimit(100)]
    pub fn parse_range_expression_full(&mut self) -> (r: Result<Expression, ParserError>)
        requires
            old(self).wf(),
        ensures
            final(self).moved_from(*old(self)),
            r is Ok ==> final(self).pos() > old(self).pos(),
            r is Ok ==> keyword_free_start(old(self).cur()),
            r matches Ok(e) ==> e is Range || binds_at_least(old(self).cur(), e, 1),
            r matches Ok(e) ==> ((old(self).cur() is DotDot || old(self).cur() is DotDotEqual)
                ==> (e matches Expression::Range { start, end, inclusive, .. } && start is None && end is Some
                    && (inclusive <==> old(self).cur() is DotDotEqual))),
            core_full_at(old(self).toks(), old(self).pos()) matches Some((c, j))
                ==> r matches Ok(e) && denotes(e, c) && final(self).pos() == j,
        decreases old(self).toks().len() - old(self).pos(), 24nat,
    {
        let start_location = self.current_location();
        if self.check(&TokenType::DotDot) {
            self.advance();
            let end = self.parse_or_expression()?;
            return Ok(Expression::Range {
                start: None,
                end: Some(Box::new(end)),
                inclusive: false,
                source_location: start_location,
            });
        }
        if self.check(&TokenType::DotDotEqual) {
            self.advance();
            let end = self.parse_or_expression()?;
            return Ok(Expression::Range {
                start: None,
                end: Some(Box::new(end)),
                inclusive: true,
                source_location: start_location,
            });
        }
        let left = self.parse_or_expression()?;
        if self.check(&TokenType::DotDot) {
            self.advance();
            if self.is_expression_start() {
                let end = self.parse_or_expression()?;
                return Ok(Expression::Range {
                    start: Some(Box::new(left)),
                    end: Some(Box::new(end)),
                    inclusive: false,
                    source_location: start_location,
                });
            }
            return Ok(Expression::Range {
                start: Some(Box::new(left)),
                end: None,
                inclusive: false,
                source_location: start_location,
            });
        }
        if self.check(&TokenType::DotDotEqual) {
            self.advance();
            let end = self.parse_or_expression()?;
            return Ok(Expression::Range {
                start: Some(Box::new(left)),
                end: Some(Box::new(end)),
                inclusive: true,
                source_location: start_location,
            });
        }
        Ok(left)
    }

    /// Whether the current token can start an expression: a literal, an
    /// identifier, `(`, `{`, `[`, `!`, `-` or `match`.
    pub fn is_expression_start(&self) -> (b: bool)
        requires
            self.wf(),
        ensures
            b == (self.cur() is IntegerLiteral || self.cur() is FloatLiteral || self.cur() is StringLiteral
                || self.cur() is CharLiteral || self.cur() is BoolLiteral || self.cur() is Identifier
                || self.cur() is LeftParen || self.cur() is LeftBrace || self.cur() is LeftBracket
                || self.cur() is Bang || self.cur() is Minus || self.cur() == TokenType::Keyword(Keyword::Match)),
    {
        match &self.peek().token_type {
            TokenType::IntegerLiteral(_) | TokenType::FloatLiteral(_) | TokenType::StringLiteral(_)
            | TokenType::CharLiteral(_) | TokenType::BoolLiteral(_) | TokenType::Identifier(_)
            | TokenType::LeftParen | TokenType::LeftBrace | TokenType::LeftBracket | TokenType::Bang
            | TokenType::Minus => true,
            TokenType::Keyword(k) => matches!(k, Keyword::Match),
            _ => false,
        }
    }

    /// Parses `&e`, `&mut e`, `^e` (a move: the operand itself), a prefix
    /// range, or an `||` expression.
    #[verifier::spinoff_prover]
    #[verifier::rlimit(100)]
    pub fn parse_special_expression(&mut self) -> (r: Result<Expression, ParserError>)
        requires
            old(self).wf(),
        ensures
            final(self).moved_from(*old(self)),
            r is Ok ==> final(self).pos() > old(self).pos(),
            r matches Ok(e) ==> (old(self).cur() is Ampersand ==> e is AddressOf),
            r matches Ok(e) ==> ((old(self).cur() is DotDot || old(self).cur() is DotDotEqual)
                ==> (e matches Expression::Range { start, .. } && start is None)),
            old(self).cur() is Ampersand ==> ({
                let mutable = old(self).kind_at(old(self).pos() + 1) == TokenType::Keyword(Keyword::Mut);
                core_full_at(old(self).toks(), old(self).pos() + if mutable { 2int } else { 1int }) matches Some((c, m))
                ==> r matches Ok(e) && (e matches Expression::AddressOf { operand, mutability, .. }
                    && mutability == mutable && denotes(*operand, c)) && final(self).pos() == m
            }),
            old(self).cur() is Caret ==> (core_full_at(old(self).toks(), old(self).pos() + 1) matches Some((c, m))
                ==> r matches Ok(e) && denotes(e, c) && final(self).pos() == m),
            core_range_rest(old(self).toks(), old(self).pos(), None) matches Some((c, m))
                ==> r matches Ok(e) && denotes(e, c) && final(self).pos() == m,
            !(old(self).cur() is Ampersand || old(self).cur() is Caret || old(self).cur() is DotDot
                || old(self).cur() is DotDotEqual) ==> (core_level_at(old(self).toks(), old(self).pos(), 1) matches Some((c, m))
                ==> r matches Ok(e) && denotes(e, c) && final(self).pos() == m),
        decreases old(self).toks().len() - old(self).pos(), 26nat,
    {
        let start_location = self.current_location();
        if self.check(&TokenType::Ampersand) {
            self.advance();
            let is_mut = if self.check_keyword(Keyword::Mut) {
                self.advance();
                true
            } else {
                false
            };
            let operand = self.parse_expression()?;
            return Ok(Expression::AddressOf {
                operand: Box::new(operand),
                mutability: is_mut,
                source_location: start_location,
            });
        }
        if self.check(&TokenType::Caret) {
            self.advance();
            let operand = self.parse_expression()?;
            return Ok(operand);
        }
        if self.check(&TokenType::DotDot) || self.check(&TokenType::DotDotEqual) {
            return self.parse_range_expression(None, start_location);
        }
        self.parse_or_expression()
    }

    /// Parses `{ expr }`: the braces around an expression.
    #[verifier::spinoff_prover]
    #[verifier::rlimit(100)]
    pub fn parse_braced_expression(&mut self) -> (r: Result<Expression, ParserError>)
        requires
            old(self).wf(),
        ensures
            final(self).moved_from(*old(self)),
            r is Ok ==> final(self).pos() > old(self).pos(),
            r is Ok ==> old(self).cur() is LeftBrace && final(self).kind_at(final(self).pos() - 1) is RightBrace,
            r matches Ok(e) ==> binds_at_least(old(self).kind_at(old(self).pos() + 1), e, 1),
            core_braced_at(old(self).toks(), old(self).pos()) matches Some((c, j))
                ==> r matches Ok(e) && denotes(e, c) && final(self).pos() == j,
        decreases old(self).toks().len() - old(self).pos(), 12nat,
    {
        self.expect(&TokenType::LeftBrace, "expected '{'")?;
        let expr = self.parse_or_expression()?;
        self.expect(&TokenType::RightBrace, "expected '}' after expression")?;
        Ok(expr)
    }

    /// Parses `a || b || ...`, folding from the left.
    #[verifier::spinoff_prover]
    #[verifier::rlimit(100)]
    pub fn parse_or_expression(&mut self) -> (r: Result<Expression, ParserError>)
        requires
            old(self).wf(),
        ensures
            final(self).moved_from(*old(self)),
            r is Ok ==> final(self).pos() > old(self).pos(),
            r is Ok ==> keyword_free_start(old(self).cur()),
            r matches Ok(e) ==> binds_at_least(old(self).cur(), e, 1),
            r is Ok ==> !level_operator(1, final(self).cur()),
            core_level_at(old(self).toks(), old(self).pos(), 1) matches Some((c, j))
                ==> r matches Ok(e) && denotes(e, c) && final(self).pos() == j,
        decreases old(self).toks().len() - old(self).pos(), 23nat,
    {
        let ghost toks = old(self).toks();
        let ghost i0 = old(self).pos();
        let start_location = self.current_location();
        let mut left = self.parse_and_expression()?;
        let ghost mut acc: CoreExpr = CoreExpr::Int(0);
        proof {
            if core_level_at(toks, i0, 1) is Some {
                acc = core_operand_at(toks, i0, 1)->Some_0.0;
            }
        }
        while self.check(&TokenType::PipePipe)
            invariant
                self.moved_from(*old(self)),
                self.pos() > old(self).pos(),
                binds_at_least(old(self).cur(), left, 1),
                toks == self.toks(),
                i0 == old(self).pos(),
                core_level_at(toks, i0, 1) is Some ==> core_level_fold(toks, self.pos(), acc, 1)
                    == core_level_at(toks, i0, 1) && denotes(left, acc),
            decreases self.toks().len() - self.pos(),
        {
            let ghost p_op = self.pos();
            self.advance();
            let right = self.parse_and_expression()?;
            let ghost l = left;
            left = self.build_binary_expression(left, BinaryOp::Or, right, start_location.duplicate());
            proof {
                if core_level_at(toks, i0, 1) is Some {
                    let c = core_operand_at(toks, p_op + 1, 1)->Some_0.0;
                    assert(seq![l, right][0] == l && seq![l, right][1] == right);
                    acc = CoreExpr::Binary(spec_binary_op(toks[p_op].token_type)->0, Box::new(acc), Box::new(c));
                }
            }
        }
        Ok(left)
    }

    /// Parses `a && b && ...`, folding from the left.
    #[verifier::spinoff_prover]
    #[verifier::rlimit(100)]
    pub fn parse_and_expression(&mut self) -> (r: Result<Expression, ParserError>)
        requires
            old(self).wf(),
        ensures
            final(self).moved_from(*old(self)),
            r is Ok ==> final(self).pos() > old(self).pos(),
            r is Ok ==> keyword_free_start(old(self).cur()),
            r matches Ok(e) ==> binds_at_least(old(self).cur(), e, 2),
            r is Ok ==> !level_operator(2, final(self).cur()),
            core_level_at(old(self).toks(), old(self).pos(), 2) matches Some((c, j))
                ==> r matches Ok(e) && denotes(e, c) && final(self).pos() == j,
        decreases old(self).toks().len() - old(self).pos(), 22nat,
    {
        let ghost toks = old(self).toks();
        let ghost i0 = old(self).pos();
        let start_location = self.current_location();
        let mut left = self.parse_equality_expression()?;
        let ghost mut acc: CoreExpr = CoreExpr::Int(0);
        proof {
            if core_level_at(toks, i0, 2) is Some {
                acc = core_operand_at(toks, i0, 2)->Some_0.0;
            }
        }
        while self.check(&TokenType::AmpAmp)
            invariant
                self.moved_from(*old(self)),
                self.pos() > old(self).pos(),
                binds_at_least(old(self).cur(), left, 2),
                toks == self.toks(),
                i0 == old(self).pos(),
                core_level_at(toks, i0, 2) is Some ==> core_level_fold(toks, self.pos(), acc, 2)
                    == core_level_at(toks, i0, 2) && denotes(left, acc),
            decreases self.toks().len() - self.pos(),
        {
            let ghost p_op = self.pos();
            self.advance();
            let right = self.parse_equality_expression()?;
            let ghost l = left;
            left = self.build_binary_expression(left, BinaryOp::And, right, start_location.duplicate());
            proof {
                if core_level_at(toks, i0, 2) is Some {
                    let c = core_operand_at(toks, p_op + 1, 2)->Some_0.0;
                    assert(seq![l, right][0] == l && seq![l, right][1] == right);
                    acc = CoreExpr::Binary(spec_binary_op(toks[p_op].token_type)->0, Box::new(acc), Box::new(c));
                }
            }
        }
        Ok(left)
    }

    /// Parses `a == b`, `a != b`, chained and folded from the left.
    #[verifier::spinoff_prover]
    #[verifier::rlimit(100)]
    pub fn parse_equality_expression(&mut self) -> (r: Result<Expression, ParserError>)
        requires
            old(self).wf(),
        ensures
            final(self).moved_from(*old(self)),
            r is Ok ==> final(self).pos() > old(self).pos(),
            r is Ok ==> keyword_free_start(old(self).cur()),
            r matches Ok(e) ==> binds_at_least(old(self).cur(), e, 3),
            r is Ok ==> !level_operator(3, final(self).cur()),
            core_level_at(old(self).toks(), old(self).pos(), 3) matches Some((c, j))
                ==> r matches Ok(e) && denotes(e, c) && final(self).pos() == j,
        decreases old(self).toks().len() - old(self).pos(), 21nat,
    {
        let ghost toks = old(self).toks();
        let ghost i0 = old(self).pos();
        let start_location = self.current_location();
        let mut left = self.parse_comparison_expression()?;
        let ghost mut acc: CoreExpr = CoreExpr::Int(0);
        proof {
            if core_level_at(toks, i0, 3) is Some {
                acc = core_operand_at(toks, i0, 3)->Some_0.0;
            }
        }
        loop
            invariant
                self.moved_from(*old(self)),
                self.pos() > old(self).pos(),
                keyword_free_start(old(self).cur()),
                binds_at_least(old(self).cur(), left, 3),
                toks == self.toks(),
                i0 == old(self).pos(),
                core_level_at(toks, i0, 3) is Some ==> core_level_fold(toks, self.pos(), acc, 3)
                    == core_level_at(toks, i0, 3) && denotes(left, acc),
            decreases self.toks().len() - self.pos(),
        {
            let ghost p_op = self.pos();
            if self.check(&TokenType::EqualEqual) {
                self.advance();
                let right = self.parse_comparison_expression()?;
                let ghost l = left;
                left = self.build_binary_expression(left, BinaryOp::Equals, right, start_location.duplicate());
                proof {
                    if core_level_at(toks, i0, 3) is Some {
                        let c = core_operand_at(toks, p_op + 1, 3)->Some_0.0;
                        assert(seq![l, right][0] == l && seq![l, right][1] == right);
                        acc = CoreExpr::Binary(spec_binary_op(toks[p_op].token_type)->0, Box::new(acc), Box::new(c));
                    }
                }
            } else if self.check(&TokenType::BangEqual) {
                self.advance();
                let right = self.parse_comparison_expression()?;
                let ghost l = left;
                left = self.build_binary_expression(left, BinaryOp::NotEquals, right, start_location.duplicate());
                proof {
                    if core_level_at(toks, i0, 3) is Some {
                        let c = core_operand_at(toks, p_op + 1, 3)->Some_0.0;
                        assert(seq![l, right][0] == l && seq![l, right][1] == right);
                        acc = CoreExpr::Binary(spec_binary_op(toks[p_op].token_type)->0, Box::new(acc), Box::new(c));
                    }
                }
            } else {
                return Ok(left);
            }
        }
    }

    /// Parses `<`, `<=`, `>`, `>=` comparisons, chained and folded from the
    /// left.
    #[verifier::spinoff_prover]
    #[verifier::rlimit(100)]
    pub fn parse_comparison_expression(&mut self) -> (r: Result<Expression, ParserError>)
        requires
            old(self).wf(),
        ensures
            final(self).moved_from(*old(self)),
            r is Ok ==> final(self).pos() > old(self).pos(),
            r is Ok ==> keyword_free_start(old(self).cur()),
            r matches Ok(e) ==> binds_at_least(old(self).cur(), e, 4),
            r is Ok ==> !level_operator(4, final(self).cur()),
            core_level_at(old(self).toks(), old(self).pos(), 4) matches Some((c, j))
                ==> r matches Ok(e) && denotes(e, c) && final(self).pos() == j,
        decreases old(self).toks().len() - old(self).pos(), 20nat,
    {
        let ghost toks = old(self).toks();
        let ghost i0 = old(self).pos();
        let start_location = self.current_location();
        let mut left = self.parse_additive_expression()?;
        let ghost mut acc: CoreExpr = CoreExpr::Int(0);
        proof {
            if core_level_at(toks, i0, 4) is Some {
                acc = core_operand_at(toks, i0, 4)->Some_0.0;
            }
        }
        loop
            invariant
                self.moved_from(*old(self)),
                self.pos() > old(self).pos(),
                keyword_free_start(old(self).cur()),
                binds_at_least(old(self).cur(), left, 4),
                toks == self.toks(),
                i0 == old(self).pos(),
                core_level_at(toks, i0, 4) is Some ==> core_level_fold(toks, self.pos(), acc, 4)
                    == core_level_at(toks, i0, 4) && denotes(left, acc),
            decreases self.toks().len() - self.pos(),
        {
            let ghost p_op = self.pos();
            let op = if self.check(&TokenType::Less) {
                BinaryOp::LessThan
            } else if self.check(&TokenType::LessEqual) {
                BinaryOp::LessEqual
            } else if self.check(&TokenType::Greater) {
                BinaryOp::GreaterThan
            } else if self.check(&TokenType::GreaterEqual) {
                BinaryOp::GreaterEqual
            } else {
                return Ok(left);
            };
            self.advance();
            let right = self.parse_additive_expression()?;
            let ghost l = left;
            left = self.build_binary_expression(left, op, right, start_location.duplicate());
            proof {
                if core_level_at(toks, i0, 4) is Some {
                    let c = core_operand_at(toks, p_op + 1, 4)->Some_0.0;
                    assert(seq![l, right][0] == l && seq![l, right][1] == right);
                    acc = CoreExpr::Binary(spec_binary_op(toks[p_op].token_type)->0, Box::new(acc), Box::new(c));
                }
            }
        }
    }

    /// Parses `a + b`, `a - b`, chained and folded from the left.
    #[verifier::spinoff_prover]
    #[verifier::rlimit(100)]
    pub fn parse_additive_expression(&mut self) -> (r: Result<Expression, ParserError>)
        requires
            old(self).wf(),
        ensures
            final(self).moved_from(*old(self)),
            r is Ok ==> final(self).pos() > old(self).pos(),
            r is Ok ==> keyword_free_start(old(self).cur()),
            r matches Ok(e) ==> binds_at_least(old(self).cur(), e, 5),
            r is Ok ==> !level_operator(5, final(self).cur()),
            core_level_at(old(self).toks(), old(self).pos(), 5) matches Some((c, j))
                ==> r matches Ok(e) && denotes(e, c) && final(self).pos() == j,
        decreases old(self).toks().len() - old(self).pos(), 19nat,
    {
        let ghost toks = old(self).toks();
        let ghost i0 = old(self).pos();
        let start_location = self.current_location();
        let mut left = self.parse_multiplicative_expression()?;
        let ghost mut acc: CoreExpr = CoreExpr::Int(0);
        proof {
            if core_level_at(toks, i0, 5) is Some {
                acc = core_operand_at(toks, i0, 5)->Some_0.0;
            }
        }
        loop
            invariant
                self.moved_from(*old(self)),
                self.pos() > old(self).pos(),
                keyword_free_start(old(self).cur()),
                binds_at_least(old(self).cur(), left, 5),
                toks == self.toks(),
                i0 == old(self).pos(),
                core_level_at(toks, i0, 5) is Some ==> core_level_fold(toks, self.pos(), acc, 5)
                    == core_level_at(toks, i0, 5) && denotes(left, acc),
            decreases self.toks().len() - self.pos(),
        {
            let ghost p_op = self.pos();
            let op = if self.check(&TokenType::Plus) {
                BinaryOp::Add
            } else if self.check(&TokenType::Minus) {
                BinaryOp::Subtract
            } else {
                return Ok(left);
            };
            self.advance();
            let right = self.parse_multiplicative_expression()?;
            let ghost l = left;
            left = self.build_binary_expression(left, op, right, start_location.duplicate());
            proof {
                if core_level_at(toks, i0, 5) is Some {
                    let c = core_operand_at(toks, p_op + 1, 5)->Some_0.0;
                    assert(seq![l, right][0] == l && seq![l, right][1] == right);
                    acc = CoreExpr::Binary(spec_binary_op(toks[p_op].token_type)->0, Box::new(acc), Box::new(c));
                }
            }
        }
    }

    /// Parses `a * b`, `a / b`, `a % b`, chained and folded from the left.
    #[verifier::spinoff_prover]
    #[verifier::rlimit(100)]
    pub fn parse_multiplicative_expression(&mut self) -> (r: Result<Expression, ParserError>)
        requires
            old(self).wf(),
        ensures
            final(self).moved_from(*old(self)),
            r is Ok ==> final(self).pos() > old(self).pos(),
            r is Ok ==> keyword_free_start(old(self).cur()),
            r matches Ok(e) ==> binds_at_least(old(self).cur(), e, 6),
            r is Ok ==> !level_operator(6, final(self).cur()),
            core_level_at(old(self).toks(), old(self).pos(), 6) matches Some((c, j))
                ==> r matches Ok(e) && denotes(e, c) && final(self).pos() == j,
        decreases old(self).toks().len() - old(self).pos(), 18nat,
    {
        let ghost toks = old(self).toks();
        let ghost i0 = old(self).pos();
        let start_location = self.current_location();
        let mut left = self.parse_unary_expression()?;
        let ghost mut acc: CoreExpr = CoreExpr::Int(0);
        proof {
            if core_level_at(toks, i0, 6) is Some {
                acc = core_operand_at(toks, i0, 6)->Some_0.0;
            }
        }
        loop
            invariant
                self.moved_from(*old(self)),
                self.pos() > old(self).pos(),
                keyword_free_start(old(self).cur()),
                binds_at_least(old(self).cur(), left, 6),
                toks == self.toks(),
                i0 == old(self).pos(),
                core_level_at(toks, i0, 6) is Some ==> core_level_fold(toks, self.pos(), acc, 6)
                    == core_level_at(toks, i0, 6) && denotes(left, acc),
            decreases self.toks().len() - self.pos(),
        {
            let ghost p_op = self.pos();
            let op = if self.check(&TokenType::Star) {
                BinaryOp::Multiply
            } else if self.check(&TokenType::Slash) {
                BinaryOp::Divide
            } else if self.check(&TokenType::Percent) {
                BinaryOp::Modulo
            } else {
                return Ok(left);
            };
            self.advance();
            let right = self.parse_unary_expression()?;
            let ghost l = left;
            left = self.build_binary_expression(left, op, right, start_location.duplicate());
            proof {
                if core_level_at(toks, i0, 6) is Some {
                    let c = core_operand_at(toks, p_op + 1, 6)->Some_0.0;
                    assert(seq![l, right][0] == l && seq![l, right][1] == right);
                    acc = CoreExpr::Binary(spec_binary_op(toks[p_op].token_type)->0, Box::new(acc), Box::new(c));
                }
            }
        }
    }

    /// Parses `!e`, `-e`, `&e`, `&mut e` (the operand itself unary), or a
    /// postfix expression.
    #[verifier::spinoff_prover]
    #[verifier::rlimit(100)]
    pub fn parse_unary_expression(&mut self) -> (r: Result<Expression, ParserError>)
        requires
            old(self).wf(),
        ensures
            final(self).moved_from(*old(self)),
            r is Ok ==> final(self).pos() > old(self).pos(),
            r is Ok ==> keyword_free_start(old(self).cur()),
            r matches Ok(e) ==> binds_at_least(old(self).cur(), e, 7),
            r matches Ok(e) ==> (old(self).cur() is Bang ==> e is LogicalNot),
            r matches Ok(e) ==> (old(self).cur() is Minus ==> e is Negate),
            r matches Ok(e) ==> (old(self).cur() is Ampersand ==> (e matches Expression::AddressOf { mutability, .. }
                && (mutability <==> old(self).kind_at(old(self).pos() + 1) == TokenType::Keyword(Keyword::Mut)))),
            core_unary_at(old(self).toks(), old(self).pos()) matches Some((c, j))
                ==> r matches Ok(e) && denotes(e, c) && final(self).pos() == j,
        decreases old(self).toks().len() - old(self).pos(), 17nat,
    {
        let start_location = self.current_location();
        if self.check(&TokenType::Bang) {
            self.advance();
            let operand = self.parse_unary_expression()?;
            return Ok(Expression::LogicalNot { operand: Box::new(operand), source_location: start_location });
        }
        if self.check(&TokenType::Minus) {
            self.advance();
            let operand = self.parse_unary_expression()?;
            return Ok(Expression::Negate { operand: Box::new(operand), source_location: start_location });
        }
        if self.check(&TokenType::Ampersand) {
            proof {
                assert(core_atom_at(old(self).toks(), old(self).pos()) is None);
                assert(core_postfix_at(old(self).toks(), old(self).pos()) is None);
            }
            self.advance();
            let is_mut = if self.check_keyword(Keyword::Mut) {
                self.advance();
                true
            } else {
                false
            };
            let operand = self.parse_unary_expression()?;
            return Ok(Expression::AddressOf {
                operand: Box::new(operand),
                mutability: is_mut,
                source_location: start_location,
            });
        }
        self.parse_postfix_expression()
    }

    /// Parses an atom followed by calls `(args)` (only on a variable),
    /// indexing `[i]` and member accesses `.name` or `.name(args)`.
    #[verifier::spinoff_prover]
    #[verifier::rlimit(100)]
    pub fn parse_postfix_expression(&mut self) -> (r: Result<Expression, ParserError>)
        requires
            old(self).wf(),
        ensures
            final(self).moved_from(*old(self)),
            r is Ok ==> final(self).pos() > old(self).pos(),
            r is Ok ==> keyword_free_start(old(self).cur()),
            r matches Ok(e) ==> binds_at_least(old(self).cur(), e, 8),
            r is Ok ==> !(final(self).cur() is LeftParen || final(self).cur() is LeftBracket || final(self).cur() is Dot),
            core_postfix_at(old(self).toks(), old(self).pos()) matches Some((c, j))
                ==> r matches Ok(e) && denotes(e, c) && final(self).pos() == j,
            core_atom_at(old(self).toks(), old(self).pos()) matches Some((c, j)) ==> (
                old(self).pos() < j && chain_calls_complex(old(self).toks(), j, c) ==> (r matches Err(e)
                && e matches ParserError::UnexpectedToken { expected, found, .. }
                && expected@ == "function name"@ && found@ == "complex expression"@)),
        decreases old(self).toks().len() - old(self).pos(), 16nat,
    {
        let ghost toks = old(self).toks();
        let ghost i0 = old(self).pos();
        let start_location = self.current_location();
        let ghost core = core_postfix_at(toks, i0) is Some;
        let mut expr = self.parse_atomic_expression()?;
        let ghost mut acc: CoreExpr = core_atom_at(toks, i0)->Some_0.0;
        let ghost bad = core_atom_at(toks, i0) matches Some((c, j)) && i0 < j && chain_calls_complex(toks, j, c);
        let ghost free = keyword_free_start(old(self).cur());
        assert(free);
        loop
            invariant
                free,
                free == keyword_free_start(old(self).cur()),
                self.moved_from(*old(self)),
                self.pos() > old(self).pos(),
                binds_at_least(old(self).cur(), expr, 8),
                toks == self.toks(),
                i0 == old(self).pos(),
                core == core_postfix_at(toks, i0) is Some,
                core ==> core_postfix_at(toks, i0) == core_chain_from(toks, self.pos(), acc, true) && denotes(expr, acc),
                bad == (core_atom_at(toks, i0) matches Some((c, j)) && i0 < j && chain_calls_complex(toks, j, c)),
                bad ==> chain_calls_complex(toks, self.pos(), acc) && denotes(expr, acc),
            decreases self.toks().len() - self.pos(),
        {
            let ghost p = self.pos();
            if self.check(&TokenType::LeftParen) {
                let ghost args_c = core_arg_list_at(toks, p)->Some_0.0;
                let list = self.parse_argument_list()?;
                let function_name = match &expr {
                    Expression::Variable { name, .. } => name.duplicate(),
                    _ => {
                        return Err(ParserError::UnexpectedToken {
                            expected: String::from_str("function name"),
                            found: String::from_str("complex expression"),
                            location: start_location.duplicate(),
                        });
                    },
                };
                let ghost lg = list@;
                let arguments = arguments_from(list, &start_location);
                proof {
                    if core || bad {
                        lemma_args_from_list(arguments@, lg, args_c);
                    }
                }
                expr = Expression::FunctionCall {
                    call: FunctionCall {
                        function_reference: FunctionReference::Local { name: function_name },
                        arguments,
                        variadic_arguments: Vec::new(),
                    },
                    source_location: start_location.duplicate(),
                };
                proof {
                    if core || bad {
                        acc = CoreExpr::Call(acc->Var_0, args_c);
                    }
                }
            } else if self.check(&TokenType::LeftBracket) {
                self.advance();
                let index = self.parse_expression()?;
                self.expect(&TokenType::RightBracket, "expected ']'")?;
                expr = Expression::ArrayAccess {
                    array: Box::new(expr),
                    index: Box::new(index),
                    source_location: start_location.duplicate(),
                };
                proof {
                    if core || bad {
                        acc = CoreExpr::Index(Box::new(acc), Box::new(core_full_at(toks, p + 1)->Some_0.0));
                    }
                }
            } else if self.check(&TokenType::Dot) {
                self.advance();
                let member_name = self.parse_identifier()?;
                if self.check(&TokenType::LeftParen) {
                    let ghost args_c = core_arg_list_at(toks, p + 2)->Some_0.0;
                    let list = self.parse_argument_list()?;
                    let ghost lg = list@;
                    let arguments = arguments_from(list, &start_location);
                    proof {
                        if core || bad {
                            lemma_args_from_list(arguments@, lg, args_c);
                        }
                    }
                    expr = Expression::MethodCall {
                        receiver: Box::new(expr),
                        method_name: member_name,
                        arguments,
                        source_location: start_location.duplicate(),
                    };
                    proof {
                        if core || bad {
                            acc = CoreExpr::Method(Box::new(acc), toks[p + 1].token_type->Identifier_0@, args_c);
                        }
                    }
                } else {
                    expr = Expression::FieldAccess {
                        instance: Box::new(expr),
                        field_name: member_name,
                        source_location: start_location.duplicate(),
                    };
                    proof {
                        if core || bad {
                            acc = CoreExpr::Field(Box::new(acc), toks[p + 1].token_type->Identifier_0@);
                        }
                    }
                }
            } else {
                return Ok(expr);
            }
        }
    }

    /// Parses an atom: a map literal or braced expression, a parenthesized
    /// expression or lambda, an array literal or a lambda with captures, a
    /// literal, a variable, an enum variant, a struct construction, or a
    /// match expression.
    #[verifier::spinoff_prover]
    #[verifier::rlimit(100)]
    pub fn parse_atomic_expression(&mut self) -> (r: Result<Expression, ParserError>)
        requires
            old(self).wf(),
        ensures
            final(self).moved_from(*old(self)),
            r is Ok ==> final(self).pos() > old(self).pos(),
            r matches Ok(e) ==> atom_head(old(self).cur(), e),
            r matches Ok(e) ==> binds_at_least(old(self).cur(), e, 8),
            core_atom_at(old(self).toks(), old(self).pos()) matches Some((c, j))
                ==> r matches Ok(e) && denotes(e, c) && final(self).pos() == j,
        decreases old(self).toks().len() - old(self).pos(), 15nat,
    {
        let start_location = self.current_location();
        proof {
            let i = old(self).pos();
            let toks = old(self).toks();
            assert(toks[i].token_type is Identifier || core_construction_at(toks, i) is None);
        }
        if self.check(&TokenType::LeftBrace) {
            if self.looks_like_map_literal() {
                return self.parse_map_literal();
            }
            return self.parse_braced_expression();
        }
        if self.check(&TokenType::LeftParen) {
            return self.parse_paren_expr_or_lambda();
        }
        if self.check(&TokenType::LeftBracket) {
            if self.looks_like_array_literal() {
                return self.parse_array_literal();
            }
            proof {
                let toks = old(self).toks();
                let i = old(self).pos();
                assert(core_capture_lambda_at(toks, i) == match captures_from(toks, i + 1) {
                    Some((cs, k)) => if i < k < toks.len() { core_paren_or_lambda(toks, k, cs) } else { None },
                    None => None,
                });
            }
            let captures = self.parse_capture_list()?;
            if !self.check(&TokenType::LeftParen) {
                return Err(ParserError::SyntaxError {
                    message: String::from_str("expected '(' after capture list"),
                    location: self.current_location(),
                    suggestion: Some(String::from_str("use [captures](params) => body syntax")),
                });
            }
            return self.parse_paren_expr_or_lambda_with_captures(captures);
        }
        let literal = match &self.peek().token_type {
            TokenType::IntegerLiteral(value) => Some(Expression::IntegerLiteral {
                value: *value,
                source_location: start_location.duplicate(),
            }),
            TokenType::FloatLiteral(value) => Some(Expression::FloatLiteral {
                value: value.clone(),
                source_location: start_location.duplicate(),
            }),
            TokenType::StringLiteral(value) => Some(Expression::StringLiteral {
                value: value.clone(),
                source_location: start_location.duplicate(),
            }),
            TokenType::CharLiteral(value) => Some(Expression::CharacterLiteral {
                value: *value,
                source_location: start_location.duplicate(),
            }),
            TokenType::BoolLiteral(value) => Some(Expression::BooleanLiteral {
                value: *value,
                source_location: start_location.duplicate(),
            }),
            _ => None,
        };
        if let Some(expr) = literal {
            self.advance();
            return Ok(expr);
        }
        let ident = match &self.peek().token_type {
            TokenType::Identifier(name) => Some(name.clone()),
            _ => None,
        };
        if let Some(name) = ident {
            self.advance();
            if self.check(&TokenType::DoubleColon) {
                return self.parse_enum_variant_expression(name, start_location);
            }
            if self.check(&TokenType::LeftBrace) && self.looks_like_struct_construction() {
                return self.parse_struct_construction(name, start_location);
            }
            return Ok(Expression::Variable {
                name: Identifier::new(name, start_location.duplicate()),
                source_location: start_location,
            });
        }
        if self.check_keyword(Keyword::Match) {
            return self.parse_match_expression();
        }
        Err(self.unexpected("expression"))
    }

    /// Parses the calls, and with `full` also the index and member
    /// accesses, that follow a variable; arguments keep their labels.
    #[verifier::spinoff_prover]
    #[verifier::rlimit(100)]
    fn parse_call_postfix(
        &mut self,
        initial: Expression,
        full: bool,
        start_location: &SourceLocation,
    ) -> (r: Result<Expression, ParserError>)
        requires
            old(self).wf(),
            initial is Variable,
        ensures
            final(self).moved_from(*old(self)),
            r matches Ok(e) ==> postfix_family(e),
            r matches Ok(e) ==> (!full ==> e is Variable || e is FunctionCall),
            parsed_as(
                r,
                final(self).pos(),
                core_chain_from(old(self).toks(), old(self).pos(), CoreExpr::Var(variable_name(initial)), full),
            ),
        decreases old(self).toks().len() - old(self).pos(), 16nat,
    {
        let ghost toks = old(self).toks();
        let ghost p0 = old(self).pos();
        let ghost c0 = CoreExpr::Var(variable_name(initial));
        let ghost mut acc: CoreExpr = c0;
        let ghost core = core_chain_from(toks, p0, c0, full) is Some;
        let mut expr = initial;
        loop
            invariant
                self.moved_from(*old(self)),
                toks == self.toks(),
                p0 == old(self).pos(),
                c0 == CoreExpr::Var(variable_name(initial)),
                core == core_chain_from(toks, p0, c0, full) is Some,
                core ==> core_chain_from(toks, p0, c0, full) == core_chain_from(toks, self.pos(), acc, full)
                    && denotes(expr, acc),
                postfix_family(expr),
                !full ==> expr is Variable || expr is FunctionCall,
            decreases self.toks().len() - self.pos(),
        {
            let ghost p = self.pos();
            if self.check(&TokenType::LeftParen) {
                let ghost args_c = core_arg_list_at(toks, p)->Some_0.0;
                let list = self.parse_argument_list()?;
                let function_name = match &expr {
                    Expression::Variable { name, .. } => name.duplicate(),
                    _ => {
                        return Err(ParserError::UnexpectedToken {
                            expected: String::from_str("function name"),
                            found: String::from_str("complex expression"),
                            location: start_location.duplicate(),
                        });
                    },
                };
                let ghost lg = list@;
                let arguments = arguments_from(list, start_location);
                proof {
                    if core {
                        lemma_args_from_list(arguments@, lg, args_c);
                    }
                }
                expr = Expression::FunctionCall {
                    call: FunctionCall {
                        function_reference: FunctionReference::Local { name: function_name },
                        arguments,
                        variadic_arguments: Vec::new(),
                    },
                    source_location: start_location.duplicate(),
                };
                proof {
                    if core {
                        acc = CoreExpr::Call(acc->Var_0, args_c);
                    }
                }
            } else if full && self.check(&TokenType::LeftBracket) {
                self.advance();
                let index = self.parse_expression()?;
                self.expect(&TokenType::RightBracket, "expected ']'")?;
                expr = Expression::ArrayAccess {
                    array: Box::new(expr),
                    index: Box::new(index),
                    source_location: start_location.duplicate(),
                };
                proof {
                    if core {
                        acc = CoreExpr::Index(Box::new(acc), Box::new(core_full_at(toks, p + 1)->Some_0.0));
                    }
                }
            } else if full && self.check(&TokenType::Dot) {
                self.advance();
                let member = match &self.peek().token_type {
                    TokenType::Identifier(member_name) => Some(member_name.clone()),
                    _ => None,
                };
                match member {
                    Some(member_name) => {
                        let member_loc = self.current_location();
                        self.advance();
                        if self.check(&TokenType::LeftParen) {
                            let ghost args_c = core_arg_list_at(toks, p + 2)->Some_0.0;
                            let list = self.parse_argument_list()?;
                            let ghost lg = list@;
                            let arguments = arguments_from(list, start_location);
                            proof {
                                if core {
                                    lemma_args_from_list(arguments@, lg, args_c);
                                }
                            }
                            expr = Expression::MethodCall {
                                receiver: Box::new(expr),
                                method_name: Identifier::new(member_name, member_loc),
                                arguments,
                                source_location: start_location.duplicate(),
                            };
                            proof {
                                if core {
                                    acc = CoreExpr::Method(Box::new(acc), toks[p + 1].token_type->Identifier_0@, args_c);
                                }
                            }
                        } else {
                            expr = Expression::FieldAccess {
                                instance: Box::new(expr),
                                field_name: Identifier::new(member_name, member_loc),
                                source_location: start_location.duplicate(),
                            };
                            proof {
                                if core {
                                    acc = CoreExpr::Field(Box::new(acc), toks[p + 1].token_type->Identifier_0@);
                                }
                            }
                        }
                    },
                    None => {
                        return Err(self.unexpected("field name or method name"));
                    },
                }
            } else {
                return Ok(expr);
            }
        }
    }

    /// Parses an operand without binary operators: a map literal or braced
    /// expression, `!e`, `-e`, a literal, `range(...)`, a variable with
    /// calls, indexing and member accesses, an enum variant, a struct
    /// construction, an array literal or a lambda with captures, a match
    /// expression, or a parenthesized expression or lambda.
    #[verifier::spinoff_prover]
    #[verifier::rlimit(100)]
    pub fn parse_primary_expression(&mut self) -> (r: Result<Expression, ParserError>)
        requires
            old(self).wf(),
        ensures
            final(self).moved_from(*old(self)),
            r is Ok ==> final(self).pos() > old(self).pos(),
            r matches Ok(e) ==> primary_head(old(self).cur(), e),
            core_primary_at(old(self).toks(), old(self).pos()) matches Some((c, j))
                ==> r matches Ok(e) && denotes(e, c) && final(self).pos() == j,
        decreases old(self).toks().len() - old(self).pos(), 26nat,
    {
        let start_location = self.current_location();
        proof {
            let i = old(self).pos();
            let toks = old(self).toks();
            assert(toks[i].token_type is Identifier || core_construction_at(toks, i) is None);
        }
        if self.check(&TokenType::LeftBrace) {
            if self.looks_like_map_literal() {
                return self.parse_map_literal();
            }
            return self.parse_braced_expression();
        }
        if self.check(&TokenType::Bang) {
            self.advance();
            let operand = self.parse_primary_expression()?;
            return Ok(Expression::LogicalNot { operand: Box::new(operand), source_location: start_location });
        }
        if self.check(&TokenType::Minus) {
            self.advance();
            let operand = self.parse_primary_expression()?;
            return Ok(Expression::Negate { operand: Box::new(operand), source_location: start_location });
        }
        let literal = match &self.peek().token_type {
            TokenType::IntegerLiteral(value) => Some(Expression::IntegerLiteral {
                value: *value,
                source_location: start_location.duplicate(),
            }),
            TokenType::FloatLiteral(value) => Some(Expression::FloatLiteral {
                value: value.clone(),
                source_location: start_location.duplicate(),
            }),
            TokenType::StringLiteral(value) => Some(Expression::StringLiteral {
                value: value.clone(),
                source_location: start_location.duplicate(),
            }),
            TokenType::CharLiteral(value) => Some(Expression::CharacterLiteral {
                value: *value,
                source_location: start_location.duplicate(),
            }),
            TokenType::BoolLiteral(value) => Some(Expression::BooleanLiteral {
                value: *value,
                source_location: start_location.duplicate(),
            }),
            _ => None,
        };
        if let Some(expr) = literal {
            self.advance();
            return Ok(expr);
        }
        if self.check_keyword(Keyword::Range) {
            // `range` is a keyword but may be called like a function.
            self.advance();
            let range = Identifier::new(String::from_str("range"), start_location.duplicate());
            proof {
                reveal_strlit("range");
                assert(range.name@ == range_name());
            }
            let expr = Expression::Variable { name: range, source_location: start_location.duplicate() };
            return self.parse_call_postfix(expr, false, &start_location);
        }
        let ident = match &self.peek().token_type {
            TokenType::Identifier(name) => Some(name.clone()),
            _ => None,
        };
        if let Some(name) = ident {
            self.advance();
            if self.check(&TokenType::DoubleColon) {
                return self.parse_enum_variant_expression(name, start_location);
            }
            if self.check(&TokenType::LeftBrace) && self.looks_like_struct_construction() {
                return self.parse_struct_construction(name, start_location);
            }
            let expr = Expression::Variable {
                name: Identifier::new(name, start_location.duplicate()),
                source_location: start_location.duplicate(),
            };
            return self.parse_call_postfix(expr, true, &start_location);
        }
        if self.check(&TokenType::LeftBracket) {
            if self.looks_like_array_literal() {
                return self.parse_array_literal();
            }
            proof {
                let toks = old(self).toks();
                let i = old(self).pos();
                assert(core_capture_lambda_at(toks, i) == match captures_from(toks, i + 1) {
                    Some((cs, k)) => if i < k < toks.len() { core_paren_or_lambda(toks, k, cs) } else { None },
                    None => None,
                });
            }
            let captures = self.parse_capture_list()?;
            if !self.check(&TokenType::LeftParen) {
                return Err(ParserError::SyntaxError {
                    message: String::from_str("expected '(' after capture list"),
                    location: self.current_location(),
                    suggestion: Some(String::from_str("use [captures](params) => body syntax")),
                });
            }
            return self.parse_paren_expr_or_lambda_with_captures(captures);
        }
        if self.check_keyword(Keyword::Match) {
            return self.parse_match_expression();
        }
        if self.check(&TokenType::LeftParen) {
            return self.parse_paren_expr_or_lambda();
        }
        Err(self.unexpected("primary expression"))
    }

    /// Parses a parenthesized expression or a lambda without captures.
    #[verifier::spinoff_prover]
    #[verifier::rlimit(100)]
    pub fn parse_paren_expr_or_lambda(&mut self) -> (r: Result<Expression, ParserError>)
        requires
            old(self).wf(),
        ensures
            final(self).moved_from(*old(self)),
            r is Ok ==> final(self).pos() > old(self).pos() && old(self).cur() is LeftParen,
            core_paren_or_lambda(old(self).toks(), old(self).pos(), seq![]) matches Some((c, m))
                ==> r matches Ok(e) && denotes(e, c) && final(self).pos() == m,
        decreases old(self).toks().len() - old(self).pos(), 11nat,
    {
        let captures: Vec<Capture> = Vec::new();
        proof {
            assert(captures_view(captures@) =~= Seq::<(Seq<char>, CaptureMode)>::empty());
        }
        self.parse_paren_expr_or_lambda_with_captures(captures)
    }

    /// Parses `( expr )`, or a lambda `(params) [-> type] => body` with the
    /// given captures. Captures before something that is not a lambda are
    /// an error.
    #[verifier::spinoff_prover]
    #[verifier::rlimit(100)]
    pub fn parse_paren_expr_or_lambda_with_captures(
        &mut self,
        captures: Vec<Capture>,
    ) -> (r: Result<Expression, ParserError>)
        requires
            old(self).wf(),
        ensures
            final(self).moved_from(*old(self)),
            r is Ok ==> final(self).pos() > old(self).pos() && old(self).cur() is LeftParen,
            r is Ok && captures@.len() > 0 ==> r->Ok_0 is Lambda,
            core_paren_or_lambda(old(self).toks(), old(self).pos(), captures_view(captures@)) matches Some((c, m))
                ==> r matches Ok(e) && denotes(e, c) && final(self).pos() == m,
        decreases old(self).toks().len() - old(self).pos(), 10nat,
    {
        let start_location = self.current_location();
        self.expect(&TokenType::LeftParen, "expected '('")?;

        if self.check(&TokenType::RightParen) {
            self.advance();
            let no_params: Vec<Parameter> = Vec::new();
            proof {
                assert(params_view(no_params@) =~= Seq::<(Seq<char>, TypeShape)>::empty());
            }
            return self.parse_lambda_after_params(captures, no_params, start_location);
        }
        if self.is_lambda_param_start() {
            let params = self.parse_lambda_params()?;
            self.expect(&TokenType::RightParen, "expected ')' after lambda parameters")?;
            return self.parse_lambda_after_params(captures, params, start_location);
        }
        if captures.len() > 0 {
            return Err(ParserError::SyntaxError {
                message: String::from_str("capture list must be followed by lambda parameters"),
                location: start_location,
                suggestion: Some(String::from_str("use [captures](params) => body syntax")),
            });
        }
        let inner = self.parse_expression()?;
        self.expect(&TokenType::RightParen, "expected ')'")?;
        Ok(inner)
    }

    /// Whether the current position starts lambda parameters: an
    /// identifier followed by `:`, or by `,` or `)` when the parenthesis
    /// closes into `=>`.
    pub fn is_lambda_param_start(&self) -> (b: bool)
        requires
            self.wf(),
        ensures
            b == (self.cur() is Identifier && self.pos() + 1 < self.toks().len() && {
                let next = self.kind_at(self.pos() + 1);
                ||| next is Colon
                ||| (next is Comma || next is RightParen) && closes_into_fat_arrow(self.toks(), self.pos() + 1, 1)
            }),
    {
        if !(matches!(self.peek().token_type, TokenType::Identifier(_))) {
            return false;
        }
        let n = self.token_count();
        if self.current_position() + 1 >= n {
            return false;
        }
        let next_is_colon = matches!(*self.token_kind(self.current_position() + 1), TokenType::Colon);
        if next_is_colon {
            return true;
        }
        let next_is_list = matches!(*self.token_kind(self.current_position() + 1), TokenType::Comma)
            || matches!(*self.token_kind(self.current_position() + 1), TokenType::RightParen);
        if !next_is_list {
            return false;
        }
        let mut depth: usize = 1;
        let mut i = self.current_position() + 1;
        while i < n
            invariant
                self.wf(),
                n == self.toks().len(),
                self.pos() + 1 <= i <= n,
                1 <= depth <= i - self.pos(),
                self.cur() is Identifier,
                self.pos() + 1 < self.toks().len(),
                self.kind_at(self.pos() + 1) is Comma || self.kind_at(self.pos() + 1) is RightParen,
                closes_into_fat_arrow(self.toks(), self.pos() + 1, 1) == closes_into_fat_arrow(self.toks(), i as int, depth as int),
            decreases n - i,
        {
            if matches!(*self.token_kind(i), TokenType::LeftParen) {
                depth = depth + 1;
            } else if matches!(*self.token_kind(i), TokenType::RightParen) {
                depth = depth - 1;
                if depth == 0 {
                    return i + 1 < n && matches!(*self.token_kind(i + 1), TokenType::FatArrow);
                }
            }
            i = i + 1;
        }
        false
    }

    /// Parses lambda parameters `name [: type], ...`; a parameter without a
    /// type gets `Int` as a placeholder.
    #[verifier::spinoff_prover]
    #[verifier::rlimit(100)]
    pub fn parse_lambda_params(&mut self) -> (r: Result<Vec<Parameter>, ParserError>)
        requires
            old(self).wf(),
        ensures
            final(self).moved_from(*old(self)),
            r is Ok ==> final(self).pos() > old(self).pos(),
            r matches Ok(ps) ==> ps@.len() >= 1,
            r matches Ok(ps) ==> params_plain(ps@),
            r is Ok <==> lambda_params_from(old(self).toks(), old(self).pos(), true) is Some,
            r matches Ok(ps) ==> lambda_params_from(old(self).toks(), old(self).pos(), true) == Some((params_view(ps@), final(self).pos())),
    {
        let ghost toks = old(self).toks();
        let ghost p0 = old(self).pos();
        let mut params: Vec<Parameter> = Vec::new();
        proof {
            match lambda_params_from(toks, p0, true) {
                Some((ps, m)) => {
                    assert(params_view(params@) + ps =~= ps);
                },
                None => {},
            }
        }
        loop
            invariant_except_break
                lambda_params_from(toks, p0, true) == match lambda_params_from(toks, self.pos(), true) {
                    Some((ps, m)) => Some((params_view(params@) + ps, m)),
                    None => None,
                },
            invariant
                self.moved_from(*old(self)),
                toks == self.toks(),
                p0 == old(self).pos(),
                params@.len() >= 1 ==> self.pos() > old(self).pos(),
                params_plain(params@),
            ensures
                self.moved_from(*old(self)),
                params@.len() >= 1,
                self.pos() > old(self).pos(),
                toks == self.toks(),
                lambda_params_from(toks, p0, true) == Some((params_view(params@), self.pos())),
                params_plain(params@),
            decreases self.toks().len() - self.pos(),
        {
            let ghost q = self.pos();
            let param_loc = self.current_location();
            let name = self.parse_identifier()?;
            let param_type = if self.check(&TokenType::Colon) {
                self.advance();
                Box::new(self.parse_type()?)
            } else {
                Box::new(placeholder_type(PrimitiveType::Integer, &param_loc))
            };
            let ghost pv = (name.name@, shape_of(*param_type));
            let ghost before = params@;
            params.push(Parameter {
                name,
                param_type,
                intent: None,
                constraint: None,
                passing_mode: PassingMode::ByValue,
                source_location: param_loc,
            });
            proof {
                assert(params_view(params@) =~= params_view(before).push(pv));
                assert forall|k: int| 0 <= k < params@.len() implies (#[trigger] params@[k]).passing_mode == PassingMode::ByValue
                    && params@[k].intent is None && params@[k].constraint is None by {
                    if k < before.len() {
                        assert(params@[k] == before[k]);
                    }
                }
            }
            if !self.check(&TokenType::Comma) {
                proof {
                    assert(params_view(before) + seq![pv] =~= params_view(params@));
                }
                break;
            }
            self.advance();
            proof {
                match lambda_params_from(toks, self.pos(), true) {
                    Some((ps, m)) => {
                        assert(params_view(before) + (seq![pv] + ps) =~= params_view(params@) + ps);
                    },
                    None => {},
                }
            }
        }
        Ok(params)
    }

    /// Parses what follows lambda parameters: `[-> type] => body`, where the
    /// body is a block or an expression.
    #[verifier::spinoff_prover]
    #[verifier::rlimit(100)]
    pub fn parse_lambda_after_params(
        &mut self,
        captures: Vec<Capture>,
        parameters: Vec<Parameter>,
        start_location: SourceLocation,
    ) -> (r: Result<Expression, ParserError>)
        requires
            old(self).wf(),
        ensures
            final(self).moved_from(*old(self)),
            r is Ok ==> final(self).pos() > old(self).pos(),
            r matches Ok(e) ==> e matches Expression::Lambda { captures: c, parameters: p, .. }
                && c == captures && p == parameters,
            params_plain(parameters@) ==> (core_lambda_rest(old(self).toks(), old(self).pos(), captures_view(captures@),
                params_view(parameters@)) matches Some((c, m)) ==> r matches Ok(e) && denotes(e, c) && final(self).pos() == m),
        decreases old(self).toks().len() - old(self).pos(), 9nat,
    {
        let return_type = if self.check(&TokenType::Arrow) {
            self.advance();
            Some(Box::new(self.parse_type()?))
        } else {
            None
        };
        self.expect(&TokenType::FatArrow, "expected '=>' for lambda body")?;
        let body = if self.check(&TokenType::LeftBrace) {
            self.parse_lambda_block()?
        } else {
            LambdaBody::Expression(Box::new(self.parse_expression()?))
        };
        Ok(Expression::Lambda { captures, parameters, return_type, body, source_location: start_location })
    }

    /// Parses a lambda block: `{}` is an empty block, `{ expr }` a block
    /// returning `expr`, anything else a block of statements.
    #[verifier::spinoff_prover]
    #[verifier::rlimit(100)]
    pub fn parse_lambda_block(&mut self) -> (r: Result<LambdaBody, ParserError>)
        requires
            old(self).wf(),
        ensures
            final(self).moved_from(*old(self)),
            r is Ok ==> final(self).pos() > old(self).pos(),
            r matches Ok(b) ==> b is Block,
            old(self).cur() is LeftBrace && token_is(old(self).toks(), old(self).pos() + 1, TokenType::RightBrace)
                ==> (r matches Ok(LambdaBody::Block(b)) && b.statements@.len() == 0 && final(self).pos() == old(self).pos() + 2),
            old(self).cur() is LeftBrace && !token_is(old(self).toks(), old(self).pos() + 1, TokenType::RightBrace)
                ==> (core_full_at(old(self).toks(), old(self).pos() + 1) matches Some((c, k))
                ==> (token_is(old(self).toks(), k, TokenType::RightBrace) ==> (r matches Ok(LambdaBody::Block(b))
                    && b.statements@.len() == 1
                    && (b.statements@[0] matches Statement::Return { value: Some(v), .. } && denotes(*v, c))
                    && final(self).pos() == k + 1))),
            old(self).cur() is LeftBrace && !keyword_free_start(old(self).kind_at(old(self).pos() + 1))
                ==> (core_block_at(old(self).toks(), old(self).pos(), true) matches Some((cs, j))
                ==> r matches Ok(LambdaBody::Block(b)) && stmts_denote(b.statements@, cs) && final(self).pos() == j),
        decreases old(self).toks().len() - old(self).pos(), 8nat,
    {
        let ghost toks = old(self).toks();
        let ghost i0 = old(self).pos();
        let ghost keyword_first = old(self).cur() is LeftBrace && !keyword_free_start(old(self).kind_at(old(self).pos() + 1));
        let block_start = self.current_location();
        self.expect(&TokenType::LeftBrace, "expected '{'")?;

        if self.check(&TokenType::RightBrace) {
            self.advance();
            return Ok(LambdaBody::Block(Block { statements: Vec::new(), source_location: block_start }));
        }

        let saved_pos = self.current_position();
        match self.parse_expression() {
            Ok(expr) => {
                if self.check(&TokenType::RightBrace) {
                    self.advance();
                    let mut statements: Vec<Statement> = Vec::new();
                    statements.push(Statement::Return {
                        value: Some(Box::new(expr)),
                        source_location: block_start.duplicate(),
                    });
                    return Ok(LambdaBody::Block(Block { statements, source_location: block_start }));
                }
                self.restore_position(saved_pos);
            },
            Err(_) => {
                self.restore_position(saved_pos);
            },
        }

        let ghost no_simple = !token_is(old(self).toks(), old(self).pos() + 1, TokenType::RightBrace)
            && !(core_full_at(old(self).toks(), old(self).pos() + 1) matches Some((c, k))
                && token_is(old(self).toks(), k, TokenType::RightBrace));
        assert(no_simple);
        let mut statements: Vec<Statement> = Vec::new();
        let ghost mut cs: Seq<CoreStmt> = seq![];
        proof {
            match core_stmts_from(toks, self.pos(), true) {
                Some((rest, e)) => {
                    assert(cs + rest =~= rest);
                },
                None => {},
            }
        }
        while !self.check(&TokenType::RightBrace) && !self.is_at_end()
            invariant
                self.moved_from(*old(self)),
                self.pos() > old(self).pos(),
                no_simple == (!token_is(old(self).toks(), old(self).pos() + 1, TokenType::RightBrace)
                    && !(core_full_at(old(self).toks(), old(self).pos() + 1) matches Some((c, k))
                    && token_is(old(self).toks(), k, TokenType::RightBrace))),
                no_simple,
                toks == self.toks(),
                i0 == old(self).pos(),
                keyword_first == (old(self).cur() is LeftBrace && !keyword_free_start(old(self).kind_at(old(self).pos() + 1))),
                keyword_first && core_block_at(toks, i0, true) is Some ==> core_block_at(toks, i0, true)
                    == match core_stmts_from(toks, self.pos(), true) {
                        Some((rest, e)) => Some((cs + rest, e)),
                        None => None,
                    },
                keyword_first && core_block_at(toks, i0, true) is Some ==> stmts_denote(statements@, cs),
            decreases self.toks().len() - self.pos(),
        {
            let ghost p = self.pos();
            let ghost c = core_stmt_at(toks, p, true)->Some_0.0;
            let ghost before = statements@;
            let statement = self.parse_statement()?;
            let ghost sg = statement;
            statements.push(statement);
            proof {
                if keyword_first && core_block_at(toks, i0, true) is Some {
                    lemma_stmts_denote_push(before, cs, sg, c);
                    assert(statements@ == before.push(sg));
                    match core_stmts_from(toks, self.pos(), true) {
                        Some((rest, e)) => {
                            assert(cs + (seq![c] + rest) =~= cs.push(c) + rest);
                        },
                        None => {},
                    }
                    cs = cs.push(c);
                }
            }
        }
        self.expect(&TokenType::RightBrace, "expected '}' after lambda block")?;
        proof {
            assert(cs + Seq::<CoreStmt>::empty() =~= cs);
        }
        Ok(LambdaBody::Block(Block { statements, source_location: block_start }))
    }

    /// Parses `{ field: value, ... }` after a type name.
    #[verifier::spinoff_prover]
    #[verifier::rlimit(100)]
    pub fn parse_struct_construction(
        &mut self,
        struct_name: String,
        start_location: SourceLocation,
    ) -> (r: Result<Expression, ParserError>)
        requires
            old(self).wf(),
        ensures
            final(self).moved_from(*old(self)),
            r is Ok ==> final(self).pos() > old(self).pos(),
            r matches Ok(e) ==> e matches Expression::StructConstruct { struct_name: n, .. } && n.name == struct_name,
            old(self).pos() >= 1 && old(self).cur() is LeftBrace
                && old(self).kind_at(old(self).pos() - 1)->Identifier_0@ == struct_name@
                ==> (core_construction_at(old(self).toks(), old(self).pos() - 1) matches Some((c, m))
                    ==> r matches Ok(e) && denotes(e, c) && final(self).pos() == m),
        decreases old(self).toks().len() - old(self).pos(), 14nat,
    {
        let ghost toks = old(self).toks();
        let ghost p0 = old(self).pos();
        let ghost spec_fs: Option<(Seq<(Seq<char>, CoreExpr)>, int)> =
            if p0 >= 1 && old(self).cur() is LeftBrace && core_construction_at(toks, p0 - 1) is Some {
                core_field_values_from(toks, p0 + 1)
            } else {
                None
            };
        proof {
            if p0 >= 1 && old(self).cur() is LeftBrace && core_construction_at(toks, p0 - 1) is Some {
                assert(spec_fs is Some);
            }
        }
        self.expect(&TokenType::LeftBrace, "expected '{'")?;
        let mut field_values: Vec<FieldValue> = Vec::new();
        let ghost mut done: Seq<(Seq<char>, CoreExpr)> = seq![];
        while !self.check(&TokenType::RightBrace) && !self.is_at_end()
            invariant
                self.moved_from(*old(self)),
                self.pos() > old(self).pos(),
                toks == self.toks(),
                p0 == old(self).pos(),
                p0 >= 1 && old(self).cur() is LeftBrace && core_construction_at(toks, p0 - 1) is Some
                    ==> spec_fs is Some,
                spec_fs matches Some((all, m)) ==> {
                    &&& core_field_values_from(toks, self.pos()) matches Some((rest, m2))
                    &&& m2 == m
                    &&& all == done + rest
                    &&& field_values_denote(field_values@, done)
                },
            decreases self.toks().len() - self.pos(),
        {
            let ghost p = self.pos();
            proof {
                if spec_fs is Some {
                    assert(core_field_values_from(toks, p) is Some);
                    assert(!(toks[p].token_type is RightBrace));
                    assert(toks[p].token_type is Identifier && token_is(toks, p + 1, TokenType::Colon));
                    assert(core_full_at(toks, p + 2) is Some);
                }
            }
            let field_loc = self.current_location();
            let field = match &self.peek().token_type {
                TokenType::Identifier(name) => Some(name.clone()),
                _ => None,
            };
            let field_name = match field {
                Some(name) => {
                    self.advance();
                    Identifier::new(name, field_loc.duplicate())
                },
                None => {
                    return Err(self.unexpected("field name"));
                },
            };
            self.expect(&TokenType::Colon, "expected ':' after field name")?;
            let ghost cv = core_full_at(toks, self.pos())->Some_0.0;
            let value = Box::new(self.parse_expression()?);
            let fv = FieldValue { field_name, value, source_location: field_loc };
            let ghost g = fv;
            let ghost before = field_values@;
            field_values.push(fv);
            if self.check(&TokenType::Comma) {
                self.advance();
            }
            proof {
                let item = (toks[p].token_type->Identifier_0@, cv);
                if spec_fs is Some {
                    lemma_field_values_push(before, done, g, item);
                    match core_field_values_from(toks, self.pos()) {
                        Some((rest, m)) => {
                            assert(done + (seq![item] + rest) =~= done.push(item) + rest);
                        },
                        None => {},
                    }
                }
                done = done.push(item);
            }
        }
        self.expect(&TokenType::RightBrace, "expected '}'")?;
        proof {
            if spec_fs is Some {
                assert(done + Seq::<(Seq<char>, CoreExpr)>::empty() =~= done);
            }
        }
        Ok(Expression::StructConstruct {
            struct_name: Identifier::new(struct_name, start_location.duplicate()),
            field_values,
            source_location: start_location,
        })
    }

    /// Parses `::Variant` or `::Variant(values)` after an enum name.
    #[verifier::spinoff_prover]
    #[verifier::rlimit(100)]
    pub fn parse_enum_variant_expression(
        &mut self,
        enum_name: String,
        start_location: SourceLocation,
    ) -> (r: Result<Expression, ParserError>)
        requires
            old(self).wf(),
        ensures
            final(self).moved_from(*old(self)),
            r is Ok ==> final(self).pos() > old(self).pos(),
            r matches Ok(e) ==> e matches Expression::EnumVariant { enum_name: n, .. } && n.name == enum_name,
            old(self).pos() >= 1 && old(self).cur() is DoubleColon
                && old(self).kind_at(old(self).pos() - 1)->Identifier_0@ == enum_name@
                ==> (core_construction_at(old(self).toks(), old(self).pos() - 1) matches Some((c, m))
                    ==> r matches Ok(e) && denotes(e, c) && final(self).pos() == m),
        decreases old(self).toks().len() - old(self).pos(), 14nat,
    {
        let ghost toks = old(self).toks();
        let ghost p0 = old(self).pos();
        let ghost spec_vs: Option<(Seq<CoreExpr>, int)> =
            if p0 >= 1 && old(self).cur() is DoubleColon && core_construction_at(toks, p0 - 1) is Some
                && token_is(toks, p0 + 2, TokenType::LeftParen) && !token_is(toks, p0 + 3, TokenType::RightParen) {
                core_variant_values(toks, p0 + 3)
            } else {
                None
            };
        proof {
            if p0 >= 1 && old(self).cur() is DoubleColon && core_construction_at(toks, p0 - 1) is Some {
                assert(toks[p0 + 1].token_type is Identifier);
                if token_is(toks, p0 + 2, TokenType::LeftParen) && !token_is(toks, p0 + 3, TokenType::RightParen) {
                    assert(spec_vs is Some);
                }
            }
        }
        self.expect(&TokenType::DoubleColon, "expected '::'")?;
        let variant = match &self.peek().token_type {
            TokenType::Identifier(name) => Some(name.clone()),
            _ => None,
        };
        let variant_name = match variant {
            Some(name) => {
                self.advance();
                Identifier::new(name, self.current_location())
            },
            None => {
                return Err(self.unexpected("variant name"));
            },
        };
        let mut values: Vec<Expression> = Vec::new();
        if self.check(&TokenType::LeftParen) {
            self.advance();
            if !self.check(&TokenType::RightParen) {
                let ghost mut done: Seq<CoreExpr> = seq![];
                loop
                    invariant_except_break
                        spec_vs matches Some((all, m)) ==> {
                            &&& core_variant_values(toks, self.pos()) matches Some((rest, m2))
                            &&& m2 == m
                            &&& all == done + rest
                            &&& values_denote(values@, done)
                        },
                    invariant
                        self.moved_from(*old(self)),
                        self.pos() > old(self).pos(),
                        toks == self.toks(),
                        p0 == old(self).pos(),
                        token_is(toks, p0 + 2, TokenType::LeftParen),
                        !token_is(toks, p0 + 3, TokenType::RightParen),
                        p0 >= 1 && old(self).cur() is DoubleColon && core_construction_at(toks, p0 - 1) is Some
                            && token_is(toks, p0 + 2, TokenType::LeftParen)
                            && !token_is(toks, p0 + 3, TokenType::RightParen) ==> spec_vs is Some,
                    ensures
                        self.moved_from(*old(self)),
                        self.pos() > old(self).pos(),
                        toks == self.toks(),
                        spec_vs matches Some((all, m)) ==> {
                            &&& values_denote(values@, all)
                            &&& self.spec_check(TokenType::RightParen)
                            &&& self.pos() + 1 == m
                        },
                    decreases self.toks().len() - self.pos(),
                {
                    proof {
                        if spec_vs is Some {
                            assert(core_variant_values(toks, self.pos()) is Some);
                            assert(core_full_at(toks, self.pos()) is Some);
                        }
                    }
                    let ghost cv = core_full_at(toks, self.pos())->Some_0.0;
                    let value = self.parse_expression()?;
                    let ghost g = value;
                    let ghost before = values@;
                    values.push(value);
                    proof {
                        if spec_vs is Some {
                            lemma_values_push(before, done, g, cv);
                        }
                    }
                    if self.check(&TokenType::Comma) {
                        self.advance();
                        proof {
                            if spec_vs is Some {
                                match core_variant_values(toks, self.pos()) {
                                    Some((rest, m)) => {
                                        assert(done + (seq![cv] + rest) =~= done.push(cv) + rest);
                                    },
                                    None => {},
                                }
                            }
                            done = done.push(cv);
                        }
                    } else {
                        proof {
                            if spec_vs is Some {
                                assert(done + seq![cv] =~= done.push(cv));
                            }
                        }
                        break;
                    }
                }
            }
            self.expect(&TokenType::RightParen, "expected ')'")?;
        }
        proof {
            if p0 >= 1 && old(self).cur() is DoubleColon && core_construction_at(toks, p0 - 1) is Some {
                let (c, m) = core_construction_at(toks, p0 - 1)->Some_0;
                assert(c matches CoreExpr::Variant(_, v, vs) && v == variant_name.name@ && values_denote(values@, vs));
                assert(self.pos() == m);
            }
        }
        Ok(Expression::EnumVariant {
            enum_name: Identifier::new(enum_name, start_location.duplicate()),
            variant_name,
            values,
            source_location: start_location,
        })
    }

    /// Parses an array literal `[e, e, ...]`. Its element type is that of
    /// the first element when that is an integer, float, string or boolean
    /// literal (at that literal's location), otherwise `Int` at the `[`.
    #[verifier::spinoff_prover]
    #[verifier::rlimit(100)]
    pub fn parse_array_literal(&mut self) -> (r: Result<Expression, ParserError>)
        requires
            old(self).wf(),
        ensures
            final(self).moved_from(*old(self)),
            r is Ok ==> final(self).pos() > old(self).pos(),
            r matches Ok(e) ==> e matches Expression::ArrayLiteral { element_type, elements, .. }
                && element_type_of(*element_type, elements@, old(self).toks()[old(self).pos()].location),
            old(self).cur() is LeftBracket ==> (core_array_items(old(self).toks(), old(self).pos() + 1) matches Some((cs, m))
                ==> r matches Ok(e) && denotes(e, CoreExpr::Array(array_element_primitive(cs), cs))
                && final(self).pos() == m),
        decreases old(self).toks().len() - old(self).pos(), 14nat,
    {
        let ghost toks = old(self).toks();
        let ghost spec_items: Option<(Seq<CoreExpr>, int)> =
            if old(self).cur() is LeftBracket { core_array_items(toks, old(self).pos() + 1) } else { None };
        let start_location = self.current_location();
        self.expect(&TokenType::LeftBracket, "expected '['")?;
        let mut elements: Vec<Box<Expression>> = Vec::new();
        let ghost mut done: Seq<CoreExpr> = seq![];
        while !self.check(&TokenType::RightBracket)
            invariant
                self.moved_from(*old(self)),
                self.pos() > old(self).pos(),
                toks == self.toks(),
                spec_items == (if old(self).cur() is LeftBracket { core_array_items(toks, old(self).pos() + 1) } else { None }),
                spec_items matches Some((all, m)) ==> {
                    &&& core_array_items(toks, self.pos()) matches Some((rest, m2))
                    &&& m2 == m
                    &&& all == done + rest
                    &&& boxed_values_denote(elements@, done)
                },
            decreases self.toks().len() - self.pos(),
        {
            proof {
                if spec_items is Some {
                    assert(core_array_items(toks, self.pos()) is Some);
                    assert(core_full_at(toks, self.pos()) is Some);
                }
            }
            let ghost cv = core_full_at(toks, self.pos())->Some_0.0;
            let element = self.parse_expression()?;
            let boxed = Box::new(element);
            let ghost g = boxed;
            let ghost before = elements@;
            elements.push(boxed);
            proof {
                if spec_items is Some {
                    lemma_boxed_values_push(before, done, g, cv);
                }
            }
            if !self.check(&TokenType::RightBracket) {
                self.expect(&TokenType::Comma, "expected ',' or ']'")?;
                proof {
                    if spec_items is Some {
                        match core_array_items(toks, self.pos()) {
                            Some((rest, m)) => {
                                assert(done + (seq![cv] + rest) =~= done.push(cv) + rest);
                            },
                            None => {},
                        }
                    }
                }
            } else {
                proof {
                    if spec_items is Some {
                        assert(core_array_items(toks, self.pos()) == Some((Seq::<CoreExpr>::empty(), self.pos() + 1)));
                        assert(done + seq![cv] =~= done.push(cv) + Seq::<CoreExpr>::empty());
                    }
                }
            }
            proof {
                done = done.push(cv);
            }
        }
        self.expect(&TokenType::RightBracket, "expected ']'")?;
        proof {
            if spec_items is Some {
                assert(done + Seq::<CoreExpr>::empty() =~= done);
                if done.len() > 0 {
                    assert(denotes(*elements@[0], done[0])) by {
                        lemma_boxed_values_index(elements@, done, 0);
                    }
                }
            }
        }
        let element_type = if elements.len() > 0 {
            match &*elements[0] {
                Expression::IntegerLiteral { source_location, .. } => placeholder_type(PrimitiveType::Integer, source_location),
                Expression::FloatLiteral { source_location, .. } => placeholder_type(PrimitiveType::Float, source_location),
                Expression::StringLiteral { source_location, .. } => placeholder_type(PrimitiveType::String, source_location),
                Expression::BooleanLiteral { source_location, .. } => placeholder_type(PrimitiveType::Boolean, source_location),
                _ => placeholder_type(PrimitiveType::Integer, &start_location),
            }
        } else {
            placeholder_type(PrimitiveType::Integer, &start_location)
        };
        Ok(Expression::ArrayLiteral { element_type: Box::new(element_type), elements, source_location: start_location })
    }

    /// Whether a `{` here starts a map literal: `{}`, or an identifier or
    /// string literal followed by `:`.
    pub fn looks_like_map_literal(&self) -> (b: bool)
        requires
            self.wf(),
        ensures
            b == (self.spec_check(TokenType::LeftBrace) && (
                (self.pos() + 1 < self.toks().len() && self.kind_at(self.pos() + 1) is RightBrace)
                || (self.pos() + 2 < self.toks().len()
                    && (self.kind_at(self.pos() + 1) is Identifier || self.kind_at(self.pos() + 1) is StringLiteral)
                    && self.kind_at(self.pos() + 2) is Colon))),
    {
        if !self.check(&TokenType::LeftBrace) {
            return false;
        }
        let p = self.current_position();
        let n = self.token_count();
        if p + 1 >= n {
            return false;
        }
        if matches!(*self.token_kind(p + 1), TokenType::RightBrace) {
            return true;
        }
        match self.token_kind(p + 1) {
            TokenType::Identifier(_) | TokenType::StringLiteral(_) => {
                p + 2 < n && matches!(*self.token_kind(p + 2), TokenType::Colon)
            },
            _ => false,
        }
    }

    /// Parses a map literal `{ key: value, ... }`; its types are `String`
    /// to `Int` as placeholders.
    #[verifier::spinoff_prover]
    #[verifier::rlimit(100)]
    pub fn parse_map_literal(&mut self) -> (r: Result<Expression, ParserError>)
        requires
            old(self).wf(),
        ensures
            final(self).moved_from(*old(self)),
            r is Ok ==> final(self).pos() > old(self).pos(),
            r matches Ok(e) ==> e is MapLiteral,
            old(self).cur() is LeftBrace ==> (core_map_at(old(self).toks(), old(self).pos()) matches Some((c, m))
                ==> r matches Ok(e) && denotes(e, c) && final(self).pos() == m),
        decreases old(self).toks().len() - old(self).pos(), 14nat,
    {
        let ghost toks = old(self).toks();
        let ghost p0 = old(self).pos();
        let start_location = self.current_location();
        self.expect(&TokenType::LeftBrace, "expected '{'")?;
        let mut entries: Vec<MapEntry> = Vec::new();
        let ghost mut done: Seq<(CoreExpr, CoreExpr)> = seq![];
        let ghost spec_entries: Option<(Seq<(CoreExpr, CoreExpr)>, int)> =
            if old(self).cur() is LeftBrace { core_map_entries(toks, p0 + 1) } else { None };
        proof {
            if old(self).cur() is LeftBrace && core_map_at(toks, p0) is Some && !token_is(toks, p0 + 1, TokenType::RightBrace) {
                assert(core_map_at(toks, p0) == match core_map_entries(toks, p0 + 1) {
                    Some((cs, m)) => Some((CoreExpr::MapLiteral(cs), m)),
                    None => None,
                });
            }
        }
        if self.check(&TokenType::RightBrace) {
            self.advance();
        } else {
            while !self.check(&TokenType::RightBrace) && !self.is_at_end()
                invariant
                    self.moved_from(*old(self)),
                    self.pos() > old(self).pos(),
                    toks == self.toks(),
                    spec_entries == (if old(self).cur() is LeftBrace { core_map_entries(toks, p0 + 1) } else { None }),
                    p0 == old(self).pos(),
                    !token_is(toks, p0 + 1, TokenType::RightBrace),
                    old(self).cur() is LeftBrace && core_map_at(toks, p0) is Some ==> spec_entries is Some,
                    spec_entries matches Some((all, m)) ==> {
                        &&& map_entries_denote(entries@, done)
                        &&& {
                            ||| (token_is(toks, self.pos(), TokenType::RightBrace) && all == done && m == self.pos() + 1)
                            ||| (!(toks[self.pos()].token_type is RightBrace) && !(toks[self.pos()].token_type is Eof)
                                && (core_map_entries(toks, self.pos()) matches Some((rest, m2)) && m2 == m && all == done + rest))
                        }
                    },
                ensures
                    self.moved_from(*old(self)),
                    self.pos() > old(self).pos(),
                    toks == self.toks(),
                    spec_entries matches Some((all, m)) ==> {
                        &&& map_entries_denote(entries@, all)
                        &&& token_is(toks, self.pos(), TokenType::RightBrace)
                        &&& m == self.pos() + 1
                    },
                decreases self.toks().len() - self.pos(),
            {
                let ghost p = self.pos();
                proof {
                    if spec_entries is Some {
                        assert(core_map_entries(toks, p) is Some);
                        assert(core_full_at(toks, p) is Some);
                    }
                }
                let ghost kc = core_full_at(toks, p)->Some_0.0;
                let key = self.parse_expression()?;
                self.expect(&TokenType::Colon, "expected ':' after map key")?;
                let ghost vc = core_full_at(toks, self.pos())->Some_0.0;
                let value = self.parse_expression()?;
                let entry = MapEntry {
                    key: Box::new(key),
                    value: Box::new(value),
                    source_location: self.current_location(),
                };
                let ghost g = entry;
                let ghost before = entries@;
                entries.push(entry);
                proof {
                    if spec_entries is Some {
                        lemma_map_entries_push(before, done, g, (kc, vc));
                    }
                }
                if self.check(&TokenType::Comma) {
                    self.advance();
                    proof {
                        if spec_entries is Some {
                            if toks[self.pos()].token_type is Eof {
                                assert(core_construction_at(toks, self.pos()) is None);
                                assert(core_full_at(toks, self.pos()) is None);
                            }
                            match core_map_entries(toks, self.pos()) {
                                Some((rest, m)) => {
                                    assert(done + (seq![(kc, vc)] + rest) =~= done.push((kc, vc)) + rest);
                                },
                                None => {},
                            }
                            assert(done + seq![(kc, vc)] =~= done.push((kc, vc)));
                        }
                        done = done.push((kc, vc));
                    }
                } else {
                    proof {
                        if spec_entries is Some {
                            assert(done + seq![(kc, vc)] =~= done.push((kc, vc)));
                        }
                        done = done.push((kc, vc));
                    }
                    break;
                }
            }
            self.expect(&TokenType::RightBrace, "expected '}' after map entries")?;
        }
        proof {
            if old(self).cur() is LeftBrace && core_map_at(toks, p0) is Some {
                let (c, m) = core_map_at(toks, p0)->Some_0;
                assert(c matches CoreExpr::MapLiteral(cs) && map_entries_denote(entries@, cs));
                assert(self.pos() == m);
            }
        }
        let key_type = Box::new(placeholder_type(PrimitiveType::String, &start_location));
        let value_type = Box::new(placeholder_type(PrimitiveType::Integer, &start_location));
        Ok(Expression::MapLiteral { key_type, value_type, entries, source_location: start_location })
    }

    /// Whether a `[` here starts an array literal rather than a capture
    /// list: a capture list is `[]` or `[ident...]`/`[&...]` whose closing
    /// bracket is followed by `(`.
    pub fn looks_like_array_literal(&self) -> (b: bool)
        requires
            self.wf(),
        ensures
            b == array_literal_ahead(self.toks(), self.pos()),
    {
        if !(matches!(self.peek().token_type, TokenType::LeftBracket)) {
            return false;
        }
        let n = self.token_count();
        if self.current_position() + 1 < n && matches!(*self.token_kind(self.current_position() + 1), TokenType::RightBracket) {
            if n - self.current_position() > 2 && matches!(*self.token_kind(self.current_position() + 2), TokenType::LeftParen) {
                return false;
            }
            return true;
        }
        if self.current_position() + 1 < n {
            let first_is_capture = matches!(*self.token_kind(self.current_position() + 1), TokenType::Identifier(_))
                || matches!(*self.token_kind(self.current_position() + 1), TokenType::Ampersand);
            if !first_is_capture {
                return true;
            }
            let mut depth: u64 = 1;
            let mut pos = self.current_position() + 1;
            while depth > 0 && pos < n
                invariant
                    self.wf(),
                    n == self.toks().len(),
                    self.pos() + 1 <= pos <= n,
                    depth <= pos + 1,
                    bracket_end(self.toks(), pos as int, depth as nat) == bracket_end(self.toks(), self.pos() + 1, 1),
                decreases n - pos,
            {
                if matches!(*self.token_kind(pos), TokenType::LeftBracket) {
                    depth = depth + 1;
                } else if matches!(*self.token_kind(pos), TokenType::RightBracket) {
                    depth = depth - 1;
                }
                pos = pos + 1;
            }
            if pos < n && matches!(*self.token_kind(pos), TokenType::LeftParen) {
                return false;
            }
            return true;
        }
        true
    }

    /// Whether a `{` here starts a struct construction: `{` then an
    /// identifier then `:`.
    pub fn looks_like_struct_construction(&self) -> (b: bool)
        requires
            self.wf(),
        ensures
            b == (self.cur() is LeftBrace && self.pos() + 2 < self.toks().len()
                && self.kind_at(self.pos() + 1) is Identifier && self.kind_at(self.pos() + 2) is Colon),
    {
        if !(matches!(self.peek().token_type, TokenType::LeftBrace)) {
            return false;
        }
        let n = self.token_count();
        n - self.current_position() > 2 && matches!(*self.token_kind(self.current_position() + 1), TokenType::Identifier(_))
            && matches!(*self.token_kind(self.current_position() + 2), TokenType::Colon)
    }

    /// Parses a capture list `[x, &y, &mut z]`.
    #[verifier::spinoff_prover]
    #[verifier::rlimit(100)]
    pub fn parse_capture_list(&mut self) -> (r: Result<Vec<Capture>, ParserError>)
        requires
            old(self).wf(),
        ensures
            final(self).moved_from(*old(self)),
            r is Ok ==> final(self).pos() > old(self).pos() && old(self).cur() is LeftBracket,
            old(self).cur() is LeftBracket ==> (r is Ok <==> captures_from(old(self).toks(), old(self).pos() + 1) is Some),
            r matches Ok(cs) ==> captures_from(old(self).toks(), old(self).pos() + 1) == Some((captures_view(cs@), final(self).pos())),
    {
        let ghost toks = old(self).toks();
        let ghost p1 = old(self).pos() + 1;
        let mut captures: Vec<Capture> = Vec::new();
        self.expect(&TokenType::LeftBracket, "expected '[' to start capture list")?;
        proof {
            match captures_from(toks, p1) {
                Some((cs, m)) => {
                    assert(captures_view(captures@) + cs =~= cs);
                },
                None => {},
            }
        }
        while !self.check(&TokenType::RightBracket)
            invariant
                self.moved_from(*old(self)),
                self.pos() > old(self).pos(),
                old(self).cur() is LeftBracket,
                toks == self.toks(),
                p1 == old(self).pos() + 1,
                captures_from(toks, p1) == match captures_from(toks, self.pos()) {
                    Some((cs, m)) => Some((captures_view(captures@) + cs, m)),
                    None => None,
                },
            decreases self.toks().len() - self.pos(),
        {
            let ghost q = self.pos();
            let capture_location = self.current_location();
            let mode = if self.check(&TokenType::Ampersand) {
                self.advance();
                if self.check_keyword(Keyword::Mut) {
                    self.advance();
                    CaptureMode::ByMutableReference
                } else {
                    CaptureMode::ByReference
                }
            } else {
                CaptureMode::ByValue
            };
            let name = self.parse_identifier()?;
            let ghost c = (name.name@, mode);
            let ghost before = captures@;
            captures.push(Capture { name, mode, source_location: capture_location });
            proof {
                assert(captures_view(captures@) =~= captures_view(before).push(c));
            }
            if !self.check(&TokenType::RightBracket) {
                self.expect(&TokenType::Comma, "expected ',' between captures")?;
                proof {
                    match captures_from(toks, self.pos()) {
                        Some((cs, m)) => {
                            assert(captures_view(before) + (seq![c] + cs) =~= captures_view(captures@) + cs);
                        },
                        None => {},
                    }
                }
            } else {
                proof {
                    assert(captures_view(before) + seq![c] =~= captures_view(captures@) + Seq::<(Seq<char>, CaptureMode)>::empty());
                }
            }
        }
        self.expect(&TokenType::RightBracket, "expected ']' to end capture list")?;
        proof {
            assert(captures_view(captures@) + Seq::<(Seq<char>, CaptureMode)>::empty() =~= captures_view(captures@));
        }
        Ok(captures)
    }

    /// Parses `..` or `..=` and, when an operand follows, the end of the
    /// range.
    #[verifier::spinoff_prover]
    #[verifier::rlimit(100)]
    pub fn parse_range_expression(
        &mut self,
        start: Option<Expression>,
        start_location: SourceLocation,
    ) -> (r: Result<Expression, ParserError>)
        requires
            old(self).wf(),
        ensures
            final(self).moved_from(*old(self)),
            r is Ok ==> final(self).pos() > old(self).pos(),
            r is Ok ==> old(self).cur() is DotDot || old(self).cur() is DotDotEqual,
            r matches Ok(e) ==> e matches Expression::Range { start: s, inclusive, .. }
                && (s is Some <==> start is Some)
                && (inclusive <==> old(self).cur() is DotDotEqual),
            start is None ==> (core_range_rest(old(self).toks(), old(self).pos(), None) matches Some((c, m))
                ==> r matches Ok(e) && denotes(e, c) && final(self).pos() == m),
            start matches Some(s) ==> forall|sc: CoreExpr| #[trigger] denotes(s, sc) ==> (
                core_range_rest(old(self).toks(), old(self).pos(), Some(Box::new(sc))) matches Some((c, m))
                ==> r matches Ok(e) && denotes(e, c) && final(self).pos() == m),
        decreases old(self).toks().len() - old(self).pos(), 14nat,
    {
        let inclusive = if self.check(&TokenType::DotDotEqual) {
            self.advance();
            true
        } else if self.check(&TokenType::DotDot) {
            self.advance();
            false
        } else {
            return Err(self.unexpected("'..' or '..='"));
        };
        let end = if self.is_range_end_start() {
            Some(Box::new(self.parse_range_operand()?))
        } else {
            None
        };
        let start = match start {
            Some(s) => Some(Box::new(s)),
            None => None,
        };
        Ok(Expression::Range { start, end, inclusive, source_location: start_location })
    }

    /// Whether the current token can start the end of a range.
    pub fn is_range_end_start(&self) -> (b: bool)
        requires
            self.wf(),
        ensures
            b == (self.cur() is IntegerLiteral || self.cur() is FloatLiteral || self.cur() is Identifier
                || self.cur() is LeftParen || self.cur() is LeftBrace),
    {
        match &self.peek().token_type {
            TokenType::IntegerLiteral(_) => true,
            TokenType::FloatLiteral(_) => true,
            TokenType::Identifier(_) => true,
            TokenType::LeftParen => true,
            TokenType::LeftBrace => true,
            _ => false,
        }
    }

    /// Parses the end of a range: an integer, a variable, a parenthesized
    /// expression or a braced expression.
    #[verifier::spinoff_prover]
    #[verifier::rlimit(100)]
    pub fn parse_range_operand(&mut self) -> (r: Result<Expression, ParserError>)
        requires
            old(self).wf(),
        ensures
            final(self).moved_from(*old(self)),
            r is Ok ==> final(self).pos() > old(self).pos(),
            r matches Ok(e) ==> (old(self).cur() matches TokenType::IntegerLiteral(v)
                ==> e matches Expression::IntegerLiteral { value, .. } && value == v),
            r matches Ok(e) ==> (old(self).cur() matches TokenType::Identifier(n)
                ==> e matches Expression::Variable { name, .. } && name.name == n),
            core_range_operand_at(old(self).toks(), old(self).pos()) matches Some((c, m))
                ==> r matches Ok(e) && denotes(e, c) && final(self).pos() == m,
        decreases old(self).toks().len() - old(self).pos(), 13nat,
    {
        let start_location = self.current_location();
        let simple = match &self.peek().token_type {
            TokenType::IntegerLiteral(value) => Some(Expression::IntegerLiteral {
                value: *value,
                source_location: start_location.duplicate(),
            }),
            TokenType::Identifier(name) => Some(Expression::Variable {
                name: Identifier::new(name.clone(), start_location.duplicate()),
                source_location: start_location.duplicate(),
            }),
            _ => None,
        };
        if let Some(expr) = simple {
            self.advance();
            return Ok(expr);
        }
        if self.check(&TokenType::LeftParen) {
            return self.parse_paren_expr_or_lambda();
        }
        if self.check(&TokenType::LeftBrace) {
            return self.parse_braced_expression();
        }
        Err(self.unexpected("range end value"))
    }

    /// Parses `match value { pattern => expr, ... }` as an expression.
    #[verifier::spinoff_prover]
    #[verifier::rlimit(100)]
    pub fn parse_match_expression(&mut self) -> (r: Result<Expression, ParserError>)
        requires
            old(self).wf(),
        ensures
            final(self).moved_from(*old(self)),
            r is Ok ==> final(self).pos() > old(self).pos(),
            r matches Ok(e) ==> e is Match && old(self).cur() == TokenType::Keyword(Keyword::Match),
            core_match_at(old(self).toks(), old(self).pos()) matches Some((c, m))
                ==> r matches Ok(e) && denotes(e, c) && final(self).pos() == m,
        decreases old(self).toks().len() - old(self).pos(), 14nat,
    {
        let ghost toks = old(self).toks();
        let ghost p0 = old(self).pos();
        proof {
            if core_match_at(toks, p0) is Some {
                lemma_match_at_parts(toks, p0);
            }
        }
        let start_location = self.current_location();
        self.expect_keyword(Keyword::Match, "expected 'match'")?;
        let ghost vc = core_full_at(toks, p0 + 1)->Some_0.0;
        let value = Box::new(self.parse_expression()?);
        self.expect(&TokenType::LeftBrace, "expected '{' after match value")?;
        let ghost spec_arms: Option<(Seq<(PatternShape, CoreExpr)>, int)> =
            if core_match_at(toks, p0) is Some { core_match_arms(toks, self.pos()) } else { None };
        proof {
            if core_match_at(toks, p0) is Some {
                assert(spec_arms is Some);
            }
        }
        let mut cases: Vec<MatchCase> = Vec::new();
        let ghost mut done: Seq<(PatternShape, CoreExpr)> = seq![];
        while !self.check(&TokenType::RightBrace) && !self.is_at_end()
            invariant
                self.moved_from(*old(self)),
                self.pos() > old(self).pos(),
                old(self).cur() == TokenType::Keyword(Keyword::Match),
                toks == self.toks(),
                p0 == old(self).pos(),
                core_match_at(toks, p0) is Some ==> spec_arms is Some,
                spec_arms matches Some((all, m)) ==> {
                    &&& core_match_arms(toks, self.pos()) matches Some((rest, m2))
                    &&& m2 == m
                    &&& all == done + rest
                    &&& match_cases_denote(cases@, done)
                },
            decreases self.toks().len() - self.pos(),
        {
            let ghost p = self.pos();
            proof {
                if spec_arms is Some {
                    assert(core_match_arms(toks, p) is Some);
                    assert(!(toks[p].token_type is RightBrace));
                    lemma_match_arms_step(toks, p);
                }
            }
            let case = self.parse_match_arm()?;
            let ghost cg = case;
            let ghost before = cases@;
            cases.push(case);
            if self.check(&TokenType::Comma) {
                self.advance();
            }
            proof {
                if spec_arms is Some {
                    let (ps, b) = pattern_at(toks, p)->Some_0;
                    let c = core_full_at(toks, b + 1)->Some_0.0;
                    lemma_match_cases_push(before, done, cg, (ps, c));
                    match core_match_arms(toks, self.pos()) {
                        Some((rest, m)) => {
                            assert(done + (seq![(ps, c)] + rest) =~= done.push((ps, c)) + rest);
                        },
                        None => {},
                    }
                    done = done.push((ps, c));
                }
            }
        }
        self.expect(&TokenType::RightBrace, "expected '}' to close match")?;
        proof {
            if spec_arms is Some {
                assert(done + Seq::<(PatternShape, CoreExpr)>::empty() =~= done);
            }
        }
        Ok(Expression::Match { value, cases, source_location: start_location })
    }

    /// Parses `pattern => expression`.
    #[verifier::spinoff_prover]
    #[verifier::rlimit(100)]
    pub fn parse_match_arm(&mut self) -> (r: Result<MatchCase, ParserError>)
        requires
            old(self).wf(),
        ensures
            final(self).moved_from(*old(self)),
            r is Ok ==> final(self).pos() > old(self).pos(),
            pattern_at(old(self).toks(), old(self).pos()) matches Some((ps, b)) ==> (
                token_is(old(self).toks(), b, TokenType::FatArrow) ==> (
                    core_full_at(old(self).toks(), b + 1) matches Some((c, d)) ==> (
                        r matches Ok(arm) && pattern_shape(arm.pattern) == ps && denotes(*arm.body, c)
                            && final(self).pos() == d))),
        decreases old(self).toks().len() - old(self).pos(), 14nat,
    {
        let start_location = self.current_location();
        let pattern = self.parse_pattern()?;
        self.expect(&TokenType::FatArrow, "expected '=>' after pattern")?;
        let body = Box::new(self.parse_expression()?);
        Ok(MatchCase { pattern, body, source_location: start_location })
    }

    /// Parses the bindings of `(x, y)` after an enum variant in a pattern;
    /// with `wildcards` an `_` stands for an ignored binding named `_`.
    #[verifier::spinoff_prover]
    #[verifier::rlimit(100)]
    fn parse_pattern_bindings(&mut self, wildcards: bool) -> (r: Result<Vec<Identifier>, ParserError>)
        requires
            old(self).wf(),
            old(self).cur() is LeftParen,
        ensures
            final(self).moved_from(*old(self)),
            r is Ok ==> final(self).pos() > old(self).pos(),
            r is Ok <==> bindings_at(old(self).toks(), old(self).pos(), wildcards) is Some,
            r matches Ok(bs) ==> bindings_at(old(self).toks(), old(self).pos(), wildcards)
                == Some((names_of(bs@), final(self).pos())),
    {
        let ghost toks = old(self).toks();
        let ghost i0 = old(self).pos();
        self.advance();
        let mut bindings: Vec<Identifier> = Vec::new();
        if !self.check(&TokenType::RightParen) {
            assert(names_of(bindings@) =~= Seq::<Seq<char>>::empty());
            loop
                invariant_except_break
                    self.moved_from(*old(self)),
                    self.pos() > old(self).pos(),
                    toks == self.toks(),
                    i0 == old(self).pos(),
                    bindings_at(toks, i0, wildcards) == match binding_items_at(toks, self.pos(), wildcards) {
                        Some((rest, k)) => Some((names_of(bindings@) + rest, k)),
                        None => None,
                    },
                ensures
                    self.moved_from(*old(self)),
                    self.pos() > old(self).pos(),
                    toks == self.toks(),
                    bindings_at(toks, i0, wildcards) == if self.cur() is RightParen {
                        Some((names_of(bindings@), self.pos() + 1))
                    } else {
                        None
                    },
                decreases self.toks().len() - self.pos(),
            {
                let ghost p = self.pos();
                let ghost before = bindings@;
                if wildcards && self.check(&TokenType::Underscore) {
                    self.advance();
                    bindings.push(Identifier::new(String::from_str("_"), self.current_location()));
                    proof {
                        reveal_strlit("_");
                    }
                } else {
                    let binding = self.parse_identifier()?;
                    bindings.push(binding);
                }
                proof {
                    let n = binding_item(toks[p].token_type, wildcards)->0;
                    assert(bindings@.last().name@ == n);
                    assert(bindings@.drop_last() =~= before);
                    assert(names_of(bindings@) =~= names_of(before).push(n));
                    match binding_items_at(toks, p + 2, wildcards) {
                        Some((rest, k)) => {
                            assert(names_of(before) + (seq![n] + rest) =~= names_of(bindings@) + rest);
                        },
                        None => {},
                    }
                    assert(names_of(before) + seq![n] =~= names_of(bindings@));
                }
                if self.check(&TokenType::Comma) {
                    self.advance();
                } else {
                    break;
                }
            }
        }
        self.expect(&TokenType::RightParen, "expected ')'")?;
        Ok(bindings)
    }

    /// Parses a pattern: `_`, a binding, `Enum::Variant(bindings)`,
    /// `Variant(bindings)`, `Variant binding`, `Struct { field: pattern, ... }`,
    /// or an integer, string or boolean literal.
    #[verifier::spinoff_prover]
    #[verifier::rlimit(100)]
    pub fn parse_pattern(&mut self) -> (r: Result<Pattern, ParserError>)
        requires
            old(self).wf(),
        ensures
            final(self).moved_from(*old(self)),
            r is Ok ==> final(self).pos() > old(self).pos(),
            r matches Ok(p) ==> (old(self).cur() is Underscore ==> (p matches Pattern::Wildcard { binding, .. } && binding is None)),
            r matches Ok(p) ==> (old(self).cur() is IntegerLiteral || old(self).cur() is StringLiteral
                || old(self).cur() is BoolLiteral ==> p is Literal),
            r is Ok ==> (old(self).cur() is Underscore || old(self).cur() is Identifier
                || old(self).cur() is IntegerLiteral || old(self).cur() is StringLiteral
                || old(self).cur() is BoolLiteral),
            r is Ok <==> pattern_at(old(self).toks(), old(self).pos()) is Some,
            r matches Ok(p) ==> pattern_at(old(self).toks(), old(self).pos()) == Some((pattern_shape(p), final(self).pos())),
            !(old(self).cur() is Underscore || old(self).cur() is Identifier || old(self).cur() is IntegerLiteral
                || old(self).cur() is StringLiteral || old(self).cur() is BoolLiteral) ==> (r matches Err(e)
                && e matches ParserError::UnexpectedToken { expected, location, .. }
                && expected@ == "pattern (_, identifier, or literal)"@
                && location == old(self).toks()[old(self).pos()].location),
        decreases old(self).toks().len() - old(self).pos(),
    {
        let ghost toks = old(self).toks();
        let ghost i = old(self).pos();
        let start_location = self.current_location();

        if self.check(&TokenType::Underscore) {
            self.advance();
            return Ok(Pattern::Wildcard { binding: None, source_location: start_location });
        }

        let ident = match &self.peek().token_type {
            TokenType::Identifier(name) => Some(name.clone()),
            _ => None,
        };
        if let Some(name) = ident {
            self.advance();
            if self.check(&TokenType::DoubleColon) {
                self.advance();
                let variant_name = self.parse_identifier()?;
                let bindings = if self.check(&TokenType::LeftParen) {
                    self.parse_pattern_bindings(true)?
                } else {
                    let empty: Vec<Identifier> = Vec::new();
                    assert(names_of(empty@) =~= Seq::<Seq<char>>::empty());
                    empty
                };
                return Ok(Pattern::EnumVariant {
                    enum_name: Some(Identifier::new(name, start_location.duplicate())),
                    variant_name,
                    bindings,
                    nested_pattern: None,
                    source_location: start_location,
                });
            }
            if self.check(&TokenType::LeftBrace) {
                self.advance();
                let mut fields: Vec<(Identifier, Pattern)> = Vec::new();
                assert(field_shapes(fields@) =~= Seq::<(Seq<char>, PatternShape)>::empty());
                while !self.check(&TokenType::RightBrace) && !self.is_at_end()
                    invariant_except_break
                        old(self).cur() is Identifier,
                        self.moved_from(*old(self)),
                        self.pos() > old(self).pos(),
                        toks == self.toks(),
                        i == old(self).pos(),
                        pattern_at(toks, i) == match field_items_at(toks, i + 2) {
                            Some((fs, k)) => Some((PatternShape::Struct(ident_name(toks[i].token_type)@, fs), k)),
                            None => None,
                        },
                        field_items_at(toks, i + 2) == match field_items_at(toks, self.pos()) {
                            Some((rest, m)) => Some((field_shapes(fields@) + rest, m)),
                            None => None,
                        },
                    ensures
                        self.moved_from(*old(self)),
                        self.pos() > old(self).pos(),
                        toks == self.toks(),
                        field_items_at(toks, i + 2) == if self.cur() is RightBrace {
                            Some((field_shapes(fields@), self.pos() + 1))
                        } else {
                            None
                        },
                    decreases self.toks().len() - self.pos(),
                {
                    let ghost p = self.pos();
                    let ghost before = fields@;
                    let field_name = self.parse_identifier()?;
                    let pattern = if self.check(&TokenType::Colon) {
                        self.advance();
                        self.parse_pattern()?
                    } else {
                        Pattern::Wildcard {
                            binding: Some(field_name.duplicate()),
                            source_location: field_name.source_location.duplicate(),
                        }
                    };
                    let ghost entry = (field_name.name@, pattern_shape(pattern));
                    fields.push((field_name, pattern));
                    proof {
                        assert(fields@.drop_last() =~= before);
                        assert(field_shapes(fields@) =~= field_shapes(before).push(entry));
                        match field_items_at(toks, self.pos() + 1) {
                            Some((rest, m)) => {
                                assert(field_shapes(before) + (seq![entry] + rest) =~= field_shapes(fields@) + rest);
                            },
                            None => {},
                        }
                        assert(field_shapes(before) + seq![entry] =~= field_shapes(fields@));
                    }
                    if self.check(&TokenType::Comma) {
                        self.advance();
                    } else {
                        break;
                    }
                }
                self.expect(&TokenType::RightBrace, "expected '}' after struct pattern fields")?;
                return Ok(Pattern::Struct {
                    struct_name: Identifier::new(name, start_location.duplicate()),
                    fields,
                    source_location: start_location,
                });
            }
            if self.check(&TokenType::LeftParen) {
                let bindings = self.parse_pattern_bindings(false)?;
                return Ok(Pattern::EnumVariant {
                    enum_name: None,
                    variant_name: Identifier::new(name, start_location.duplicate()),
                    bindings,
                    nested_pattern: None,
                    source_location: start_location,
                });
            }
            if matches!(self.peek().token_type, TokenType::Identifier(_)) {
                let binding = self.parse_identifier()?;
                let mut bindings: Vec<Identifier> = Vec::new();
                bindings.push(binding);
                assert(names_of(bindings@) =~= seq![ident_name(toks[i + 1].token_type)@]);
                return Ok(Pattern::EnumVariant {
                    enum_name: None,
                    variant_name: Identifier::new(name, start_location.duplicate()),
                    bindings,
                    nested_pattern: None,
                    source_location: start_location,
                });
            }
            return Ok(Pattern::Wildcard {
                binding: Some(Identifier::new(name, start_location.duplicate())),
                source_location: start_location,
            });
        }

        let literal = match &self.peek().token_type {
            TokenType::IntegerLiteral(value) => Some(Expression::IntegerLiteral {
                value: *value,
                source_location: start_location.duplicate(),
            }),
            TokenType::StringLiteral(value) => Some(Expression::StringLiteral {
                value: value.clone(),
                source_location: start_location.duplicate(),
            }),
            TokenType::BoolLiteral(value) => Some(Expression::BooleanLiteral {
                value: *value,
                source_location: start_location.duplicate(),
            }),
            _ => None,
        };
        if let Some(value) = literal {
            self.advance();
            return Ok(Pattern::Literal { value: Box::new(value), source_location: start_location });
        }
        Err(self.unexpected("pattern (_, identifier, or literal)"))
    }
}

} // verus!
