//! Traits: `trait Name<T> where ... { methods and axioms }`, where a method
//! is a signature with an optional default body and an axiom is
//! `@axiom [name:] [forall|exists x: T, ... =>]* condition`.

use vstd::prelude::*;
use crate::ast::{Parameter, Quantifier, QuantifierKind, QuantifierVariable, TraitAxiom, TraitDefinition, TraitMethod};
use crate::parser::core_items::{param_denotes, params_denote};
use crate::parser::core_syntax::{CoreStmt, core_block_at, keyword_at, stmts_denote};
use crate::parser::v2::types::type_at;
use crate::parser::extended::generics::{ident_names, parameter_names, where_view};
use crate::parser::extended::items::{after_type_params, after_where, type_param_names, where_at};
use crate::error::ParserError;
use crate::lexer::v2::{Keyword, TokenType};
use crate::parser::v2::types::{TypeShape, ident_name, shape_of, token_is};
use crate::parser::core_items::core_param_at;
use crate::lexer::v2::Token;
use crate::text::str_is;
use crate::parser::v2::expressions::{CoreExpr, denotes};
use crate::parser::extended::expressions::core_full_at;
use super::Parser;

verus! {

/// The variables `x: T (, y: U)*` of a quantifier from `j`, and the index
/// after the last one.
pub open spec fn quantifier_vars_from(toks: Seq<Token>, j: int) -> Option<(Seq<(Seq<char>, TypeShape)>, int)>
    decreases toks.len() - j,
{
    match core_param_at(toks, j, true) {
        Some((v, k)) => if j < k < toks.len() {
            if toks[k].token_type is Comma {
                match quantifier_vars_from(toks, k + 1) {
                    Some((rest, m)) => Some((seq![v] + rest, m)),
                    None => None,
                }
            } else {
                Some((seq![v], k))
            }
        } else {
            None
        },
        None => None,
    }
}

/// The quantifiers `forall|exists vars =>` from `j` followed by a core
/// condition: their number, the condition, and the index after it.
pub open spec fn quantified_condition(toks: Seq<Token>, j: int) -> Option<(nat, CoreExpr, int)>
    decreases toks.len() - j,
{
    if 0 <= j < toks.len() && (toks[j].token_type == TokenType::Keyword(Keyword::ForAll)
        || toks[j].token_type == TokenType::Keyword(Keyword::Exists)) {
        match quantifier_vars_from(toks, j + 1) {
            Some((vs, m)) => if j < m && token_is(toks, m, TokenType::FatArrow) {
                match quantified_condition(toks, m + 1) {
                    Some((n, c, k)) => Some((n + 1, c, k)),
                    None => None,
                }
            } else {
                None
            },
            None => None,
        }
    } else {
        match core_full_at(toks, j) {
            Some((c, k)) => Some((0, c, k)),
            None => None,
        }
    }
}

/// The quantifiers `forall|exists vars =>` written from `j`, in source
/// order: each as its kind and its variables (names and types).
pub open spec fn leading_quantifiers(toks: Seq<Token>, j: int) -> Seq<(QuantifierKind, Seq<(Seq<char>, TypeShape)>)>
    decreases toks.len() - j,
{
    if 0 <= j < toks.len() && (toks[j].token_type == TokenType::Keyword(Keyword::ForAll)
        || toks[j].token_type == TokenType::Keyword(Keyword::Exists)) {
        let kind = if toks[j].token_type == TokenType::Keyword(Keyword::ForAll) {
            QuantifierKind::ForAll
        } else {
            QuantifierKind::Exists
        };
        match quantifier_vars_from(toks, j + 1) {
            Some((vs, m)) => if j < m && token_is(toks, m, TokenType::FatArrow) {
                seq![(kind, vs)] + leading_quantifiers(toks, m + 1)
            } else {
                seq![]
            },
            None => seq![],
        }
    } else {
        seq![]
    }
}

/// The quantifiers written before a condition are as many as the
/// condition's count of quantifiers.
pub proof fn lemma_leading_quantifiers_count(toks: Seq<Token>, j: int)
    ensures
        quantified_condition(toks, j) matches Some((n, c, k)) ==> leading_quantifiers(toks, j).len() == n,
    decreases toks.len() - j,
{
    if 0 <= j < toks.len() && (toks[j].token_type == TokenType::Keyword(Keyword::ForAll)
        || toks[j].token_type == TokenType::Keyword(Keyword::Exists)) {
        match quantifier_vars_from(toks, j + 1) {
            Some((vs, m)) => if j < m && token_is(toks, m, TokenType::FatArrow) {
                lemma_leading_quantifiers_count(toks, m + 1);
            },
            None => {},
        }
    }
}

/// Quantifiers are the written ones, one for one and in the same order:
/// same kind and same variables.
pub open spec fn quantifiers_denote(qs: Seq<Quantifier>, cs: Seq<(QuantifierKind, Seq<(Seq<char>, TypeShape)>)>) -> bool {
    qs.len() == cs.len() && forall|k: int| 0 <= k < qs.len() ==>
        (#[trigger] qs[k]).kind == cs[k].0 && quantifier_vars_denote(qs[k].variables@, cs[k].1)
}

/// Quantifier variables are the named types, one for one.
pub open spec fn quantifier_vars_denote(vs: Seq<QuantifierVariable>, cs: Seq<(Seq<char>, TypeShape)>) -> bool {
    vs.len() == cs.len() && forall|k: int| 0 <= k < vs.len() ==>
        (#[trigger] vs[k]).name.name@ == cs[k].0 && shape_of(*vs[k].var_type) == cs[k].1
}

/// The parameters of a trait method from `j` up to its `)`: `name: type`
/// separated by commas, with an optional comma before the `)`; and the
/// index of the `)`.
pub open spec fn method_params_from(toks: Seq<Token>, j: int) -> Option<(Seq<(Seq<char>, TypeShape)>, int)>
    decreases toks.len() - j,
{
    if j < 0 || j >= toks.len() || toks[j].token_type is Eof {
        None
    } else if toks[j].token_type is RightParen {
        Some((seq![], j))
    } else {
        match core_param_at(toks, j, true) {
            Some((p, k)) => if j < k < toks.len() {
                if toks[k].token_type is RightParen {
                    Some((seq![p], k))
                } else if toks[k].token_type is Comma {
                    match method_params_from(toks, k + 1) {
                        Some((ps, m)) => Some((seq![p] + ps, m)),
                        None => None,
                    }
                } else {
                    None
                }
            } else {
                None
            },
            None => None,
        }
    }
}

/// A trait method: its name, its type parameters' names, parameters,
/// return type, and default body (`None` where the signature ends with
/// `;`).
pub struct CoreMethod {
    pub name: Seq<char>,
    pub type_params: Seq<Seq<char>>,
    pub params: Seq<(Seq<char>, TypeShape)>,
    pub ret: TypeShape,
    pub body: Option<Seq<CoreStmt>>,
}

/// The trait method `func name[<T, ...>](params) -> type` followed by a
/// block or `;` at `i`, and the index after it.
pub open spec fn core_method_at(toks: Seq<Token>, i: int) -> Option<(CoreMethod, int)> {
    if keyword_at(toks, i, Keyword::Func) && i + 2 < toks.len() && toks[i + 1].token_type is Identifier
        && after_type_params(toks, i + 2) is Some && token_is(toks, after_type_params(toks, i + 2)->Some_0, TokenType::LeftParen) {
        let name = toks[i + 1].token_type->Identifier_0@;
        let type_params = type_param_names(toks, i + 2);
        match method_params_from(toks, after_type_params(toks, i + 2)->Some_0 + 1) {
            Some((ps, k)) => if token_is(toks, k + 1, TokenType::Arrow) {
                match type_at(toks, k + 2, true) {
                    Some((t, m)) => if token_is(toks, m, TokenType::LeftBrace) {
                        match core_block_at(toks, m, true) {
                            Some((b, e)) => Some((CoreMethod { name, type_params, params: ps, ret: t, body: Some(b) }, e)),
                            None => None,
                        }
                    } else if token_is(toks, m, TokenType::Semicolon) {
                        Some((CoreMethod { name, type_params, params: ps, ret: t, body: None }, m + 1))
                    } else {
                        None
                    },
                    None => None,
                }
            } else {
                None
            },
            None => None,
        }
    } else {
        None
    }
}

/// A trait method is the core method: same name, type parameters (without
/// bounds or defaults), parameters, return type and default body.
pub open spec fn method_denotes(m: TraitMethod, c: CoreMethod) -> bool {
    &&& m.name.name@ == c.name
    &&& ident_names(parameter_names(m.generic_parameters@)) == c.type_params
    &&& (forall|k: int| 0 <= k < m.generic_parameters@.len() ==>
        (#[trigger] m.generic_parameters@[k]).constraints@.len() == 0 && m.generic_parameters@[k].default_type is None)
    &&& params_denote(m.parameters@, c.params)
    &&& shape_of(*m.return_type) == c.ret
    &&& match (m.default_body, c.body) {
        (Some(b), Some(cb)) => stmts_denote(b.statements@, cb),
        (None, None) => true,
        _ => false,
    }
}

/// A member of a trait body: an axiom (its label, its quantifiers in
/// order and its condition) or a method.
pub enum CoreMember {
    Axiom(Option<Seq<char>>, Seq<(QuantifierKind, Seq<(Seq<char>, TypeShape)>)>, CoreExpr),
    Method(CoreMethod),
}

/// The token at `j` and the next spell `@axiom`.
pub open spec fn axiom_head_at(toks: Seq<Token>, j: int) -> bool {
    &&& 0 <= j && j + 1 < toks.len()
    &&& toks[j].token_type is At
    &&& toks[j + 1].token_type is Identifier
    &&& ident_name(toks[j + 1].token_type)@ == "axiom"@
}

/// The axiom `@axiom [label:] quantifiers condition` at `j`, and the
/// index after it.
pub open spec fn core_axiom_at(toks: Seq<Token>, j: int) -> Option<((Option<Seq<char>>, Seq<(QuantifierKind, Seq<(Seq<char>, TypeShape)>)>, CoreExpr), int)> {
    if axiom_head_at(toks, j) {
        let labeled = j + 3 < toks.len() && toks[j + 2].token_type is Identifier && toks[j + 3].token_type is Colon;
        let label = if labeled { Some(toks[j + 2].token_type->Identifier_0@) } else { None };
        match quantified_condition(toks, if labeled { j + 4 } else { j + 2 }) {
            Some((n, c, k)) => Some(((label, leading_quantifiers(toks, if labeled { j + 4 } else { j + 2 }), c), k)),
            None => None,
        }
    } else {
        None
    }
}

/// The members of a trait body from `j` up to its `}`, and the index of
/// the `}`.
pub open spec fn trait_members_from(toks: Seq<Token>, j: int) -> Option<(Seq<CoreMember>, int)>
    decreases toks.len() - j,
{
    if j < 0 || j >= toks.len() || toks[j].token_type is Eof {
        None
    } else if toks[j].token_type is RightBrace {
        Some((seq![], j))
    } else {
        let member = if axiom_head_at(toks, j) {
            match core_axiom_at(toks, j) {
                Some((a, k)) => Some((CoreMember::Axiom(a.0, a.1, a.2), k)),
                None => None,
            }
        } else {
            match core_method_at(toks, j) {
                Some((m, k)) => Some((CoreMember::Method(m), k)),
                None => None,
            }
        };
        match member {
            Some((x, k)) => if j < k <= toks.len() {
                match trait_members_from(toks, k) {
                    Some((rest, e)) => Some((seq![x] + rest, e)),
                    None => None,
                }
            } else {
                None
            },
            None => None,
        }
    }
}

/// The axioms among trait members, in order.
pub open spec fn member_axioms(ms: Seq<CoreMember>) -> Seq<(Option<Seq<char>>, Seq<(QuantifierKind, Seq<(Seq<char>, TypeShape)>)>, CoreExpr)>
    decreases ms.len(),
{
    if ms.len() == 0 {
        seq![]
    } else {
        match ms.last() {
            CoreMember::Axiom(l, n, c) => member_axioms(ms.drop_last()).push((l, n, c)),
            CoreMember::Method(_) => member_axioms(ms.drop_last()),
        }
    }
}

/// The methods among trait members, in order.
pub open spec fn member_methods(ms: Seq<CoreMember>) -> Seq<CoreMethod>
    decreases ms.len(),
{
    if ms.len() == 0 {
        seq![]
    } else {
        match ms.last() {
            CoreMember::Axiom(..) => member_methods(ms.drop_last()),
            CoreMember::Method(m) => member_methods(ms.drop_last()).push(m),
        }
    }
}

/// A trait `trait Name[<T, ...>] [where constraints] { members }` at `i`:
/// its name, its type parameters' names, its constraints, its members, and
/// the index after it.
pub open spec fn core_trait_at(toks: Seq<Token>, i: int)
    -> Option<((Seq<char>, Seq<Seq<char>>, Seq<(Seq<char>, Seq<Seq<char>>)>, Seq<CoreMember>), int)> {
    if keyword_at(toks, i, Keyword::Trait) && i + 2 < toks.len() && toks[i + 1].token_type is Identifier {
        match after_type_params(toks, i + 2) {
            Some(p) => match after_where(toks, p) {
                Some(b) => if token_is(toks, b, TokenType::LeftBrace) {
                    match trait_members_from(toks, b + 1) {
                        Some((ms, e)) => Some((
                            (toks[i + 1].token_type->Identifier_0@, type_param_names(toks, i + 2), where_at(toks, p), ms),
                            e + 1,
                        )),
                        None => None,
                    }
                } else {
                    None
                },
                None => None,
            },
            None => None,
        }
    } else {
        None
    }
}

/// An axiom is the core axiom: same label, same quantifiers in the same
/// order, and same condition.
pub open spec fn axiom_denotes(a: TraitAxiom, c: (Option<Seq<char>>, Seq<(QuantifierKind, Seq<(Seq<char>, TypeShape)>)>, CoreExpr)) -> bool {
    &&& match (a.name, c.0) {
        (Some(n), Some(l)) => n.name@ == l,
        (None, None) => true,
        _ => false,
    }
    &&& quantifiers_denote(a.quantifiers@, c.1)
    &&& denotes(*a.condition, c.2)
}

/// A trait definition is the core trait: its name, its type parameters
/// (without bounds or defaults), its constraints, and its axioms and
/// methods in the order of the body.
pub open spec fn trait_denotes(
    t: TraitDefinition,
    c: (Seq<char>, Seq<Seq<char>>, Seq<(Seq<char>, Seq<Seq<char>>)>, Seq<CoreMember>),
) -> bool {
    &&& t.name.name@ == c.0
    &&& ident_names(parameter_names(t.generic_parameters@)) == c.1
    &&& (forall|k: int| 0 <= k < t.generic_parameters@.len() ==>
        (#[trigger] t.generic_parameters@[k]).constraints@.len() == 0 && t.generic_parameters@[k].default_type is None)
    &&& where_view(t.where_clause@) == c.2
    &&& t.axioms@.len() == member_axioms(c.3).len()
    &&& (forall|k: int| 0 <= k < t.axioms@.len() ==> axiom_denotes(#[trigger] t.axioms@[k], member_axioms(c.3)[k]))
    &&& t.methods@.len() == member_methods(c.3).len()
    &&& (forall|k: int| 0 <= k < t.methods@.len() ==> method_denotes(#[trigger] t.methods@[k], member_methods(c.3)[k]))
}

/// Trait members end at a `}`, after where they start.
pub proof fn lemma_trait_members_end(toks: Seq<Token>, j: int)
    ensures
        trait_members_from(toks, j) matches Some((ms, e)) ==> j <= e < toks.len() && toks[e].token_type is RightBrace,
    decreases toks.len() - j,
{
    if 0 <= j < toks.len() && !(toks[j].token_type is Eof) && !(toks[j].token_type is RightBrace) {
        let member = if axiom_head_at(toks, j) {
            match core_axiom_at(toks, j) {
                Some((a, k)) => Some((CoreMember::Axiom(a.0, a.1, a.2), k)),
                None => None,
            }
        } else {
            match core_method_at(toks, j) {
                Some((m, k)) => Some((CoreMember::Method(m), k)),
                None => None,
            }
        };
        match member {
            Some((x, k)) => if j < k <= toks.len() {
                lemma_trait_members_end(toks, k);
            },
            None => {},
        }
    }
}

impl Parser {
    /// Consumes an identifier spelled `expected`.
    pub fn expect_identifier_value(&mut self, expected: &str) -> (r: Result<(), ParserError>)
        requires
            old(self).wf(),
        ensures
            final(self).moved_from(*old(self)),
            r is Ok <==> old(self).cur() is Identifier && ident_name(old(self).cur())@ == expected@,
            r is Ok ==> final(self).pos() == old(self).pos() + 1,
            r is Err ==> final(self).pos() == old(self).pos(),
    {
        let found = match &self.peek().token_type {
            TokenType::Identifier(name) => str_is(name.as_str(), expected),
            _ => false,
        };
        if found {
            self.advance();
            Ok(())
        } else {
            let mut message = String::from_str("expected '");
            message.append(expected);
            message.append("'");
            Err(self.unexpected(message.as_str()))
        }
    }

    /// Parses `forall x: T, y: U =>` or `exists x: T =>`.
    pub fn parse_quantifier(&mut self) -> (r: Result<Quantifier, ParserError>)
        requires
            old(self).wf(),
        ensures
            final(self).moved_from(*old(self)),
            r is Ok ==> final(self).pos() > old(self).pos(),
            !(old(self).spec_check_keyword(Keyword::ForAll) || old(self).spec_check_keyword(Keyword::Exists))
                ==> r is Err && final(self).pos() == old(self).pos(),
            r matches Ok(q) ==> {
                &&& (q.kind == QuantifierKind::ForAll <==> old(self).cur() == TokenType::Keyword(Keyword::ForAll))
                &&& (q.kind == QuantifierKind::Exists <==> old(self).cur() == TokenType::Keyword(Keyword::Exists))
                &&& q.variables@.len() >= 1
                &&& q.variables@[0].name.name == ident_name(old(self).kind_at(old(self).pos() + 1))
                &&& final(self).kind_at(final(self).pos() - 1) is FatArrow
            },
            old(self).spec_check_keyword(Keyword::ForAll) || old(self).spec_check_keyword(Keyword::Exists) ==> (
                r is Ok <==> (quantifier_vars_from(old(self).toks(), old(self).pos() + 1) matches Some((vs, m))
                    && token_is(old(self).toks(), m, TokenType::FatArrow))),
            r matches Ok(q) ==> (quantifier_vars_from(old(self).toks(), old(self).pos() + 1) matches Some((vs, m))
                && quantifier_vars_denote(q.variables@, vs) && final(self).pos() == m + 1),
    {
        let start_location = self.current_location();
        let kind = if self.check_keyword(Keyword::ForAll) {
            self.advance();
            QuantifierKind::ForAll
        } else if self.check_keyword(Keyword::Exists) {
            self.advance();
            QuantifierKind::Exists
        } else {
            return Err(self.unexpected("expected 'forall' or 'exists'"));
        };
        let ghost p1 = old(self).pos() + 1;
        let ghost toks = old(self).toks();
        let mut variables: Vec<QuantifierVariable> = Vec::new();
        let ghost mut acc: Seq<(Seq<char>, TypeShape)> = seq![];
        proof {
            match quantifier_vars_from(toks, p1) {
                Some((vs, m)) => {
                    assert(acc + vs =~= vs);
                },
                None => {},
            }
        }
        loop
            invariant_except_break
                quantifier_vars_from(toks, p1) == match quantifier_vars_from(toks, self.pos()) {
                    Some((vs, m)) => Some((acc + vs, m)),
                    None => None,
                },
            invariant
                self.moved_from(*old(self)),
                self.pos() > old(self).pos(),
                p1 == old(self).pos() + 1,
                toks == self.toks(),
                old(self).spec_check_keyword(Keyword::ForAll) || old(self).spec_check_keyword(Keyword::Exists),
                kind == QuantifierKind::ForAll <==> old(self).cur() == TokenType::Keyword(Keyword::ForAll),
                kind == QuantifierKind::Exists <==> old(self).cur() == TokenType::Keyword(Keyword::Exists),
                variables@.len() == 0 ==> self.pos() == p1,
                variables@.len() >= 1 ==> variables@[0].name.name == ident_name(old(self).kind_at(p1)),
                quantifier_vars_denote(variables@, acc),
            ensures
                self.moved_from(*old(self)),
                self.pos() > old(self).pos(),
                toks == self.toks(),
                kind == QuantifierKind::ForAll <==> old(self).cur() == TokenType::Keyword(Keyword::ForAll),
                kind == QuantifierKind::Exists <==> old(self).cur() == TokenType::Keyword(Keyword::Exists),
                variables@.len() >= 1,
                variables@[0].name.name == ident_name(old(self).kind_at(p1)),
                quantifier_vars_from(toks, p1) == Some((acc, self.pos())),
                quantifier_vars_denote(variables@, acc),
            decreases self.toks().len() - self.pos(),
        {
            let ghost q = self.pos();
            let var_start = self.current_location();
            let var_name = self.parse_identifier()?;
            self.expect(&TokenType::Colon, "expected ':' after quantifier variable")?;
            let var_type = self.parse_type()?;
            let ghost v = (var_name.name@, shape_of(var_type));
            proof {
                assert(core_param_at(toks, q, true) == Some((v, self.pos())));
            }
            let ghost before = variables@;
            variables.push(QuantifierVariable { name: var_name, var_type: Box::new(var_type), source_location: var_start });
            proof {
                assert forall|k: int| 0 <= k < variables@.len() implies (#[trigger] variables@[k]).name.name@ == acc.push(v)[k].0
                    && shape_of(*variables@[k].var_type) == acc.push(v)[k].1 by {
                    if k < before.len() {
                        assert(variables@[k] == before[k]);
                    }
                }
            }
            if self.check(&TokenType::Comma) {
                self.advance();
                proof {
                    match quantifier_vars_from(toks, self.pos()) {
                        Some((vs, m)) => {
                            assert(acc + (seq![v] + vs) =~= acc.push(v) + vs);
                        },
                        None => {},
                    }
                    acc = acc.push(v);
                }
            } else {
                proof {
                    assert(acc + seq![v] =~= acc.push(v));
                    acc = acc.push(v);
                }
                break;
            }
        }
        self.expect(&TokenType::FatArrow, "expected '=>' after quantifier variables")?;
        Ok(Quantifier { kind, variables, source_location: start_location })
    }

    /// Parses `@axiom [name:] quantifier* condition`.
    pub fn parse_axiom(&mut self) -> (r: Result<TraitAxiom, ParserError>)
        requires
            old(self).wf(),
        ensures
            final(self).moved_from(*old(self)),
            r is Ok ==> final(self).pos() > old(self).pos(),
            r matches Ok(a) ==> {
                &&& old(self).cur() is At
                &&& old(self).kind_at(old(self).pos() + 1) is Identifier
                &&& ident_name(old(self).kind_at(old(self).pos() + 1))@ == "axiom"@
                &&& (a.name is Some <==> old(self).kind_at(old(self).pos() + 2) is Identifier
                    && old(self).pos() + 3 < old(self).toks().len()
                    && old(self).kind_at(old(self).pos() + 3) is Colon)
                &&& (a.name matches Some(n) ==> n.name == ident_name(old(self).kind_at(old(self).pos() + 2)))
            },
            old(self).cur() is At && old(self).kind_at(old(self).pos() + 1) is Identifier
                && ident_name(old(self).kind_at(old(self).pos() + 1))@ == "axiom"@ ==> (quantified_condition(
                old(self).toks(),
                if old(self).kind_at(old(self).pos() + 2) is Identifier && old(self).pos() + 3 < old(self).toks().len()
                    && old(self).kind_at(old(self).pos() + 3) is Colon { old(self).pos() + 4 } else { old(self).pos() + 2 },
            ) matches Some((n, c, k)) ==> r matches Ok(a) && a.quantifiers@.len() == n && denotes(*a.condition, c)
                && final(self).pos() == k),
            old(self).cur() is At && old(self).kind_at(old(self).pos() + 1) is Identifier
                && ident_name(old(self).kind_at(old(self).pos() + 1))@ == "axiom"@ ==> ({
                let start = if old(self).kind_at(old(self).pos() + 2) is Identifier && old(self).pos() + 3 < old(self).toks().len()
                    && old(self).kind_at(old(self).pos() + 3) is Colon { old(self).pos() + 4 } else { old(self).pos() + 2 };
                quantified_condition(old(self).toks(), start) is Some ==> (r matches Ok(a)
                    && quantifiers_denote(a.quantifiers@, leading_quantifiers(old(self).toks(), start)))
            }),
    {
        let start_location = self.current_location();
        self.expect(&TokenType::At, "expected '@'")?;
        self.expect_identifier_value("axiom")?;
        let labeled = match &self.peek().token_type {
            TokenType::Identifier(ident) => match self.peek_next() {
                Some(t) => if matches!(t.token_type, TokenType::Colon) { Some(ident.clone()) } else { None },
                None => None,
            },
            _ => None,
        };
        let name = match labeled {
            Some(ident) => {
                let location = self.current_location();
                self.advance();
                self.advance();
                Some(crate::ast::Identifier::new(ident, location))
            },
            None => None,
        };
        let mut quantifiers: Vec<Quantifier> = Vec::new();
        let ghost toks = old(self).toks();
        let ghost q0 = self.pos();
        let ghost spec_q = quantified_condition(toks, q0);
        let ghost mut acc: Seq<(QuantifierKind, Seq<(Seq<char>, TypeShape)>)> = seq![];
        proof {
            assert(acc + leading_quantifiers(toks, q0) =~= leading_quantifiers(toks, q0));
        }
        while self.check_keyword(Keyword::ForAll) || self.check_keyword(Keyword::Exists)
            invariant
                spec_q is Some ==> leading_quantifiers(toks, q0) == acc + leading_quantifiers(toks, self.pos()),
                spec_q is Some ==> quantifiers_denote(quantifiers@, acc),
                self.moved_from(*old(self)),
                self.pos() > old(self).pos(),
                toks == self.toks(),
                spec_q == quantified_condition(toks, q0),
                old(self).cur() is At && old(self).kind_at(old(self).pos() + 1) is Identifier
                    && ident_name(old(self).kind_at(old(self).pos() + 1))@ == "axiom"@ ==> q0 == (
                    if old(self).kind_at(old(self).pos() + 2) is Identifier && old(self).pos() + 3 < old(self).toks().len()
                        && old(self).kind_at(old(self).pos() + 3) is Colon { old(self).pos() + 4 } else { old(self).pos() + 2 }),
                spec_q matches Some((n, c, k)) ==> (quantified_condition(toks, self.pos()) matches Some((n2, c2, k2))
                    && n == quantifiers@.len() + n2 && c2 == c && k2 == k),
            decreases self.toks().len() - self.pos(),
        {
            let ghost p = self.pos();
            let q = self.parse_quantifier()?;
            let ghost before = quantifiers@;
            quantifiers.push(q);
            proof {
                if spec_q is Some {
                    let vs = quantifier_vars_from(toks, p + 1)->Some_0.0;
                    let x = (q.kind, vs);
                    assert(leading_quantifiers(toks, p) == seq![x] + leading_quantifiers(toks, self.pos()));
                    assert(acc + (seq![x] + leading_quantifiers(toks, self.pos()))
                        =~= acc.push(x) + leading_quantifiers(toks, self.pos()));
                    assert forall|k: int| 0 <= k < quantifiers@.len() implies (#[trigger] quantifiers@[k]).kind == acc.push(x)[k].0
                        && quantifier_vars_denote(quantifiers@[k].variables@, acc.push(x)[k].1) by {
                        if k < before.len() {
                            assert(quantifiers@[k] == before[k]);
                        }
                    }
                    acc = acc.push(x);
                }
            }
        }
        proof {
            if spec_q is Some {
                assert(leading_quantifiers(toks, self.pos()) =~= Seq::<(QuantifierKind, Seq<(Seq<char>, TypeShape)>)>::empty());
                assert(acc + Seq::<(QuantifierKind, Seq<(Seq<char>, TypeShape)>)>::empty() =~= acc);
            }
        }
        let condition = self.parse_expression()?;
        Ok(TraitAxiom { name, quantifiers, condition: Box::new(condition), source_location: start_location })
    }

    /// Parses a trait method `func name[<T>](params) -> type` followed by a
    /// default body or `;`.
    #[verifier::spinoff_prover]
    pub fn parse_trait_method(&mut self) -> (r: Result<TraitMethod, ParserError>)
        requires
            old(self).wf(),
        ensures
            final(self).moved_from(*old(self)),
            old(self).spec_check_keyword(Keyword::Func) ==> final(self).pos() > old(self).pos(),
            r is Ok ==> final(self).pos() > old(self).pos(),
            r matches Ok(m) ==> {
                &&& old(self).cur() == TokenType::Keyword(Keyword::Func)
                &&& m.name.name == ident_name(old(self).kind_at(old(self).pos() + 1))
                &&& (m.default_body is None <==> final(self).kind_at(final(self).pos() - 1) is Semicolon)
            },
            core_method_at(old(self).toks(), old(self).pos()) matches Some((c, j))
                ==> r matches Ok(m) && method_denotes(m, c) && final(self).pos() == j,
    {
        let ghost toks = old(self).toks();
        let ghost i0 = old(self).pos();
        let ghost core = core_method_at(toks, i0) is Some;
        let start_location = self.current_location();
        self.expect_keyword(Keyword::Func, "expected 'fn' for trait method")?;
        let name = self.parse_identifier()?;
        let generic_parameters = self.parse_generic_parameters()?;
        let ghost p3 = self.pos() + 1;
        proof {
            if core {
                assert(after_type_params(toks, i0 + 2) == Some(self.pos()));
                assert(ident_names(parameter_names(generic_parameters@)) == type_param_names(toks, i0 + 2)) by {
                    if !token_is(toks, i0 + 2, TokenType::Less) {
                        assert(ident_names(parameter_names(generic_parameters@)) =~= Seq::<Seq<char>>::empty());
                    }
                }
            }
        }
        self.expect(&TokenType::LeftParen, "expected '(' after method name")?;
        let mut parameters: Vec<Parameter> = Vec::new();
        let ghost mut acc: Seq<(Seq<char>, TypeShape)> = seq![];
        proof {
            if core {
                assert(self.pos() == p3);
                match method_params_from(toks, p3) {
                    Some((ps, k)) => {
                        assert(acc + ps =~= ps);
                    },
                    None => {},
                }
            }
        }
        while !self.check(&TokenType::RightParen) && !self.is_at_end()
            invariant
                self.moved_from(*old(self)),
                self.pos() > old(self).pos() + 1,
                old(self).cur() == TokenType::Keyword(Keyword::Func),
                name.name == ident_name(old(self).kind_at(old(self).pos() + 1)),
                toks == self.toks(),
                i0 == old(self).pos(),
                core == core_method_at(toks, i0) is Some,
                core ==> ident_names(parameter_names(generic_parameters@)) == type_param_names(toks, i0 + 2),
                core ==> p3 == after_type_params(toks, i0 + 2)->Some_0 + 1,
                core ==> method_params_from(toks, p3) == match method_params_from(toks, self.pos()) {
                    Some((ps, m)) => Some((acc + ps, m)),
                    None => None,
                },
                core ==> params_denote(parameters@, acc),
            decreases self.toks().len() - self.pos(),
        {
            let ghost q = self.pos();
            let parameter = self.parse_parameter()?;
            let ghost pc = core_param_at(toks, q, true)->Some_0.0;
            let ghost before = parameters@;
            parameters.push(parameter);
            proof {
                if core {
                    assert forall|k: int| 0 <= k < parameters@.len() implies param_denotes(
                        #[trigger] parameters@[k],
                        acc.push(pc)[k],
                    ) by {
                        if k < before.len() {
                            assert(parameters@[k] == before[k]);
                        }
                    }
                }
            }
            if !self.check(&TokenType::RightParen) {
                self.expect(&TokenType::Comma, "expected ',' between parameters")?;
                proof {
                    if core {
                        match method_params_from(toks, self.pos()) {
                            Some((ps, m)) => {
                                assert(acc + (seq![pc] + ps) =~= acc.push(pc) + ps);
                            },
                            None => {},
                        }
                    }
                }
            } else {
                proof {
                    if core {
                        assert(acc + seq![pc] =~= acc.push(pc));
                        assert(acc.push(pc) + seq![] =~= acc.push(pc));
                    }
                }
            }
            proof {
                acc = acc.push(pc);
            }
        }
        self.expect(&TokenType::RightParen, "expected ')' after parameters")?;
        self.expect(&TokenType::Arrow, "expected '->' before return type")?;
        let return_type = self.parse_type()?;
        let default_body = if self.check(&TokenType::LeftBrace) {
            Some(self.parse_block()?)
        } else {
            self.expect(&TokenType::Semicolon, "expected ';' or '{' after method signature")?;
            None
        };
        Ok(TraitMethod {
            name,
            generic_parameters,
            parameters,
            return_type: Box::new(return_type),
            default_body,
            source_location: start_location,
        })
    }

    /// Parses the axioms and methods of a trait body up to its `}` (not
    /// consumed).
    #[verifier::spinoff_prover]
    #[verifier::rlimit(100)]
    fn parse_trait_members(&mut self) -> (r: Result<(Vec<TraitAxiom>, Vec<TraitMethod>), ParserError>)
        requires
            old(self).wf(),
        ensures
            final(self).moved_from(*old(self)),
            final(self).pos() >= old(self).pos(),
            trait_members_from(old(self).toks(), old(self).pos()) matches Some((ms, e)) ==> (r matches Ok((axioms, methods))
                && final(self).pos() == e
                && axioms@.len() == member_axioms(ms).len()
                && (forall|k: int| 0 <= k < axioms@.len() ==> axiom_denotes(#[trigger] axioms@[k], member_axioms(ms)[k]))
                && methods@.len() == member_methods(ms).len()
                && (forall|k: int| 0 <= k < methods@.len() ==> method_denotes(#[trigger] methods@[k], member_methods(ms)[k]))),
    {
        let ghost toks = old(self).toks();
        let ghost core = trait_members_from(toks, old(self).pos()) is Some;
        let mut axioms: Vec<TraitAxiom> = Vec::new();
        let mut methods: Vec<TraitMethod> = Vec::new();
        let ghost b1 = self.pos();
        let ghost mut acc: Seq<CoreMember> = seq![];
        proof {
            if core {
                match trait_members_from(toks, b1) {
                    Some((ms, e)) => {
                        assert(acc + ms =~= ms);
                    },
                    None => {},
                }
            }
        }
        while !self.check(&TokenType::RightBrace) && !self.is_at_end()
            invariant
                self.moved_from(*old(self)),
                self.pos() >= old(self).pos(),
                toks == self.toks(),
                b1 == old(self).pos(),
                core == trait_members_from(toks, b1) is Some,
                core ==> trait_members_from(toks, b1) == match trait_members_from(toks, self.pos()) {
                    Some((rest, e)) => Some((acc + rest, e)),
                    None => None,
                },
                core ==> axioms@.len() == member_axioms(acc).len() && forall|k: int| 0 <= k < axioms@.len()
                    ==> axiom_denotes(#[trigger] axioms@[k], member_axioms(acc)[k]),
                core ==> methods@.len() == member_methods(acc).len() && forall|k: int| 0 <= k < methods@.len()
                    ==> method_denotes(#[trigger] methods@[k], member_methods(acc)[k]),
            decreases self.toks().len() - self.pos(),
        {
            let ghost q = self.pos();
            let is_axiom = self.check(&TokenType::At) && match self.peek_next() {
                Some(next) => match &next.token_type {
                    TokenType::Identifier(n) => str_is(n.as_str(), "axiom"),
                    _ => false,
                },
                None => false,
            };
            if is_axiom {
                let parsed = self.parse_axiom()?;
                let ghost a = core_axiom_at(toks, q)->Some_0.0;
                let ghost before = axioms@;
                axioms.push(parsed);
                proof {
                    if core {
                        let x = CoreMember::Axiom(a.0, a.1, a.2);
                        assert(acc.push(x).drop_last() =~= acc);
                        assert(member_methods(acc.push(x)) == member_methods(acc));
                        assert(member_axioms(acc.push(x)) == member_axioms(acc).push(a));
                        assert forall|k: int| 0 <= k < axioms@.len() implies axiom_denotes(
                            #[trigger] axioms@[k],
                            member_axioms(acc.push(x))[k],
                        ) by {
                            if k < before.len() {
                                assert(axioms@[k] == before[k]);
                            }
                        }
                        match trait_members_from(toks, self.pos()) {
                            Some((rest, e)) => {
                                assert(acc + (seq![x] + rest) =~= acc.push(x) + rest);
                            },
                            None => {},
                        }
                        acc = acc.push(x);
                    }
                }
            } else {
                let method = self.parse_trait_method()?;
                let ghost m = core_method_at(toks, q)->Some_0.0;
                let ghost before = methods@;
                methods.push(method);
                proof {
                    if core {
                        let x = CoreMember::Method(m);
                        assert(acc.push(x).drop_last() =~= acc);
                        assert(member_axioms(acc.push(x)) == member_axioms(acc));
                        assert(member_methods(acc.push(x)) == member_methods(acc).push(m));
                        assert forall|k: int| 0 <= k < methods@.len() implies method_denotes(
                            #[trigger] methods@[k],
                            member_methods(acc.push(x))[k],
                        ) by {
                            if k < before.len() {
                                assert(methods@[k] == before[k]);
                            }
                        }
                        match trait_members_from(toks, self.pos()) {
                            Some((rest, e)) => {
                                assert(acc + (seq![x] + rest) =~= acc.push(x) + rest);
                            },
                            None => {},
                        }
                        acc = acc.push(x);
                    }
                }
            }
        }
        proof {
            if core {
                assert(acc + seq![] =~= acc);
            }
        }
        Ok((axioms, methods))
    }

    /// Parses `trait Name [<T>] [where ...] { (axiom | method)* }`.
    #[verifier::spinoff_prover]
    #[verifier::rlimit(100)]
    pub fn parse_trait_definition(&mut self) -> (r: Result<TraitDefinition, ParserError>)
        requires
            old(self).wf(),
        ensures
            final(self).moved_from(*old(self)),
            old(self).spec_check_keyword(Keyword::Trait) ==> final(self).pos() > old(self).pos(),
            r is Ok ==> final(self).pos() > old(self).pos(),
            r matches Ok(t) ==> {
                &&& old(self).cur() == TokenType::Keyword(Keyword::Trait)
                &&& t.name.name == ident_name(old(self).kind_at(old(self).pos() + 1))
                &&& final(self).kind_at(final(self).pos() - 1) is RightBrace
            },
            core_trait_at(old(self).toks(), old(self).pos()) matches Some((c, j))
                ==> r matches Ok(t) && trait_denotes(t, c) && final(self).pos() == j,
    {
        let ghost toks = old(self).toks();
        let ghost i0 = old(self).pos();
        let ghost core = core_trait_at(toks, i0) is Some;
        let start_location = self.current_location();
        self.expect_keyword(Keyword::Trait, "expected 'trait'")?;
        let name = self.parse_identifier()?;
        let generic_parameters = self.parse_generic_parameters()?;
        let ghost p = self.pos();
        proof {
            if core {
                assert(after_type_params(toks, i0 + 2) == Some(p));
                assert(ident_names(parameter_names(generic_parameters@)) == type_param_names(toks, i0 + 2)) by {
                    if !token_is(toks, i0 + 2, TokenType::Less) {
                        assert(ident_names(parameter_names(generic_parameters@)) =~= Seq::<Seq<char>>::empty());
                    }
                }
            }
        }
        let where_clause = self.parse_where_clause()?;
        proof {
            if core {
                assert(after_where(toks, p) == Some(self.pos()));
                assert(where_view(where_clause@) == where_at(toks, p)) by {
                    if !keyword_at(toks, p, Keyword::Where) {
                        assert(where_view(where_clause@) =~= Seq::<(Seq<char>, Seq<Seq<char>>)>::empty());
                    }
                }
            }
        }
        self.expect(&TokenType::LeftBrace, "expected '{' after trait name")?;
        let ghost b1 = self.pos();
        proof {
            if core {
                assert(trait_members_from(toks, b1) is Some);
                lemma_trait_members_end(toks, b1);
            }
        }
        let (axioms, methods) = self.parse_trait_members()?;
        self.expect(&TokenType::RightBrace, "expected '}' after trait methods")?;
        Ok(TraitDefinition {
            name,
            generic_parameters,
            where_clause,
            axioms,
            methods,
            source_location: start_location,
        })
    }
}

} // verus!
