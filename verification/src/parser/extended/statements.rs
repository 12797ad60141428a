//! Blocks and statements.

use vstd::prelude::*;
use crate::ast::{
    AssignmentTarget, Block, CatchClause, ElseIf, Expression, Identifier, MatchArm, Mutability, PrimitiveType, Statement,
    TypeSpecifier,
};
use crate::error::{ParserError, SourceLocation};
use crate::lexer::v2::{Keyword, Token, TokenType};
use super::Parser;
use crate::parser::core_syntax::{
    CoreStmt, arms_denote, core_arms_from, core_assign_at, core_block_at, core_concurrent_at, core_for_at, core_if_at,
    core_for_rest, core_for_tail, for_head_at,
    core_catches_from, core_else_if_at, core_if_tail, core_let_at, core_throw_at, core_try_at, catches_denote,
    lemma_catches_denote_push, if_with, lemma_if_with_arm, lemma_if_with_end, core_match_at, core_return_at, core_stmt_at, core_stmts_from, core_target_at,
    core_while_at, else_ifs_denote, expression_at, keyword_at, lemma_arms_denote_push, lemma_else_ifs_denote_push,
    lemma_stmts_denote_push, opt_block_denotes, stmt_denotes, stmts_denote, target_denotes,
};
use crate::parser::v2::expressions::{CoreExpr, PatternShape, denotes, pattern_at};
use crate::parser::v2::types::{TypeShape, shape_of, type_at, token_is};
use crate::parser::core_syntax::inferred_name;
use crate::parser::v2::{describe_token_type, token_description};
use crate::parser::extended::expressions::core_full_at;
use crate::parser::v2::statements::{assignment_after_brackets, assignment_ahead};

verus! {

/// The statement that `parse_statement` produces when the first token has
/// kind `first`: each statement keyword gives its own statement, anything
/// else an assignment or an expression statement.
pub open spec fn statement_head(first: TokenType, s: Statement) -> bool {
    if first == TokenType::Keyword(Keyword::Let) || first == TokenType::Keyword(Keyword::Var) {
        s is VariableDeclaration
    } else if first == TokenType::Keyword(Keyword::Return) {
        s is Return
    } else if first == TokenType::Keyword(Keyword::If) {
        s is If
    } else if first == TokenType::Keyword(Keyword::While) {
        s is WhileLoop
    } else if first == TokenType::Keyword(Keyword::For) {
        s is FixedIterationLoop || s is ForEachLoop
    } else if first == TokenType::Keyword(Keyword::Match) {
        s is Match
    } else if first == TokenType::Keyword(Keyword::Break) {
        s is Break
    } else if first == TokenType::Keyword(Keyword::Continue) {
        s is Continue
    } else if first == TokenType::Keyword(Keyword::Concurrent) {
        s is Concurrent
    } else if first == TokenType::Keyword(Keyword::Try) {
        s is TryBlock
    } else if first == TokenType::Keyword(Keyword::Throw) {
        s is Throw
    } else {
        s is Assignment || s is Expression
    }
}

/// One `catch type [as name] block` at `j`: the type, the bound name and
/// the handler's statements, and the index after it.
pub open spec fn core_catch_at(toks: Seq<Token>, j: int) -> Option<((TypeShape, Option<Seq<char>>, Seq<CoreStmt>), int)> {
    if keyword_at(toks, j, Keyword::Catch) {
        match type_at(toks, j + 1, true) {
            Some((t, k)) => if j + 1 < k <= toks.len() {
                let bound = if keyword_at(toks, k, Keyword::As) {
                    if k + 1 < toks.len() && toks[k + 1].token_type is Identifier {
                        Some((Some(toks[k + 1].token_type->Identifier_0@), k + 2))
                    } else {
                        None
                    }
                } else {
                    Some((None, k))
                };
                match bound {
                    Some((name, m)) => match core_block_at(toks, m, true) {
                        Some((b, n)) => if j < n <= toks.len() {
                            Some(((t, name, b), n))
                        } else {
                            None
                        },
                        None => None,
                    },
                    None => None,
                }
            } else {
                None
            },
            None => None,
        }
    } else {
        None
    }
}

impl Parser {
    /// Parses a block `{ statement* }`.
    #[verifier::spinoff_prover]
    #[verifier::rlimit(100)]
    pub fn parse_block(&mut self) -> (r: Result<Block, ParserError>)
        requires
            old(self).wf(),
        ensures
            final(self).moved_from(*old(self)),
            r is Ok ==> final(self).pos() > old(self).pos(),
            r is Ok ==> old(self).cur() is LeftBrace && final(self).kind_at(final(self).pos() - 1) is RightBrace,
            core_block_at(old(self).toks(), old(self).pos(), true) matches Some((cs, j))
                ==> r matches Ok(b) && stmts_denote(b.statements@, cs) && final(self).pos() == j,
        decreases old(self).toks().len() - old(self).pos(), 7nat,
    {
        let ghost toks = old(self).toks();
        let ghost i0 = old(self).pos();
        let start_location = self.current_location();
        self.expect(&TokenType::LeftBrace, "expected '{' to start block")?;
        let mut statements: Vec<Statement> = Vec::new();
        let ghost mut cs: Seq<CoreStmt> = seq![];
        proof {
            match core_stmts_from(toks, self.pos(), true) {
                Some((rest, e)) => {
                    assert(cs + rest =~= rest);
                },
                None => {},
            }
        }
        while !self.check(&TokenType::RightBrace) && !self.is_at_end()
            invariant
                self.moved_from(*old(self)),
                self.pos() > old(self).pos(),
                old(self).cur() is LeftBrace,
                toks == self.toks(),
                i0 == old(self).pos(),
                core_block_at(toks, i0, true) is Some ==> core_block_at(toks, i0, true)
                    == match core_stmts_from(toks, self.pos(), true) {
                        Some((rest, e)) => Some((cs + rest, e)),
                        None => None,
                    },
                core_block_at(toks, i0, true) is Some ==> stmts_denote(statements@, cs),
            decreases self.toks().len() - self.pos(),
        {
            let ghost p = self.pos();
            let ghost c = core_stmt_at(toks, p, true)->Some_0.0;
            let ghost before = statements@;
            let statement = self.parse_statement()?;
            let ghost sg = statement;
            statements.push(statement);
            proof {
                if core_block_at(toks, i0, true) is Some {
                    lemma_stmts_denote_push(before, cs, sg, c);
                    assert(statements@ == before.push(sg));
                    match core_stmts_from(toks, self.pos(), true) {
                        Some((rest, e)) => {
                            assert(cs + (seq![c] + rest) =~= cs.push(c) + rest);
                        },
                        None => {},
                    }
                    cs = cs.push(c);
                }
            }
        }
        self.expect(&TokenType::RightBrace, "expected '}' to end block")?;
        proof {
            assert(cs + Seq::<CoreStmt>::empty() =~= cs);
        }
        Ok(Block { statements, source_location: start_location })
    }

    /// Parses `let [mut] name [: type] [= value];` or `var name ...;`
    /// (`var` is always mutable). Without a type the declaration gets the
    /// placeholder type `_inferred`.
    #[verifier::spinoff_prover]
    #[verifier::rlimit(100)]
    pub fn parse_variable_declaration(&mut self) -> (r: Result<Statement, ParserError>)
        requires
            old(self).wf(),
        ensures
            final(self).moved_from(*old(self)),
            r is Ok ==> final(self).pos() > old(self).pos(),
            r is Ok ==> final(self).kind_at(final(self).pos() - 1) is Semicolon,
            r matches Ok(s) ==> s matches Statement::VariableDeclaration { mutability, .. }
                && (old(self).cur() == TokenType::Keyword(Keyword::Var) ==> mutability == Mutability::Mutable)
                && (old(self).cur() == TokenType::Keyword(Keyword::Let)
                    ==> (mutability == Mutability::Mutable <==> old(self).kind_at(old(self).pos() + 1) == TokenType::Keyword(Keyword::Mut))),
            r is Ok ==> old(self).cur() == TokenType::Keyword(Keyword::Let) || old(self).cur() == TokenType::Keyword(Keyword::Var),
            core_let_at(old(self).toks(), old(self).pos(), true) matches Some((c, j))
                ==> r matches Ok(s) && stmt_denotes(s, c) && final(self).pos() == j,
        decreases old(self).toks().len() - old(self).pos(), 38nat,
    {
        let start_location = self.current_location();
        let is_var = self.check_keyword(Keyword::Var);
        if is_var {
            self.advance();
        } else {
            self.expect_keyword(Keyword::Let, "expected 'let' or 'var'")?;
        }
        let mutability = if is_var {
            Mutability::Mutable
        } else if self.check_keyword(Keyword::Mut) {
            self.advance();
            Mutability::Mutable
        } else {
            Mutability::Immutable
        };
        let name = self.parse_identifier()?;
        let type_spec = if self.check(&TokenType::Colon) {
            self.advance();
            self.parse_type()?
        } else {
            let placeholder = Identifier::new(String::from_str("_inferred"), start_location.duplicate());
            proof {
                reveal_strlit("_inferred");
                assert(placeholder.name@ == inferred_name());
            }
            let t = TypeSpecifier::Named { name: placeholder, source_location: start_location.duplicate() };
            proof {
                assert(shape_of(t) == TypeShape::Named(inferred_name()));
            }
            t
        };
        let initial_value = if self.check(&TokenType::Equal) {
            self.advance();
            Some(Box::new(self.parse_expression()?))
        } else {
            None
        };
        self.expect(&TokenType::Semicolon, "expected ';' after variable declaration")?;
        Ok(Statement::VariableDeclaration {
            name,
            type_spec: Box::new(type_spec),
            mutability,
            initial_value,
            intent: None,
            source_location: start_location,
        })
    }

    /// Whether the statement here is an assignment: an identifier, then
    /// `.field` and `[index]` parts, then `=`.
    pub fn looks_like_assignment(&self) -> (b: bool)
        requires
            self.wf(),
        ensures
            b == (self.cur() is Identifier && assignment_ahead(self.toks(), self.pos() + 1)),
    {
        let n = self.token_count();
        let mut i = self.current_position();
        if !(matches!(*self.token_kind(i), TokenType::Identifier(_))) {
            return false;
        }
        i = i + 1;
        while i < n
            invariant
                self.wf(),
                n == self.toks().len(),
                self.pos() < i <= n,
                self.cur() is Identifier,
                assignment_ahead(self.toks(), self.pos() + 1) == assignment_ahead(self.toks(), i as int),
            decreases n - i,
        {
            if matches!(*self.token_kind(i), TokenType::Dot) {
                if i + 1 < n && matches!(*self.token_kind(i + 1), TokenType::Identifier(_)) {
                    i = i + 2;
                } else {
                    return false;
                }
            } else if matches!(*self.token_kind(i), TokenType::LeftBracket) {
                let ghost i0 = i;
                i = i + 1;
                let mut depth: u64 = 1;
                while i < n && depth > 0
                    invariant
                        self.wf(),
                        n == self.toks().len(),
                        self.pos() < i <= n,
                        i > i0,
                        self.cur() is Identifier,
                        depth <= i,
                        assignment_ahead(self.toks(), self.pos() + 1) == if depth > 0 {
                            assignment_after_brackets(self.toks(), i as int, depth as int)
                        } else {
                            assignment_ahead(self.toks(), i as int)
                        },
                    decreases n - i,
                {
                    if matches!(*self.token_kind(i), TokenType::LeftBracket) {
                        depth = depth + 1;
                    } else if matches!(*self.token_kind(i), TokenType::RightBracket) {
                        depth = depth - 1;
                    }
                    i = i + 1;
                }
                if depth > 0 {
                    return false;
                }
            } else {
                return matches!(*self.token_kind(i), TokenType::Equal);
            }
        }
        false
    }

    /// Parses `target = value;`.
    #[verifier::spinoff_prover]
    #[verifier::rlimit(100)]
    pub fn parse_assignment(&mut self) -> (r: Result<Statement, ParserError>)
        requires
            old(self).wf(),
        ensures
            final(self).moved_from(*old(self)),
            r is Ok ==> final(self).pos() > old(self).pos(),
            r is Ok ==> final(self).kind_at(final(self).pos() - 1) is Semicolon,
            r matches Ok(s) ==> s is Assignment && old(self).cur() is Identifier,
            core_assign_at(old(self).toks(), old(self).pos(), true) matches Some((c, j))
                ==> r matches Ok(s) && stmt_denotes(s, c) && final(self).pos() == j,
        decreases old(self).toks().len() - old(self).pos(), 38nat,
    {
        let start_location = self.current_location();
        let target = self.parse_assignment_target()?;
        self.expect(&TokenType::Equal, "expected '=' in assignment")?;
        let value = self.parse_expression()?;
        self.expect(&TokenType::Semicolon, "expected ';' after assignment")?;
        Ok(Statement::Assignment { target, value: Box::new(value), source_location: start_location })
    }

    /// Parses an assignment target: `name`, `name[index]` or `name.field`.
    #[verifier::spinoff_prover]
    #[verifier::rlimit(100)]
    pub fn parse_assignment_target(&mut self) -> (r: Result<AssignmentTarget, ParserError>)
        requires
            old(self).wf(),
        ensures
            final(self).moved_from(*old(self)),
            r is Ok ==> final(self).pos() > old(self).pos(),
            r is Ok <==> old(self).cur() is Identifier && r is Ok,
            r matches Ok(t) ==> old(self).cur() is Identifier && (
                (t matches AssignmentTarget::Variable { name } && name.name == old(self).cur()->Identifier_0
                    && final(self).pos() == old(self).pos() + 1)
                || t is ArrayElement || t is StructField),
            core_target_at(old(self).toks(), old(self).pos(), true) matches Some((c, j))
                ==> r matches Ok(t) && target_denotes(t, c) && final(self).pos() == j,
        decreases old(self).toks().len() - old(self).pos(), 37nat,
    {
        let start_location = self.current_location();
        let ident = match &self.peek().token_type {
            TokenType::Identifier(name) => Some(name.clone()),
            _ => None,
        };
        match ident {
            Some(name) => {
                self.advance();
                if self.check(&TokenType::LeftBracket) {
                    self.advance();
                    let index = self.parse_expression()?;
                    self.expect(&TokenType::RightBracket, "expected ']' after array index")?;
                    return Ok(AssignmentTarget::ArrayElement {
                        array: Box::new(Expression::Variable {
                            name: Identifier::new(name, start_location.duplicate()),
                            source_location: start_location.duplicate(),
                        }),
                        index: Box::new(index),
                    });
                }
                if self.check(&TokenType::Dot) {
                    self.advance();
                    let field_name = self.parse_identifier()?;
                    return Ok(AssignmentTarget::StructField {
                        instance: Box::new(Expression::Variable {
                            name: Identifier::new(name, start_location.duplicate()),
                            source_location: start_location.duplicate(),
                        }),
                        field_name,
                    });
                }
                Ok(AssignmentTarget::Variable { name: Identifier::new(name, start_location) })
            },
            None => Err(ParserError::UnexpectedToken {
                expected: String::from_str("assignment target"),
                found: describe_token_type(&self.peek().token_type),
                location: start_location,
            }),
        }
    }

    /// Parses `return [value];`.
    #[verifier::spinoff_prover]
    #[verifier::rlimit(100)]
    pub fn parse_return_statement(&mut self) -> (r: Result<Statement, ParserError>)
        requires
            old(self).wf(),
        ensures
            final(self).moved_from(*old(self)),
            r is Ok ==> final(self).pos() > old(self).pos(),
            r is Ok ==> final(self).kind_at(final(self).pos() - 1) is Semicolon,
            r matches Ok(s) ==> s matches Statement::Return { value, .. }
                && (value is None <==> old(self).kind_at(old(self).pos() + 1) is Semicolon),
            r is Ok ==> old(self).cur() == TokenType::Keyword(Keyword::Return),
            core_return_at(old(self).toks(), old(self).pos(), true) matches Some((c, j))
                ==> r matches Ok(s) && stmt_denotes(s, c) && final(self).pos() == j,
        decreases old(self).toks().len() - old(self).pos(), 38nat,
    {
        let start_location = self.current_location();
        self.expect_keyword(Keyword::Return, "expected 'return'")?;
        let value = if !self.check(&TokenType::Semicolon) {
            Some(Box::new(self.parse_expression()?))
        } else {
            None
        };
        self.expect(&TokenType::Semicolon, "expected ';' after return statement")?;
        Ok(Statement::Return { value, source_location: start_location })
    }

    /// Parses the `if cond { }` of an `else if` arm.
    #[verifier::spinoff_prover]
    #[verifier::rlimit(100)]
    fn parse_else_if(&mut self) -> (r: Result<ElseIf, ParserError>)
        requires
            old(self).wf(),
            old(self).cur() == TokenType::Keyword(Keyword::If),
        ensures
            final(self).moved_from(*old(self)),
            r is Ok ==> final(self).pos() > old(self).pos() && final(self).kind_at(final(self).pos() - 1) is RightBrace,
            core_else_if_at(old(self).toks(), old(self).pos(), true) matches Some((arm, j))
                ==> r matches Ok(e) && denotes(*e.condition, arm.0) && stmts_denote(e.block.statements@, arm.1)
                && final(self).pos() == j,
        decreases old(self).toks().len() - old(self).pos(), 37nat,
    {
        let else_if_location = self.current_location();
        self.advance();
        let else_if_condition = self.parse_expression()?;
        let else_if_block = self.parse_block()?;
        Ok(ElseIf {
            condition: Box::new(else_if_condition),
            block: else_if_block,
            source_location: else_if_location,
        })
    }

    /// Parses `if cond { } [else if cond { }]* [else { }]`.
    #[verifier::spinoff_prover]
    #[verifier::rlimit(100)]
    pub fn parse_if_statement(&mut self) -> (r: Result<Statement, ParserError>)
        requires
            old(self).wf(),
        ensures
            final(self).moved_from(*old(self)),
            r is Ok ==> final(self).pos() > old(self).pos(),
            r is Ok ==> final(self).kind_at(final(self).pos() - 1) is RightBrace,
            r matches Ok(s) ==> s is If && old(self).cur() == TokenType::Keyword(Keyword::If),
            core_if_at(old(self).toks(), old(self).pos(), true) matches Some((c, j))
                ==> r matches Ok(s) && stmt_denotes(s, c) && final(self).pos() == j,
        decreases old(self).toks().len() - old(self).pos(), 38nat,
    {
        let start_location = self.current_location();
        self.expect_keyword(Keyword::If, "expected 'if'")?;
        let ghost toks = old(self).toks();
        let ghost i0 = old(self).pos();
        let ghost k0 = expression_at(toks, i0 + 1, true)->Some_0.1;
        let ghost c0 = expression_at(toks, i0 + 1, true)->Some_0.0;
        let ghost b0 = core_block_at(toks, k0, true)->Some_0.0;
        let condition = self.parse_expression()?;
        let then_block = self.parse_block()?;
        let mut else_ifs: Vec<ElseIf> = Vec::new();
        let mut else_block: Option<Block> = None;
        let ghost mut elifs: Seq<(CoreExpr, Seq<CoreStmt>)> = seq![];
        let ghost mut els: Option<Seq<CoreStmt>> = None;
        proof {
            match core_if_tail(toks, self.pos(), true) {
                Some((es, el, e)) => {
                    assert(elifs + es =~= es);
                },
                None => {},
            }
        }
        while self.check_keyword(Keyword::Else)
            invariant_except_break
                self.moved_from(*old(self)),
                self.pos() > old(self).pos(),
                self.kind_at(self.pos() - 1) is RightBrace,
                toks == self.toks(),
                i0 == old(self).pos(),
                else_block is None,
                els is None,
                elifs + Seq::<(CoreExpr, Seq<CoreStmt>)>::empty() == elifs,
                core_if_at(toks, i0, true) is Some ==> {
                    &&& core_if_at(toks, i0, true) == if_with(c0, b0, elifs, core_if_tail(toks, self.pos(), true))
                    &&& denotes(condition, c0)
                    &&& stmts_denote(then_block.statements@, b0)
                    &&& else_ifs_denote(else_ifs@, elifs)
                },
            ensures
                self.moved_from(*old(self)),
                self.pos() > old(self).pos(),
                self.kind_at(self.pos() - 1) is RightBrace,
                core_if_at(toks, i0, true) is Some ==> {
                    &&& core_if_at(toks, i0, true) == Some((CoreStmt::If(c0, b0, elifs, els), self.pos()))
                    &&& denotes(condition, c0)
                    &&& stmts_denote(then_block.statements@, b0)
                    &&& else_ifs_denote(else_ifs@, elifs)
                    &&& opt_block_denotes(else_block, els)
                },
            decreases self.toks().len() - self.pos(),
        {
            let ghost p = self.pos();
            self.advance();
            if self.check_keyword(Keyword::If) {
                let ghost arm = core_else_if_at(toks, p + 1, true)->Some_0.0;
                let else_if = self.parse_else_if()?;
                let ghost eg = else_if;
                let ghost before = else_ifs@;
                else_ifs.push(else_if);
                proof {
                    if core_if_at(toks, i0, true) is Some {
                        assert(core_if_tail(toks, p, true) is Some);
                        assert(core_else_if_at(toks, p + 1, true) == Some((arm, self.pos())));
                        assert(core_if_tail(toks, p, true) == match core_if_tail(toks, self.pos(), true) {
                            Some((es, el, e)) => Some((seq![arm] + es, el, e)),
                            None => None,
                        });
                        lemma_else_ifs_denote_push(before, elifs, eg, arm);
                        lemma_if_with_arm(c0, b0, elifs, arm, core_if_tail(toks, self.pos(), true));
                        elifs = elifs.push(arm);
                    }
                }
            } else {
                let ghost b2 = core_block_at(toks, p + 1, true)->Some_0.0;
                let block = self.parse_block()?;
                proof {
                    if core_if_at(toks, i0, true) is Some {
                        assert(core_if_tail(toks, p, true) == Some((Seq::<(CoreExpr, Seq<CoreStmt>)>::empty(), Some(b2), self.pos())));
                        assert(stmts_denote(block.statements@, b2));
                    }
                    els = Some(b2);
                    lemma_if_with_end(c0, b0, elifs, els, self.pos());
                }
                else_block = Some(block);
                break;
            }
        }
        Ok(Statement::If {
            condition: Box::new(condition),
            then_block,
            else_ifs,
            else_block,
            source_location: start_location,
        })
    }

    /// Parses `while cond { }`.
    #[verifier::spinoff_prover]
    #[verifier::rlimit(100)]
    pub fn parse_while_loop(&mut self) -> (r: Result<Statement, ParserError>)
        requires
            old(self).wf(),
        ensures
            final(self).moved_from(*old(self)),
            r is Ok ==> final(self).pos() > old(self).pos(),
            r is Ok ==> final(self).kind_at(final(self).pos() - 1) is RightBrace,
            r matches Ok(s) ==> s is WhileLoop && old(self).cur() == TokenType::Keyword(Keyword::While),
            core_while_at(old(self).toks(), old(self).pos(), true) matches Some((c, j))
                ==> r matches Ok(s) && stmt_denotes(s, c) && final(self).pos() == j,
        decreases old(self).toks().len() - old(self).pos(), 38nat,
    {
        let start_location = self.current_location();
        self.expect_keyword(Keyword::While, "expected 'while'")?;
        let condition = self.parse_expression()?;
        let body = self.parse_block()?;
        Ok(Statement::WhileLoop {
            condition: Box::new(condition),
            invariant: None,
            body,
            label: None,
            source_location: start_location,
        })
    }

    /// Parses `for x [: T] in a..b { }` (a counting loop; `..=` includes the
    /// end) or `for x [: T] in collection { }` (a for-each loop whose element
    /// type defaults to `Int`).
    #[verifier::spinoff_prover]
    #[verifier::rlimit(100)]
    pub fn parse_for_loop(&mut self) -> (r: Result<Statement, ParserError>)
        requires
            old(self).wf(),
        ensures
            final(self).moved_from(*old(self)),
            r is Ok ==> final(self).pos() > old(self).pos(),
            r is Ok ==> final(self).kind_at(final(self).pos() - 1) is RightBrace,
            r matches Ok(s) ==> (s is FixedIterationLoop || s is ForEachLoop)
                && old(self).cur() == TokenType::Keyword(Keyword::For),
            core_for_at(old(self).toks(), old(self).pos(), true) matches Some((c, j))
                ==> r matches Ok(s) && stmt_denotes(s, c) && final(self).pos() == j,
        decreases old(self).toks().len() - old(self).pos(), 38nat,
    {
        let ghost toks = old(self).toks();
        let ghost p0 = old(self).pos();
        let start_location = self.current_location();
        self.expect_keyword(Keyword::For, "expected 'for'")?;
        let element_binding = self.parse_identifier()?;
        let element_type = if self.check(&TokenType::Colon) {
            self.advance();
            Some(Box::new(self.parse_type()?))
        } else {
            None
        };
        proof {
            if for_head_at(toks, p0, true) is Some {
                let (name, ty, k) = for_head_at(toks, p0, true)->Some_0;
                assert(element_binding.name@ == name);
                assert(self.pos() == k);
                assert(match element_type { Some(t) => ty == Some(shape_of(*t)), None => ty is None });
            }
        }
        self.parse_for_rest(element_binding, element_type, start_location)
    }

    /// Parses the rest `in from..to { }` or `in collection { }` of a for
    /// loop over `element_binding`.
    #[verifier::spinoff_prover]
    #[verifier::rlimit(100)]
    fn parse_for_rest(
        &mut self,
        element_binding: Identifier,
        element_type: Option<Box<TypeSpecifier>>,
        start_location: SourceLocation,
    ) -> (r: Result<Statement, ParserError>)
        requires
            old(self).wf(),
        ensures
            final(self).moved_from(*old(self)),
            r is Ok ==> final(self).pos() > old(self).pos(),
            r is Ok ==> final(self).kind_at(final(self).pos() - 1) is RightBrace,
            r matches Ok(s) ==> s is FixedIterationLoop || s is ForEachLoop,
            core_for_rest(
                old(self).toks(),
                element_binding.name@,
                match element_type { Some(t) => Some(shape_of(*t)), None => None },
                old(self).pos(),
                true,
            ) matches Some((c, j)) ==> r matches Ok(s) && stmt_denotes(s, c) && final(self).pos() == j,
        decreases old(self).toks().len() - old(self).pos(), 37nat,
    {
        self.expect_keyword(Keyword::In, "expected 'in' after loop variable")?;
        let from_expr = self.parse_primary_expression()?;
        self.parse_for_tail(element_binding, element_type, from_expr, start_location)
    }

    /// Parses what follows the first operand of a for loop: `..` or `..=`,
    /// the end and the body, or the body of a for-each loop.
    #[verifier::spinoff_prover]
    #[verifier::rlimit(100)]
    fn parse_for_tail(
        &mut self,
        element_binding: Identifier,
        element_type: Option<Box<TypeSpecifier>>,
        from_expr: Expression,
        start_location: SourceLocation,
    ) -> (r: Result<Statement, ParserError>)
        requires
            old(self).wf(),
        ensures
            final(self).moved_from(*old(self)),
            r is Ok ==> final(self).pos() > old(self).pos(),
            r is Ok ==> final(self).kind_at(final(self).pos() - 1) is RightBrace,
            r matches Ok(s) ==> s is FixedIterationLoop || s is ForEachLoop,
            forall|f: CoreExpr| #[trigger] denotes(from_expr, f) ==> (core_for_tail(
                old(self).toks(),
                element_binding.name@,
                match element_type { Some(t) => Some(shape_of(*t)), None => None },
                f,
                old(self).pos(),
                true,
            ) matches Some((c, j)) ==> r matches Ok(s) && stmt_denotes(s, c) && final(self).pos() == j),
        decreases old(self).toks().len() - old(self).pos(), 37nat,
    {
        if self.check(&TokenType::DotDot) || self.check(&TokenType::DotDotEqual) {
            let inclusive = self.check(&TokenType::DotDotEqual);
            self.advance();
            let to_expr = self.parse_primary_expression()?;
            let body = self.parse_block()?;
            Ok(Statement::FixedIterationLoop {
                counter: element_binding,
                from_value: Box::new(from_expr),
                to_value: Box::new(to_expr),
                step_value: None,
                inclusive,
                body,
                label: None,
                source_location: start_location,
            })
        } else {
            let body = self.parse_block()?;
            let element_type = match element_type {
                Some(t) => t,
                None => Box::new(TypeSpecifier::Primitive {
                    primitive_type: PrimitiveType::Integer,
                    source_location: start_location.duplicate(),
                }),
            };
            Ok(Statement::ForEachLoop {
                collection: Box::new(from_expr),
                element_binding,
                element_type,
                index_binding: None,
                body,
                label: None,
                source_location: start_location,
            })
        }
    }

    /// Parses `match value { pattern [if guard] => { } ... }` as a statement.
    #[verifier::spinoff_prover]
    #[verifier::rlimit(100)]
    pub fn parse_match_statement(&mut self) -> (r: Result<Statement, ParserError>)
        requires
            old(self).wf(),
        ensures
            final(self).moved_from(*old(self)),
            r is Ok ==> final(self).pos() > old(self).pos(),
            r is Ok ==> final(self).kind_at(final(self).pos() - 1) is RightBrace,
            r matches Ok(s) ==> s is Match && old(self).cur() == TokenType::Keyword(Keyword::Match),
            core_match_at(old(self).toks(), old(self).pos(), true) matches Some((c, j))
                ==> r matches Ok(s) && stmt_denotes(s, c) && final(self).pos() == j,
        decreases old(self).toks().len() - old(self).pos(), 38nat,
    {
        let start_location = self.current_location();
        self.expect_keyword(Keyword::Match, "expected 'match'")?;
        let ghost toks = old(self).toks();
        let ghost i0 = old(self).pos();
        let ghost v0 = expression_at(toks, i0 + 1, true)->Some_0.0;
        let value = self.parse_expression()?;
        self.expect(&TokenType::LeftBrace, "expected '{' after match value")?;
        let mut arms: Vec<MatchArm> = Vec::new();
        let ghost mut arms_c: Seq<(PatternShape, Option<CoreExpr>, Seq<CoreStmt>)> = seq![];
        proof {
            match core_arms_from(toks, self.pos(), true) {
                Some((rest, e)) => {
                    assert(arms_c + rest =~= rest);
                },
                None => {},
            }
        }
        while !self.check(&TokenType::RightBrace) && !self.is_at_end()
            invariant
                self.moved_from(*old(self)),
                self.pos() > old(self).pos(),
                old(self).cur() == TokenType::Keyword(Keyword::Match),
                toks == self.toks(),
                i0 == old(self).pos(),
                core_match_at(toks, i0, true) is Some ==> {
                    &&& core_match_at(toks, i0, true) == match core_arms_from(toks, self.pos(), true) {
                        Some((rest, e)) => Some((CoreStmt::Match(v0, arms_c + rest), e)),
                        None => None,
                    }
                    &&& denotes(value, v0)
                    &&& arms_denote(arms@, arms_c)
                },
            decreases self.toks().len() - self.pos(),
        {
            let ghost p = self.pos();
            let arm_location = self.current_location();
            let pattern = self.parse_pattern()?;
            let ghost k = self.pos();
            let ghost g = if keyword_at(toks, k, Keyword::If) {
                Some(expression_at(toks, k + 1, true)->Some_0.0)
            } else {
                None
            };
            let guard = if self.check_keyword(Keyword::If) {
                self.advance();
                Some(Box::new(self.parse_expression()?))
            } else {
                None
            };
            let ghost m = self.pos();
            self.expect(&TokenType::FatArrow, "expected '=>' after pattern")?;
            let ghost bc = core_block_at(toks, m + 1, true)->Some_0.0;
            let body = self.parse_block()?;
            let arm = MatchArm { pattern, guard, body, source_location: arm_location };
            let ghost ag = arm;
            let ghost before = arms@;
            arms.push(arm);
            proof {
                if core_match_at(toks, i0, true) is Some {
                    let ps = pattern_at(toks, p)->Some_0.0;
                    lemma_arms_denote_push(before, arms_c, ag, (ps, g, bc));
                    match core_arms_from(toks, self.pos(), true) {
                        Some((rest, e)) => {
                            assert(arms_c + (seq![(ps, g, bc)] + rest) =~= arms_c.push((ps, g, bc)) + rest);
                        },
                        None => {},
                    }
                    arms_c = arms_c.push((ps, g, bc));
                }
            }
        }
        self.expect(&TokenType::RightBrace, "expected '}' after match arms")?;
        proof {
            assert(arms_c + Seq::<(PatternShape, Option<CoreExpr>, Seq<CoreStmt>)>::empty() =~= arms_c);
        }
        Ok(Statement::Match { value: Box::new(value), arms, source_location: start_location })
    }

    /// Parses `break;`.
    pub fn parse_break_statement(&mut self) -> (r: Result<Statement, ParserError>)
        requires
            old(self).wf(),
        ensures
            final(self).moved_from(*old(self)),
            r is Ok <==> old(self).cur() == TokenType::Keyword(Keyword::Break)
                && old(self).kind_at(old(self).pos() + 1) is Semicolon,
            r is Ok ==> final(self).pos() == old(self).pos() + 2,
            r matches Ok(s) ==> s matches Statement::Break { target_label, .. } && target_label is None,
            r matches Err(e) ==> e matches ParserError::UnexpectedToken { expected, .. } && expected@ == (
                if old(self).cur() == TokenType::Keyword(Keyword::Break) { "expected ';' after break"@ } else { "expected 'break'"@ }),
    {
        let start_location = self.current_location();
        self.expect_keyword(Keyword::Break, "expected 'break'")?;
        self.expect(&TokenType::Semicolon, "expected ';' after break")?;
        Ok(Statement::Break { target_label: None, source_location: start_location })
    }

    /// Parses `continue;`.
    pub fn parse_continue_statement(&mut self) -> (r: Result<Statement, ParserError>)
        requires
            old(self).wf(),
        ensures
            final(self).moved_from(*old(self)),
            r is Ok <==> old(self).cur() == TokenType::Keyword(Keyword::Continue)
                && old(self).kind_at(old(self).pos() + 1) is Semicolon,
            r is Ok ==> final(self).pos() == old(self).pos() + 2,
            r matches Ok(s) ==> s matches Statement::Continue { target_label, .. } && target_label is None,
            r matches Err(e) ==> e matches ParserError::UnexpectedToken { expected, .. } && expected@ == (
                if old(self).cur() == TokenType::Keyword(Keyword::Continue) { "expected ';' after continue"@ } else { "expected 'continue'"@ }),
    {
        let start_location = self.current_location();
        self.expect_keyword(Keyword::Continue, "expected 'continue'")?;
        self.expect(&TokenType::Semicolon, "expected ';' after continue")?;
        Ok(Statement::Continue { target_label: None, source_location: start_location })
    }

    /// Parses `concurrent { }`.
    #[verifier::spinoff_prover]
    #[verifier::rlimit(100)]
    pub fn parse_concurrent_block(&mut self) -> (r: Result<Statement, ParserError>)
        requires
            old(self).wf(),
        ensures
            final(self).moved_from(*old(self)),
            r is Ok ==> final(self).pos() > old(self).pos(),
            r is Ok ==> final(self).kind_at(final(self).pos() - 1) is RightBrace,
            r matches Ok(s) ==> s is Concurrent && old(self).cur() == TokenType::Keyword(Keyword::Concurrent),
            core_concurrent_at(old(self).toks(), old(self).pos(), true) matches Some((c, j))
                ==> r matches Ok(s) && stmt_denotes(s, c) && final(self).pos() == j,
        decreases old(self).toks().len() - old(self).pos(), 38nat,
    {
        let start_location = self.current_location();
        self.expect_keyword(Keyword::Concurrent, "expected 'concurrent'")?;
        let block = self.parse_block()?;
        Ok(Statement::Concurrent { block, source_location: start_location })
    }

    /// Parses `try { } [catch Type [as name] { }]* [finally { }]`.
    #[verifier::spinoff_prover]
    #[verifier::rlimit(100)]
    pub fn parse_try_statement(&mut self) -> (r: Result<Statement, ParserError>)
        requires
            old(self).wf(),
        ensures
            final(self).moved_from(*old(self)),
            r is Ok ==> final(self).pos() > old(self).pos(),
            r is Ok ==> final(self).kind_at(final(self).pos() - 1) is RightBrace,
            r matches Ok(s) ==> s is TryBlock && old(self).cur() == TokenType::Keyword(Keyword::Try),
            core_try_at(old(self).toks(), old(self).pos(), true) matches Some((c, j))
                ==> r matches Ok(s) && stmt_denotes(s, c) && final(self).pos() == j,
        decreases old(self).toks().len() - old(self).pos(), 38nat,
    {
        let ghost toks = old(self).toks();
        let ghost i0 = old(self).pos();
        let start_location = self.current_location();
        self.expect_keyword(Keyword::Try, "expected 'try'")?;
        let ghost b0 = core_block_at(toks, i0 + 1, true)->Some_0.0;
        let protected_block = self.parse_block()?;
        let ghost k0 = self.pos();
        let mut catch_clauses: Vec<CatchClause> = Vec::new();
        let ghost mut cls: Seq<(TypeShape, Option<Seq<char>>, Seq<CoreStmt>)> = seq![];
        proof {
            match core_catches_from(toks, k0, true) {
                Some((rest, m)) => {
                    assert(cls + rest =~= rest);
                },
                None => {},
            }
        }
        while self.check_keyword(Keyword::Catch)
            invariant
                self.moved_from(*old(self)),
                self.pos() > old(self).pos(),
                self.kind_at(self.pos() - 1) is RightBrace,
                toks == self.toks(),
                i0 == old(self).pos(),
                k0 <= self.pos(),
                cls + Seq::<(TypeShape, Option<Seq<char>>, Seq<CoreStmt>)>::empty() == cls,
                core_try_at(toks, i0, true) is Some ==> {
                    &&& core_block_at(toks, i0 + 1, true) == Some((b0, k0))
                    &&& stmts_denote(protected_block.statements@, b0)
                    &&& core_catches_from(toks, k0, true) == match core_catches_from(toks, self.pos(), true) {
                        Some((rest, m)) => Some((cls + rest, m)),
                        None => None,
                    }
                    &&& catches_denote(catch_clauses@, cls)
                },
            decreases self.toks().len() - self.pos(),
        {
            let ghost p = self.pos();
            let ghost c = core_catch_at(toks, p)->Some_0.0;
            let clause = self.parse_catch_clause()?;
            let ghost cg = clause;
            let ghost before = catch_clauses@;
            catch_clauses.push(clause);
            proof {
                if core_try_at(toks, i0, true) is Some {
                    assert(core_catches_from(toks, p, true) is Some);
                    assert(core_catches_from(toks, p, true) == match core_catches_from(toks, self.pos(), true) {
                        Some((rest, e)) => Some((seq![c] + rest, e)),
                        None => None,
                    });
                    lemma_catches_denote_push(before, cls, cg, c);
                    match core_catches_from(toks, self.pos(), true) {
                        Some((rest, e)) => {
                            assert(cls + (seq![c] + rest) =~= cls.push(c) + rest);
                        },
                        None => {},
                    }
                    cls = cls.push(c);
                }
            }
        }
        let ghost m = self.pos();
        let ghost fb = core_block_at(toks, m + 1, true)->Some_0.0;
        let finally_block = if self.check_keyword(Keyword::Finally) {
            self.advance();
            Some(self.parse_block()?)
        } else {
            None
        };
        proof {
            if core_try_at(toks, i0, true) is Some {
                assert(core_catches_from(toks, k0, true) == Some((cls, m)));
            }
        }
        Ok(Statement::TryBlock { protected_block, catch_clauses, finally_block, source_location: start_location })
    }

    /// Parses one `catch type [as name] block`.
    #[verifier::spinoff_prover]
    #[verifier::rlimit(100)]
    fn parse_catch_clause(&mut self) -> (r: Result<CatchClause, ParserError>)
        requires
            old(self).wf(),
            old(self).cur() == TokenType::Keyword(Keyword::Catch),
        ensures
            final(self).moved_from(*old(self)),
            r is Ok ==> final(self).pos() > old(self).pos(),
            r is Ok ==> final(self).kind_at(final(self).pos() - 1) is RightBrace,
            core_catch_at(old(self).toks(), old(self).pos()) matches Some((c, j)) ==> r matches Ok(k)
                && final(self).pos() == j && shape_of(*k.exception_type) == c.0
                && match k.binding_variable {
                    Some(b) => c.1 == Some(b.name@),
                    None => c.1 is None,
                } && stmts_denote(k.handler_block.statements@, c.2),
        decreases old(self).toks().len() - old(self).pos(), 37nat,
    {
        let catch_location = self.current_location();
        self.advance();
        let exception_type = self.parse_type()?;
        let binding_variable = if self.check_keyword(Keyword::As) {
            self.advance();
            Some(self.parse_identifier()?)
        } else {
            None
        };
        let handler_block = self.parse_block()?;
        Ok(CatchClause {
            exception_type: Box::new(exception_type),
            binding_variable,
            handler_block,
            source_location: catch_location,
        })
    }

    /// Parses `throw expression ;`.
    #[verifier::spinoff_prover]
    #[verifier::rlimit(100)]
    pub fn parse_throw_statement(&mut self) -> (r: Result<Statement, ParserError>)
        requires
            old(self).wf(),
        ensures
            final(self).moved_from(*old(self)),
            r is Ok ==> final(self).pos() > old(self).pos(),
            r is Ok ==> final(self).kind_at(final(self).pos() - 1) is Semicolon,
            r matches Ok(s) ==> s is Throw && old(self).cur() == TokenType::Keyword(Keyword::Throw),
            core_throw_at(old(self).toks(), old(self).pos(), true) matches Some((c, j))
                ==> r matches Ok(s) && stmt_denotes(s, c) && final(self).pos() == j,
            old(self).cur() == TokenType::Keyword(Keyword::Throw) ==> (core_full_at(old(self).toks(), old(self).pos() + 1)
                matches Some((c, j)) ==> (!token_is(old(self).toks(), j, TokenType::Semicolon) ==> (r matches Err(e)
                && e matches ParserError::UnexpectedToken { expected, found, .. }
                && expected@ == "expected ';' after throw"@
                && found@ == token_description(old(self).toks()[j].token_type)))),
        decreases old(self).toks().len() - old(self).pos(), 38nat,
    {
        let start_location = self.current_location();
        self.expect_keyword(Keyword::Throw, "expected 'throw'")?;
        let exception = self.parse_expression()?;
        self.expect(&TokenType::Semicolon, "expected ';' after throw")?;
        Ok(Statement::Throw { exception: Box::new(exception), source_location: start_location })
    }

    /// Parses any statement, chosen by its first token; a statement that
    /// starts with no statement keyword is an assignment when it looks like
    /// one, otherwise an expression followed by `;`.
    #[verifier::spinoff_prover]
    #[verifier::rlimit(100)]
    pub fn parse_statement(&mut self) -> (r: Result<Statement, ParserError>)
        requires
            old(self).wf(),
        ensures
            final(self).moved_from(*old(self)),
            r is Ok ==> final(self).pos() > old(self).pos(),
            r matches Ok(s) ==> statement_head(old(self).cur(), s),
            core_stmt_at(old(self).toks(), old(self).pos(), true) matches Some((c, j))
                ==> r matches Ok(s) && stmt_denotes(s, c) && final(self).pos() == j,
        decreases old(self).toks().len() - old(self).pos(), 40nat,
    {
        if self.check_keyword(Keyword::Let) || self.check_keyword(Keyword::Var) {
            return self.parse_variable_declaration();
        }
        if self.check_keyword(Keyword::Return) {
            return self.parse_return_statement();
        }
        if self.check_keyword(Keyword::If) {
            return self.parse_if_statement();
        }
        if self.check_keyword(Keyword::While) {
            return self.parse_while_loop();
        }
        if self.check_keyword(Keyword::For) {
            return self.parse_for_loop();
        }
        if self.check_keyword(Keyword::Match) {
            return self.parse_match_statement();
        }
        if self.check_keyword(Keyword::Break) {
            return self.parse_break_statement();
        }
        if self.check_keyword(Keyword::Continue) {
            return self.parse_continue_statement();
        }
        if self.check_keyword(Keyword::Concurrent) {
            return self.parse_concurrent_block();
        }
        if self.check_keyword(Keyword::Try) {
            return self.parse_try_statement();
        }
        if self.check_keyword(Keyword::Throw) {
            return self.parse_throw_statement();
        }
        if self.looks_like_assignment() {
            return self.parse_assignment();
        }
        let start_location = self.current_location();
        let expr = self.parse_expression()?;
        self.expect(&TokenType::Semicolon, "expected ';' after expression")?;
        Ok(Statement::Expression { expr: Box::new(expr), source_location: start_location })
    }
}

} // verus!
