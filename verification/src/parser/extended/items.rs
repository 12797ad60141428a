//! Programs, modules and module items: imports, constants, functions,
//! annotations, external functions, structs and enums; error recovery.

use vstd::prelude::*;
use crate::parser::core_syntax::{core_block_at, keyword_at, stmts_denote};
use crate::parser::core_items::CoreFunction;
use crate::parser::extended::generics::{
    constraints_end, ident_names, names_end, names_from, parameter_names, where_constraints_from, where_view,
};
use crate::parser::extended::expressions::core_braced_at;
use crate::parser::v2::expressions::denotes;
use crate::parser::core_items::{
    core_extern_sig_at,
    CoreItems, core_item_at, core_items_from, core_module_at, core_program_from, item_start, items_denote, join_items,
    lemma_items_denote_join, lemma_items_denote_whole, module_denotes, program_denotes,
    lemma_join_items_assoc, lemma_join_no_items, no_items,
    const_denotes, core_const_at, core_enum_at, core_field_at, core_fields_from, core_function_at, core_import_at,
    core_param_at, core_params_at, core_params_rest, core_struct_at, core_types_list, core_variant_at,
    core_variants_from, enum_denotes, fields_denote, function_denotes, import_denotes, param_denotes,
    params_denote, struct_denotes, types_denote, variants_denote,
};
use crate::parser::v2::types::{TypeShape, shape_of, token_is, type_at};
use crate::ast::{
    CallingConvention, ConstantDeclaration, EnumVariant, ExportStatement, ExternalFunction, Function,
    FunctionMetadata, ImportStatement, Module, Parameter, PassingMode, PrimitiveType, Program, StructField,
    TraitDefinition, TypeDefinition, TypeSpecifier,
};
use crate::error::{ParserError, SourceLocation};
use crate::lexer::v2::{Keyword, Token, TokenType};
use crate::text::{str_is, string_of};
use super::{Annotation, AnnotationArgument, AnnotationValue, Parser};
use crate::parser::v2::{describe_token_type, keyword_name};
use crate::parser::v2::items::{
    constant_export, extends, function_export, is_item_start, item_head, sync_end, lemma_extends_push, lemma_extends_refl,
    lemma_extends_split,
    lemma_extends_trans, type_export, unexpected_with, item_refused, starts_item, module_first_item_refused,
    module_items_after_recovery,
};
use crate::parser::v2::types::{dotted_shape, dotted_text, ident_name};

verus! {

/// Where the parameter list of a function or trait method whose name is at
/// `i - 1` starts: at `i` itself, or after `<names>` when `<` is at `i`.
pub open spec fn after_type_params(toks: Seq<Token>, i: int) -> Option<int> {
    if token_is(toks, i, TokenType::Less) {
        match names_end(toks, i + 1, true) {
            Some(k) => if token_is(toks, k, TokenType::Greater) { Some(k + 1) } else { None },
            None => None,
        }
    } else {
        Some(i)
    }
}

/// The names of the type parameters `<names>` at `i`, or none.
pub open spec fn type_param_names(toks: Seq<Token>, i: int) -> Seq<Seq<char>> {
    if token_is(toks, i, TokenType::Less) { names_from(toks, i + 1, true) } else { seq![] }
}

/// Where what follows an optional `where` clause at `i` starts.
pub open spec fn after_where(toks: Seq<Token>, i: int) -> Option<int> {
    if keyword_at(toks, i, Keyword::Where) { constraints_end(toks, i + 1) } else { Some(i) }
}

/// The constraints of an optional `where` clause at `i`.
pub open spec fn where_at(toks: Seq<Token>, i: int) -> Seq<(Seq<char>, Seq<Seq<char>>)> {
    if keyword_at(toks, i, Keyword::Where) { where_constraints_from(toks, i + 1) } else { seq![] }
}

/// A function with optional type parameters and `where` clause,
/// `func name[<T, ...>](params) [-> type] [where constraints] { body }`, at
/// `i`: the core function, its type parameters' names, its constraints,
/// and the index after it.
pub open spec fn core_generic_function_at(toks: Seq<Token>, i: int)
    -> Option<((CoreFunction, Seq<Seq<char>>, Seq<(Seq<char>, Seq<Seq<char>>)>), int)> {
    if keyword_at(toks, i, Keyword::Func) && i + 2 < toks.len() && toks[i + 1].token_type is Identifier {
        match after_type_params(toks, i + 2) {
            Some(p) => if token_is(toks, p, TokenType::LeftParen) {
                match core_params_at(toks, p + 1, true) {
                    Some((ps, k)) => if token_is(toks, k, TokenType::RightParen) {
                        let ret = if token_is(toks, k + 1, TokenType::Arrow) {
                            type_at(toks, k + 2, true)
                        } else {
                            Some((TypeShape::Primitive(PrimitiveType::Void), k + 1))
                        };
                        match ret {
                            Some((t, m)) => match after_where(toks, m) {
                                Some(b) => match core_block_at(toks, b, true) {
                                    Some((body, e)) => Some((
                                        (
                                            CoreFunction { name: toks[i + 1].token_type->Identifier_0@, params: ps, ret: t, body },
                                            type_param_names(toks, i + 2),
                                            where_at(toks, m),
                                        ),
                                        e,
                                    )),
                                    None => None,
                                },
                                None => None,
                            },
                            None => None,
                        }
                    } else {
                        None
                    },
                    None => None,
                }
            } else {
                None
            },
            None => None,
        }
    } else {
        None
    }
}

/// A function is the core function with these type parameters (without
/// bounds or defaults) and constraints.
pub open spec fn generic_function_denotes(
    f: Function,
    c: (CoreFunction, Seq<Seq<char>>, Seq<(Seq<char>, Seq<Seq<char>>)>),
) -> bool {
    &&& f.name.name@ == c.0.name
    &&& params_denote(f.parameters@, c.0.params)
    &&& shape_of(*f.return_type) == c.0.ret
    &&& stmts_denote(f.body.statements@, c.0.body)
    &&& ident_names(parameter_names(f.generic_parameters@)) == c.1
    &&& (forall|k: int| 0 <= k < f.generic_parameters@.len() ==>
        (#[trigger] f.generic_parameters@[k]).constraints@.len() == 0 && f.generic_parameters@[k].default_type is None)
    &&& where_view(f.where_clause@) == c.2
    &&& f.metadata.is_empty()
    &&& f.intent is None
    &&& f.export_info is None
}

/// The export of a trait: a type export of its name at its location.
pub open spec fn trait_export(t: TraitDefinition) -> ExportStatement {
    ExportStatement::Type { name: t.name, source_location: t.source_location }
}

/// Keywords at which `synchronize` stops.
pub open spec fn is_statement_start(t: TokenType) -> bool {
    ||| t == TokenType::Keyword(Keyword::Func)
    ||| t == TokenType::Keyword(Keyword::Struct)
    ||| t == TokenType::Keyword(Keyword::Enum)
    ||| t == TokenType::Keyword(Keyword::Let)
    ||| t == TokenType::Keyword(Keyword::Var)
    ||| t == TokenType::Keyword(Keyword::Const)
    ||| t == TokenType::Keyword(Keyword::Import)
    ||| t == TokenType::Keyword(Keyword::Module)
    ||| t == TokenType::Keyword(Keyword::If)
    ||| t == TokenType::Keyword(Keyword::While)
    ||| t == TokenType::Keyword(Keyword::Return)
}

/// The first index of an annotation argument labeled `label`, if any.
pub open spec fn first_labeled(args: Seq<AnnotationArgument>, label: Seq<char>) -> Option<int>
    decreases args.len(),
{
    if args.len() == 0 {
        None
    } else if args[0].label matches Some(l) && l@ == label {
        Some(0)
    } else {
        match first_labeled(args.subrange(1, args.len() as int), label) {
            Some(i) => Some(i + 1),
            None => None,
        }
    }
}

/// The string value of the first argument labeled `label`, if that
/// argument exists and holds a string.
pub open spec fn labeled_string(args: Seq<AnnotationArgument>, label: Seq<char>) -> Option<Seq<char>> {
    match first_labeled(args, label) {
        Some(i) => match args[i].value {
            AnnotationValue::String(s) => Some(s@),
            _ => None,
        },
        None => None,
    }
}

/// The boolean value of the first argument labeled `label`: false when
/// there is no such argument or it does not hold a boolean.
pub open spec fn labeled_flag(args: Seq<AnnotationArgument>, label: Seq<char>) -> bool {
    match first_labeled(args, label) {
        Some(i) => match args[i].value {
            AnnotationValue::Boolean(b) => b,
            _ => false,
        },
        None => false,
    }
}

/// Where an annotation value at `j` ends, for the values whose reading is
/// stated: after a string, integer, float or boolean literal or an
/// identifier, or after a braced core expression.
pub open spec fn annotation_value_end(toks: Seq<Token>, j: int) -> Option<int> {
    if 0 <= j < toks.len() {
        let t = toks[j].token_type;
        if t is StringLiteral || t is IntegerLiteral || t is FloatLiteral || t is BoolLiteral || t is Identifier {
            Some(j + 1)
        } else if t is LeftBrace {
            match core_braced_at(toks, j) {
                Some((_, k)) => Some(k),
                None => None,
            }
        } else {
            None
        }
    } else {
        None
    }
}

/// Where an annotation argument `[label: | label =] value` at `j` ends.
pub open spec fn annotation_argument_end(toks: Seq<Token>, j: int) -> Option<int> {
    if 0 <= j && j + 1 < toks.len() && toks[j].token_type is Identifier
        && (toks[j + 1].token_type is Colon || toks[j + 1].token_type is Equal) {
        annotation_value_end(toks, j + 2)
    } else {
        annotation_value_end(toks, j)
    }
}

/// Where annotation arguments separated by commas that start at `j` end.
pub open spec fn annotation_arguments_end(toks: Seq<Token>, j: int) -> Option<int>
    decreases toks.len() - j,
{
    match annotation_argument_end(toks, j) {
        Some(k) => if j < k < toks.len() && toks[k].token_type is Comma { annotation_arguments_end(toks, k + 1) } else { Some(k) },
        None => None,
    }
}

/// Where an annotation `@name[(arguments)]` at `i` ends.
pub open spec fn annotation_end(toks: Seq<Token>, i: int) -> Option<int> {
    if 0 <= i && i + 1 < toks.len() && toks[i].token_type is At && toks[i + 1].token_type is Identifier {
        if token_is(toks, i + 2, TokenType::LeftParen) {
            if token_is(toks, i + 3, TokenType::RightParen) {
                Some(i + 4)
            } else {
                match annotation_arguments_end(toks, i + 3) {
                    Some(k) => if token_is(toks, k, TokenType::RightParen) { Some(k + 1) } else { None },
                    None => None,
                }
            }
        } else {
            Some(i + 2)
        }
    } else {
        None
    }
}

impl Parser {
    // ==================== ERROR RECOVERY ====================

    /// Skips tokens to a recovery point: always moves past the current token
    /// (unless at the end), then stops after a `;`, or before a statement or
    /// declaration keyword, an `@`, a `}`, or the end.
    pub fn synchronize(&mut self)
        requires
            old(self).wf(),
        ensures
            final(self).moved_from(*old(self)),
            !old(self).at_eof() ==> final(self).pos() > old(self).pos(),
            final(self).at_eof()
                || final(self).kind_at(final(self).pos() - 1) is Semicolon
                || is_statement_start(final(self).cur())
                || final(self).cur() is At
                || final(self).cur() is RightBrace,
    {
        self.advance();
        while !self.is_at_end()
            invariant
                self.moved_from(*old(self)),
                !old(self).at_eof() ==> self.pos() > old(self).pos(),
                self.pos() >= 1 || self.at_eof(),
            decreases self.toks().len() - self.pos(),
        {
            if matches!(self.previous().token_type, TokenType::Semicolon) {
                return;
            }
            let stop = match &self.peek().token_type {
                TokenType::Keyword(kw) => match kw {
                    Keyword::Func | Keyword::Struct | Keyword::Enum | Keyword::Let | Keyword::Var
                    | Keyword::Const | Keyword::Import | Keyword::Module | Keyword::If | Keyword::While
                    | Keyword::Return => true,
                    _ => false,
                },
                TokenType::At => true,
                TokenType::RightBrace => true,
                _ => false,
            };
            if stop {
                return;
            }
            self.advance();
        }
    }

    /// Skips to the `}` that closes the current block (the parser is inside
    /// it), stopping on that brace, or at the end.
    pub fn synchronize_to_block_end(&mut self)
        requires
            old(self).wf(),
        ensures
            final(self).moved_from(*old(self)),
            final(self).at_eof() || final(self).cur() is RightBrace,
    {
        let mut brace_depth: u128 = 1;
        while !self.is_at_end() && brace_depth > 0
            invariant
                self.moved_from(*old(self)),
                brace_depth <= self.pos() - old(self).pos() + 1,
                brace_depth == 0 ==> self.cur() is RightBrace,
            decreases self.toks().len() - self.pos(), brace_depth,
        {
            let is_open = matches!(self.peek().token_type, TokenType::LeftBrace);
            let is_close = matches!(self.peek().token_type, TokenType::RightBrace);
            if is_open {
                brace_depth = brace_depth + 1;
            } else if is_close {
                brace_depth = brace_depth - 1;
            }
            if brace_depth > 0 {
                self.advance();
            }
        }
    }

    /// Skips to the next module item: stops before `func`, `struct`,
    /// `enum`, `import`, `const` or `@`, just after a `}`, or at the end.
    pub fn synchronize_to_module_item(&mut self)
        requires
            old(self).wf(),
        ensures
            final(self).moved_from(*old(self)),
            !old(self).at_eof() && !is_item_start(old(self).cur()) ==> final(self).pos() > old(self).pos(),
            final(self).at_eof() || is_item_start(final(self).cur())
                || final(self).kind_at(final(self).pos() - 1) is RightBrace,
            final(self).pos() == sync_end(old(self).toks(), old(self).pos()),
    {
        while !self.is_at_end()
            invariant
                self.moved_from(*old(self)),
                !old(self).at_eof() && !is_item_start(old(self).cur()) && self.pos() == old(self).pos()
                    ==> !self.at_eof() && !is_item_start(self.cur()),
                sync_end(self.toks(), self.pos() as int) == sync_end(old(self).toks(), old(self).pos()),
            decreases self.toks().len() - self.pos(),
        {
            let stop = match &self.peek().token_type {
                TokenType::Keyword(kw) => match kw {
                    Keyword::Func | Keyword::Struct | Keyword::Enum | Keyword::Import | Keyword::Const => true,
                    _ => false,
                },
                TokenType::At => true,
                _ => false,
            };
            if stop {
                return;
            }
            if matches!(self.peek().token_type, TokenType::RightBrace) {
                self.advance();
                return;
            }
            self.advance();
        }
    }

    // ==================== ERROR HELPERS ====================

    /// A syntax error at the current token with an optional suggestion.
    pub fn syntax_error(&self, message: &str, suggestion: Option<&str>) -> (e: ParserError)
        requires
            self.wf(),
        ensures
            e matches ParserError::SyntaxError { message: m, location, suggestion: s }
                && m@ == message@ && location == self.toks()[self.pos()].location
                && (s is Some <==> suggestion is Some)
                && (suggestion matches Some(t) ==> s->Some_0@ == t@),
    {
        let suggestion = match suggestion {
            Some(s) => Some(String::from_str(s)),
            None => None,
        };
        ParserError::SyntaxError {
            message: String::from_str(message),
            location: self.current_location(),
            suggestion,
        }
    }

    /// The error for a missing `;`.
    pub fn missing_semicolon_error(&self) -> (e: ParserError)
        requires
            self.wf(),
        ensures
            e matches ParserError::SyntaxError { message, suggestion, .. }
                && message@ == "Missing semicolon"@
                && suggestion->Some_0@ == "Add ';' at the end of the statement"@,
    {
        self.syntax_error("Missing semicolon", Some("Add ';' at the end of the statement"))
    }

    /// The error for a missing type annotation in `context`.
    pub fn missing_type_error(&self, context: &str) -> (e: ParserError)
        requires
            self.wf(),
        ensures
            e matches ParserError::SyntaxError { message, .. }
                && message@ == "Missing type annotation in "@ + context@,
    {
        let mut message = String::from_str("Missing type annotation in ");
        message.append(context);
        ParserError::SyntaxError {
            message,
            location: self.current_location(),
            suggestion: Some(String::from_str("Add a type annotation like ': Int' or ': String'")),
        }
    }

    /// An unexpected-token error for `context`, with a hint chosen by the
    /// kind of the current token.
    pub fn unexpected_token_error(&self, context: &str) -> (e: ParserError)
        requires
            self.wf(),
        ensures
            e matches ParserError::SyntaxError { location, suggestion, .. }
                && location == self.toks()[self.pos()].location
                && (suggestion is Some <==> (self.cur() is Semicolon || self.cur() is RightBrace
                    || self.cur() is RightParen || self.cur() is Keyword || self.cur() is Eof)),
    {
        let (mut message, suggestion) = match &self.peek().token_type {
            TokenType::Semicolon => (
                String::from_str("Unexpected semicolon in "),
                Some(String::from_str("Remove the extra semicolon or check your syntax")),
            ),
            TokenType::RightBrace => (
                String::from_str("Unexpected '}' in "),
                Some(String::from_str("Check for missing statements or unbalanced braces")),
            ),
            TokenType::RightParen => (
                String::from_str("Unexpected ')' in "),
                Some(String::from_str("Check for missing expressions or unbalanced parentheses")),
            ),
            TokenType::Keyword(kw) => {
                let mut m = String::from_str("Unexpected keyword '");
                let name = keyword_name(*kw);
                m.append(name.as_str());
                m.append("' in ");
                (m, Some(String::from_str("Keywords cannot be used here. Did you forget a semicolon?")))
            },
            TokenType::Eof => (
                String::from_str("Unexpected end of file in "),
                Some(String::from_str("Check for unclosed braces or missing code")),
            ),
            other => {
                let mut m = String::from_str("Unexpected token ");
                let d = describe_token_type(other);
                m.append(d.as_str());
                m.append(" in ");
                (m, None)
            },
        };
        message.append(context);
        ParserError::SyntaxError { message, location: self.current_location(), suggestion }
    }

    /// A description of the expression expected before the current token.
    pub fn expected_expression_hint(&self) -> (s: &'static str)
        requires
            self.wf(),
    {
        match &self.peek().token_type {
            TokenType::RightParen => "expression before ')'",
            TokenType::RightBracket => "expression before ']'",
            TokenType::RightBrace => "expression before '}'",
            TokenType::Semicolon => "expression before ';'",
            TokenType::Comma => "expression before ','",
            _ => "expression",
        }
    }

    // ==================== PROGRAMS AND MODULES ====================

    /// Parses modules until the end of the stream.
    #[verifier::spinoff_prover]
    #[verifier::rlimit(100)]
    pub fn parse_program(&mut self) -> (r: Result<Program, ParserError>)
        requires
            old(self).wf(),
        ensures
            final(self).wf(),
            final(self).toks() == old(self).toks(),
            final(self).pos() >= old(self).pos(),
            extends(final(self).errs(), old(self).errs()),
            r is Ok ==> final(self).at_eof() && final(self).errs() == old(self).errs(),
            r matches Ok(p) ==> (p.modules@.len() > 0 ==> old(self).errs().len() == 0),
            r matches Ok(p) ==> (p.modules@.len() == 0 <==> old(self).at_eof()),
            r matches Ok(p) ==> p.source_location == old(self).toks()[old(self).pos()].location,
            (if old(self).errs().len() == 0 { core_program_from(old(self).toks(), old(self).pos(), true) } else { None })
                matches Some((ms, j)) ==> r matches Ok(p) && program_denotes(p, ms) && final(self).pos() == j,
    {
        let start_location = self.current_location();
        proof {
            lemma_extends_refl(self.errs());
        }
        let mut modules: Vec<Module> = Vec::new();
        let ghost toks = old(self).toks();
        let ghost p0 = old(self).pos();
        let ghost mut acc: Seq<(Seq<char>, CoreItems)> = seq![];
        proof {
            match core_program_from(toks, p0, true) {
                Some((rest, e)) => {
                    assert(acc + rest =~= rest);
                },
                None => {},
            }
        }
        while !self.is_at_end()
            invariant
                self.wf(),
                self.toks() == old(self).toks(),
                self.pos() >= old(self).pos(),
                self.errs() == old(self).errs(),
                modules@.len() > 0 ==> old(self).errs().len() == 0 && self.pos() > old(self).pos(),
                modules@.len() == 0 ==> self.pos() == old(self).pos(),
                toks == self.toks(),
                p0 == old(self).pos(),
                acc + Seq::<(Seq<char>, CoreItems)>::empty() == acc,
                core_program_from(toks, p0, true) is Some && old(self).errs().len() == 0 ==> {
                    &&& core_program_from(toks, p0, true) == match core_program_from(toks, self.pos(), true) {
                        Some((rest, e)) => Some((acc + rest, e)),
                        None => None,
                    }
                    &&& modules@.len() == acc.len()
                    &&& forall|k: int| 0 <= k < acc.len() ==> module_denotes(#[trigger] modules@[k], acc[k].0, acc[k].1)
                },
            decreases self.toks().len() - self.pos(),
        {
            let ghost p = self.pos();
            let ghost mc = core_module_at(toks, p, true)->Some_0.0;
            let module = self.parse_module()?;
            let ghost before = modules@;
            modules.push(module);
            proof {
                if core_program_from(toks, p0, true) is Some && old(self).errs().len() == 0 {
                    assert(modules@ == before.push(module));
                    assert forall|k: int| 0 <= k < acc.push(mc).len() implies module_denotes(
                        #[trigger] modules@[k],
                        acc.push(mc)[k].0,
                        acc.push(mc)[k].1,
                    ) by {
                        if k < before.len() {
                            assert(modules@[k] == before[k]);
                        }
                    }
                    match core_program_from(toks, self.pos(), true) {
                        Some((rest, e)) => {
                            assert(acc + (seq![mc] + rest) =~= acc.push(mc) + rest);
                        },
                        None => {},
                    }
                    acc = acc.push(mc);
                }
            }
        }
        Ok(Program { modules, source_location: start_location })
    }

    /// Parses the items of a module up to its end (`}` where `inline`),
    /// recording the error of each bad item and going on after it. When
    /// the first item is bad, its error is recorded and the items from
    /// where recovery stops are read.
    #[verifier::spinoff_prover]
    #[verifier::rlimit(100)]
    fn parse_module_items(
        &mut self,
        inline: bool,
        imports: &mut Vec<ImportStatement>,
        function_definitions: &mut Vec<Function>,
        external_functions: &mut Vec<ExternalFunction>,
        type_definitions: &mut Vec<TypeDefinition>,
        trait_definitions: &mut Vec<TraitDefinition>,
        constant_declarations: &mut Vec<ConstantDeclaration>,
        exports: &mut Vec<ExportStatement>,
    )
        requires
            old(self).wf(),
        ensures
            final(self).wf(),
            final(self).toks() == old(self).toks(),
            final(self).pos() >= old(self).pos(),
            extends(final(self).errs(), old(self).errs()),
            inline ==> final(self).at_eof() || final(self).cur() is RightBrace,
            !inline ==> final(self).at_eof(),
            (!inline || !(old(self).cur() is RightBrace)) && !old(self).at_eof()
                && item_refused(old(self).toks(), old(self).pos(), true)
                ==> final(self).errs().len() > old(self).errs().len(),
            extends(final(imports)@, old(imports)@),
            extends(final(function_definitions)@, old(function_definitions)@),
            extends(final(external_functions)@, old(external_functions)@),
            extends(final(type_definitions)@, old(type_definitions)@),
            extends(final(trait_definitions)@, old(trait_definitions)@),
            extends(final(constant_declarations)@, old(constant_declarations)@),
            extends(final(exports)@, old(exports)@),
            core_items_from(old(self).toks(), old(self).pos(), inline, true) matches Some((it, j)) ==> final(self).pos() == j
                && final(self).errs() == old(self).errs() && final(external_functions)@ == old(external_functions)@ && final(trait_definitions)@ == old(trait_definitions)@
                && items_denote(
                final(imports)@.subrange(old(imports)@.len() as int, final(imports)@.len() as int),
                final(function_definitions)@.subrange(old(function_definitions)@.len() as int, final(function_definitions)@.len() as int),
                final(type_definitions)@.subrange(old(type_definitions)@.len() as int, final(type_definitions)@.len() as int),
                final(constant_declarations)@.subrange(old(constant_declarations)@.len() as int, final(constant_declarations)@.len() as int),
                final(exports)@.subrange(old(exports)@.len() as int, final(exports)@.len() as int),
                it,
            ),
            (!inline || !(old(self).cur() is RightBrace)) && !old(self).at_eof()
                && !is_item_start(item_head(old(self).toks(), old(self).pos()))
            && item_head(old(self).toks(), old(self).pos()) != TokenType::Keyword(Keyword::Trait)
                ==> (core_items_from(old(self).toks(), sync_end(old(self).toks(), old(self).pos()), inline, true)
                matches Some((it, j)) ==> final(self).pos() == j
                && final(self).errs().len() == old(self).errs().len() + 1
                && unexpected_with(final(self).errs()[old(self).errs().len() as int], "import, func, struct, enum, const, trait, or annotation"@)
                && final(external_functions)@ == old(external_functions)@
                && items_denote(
                final(imports)@.subrange(old(imports)@.len() as int, final(imports)@.len() as int),
                final(function_definitions)@.subrange(old(function_definitions)@.len() as int, final(function_definitions)@.len() as int),
                final(type_definitions)@.subrange(old(type_definitions)@.len() as int, final(type_definitions)@.len() as int),
                final(constant_declarations)@.subrange(old(constant_declarations)@.len() as int, final(constant_declarations)@.len() as int),
                final(exports)@.subrange(old(exports)@.len() as int, final(exports)@.len() as int),
                it,
            )),
    {
        proof {
            lemma_extends_refl(old(self).errs());
            lemma_extends_refl(old(imports)@);
            lemma_extends_refl(old(function_definitions)@);
            lemma_extends_refl(old(external_functions)@);
            lemma_extends_refl(old(type_definitions)@);
            lemma_extends_refl(old(trait_definitions)@);
            lemma_extends_refl(old(constant_declarations)@);
            lemma_extends_refl(old(exports)@);
        }
        if (!inline || !self.check(&TokenType::RightBrace)) && !self.is_at_end() && !self.starts_module_item() {
            let first = self.parse_module_item(
                imports,
                function_definitions,
                external_functions,
                type_definitions,
                trait_definitions,
                constant_declarations,
                exports,
            );
            if let Err(e) = first {
                self.add_error(e);
                proof {
                    lemma_extends_push(old(self).errs(), old(self).errs(), e);
                }
                self.synchronize_to_module_item();
            }
        }
        let ghost mid = *self;
        let ghost imports_mid = imports@;
        let ghost functions_mid = function_definitions@;
        let ghost externals_mid = external_functions@;
        let ghost types_mid = type_definitions@;
        let ghost traits_mid = trait_definitions@;
        let ghost constants_mid = constant_declarations@;
        let ghost exports_mid = exports@;
        self.parse_module_items_rest(
            inline,
            imports,
            function_definitions,
            external_functions,
            type_definitions,
            trait_definitions,
            constant_declarations,
            exports,
        );
        proof {
            lemma_extends_trans(self.errs(), mid.errs(), old(self).errs());
            lemma_extends_trans(imports@, imports_mid, old(imports)@);
            lemma_extends_trans(function_definitions@, functions_mid, old(function_definitions)@);
            lemma_extends_trans(external_functions@, externals_mid, old(external_functions)@);
            lemma_extends_trans(type_definitions@, types_mid, old(type_definitions)@);
            lemma_extends_trans(trait_definitions@, traits_mid, old(trait_definitions)@);
            lemma_extends_trans(constant_declarations@, constants_mid, old(constant_declarations)@);
            lemma_extends_trans(exports@, exports_mid, old(exports)@);
        }
    }

    /// Whether the current token (after an optional `pub`) starts a module
    /// item.
    fn starts_module_item(&self) -> (b: bool)
        requires
            self.wf(),
        ensures
            b == (is_item_start(item_head(self.toks(), self.pos())) || item_head(self.toks(), self.pos()) == TokenType::Keyword(Keyword::Trait)),
    {
        let p = self.current_position();
        let at = if self.check_keyword(Keyword::Pub) && self.token_count() - p > 1 {
            p + 1
        } else {
            p
        };
        match self.token_kind(at) {
            TokenType::Keyword(k) => match k {
                Keyword::Func | Keyword::Struct | Keyword::Enum | Keyword::Import | Keyword::Const => true,
                Keyword::Trait => true,
                _ => false,
            },
            TokenType::At => true,
            _ => false,
        }
    }

    /// Parses the items of a module until `}` (inline module) or the end
    /// (file-scoped module), recording each failed item's error and skipping
    /// to the next item.
    #[verifier::spinoff_prover]
    #[verifier::rlimit(100)]
    fn parse_module_items_rest(
        &mut self,
        inline: bool,
        imports: &mut Vec<ImportStatement>,
        function_definitions: &mut Vec<Function>,
        external_functions: &mut Vec<ExternalFunction>,
        type_definitions: &mut Vec<TypeDefinition>,
        trait_definitions: &mut Vec<TraitDefinition>,
        constant_declarations: &mut Vec<ConstantDeclaration>,
        exports: &mut Vec<ExportStatement>,
    )
        requires
            old(self).wf(),
        ensures
            final(self).wf(),
            final(self).toks() == old(self).toks(),
            final(self).pos() >= old(self).pos(),
            extends(final(self).errs(), old(self).errs()),
            inline ==> final(self).at_eof() || final(self).cur() is RightBrace,
            !inline ==> final(self).at_eof(),
            (!inline || !(old(self).cur() is RightBrace)) && !old(self).at_eof()
                && item_refused(old(self).toks(), old(self).pos(), true)
                ==> final(self).errs().len() > old(self).errs().len(),
            extends(final(imports)@, old(imports)@),
            extends(final(function_definitions)@, old(function_definitions)@),
            extends(final(external_functions)@, old(external_functions)@),
            extends(final(type_definitions)@, old(type_definitions)@),
            extends(final(trait_definitions)@, old(trait_definitions)@),
            extends(final(constant_declarations)@, old(constant_declarations)@),
            extends(final(exports)@, old(exports)@),
            core_items_from(old(self).toks(), old(self).pos(), inline, true) matches Some((it, j)) ==> final(self).pos() == j
                && final(self).errs() == old(self).errs() && final(external_functions)@ == old(external_functions)@ && final(trait_definitions)@ == old(trait_definitions)@
                && items_denote(
                final(imports)@.subrange(old(imports)@.len() as int, final(imports)@.len() as int),
                final(function_definitions)@.subrange(old(function_definitions)@.len() as int, final(function_definitions)@.len() as int),
                final(type_definitions)@.subrange(old(type_definitions)@.len() as int, final(type_definitions)@.len() as int),
                final(constant_declarations)@.subrange(old(constant_declarations)@.len() as int, final(constant_declarations)@.len() as int),
                final(exports)@.subrange(old(exports)@.len() as int, final(exports)@.len() as int),
                it,
            ),
    {
        let ghost toks = old(self).toks();
        let ghost p0 = old(self).pos();
        let ghost first_bad = (!inline || !(old(self).cur() is RightBrace)) && !old(self).at_eof()
            && item_refused(old(self).toks(), old(self).pos(), true);
        let ghost mut acc: CoreItems = no_items();
        proof {
            lemma_extends_refl(self.errs());
            lemma_extends_refl(imports@);
            lemma_extends_refl(function_definitions@);
            lemma_extends_refl(external_functions@);
            lemma_extends_refl(type_definitions@);
            lemma_extends_refl(trait_definitions@);
            lemma_extends_refl(constant_declarations@);
            lemma_extends_refl(exports@);
            lemma_join_no_items(acc);
            match core_items_from(toks, p0, inline, true) {
                Some((rest, m)) => {
                    lemma_join_no_items(rest);
                },
                None => {},
            }
            assert(items_denote(
                imports@.subrange(old(imports)@.len() as int, imports@.len() as int),
                function_definitions@.subrange(old(function_definitions)@.len() as int, function_definitions@.len() as int),
                type_definitions@.subrange(old(type_definitions)@.len() as int, type_definitions@.len() as int),
                constant_declarations@.subrange(old(constant_declarations)@.len() as int, constant_declarations@.len() as int),
                exports@.subrange(old(exports)@.len() as int, exports@.len() as int),
                acc,
            ));
        }
        while (!inline || !self.check(&TokenType::RightBrace)) && !self.is_at_end()
            invariant
                self.wf(),
                self.toks() == old(self).toks(),
                self.pos() >= old(self).pos(),
                extends(self.errs(), old(self).errs()),
                extends(imports@, old(imports)@),
                extends(function_definitions@, old(function_definitions)@),
                extends(external_functions@, old(external_functions)@),
                extends(type_definitions@, old(type_definitions)@),
                extends(trait_definitions@, old(trait_definitions)@),
                extends(constant_declarations@, old(constant_declarations)@),
                extends(exports@, old(exports)@),
                toks == self.toks(),
                p0 == old(self).pos(),
                join_items(acc, no_items()) == acc,
                first_bad == ((!inline || !(old(self).cur() is RightBrace)) && !old(self).at_eof()
                    && item_refused(old(self).toks(), old(self).pos(), true)),
                first_bad && self.pos() > p0 ==> self.errs().len() > old(self).errs().len(),
                core_items_from(toks, p0, inline, true) is Some ==> {
                    &&& core_items_from(toks, p0, inline, true) == match core_items_from(toks, self.pos(), inline, true) {
                        Some((rest, m)) => Some((join_items(acc, rest), m)),
                        None => None,
                    }
                    &&& self.errs() == old(self).errs()
                    &&& external_functions@ == old(external_functions)@
                    &&& trait_definitions@ == old(trait_definitions)@
                    &&& items_denote(
                        imports@.subrange(old(imports)@.len() as int, imports@.len() as int),
                        function_definitions@.subrange(old(function_definitions)@.len() as int, function_definitions@.len() as int),
                        type_definitions@.subrange(old(type_definitions)@.len() as int, type_definitions@.len() as int),
                        constant_declarations@.subrange(old(constant_declarations)@.len() as int, constant_declarations@.len() as int),
                        exports@.subrange(old(exports)@.len() as int, exports@.len() as int),
                        acc,
                    )
                },
            decreases self.toks().len() - self.pos(),
        {
            let ghost before = *self;
            let ghost imports_before = imports@;
            let ghost function_definitions_before = function_definitions@;
            let ghost external_functions_before = external_functions@;
            let ghost type_definitions_before = type_definitions@;
            let ghost trait_definitions_before = trait_definitions@;
            let ghost constant_declarations_before = constant_declarations@;
            let ghost exports_before = exports@;
            let ghost it = core_item_at(toks, self.pos(), true)->Some_0.0;
            let result = self.parse_module_item(
                imports,
                function_definitions,
                external_functions,
                type_definitions,
                trait_definitions,
                constant_declarations,
                exports,
            );
            match result {
                Ok(()) => {},
                Err(e) => {
                    self.add_error(e);
                    proof {
                        lemma_extends_push(before.errs(), old(self).errs(), e);
                    }
                    self.synchronize_to_module_item();
                    assert(self.pos() > before.pos());
                },
            }
            proof {
                lemma_extends_trans(imports@, imports_before, old(imports)@);
                lemma_extends_trans(function_definitions@, function_definitions_before, old(function_definitions)@);
                lemma_extends_trans(external_functions@, external_functions_before, old(external_functions)@);
                lemma_extends_trans(type_definitions@, type_definitions_before, old(type_definitions)@);
                lemma_extends_trans(trait_definitions@, trait_definitions_before, old(trait_definitions)@);
                lemma_extends_trans(constant_declarations@, constant_declarations_before, old(constant_declarations)@);
                lemma_extends_trans(exports@, exports_before, old(exports)@);
                if core_items_from(toks, p0, inline, true) is Some {
                    lemma_extends_split(imports@, imports_before, old(imports)@);
                    lemma_extends_split(function_definitions@, function_definitions_before, old(function_definitions)@);
                    lemma_extends_split(type_definitions@, type_definitions_before, old(type_definitions)@);
                    lemma_extends_split(constant_declarations@, constant_declarations_before, old(constant_declarations)@);
                    lemma_extends_split(exports@, exports_before, old(exports)@);
                    lemma_items_denote_join(
                        imports_before.subrange(old(imports)@.len() as int, imports_before.len() as int),
                        function_definitions_before.subrange(old(function_definitions)@.len() as int, function_definitions_before.len() as int),
                        type_definitions_before.subrange(old(type_definitions)@.len() as int, type_definitions_before.len() as int),
                        constant_declarations_before.subrange(old(constant_declarations)@.len() as int, constant_declarations_before.len() as int),
                        exports_before.subrange(old(exports)@.len() as int, exports_before.len() as int),
                        acc,
                        imports@.subrange(imports_before.len() as int, imports@.len() as int),
                        function_definitions@.subrange(function_definitions_before.len() as int, function_definitions@.len() as int),
                        type_definitions@.subrange(type_definitions_before.len() as int, type_definitions@.len() as int),
                        constant_declarations@.subrange(constant_declarations_before.len() as int, constant_declarations@.len() as int),
                        exports@.subrange(exports_before.len() as int, exports@.len() as int),
                        it,
                    );
                    match core_items_from(toks, self.pos(), inline, true) {
                        Some((rest, m)) => {
                            lemma_join_items_assoc(acc, it, rest);
                        },
                        None => {},
                    }
                    acc = join_items(acc, it);
                    lemma_join_no_items(acc);
                }
            }
        }
    }

    /// Parses a module with error recovery and hands out every error found.
    /// Without `module` and a name the module is absent and the one error
    /// says why; otherwise the module is returned with all recorded errors
    /// (the earlier ones first), and the parser's error list is emptied.
    #[verifier::spinoff_prover]
    #[verifier::rlimit(100)]
    pub fn parse_module_with_recovery(&mut self) -> (r: (Option<Module>, Vec<ParserError>))
        requires
            old(self).wf(),
        ensures
            final(self).wf(),
            final(self).toks() == old(self).toks(),
            final(self).pos() >= old(self).pos(),
            r.0 is None ==> r.1@.len() == 1 && final(self).errs() == old(self).errs(),
            r.0 is None <==> !(old(self).cur() == TokenType::Keyword(Keyword::Module)
                && old(self).kind_at(old(self).pos() + 1) is Identifier),
            r.0 is Some ==> final(self).errs().len() == 0 && extends(r.1@, old(self).errs()),
            r.0 matches Some(m) ==> m.name.name == ident_name(old(self).kind_at(old(self).pos() + 1)),
            module_first_item_refused(old(self).toks(), old(self).pos(), true)
                ==> r.0 is Some && r.1@.len() > old(self).errs().len(),
            module_items_after_recovery(old(self).toks(), old(self).pos(), true) matches Some((it, j))
                ==> r.1@.len() == old(self).errs().len() + (if old(self).kind_at(old(self).pos() + 2) is LeftBrace
                    && !token_is(old(self).toks(), j, TokenType::RightBrace) { 2int } else { 1int })
                && unexpected_with(r.1@[old(self).errs().len() as int], "import, func, struct, enum, const, trait, or annotation"@),
            module_items_after_recovery(old(self).toks(), old(self).pos(), true) matches Some((it, j))
                ==> r.0 matches Some(x) && x.external_functions@.len() == 0
                && items_denote(x.imports@, x.function_definitions@, x.type_definitions@,
                    x.constant_declarations@, x.exports@, it),
            core_module_at(old(self).toks(), old(self).pos(), true) matches Some((m, j))
                ==> r.0 matches Some(x) && module_denotes(x, m.0, m.1) && r.1@ == old(self).errs() && final(self).pos() == j,
    {
        let start_location = self.current_location();
        if let Err(e) = self.expect_keyword(Keyword::Module, "expected 'module'") {
            let mut errors: Vec<ParserError> = Vec::new();
            errors.push(e);
            return (None, errors);
        }
        let name = match self.parse_identifier() {
            Ok(n) => n,
            Err(e) => {
                let mut errors: Vec<ParserError> = Vec::new();
                errors.push(e);
                return (None, errors);
            },
        };

        let mut imports: Vec<ImportStatement> = Vec::new();
        let mut function_definitions: Vec<Function> = Vec::new();
        let mut external_functions: Vec<ExternalFunction> = Vec::new();
        let mut type_definitions: Vec<TypeDefinition> = Vec::new();
        let mut trait_definitions: Vec<TraitDefinition> = Vec::new();
        let mut constant_declarations: Vec<ConstantDeclaration> = Vec::new();
        let mut exports: Vec<ExportStatement> = Vec::new();

        if self.check(&TokenType::Semicolon) {
            self.advance();
            self.parse_module_items(
                false,
                &mut imports,
                &mut function_definitions,
                &mut external_functions,
                &mut type_definitions,
                &mut trait_definitions,
                &mut constant_declarations,
                &mut exports,
            );
        } else if self.check(&TokenType::LeftBrace) {
            self.advance();
            self.parse_module_items(
                true,
                &mut imports,
                &mut function_definitions,
                &mut external_functions,
                &mut type_definitions,
                &mut trait_definitions,
                &mut constant_declarations,
                &mut exports,
            );
            let ghost mid = self.errs();
            if let Err(e) = self.expect(&TokenType::RightBrace, "expected '}' to close module") {
                self.add_error(e);
                proof {
                    lemma_extends_push(mid, old(self).errs(), e);
                }
            }
        } else {
            let e = self.unexpected("';' or '{' after module name");
            proof {
                lemma_extends_refl(self.errs());
                lemma_extends_push(self.errs(), old(self).errs(), e);
            }
            self.add_error(e);
        }

        proof {
            if core_module_at(old(self).toks(), old(self).pos(), true) is Some {
                lemma_items_denote_whole(imports@, function_definitions@, type_definitions@,
                    constant_declarations@, exports@, core_module_at(old(self).toks(), old(self).pos(), true)->Some_0.0.1);
            }
            if module_items_after_recovery(old(self).toks(), old(self).pos(), true) is Some {
                lemma_items_denote_whole(imports@, function_definitions@, type_definitions@,
                    constant_declarations@, exports@, module_items_after_recovery(old(self).toks(), old(self).pos(), true)->Some_0.0);
            }
        }
        let module = Module {
            name,
            intent: None,
            imports,
            exports,
            type_definitions,
            trait_definitions,
            constant_declarations,
            function_definitions,
            external_functions,
            source_location: start_location,
        };
        let errors = self.take_errors();
        (Some(module), errors)
    }

    /// Parses a module, `module name;` followed by its items up to the end
    /// of the stream, or `module name { items }`. Item errors are recorded
    /// and parsing goes on with the next item; if any error is recorded at
    /// the end (including ones recorded before the call), the first one is
    /// returned.
    #[verifier::spinoff_prover]
    #[verifier::rlimit(100)]
    pub fn parse_module(&mut self) -> (r: Result<Module, ParserError>)
        requires
            old(self).wf(),
        ensures
            final(self).wf(),
            final(self).toks() == old(self).toks(),
            final(self).pos() >= old(self).pos(),
            extends(final(self).errs(), old(self).errs()),
            r is Ok ==> final(self).pos() > old(self).pos(),
            r is Ok ==> final(self).errs() == old(self).errs() && old(self).errs().len() == 0,
            r is Ok ==> old(self).cur() == TokenType::Keyword(Keyword::Module),
            r is Ok ==> old(self).kind_at(old(self).pos() + 1) is Identifier
                && (old(self).kind_at(old(self).pos() + 2) is Semicolon || old(self).kind_at(old(self).pos() + 2) is LeftBrace),
            r is Ok && old(self).kind_at(old(self).pos() + 2) is LeftBrace ==> final(self).kind_at(final(self).pos() - 1) is RightBrace,
            r matches Ok(m) ==> m.name.name == ident_name(old(self).kind_at(old(self).pos() + 1)),
            r matches Ok(m) ==> m.source_location == old(self).toks()[old(self).pos()].location,
            final(self).errs().len() > 0 && (final(self).at_eof() || final(self).kind_at(final(self).pos() - 1) is RightBrace)
                ==> r is Err,
            module_first_item_refused(old(self).toks(), old(self).pos(), true) ==> r is Err,
            (if old(self).errs().len() == 0 { core_module_at(old(self).toks(), old(self).pos(), true) } else { None })
                matches Some((m, j)) ==> r matches Ok(x) && module_denotes(x, m.0, m.1) && final(self).pos() == j,
    {
        let start_location = self.current_location();
        proof {
            lemma_extends_refl(self.errs());
        }
        self.expect_keyword(Keyword::Module, "expected 'module'")?;
        let name = self.parse_identifier()?;

        let mut imports: Vec<ImportStatement> = Vec::new();
        let mut function_definitions: Vec<Function> = Vec::new();
        let mut external_functions: Vec<ExternalFunction> = Vec::new();
        let mut type_definitions: Vec<TypeDefinition> = Vec::new();
        let mut trait_definitions: Vec<TraitDefinition> = Vec::new();
        let mut constant_declarations: Vec<ConstantDeclaration> = Vec::new();
        let mut exports: Vec<ExportStatement> = Vec::new();

        if self.check(&TokenType::Semicolon) {
            self.advance();
            self.parse_module_items(
                false,
                &mut imports,
                &mut function_definitions,
                &mut external_functions,
                &mut type_definitions,
                &mut trait_definitions,
                &mut constant_declarations,
                &mut exports,
            );
        } else if self.check(&TokenType::LeftBrace) {
            self.advance();
            self.parse_module_items(
                true,
                &mut imports,
                &mut function_definitions,
                &mut external_functions,
                &mut type_definitions,
                &mut trait_definitions,
                &mut constant_declarations,
                &mut exports,
            );
            self.expect(&TokenType::RightBrace, "expected '}' to close module")?;
        } else {
            return Err(self.unexpected("';' or '{' after module name"));
        }

        proof {
            if core_module_at(old(self).toks(), old(self).pos(), true) is Some {
                lemma_items_denote_whole(imports@, function_definitions@, type_definitions@,
                    constant_declarations@, exports@, core_module_at(old(self).toks(), old(self).pos(), true)->Some_0.0.1);
            }
        }
        let recorded = self.errors();
        if recorded.len() > 0 {
            return Err(recorded[0].duplicate());
        }
        Ok(Module {
            name,
            intent: None,
            imports,
            exports,
            type_definitions,
            trait_definitions,
            constant_declarations,
            function_definitions,
            external_functions,
            source_location: start_location,
        })
    }
    /// Parses one module item: annotations, then an optional `pub`, then an
    /// import, a function (an `@extern` annotation makes it an external
    /// function; the other annotations are applied to it), a struct, an
    /// enum, a constant or a trait, appended to its list. Public functions,
    /// structs, enums, constants and traits are also exported.
    #[verifier::spinoff_prover]
    #[verifier::rlimit(100)]
    pub fn parse_module_item(
        &mut self,
        imports: &mut Vec<ImportStatement>,
        function_definitions: &mut Vec<Function>,
        external_functions: &mut Vec<ExternalFunction>,
        type_definitions: &mut Vec<TypeDefinition>,
        trait_definitions: &mut Vec<TraitDefinition>,
        constant_declarations: &mut Vec<ConstantDeclaration>,
        exports: &mut Vec<ExportStatement>,
    ) -> (r: Result<(), ParserError>)
        requires
            old(self).wf(),
        ensures
            final(self).moved_from(*old(self)),
            r is Ok ==> final(self).pos() > old(self).pos(),
            !starts_item(item_head(old(self).toks(), old(self).pos()), true) ==> final(self).pos()
                == item_start(old(self).toks(), old(self).pos()),
            item_refused(old(self).toks(), old(self).pos(), true) ==> r is Err,
            !is_item_start(item_head(old(self).toks(), old(self).pos()))
                && item_head(old(self).toks(), old(self).pos()) != TokenType::Keyword(Keyword::Trait) ==> (r matches Err(e)
                && e matches ParserError::UnexpectedToken { expected, .. }
                && expected@ == "import, func, struct, enum, const, trait, or annotation"@),
            r is Err && final(self).pos() == old(self).pos() ==> !is_item_start(old(self).cur())
                && old(self).cur() != TokenType::Keyword(Keyword::Pub),
            extends(final(imports)@, old(imports)@),
            extends(final(function_definitions)@, old(function_definitions)@),
            extends(final(external_functions)@, old(external_functions)@),
            extends(final(type_definitions)@, old(type_definitions)@),
            extends(final(trait_definitions)@, old(trait_definitions)@),
            extends(final(constant_declarations)@, old(constant_declarations)@),
            extends(final(exports)@, old(exports)@),
            r is Ok ==> final(imports)@.len() + final(function_definitions)@.len() + final(external_functions)@.len()
                + final(type_definitions)@.len() + final(trait_definitions)@.len() + final(constant_declarations)@.len()
                == old(imports)@.len() + old(function_definitions)@.len() + old(external_functions)@.len()
                + old(type_definitions)@.len() + old(trait_definitions)@.len() + old(constant_declarations)@.len() + 1,
            r is Err ==> final(imports)@ == old(imports)@ && final(function_definitions)@ == old(function_definitions)@
                && final(external_functions)@ == old(external_functions)@ && final(type_definitions)@ == old(type_definitions)@
                && final(trait_definitions)@ == old(trait_definitions)@
                && final(constant_declarations)@ == old(constant_declarations)@ && final(exports)@ == old(exports)@,
            final(exports)@.len() <= old(exports)@.len() + 1,
            !(old(self).cur() is At) && old(self).cur() != TokenType::Keyword(Keyword::Pub)
                ==> final(exports)@ == old(exports)@,
            r is Ok && item_head(old(self).toks(), old(self).pos()) == TokenType::Keyword(Keyword::Import)
                ==> final(imports)@.len() == old(imports)@.len() + 1,
            r is Ok && item_head(old(self).toks(), old(self).pos()) == TokenType::Keyword(Keyword::Func)
                && !(old(self).cur() is At) ==> final(function_definitions)@.len() == old(function_definitions)@.len() + 1,
            r is Ok && (item_head(old(self).toks(), old(self).pos()) == TokenType::Keyword(Keyword::Struct)
                || item_head(old(self).toks(), old(self).pos()) == TokenType::Keyword(Keyword::Enum))
                ==> final(type_definitions)@.len() == old(type_definitions)@.len() + 1,
            r is Ok && item_head(old(self).toks(), old(self).pos()) == TokenType::Keyword(Keyword::Trait)
                ==> final(trait_definitions)@.len() == old(trait_definitions)@.len() + 1,
            r is Ok && item_head(old(self).toks(), old(self).pos()) == TokenType::Keyword(Keyword::Const)
                ==> final(constant_declarations)@.len() == old(constant_declarations)@.len() + 1,
            r is Ok && old(self).cur() == TokenType::Keyword(Keyword::Pub)
                && final(function_definitions)@.len() > old(function_definitions)@.len()
                ==> final(exports)@ == old(exports)@.push(function_export(final(function_definitions)@.last())),
            r is Ok && old(self).cur() == TokenType::Keyword(Keyword::Pub)
                && final(type_definitions)@.len() > old(type_definitions)@.len()
                ==> final(exports)@ == old(exports)@.push(type_export(final(type_definitions)@.last())),
            r is Ok && old(self).cur() == TokenType::Keyword(Keyword::Pub)
                && final(constant_declarations)@.len() > old(constant_declarations)@.len()
                ==> final(exports)@ == old(exports)@.push(constant_export(final(constant_declarations)@.last())),
            r is Ok && old(self).cur() == TokenType::Keyword(Keyword::Pub)
                && final(trait_definitions)@.len() > old(trait_definitions)@.len()
                ==> final(exports)@ == old(exports)@.push(trait_export(final(trait_definitions)@.last())),
            r is Ok && (final(imports)@.len() > old(imports)@.len()
                || final(external_functions)@.len() > old(external_functions)@.len())
                ==> final(exports)@ == old(exports)@,
            core_function_at(old(self).toks(), item_start(old(self).toks(), old(self).pos()), true) matches Some((c, j))
                ==> r is Ok && final(self).pos() == j && function_denotes(final(function_definitions)@.last(), c),
            core_import_at(old(self).toks(), item_start(old(self).toks(), old(self).pos()), true) matches Some((c, j))
                ==> r is Ok && final(self).pos() == j && import_denotes(final(imports)@.last(), c),
            core_const_at(old(self).toks(), item_start(old(self).toks(), old(self).pos()), true) matches Some((c, j))
                ==> r is Ok && final(self).pos() == j && const_denotes(final(constant_declarations)@.last(), c),
            core_struct_at(old(self).toks(), item_start(old(self).toks(), old(self).pos()), true) matches Some((c, j))
                ==> r is Ok && final(self).pos() == j && struct_denotes(final(type_definitions)@.last(), c.0, c.1),
            core_enum_at(old(self).toks(), item_start(old(self).toks(), old(self).pos()), true) matches Some((c, j))
                ==> r is Ok && final(self).pos() == j && enum_denotes(final(type_definitions)@.last(), c.0, c.1),
            core_item_at(old(self).toks(), old(self).pos(), true) matches Some((it, j)) ==> r is Ok && final(self).pos() == j
                && final(external_functions)@ == old(external_functions)@
                && final(trait_definitions)@ == old(trait_definitions)@ && items_denote(
                final(imports)@.subrange(old(imports)@.len() as int, final(imports)@.len() as int),
                final(function_definitions)@.subrange(old(function_definitions)@.len() as int, final(function_definitions)@.len() as int),
                final(type_definitions)@.subrange(old(type_definitions)@.len() as int, final(type_definitions)@.len() as int),
                final(constant_declarations)@.subrange(old(constant_declarations)@.len() as int, final(constant_declarations)@.len() as int),
                final(exports)@.subrange(old(exports)@.len() as int, final(exports)@.len() as int),
                it,
            ),
    {
        proof {
            lemma_extends_refl(imports@);
            lemma_extends_refl(function_definitions@);
            lemma_extends_refl(external_functions@);
            lemma_extends_refl(type_definitions@);
            lemma_extends_refl(trait_definitions@);
            lemma_extends_refl(constant_declarations@);
            lemma_extends_refl(exports@);
        }
        let mut annotations: Vec<Annotation> = Vec::new();
        while self.check(&TokenType::At)
            invariant
                self.moved_from(*old(self)),
                annotations@.len() > 0 ==> self.pos() > old(self).pos() && old(self).cur() is At,
                annotations@.len() == 0 ==> self.pos() == old(self).pos(),
                imports@ == old(imports)@,
                function_definitions@ == old(function_definitions)@,
                external_functions@ == old(external_functions)@,
                type_definitions@ == old(type_definitions)@,
                trait_definitions@ == old(trait_definitions)@,
                constant_declarations@ == old(constant_declarations)@,
                exports@ == old(exports)@,
                extends(imports@, old(imports)@),
                extends(function_definitions@, old(function_definitions)@),
                extends(external_functions@, old(external_functions)@),
                extends(type_definitions@, old(type_definitions)@),
                extends(trait_definitions@, old(trait_definitions)@),
                extends(constant_declarations@, old(constant_declarations)@),
                extends(exports@, old(exports)@),
            decreases self.toks().len() - self.pos(),
        {
            let annotation = self.parse_annotation()?;
            annotations.push(annotation);
        }
        let is_public = if self.check_keyword(Keyword::Pub) {
            self.advance();
            true
        } else {
            false
        };

        if self.check_keyword(Keyword::Import) {
            let import = self.parse_import()?;
            imports.push(import);
        } else if self.check_keyword(Keyword::Func) {
            let mut extern_index: Option<usize> = None;
            let mut k: usize = 0;
            while k < annotations.len()
                invariant
                    k <= annotations@.len(),
                    extern_index matches Some(j) ==> j < annotations@.len(),
                decreases annotations@.len() - k,
            {
                if extern_index.is_none() && str_is(annotations[k].name.as_str(), "extern") {
                    extern_index = Some(k);
                }
                k = k + 1;
            }
            match extern_index {
                Some(j) => {
                    let extern_attr = annotations.remove(j);
                    let ext = self.parse_external_function(extern_attr)?;
                    external_functions.push(ext);
                },
                None => {
                    let mut func = self.parse_function()?;
                    let applied = self.apply_annotations(&mut func, annotations);
                    if is_public {
                        exports.push(ExportStatement::Function {
                            name: func.name.duplicate(),
                            source_location: func.source_location.duplicate(),
                        });
                    }
                    function_definitions.push(func);
                },
            }
        } else if self.check_keyword(Keyword::Struct) {
            let type_def = self.parse_struct()?;
            if is_public {
                match &type_def {
                    TypeDefinition::Structured { name, source_location, .. } => {
                        exports.push(ExportStatement::Type {
                            name: name.duplicate(),
                            source_location: source_location.duplicate(),
                        });
                    },
                    _ => {},
                }
            }
            type_definitions.push(type_def);
        } else if self.check_keyword(Keyword::Enum) {
            let type_def = self.parse_enum()?;
            if is_public {
                match &type_def {
                    TypeDefinition::Enumeration { name, source_location, .. } => {
                        exports.push(ExportStatement::Type {
                            name: name.duplicate(),
                            source_location: source_location.duplicate(),
                        });
                    },
                    _ => {},
                }
            }
            type_definitions.push(type_def);
        } else if self.check_keyword(Keyword::Const) {
            let constant = self.parse_constant_declaration()?;
            if is_public {
                exports.push(ExportStatement::Constant {
                    name: constant.name.duplicate(),
                    source_location: constant.source_location.duplicate(),
                });
            }
            constant_declarations.push(constant);
        } else if self.check_keyword(Keyword::Trait) {
            let trait_def = self.parse_trait_definition()?;
            if is_public {
                exports.push(ExportStatement::Type {
                    name: trait_def.name.duplicate(),
                    source_location: trait_def.source_location.duplicate(),
                });
            }
            trait_definitions.push(trait_def);
        } else {
            return Err(self.unexpected("import, func, struct, enum, const, trait, or annotation"));
        }
        assert(imports@.subrange(0, old(imports)@.len() as int) =~= old(imports)@);
        assert(function_definitions@.subrange(0, old(function_definitions)@.len() as int) =~= old(function_definitions)@);
        assert(external_functions@.subrange(0, old(external_functions)@.len() as int) =~= old(external_functions)@);
        assert(type_definitions@.subrange(0, old(type_definitions)@.len() as int) =~= old(type_definitions)@);
        assert(trait_definitions@.subrange(0, old(trait_definitions)@.len() as int) =~= old(trait_definitions)@);
        assert(constant_declarations@.subrange(0, old(constant_declarations)@.len() as int) =~= old(constant_declarations)@);
        assert(exports@.subrange(0, old(exports)@.len() as int) =~= old(exports)@);
        Ok(())
    }

    /// Parses `import a.b.c [as name];`; the module name is the dotted name.
    pub fn parse_import(&mut self) -> (r: Result<ImportStatement, ParserError>)
        requires
            old(self).wf(),
        ensures
            old(self).spec_check_keyword(Keyword::Import) ==> final(self).pos() > old(self).pos(),
            final(self).moved_from(*old(self)),
            r is Ok ==> final(self).pos() > old(self).pos(),
            r matches Ok(imp) ==> {
                let total = final(self).pos() - old(self).pos();
                let n = (if imp.alias is Some { (total - 3) / 2 } else { (total - 1) / 2 }) as nat;
                let end = old(self).pos() + 2 * n;
                &&& old(self).cur() == TokenType::Keyword(Keyword::Import)
                &&& dotted_shape(old(self).toks(), old(self).pos() + 1, n)
                &&& imp.module_name.name@ == dotted_text(old(self).toks(), old(self).pos() + 1, n)
                &&& old(self).kind_at(final(self).pos() - 1) is Semicolon
                &&& (imp.alias is None ==> final(self).pos() == end + 1)
                &&& (imp.alias is Some ==> final(self).pos() == end + 3)
                &&& (imp.alias is Some <==> old(self).kind_at(end) == TokenType::Keyword(Keyword::As))
                &&& (imp.alias matches Some(a) ==> a.name == ident_name(old(self).kind_at(end + 1)))
            },
            r is Ok ==> core_import_at(old(self).toks(), old(self).pos(), true) is Some,
            core_import_at(old(self).toks(), old(self).pos(), true) matches Some((c, j))
                ==> r matches Ok(imp) && import_denotes(imp, c) && final(self).pos() == j,
    {
        let start_location = self.current_location();
        self.expect_keyword(Keyword::Import, "expected 'import'")?;
        let module_name = self.parse_dotted_identifier()?;
        let alias = if self.check_keyword(Keyword::As) {
            self.advance();
            Some(self.parse_identifier()?)
        } else {
            None
        };
        self.expect(&TokenType::Semicolon, "expected ';' after import statement")?;
        Ok(ImportStatement { module_name, alias, source_location: start_location })
    }

    /// Parses `const NAME: type = value;`.
    #[verifier::spinoff_prover]
    #[verifier::rlimit(100)]
    pub fn parse_constant_declaration(&mut self) -> (r: Result<ConstantDeclaration, ParserError>)
        requires
            old(self).wf(),
        ensures
            old(self).spec_check_keyword(Keyword::Const) ==> final(self).pos() > old(self).pos(),
            final(self).moved_from(*old(self)),
            r is Ok ==> final(self).pos() > old(self).pos(),
            r matches Ok(c) ==> old(self).cur() == TokenType::Keyword(Keyword::Const)
                && c.name.name == ident_name(old(self).kind_at(old(self).pos() + 1))
                && old(self).kind_at(old(self).pos() + 2) is Colon
                && final(self).kind_at(final(self).pos() - 1) is Semicolon,
            core_const_at(old(self).toks(), old(self).pos(), true) matches Some((c, j))
                ==> r matches Ok(d) && const_denotes(d, c) && final(self).pos() == j,
    {
        let start_location = self.current_location();
        self.expect_keyword(Keyword::Const, "expected 'const'")?;
        let name = self.parse_identifier()?;
        self.expect(&TokenType::Colon, "expected ':' after constant name")?;
        let type_spec = self.parse_type()?;
        self.expect(&TokenType::Equal, "expected '=' after type")?;
        let value = self.parse_expression()?;
        self.expect(&TokenType::Semicolon, "expected ';' after constant declaration")?;
        Ok(ConstantDeclaration {
            name,
            type_spec: Box::new(type_spec),
            value: Box::new(value),
            intent: None,
            source_location: start_location,
        })
    }

    /// Parses `func name[<T, ...>](params) [-> type] [where ...] { body }`;
    /// without `->` the return type is `Void`.
    #[verifier::spinoff_prover]
    #[verifier::rlimit(100)]
    pub fn parse_function(&mut self) -> (r: Result<Function, ParserError>)
        requires
            old(self).wf(),
        ensures
            old(self).spec_check_keyword(Keyword::Func) ==> final(self).pos() > old(self).pos(),
            final(self).moved_from(*old(self)),
            r is Ok ==> final(self).pos() > old(self).pos(),
            r is Ok ==> old(self).kind_at(old(self).pos() + 1) is Identifier,
            r matches Ok(f) ==> old(self).cur() == TokenType::Keyword(Keyword::Func)
                && f.name.name == ident_name(old(self).kind_at(old(self).pos() + 1))
                && final(self).kind_at(final(self).pos() - 1) is RightBrace
                && (f.generic_parameters@.len() > 0 <==> old(self).kind_at(old(self).pos() + 2) is Less)
                && (f.generic_parameters@.len() == 0 ==> old(self).kind_at(old(self).pos() + 2) is LeftParen)
                && f.intent is None && f.metadata.is_empty(),
            r is Ok && old(self).kind_at(old(self).pos() + 2) is LeftParen ==> (core_params_at(old(self).toks(), old(self).pos() + 3, true) matches Some((ps, j))
                && old(self).kind_at(j) is RightParen),
            core_function_at(old(self).toks(), old(self).pos(), true) matches Some((c, j))
                ==> r matches Ok(f) && function_denotes(f, c) && final(self).pos() == j,
            core_generic_function_at(old(self).toks(), old(self).pos()) matches Some((c, j))
                ==> r matches Ok(f) && generic_function_denotes(f, c) && final(self).pos() == j,
    {
        let ghost toks = old(self).toks();
        let ghost i0 = old(self).pos();
        let ghost core = core_function_at(toks, i0, true) is Some;
        let ghost gcore = core_generic_function_at(toks, i0) is Some;
        let start_location = self.current_location();
        self.expect_keyword(Keyword::Func, "expected 'func'")?;
        let name = self.parse_identifier()?;
        let generic_parameters = self.parse_generic_parameters()?;
        proof {
            if core {
                assert(generic_parameters@.len() == 0 && self.pos() == i0 + 2);
            }
            if gcore {
                assert(after_type_params(toks, i0 + 2) == Some(self.pos()));
                assert(ident_names(parameter_names(generic_parameters@)) == type_param_names(toks, i0 + 2)) by {
                    if !token_is(toks, i0 + 2, TokenType::Less) {
                        assert(ident_names(parameter_names(generic_parameters@)) =~= Seq::<Seq<char>>::empty());
                    }
                }
            }
        }
        self.expect(&TokenType::LeftParen, "expected '(' after function name")?;
        let parameters = self.parse_parameters()?;
        self.expect(&TokenType::RightParen, "expected ')' after parameters")?;
        let return_type = if self.check(&TokenType::Arrow) {
            self.advance();
            self.parse_type()?
        } else {
            TypeSpecifier::Primitive { primitive_type: PrimitiveType::Void, source_location: self.current_location() }
        };
        let ghost m = self.pos();
        let where_clause = self.parse_where_clause()?;
        proof {
            if core {
                assert(!keyword_at(toks, m, Keyword::Where));
                assert(where_clause@.len() == 0 && self.pos() == m);
            }
            if gcore {
                assert(after_where(toks, m) == Some(self.pos()));
                assert(where_view(where_clause@) == where_at(toks, m)) by {
                    if !keyword_at(toks, m, Keyword::Where) {
                        assert(where_view(where_clause@) =~= Seq::<(Seq<char>, Seq<Seq<char>>)>::empty());
                    }
                }
            }
        }
        let body = self.parse_block()?;
        Ok(Function {
            name,
            intent: None,
            generic_parameters,
            where_clause,
            parameters,
            return_type: Box::new(return_type),
            metadata: FunctionMetadata::empty(),
            body,
            export_info: None,
            source_location: start_location,
        })
    }

    /// Parses `param (, param)*`, or nothing before `)`.
    #[verifier::spinoff_prover]
    #[verifier::rlimit(100)]
    pub fn parse_parameters(&mut self) -> (r: Result<Vec<Parameter>, ParserError>)
        requires
            old(self).wf(),
        ensures
            final(self).moved_from(*old(self)),
            r matches Ok(ps) ==> (ps@.len() == 0 <==> old(self).spec_check(TokenType::RightParen)),
            r matches Ok(ps) ==> (ps@.len() == 0 <==> final(self).pos() == old(self).pos()),
            r is Ok <==> core_params_at(old(self).toks(), old(self).pos(), true) is Some,
            core_params_at(old(self).toks(), old(self).pos(), true) matches Some((c, j))
                ==> r matches Ok(xs) && params_denote(xs@, c) && final(self).pos() == j,
    {
        let ghost toks = old(self).toks();
        let ghost i0 = old(self).pos();
        let mut parameters: Vec<Parameter> = Vec::new();
        if self.check(&TokenType::RightParen) {
            return Ok(parameters);
        }
        let first = self.parse_parameter()?;
        let ghost p0 = core_param_at(toks, i0, true)->Some_0.0;
        parameters.push(first);
        let ghost mut acc: Seq<(Seq<char>, TypeShape)> = seq![p0];
        proof {
            match core_params_rest(toks, self.pos(), true) {
                Some((ps, m)) => {
                    assert(seq![p0] + ps == acc + ps);
                },
                None => {},
            }
        }
        while self.check(&TokenType::Comma)
            invariant
                self.moved_from(*old(self)),
                self.pos() > old(self).pos(),
                parameters@.len() > 0,
                !old(self).spec_check(TokenType::RightParen),
                toks == self.toks(),
                i0 == old(self).pos(),
                acc + Seq::<(Seq<char>, TypeShape)>::empty() == acc,
                core_params_at(toks, i0, true) == match core_params_rest(toks, self.pos(), true) {
                    Some((ps, m)) => Some((acc + ps, m)),
                    None => None,
                },
                params_denote(parameters@, acc),
            decreases self.toks().len() - self.pos(),
        {
            let ghost p = self.pos();
            self.advance();
            let next = self.parse_parameter()?;
            let ghost pc = core_param_at(toks, p + 1, true)->Some_0.0;
            let ghost before = parameters@;
            parameters.push(next);
            proof {
                assert(parameters@ == before.push(next));
                assert forall|k: int| 0 <= k < parameters@.len() implies param_denotes(
                    #[trigger] parameters@[k],
                    acc.push(pc)[k],
                ) by {
                    if k < before.len() {
                        assert(parameters@[k] == before[k]);
                    }
                }
                match core_params_rest(toks, self.pos(), true) {
                    Some((ps, m)) => {
                        assert(acc + (seq![pc] + ps) =~= acc.push(pc) + ps);
                    },
                    None => {},
                }
                acc = acc.push(pc);
            }
        }
        Ok(parameters)
    }

    /// Parses `name: type`.
    pub fn parse_parameter(&mut self) -> (r: Result<Parameter, ParserError>)
        requires
            old(self).wf(),
        ensures
            final(self).moved_from(*old(self)),
            r is Ok ==> final(self).pos() > old(self).pos(),
            r matches Ok(p) ==> p.name.name == ident_name(old(self).cur()) && old(self).cur() is Identifier
                && old(self).kind_at(old(self).pos() + 1) is Colon && p.passing_mode == PassingMode::ByValue,
            r is Ok <==> core_param_at(old(self).toks(), old(self).pos(), true) is Some,
            core_param_at(old(self).toks(), old(self).pos(), true) matches Some((c, j))
                ==> r matches Ok(x) && param_denotes(x, c) && final(self).pos() == j,
    {
        let start_location = self.current_location();
        let name = self.parse_identifier()?;
        self.expect(&TokenType::Colon, "expected ':' after parameter name")?;
        let param_type = self.parse_type()?;
        Ok(Parameter {
            name,
            param_type: Box::new(param_type),
            intent: None,
            constraint: None,
            passing_mode: PassingMode::ByValue,
            source_location: start_location,
        })
    }

    /// Parses `@name` or `@name(args)`.
    pub fn parse_annotation(&mut self) -> (r: Result<Annotation, ParserError>)
        requires
            old(self).wf(),
        ensures
            old(self).cur() is At ==> final(self).pos() > old(self).pos(),
            final(self).moved_from(*old(self)),
            r is Ok ==> final(self).pos() > old(self).pos(),
            r matches Ok(a) ==> old(self).cur() is At
                && a.name == ident_name(old(self).kind_at(old(self).pos() + 1))
                && (!(old(self).kind_at(old(self).pos() + 2) is LeftParen) ==> a.arguments@.len() == 0
                    && final(self).pos() == old(self).pos() + 2),
            annotation_end(old(self).toks(), old(self).pos()) matches Some(k) ==> r is Ok && final(self).pos() == k,
    {
        let start_location = self.current_location();
        self.expect(&TokenType::At, "expected '@'")?;
        let name = self.parse_identifier()?;
        let mut arguments: Vec<AnnotationArgument> = Vec::new();
        if self.check(&TokenType::LeftParen) {
            self.advance();
            if !self.check(&TokenType::RightParen) {
                let first = self.parse_annotation_argument()?;
                arguments.push(first);
                while self.check(&TokenType::Comma)
                    invariant
                        self.moved_from(*old(self)),
                        self.pos() > old(self).pos() + 2,
                        old(self).cur() is At,
                        old(self).kind_at(old(self).pos() + 2) is LeftParen,
                        self.toks() == old(self).toks(),
                        annotation_end(self.toks(), old(self).pos()) is Some ==> {
                            &&& annotation_arguments_end(self.toks(), old(self).pos() + 3) is Some
                            &&& annotation_arguments_end(self.toks(), old(self).pos() + 3) == (
                                if self.pos() < self.toks().len() && self.kind_at(self.pos()) is Comma {
                                    annotation_arguments_end(self.toks(), self.pos() + 1)
                                } else {
                                    Some(self.pos())
                                })
                        },
                    decreases self.toks().len() - self.pos(),
                {
                    self.advance();
                    let next = self.parse_annotation_argument()?;
                    arguments.push(next);
                }
            }
            self.expect(&TokenType::RightParen, "expected ')' after annotation arguments")?;
        }
        Ok(Annotation { name: name.name, arguments, source_location: start_location })
    }

    /// Parses `label: value`, `label = value` or `value`.
    pub fn parse_annotation_argument(&mut self) -> (r: Result<AnnotationArgument, ParserError>)
        requires
            old(self).wf(),
        ensures
            final(self).moved_from(*old(self)),
            r is Ok ==> final(self).pos() > old(self).pos(),
            r matches Ok(a) ==> (a.label is Some <==> old(self).cur() is Identifier
                && old(self).pos() + 1 < old(self).toks().len()
                && (old(self).kind_at(old(self).pos() + 1) is Colon || old(self).kind_at(old(self).pos() + 1) is Equal)),
            r matches Ok(a) ==> (a.label matches Some(l) ==> l == ident_name(old(self).cur())),
            annotation_argument_end(old(self).toks(), old(self).pos()) matches Some(k) ==> r is Ok && final(self).pos() == k,
    {
        let start_location = self.current_location();
        let label = match &self.peek().token_type {
            TokenType::Identifier(name) => {
                let labeled = match self.peek_next() {
                    Some(next) => matches!(next.token_type, TokenType::Colon) || matches!(next.token_type, TokenType::Equal),
                    None => false,
                };
                if labeled { Some(name.clone()) } else { None }
            },
            _ => None,
        };
        if label.is_some() {
            self.advance();
            self.advance();
            let value = self.parse_annotation_value()?;
            return Ok(AnnotationArgument { label, value, source_location: start_location });
        }
        let value = self.parse_annotation_value()?;
        Ok(AnnotationArgument { label: None, value, source_location: start_location })
    }

    /// Parses an annotation value: a string, integer, float or boolean
    /// literal, a braced expression, or an identifier.
    pub fn parse_annotation_value(&mut self) -> (r: Result<AnnotationValue, ParserError>)
        requires
            old(self).wf(),
        ensures
            final(self).moved_from(*old(self)),
            r is Ok ==> final(self).pos() > old(self).pos(),
            r matches Ok(v) ==> match old(self).cur() {
                TokenType::StringLiteral(s) => v == AnnotationValue::String(s),
                TokenType::IntegerLiteral(n) => v == AnnotationValue::Integer(n),
                TokenType::FloatLiteral(t) => v == AnnotationValue::Float(t),
                TokenType::BoolLiteral(b) => v == AnnotationValue::Boolean(b),
                TokenType::Identifier(n) => v == AnnotationValue::Identifier(n),
                TokenType::LeftBrace => v is Expression && final(self).kind_at(final(self).pos() - 1) is RightBrace,
                _ => false,
            },
            (old(self).cur() is StringLiteral || old(self).cur() is IntegerLiteral || old(self).cur() is FloatLiteral
                || old(self).cur() is BoolLiteral || old(self).cur() is Identifier)
                ==> r is Ok && final(self).pos() == old(self).pos() + 1,
            annotation_value_end(old(self).toks(), old(self).pos()) matches Some(k) ==> r is Ok && final(self).pos() == k,
            core_braced_at(old(self).toks(), old(self).pos()) matches Some((c, j))
                ==> r matches Ok(AnnotationValue::Expression(e)) && denotes(*e, c) && final(self).pos() == j,
    {
        let simple = match &self.peek().token_type {
            TokenType::StringLiteral(s) => Some(AnnotationValue::String(s.clone())),
            TokenType::IntegerLiteral(n) => Some(AnnotationValue::Integer(*n)),
            TokenType::FloatLiteral(t) => Some(AnnotationValue::Float(t.clone())),
            TokenType::BoolLiteral(b) => Some(AnnotationValue::Boolean(*b)),
            _ => None,
        };
        if let Some(v) = simple {
            self.advance();
            return Ok(v);
        }
        if self.check(&TokenType::LeftBrace) {
            let expr = self.parse_braced_expression()?;
            return Ok(AnnotationValue::Expression(Box::new(expr)));
        }
        let ident = match &self.peek().token_type {
            TokenType::Identifier(name) => Some(name.clone()),
            _ => None,
        };
        if let Some(name) = ident {
            self.advance();
            return Ok(AnnotationValue::Identifier(name));
        }
        Err(self.unexpected("annotation value"))
    }

    /// The first argument labeled `label`, if any.
    fn find_labeled<'a>(args: &'a Vec<AnnotationArgument>, label: &str) -> (r: Option<&'a AnnotationArgument>)
        ensures
            r is Some <==> first_labeled(args@, label@) is Some,
            r matches Some(a) ==> *a == args@[first_labeled(args@, label@)->Some_0],
    {
        let mut i: usize = 0;
        assert(args@.subrange(0, args@.len() as int) =~= args@);
        while i < args.len()
            invariant
                i <= args@.len(),
                first_labeled(args@, label@) == match first_labeled(args@.subrange(i as int, args@.len() as int), label@) {
                    Some(j) => Some(j + i),
                    None => None,
                },
            decreases args@.len() - i,
        {
            let matches_label = match &args[i].label {
                Some(l) => str_is(l.as_str(), label),
                None => false,
            };
            assert(args@.subrange(i as int + 1, args@.len() as int)
                =~= args@.subrange(i as int, args@.len() as int).subrange(1, args@.len() - i));
            if matches_label {
                return Some(&args[i]);
            }
            i = i + 1;
        }
        None
    }

    /// The string value of the first argument labeled `label`, if that
    /// argument holds a string.
    fn labeled_string_value(args: &Vec<AnnotationArgument>, label: &str) -> (r: Option<String>)
        ensures
            r matches Some(s) ==> labeled_string(args@, label@) == Some(s@),
            r is None ==> labeled_string(args@, label@) is None,
    {
        match Self::find_labeled(args, label) {
            Some(a) => match &a.value {
                AnnotationValue::String(s) => Some(s.clone()),
                _ => None,
            },
            None => None,
        }
    }

    /// The boolean value of the first argument labeled `label`, false when
    /// there is none or it holds something else.
    fn labeled_flag_value(args: &Vec<AnnotationArgument>, label: &str) -> (r: bool)
        ensures
            r == labeled_flag(args@, label@),
    {
        match Self::find_labeled(args, label) {
            Some(a) => match &a.value {
                AnnotationValue::Boolean(b) => *b,
                _ => false,
            },
            None => false,
        }
    }

    /// Parses `func name(params) -> type;` after an `@extern` annotation.
    /// The library is the string given as `library:` (`STATIC` when there is
    /// none), the symbol the string given as `symbol:`, and the function is
    /// variadic when `variadic:` is given as true.
    pub fn parse_external_function(&mut self, annotation: Annotation) -> (r: Result<ExternalFunction, ParserError>)
        requires
            old(self).wf(),
        ensures
            final(self).moved_from(*old(self)),
            r is Ok ==> final(self).pos() > old(self).pos(),
            r matches Ok(f) ==> {
                &&& old(self).cur() == TokenType::Keyword(Keyword::Func)
                &&& f.name.name == ident_name(old(self).kind_at(old(self).pos() + 1))
                &&& f.library@ == match labeled_string(annotation.arguments@, "library"@) {
                    Some(l) => l,
                    None => "STATIC"@,
                }
                &&& (f.symbol matches Some(sym) ==> labeled_string(annotation.arguments@, "symbol"@) == Some(sym@))
                &&& (f.symbol is None ==> labeled_string(annotation.arguments@, "symbol"@) is None)
                &&& f.source_location == annotation.source_location
                &&& f.calling_convention == CallingConvention::C
                &&& f.variadic == labeled_flag(annotation.arguments@, "variadic"@)
                &&& old(self).kind_at(final(self).pos() - 1) is Semicolon
            },
            r is Ok <==> core_extern_sig_at(old(self).toks(), old(self).pos(), true) is Some,
            core_extern_sig_at(old(self).toks(), old(self).pos(), true) matches Some((c, j))
                ==> r matches Ok(f) && f.name.name@ == c.0 && params_denote(f.parameters@, c.1)
                && shape_of(*f.return_type) == c.2 && !f.thread_safe && !f.may_block && final(self).pos() == j,
    {
        let start_location = annotation.source_location.duplicate();
        let library = match Self::labeled_string_value(&annotation.arguments, "library") {
            Some(l) => l,
            None => String::from_str("STATIC"),
        };
        let symbol = Self::labeled_string_value(&annotation.arguments, "symbol");
        let variadic = Self::labeled_flag_value(&annotation.arguments, "variadic");
        self.expect_keyword(Keyword::Func, "expected 'func' after @extern annotation")?;
        let name = self.parse_identifier()?;
        self.expect(&TokenType::LeftParen, "expected '(' after function name")?;
        let parameters = self.parse_parameters()?;
        self.expect(&TokenType::RightParen, "expected ')' after parameters")?;
        self.expect(&TokenType::Arrow, "expected '->' for extern function return type")?;
        let return_type = self.parse_type()?;
        self.expect(&TokenType::Semicolon, "expected ';' after extern function declaration")?;
        Ok(ExternalFunction {
            name,
            library,
            symbol,
            parameters,
            return_type: Box::new(return_type),
            calling_convention: CallingConvention::C,
            thread_safe: false,
            may_block: false,
            variadic,
            source_location: start_location,
        })
    }

    // ==================== STRUCTS AND ENUMS ====================

    /// Parses `struct Name [<T, ...>] [where ...] { field: type [,|;] ... }`.
    #[verifier::spinoff_prover]
    #[verifier::rlimit(100)]
    pub fn parse_struct(&mut self) -> (r: Result<TypeDefinition, ParserError>)
        requires
            old(self).wf(),
        ensures
            old(self).spec_check_keyword(Keyword::Struct) ==> final(self).pos() > old(self).pos(),
            final(self).moved_from(*old(self)),
            r is Ok ==> final(self).pos() > old(self).pos(),
            r matches Ok(t) ==> old(self).cur() == TokenType::Keyword(Keyword::Struct)
                && (t matches TypeDefinition::Structured { name, .. } && name.name == ident_name(old(self).kind_at(old(self).pos() + 1)))
                && final(self).kind_at(final(self).pos() - 1) is RightBrace,
            core_struct_at(old(self).toks(), old(self).pos(), true) matches Some((c, j))
                ==> r matches Ok(t) && struct_denotes(t, c.0, c.1) && final(self).pos() == j,
    {
        let start_location = self.current_location();
        self.expect_keyword(Keyword::Struct, "expected 'struct'")?;
        let name = self.parse_identifier()?;
        let generic_parameters = self.parse_generic_parameters()?;
        let where_clause = self.parse_where_clause()?;
        self.expect(&TokenType::LeftBrace, "expected '{' after struct name")?;
        let mut fields: Vec<StructField> = Vec::new();
        let ghost toks = old(self).toks();
        let ghost i0 = old(self).pos();
        let ghost mut acc: Seq<(Seq<char>, TypeShape)> = seq![];
        proof {
            match core_fields_from(toks, self.pos(), true) {
                Some((fs, m)) => {
                    assert(acc + fs =~= fs);
                },
                None => {},
            }
        }
        while !self.check(&TokenType::RightBrace) && !self.is_at_end()
            invariant
                self.moved_from(*old(self)),
                self.pos() > old(self).pos(),
                toks == self.toks(),
                i0 == old(self).pos(),
                acc + Seq::<(Seq<char>, TypeShape)>::empty() == acc,
                core_struct_at(toks, i0, true) is Some ==> {
                    &&& core_fields_from(toks, i0 + 3, true) == match core_fields_from(toks, self.pos(), true) {
                        Some((fs, m)) => Some((acc + fs, m)),
                        None => None,
                    }
                    &&& fields_denote(fields@, acc)
                },
            decreases self.toks().len() - self.pos(),
        {
            let ghost p = self.pos();
            let ghost fc = core_field_at(toks, p, true)->Some_0.0;
            let field = self.parse_struct_field()?;
            let ghost before = fields@;
            fields.push(field);
            proof {
                if core_struct_at(toks, i0, true) is Some {
                    assert(fields@ == before.push(field));
                    assert forall|k: int| 0 <= k < fields@.len() implies (#[trigger] fields@[k]).name.name@ == acc.push(fc)[k].0
                        && shape_of(*fields@[k].field_type) == acc.push(fc)[k].1 by {
                        if k < before.len() {
                            assert(fields@[k] == before[k]);
                        }
                    }
                    match core_fields_from(toks, self.pos(), true) {
                        Some((fs, m)) => {
                            assert(acc + (seq![fc] + fs) =~= acc.push(fc) + fs);
                        },
                        None => {},
                    }
                    acc = acc.push(fc);
                }
            }
        }
        self.expect(&TokenType::RightBrace, "expected '}' to close struct")?;
        Ok(TypeDefinition::Structured {
            name,
            intent: None,
            generic_parameters,
            where_clause,
            fields,
            export_as: None,
            source_location: start_location,
        })
    }

    /// Parses `name: type` with an optional `,` or `;` after it.
    pub fn parse_struct_field(&mut self) -> (r: Result<StructField, ParserError>)
        requires
            old(self).wf(),
        ensures
            final(self).moved_from(*old(self)),
            r is Ok ==> final(self).pos() > old(self).pos(),
            r matches Ok(f) ==> f.name.name == ident_name(old(self).cur()) && old(self).cur() is Identifier
                && old(self).kind_at(old(self).pos() + 1) is Colon,
            core_field_at(old(self).toks(), old(self).pos(), true) matches Some((c, j))
                ==> r matches Ok(f) && f.name.name@ == c.0 && shape_of(*f.field_type) == c.1 && final(self).pos() == j,
    {
        let start_location = self.current_location();
        let name = self.parse_identifier()?;
        self.expect(&TokenType::Colon, "expected ':' after field name")?;
        let field_type = self.parse_type()?;
        if self.check(&TokenType::Comma) || self.check(&TokenType::Semicolon) {
            self.advance();
        }
        Ok(StructField { name, field_type: Box::new(field_type), source_location: start_location })
    }

    /// Parses `enum Name [<T, ...>] [where ...] { case Variant[(types)] (;|,) ... }`.
    #[verifier::spinoff_prover]
    #[verifier::rlimit(100)]
    pub fn parse_enum(&mut self) -> (r: Result<TypeDefinition, ParserError>)
        requires
            old(self).wf(),
        ensures
            old(self).spec_check_keyword(Keyword::Enum) ==> final(self).pos() > old(self).pos(),
            final(self).moved_from(*old(self)),
            r is Ok ==> final(self).pos() > old(self).pos(),
            r matches Ok(t) ==> old(self).cur() == TokenType::Keyword(Keyword::Enum)
                && (t matches TypeDefinition::Enumeration { name, .. } && name.name == ident_name(old(self).kind_at(old(self).pos() + 1)))
                && final(self).kind_at(final(self).pos() - 1) is RightBrace,
            r is Ok && old(self).kind_at(old(self).pos() + 2) is LeftBrace
                ==> core_enum_at(old(self).toks(), old(self).pos(), true) is Some,
            core_enum_at(old(self).toks(), old(self).pos(), true) matches Some((c, j))
                ==> r matches Ok(t) && enum_denotes(t, c.0, c.1) && final(self).pos() == j,
    {
        let start_location = self.current_location();
        self.expect_keyword(Keyword::Enum, "expected 'enum'")?;
        let name = self.parse_identifier()?;
        let generic_parameters = self.parse_generic_parameters()?;
        let where_clause = self.parse_where_clause()?;
        self.expect(&TokenType::LeftBrace, "expected '{' after enum name")?;
        let mut variants: Vec<EnumVariant> = Vec::new();
        let ghost toks = old(self).toks();
        let ghost i0 = old(self).pos();
        let ghost k0 = self.pos();
        let ghost mut acc: Seq<(Seq<char>, Seq<TypeShape>)> = seq![];
        proof {
            match core_variants_from(toks, self.pos(), true) {
                Some((vs, m)) => {
                    assert(acc + vs =~= vs);
                },
                None => {},
            }
        }
        while !self.check(&TokenType::RightBrace) && !self.is_at_end()
            invariant
                self.moved_from(*old(self)),
                self.pos() > old(self).pos(),
                toks == self.toks(),
                i0 == old(self).pos(),
                acc + Seq::<(Seq<char>, Seq<TypeShape>)>::empty() == acc,
                core_variants_from(toks, k0, true) == match core_variants_from(toks, self.pos(), true) {
                    Some((vs, m)) => Some((acc + vs, m)),
                    None => None,
                },
                variants_denote(variants@, acc),
                core_enum_at(toks, i0, true) is Some ==> core_variants_from(toks, k0, true) is Some,
            decreases self.toks().len() - self.pos(),
        {
            let ghost p = self.pos();
            let variant = self.parse_enum_variant()?;
            let ghost vc = core_variant_at(toks, p, true)->Some_0.0;
            let ghost before = variants@;
            variants.push(variant);
            proof {
                assert(variants@ == before.push(variant));
                assert forall|k: int| 0 <= k < variants@.len() implies (#[trigger] variants@[k]).name.name@ == acc.push(vc)[k].0
                    && types_denote(variants@[k].associated_types@, acc.push(vc)[k].1) by {
                    if k < before.len() {
                        assert(variants@[k] == before[k]);
                    }
                }
                match core_variants_from(toks, self.pos(), true) {
                    Some((vs, m)) => {
                        assert(acc + (seq![vc] + vs) =~= acc.push(vc) + vs);
                    },
                    None => {},
                }
                acc = acc.push(vc);
            }
        }
        proof {
            if self.spec_check(TokenType::RightBrace) {
                assert(acc + Seq::<(Seq<char>, Seq<TypeShape>)>::empty() =~= acc);
            }
        }
        self.expect(&TokenType::RightBrace, "expected '}' to close enum")?;
        Ok(TypeDefinition::Enumeration {
            name,
            intent: None,
            generic_parameters,
            where_clause,
            variants,
            source_location: start_location,
        })
    }

    /// Parses `case Name[(type, ...)]` followed by `;` or `,`.
    pub fn parse_enum_variant(&mut self) -> (r: Result<EnumVariant, ParserError>)
        requires
            old(self).wf(),
        ensures
            final(self).moved_from(*old(self)),
            r is Ok ==> final(self).pos() > old(self).pos(),
            r matches Ok(v) ==> old(self).cur() == TokenType::Keyword(Keyword::Case)
                && v.name.name == ident_name(old(self).kind_at(old(self).pos() + 1))
                && (old(self).kind_at(final(self).pos() - 1) is Semicolon || old(self).kind_at(final(self).pos() - 1) is Comma)
                && (v.associated_types@.len() == 0 <==> !(old(self).kind_at(old(self).pos() + 2) is LeftParen)),
            r is Ok <==> core_variant_at(old(self).toks(), old(self).pos(), true) is Some,
            core_variant_at(old(self).toks(), old(self).pos(), true) matches Some((c, j))
                ==> r matches Ok(v) && v.name.name@ == c.0 && types_denote(v.associated_types@, c.1) && final(self).pos() == j,
    {
        let start_location = self.current_location();
        self.expect_keyword(Keyword::Case, "expected 'case' before enum variant")?;
        let name = self.parse_identifier()?;
        let mut associated_types: Vec<TypeSpecifier> = Vec::new();
        let ghost toks = old(self).toks();
        let ghost i0 = old(self).pos();
        let ghost mut acc: Seq<TypeShape> = seq![];
        if self.check(&TokenType::LeftParen) {
            self.advance();
            proof {
                match core_types_list(toks, self.pos(), true) {
                    Some((ts, m)) => {
                        assert(acc + ts =~= ts);
                    },
                    None => {},
                }
            }
            loop
                invariant_except_break
                    self.moved_from(*old(self)),
                    self.pos() > old(self).pos() + 2,
                    associated_types@.len() > 0 || self.pos() == old(self).pos() + 3,
                    toks == self.toks(),
                    i0 == old(self).pos(),
                    token_is(toks, i0 + 2, TokenType::LeftParen),
                    core_types_list(toks, i0 + 3, true) == match core_types_list(toks, self.pos(), true) {
                        Some((ts, m)) => Some((acc + ts, m)),
                        None => None,
                    },
                    types_denote(associated_types@, acc),
                ensures
                    self.moved_from(*old(self)),
                    self.pos() > old(self).pos() + 2,
                    associated_types@.len() > 0,
                    toks == self.toks(),
                    i0 == old(self).pos(),
                    token_is(toks, i0 + 2, TokenType::LeftParen),
                    core_types_list(toks, i0 + 3, true) == if token_is(toks, self.pos(), TokenType::RightParen) {
                        Some((acc, self.pos() + 1))
                    } else {
                        None
                    },
                    types_denote(associated_types@, acc),
                decreases self.toks().len() - self.pos(),
            {
                let ghost p = self.pos();
                let t = self.parse_type()?;
                let ghost tc = type_at(toks, p, true)->Some_0.0;
                let ghost before = associated_types@;
                associated_types.push(t);
                proof {
                    assert(associated_types@ == before.push(t));
                    assert forall|k: int| 0 <= k < associated_types@.len() implies shape_of(
                        #[trigger] associated_types@[k],
                    ) == acc.push(tc)[k] by {
                        if k < before.len() {
                            assert(associated_types@[k] == before[k]);
                        }
                    }
                    match core_types_list(toks, self.pos() + 1, true) {
                        Some((ts, m)) => {
                            assert(acc + (seq![tc] + ts) =~= acc.push(tc) + ts);
                        },
                        None => {},
                    }
                    assert(acc + seq![tc] =~= acc.push(tc));
                    acc = acc.push(tc);
                }
                if self.check(&TokenType::Comma) {
                    self.advance();
                } else {
                    break;
                }
            }
            self.expect(&TokenType::RightParen, "expected ')' after associated types")?;
        }
        if self.check(&TokenType::Semicolon) {
            self.advance();
        } else if self.check(&TokenType::Comma) {
            self.advance();
        } else {
            return Err(self.unexpected("; or ,"));
        }
        Ok(EnumVariant { name, associated_types, source_location: start_location })
    }
}

} // verus!
