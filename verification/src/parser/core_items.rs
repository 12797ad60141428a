//! The core module items of both grammars and where they are read from:
//! imports, constants, functions without generics or `where` clauses, and
//! structs and enums without generics, built of core statements, types and
//! expressions. The item parsers of both grammars state what they produce
//! on them exactly; `extended` selects the grammar with precedence.

use vstd::prelude::*;
use crate::ast::{
    ConstantDeclaration, EnumVariant, ExportStatement, Function, ImportStatement, Module, Parameter, PassingMode,
    PrimitiveType, Program, StructField, TypeDefinition,
};
use crate::lexer::v2::{Keyword, Token, TokenType};
use crate::parser::core_syntax::{CoreStmt, core_block_at, expression_at, keyword_at, stmts_denote};
use crate::parser::v2::expressions::{CoreExpr, denotes};
use crate::parser::v2::types::{TypeShape, dotted_at, shape_of, token_is, type_at};

verus! {

/// A function: its name, its parameters (name and type), its return type
/// and its body.
pub struct CoreFunction {
    pub name: Seq<char>,
    pub params: Seq<(Seq<char>, TypeShape)>,
    pub ret: TypeShape,
    pub body: Seq<CoreStmt>,
}

/// A type definition of a core module.
pub enum CoreTypeDef {
    Struct(Seq<char>, Seq<(Seq<char>, TypeShape)>),
    Enum(Seq<char>, Seq<(Seq<char>, Seq<TypeShape>)>),
}

/// An export: the kind of the public item and its name.
pub enum CoreExport {
    Function(Seq<char>),
    Type(Seq<char>),
    Constant(Seq<char>),
}

/// The items of a core module, each list in the order written.
pub struct CoreItems {
    pub imports: Seq<(Seq<char>, Option<Seq<char>>)>,
    pub functions: Seq<CoreFunction>,
    pub types: Seq<CoreTypeDef>,
    pub constants: Seq<(Seq<char>, TypeShape, CoreExpr)>,
    pub exports: Seq<CoreExport>,
}

/// No items.
pub open spec fn no_items() -> CoreItems {
    CoreItems { imports: seq![], functions: seq![], types: seq![], constants: seq![], exports: seq![] }
}

/// The items of `a` followed by those of `b`.
pub open spec fn join_items(a: CoreItems, b: CoreItems) -> CoreItems {
    CoreItems {
        imports: a.imports + b.imports,
        functions: a.functions + b.functions,
        types: a.types + b.types,
        constants: a.constants + b.constants,
        exports: a.exports + b.exports,
    }
}

/// Joining items is associative.
pub proof fn lemma_join_items_assoc(a: CoreItems, b: CoreItems, c: CoreItems)
    ensures
        join_items(join_items(a, b), c) == join_items(a, join_items(b, c)),
{
    assert(join_items(join_items(a, b), c).imports =~= join_items(a, join_items(b, c)).imports);
    assert(join_items(join_items(a, b), c).functions =~= join_items(a, join_items(b, c)).functions);
    assert(join_items(join_items(a, b), c).types =~= join_items(a, join_items(b, c)).types);
    assert(join_items(join_items(a, b), c).constants =~= join_items(a, join_items(b, c)).constants);
    assert(join_items(join_items(a, b), c).exports =~= join_items(a, join_items(b, c)).exports);
}

/// No items is a neutral element of joining.
pub proof fn lemma_join_no_items(a: CoreItems)
    ensures
        join_items(a, no_items()) == a,
        join_items(no_items(), a) == a,
{
    assert(join_items(a, no_items()).imports =~= a.imports);
    assert(join_items(a, no_items()).functions =~= a.functions);
    assert(join_items(a, no_items()).types =~= a.types);
    assert(join_items(a, no_items()).constants =~= a.constants);
    assert(join_items(a, no_items()).exports =~= a.exports);
    assert(join_items(no_items(), a).imports =~= a.imports);
    assert(join_items(no_items(), a).functions =~= a.functions);
    assert(join_items(no_items(), a).types =~= a.types);
    assert(join_items(no_items(), a).constants =~= a.constants);
    assert(join_items(no_items(), a).exports =~= a.exports);
}

// ==================== WHAT A SYNTAX TREE SAYS ====================

/// A parameter is `name: type`, passed by value.
pub open spec fn param_denotes(p: Parameter, c: (Seq<char>, TypeShape)) -> bool {
    &&& p.name.name@ == c.0
    &&& shape_of(*p.param_type) == c.1
    &&& p.passing_mode == PassingMode::ByValue
    &&& p.intent is None
    &&& p.constraint is None
}

/// Parameters are the core parameters, one for one.
pub open spec fn params_denote(ps: Seq<Parameter>, cs: Seq<(Seq<char>, TypeShape)>) -> bool {
    ps.len() == cs.len() && forall|k: int| 0 <= k < ps.len() ==> param_denotes(#[trigger] ps[k], cs[k])
}

/// A function is the core function: no generics, `where` clause, intent,
/// annotations or export.
pub open spec fn function_denotes(f: Function, c: CoreFunction) -> bool {
    &&& f.name.name@ == c.name
    &&& params_denote(f.parameters@, c.params)
    &&& shape_of(*f.return_type) == c.ret
    &&& stmts_denote(f.body.statements@, c.body)
    &&& f.generic_parameters@.len() == 0
    &&& f.where_clause@.len() == 0
    &&& f.metadata.is_empty()
    &&& f.intent is None
    &&& f.export_info is None
}

/// A constant declaration is its name, type and value.
pub open spec fn const_denotes(d: ConstantDeclaration, c: (Seq<char>, TypeShape, CoreExpr)) -> bool {
    &&& d.name.name@ == c.0
    &&& shape_of(*d.type_spec) == c.1
    &&& denotes(*d.value, c.2)
    &&& d.intent is None
}

/// Struct fields are the named types, one for one.
pub open spec fn fields_denote(fs: Seq<StructField>, cs: Seq<(Seq<char>, TypeShape)>) -> bool {
    fs.len() == cs.len() && forall|k: int| 0 <= k < fs.len() ==>
        (#[trigger] fs[k]).name.name@ == cs[k].0 && shape_of(*fs[k].field_type) == cs[k].1
}

/// Type specifiers have the shapes, one for one.
pub open spec fn types_denote(ts: Seq<crate::ast::TypeSpecifier>, cs: Seq<TypeShape>) -> bool {
    ts.len() == cs.len() && forall|k: int| 0 <= k < ts.len() ==> shape_of(#[trigger] ts[k]) == cs[k]
}

/// Enum variants are the named lists of associated types, one for one.
pub open spec fn variants_denote(vs: Seq<EnumVariant>, cs: Seq<(Seq<char>, Seq<TypeShape>)>) -> bool {
    vs.len() == cs.len() && forall|k: int| 0 <= k < vs.len() ==>
        (#[trigger] vs[k]).name.name@ == cs[k].0 && types_denote(vs[k].associated_types@, cs[k].1)
}

/// A type definition is the struct `name { fields }` without generics.
pub open spec fn struct_denotes(t: TypeDefinition, name: Seq<char>, fields: Seq<(Seq<char>, TypeShape)>) -> bool {
    match t {
        TypeDefinition::Structured { name: n, intent, generic_parameters, where_clause, fields: fs, export_as, .. } => {
            &&& n.name@ == name
            &&& fields_denote(fs@, fields)
            &&& intent is None
            &&& generic_parameters@.len() == 0
            &&& where_clause@.len() == 0
            &&& export_as is None
        },
        _ => false,
    }
}

/// A type definition is the enum `name { variants }` without generics.
pub open spec fn enum_denotes(t: TypeDefinition, name: Seq<char>, variants: Seq<(Seq<char>, Seq<TypeShape>)>) -> bool {
    match t {
        TypeDefinition::Enumeration { name: n, intent, generic_parameters, where_clause, variants: vs, .. } => {
            &&& n.name@ == name
            &&& variants_denote(vs@, variants)
            &&& intent is None
            &&& generic_parameters@.len() == 0
            &&& where_clause@.len() == 0
        },
        _ => false,
    }
}

/// An import is the (dotted) module name and the optional alias.
pub open spec fn import_denotes(imp: ImportStatement, c: (Seq<char>, Option<Seq<char>>)) -> bool {
    &&& imp.module_name.name@ == c.0
    &&& match imp.alias {
        Some(a) => c.1 == Some(a.name@),
        None => c.1 is None,
    }
}

/// A type definition is the core one.
pub open spec fn type_def_denotes(t: TypeDefinition, c: CoreTypeDef) -> bool {
    match c {
        CoreTypeDef::Struct(n, fs) => struct_denotes(t, n, fs),
        CoreTypeDef::Enum(n, vs) => enum_denotes(t, n, vs),
    }
}

/// An export is the core export.
pub open spec fn export_denotes(e: ExportStatement, c: CoreExport) -> bool {
    match c {
        CoreExport::Function(n) => e matches ExportStatement::Function { name, .. } && name.name@ == n,
        CoreExport::Type(n) => e matches ExportStatement::Type { name, .. } && name.name@ == n,
        CoreExport::Constant(n) => e matches ExportStatement::Constant { name, .. } && name.name@ == n,
    }
}

/// The item lists are the core items, one for one in each list.
pub open spec fn items_denote(
    imports: Seq<ImportStatement>,
    functions: Seq<Function>,
    types: Seq<TypeDefinition>,
    constants: Seq<ConstantDeclaration>,
    exports: Seq<ExportStatement>,
    c: CoreItems,
) -> bool {
    &&& imports.len() == c.imports.len()
    &&& forall|k: int| 0 <= k < imports.len() ==> import_denotes(#[trigger] imports[k], c.imports[k])
    &&& functions.len() == c.functions.len()
    &&& forall|k: int| 0 <= k < functions.len() ==> function_denotes(#[trigger] functions[k], c.functions[k])
    &&& types.len() == c.types.len()
    &&& forall|k: int| 0 <= k < types.len() ==> type_def_denotes(#[trigger] types[k], c.types[k])
    &&& constants.len() == c.constants.len()
    &&& forall|k: int| 0 <= k < constants.len() ==> const_denotes(#[trigger] constants[k], c.constants[k])
    &&& exports.len() == c.exports.len()
    &&& forall|k: int| 0 <= k < exports.len() ==> export_denotes(#[trigger] exports[k], c.exports[k])
}

/// Item lists whose full subranges denote items denote them themselves.
pub proof fn lemma_items_denote_whole(
    imports: Seq<ImportStatement>, functions: Seq<Function>, types: Seq<TypeDefinition>,
    constants: Seq<ConstantDeclaration>, exports: Seq<ExportStatement>, c: CoreItems,
)
    requires
        items_denote(
            imports.subrange(0, imports.len() as int),
            functions.subrange(0, functions.len() as int),
            types.subrange(0, types.len() as int),
            constants.subrange(0, constants.len() as int),
            exports.subrange(0, exports.len() as int),
            c,
        ),
    ensures
        items_denote(imports, functions, types, constants, exports, c),
{
    assert(imports.subrange(0, imports.len() as int) =~= imports);
    assert(functions.subrange(0, functions.len() as int) =~= functions);
    assert(types.subrange(0, types.len() as int) =~= types);
    assert(constants.subrange(0, constants.len() as int) =~= constants);
    assert(exports.subrange(0, exports.len() as int) =~= exports);
}

/// Item lists that denote two parts of items, put together, denote the
/// joined items.
pub proof fn lemma_items_denote_join(
    i1: Seq<ImportStatement>, f1: Seq<Function>, t1: Seq<TypeDefinition>, c1: Seq<ConstantDeclaration>,
    e1: Seq<ExportStatement>, a: CoreItems,
    i2: Seq<ImportStatement>, f2: Seq<Function>, t2: Seq<TypeDefinition>, c2: Seq<ConstantDeclaration>,
    e2: Seq<ExportStatement>, b: CoreItems,
)
    requires
        items_denote(i1, f1, t1, c1, e1, a),
        items_denote(i2, f2, t2, c2, e2, b),
    ensures
        items_denote(i1 + i2, f1 + f2, t1 + t2, c1 + c2, e1 + e2, join_items(a, b)),
{
    let j = join_items(a, b);
    assert forall|k: int| 0 <= k < (i1 + i2).len() implies import_denotes(#[trigger] (i1 + i2)[k], j.imports[k]) by {
        if k >= i1.len() {
            assert((i1 + i2)[k] == i2[k - i1.len()]);
        }
    }
    assert forall|k: int| 0 <= k < (f1 + f2).len() implies function_denotes(#[trigger] (f1 + f2)[k], j.functions[k]) by {
        if k >= f1.len() {
            assert((f1 + f2)[k] == f2[k - f1.len()]);
        }
    }
    assert forall|k: int| 0 <= k < (t1 + t2).len() implies type_def_denotes(#[trigger] (t1 + t2)[k], j.types[k]) by {
        if k >= t1.len() {
            assert((t1 + t2)[k] == t2[k - t1.len()]);
        }
    }
    assert forall|k: int| 0 <= k < (c1 + c2).len() implies const_denotes(#[trigger] (c1 + c2)[k], j.constants[k]) by {
        if k >= c1.len() {
            assert((c1 + c2)[k] == c2[k - c1.len()]);
        }
    }
    assert forall|k: int| 0 <= k < (e1 + e2).len() implies export_denotes(#[trigger] (e1 + e2)[k], j.exports[k]) by {
        if k >= e1.len() {
            assert((e1 + e2)[k] == e2[k - e1.len()]);
        }
    }
}

/// A module is the named core module: its items, and no external
/// functions, traits or intent.
pub open spec fn module_denotes(m: Module, name: Seq<char>, c: CoreItems) -> bool {
    &&& m.name.name@ == name
    &&& items_denote(m.imports@, m.function_definitions@, m.type_definitions@, m.constant_declarations@, m.exports@, c)
    &&& m.external_functions@.len() == 0
    &&& m.trait_definitions@.len() == 0
    &&& m.intent is None
}

/// The modules of a program are the named core modules, one for one.
pub open spec fn program_denotes(p: Program, cs: Seq<(Seq<char>, CoreItems)>) -> bool {
    p.modules@.len() == cs.len() && forall|k: int| 0 <= k < cs.len() ==> module_denotes(#[trigger] p.modules@[k], cs[k].0, cs[k].1)
}

// ==================== WHERE IT IS READ FROM ====================

/// A parameter `name: type` at `i`, and the index after it.
pub open spec fn core_param_at(toks: Seq<Token>, i: int, extended: bool) -> Option<((Seq<char>, TypeShape), int)> {
    if 0 <= i < toks.len() && toks[i].token_type is Identifier && token_is(toks, i + 1, TokenType::Colon) {
        match type_at(toks, i + 2, extended) {
            Some((t, k)) => Some(((toks[i].token_type->Identifier_0@, t), k)),
            None => None,
        }
    } else {
        None
    }
}

/// Further parameters `, name: type ...` from `j`, and the index after them.
pub open spec fn core_params_rest(toks: Seq<Token>, j: int, extended: bool) -> Option<(Seq<(Seq<char>, TypeShape)>, int)>
    decreases toks.len() - j,
{
    if token_is(toks, j, TokenType::Comma) {
        match core_param_at(toks, j + 1, extended) {
            Some((p, k)) => if j < k <= toks.len() {
                match core_params_rest(toks, k, extended) {
                    Some((ps, m)) => Some((seq![p] + ps, m)),
                    None => None,
                }
            } else {
                None
            },
            None => None,
        }
    } else {
        Some((seq![], j))
    }
}

/// The parameters at `i` (nothing before a `)`), and the index after them.
pub open spec fn core_params_at(toks: Seq<Token>, i: int, extended: bool) -> Option<(Seq<(Seq<char>, TypeShape)>, int)> {
    if token_is(toks, i, TokenType::RightParen) {
        Some((seq![], i))
    } else {
        match core_param_at(toks, i, extended) {
            Some((p, k)) => if i < k <= toks.len() {
                match core_params_rest(toks, k, extended) {
                    Some((ps, m)) => Some((seq![p] + ps, m)),
                    None => None,
                }
            } else {
                None
            },
            None => None,
        }
    }
}

/// A function `func name(params) [-> type] { body }` at `i` (return type
/// `Void` without `->`), with no generics and no `where` clause, and the
/// index after it.
pub open spec fn core_function_at(toks: Seq<Token>, i: int, extended: bool) -> Option<(CoreFunction, int)> {
    if keyword_at(toks, i, Keyword::Func) && i + 1 < toks.len() && toks[i + 1].token_type is Identifier
        && token_is(toks, i + 2, TokenType::LeftParen) {
        match core_params_at(toks, i + 3, extended) {
            Some((ps, k)) => if token_is(toks, k, TokenType::RightParen) {
                let ret = if token_is(toks, k + 1, TokenType::Arrow) {
                    type_at(toks, k + 2, extended)
                } else {
                    Some((TypeShape::Primitive(PrimitiveType::Void), k + 1))
                };
                match ret {
                    Some((t, m)) => if !(extended && keyword_at(toks, m, Keyword::Where)) {
                        match core_block_at(toks, m, extended) {
                            Some((b, e)) => Some((
                                CoreFunction { name: toks[i + 1].token_type->Identifier_0@, params: ps, ret: t, body: b },
                                e,
                            )),
                            None => None,
                        }
                    } else {
                        None
                    },
                    None => None,
                }
            } else {
                None
            },
            None => None,
        }
    } else {
        None
    }
}

/// The signature `func name(params) -> type;` of an external function at
/// `i`: its name, parameters and return type, and the index after it.
pub open spec fn core_extern_sig_at(toks: Seq<Token>, i: int, extended: bool)
    -> Option<((Seq<char>, Seq<(Seq<char>, TypeShape)>, TypeShape), int)> {
    if keyword_at(toks, i, Keyword::Func) && i + 1 < toks.len() && toks[i + 1].token_type is Identifier
        && token_is(toks, i + 2, TokenType::LeftParen) {
        match core_params_at(toks, i + 3, extended) {
            Some((ps, k)) => if token_is(toks, k, TokenType::RightParen) && token_is(toks, k + 1, TokenType::Arrow) {
                match type_at(toks, k + 2, extended) {
                    Some((t, m)) => if token_is(toks, m, TokenType::Semicolon) {
                        Some(((toks[i + 1].token_type->Identifier_0@, ps, t), m + 1))
                    } else {
                        None
                    },
                    None => None,
                }
            } else {
                None
            },
            None => None,
        }
    } else {
        None
    }
}

/// A constant `const name: type = value;` at `i`, and the index after it.
pub open spec fn core_const_at(toks: Seq<Token>, i: int, extended: bool) -> Option<((Seq<char>, TypeShape, CoreExpr), int)> {
    if keyword_at(toks, i, Keyword::Const) && i + 1 < toks.len() && toks[i + 1].token_type is Identifier
        && token_is(toks, i + 2, TokenType::Colon) {
        match type_at(toks, i + 3, extended) {
            Some((t, k)) => if token_is(toks, k, TokenType::Equal) {
                match expression_at(toks, k + 1, extended) {
                    Some((e, m)) => if token_is(toks, m, TokenType::Semicolon) {
                        Some(((toks[i + 1].token_type->Identifier_0@, t, e), m + 1))
                    } else {
                        None
                    },
                    None => None,
                }
            } else {
                None
            },
            None => None,
        }
    } else {
        None
    }
}

/// A struct field `name: type` at `j` with an optional `,` or `;` after it,
/// and the index after that.
pub open spec fn core_field_at(toks: Seq<Token>, j: int, extended: bool) -> Option<((Seq<char>, TypeShape), int)> {
    if 0 <= j < toks.len() && toks[j].token_type is Identifier && token_is(toks, j + 1, TokenType::Colon) {
        match type_at(toks, j + 2, extended) {
            Some((t, k)) => Some((
                (toks[j].token_type->Identifier_0@, t),
                if token_is(toks, k, TokenType::Comma) || token_is(toks, k, TokenType::Semicolon) { k + 1 } else { k },
            )),
            None => None,
        }
    } else {
        None
    }
}

/// The fields of a struct from `j` up to its `}`, and the index after it.
pub open spec fn core_fields_from(toks: Seq<Token>, j: int, extended: bool) -> Option<(Seq<(Seq<char>, TypeShape)>, int)>
    decreases toks.len() - j,
{
    if j < 0 || j >= toks.len() || toks[j].token_type is Eof {
        None
    } else if toks[j].token_type is RightBrace {
        Some((seq![], j + 1))
    } else {
        match core_field_at(toks, j, extended) {
            Some((f, k)) => if j < k <= toks.len() {
                match core_fields_from(toks, k, extended) {
                    Some((fs, m)) => Some((seq![f] + fs, m)),
                    None => None,
                }
            } else {
                None
            },
            None => None,
        }
    }
}

/// A struct `struct name { fields }` at `i`, and the index after it.
pub open spec fn core_struct_at(toks: Seq<Token>, i: int, extended: bool) -> Option<((Seq<char>, Seq<(Seq<char>, TypeShape)>), int)> {
    if keyword_at(toks, i, Keyword::Struct) && i + 1 < toks.len() && toks[i + 1].token_type is Identifier
        && token_is(toks, i + 2, TokenType::LeftBrace) {
        match core_fields_from(toks, i + 3, extended) {
            Some((fs, e)) => Some(((toks[i + 1].token_type->Identifier_0@, fs), e)),
            None => None,
        }
    } else {
        None
    }
}

/// The associated types `type, ... )` of a variant from `j`, and the index
/// after the `)`.
pub open spec fn core_types_list(toks: Seq<Token>, j: int, extended: bool) -> Option<(Seq<TypeShape>, int)>
    decreases toks.len() - j,
{
    match type_at(toks, j, extended) {
        Some((t, k)) => if j < k <= toks.len() {
            if token_is(toks, k, TokenType::Comma) {
                match core_types_list(toks, k + 1, extended) {
                    Some((ts, m)) => Some((seq![t] + ts, m)),
                    None => None,
                }
            } else if token_is(toks, k, TokenType::RightParen) {
                Some((seq![t], k + 1))
            } else {
                None
            }
        } else {
            None
        },
        None => None,
    }
}

/// A variant `case name[(types)]` at `j` followed by `;` or `,`, and the
/// index after that.
pub open spec fn core_variant_at(toks: Seq<Token>, j: int, extended: bool) -> Option<((Seq<char>, Seq<TypeShape>), int)> {
    if keyword_at(toks, j, Keyword::Case) && j + 1 < toks.len() && toks[j + 1].token_type is Identifier {
        let typed = if token_is(toks, j + 2, TokenType::LeftParen) {
            core_types_list(toks, j + 3, extended)
        } else {
            Some((seq![], j + 2))
        };
        match typed {
            Some((ts, k)) => if token_is(toks, k, TokenType::Semicolon) || token_is(toks, k, TokenType::Comma) {
                Some(((toks[j + 1].token_type->Identifier_0@, ts), k + 1))
            } else {
                None
            },
            None => None,
        }
    } else {
        None
    }
}

/// The variants of an enum from `j` up to its `}`, and the index after it.
pub open spec fn core_variants_from(toks: Seq<Token>, j: int, extended: bool) -> Option<(Seq<(Seq<char>, Seq<TypeShape>)>, int)>
    decreases toks.len() - j,
{
    if j < 0 || j >= toks.len() || toks[j].token_type is Eof {
        None
    } else if toks[j].token_type is RightBrace {
        Some((seq![], j + 1))
    } else {
        match core_variant_at(toks, j, extended) {
            Some((v, k)) => if j < k <= toks.len() {
                match core_variants_from(toks, k, extended) {
                    Some((vs, m)) => Some((seq![v] + vs, m)),
                    None => None,
                }
            } else {
                None
            },
            None => None,
        }
    }
}

/// An enum `enum name { variants }` at `i`, and the index after it.
pub open spec fn core_enum_at(toks: Seq<Token>, i: int, extended: bool) -> Option<((Seq<char>, Seq<(Seq<char>, Seq<TypeShape>)>), int)> {
    if keyword_at(toks, i, Keyword::Enum) && i + 1 < toks.len() && toks[i + 1].token_type is Identifier
        && token_is(toks, i + 2, TokenType::LeftBrace) {
        match core_variants_from(toks, i + 3, extended) {
            Some((vs, e)) => Some(((toks[i + 1].token_type->Identifier_0@, vs), e)),
            None => None,
        }
    } else {
        None
    }
}

/// An import `import a.b.c [as name];` at `i` (an alias only in the
/// extended grammar), and the index after it.
pub open spec fn core_import_at(toks: Seq<Token>, i: int, extended: bool) -> Option<((Seq<char>, Option<Seq<char>>), int)> {
    if keyword_at(toks, i, Keyword::Import) {
        match dotted_at(toks, i + 1) {
            Some((name, k)) => {
                let aliased = if extended && keyword_at(toks, k, Keyword::As) {
                    if k + 1 < toks.len() && toks[k + 1].token_type is Identifier {
                        Some((Some(toks[k + 1].token_type->Identifier_0@), k + 2))
                    } else {
                        None
                    }
                } else {
                    Some((None, k))
                };
                match aliased {
                    Some((alias, m)) => if token_is(toks, m, TokenType::Semicolon) {
                        Some(((name, alias), m + 1))
                    } else {
                        None
                    },
                    None => None,
                }
            },
            None => None,
        }
    } else {
        None
    }
}

/// The index of the token that decides what a module item is: the one
/// after an optional `pub`.
pub open spec fn item_start(toks: Seq<Token>, i: int) -> int {
    if 0 <= i < toks.len() && toks[i].token_type == TokenType::Keyword(Keyword::Pub) { i + 1 } else { i }
}

/// One core module item at `i` (with an optional `pub`, which exports a
/// function, struct, enum or constant), as items, and the index after it.
pub open spec fn core_item_at(toks: Seq<Token>, i: int, extended: bool) -> Option<(CoreItems, int)> {
    let h = item_start(toks, i);
    let public = h == i + 1;
    if keyword_at(toks, h, Keyword::Import) {
        match core_import_at(toks, h, extended) {
            Some((c, k)) => Some((CoreItems { imports: seq![c], ..no_items() }, k)),
            None => None,
        }
    } else if keyword_at(toks, h, Keyword::Func) {
        match core_function_at(toks, h, extended) {
            Some((f, k)) => Some((
                CoreItems {
                    functions: seq![f],
                    exports: if public { seq![CoreExport::Function(f.name)] } else { seq![] },
                    ..no_items()
                },
                k,
            )),
            None => None,
        }
    } else if keyword_at(toks, h, Keyword::Struct) {
        match core_struct_at(toks, h, extended) {
            Some((c, k)) => Some((
                CoreItems {
                    types: seq![CoreTypeDef::Struct(c.0, c.1)],
                    exports: if public { seq![CoreExport::Type(c.0)] } else { seq![] },
                    ..no_items()
                },
                k,
            )),
            None => None,
        }
    } else if keyword_at(toks, h, Keyword::Enum) {
        match core_enum_at(toks, h, extended) {
            Some((c, k)) => Some((
                CoreItems {
                    types: seq![CoreTypeDef::Enum(c.0, c.1)],
                    exports: if public { seq![CoreExport::Type(c.0)] } else { seq![] },
                    ..no_items()
                },
                k,
            )),
            None => None,
        }
    } else if keyword_at(toks, h, Keyword::Const) {
        match core_const_at(toks, h, extended) {
            Some((c, k)) => Some((
                CoreItems {
                    constants: seq![c],
                    exports: if public { seq![CoreExport::Constant(c.0)] } else { seq![] },
                    ..no_items()
                },
                k,
            )),
            None => None,
        }
    } else {
        None
    }
}

/// Core items from `j` up to the end of the stream, or up to a `}` where
/// `inline`, and the index where they stop.
pub open spec fn core_items_from(toks: Seq<Token>, j: int, inline: bool, extended: bool) -> Option<(CoreItems, int)>
    decreases toks.len() - j,
{
    if j < 0 || j >= toks.len() {
        None
    } else if toks[j].token_type is Eof || (inline && toks[j].token_type is RightBrace) {
        Some((no_items(), j))
    } else {
        match core_item_at(toks, j, extended) {
            Some((it, k)) => if j < k <= toks.len() {
                match core_items_from(toks, k, inline, extended) {
                    Some((rest, m)) => Some((join_items(it, rest), m)),
                    None => None,
                }
            } else {
                None
            },
            None => None,
        }
    }
}

/// A core module `module name;` with items up to the end of the stream, or
/// `module name { items }`, at `i`: its name and items, and the index after
/// it.
pub open spec fn core_module_at(toks: Seq<Token>, i: int, extended: bool) -> Option<((Seq<char>, CoreItems), int)> {
    if keyword_at(toks, i, Keyword::Module) && i + 1 < toks.len() && toks[i + 1].token_type is Identifier {
        let name = toks[i + 1].token_type->Identifier_0@;
        if token_is(toks, i + 2, TokenType::Semicolon) {
            match core_items_from(toks, i + 3, false, extended) {
                Some((it, e)) => Some(((name, it), e)),
                None => None,
            }
        } else if token_is(toks, i + 2, TokenType::LeftBrace) {
            match core_items_from(toks, i + 3, true, extended) {
                Some((it, e)) => if token_is(toks, e, TokenType::RightBrace) {
                    Some(((name, it), e + 1))
                } else {
                    None
                },
                None => None,
            }
        } else {
            None
        }
    } else {
        None
    }
}

/// Core modules from `j` up to the end of the stream, and the index of the
/// end.
pub open spec fn core_program_from(toks: Seq<Token>, j: int, extended: bool) -> Option<(Seq<(Seq<char>, CoreItems)>, int)>
    decreases toks.len() - j,
{
    if j < 0 || j >= toks.len() {
        None
    } else if toks[j].token_type is Eof {
        Some((seq![], j))
    } else {
        match core_module_at(toks, j, extended) {
            Some((m, k)) => if j < k <= toks.len() {
                match core_program_from(toks, k, extended) {
                    Some((ms, e)) => Some((seq![m] + ms, e)),
                    None => None,
                }
            } else {
                None
            },
            None => None,
        }
    }
}

} // verus!
