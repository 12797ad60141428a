//! Tests of what the extended V2 parser adds: operator precedence,
//! `if`/`try`/`throw` statements, generics and `where` clauses, traits,
//! import aliases, labeled call arguments and annotations applied to
//! functions.

use aetherscript::ast::{
    ComplexityNotation, ComplexityType, Expression, PerformanceMetric, PrimitiveType, QuantifierKind, Statement,
    TypeDefinition, TypeSpecifier,
};
use aetherscript::lexer::v2::Lexer;
use aetherscript::parser::extended::{AnnotationValue, Parser};

fn parser_from_source(source: &str) -> Parser {
    let mut lexer = Lexer::new(source, "test.aether".to_string());
    let tokens = lexer.tokenize().unwrap();
    Parser::new(tokens)
}

fn variable_name(e: &Expression) -> &str {
    match e {
        Expression::Variable { name, .. } => name.name.as_str(),
        other => panic!("expected a variable, found {:?}", other),
    }
}

#[test]
fn multiplication_binds_tighter_than_addition() {
    let mut parser = parser_from_source("a + b * c");
    let expr = parser.parse_expression().unwrap();
    match expr {
        Expression::Add { left, right, .. } => {
            assert_eq!(variable_name(&left), "a");
            match *right {
                Expression::Multiply { left, right, .. } => {
                    assert_eq!(variable_name(&left), "b");
                    assert_eq!(variable_name(&right), "c");
                },
                other => panic!("expected a product, found {:?}", other),
            }
        },
        other => panic!("expected a sum, found {:?}", other),
    }
}

#[test]
fn subtraction_folds_from_the_left() {
    let mut parser = parser_from_source("a - b - c");
    match parser.parse_expression().unwrap() {
        Expression::Subtract { left, right, .. } => {
            assert!(matches!(*left, Expression::Subtract { .. }));
            assert_eq!(variable_name(&right), "c");
        },
        other => panic!("expected a difference, found {:?}", other),
    }
}

#[test]
fn logical_operators_nest_by_precedence() {
    let mut parser = parser_from_source("!a && b || c");
    match parser.parse_expression().unwrap() {
        Expression::LogicalOr { operands, .. } => {
            assert_eq!(operands.len(), 2);
            match &operands[0] {
                Expression::LogicalAnd { operands: inner, .. } => {
                    assert!(matches!(inner[0], Expression::LogicalNot { .. }));
                    assert_eq!(variable_name(&inner[1]), "b");
                },
                other => panic!("expected a conjunction, found {:?}", other),
            }
            assert_eq!(variable_name(&operands[1]), "c");
        },
        other => panic!("expected a disjunction, found {:?}", other),
    }
}

#[test]
fn braces_group_an_operand() {
    let mut parser = parser_from_source("{a + b} * c");
    match parser.parse_expression().unwrap() {
        Expression::Multiply { left, .. } => assert!(matches!(*left, Expression::Add { .. })),
        other => panic!("expected a product, found {:?}", other),
    }
}

#[test]
fn comparison_and_ranges() {
    let mut parser = parser_from_source("x <= 10 == true");
    assert!(matches!(parser.parse_expression().unwrap(), Expression::Equals { .. }));

    let mut parser = parser_from_source("0..n");
    match parser.parse_expression().unwrap() {
        Expression::Range { start, end, inclusive, .. } => {
            assert!(start.is_some() && end.is_some() && !inclusive);
        },
        other => panic!("expected a range, found {:?}", other),
    }

    let mut parser = parser_from_source("..=5");
    match parser.parse_expression().unwrap() {
        Expression::Range { start, inclusive, .. } => assert!(start.is_none() && inclusive),
        other => panic!("expected a range, found {:?}", other),
    }
}

#[test]
fn labeled_arguments_keep_their_labels() {
    let mut parser = parser_from_source("f(x: 1, 2)");
    match parser.parse_expression().unwrap() {
        Expression::FunctionCall { call, .. } => {
            assert_eq!(call.arguments.len(), 2);
            assert_eq!(call.arguments[0].parameter_name.name, "x");
            assert_eq!(call.arguments[1].parameter_name.name, "arg_1");
        },
        other => panic!("expected a call, found {:?}", other),
    }
}

#[test]
fn array_literal_takes_the_first_elements_type() {
    let mut parser = parser_from_source("[\"a\", \"b\"]");
    match parser.parse_expression().unwrap() {
        Expression::ArrayLiteral { element_type, elements, .. } => {
            assert_eq!(elements.len(), 2);
            assert!(matches!(*element_type, TypeSpecifier::Primitive { primitive_type: PrimitiveType::String, .. }));
        },
        other => panic!("expected an array, found {:?}", other),
    }
}

#[test]
fn if_else_if_else_statement() {
    let mut parser = parser_from_source("if x > 1 { return 1; } else if x > 0 { return 0; } else { return 2; }");
    match parser.parse_statement().unwrap() {
        Statement::If { condition, else_ifs, else_block, .. } => {
            assert!(matches!(*condition, Expression::GreaterThan { .. }));
            assert_eq!(else_ifs.len(), 1);
            assert!(else_block.is_some());
        },
        other => panic!("expected an if statement, found {:?}", other),
    }
}

#[test]
fn try_catch_finally_and_throw() {
    let mut parser = parser_from_source("try { throw Error(\"x\"); } catch Error as e { return 1; } finally { return 2; }");
    match parser.parse_statement().unwrap() {
        Statement::TryBlock { protected_block, catch_clauses, finally_block, .. } => {
            assert!(matches!(protected_block.statements[0], Statement::Throw { .. }));
            assert_eq!(catch_clauses.len(), 1);
            assert_eq!(catch_clauses[0].binding_variable.as_ref().unwrap().name, "e");
            assert!(finally_block.is_some());
        },
        other => panic!("expected a try statement, found {:?}", other),
    }
}

#[test]
fn generic_function_with_where_clause() {
    let mut parser = parser_from_source("func id<T, U>(x: T) -> T where T: Clone + Debug, U: Eq { return x; }");
    let func = parser.parse_function().unwrap();
    assert_eq!(func.generic_parameters.len(), 2);
    assert_eq!(func.generic_parameters[1].name.name, "U");
    assert_eq!(func.where_clause.len(), 2);
    assert_eq!(func.where_clause[0].constraints.len(), 2);
    assert_eq!(func.where_clause[0].constraints[1].name, "Debug");
}

#[test]
fn generic_struct_and_dotted_type() {
    let mut parser = parser_from_source("struct Pair<A, B> { first: A, second: std.io.File }");
    match parser.parse_struct().unwrap() {
        TypeDefinition::Structured { generic_parameters, fields, .. } => {
            assert_eq!(generic_parameters.len(), 2);
            match &*fields[1].field_type {
                TypeSpecifier::Named { name, .. } => assert_eq!(name.name, "std.io.File"),
                other => panic!("expected a named type, found {:?}", other),
            }
        },
        other => panic!("expected a struct, found {:?}", other),
    }
}

#[test]
fn trait_with_methods_and_an_axiom() {
    let source = "trait Eq<T> { func eq(a: T, b: T) -> Bool; func ne(a: T, b: T) -> Bool { return true; } @axiom refl: forall x: T => eq(x, x) }";
    let mut parser = parser_from_source(source);
    let t = parser.parse_trait_definition().unwrap();
    assert_eq!(t.name.name, "Eq");
    assert_eq!(t.methods.len(), 2);
    assert!(t.methods[0].default_body.is_none());
    assert!(t.methods[1].default_body.is_some());
    assert_eq!(t.axioms.len(), 1);
    assert_eq!(t.axioms[0].name.as_ref().unwrap().name, "refl");
    assert_eq!(t.axioms[0].quantifiers.len(), 1);
    assert_eq!(t.axioms[0].quantifiers[0].kind, QuantifierKind::ForAll);
    assert!(matches!(*t.axioms[0].condition, Expression::FunctionCall { .. }));
}

#[test]
fn import_alias_and_public_trait() {
    let mut parser = parser_from_source("module M { import std.io as io; pub trait Show { func show(x: Int) -> String; } }");
    let module = parser.parse_module().unwrap();
    assert_eq!(module.imports[0].module_name.name, "std.io");
    assert_eq!(module.imports[0].alias.as_ref().unwrap().name, "io");
    assert_eq!(module.trait_definitions.len(), 1);
    assert_eq!(module.exports.len(), 1);
}

#[test]
fn variadic_external_function() {
    let mut parser = parser_from_source("module M { @extern(library: \"libc\", variadic: true) func printf(fmt: Pointer<Char>) -> Int; }");
    let module = parser.parse_module().unwrap();
    assert_eq!(module.external_functions.len(), 1);
    assert!(module.external_functions[0].variadic);
    assert_eq!(module.external_functions[0].library, "libc");
}

#[test]
fn annotations_fill_in_a_functions_metadata() {
    let source = "module M {
        @intent(\"keeps n\")
        @pre({n > 0})
        @post({n >= 0}, check=runtime)
        @algo(\"identity\")
        @perf(metric: \"LatencyMs\", target: 5, context: \"hot\")
        @complexity(type: \"Space\", notation: \"BigTheta\", value: \"n\")
        @thread_safe(true)
        @may_block(false)
        @unknown(1)
        func f(n: Int) -> Int { return n; }
    }";
    let mut parser = parser_from_source(source);
    let module = parser.parse_module().unwrap();
    let func = &module.function_definitions[0];
    assert_eq!(func.intent.as_deref(), Some("keeps n"));
    assert_eq!(func.metadata.preconditions.len(), 1);
    assert!(!func.metadata.preconditions[0].runtime_check);
    assert!(matches!(*func.metadata.preconditions[0].condition, Expression::GreaterThan { .. }));
    assert_eq!(func.metadata.postconditions.len(), 1);
    assert!(func.metadata.postconditions[0].runtime_check);
    assert_eq!(func.metadata.algorithm_hint.as_deref(), Some("identity"));
    let perf = func.metadata.performance_expectation.as_ref().unwrap();
    assert_eq!(perf.metric, PerformanceMetric::LatencyMs);
    assert_eq!(perf.target_value, "5");
    assert_eq!(perf.context.as_deref(), Some("hot"));
    let complexity = func.metadata.complexity_expectation.as_ref().unwrap();
    assert_eq!(complexity.complexity_type, ComplexityType::Space);
    assert_eq!(complexity.notation, ComplexityNotation::BigTheta);
    assert_eq!(complexity.value, "n");
    assert_eq!(func.metadata.thread_safe, Some(true));
    assert_eq!(func.metadata.may_block, Some(false));
}

#[test]
fn unknown_metric_gives_no_performance_expectation() {
    let mut parser = parser_from_source("module M { @perf(metric: \"Joules\", target: 2.5) func f() { } }");
    let module = parser.parse_module().unwrap();
    assert!(module.function_definitions[0].metadata.performance_expectation.is_none());

    let mut parser = parser_from_source("@perf(target: 2.5)");
    let annotation = parser.parse_annotation().unwrap();
    assert!(matches!(&annotation.arguments[0].value, AnnotationValue::Float(t) if t == "2.5"));
}

#[test]
fn a_parser_over_lexer_output_is_ready() {
    let parser = parser_from_source("");
    assert!(parser.is_at_end());
    assert_eq!(parser.token_count(), 1);
}
