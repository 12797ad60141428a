//! Tests of the failures the parsers state: which inputs are refused and
//! with which `expected` text, and of the error recovery of modules.

use aetherscript::ast::{CaptureMode, Expression, LambdaBody, QuantifierKind, Statement, TypeSpecifier};
use aetherscript::lexer::v2::TokenType;
use aetherscript::error::{ParserError, SourceLocation};
use aetherscript::lexer::v2::Lexer;
use aetherscript::parser::extended;
use aetherscript::parser::v2::expressions::BinaryOp;
use aetherscript::parser::v2::Parser;

fn v2_parser(source: &str) -> Parser {
    let mut lexer = Lexer::new(source, "errors.aether".to_string());
    Parser::new(lexer.tokenize().unwrap())
}

fn extended_parser(source: &str) -> extended::Parser {
    let mut lexer = Lexer::new(source, "errors.aether".to_string());
    extended::Parser::new(lexer.tokenize().unwrap())
}

fn expected_text(e: &ParserError) -> String {
    match e {
        ParserError::UnexpectedToken { expected, .. } => expected.clone(),
        other => panic!("expected an unexpected-token error, found {:?}", other),
    }
}

#[test]
fn break_and_continue_without_semicolon_name_it() {
    let e = v2_parser("break").parse_break_statement().unwrap_err();
    assert_eq!(expected_text(&e), "expected ';' after break");
    let e = extended_parser("continue").parse_continue_statement().unwrap_err();
    assert_eq!(expected_text(&e), "expected ';' after continue");
}

#[test]
fn a_negative_number_is_no_pattern() {
    let e = v2_parser("-1 =>").parse_pattern().unwrap_err();
    assert_eq!(expected_text(&e), "pattern (_, identifier, or literal)");
}

#[test]
fn malformed_modules_functions_and_enums_are_refused() {
    for source in ["module { }", "module Test }", "module Test {"] {
        assert!(v2_parser(source).parse_module().is_err(), "{}", source);
    }
    for source in ["func () { }", "func foo) { }", "func foo( { }", "func foo()", "func foo(x) { }"] {
        assert!(v2_parser(source).parse_function().is_err(), "{}", source);
    }
    assert!(v2_parser("enum Color { Red; }").parse_enum().is_err());
    assert!(v2_parser("enum Color { case Red }").parse_enum().is_err());
    assert!(v2_parser("enum Color { case Red; case Green; }").parse_enum().is_ok());
}

#[test]
fn a_bad_item_is_reported_and_later_items_kept() {
    let mut parser = v2_parser("module test; 123; func good() -> Int { return 0; }");
    let (module, errors) = parser.parse_module_with_recovery();
    assert!(!errors.is_empty());
    let module = module.unwrap();
    assert!(module.function_definitions.iter().any(|f| f.name.name == "good"));
}

#[test]
fn generic_parameters_and_where_clauses_are_read() {
    let mut parser = extended_parser("<T, U>");
    let params = parser.parse_generic_parameters().unwrap();
    assert_eq!(params.len(), 2);
    assert_eq!(params[1].name.name, "U");
    let mut clause = extended_parser("where T: Eq + Hash, U: Ord {");
    let clauses = clause.parse_where_clause().unwrap();
    assert_eq!(clauses.len(), 2);
    assert_eq!(clauses[0].constraints.len(), 2);
    assert_eq!(clauses[1].type_param.name, "U");
}

#[test]
fn quantifier_variables_are_read() {
    let mut parser = extended_parser("exists x: Int, y: Bool => x");
    let q = parser.parse_quantifier().unwrap();
    assert_eq!(q.kind, QuantifierKind::Exists);
    assert_eq!(q.variables.len(), 2);
    assert_eq!(q.variables[1].name.name, "y");
    assert!(parser.parse_quantifier().is_err());
}

#[test]
fn lambda_with_captures_is_exact() {
    let mut parser = v2_parser("[x, &y, &mut z](a: Int) => a");
    match parser.parse_expression().unwrap() {
        Expression::Lambda { captures, parameters, return_type, body, .. } => {
            assert_eq!(captures.len(), 3);
            assert_eq!(captures[0].mode, CaptureMode::ByValue);
            assert_eq!(captures[1].mode, CaptureMode::ByReference);
            assert_eq!(captures[2].mode, CaptureMode::ByMutableReference);
            assert_eq!(captures[2].name.name, "z");
            assert_eq!(parameters.len(), 1);
            assert!(return_type.is_none());
            assert!(matches!(body, LambdaBody::Expression(_)));
        },
        other => panic!("expected a lambda, found {:?}", other),
    }
}

#[test]
fn binary_expressions_keep_their_location() {
    let parser = v2_parser("x");
    let location = SourceLocation::unknown();
    let left = Expression::IntegerLiteral { value: 1, source_location: SourceLocation::unknown() };
    let right = Expression::IntegerLiteral { value: 2, source_location: SourceLocation::unknown() };
    match parser.build_binary_expression(left, BinaryOp::LessEqual, right, location) {
        Expression::LessThanOrEqual { source_location, .. } => assert_eq!(source_location, SourceLocation::unknown()),
        other => panic!("expected a comparison, found {:?}", other),
    }
}

#[test]
fn errors_describe_the_token_found() {
    match v2_parser("break").parse_break_statement().unwrap_err() {
        ParserError::UnexpectedToken { found, .. } => assert_eq!(found, "Eof"),
        other => panic!("expected an unexpected-token error, found {:?}", other),
    }
    match v2_parser("x").parse_pattern() {
        Ok(_) => {},
        Err(e) => panic!("a binding is a pattern: {:?}", e),
    }
    match extended_parser("\"a\\\"b\"").parse_break_statement().unwrap_err() {
        ParserError::UnexpectedToken { found, .. } => assert_eq!(found, "StringLiteral(\"a\\\"b\")"),
        other => panic!("expected an unexpected-token error, found {:?}", other),
    }
}

#[test]
fn axiom_quantifiers_and_condition_are_read() {
    let mut parser = extended_parser("@axiom comm: forall a: Int, b: Int => a + b == b + a");
    let law = parser.parse_axiom().unwrap();
    assert_eq!(law.name.unwrap().name, "comm");
    assert_eq!(law.quantifiers.len(), 1);
    assert_eq!(law.quantifiers[0].variables.len(), 2);
    assert!(matches!(*law.condition, Expression::Equals { .. }));
}

#[test]
fn calling_the_result_of_a_call_is_refused() {
    let e = extended_parser("f(1)(2)").parse_postfix_expression().unwrap_err();
    match e {
        ParserError::UnexpectedToken { expected, found, .. } => {
            assert_eq!(expected, "function name");
            assert_eq!(found, "complex expression");
        },
        other => panic!("unexpected error {:?}", other),
    }
}

#[test]
fn address_of_and_ranges_are_read() {
    match extended_parser("&mut x").parse_special_expression().unwrap() {
        Expression::AddressOf { operand, mutability, .. } => {
            assert!(mutability);
            assert!(matches!(*operand, Expression::Variable { ref name, .. } if name.name == "x"));
        },
        other => panic!("expected an address, found {:?}", other),
    }
    match extended_parser("..5").parse_special_expression().unwrap() {
        Expression::Range { start, end, inclusive, .. } => {
            assert!(start.is_none());
            assert!(!inclusive);
            assert!(matches!(end.as_deref(), Some(Expression::IntegerLiteral { value: 5, .. })));
        },
        other => panic!("expected a range, found {:?}", other),
    }
    let start = Expression::IntegerLiteral { value: 1, source_location: SourceLocation::unknown() };
    match extended_parser("..=n").parse_range_expression(Some(start), SourceLocation::unknown()).unwrap() {
        Expression::Range { start, end, inclusive, .. } => {
            assert!(inclusive);
            assert!(matches!(start.as_deref(), Some(Expression::IntegerLiteral { value: 1, .. })));
            assert!(matches!(end.as_deref(), Some(Expression::Variable { name, .. }) if name.name == "n"));
        },
        other => panic!("expected a range, found {:?}", other),
    }
    assert!(matches!(extended_parser("7").parse_range_operand().unwrap(), Expression::IntegerLiteral { value: 7, .. }));
    assert!(extended_parser("+").parse_range_operand().is_err());
}

#[test]
fn throw_without_semicolon_names_it() {
    let e = extended_parser("throw err").parse_throw_statement().unwrap_err();
    assert_eq!(expected_text(&e), "expected ';' after throw");
    let mut parser = extended_parser("throw err;");
    match parser.parse_throw_statement().unwrap() {
        Statement::Throw { exception, .. } => {
            assert!(matches!(*exception, Expression::Variable { ref name, .. } if name.name == "err"));
        },
        other => panic!("expected a throw, found {:?}", other),
    }
    assert!(parser.is_at_end());
}

#[test]
fn unclosed_array_and_map_without_comma_name_it() {
    let e = v2_parser("Array<Int").parse_type().unwrap_err();
    assert_eq!(expected_text(&e), "expected '>' to close Array type");
    let e = v2_parser("Map<String Int>").parse_type().unwrap_err();
    assert_eq!(expected_text(&e), "expected ',' between Map key and value types");
    match v2_parser("Array<Int>").parse_type().unwrap() {
        TypeSpecifier::Array { size, .. } => assert!(size.is_none()),
        other => panic!("expected an array, found {:?}", other),
    }
}

#[test]
fn an_import_without_semicolon_fails_the_module() {
    assert!(v2_parser("module Test { import std }").parse_module().is_err());
    assert!(extended_parser("module Test { import std }").parse_module().is_err());
    let (module, errors) = v2_parser("module Test { import std; 42 func f() -> Int { return 1; } }").parse_module_with_recovery();
    assert_eq!(errors.len(), 1);
    assert_eq!(module.unwrap().function_definitions.len(), 1);
}

#[test]
fn recovery_keeps_the_items_after_a_bad_first_item() {
    let (module, errors) = extended_parser("module m { 7 ; func a() -> Int { return 1; } func b() -> Int { return 2; } }")
        .parse_module_with_recovery();
    assert_eq!(errors.len(), 1);
    let module = module.unwrap();
    let names: Vec<String> = module.function_definitions.iter().map(|f| f.name.name.clone()).collect();
    assert_eq!(names, vec!["a".to_string(), "b".to_string()]);
}

#[test]
fn trait_methods_and_default_bodies_are_read() {
    let mut parser = extended_parser("trait Shape { func area() -> Float; func sides() -> Int { return 0; } }");
    let t = parser.parse_trait_definition().unwrap();
    assert!(parser.is_at_end());
    assert_eq!(t.name.name, "Shape");
    assert!(t.generic_parameters.is_empty() && t.where_clause.is_empty() && t.axioms.is_empty());
    assert_eq!(t.methods.len(), 2);
    assert_eq!(t.methods[0].name.name, "area");
    assert!(t.methods[0].parameters.is_empty());
    assert!(t.methods[0].default_body.is_none());
    assert_eq!(t.methods[1].name.name, "sides");
    let body = t.methods[1].default_body.as_ref().unwrap();
    assert_eq!(body.statements.len(), 1);
    assert!(matches!(body.statements[0], Statement::Return { value: Some(_), .. }));
    let mut method = extended_parser("func scale(k: Int, ) -> Int;");
    let m = method.parse_trait_method().unwrap();
    assert_eq!(m.parameters.len(), 1);
    assert_eq!(m.parameters[0].name.name, "k");
    assert!(method.is_at_end());
}

#[test]
fn address_of_keeps_mutability_and_operand() {
    match v2_parser("&mut x").parse_expression().unwrap() {
        Expression::AddressOf { operand, mutability, .. } => {
            assert!(mutability);
            assert!(matches!(*operand, Expression::Variable { ref name, .. } if name.name == "x"));
        },
        other => panic!("expected an address, found {:?}", other),
    }
    match v2_parser("&y").parse_expression().unwrap() {
        Expression::AddressOf { mutability, .. } => assert!(!mutability),
        other => panic!("expected an address, found {:?}", other),
    }
    match extended_parser("&mut a + 1").parse_expression().unwrap() {
        Expression::Add { left, right, .. } => {
            assert!(matches!(*left, Expression::AddressOf { mutability: true, .. }));
            assert!(matches!(*right, Expression::IntegerLiteral { value: 1, .. }));
        },
        other => panic!("expected a sum, found {:?}", other),
    }
}

#[test]
fn where_clause_names_are_read() {
    let mut p1 = extended_parser("where T: Printable + Comparable, U: Hashable { }");
    let clauses = p1.parse_where_clause().unwrap();
    assert_eq!(clauses.len(), 2);
    assert_eq!(clauses[0].type_param.name, "T");
    let names: Vec<&str> = clauses[0].constraints.iter().map(|c| c.name.as_str()).collect();
    assert_eq!(names, vec!["Printable", "Comparable"]);
    assert_eq!(clauses[1].type_param.name, "U");
    assert_eq!(clauses[1].constraints[0].name, "Hashable");
    assert!(matches!(p1.peek().token_type, TokenType::LeftBrace));
    let mut p2 = extended_parser("{ }");
    assert!(p2.parse_where_clause().unwrap().is_empty());
    assert_eq!(p2.current_position(), 0);
}

#[test]
fn generic_functions_keep_parameters_and_constraints() {
    let mut parser = extended_parser("func pick<T, U>(a: T, b: U) -> Int where T: Eq { return 1; }");
    let f = parser.parse_function().unwrap();
    assert!(parser.is_at_end());
    let generics: Vec<&str> = f.generic_parameters.iter().map(|g| g.name.name.as_str()).collect();
    assert_eq!(generics, vec!["T", "U"]);
    assert_eq!(f.parameters.len(), 2);
    assert_eq!(f.parameters[1].name.name, "b");
    assert_eq!(f.where_clause.len(), 1);
    assert_eq!(f.where_clause[0].type_param.name, "T");
    assert_eq!(f.where_clause[0].constraints[0].name, "Eq");
    assert_eq!(f.body.statements.len(), 1);
}

#[test]
fn generic_traits_and_methods_are_read() {
    let mut parser = extended_parser("trait Holder<T> where T: Eq { func get<U>(x: U) -> Int; }");
    let t = parser.parse_trait_definition().unwrap();
    assert!(parser.is_at_end());
    assert_eq!(t.generic_parameters.len(), 1);
    assert_eq!(t.generic_parameters[0].name.name, "T");
    assert_eq!(t.where_clause.len(), 1);
    assert_eq!(t.methods.len(), 1);
    assert_eq!(t.methods[0].generic_parameters[0].name.name, "U");
    assert_eq!(t.methods[0].parameters[0].name.name, "x");
}

#[test]
fn lambda_blocks_of_statements_are_read() {
    match v2_parser("{ let y = 1; return y; }").parse_lambda_block().unwrap() {
        LambdaBody::Block(b) => {
            assert_eq!(b.statements.len(), 2);
            assert!(matches!(b.statements[0], Statement::VariableDeclaration { .. }));
            assert!(matches!(b.statements[1], Statement::Return { value: Some(_), .. }));
        },
        other => panic!("expected a block, found {:?}", other),
    }
    match extended_parser("{ let y = 1; return y; }").parse_lambda_block().unwrap() {
        LambdaBody::Block(b) => assert_eq!(b.statements.len(), 2),
        other => panic!("expected a block, found {:?}", other),
    }
}

#[test]
fn an_unclosed_module_after_a_bad_item_has_two_errors() {
    let (module, errors) = v2_parser("module m { 7 func a() -> Int { return 1; }").parse_module_with_recovery();
    assert_eq!(errors.len(), 2);
    assert_eq!(expected_text(&errors[0]), "import, func, struct, enum, const, or annotation");
    assert_eq!(module.unwrap().function_definitions.len(), 1);
}
