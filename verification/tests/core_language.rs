//! Tests of the exact results the parsers give on their core language:
//! braced binary expressions fold from the left, call arguments are named,
//! member accesses chain, patterns and declarations take their documented
//! defaults, and modules list and export their items.

use aetherscript::ast::{
    AssignmentTarget, ExportStatement, Expression, Mutability, Pattern, PrimitiveType, Statement, TypeDefinition,
    TypeSpecifier,
};
use aetherscript::lexer::v2::Lexer;
use aetherscript::parser::extended;
use aetherscript::parser::v2::Parser;

fn v2_parser(source: &str) -> Parser {
    let mut lexer = Lexer::new(source, "core.aether".to_string());
    Parser::new(lexer.tokenize().unwrap())
}

fn extended_parser(source: &str) -> extended::Parser {
    let mut lexer = Lexer::new(source, "core.aether".to_string());
    extended::Parser::new(lexer.tokenize().unwrap())
}

fn variable(e: &Expression) -> &str {
    match e {
        Expression::Variable { name, .. } => name.name.as_str(),
        other => panic!("expected a variable, found {:?}", other),
    }
}

#[test]
fn braced_expression_folds_from_the_left() {
    let mut parser = v2_parser("{a - b - c}");
    match parser.parse_expression().unwrap() {
        Expression::Subtract { left, right, .. } => {
            assert_eq!(variable(&right), "c");
            match *left {
                Expression::Subtract { left, right, .. } => {
                    assert_eq!(variable(&left), "a");
                    assert_eq!(variable(&right), "b");
                },
                other => panic!("expected a difference, found {:?}", other),
            }
        },
        other => panic!("expected a difference, found {:?}", other),
    }
}

#[test]
fn braced_logical_operators_take_two_operands() {
    let mut parser = v2_parser("{a && b}");
    match parser.parse_expression().unwrap() {
        Expression::LogicalAnd { operands, .. } => {
            assert_eq!(operands.len(), 2);
            assert_eq!(variable(&operands[0]), "a");
            assert_eq!(variable(&operands[1]), "b");
        },
        other => panic!("expected a conjunction, found {:?}", other),
    }
}

#[test]
fn call_arguments_are_numbered_and_labels_skipped() {
    let mut parser = v2_parser("f(x: 1, 2)");
    match parser.parse_expression().unwrap() {
        Expression::FunctionCall { call, .. } => {
            assert_eq!(call.arguments.len(), 2);
            assert_eq!(call.arguments[0].parameter_name.name, "arg_0");
            assert_eq!(call.arguments[1].parameter_name.name, "arg_1");
            assert!(matches!(*call.arguments[0].value, Expression::IntegerLiteral { value: 1, .. }));
            assert!(matches!(*call.arguments[1].value, Expression::IntegerLiteral { value: 2, .. }));
        },
        other => panic!("expected a call, found {:?}", other),
    }
}

#[test]
fn member_accesses_chain_from_the_left() {
    let mut parser = v2_parser("a.b[0].c(1)");
    match parser.parse_expression().unwrap() {
        Expression::MethodCall { receiver, method_name, arguments, .. } => {
            assert_eq!(method_name.name, "c");
            assert_eq!(arguments.len(), 1);
            match *receiver {
                Expression::ArrayAccess { array, index, .. } => {
                    assert!(matches!(*index, Expression::IntegerLiteral { value: 0, .. }));
                    match *array {
                        Expression::FieldAccess { instance, field_name, .. } => {
                            assert_eq!(field_name.name, "b");
                            assert_eq!(variable(&instance), "a");
                        },
                        other => panic!("expected a field access, found {:?}", other),
                    }
                },
                other => panic!("expected an index access, found {:?}", other),
            }
        },
        other => panic!("expected a method call, found {:?}", other),
    }
}

#[test]
fn extended_call_keeps_labels_and_numbers_the_rest() {
    let mut parser = extended_parser("g(1, y: 2) + 3");
    match parser.parse_expression().unwrap() {
        Expression::Add { left, right, .. } => {
            assert!(matches!(*right, Expression::IntegerLiteral { value: 3, .. }));
            match *left {
                Expression::FunctionCall { call, .. } => {
                    assert_eq!(call.arguments[0].parameter_name.name, "arg_0");
                    assert_eq!(call.arguments[1].parameter_name.name, "y");
                },
                other => panic!("expected a call, found {:?}", other),
            }
        },
        other => panic!("expected a sum, found {:?}", other),
    }
}

#[test]
fn struct_pattern_field_without_pattern_binds_its_name() {
    let mut parser = v2_parser("Point { x, y: _ }");
    match parser.parse_pattern().unwrap() {
        Pattern::Struct { struct_name, fields, .. } => {
            assert_eq!(struct_name.name, "Point");
            assert_eq!(fields.len(), 2);
            match &fields[0].1 {
                Pattern::Wildcard { binding: Some(b), .. } => assert_eq!(b.name, "x"),
                other => panic!("expected a binding, found {:?}", other),
            }
            assert!(matches!(&fields[1].1, Pattern::Wildcard { binding: None, .. }));
        },
        other => panic!("expected a struct pattern, found {:?}", other),
    }
}

#[test]
fn declaration_without_type_gets_the_inferred_placeholder() {
    let mut parser = v2_parser("var count = 0;");
    match parser.parse_statement().unwrap() {
        Statement::VariableDeclaration { name, type_spec, mutability, initial_value, .. } => {
            assert_eq!(name.name, "count");
            assert_eq!(mutability, Mutability::Mutable);
            match *type_spec {
                TypeSpecifier::Named { name, .. } => assert_eq!(name.name, "_inferred"),
                other => panic!("expected the placeholder type, found {:?}", other),
            }
            assert!(initial_value.is_some());
        },
        other => panic!("expected a declaration, found {:?}", other),
    }
}

#[test]
fn for_each_loop_defaults_to_int_elements() {
    let mut parser = v2_parser("for x in items { }");
    match parser.parse_statement().unwrap() {
        Statement::ForEachLoop { element_binding, element_type, collection, .. } => {
            assert_eq!(element_binding.name, "x");
            assert!(matches!(*element_type, TypeSpecifier::Primitive { primitive_type: PrimitiveType::Integer, .. }));
            assert_eq!(variable(&collection), "items");
        },
        other => panic!("expected a for-each loop, found {:?}", other),
    }
}

#[test]
fn assignment_to_a_field() {
    let mut parser = v2_parser("p.x = 1;");
    match parser.parse_statement().unwrap() {
        Statement::Assignment { target: AssignmentTarget::StructField { instance, field_name }, .. } => {
            assert_eq!(variable(&instance), "p");
            assert_eq!(field_name.name, "x");
        },
        other => panic!("expected a field assignment, found {:?}", other),
    }
}

#[test]
fn module_lists_and_exports_its_items() {
    let source = "module shapes { pub struct Point { x: Int, y: Int } func area() -> Int { return 0; } pub const ZERO: Int = 0; }";
    let mut parser = v2_parser(source);
    let module = parser.parse_module().unwrap();
    assert_eq!(module.name.name, "shapes");
    assert_eq!(module.type_definitions.len(), 1);
    assert!(matches!(&module.type_definitions[0], TypeDefinition::Structured { fields, .. } if fields.len() == 2));
    assert_eq!(module.function_definitions.len(), 1);
    assert_eq!(module.function_definitions[0].name.name, "area");
    assert_eq!(module.constant_declarations.len(), 1);
    assert_eq!(module.exports.len(), 2);
    assert!(matches!(&module.exports[0], ExportStatement::Type { name, .. } if name.name == "Point"));
    assert!(matches!(&module.exports[1], ExportStatement::Constant { name, .. } if name.name == "ZERO"));
}

#[test]
fn struct_construction_keeps_its_fields_in_order() {
    let mut parser = v2_parser("Point { x: 1, y: {a + 2} }");
    match parser.parse_expression().unwrap() {
        Expression::StructConstruct { struct_name, field_values, .. } => {
            assert_eq!(struct_name.name, "Point");
            assert_eq!(field_values.len(), 2);
            assert_eq!(field_values[0].field_name.name, "x");
            assert!(matches!(*field_values[0].value, Expression::IntegerLiteral { value: 1, .. }));
            assert_eq!(field_values[1].field_name.name, "y");
            assert!(matches!(*field_values[1].value, Expression::Add { .. }));
        },
        other => panic!("expected a struct construction, found {:?}", other),
    }
}

#[test]
fn enum_variant_values_are_full_expressions() {
    let mut parser = extended_parser("Shape::Rect(1 + 2, w)");
    match parser.parse_expression().unwrap() {
        Expression::EnumVariant { enum_name, variant_name, values, .. } => {
            assert_eq!(enum_name.name, "Shape");
            assert_eq!(variant_name.name, "Rect");
            assert_eq!(values.len(), 2);
            assert!(matches!(values[0], Expression::Add { .. }));
            assert_eq!(variable(&values[1]), "w");
        },
        other => panic!("expected an enum variant, found {:?}", other),
    }
    let mut bare = v2_parser("Color::Red");
    match bare.parse_expression().unwrap() {
        Expression::EnumVariant { variant_name, values, .. } => {
            assert_eq!(variant_name.name, "Red");
            assert!(values.is_empty());
        },
        other => panic!("expected an enum variant, found {:?}", other),
    }
}

#[test]
fn array_literal_elements_and_element_type() {
    let mut parser = extended_parser("[\"a\", \"b\",]");
    match parser.parse_expression().unwrap() {
        Expression::ArrayLiteral { element_type, elements, .. } => {
            assert!(matches!(*element_type, TypeSpecifier::Primitive { primitive_type: PrimitiveType::String, .. }));
            assert_eq!(elements.len(), 2);
            assert!(matches!(*elements[1], Expression::StringLiteral { .. }));
        },
        other => panic!("expected an array literal, found {:?}", other),
    }
    let mut v2 = v2_parser("[x, {y * 2}]");
    match v2.parse_expression().unwrap() {
        Expression::ArrayLiteral { element_type, elements, .. } => {
            assert!(matches!(*element_type, TypeSpecifier::Primitive { primitive_type: PrimitiveType::Integer, .. }));
            assert_eq!(elements.len(), 2);
            assert_eq!(variable(&elements[0]), "x");
            assert!(matches!(*elements[1], Expression::Multiply { .. }));
        },
        other => panic!("expected an array literal, found {:?}", other),
    }
}

#[test]
fn map_literal_entries_in_order() {
    let mut parser = v2_parser("{\"a\": 1, \"b\": {x + 1},}");
    match parser.parse_expression().unwrap() {
        Expression::MapLiteral { key_type, value_type, entries, .. } => {
            assert!(matches!(*key_type, TypeSpecifier::Primitive { primitive_type: PrimitiveType::String, .. }));
            assert!(matches!(*value_type, TypeSpecifier::Primitive { primitive_type: PrimitiveType::Integer, .. }));
            assert_eq!(entries.len(), 2);
            assert!(matches!(*entries[0].key, Expression::StringLiteral { .. }));
            assert!(matches!(*entries[0].value, Expression::IntegerLiteral { value: 1, .. }));
            assert!(matches!(*entries[1].value, Expression::Add { .. }));
        },
        other => panic!("expected a map literal, found {:?}", other),
    }
    let mut empty = extended_parser("{}");
    match empty.parse_expression().unwrap() {
        Expression::MapLiteral { entries, .. } => assert!(entries.is_empty()),
        other => panic!("expected a map literal, found {:?}", other),
    }
}

#[test]
fn match_expression_arms_in_order() {
    let mut parser = extended_parser("match shape { Circle(r) => r * r, _ => 0 }");
    match parser.parse_expression().unwrap() {
        Expression::Match { value, cases, .. } => {
            assert_eq!(variable(&value), "shape");
            assert_eq!(cases.len(), 2);
            assert!(matches!(cases[0].pattern, Pattern::EnumVariant { .. }));
            assert!(matches!(*cases[0].body, Expression::Multiply { .. }));
            assert!(matches!(cases[1].pattern, Pattern::Wildcard { .. }));
            assert!(matches!(*cases[1].body, Expression::IntegerLiteral { value: 0, .. }));
        },
        other => panic!("expected a match expression, found {:?}", other),
    }
}

#[test]
fn parenthesized_expression_is_its_inner_expression() {
    let mut parser = extended_parser("(a + b) * c");
    match parser.parse_expression().unwrap() {
        Expression::Multiply { left, right, .. } => {
            assert!(matches!(*left, Expression::Add { .. }));
            assert_eq!(variable(&right), "c");
        },
        other => panic!("expected a product, found {:?}", other),
    }
    let mut v2 = v2_parser("(x)");
    assert_eq!(variable(&v2.parse_expression().unwrap()), "x");
}

#[test]
fn ranges_keep_their_bounds() {
    let mut parser = extended_parser("a + 1..=b");
    match parser.parse_expression().unwrap() {
        Expression::Range { start, end, inclusive, .. } => {
            assert!(inclusive);
            assert!(matches!(start.as_deref(), Some(Expression::Add { .. })));
            assert_eq!(variable(end.as_deref().unwrap()), "b");
        },
        other => panic!("expected a range, found {:?}", other),
    }
    let mut v2 = v2_parser("0..n");
    match v2.parse_expression().unwrap() {
        Expression::Range { start, end, inclusive, .. } => {
            assert!(!inclusive);
            assert!(matches!(start.as_deref(), Some(Expression::IntegerLiteral { value: 0, .. })));
            assert_eq!(variable(end.as_deref().unwrap()), "n");
        },
        other => panic!("expected a range, found {:?}", other),
    }
    let mut open = extended_parser("x..;");
    match open.parse_expression().unwrap() {
        Expression::Range { start, end, .. } => {
            assert!(start.is_some());
            assert!(end.is_none());
        },
        other => panic!("expected a range, found {:?}", other),
    }
}
