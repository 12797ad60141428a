//! Tests of the MIR optimization passes.

use aetherscript::ast::PrimitiveType;
use aetherscript::error::SourceLocation;
use aetherscript::mir::{
    BasicBlock, BinOp, Constant, ConstantValue, Function, Local, Operand, Parameter, Place, PlaceElem, Program,
    Rvalue, SourceInfo, Statement, Terminator, Type,
};
use aetherscript::optimizations::constant_propagation::ConstantPropagationPass;
use aetherscript::optimizations::inlining::InliningPass;

fn source_info() -> SourceInfo {
    SourceInfo { span: SourceLocation::unknown(), scope: 0 }
}

fn int_local() -> Local {
    Local { ty: Type::primitive(PrimitiveType::Integer), is_mutable: false }
}

fn whole(local: u32) -> Place {
    Place { local, projection: vec![] }
}

fn int_constant(value: i64) -> Operand {
    Operand::Constant(Constant { ty: Type::primitive(PrimitiveType::Integer), value: ConstantValue::Integer(value) })
}

fn assign(local: u32, rvalue: Rvalue) -> Statement {
    Statement::Assign { place: whole(local), rvalue, source_info: source_info() }
}

/// A function with one block (block 0, ending in a return) holding
/// `statements`, and `n_locals` integer locals numbered from 0.
fn single_block_function(name: &str, n_locals: u32, statements: Vec<Statement>, return_type: Type) -> Function {
    Function {
        name: name.to_string(),
        parameters: vec![],
        return_type,
        locals: (0..n_locals).map(|id| (id, int_local())).collect(),
        basic_blocks: vec![(0, BasicBlock { statements, terminator: Terminator::Return })],
        entry_block: 0,
        return_local: None,
    }
}

#[test]
fn test_constant_propagation() {
    let mut pass = ConstantPropagationPass::new();
    let x = 0;
    let y = 1;
    let statements = vec![
        // x = 42
        assign(x, Rvalue::Use(int_constant(42))),
        // y = x
        assign(y, Rvalue::Use(Operand::Copy(Place { local: x, projection: vec![] }))),
    ];
    let mut function = single_block_function("test", 2, statements, Type::primitive(PrimitiveType::Integer));

    // Run constant propagation
    let changed = pass.run_on_function(&mut function).unwrap();
    assert!(changed);
    assert_eq!(pass.propagated_count(), 1);

    // Check that y = x became y = 42
    let block = &function.basic_blocks[0].1;
    let stmt = &block.statements[1];

    if let Statement::Assign { rvalue, .. } = stmt {
        if let Rvalue::Use(Operand::Constant(constant)) = rvalue {
            assert_eq!(constant.value, ConstantValue::Integer(42));
        } else {
            panic!("Expected constant after propagation");
        }
    } else {
        panic!("Expected assignment statement");
    }
}

#[test]
fn test_function_cost_calculation() {
    let pass = InliningPass::new();
    let statements = vec![assign(0, Rvalue::Use(int_constant(42)))];
    let function = single_block_function("small", 1, statements, Type::primitive(PrimitiveType::Integer));
    let cost = pass.calculate_function_cost(&function);

    // Should be low cost (1 statement + 1 terminator)
    assert!(cost <= 5);
}

#[test]
fn test_should_inline_small_function() {
    let pass = InliningPass::new();
    let statements = (0..3).map(|i| assign(0, Rvalue::Use(int_constant(i)))).collect();
    let function = single_block_function("small", 1, statements, Type::primitive(PrimitiveType::Integer));

    // Small function should be eligible for inlining
    assert!(pass.should_inline(&function));
}

#[test]
fn test_program_inlining() {
    let mut pass = InliningPass::new();

    // fn small() -> Int { return 42; }, its result in local 0
    let mut small = single_block_function(
        "small",
        1,
        vec![assign(0, Rvalue::Use(int_constant(42)))],
        Type::primitive(PrimitiveType::Integer),
    );
    small.return_local = Some(0);

    // fn caller() { let x = small(); }
    let call = Rvalue::Call {
        func: Operand::Constant(Constant {
            ty: Type::Function {
                parameter_types: vec![],
                return_type: Box::new(Type::primitive(PrimitiveType::Integer)),
                is_variadic: false,
            },
            value: ConstantValue::String("small".to_string()),
        }),
        args: vec![],
    };
    let caller = single_block_function("caller", 1, vec![assign(0, call)], Type::primitive(PrimitiveType::Void));

    let mut program = Program { functions: vec![("small".to_string(), small), ("caller".to_string(), caller)] };

    // Run inlining pass
    let changed = pass.run_on_program(&mut program).unwrap();

    // Should have changed
    assert!(changed);

    // Check if caller no longer has the call
    let caller = program.function("caller").unwrap();
    let entry_block = caller.block(caller.entry_block).unwrap();

    let has_call = entry_block.statements.iter().any(|stmt| {
        if let Statement::Assign { rvalue: Rvalue::Call { .. }, .. } = stmt {
            true
        } else {
            false
        }
    });

    assert!(!has_call, "Function call should have been inlined");
}

#[test]
fn propagation_follows_chains_within_a_block() {
    let mut pass = ConstantPropagationPass::new();
    let statements = vec![
        assign(0, Rvalue::Use(int_constant(7))),
        assign(1, Rvalue::Use(Operand::Copy(whole(0)))),
        assign(2, Rvalue::BinaryOp { op: BinOp::Add, left: Operand::Move(whole(1)), right: Operand::Copy(whole(0)) }),
    ];
    let mut function = single_block_function("f", 3, statements, Type::primitive(PrimitiveType::Integer));
    assert_eq!(pass.run_on_function(&mut function), Ok(true));
    assert_eq!(pass.propagated_count(), 3);
    let block = &function.basic_blocks[0].1;
    assert_eq!(block.statements[2], assign(2, Rvalue::BinaryOp { op: BinOp::Add, left: int_constant(7), right: int_constant(7) }));
}

#[test]
fn propagation_forgets_a_reassigned_local() {
    let mut pass = ConstantPropagationPass::new();
    let statements = vec![
        assign(0, Rvalue::Use(int_constant(1))),
        assign(0, Rvalue::Use(Operand::Copy(whole(5)))),
        assign(1, Rvalue::Use(Operand::Copy(whole(0)))),
    ];
    let mut function = single_block_function("f", 2, statements, Type::primitive(PrimitiveType::Integer));
    assert_eq!(pass.run_on_function(&mut function), Ok(false));
    assert!(!pass.changed());
    assert_eq!(pass.propagated_count(), 0);
    assert_eq!(function.basic_blocks[0].1.statements[2], assign(1, Rvalue::Use(Operand::Copy(whole(0)))));
}

#[test]
fn propagation_leaves_projections_characters_and_other_blocks_alone() {
    let mut pass = ConstantPropagationPass::new();
    let char_constant =
        Operand::Constant(Constant { ty: Type::primitive(PrimitiveType::Char), value: ConstantValue::Char('c') });
    let first = BasicBlock {
        statements: vec![
            assign(0, Rvalue::Use(int_constant(3))),
            assign(1, Rvalue::Use(char_constant)),
            assign(2, Rvalue::Use(Operand::Copy(Place { local: 0, projection: vec![PlaceElem::Deref] }))),
            assign(3, Rvalue::Use(Operand::Copy(whole(1)))),
        ],
        terminator: Terminator::Goto { target: 1 },
    };
    let second = BasicBlock {
        statements: vec![assign(4, Rvalue::Use(Operand::Copy(whole(0))))],
        terminator: Terminator::Return,
    };
    let mut function = single_block_function("f", 5, vec![], Type::primitive(PrimitiveType::Void));
    function.basic_blocks = vec![(0, first), (1, second)];
    assert_eq!(pass.run_on_function(&mut function), Ok(false));
    assert_eq!(function.basic_blocks[1].1.statements[0], assign(4, Rvalue::Use(Operand::Copy(whole(0)))));
    assert_eq!(pass.name(), "constant-propagation");
}

#[test]
fn inlining_renames_locals_and_passes_arguments() {
    let mut pass = InliningPass::new();

    // fn double(a) { r = a + a }, a in local 0 and r in local 1
    let mut double = single_block_function(
        "double",
        2,
        vec![assign(1, Rvalue::BinaryOp { op: BinOp::Add, left: Operand::Copy(whole(0)), right: Operand::Copy(whole(0)) })],
        Type::primitive(PrimitiveType::Integer),
    );
    double.parameters = vec![Parameter { name: "a".to_string(), ty: Type::primitive(PrimitiveType::Integer), local_id: 0 }];
    double.return_local = Some(1);

    // fn main() { locals 0..=2; local 2 = double(21) }
    let call = Rvalue::Call {
        func: Operand::Constant(Constant {
            ty: Type::primitive(PrimitiveType::Void),
            value: ConstantValue::String("double".to_string()),
        }),
        args: vec![int_constant(21)],
    };
    let main = single_block_function("main", 3, vec![assign(2, call)], Type::primitive(PrimitiveType::Void));
    let mut program = Program { functions: vec![("double".to_string(), double), ("main".to_string(), main)] };

    assert_eq!(pass.run_on_program(&mut program), Ok(true));
    let main = program.function("main").unwrap();
    // The callee's locals 0 and 1 became 3 and 4.
    assert_eq!(main.locals.len(), 5);
    assert_eq!(main.locals[3].0, 3);
    assert_eq!(main.locals[4].0, 4);
    let statements = &main.block(0).unwrap().statements;
    assert_eq!(statements.len(), 3);
    assert_eq!(statements[0], assign(3, Rvalue::Use(int_constant(21))));
    assert_eq!(
        statements[1],
        assign(4, Rvalue::BinaryOp { op: BinOp::Add, left: Operand::Copy(whole(3)), right: Operand::Copy(whole(3)) })
    );
    assert_eq!(statements[2], assign(2, Rvalue::Use(Operand::Copy(whole(4)))));
    // The callee itself is left as it was.
    assert_eq!(program.function("double").unwrap().locals.len(), 2);
}

#[test]
fn inlining_skips_large_and_multi_block_functions() {
    let mut pass = InliningPass::new();
    pass.set_max_inline_size(1);
    pass.set_max_inline_depth(3);
    let callee = single_block_function("big", 1, vec![assign(0, Rvalue::Use(int_constant(1)))], Type::primitive(PrimitiveType::Integer));
    // One statement and a return cost 2, above the threshold of 1.
    assert_eq!(pass.calculate_function_cost(&callee), 2);
    assert!(!pass.should_inline(&callee));

    let mut two_blocks = single_block_function("two", 1, vec![], Type::primitive(PrimitiveType::Void));
    two_blocks.basic_blocks.push((1, BasicBlock { statements: vec![], terminator: Terminator::Unreachable }));
    let default_pass = InliningPass::new();
    assert!(!default_pass.should_inline(&two_blocks));

    let call = Rvalue::Call {
        func: Operand::Constant(Constant { ty: Type::primitive(PrimitiveType::Void), value: ConstantValue::String("big".to_string()) }),
        args: vec![],
    };
    let caller = single_block_function("caller", 1, vec![assign(0, call)], Type::primitive(PrimitiveType::Void));
    let mut program = Program { functions: vec![("big".to_string(), callee), ("caller".to_string(), caller)] };
    assert_eq!(pass.run_on_program(&mut program), Ok(false));
    assert_eq!(program.function("caller").unwrap().basic_blocks[0].1.statements.len(), 1);
    assert_eq!(pass.name(), "inlining");
}

#[test]
fn function_cost_counts_call_and_switch_terminators() {
    let pass = InliningPass::new();
    let mut function = single_block_function("f", 1, vec![assign(0, Rvalue::Use(int_constant(1)))], Type::primitive(PrimitiveType::Void));
    function.basic_blocks[0].1.terminator = Terminator::Call {
        func: int_constant(0),
        args: vec![],
        destination: whole(0),
        target: Some(1),
    };
    function.basic_blocks.push((
        1,
        BasicBlock {
            statements: vec![],
            terminator: Terminator::SwitchInt { discriminant: int_constant(0), values: vec![0], targets: vec![2], otherwise: 2 },
        },
    ));
    function.basic_blocks.push((2, BasicBlock { statements: vec![], terminator: Terminator::Return }));
    // 1 statement + 5 for the call, 2 for the switch, 1 for the return.
    assert_eq!(pass.calculate_function_cost(&function), 9);
    let mut unchanged = function;
    let mut inlining = InliningPass::default();
    assert_eq!(inlining.run_on_function(&mut unchanged), Ok(false));
}

#[test]
fn propagating_twice_changes_nothing_more() {
    let mut pass = ConstantPropagationPass::new();
    let statements = vec![
        assign(0, Rvalue::Use(int_constant(5))),
        assign(1, Rvalue::UnaryOp { op: aetherscript::mir::UnOp::Neg, operand: Operand::Copy(whole(0)) }),
        assign(2, Rvalue::Use(Operand::Copy(whole(0)))),
    ];
    let mut function = single_block_function("f", 3, statements, Type::primitive(PrimitiveType::Integer));
    assert_eq!(pass.run_on_function(&mut function), Ok(true));
    let once = function.basic_blocks[0].1.statements.len();
    assert_eq!(pass.propagated_count(), 2);
    assert_eq!(pass.run_on_function(&mut function), Ok(false));
    assert_eq!(pass.propagated_count(), 2);
    assert_eq!(function.basic_blocks[0].1.statements.len(), once);
}

#[test]
fn inlined_locals_get_distinct_fresh_numbers() {
    let mut pass = InliningPass::new();
    let mut one = single_block_function("one", 1, vec![assign(0, Rvalue::Use(int_constant(1)))], Type::primitive(PrimitiveType::Integer));
    one.return_local = Some(0);
    let call = || Rvalue::Call {
        func: Operand::Constant(Constant { ty: Type::primitive(PrimitiveType::Void), value: ConstantValue::String("one".to_string()) }),
        args: vec![],
    };
    let caller = single_block_function("caller", 2, vec![assign(0, call()), assign(1, call())], Type::primitive(PrimitiveType::Void));
    let mut program = Program { functions: vec![("one".to_string(), one), ("caller".to_string(), caller)] };
    assert_eq!(pass.run_on_program(&mut program), Ok(true));
    let caller = program.function("caller").unwrap();
    let ids: Vec<u32> = caller.locals.iter().map(|(id, _)| *id).collect();
    assert_eq!(ids, vec![0, 1, 2, 3]);
    let statements = &caller.basic_blocks[0].1.statements;
    assert_eq!(statements.len(), 4);
    assert_eq!(statements[0], assign(2, Rvalue::Use(int_constant(1))));
    assert_eq!(statements[1], assign(0, Rvalue::Use(Operand::Copy(whole(2)))));
    assert_eq!(statements[2], assign(3, Rvalue::Use(int_constant(1))));
    assert_eq!(statements[3], assign(1, Rvalue::Use(Operand::Copy(whole(3)))));
}

#[test]
fn a_program_without_candidate_calls_is_left_alone() {
    let mut pass = InliningPass::new();
    let call_unknown = Rvalue::Call {
        func: Operand::Constant(Constant { ty: Type::primitive(PrimitiveType::Void), value: ConstantValue::String("missing".to_string()) }),
        args: vec![int_constant(1)],
    };
    let f = single_block_function("f", 1, vec![assign(0, call_unknown)], Type::primitive(PrimitiveType::Void));
    let mut program = Program { functions: vec![("f".to_string(), f)] };
    assert_eq!(pass.run_on_program(&mut program), Ok(false));
    let f = program.function("f").unwrap();
    assert_eq!(f.locals.len(), 1);
    assert!(matches!(f.basic_blocks[0].1.statements[0], Statement::Assign { rvalue: Rvalue::Call { .. }, .. }));
}

#[test]
fn a_function_calling_itself_is_not_inlined() {
    let call = Rvalue::Call {
        func: Operand::Constant(Constant {
            ty: Type::primitive(PrimitiveType::Integer),
            value: ConstantValue::String("again".to_string()),
        }),
        args: vec![],
    };
    let recursive = single_block_function("again", 1, vec![assign(0, call)], Type::primitive(PrimitiveType::Integer));
    let mut pass = InliningPass::new();
    assert!(pass.has_recursive_calls(&recursive));
    assert!(!pass.should_inline(&recursive));
    pass.set_max_inline_depth(3);
    let other = single_block_function("other", 1, vec![assign(0, Rvalue::Use(int_constant(1)))], Type::primitive(PrimitiveType::Integer));
    assert!(!pass.has_recursive_calls(&other));
    assert!(pass.should_inline(&other));
}
