//! The abstract syntax tree that the parser builds.

use vstd::prelude::*;
use crate::error::SourceLocation;

verus! {

/// A name together with where it was written.
#[derive(Debug, PartialEq)]
pub struct Identifier {
    pub name: String,
    pub source_location: SourceLocation,
}

impl Identifier {
    pub fn new(name: String, source_location: SourceLocation) -> (r: Identifier)
        ensures
            r.name == name,
            r.source_location == source_location,
    {
        Identifier { name, source_location }
    }

    /// A field-by-field copy of this identifier.
    pub fn duplicate(&self) -> (r: Identifier)
        ensures
            r == *self,
    {
        Identifier { name: self.name.clone(), source_location: self.source_location.duplicate() }
    }
}

/// A whole program: the modules in the order they were written.
#[derive(Debug, PartialEq)]
pub struct Program {
    pub modules: Vec<Module>,
    pub source_location: SourceLocation,
}

#[derive(Debug, PartialEq)]
pub struct Module {
    pub name: Identifier,
    pub intent: Option<String>,
    pub imports: Vec<ImportStatement>,
    pub exports: Vec<ExportStatement>,
    pub type_definitions: Vec<TypeDefinition>,
    pub trait_definitions: Vec<TraitDefinition>,
    pub constant_declarations: Vec<ConstantDeclaration>,
    pub function_definitions: Vec<Function>,
    pub external_functions: Vec<ExternalFunction>,
    pub source_location: SourceLocation,
}

#[derive(Debug, PartialEq)]
pub struct ImportStatement {
    pub module_name: Identifier,
    pub alias: Option<Identifier>,
    pub source_location: SourceLocation,
}

#[derive(Debug, PartialEq)]
pub enum ExportStatement {
    Function { name: Identifier, source_location: SourceLocation },
    Type { name: Identifier, source_location: SourceLocation },
    Constant { name: Identifier, source_location: SourceLocation },
}

#[derive(Debug, PartialEq)]
pub struct ConstantDeclaration {
    pub name: Identifier,
    pub type_spec: Box<TypeSpecifier>,
    pub value: Box<Expression>,
    pub intent: Option<String>,
    pub source_location: SourceLocation,
}

#[derive(Debug, Clone, Copy, PartialEq, Eq, Structural)]
pub enum PrimitiveType {
    Integer,
    Integer32,
    Integer64,
    Float,
    Float32,
    Float64,
    String,
    Char,
    Boolean,
    Void,
    SizeT,
}

#[derive(Debug, Clone, Copy, PartialEq, Eq, Structural)]
pub enum OwnershipKind {
    Owned,
    Borrowed,
    BorrowedMut,
    Shared,
}

#[derive(Debug, PartialEq)]
#[allow(inconsistent_fields)]
pub enum TypeSpecifier {
    Primitive { primitive_type: PrimitiveType, source_location: SourceLocation },
    Named { name: Identifier, source_location: SourceLocation },
    Generic { base_type: Identifier, type_arguments: Vec<Box<TypeSpecifier>>, source_location: SourceLocation },
    TypeParameter { name: Identifier, constraints: Vec<Identifier>, source_location: SourceLocation },
    Array { element_type: Box<TypeSpecifier>, size: Option<Box<Expression>>, source_location: SourceLocation },
    Map_ { key_type: Box<TypeSpecifier>, value_type: Box<TypeSpecifier>, source_location: SourceLocation },
    Pointer { target_type: Box<TypeSpecifier>, is_mutable: bool, source_location: SourceLocation },
    Owned { base_type: Box<TypeSpecifier>, ownership: OwnershipKind, source_location: SourceLocation },
}

#[derive(Debug, PartialEq)]
pub struct GenericParameter {
    pub name: Identifier,
    pub constraints: Vec<Identifier>,
    pub default_type: Option<Box<TypeSpecifier>>,
    pub source_location: SourceLocation,
}

#[derive(Debug, PartialEq)]
pub struct WhereClause {
    pub type_param: Identifier,
    pub constraints: Vec<Identifier>,
    pub source_location: SourceLocation,
}

#[derive(Debug, Clone, Copy, PartialEq, Eq, Structural)]
pub enum PassingMode {
    ByValue,
    ByReference,
    ByMutableReference,
}

#[derive(Debug, PartialEq)]
pub struct Parameter {
    pub name: Identifier,
    pub param_type: Box<TypeSpecifier>,
    pub intent: Option<String>,
    pub constraint: Option<Box<Expression>>,
    pub passing_mode: PassingMode,
    pub source_location: SourceLocation,
}

#[derive(Debug, Clone, Copy, PartialEq, Eq, Structural)]
pub enum FailureAction {
    ThrowException,
    LogWarning,
    AssertFail,
}

#[derive(Debug, PartialEq)]
pub struct ContractAssertion {
    pub condition: Box<Expression>,
    pub failure_action: FailureAction,
    pub message: Option<String>,
    pub runtime_check: bool,
    pub source_location: SourceLocation,
}

#[derive(Debug, Clone, Copy, PartialEq, Eq, Structural)]
pub enum ComplexityType {
    Time,
    Space,
}

#[derive(Debug, Clone, Copy, PartialEq, Eq, Structural)]
pub enum ComplexityNotation {
    BigO,
    BigTheta,
    BigOmega,
}

#[derive(Debug, PartialEq)]
pub struct ComplexityExpectation {
    pub complexity_type: ComplexityType,
    pub notation: ComplexityNotation,
    pub value: String,
}

#[derive(Debug, Clone, Copy, PartialEq, Eq, Structural)]
pub enum PerformanceMetric {
    LatencyMs,
    ThroughputOpsPerSec,
    MemoryUsageBytes,
}

/// A performance target. The target value is kept as the text of the
/// number that was written.
#[derive(Debug, PartialEq)]
pub struct PerformanceExpectation {
    pub metric: PerformanceMetric,
    pub target_value: String,
    pub context: Option<String>,
}

#[derive(Debug, PartialEq)]
pub struct FunctionMetadata {
    pub preconditions: Vec<ContractAssertion>,
    pub postconditions: Vec<ContractAssertion>,
    pub invariants: Vec<ContractAssertion>,
    pub algorithm_hint: Option<String>,
    pub performance_expectation: Option<PerformanceExpectation>,
    pub complexity_expectation: Option<ComplexityExpectation>,
    pub throws_exceptions: Vec<TypeSpecifier>,
    pub thread_safe: Option<bool>,
    pub may_block: Option<bool>,
}

impl FunctionMetadata {
    /// The metadata holds no contracts, hints or expectations.
    pub open spec fn is_empty(&self) -> bool {
        &&& self.preconditions@.len() == 0
        &&& self.postconditions@.len() == 0
        &&& self.invariants@.len() == 0
        &&& self.algorithm_hint is None
        &&& self.performance_expectation is None
        &&& self.complexity_expectation is None
        &&& self.throws_exceptions@.len() == 0
        &&& self.thread_safe is None
        &&& self.may_block is None
    }

    /// Metadata with no contracts, hints or expectations.
    pub fn empty() -> (r: FunctionMetadata)
        ensures
            r.is_empty(),
    {
        FunctionMetadata {
            preconditions: Vec::new(),
            postconditions: Vec::new(),
            invariants: Vec::new(),
            algorithm_hint: None,
            performance_expectation: None,
            complexity_expectation: None,
            throws_exceptions: Vec::new(),
            thread_safe: None,
            may_block: None,
        }
    }
}

#[derive(Debug, PartialEq)]
pub struct Function {
    pub name: Identifier,
    pub intent: Option<String>,
    pub generic_parameters: Vec<GenericParameter>,
    pub where_clause: Vec<WhereClause>,
    pub parameters: Vec<Parameter>,
    pub return_type: Box<TypeSpecifier>,
    pub metadata: FunctionMetadata,
    pub body: Block,
    pub export_info: Option<String>,
    pub source_location: SourceLocation,
}

#[derive(Debug, Clone, Copy, PartialEq, Eq, Structural)]
pub enum CallingConvention {
    C,
    System,
}

#[derive(Debug, PartialEq)]
pub struct ExternalFunction {
    pub name: Identifier,
    pub library: String,
    pub symbol: Option<String>,
    pub parameters: Vec<Parameter>,
    pub return_type: Box<TypeSpecifier>,
    pub calling_convention: CallingConvention,
    pub thread_safe: bool,
    pub may_block: bool,
    pub variadic: bool,
    pub source_location: SourceLocation,
}

#[derive(Debug, PartialEq)]
pub struct StructField {
    pub name: Identifier,
    pub field_type: Box<TypeSpecifier>,
    pub source_location: SourceLocation,
}

#[derive(Debug, PartialEq)]
pub struct EnumVariant {
    pub name: Identifier,
    pub associated_types: Vec<TypeSpecifier>,
    pub source_location: SourceLocation,
}

#[derive(Debug, PartialEq)]
pub enum TypeDefinition {
    Structured {
        name: Identifier,
        intent: Option<String>,
        generic_parameters: Vec<GenericParameter>,
        where_clause: Vec<WhereClause>,
        fields: Vec<StructField>,
        export_as: Option<String>,
        source_location: SourceLocation,
    },
    Enumeration {
        name: Identifier,
        intent: Option<String>,
        generic_parameters: Vec<GenericParameter>,
        where_clause: Vec<WhereClause>,
        variants: Vec<EnumVariant>,
        source_location: SourceLocation,
    },
}

#[derive(Debug, PartialEq)]
pub struct TraitMethod {
    pub name: Identifier,
    pub generic_parameters: Vec<GenericParameter>,
    pub parameters: Vec<Parameter>,
    pub return_type: Box<TypeSpecifier>,
    pub default_body: Option<Block>,
    pub source_location: SourceLocation,
}

#[derive(Debug, PartialEq)]
pub struct TraitAxiom {
    pub name: Option<Identifier>,
    pub quantifiers: Vec<Quantifier>,
    pub condition: Box<Expression>,
    pub source_location: SourceLocation,
}

#[derive(Debug, PartialEq)]
pub struct TraitDefinition {
    pub name: Identifier,
    pub generic_parameters: Vec<GenericParameter>,
    pub where_clause: Vec<WhereClause>,
    pub axioms: Vec<TraitAxiom>,
    pub methods: Vec<TraitMethod>,
    pub source_location: SourceLocation,
}

/// A sequence of statements between braces.
#[derive(Debug, PartialEq)]
pub struct Block {
    pub statements: Vec<Statement>,
    pub source_location: SourceLocation,
}

#[derive(Debug, Clone, Copy, PartialEq, Eq, Structural)]
pub enum Mutability {
    Mutable,
    Immutable,
}

#[derive(Debug, PartialEq)]
pub struct ElseIf {
    pub condition: Box<Expression>,
    pub block: Block,
    pub source_location: SourceLocation,
}

#[derive(Debug, PartialEq)]
pub struct MatchArm {
    pub pattern: Pattern,
    pub guard: Option<Box<Expression>>,
    pub body: Block,
    pub source_location: SourceLocation,
}

#[derive(Debug, PartialEq)]
pub struct CatchClause {
    pub exception_type: Box<TypeSpecifier>,
    pub binding_variable: Option<Identifier>,
    pub handler_block: Block,
    pub source_location: SourceLocation,
}

#[derive(Debug, PartialEq)]
pub enum AssignmentTarget {
    Variable { name: Identifier },
    ArrayElement { array: Box<Expression>, index: Box<Expression> },
    StructField { instance: Box<Expression>, field_name: Identifier },
}

#[derive(Debug, PartialEq)]
#[allow(inconsistent_fields)]
pub enum Statement {
    VariableDeclaration {
        name: Identifier,
        type_spec: Box<TypeSpecifier>,
        mutability: Mutability,
        initial_value: Option<Box<Expression>>,
        intent: Option<String>,
        source_location: SourceLocation,
    },
    Assignment { target: AssignmentTarget, value: Box<Expression>, source_location: SourceLocation },
    Return { value: Option<Box<Expression>>, source_location: SourceLocation },
    If {
        condition: Box<Expression>,
        then_block: Block,
        else_ifs: Vec<ElseIf>,
        else_block: Option<Block>,
        source_location: SourceLocation,
    },
    WhileLoop {
        condition: Box<Expression>,
        invariant: Option<String>,
        body: Block,
        label: Option<Identifier>,
        source_location: SourceLocation,
    },
    FixedIterationLoop {
        counter: Identifier,
        from_value: Box<Expression>,
        to_value: Box<Expression>,
        step_value: Option<Box<Expression>>,
        inclusive: bool,
        body: Block,
        label: Option<Identifier>,
        source_location: SourceLocation,
    },
    ForEachLoop {
        collection: Box<Expression>,
        element_binding: Identifier,
        element_type: Box<TypeSpecifier>,
        index_binding: Option<Identifier>,
        body: Block,
        label: Option<Identifier>,
        source_location: SourceLocation,
    },
    Match { value: Box<Expression>, arms: Vec<MatchArm>, source_location: SourceLocation },
    Break { target_label: Option<Identifier>, source_location: SourceLocation },
    Continue { target_label: Option<Identifier>, source_location: SourceLocation },
    Concurrent { block: Block, source_location: SourceLocation },
    TryBlock {
        protected_block: Block,
        catch_clauses: Vec<CatchClause>,
        finally_block: Option<Block>,
        source_location: SourceLocation,
    },
    Throw { exception: Box<Expression>, source_location: SourceLocation },
    Expression { expr: Box<Expression>, source_location: SourceLocation },
}

#[derive(Debug, PartialEq)]
pub enum FunctionReference {
    Local { name: Identifier },
}

#[derive(Debug, PartialEq)]
pub struct Argument {
    pub parameter_name: Identifier,
    pub value: Box<Expression>,
    pub source_location: SourceLocation,
}

#[derive(Debug, PartialEq)]
pub struct FunctionCall {
    pub function_reference: FunctionReference,
    pub arguments: Vec<Argument>,
    pub variadic_arguments: Vec<Box<Expression>>,
}

#[derive(Debug, Clone, Copy, PartialEq, Eq, Structural)]
pub enum CaptureMode {
    ByValue,
    ByReference,
    ByMutableReference,
}

#[derive(Debug, PartialEq)]
pub struct Capture {
    pub name: Identifier,
    pub mode: CaptureMode,
    pub source_location: SourceLocation,
}

#[derive(Debug, PartialEq)]
pub enum LambdaBody {
    Expression(Box<Expression>),
    Block(Block),
}

#[derive(Debug, PartialEq)]
pub struct FieldValue {
    pub field_name: Identifier,
    pub value: Box<Expression>,
    pub source_location: SourceLocation,
}

#[derive(Debug, PartialEq)]
pub struct MapEntry {
    pub key: Box<Expression>,
    pub value: Box<Expression>,
    pub source_location: SourceLocation,
}

#[derive(Debug, PartialEq)]
pub struct MatchCase {
    pub pattern: Pattern,
    pub body: Box<Expression>,
    pub source_location: SourceLocation,
}

#[derive(Debug, Clone, Copy, PartialEq, Eq, Structural)]
pub enum QuantifierKind {
    ForAll,
    Exists,
}

#[derive(Debug, PartialEq)]
pub struct QuantifierVariable {
    pub name: Identifier,
    pub var_type: Box<TypeSpecifier>,
    pub source_location: SourceLocation,
}

/// `forall` or `exists` with its bound variables, as written before the
/// condition of a trait axiom.
#[derive(Debug, PartialEq)]
pub struct Quantifier {
    pub kind: QuantifierKind,
    pub variables: Vec<QuantifierVariable>,
    pub source_location: SourceLocation,
}

#[derive(Debug, PartialEq)]
pub enum Pattern {
    Wildcard { binding: Option<Identifier>, source_location: SourceLocation },
    EnumVariant {
        enum_name: Option<Identifier>,
        variant_name: Identifier,
        bindings: Vec<Identifier>,
        nested_pattern: Option<Box<Pattern>>,
        source_location: SourceLocation,
    },
    Struct { struct_name: Identifier, fields: Vec<(Identifier, Pattern)>, source_location: SourceLocation },
    Literal { value: Box<Expression>, source_location: SourceLocation },
}

/// An expression. A float literal keeps its source text.
#[derive(Debug, PartialEq)]
#[allow(inconsistent_fields)]
pub enum Expression {
    IntegerLiteral { value: i64, source_location: SourceLocation },
    FloatLiteral { value: String, source_location: SourceLocation },
    StringLiteral { value: String, source_location: SourceLocation },
    CharacterLiteral { value: char, source_location: SourceLocation },
    BooleanLiteral { value: bool, source_location: SourceLocation },
    Variable { name: Identifier, source_location: SourceLocation },
    LogicalNot { operand: Box<Expression>, source_location: SourceLocation },
    Negate { operand: Box<Expression>, source_location: SourceLocation },
    AddressOf { operand: Box<Expression>, mutability: bool, source_location: SourceLocation },
    Range {
        start: Option<Box<Expression>>,
        end: Option<Box<Expression>>,
        inclusive: bool,
        source_location: SourceLocation,
    },
    FunctionCall { call: FunctionCall, source_location: SourceLocation },
    ArrayAccess { array: Box<Expression>, index: Box<Expression>, source_location: SourceLocation },
    MethodCall {
        receiver: Box<Expression>,
        method_name: Identifier,
        arguments: Vec<Argument>,
        source_location: SourceLocation,
    },
    FieldAccess { instance: Box<Expression>, field_name: Identifier, source_location: SourceLocation },
    Lambda {
        captures: Vec<Capture>,
        parameters: Vec<Parameter>,
        return_type: Option<Box<TypeSpecifier>>,
        body: LambdaBody,
        source_location: SourceLocation,
    },
    StructConstruct { struct_name: Identifier, field_values: Vec<FieldValue>, source_location: SourceLocation },
    EnumVariant {
        enum_name: Identifier,
        variant_name: Identifier,
        values: Vec<Expression>,
        source_location: SourceLocation,
    },
    ArrayLiteral { element_type: Box<TypeSpecifier>, elements: Vec<Box<Expression>>, source_location: SourceLocation },
    MapLiteral {
        key_type: Box<TypeSpecifier>,
        value_type: Box<TypeSpecifier>,
        entries: Vec<MapEntry>,
        source_location: SourceLocation,
    },
    Match { value: Box<Expression>, cases: Vec<MatchCase>, source_location: SourceLocation },
    Add { left: Box<Expression>, right: Box<Expression>, source_location: SourceLocation },
    Subtract { left: Box<Expression>, right: Box<Expression>, source_location: SourceLocation },
    Multiply { left: Box<Expression>, right: Box<Expression>, source_location: SourceLocation },
    Divide { left: Box<Expression>, right: Box<Expression>, source_location: SourceLocation },
    Modulo { left: Box<Expression>, right: Box<Expression>, source_location: SourceLocation },
    Equals { left: Box<Expression>, right: Box<Expression>, source_location: SourceLocation },
    NotEquals { left: Box<Expression>, right: Box<Expression>, source_location: SourceLocation },
    LessThan { left: Box<Expression>, right: Box<Expression>, source_location: SourceLocation },
    LessThanOrEqual { left: Box<Expression>, right: Box<Expression>, source_location: SourceLocation },
    GreaterThan { left: Box<Expression>, right: Box<Expression>, source_location: SourceLocation },
    GreaterThanOrEqual { left: Box<Expression>, right: Box<Expression>, source_location: SourceLocation },
    LogicalAnd { operands: Vec<Expression>, source_location: SourceLocation },
    LogicalOr { operands: Vec<Expression>, source_location: SourceLocation },
}

} // verus!
