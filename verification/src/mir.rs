//! The mid-level intermediate representation (MIR) that the optimization
//! passes work on: functions made of basic blocks of statements, each block
//! ending in a terminator.
//!
//! The tables of a function (its locals and its blocks) and of a program
//! (its functions) are lists of `(key, value)` entries; a well-formed table
//! holds each key once. Values that hold vectors have a view in which the
//! vectors are sequences, and the passes' contracts are stated over views.

use vstd::prelude::*;
use crate::ast::PrimitiveType;
use crate::error::SourceLocation;

verus! {

/// Identifies a local variable of a function.
pub type LocalId = u32;

/// Identifies a basic block of a function.
pub type BasicBlockId = u32;

/// The type of a MIR value.
#[derive(Debug, PartialEq)]
pub enum Type {
    Primitive(PrimitiveType),
    Function { parameter_types: Vec<Type>, return_type: Box<Type>, is_variadic: bool },
}

/// The view of a type.
pub enum TypeView {
    Primitive(PrimitiveType),
    Function { parameter_types: Seq<TypeView>, return_type: Box<TypeView>, is_variadic: bool },
}

/// The views of a sequence of types.
pub open spec fn types_view(s: Seq<Type>) -> Seq<TypeView>
    decreases s,
{
    if s.len() == 0 {
        seq![]
    } else {
        types_view(s.drop_last()).push(type_view(s.last()))
    }
}

/// The view of a type.
pub open spec fn type_view(t: Type) -> TypeView
    decreases t,
{
    match t {
        Type::Primitive(p) => TypeView::Primitive(p),
        Type::Function { parameter_types, return_type, is_variadic } => TypeView::Function {
            parameter_types: types_view(parameter_types@),
            return_type: Box::new(type_view(*return_type)),
            is_variadic,
        },
    }
}

pub proof fn lemma_types_view_len(s: Seq<Type>)
    ensures
        types_view(s).len() == s.len(),
    decreases s.len(),
{
    if s.len() > 0 {
        lemma_types_view_len(s.drop_last());
    }
}

pub proof fn lemma_types_view_index(s: Seq<Type>, k: int)
    requires
        0 <= k < s.len(),
    ensures
        types_view(s)[k] == type_view(s[k]),
    decreases s.len(),
{
    lemma_types_view_len(s.drop_last());
    if k < s.len() - 1 {
        lemma_types_view_index(s.drop_last(), k);
    }
}

impl Type {
    /// The type of a primitive.
    pub fn primitive(p: PrimitiveType) -> (t: Type)
        ensures
            t == Type::Primitive(p),
    {
        Type::Primitive(p)
    }

    /// A copy of this type.
    pub fn duplicate(&self) -> (r: Type)
        ensures
            type_view(r) == type_view(*self),
        decreases self,
    {
        match self {
            Type::Primitive(p) => Type::Primitive(*p),
            Type::Function { parameter_types, return_type, is_variadic } => {
                let mut copies: Vec<Type> = Vec::new();
                let mut i: usize = 0;
                while i < parameter_types.len()
                    invariant
                        self is Function,
                        *parameter_types == self->parameter_types,
                        i <= parameter_types@.len(),
                        copies@.len() == i,
                        forall|k: int| 0 <= k < i ==> type_view(#[trigger] copies@[k]) == type_view(parameter_types@[k]),
                    decreases parameter_types@.len() - i,
                {
                    proof {
                        let v = self->parameter_types;
                        assert(decreases_to!(*self => v));
                        assert(decreases_to!(v => v@)) by {
                            broadcast use vstd::std_specs::vec::axiom_vec_decreases_to_view;
                        }
                        assert(decreases_to!(v@ => v@[i as int]));
                        assert(decreases_to!(*self => v@[i as int]));
                    }
                    let t = parameter_types[i].duplicate();
                    copies.push(t);
                    i = i + 1;
                }
                let r = Type::Function {
                    parameter_types: copies,
                    return_type: Box::new(return_type.duplicate()),
                    is_variadic: *is_variadic,
                };
                proof {
                    lemma_types_view_len(copies@);
                    lemma_types_view_len(parameter_types@);
                    assert forall|k: int| 0 <= k < copies@.len() implies types_view(copies@)[k]
                        == types_view(parameter_types@)[k] by {
                        lemma_types_view_index(copies@, k);
                        lemma_types_view_index(parameter_types@, k);
                    }
                    assert(types_view(copies@) =~= types_view(parameter_types@));
                }
                r
            },
        }
    }
}

/// The value of a constant. A float keeps the text it was written with.
#[derive(Debug, PartialEq)]
pub enum ConstantValue {
    Integer(i64),
    Float(String),
    Bool(bool),
    String(String),
    Char(char),
    Null,
}

impl ConstantValue {
    /// A copy of this value.
    pub fn duplicate(&self) -> (r: ConstantValue)
        ensures
            r == *self,
    {
        match self {
            ConstantValue::Integer(n) => ConstantValue::Integer(*n),
            ConstantValue::Float(t) => ConstantValue::Float(t.clone()),
            ConstantValue::Bool(b) => ConstantValue::Bool(*b),
            ConstantValue::String(s) => ConstantValue::String(s.clone()),
            ConstantValue::Char(c) => ConstantValue::Char(*c),
            ConstantValue::Null => ConstantValue::Null,
        }
    }
}

/// A constant: a value and its type.
#[derive(Debug, PartialEq)]
pub struct Constant {
    pub ty: Type,
    pub value: ConstantValue,
}

/// The view of a constant.
pub struct ConstantView {
    pub ty: TypeView,
    pub value: ConstantValue,
}

impl View for Constant {
    type V = ConstantView;

    open spec fn view(&self) -> ConstantView {
        ConstantView { ty: type_view(self.ty), value: self.value }
    }
}

impl Constant {
    /// A copy of this constant.
    pub fn duplicate(&self) -> (r: Constant)
        ensures
            r@ == self@,
    {
        Constant { ty: self.ty.duplicate(), value: self.value.duplicate() }
    }
}

/// A step from a place to a part of it.
#[derive(Debug, Clone, Copy, PartialEq, Eq, Structural)]
pub enum PlaceElem {
    Deref,
    Field(u32),
    Index(LocalId),
}

/// A local, or a part of one reached through projections.
#[derive(Debug, PartialEq)]
pub struct Place {
    pub local: LocalId,
    pub projection: Vec<PlaceElem>,
}

/// The view of a place.
pub struct PlaceView {
    pub local: LocalId,
    pub projection: Seq<PlaceElem>,
}

impl View for Place {
    type V = PlaceView;

    open spec fn view(&self) -> PlaceView {
        PlaceView { local: self.local, projection: self.projection@ }
    }
}

impl Place {
    /// A copy of this place.
    pub fn duplicate(&self) -> (r: Place)
        ensures
            r@ == self@,
    {
        let mut projection: Vec<PlaceElem> = Vec::new();
        let mut i: usize = 0;
        while i < self.projection.len()
            invariant
                i <= self.projection@.len(),
                projection@ == self.projection@.subrange(0, i as int),
            decreases self.projection@.len() - i,
        {
            projection.push(self.projection[i]);
            i = i + 1;
        }
        assert(projection@ =~= self.projection@);
        Place { local: self.local, projection }
    }
}

/// An operand: a copy or move of a place, or a constant.
#[derive(Debug, PartialEq)]
pub enum Operand {
    Copy(Place),
    Move(Place),
    Constant(Constant),
}

/// The view of an operand.
pub enum OperandView {
    Copy(PlaceView),
    Move(PlaceView),
    Constant(ConstantView),
}

impl View for Operand {
    type V = OperandView;

    open spec fn view(&self) -> OperandView {
        match self {
            Operand::Copy(p) => OperandView::Copy(p@),
            Operand::Move(p) => OperandView::Move(p@),
            Operand::Constant(c) => OperandView::Constant(c@),
        }
    }
}

/// The views of a sequence of operands.
pub open spec fn operands_view(s: Seq<Operand>) -> Seq<OperandView> {
    s.map_values(|o: Operand| o@)
}

impl Operand {
    /// A copy of this operand.
    pub fn duplicate(&self) -> (r: Operand)
        ensures
            r@ == self@,
    {
        match self {
            Operand::Copy(p) => Operand::Copy(p.duplicate()),
            Operand::Move(p) => Operand::Move(p.duplicate()),
            Operand::Constant(c) => Operand::Constant(c.duplicate()),
        }
    }
}

/// Copies a list of operands.
pub fn duplicate_operands(v: &Vec<Operand>) -> (r: Vec<Operand>)
    ensures
        operands_view(r@) == operands_view(v@),
{
    let mut r: Vec<Operand> = Vec::new();
    let mut i: usize = 0;
    while i < v.len()
        invariant
            i <= v@.len(),
            r@.len() == i,
            forall|k: int| 0 <= k < i ==> (#[trigger] r@[k])@ == v@[k]@,
        decreases v@.len() - i,
    {
        r.push(v[i].duplicate());
        i = i + 1;
    }
    assert(operands_view(r@) =~= operands_view(v@));
    r
}

#[derive(Debug, Clone, Copy, PartialEq, Eq, Structural)]
pub enum BinOp {
    Add,
    Sub,
    Mul,
    Div,
    Rem,
    Eq,
    Ne,
    Lt,
    Le,
    Gt,
    Ge,
    And,
    Or,
}

#[derive(Debug, Clone, Copy, PartialEq, Eq, Structural)]
pub enum UnOp {
    Not,
    Neg,
}

#[derive(Debug, Clone, Copy, PartialEq, Eq, Structural)]
pub enum AggregateKind {
    Array,
    Tuple,
}

/// The right-hand side of an assignment.
#[derive(Debug, PartialEq)]
#[allow(inconsistent_fields)]
pub enum Rvalue {
    Use(Operand),
    BinaryOp { op: BinOp, left: Operand, right: Operand },
    UnaryOp { op: UnOp, operand: Operand },
    Call { func: Operand, args: Vec<Operand> },
    Aggregate { kind: AggregateKind, operands: Vec<Operand> },
    Cast { operand: Operand, ty: Type },
    Ref { place: Place, mutable: bool },
    AddressOf(Place),
    Len(Place),
    Discriminant(Place),
    Closure { function: String, captures: Vec<Operand> },
}

/// The view of a right-hand side.
#[allow(inconsistent_fields)]
pub enum RvalueView {
    Use(OperandView),
    BinaryOp { op: BinOp, left: OperandView, right: OperandView },
    UnaryOp { op: UnOp, operand: OperandView },
    Call { func: OperandView, args: Seq<OperandView> },
    Aggregate { kind: AggregateKind, operands: Seq<OperandView> },
    Cast { operand: OperandView, ty: TypeView },
    Ref { place: PlaceView, mutable: bool },
    AddressOf(PlaceView),
    Len(PlaceView),
    Discriminant(PlaceView),
    Closure { function: String, captures: Seq<OperandView> },
}

impl View for Rvalue {
    type V = RvalueView;

    open spec fn view(&self) -> RvalueView {
        match self {
            Rvalue::Use(o) => RvalueView::Use(o@),
            Rvalue::BinaryOp { op, left, right } => RvalueView::BinaryOp { op: *op, left: left@, right: right@ },
            Rvalue::UnaryOp { op, operand } => RvalueView::UnaryOp { op: *op, operand: operand@ },
            Rvalue::Call { func, args } => RvalueView::Call { func: func@, args: operands_view(args@) },
            Rvalue::Aggregate { kind, operands } => RvalueView::Aggregate {
                kind: *kind,
                operands: operands_view(operands@),
            },
            Rvalue::Cast { operand, ty } => RvalueView::Cast { operand: operand@, ty: type_view(*ty) },
            Rvalue::Ref { place, mutable } => RvalueView::Ref { place: place@, mutable: *mutable },
            Rvalue::AddressOf(p) => RvalueView::AddressOf(p@),
            Rvalue::Len(p) => RvalueView::Len(p@),
            Rvalue::Discriminant(p) => RvalueView::Discriminant(p@),
            Rvalue::Closure { function, captures } => RvalueView::Closure {
                function: *function,
                captures: operands_view(captures@),
            },
        }
    }
}

impl Rvalue {
    /// A copy of this right-hand side.
    pub fn duplicate(&self) -> (r: Rvalue)
        ensures
            r@ == self@,
    {
        match self {
            Rvalue::Use(o) => Rvalue::Use(o.duplicate()),
            Rvalue::BinaryOp { op, left, right } => Rvalue::BinaryOp {
                op: *op,
                left: left.duplicate(),
                right: right.duplicate(),
            },
            Rvalue::UnaryOp { op, operand } => Rvalue::UnaryOp { op: *op, operand: operand.duplicate() },
            Rvalue::Call { func, args } => Rvalue::Call { func: func.duplicate(), args: duplicate_operands(args) },
            Rvalue::Aggregate { kind, operands } => Rvalue::Aggregate {
                kind: *kind,
                operands: duplicate_operands(operands),
            },
            Rvalue::Cast { operand, ty } => Rvalue::Cast { operand: operand.duplicate(), ty: ty.duplicate() },
            Rvalue::Ref { place, mutable } => Rvalue::Ref { place: place.duplicate(), mutable: *mutable },
            Rvalue::AddressOf(p) => Rvalue::AddressOf(p.duplicate()),
            Rvalue::Len(p) => Rvalue::Len(p.duplicate()),
            Rvalue::Discriminant(p) => Rvalue::Discriminant(p.duplicate()),
            Rvalue::Closure { function, captures } => Rvalue::Closure {
                function: function.clone(),
                captures: duplicate_operands(captures),
            },
        }
    }
}

/// Where a statement comes from.
#[derive(Debug, PartialEq)]
pub struct SourceInfo {
    pub span: SourceLocation,
    pub scope: u32,
}

impl SourceInfo {
    /// A copy of this source information.
    pub fn duplicate(&self) -> (r: SourceInfo)
        ensures
            r == *self,
    {
        SourceInfo { span: self.span.duplicate(), scope: self.scope }
    }
}

/// A statement of a basic block.
#[derive(Debug, PartialEq)]
pub enum Statement {
    Assign { place: Place, rvalue: Rvalue, source_info: SourceInfo },
    StorageLive(LocalId),
    StorageDead(LocalId),
    Nop,
}

/// The view of a statement.
pub enum StatementView {
    Assign { place: PlaceView, rvalue: RvalueView, source_info: SourceInfo },
    StorageLive(LocalId),
    StorageDead(LocalId),
    Nop,
}

impl View for Statement {
    type V = StatementView;

    open spec fn view(&self) -> StatementView {
        match self {
            Statement::Assign { place, rvalue, source_info } => StatementView::Assign {
                place: place@,
                rvalue: rvalue@,
                source_info: *source_info,
            },
            Statement::StorageLive(l) => StatementView::StorageLive(*l),
            Statement::StorageDead(l) => StatementView::StorageDead(*l),
            Statement::Nop => StatementView::Nop,
        }
    }
}

/// The views of a sequence of statements.
pub open spec fn statements_view(s: Seq<Statement>) -> Seq<StatementView> {
    s.map_values(|st: Statement| st@)
}

impl Statement {
    /// A copy of this statement.
    pub fn duplicate(&self) -> (r: Statement)
        ensures
            r@ == self@,
    {
        match self {
            Statement::Assign { place, rvalue, source_info } => Statement::Assign {
                place: place.duplicate(),
                rvalue: rvalue.duplicate(),
                source_info: source_info.duplicate(),
            },
            Statement::StorageLive(l) => Statement::StorageLive(*l),
            Statement::StorageDead(l) => Statement::StorageDead(*l),
            Statement::Nop => Statement::Nop,
        }
    }
}

/// How a basic block ends.
#[derive(Debug, PartialEq)]
#[allow(inconsistent_fields)]
pub enum Terminator {
    Goto { target: BasicBlockId },
    SwitchInt { discriminant: Operand, values: Vec<i64>, targets: Vec<BasicBlockId>, otherwise: BasicBlockId },
    Return,
    Unreachable,
    Call { func: Operand, args: Vec<Operand>, destination: Place, target: Option<BasicBlockId> },
}

/// A basic block: statements run in order, then the terminator.
#[derive(Debug, PartialEq)]
pub struct BasicBlock {
    pub statements: Vec<Statement>,
    pub terminator: Terminator,
}

/// A local variable.
#[derive(Debug, PartialEq)]
pub struct Local {
    pub ty: Type,
    pub is_mutable: bool,
}

/// The view of a local variable.
pub struct LocalView {
    pub ty: TypeView,
    pub is_mutable: bool,
}

impl View for Local {
    type V = LocalView;

    open spec fn view(&self) -> LocalView {
        LocalView { ty: type_view(self.ty), is_mutable: self.is_mutable }
    }
}

impl Local {
    /// A copy of this local.
    pub fn duplicate(&self) -> (r: Local)
        ensures
            r@ == self@,
    {
        Local { ty: self.ty.duplicate(), is_mutable: self.is_mutable }
    }
}

/// A parameter of a function and the local that holds it.
#[derive(Debug, PartialEq)]
pub struct Parameter {
    pub name: String,
    pub ty: Type,
    pub local_id: LocalId,
}

/// A function: its parameters, locals, blocks (the entry block first to
/// run), and the local that holds its result.
#[derive(Debug, PartialEq)]
pub struct Function {
    pub name: String,
    pub parameters: Vec<Parameter>,
    pub return_type: Type,
    pub locals: Vec<(LocalId, Local)>,
    pub basic_blocks: Vec<(BasicBlockId, BasicBlock)>,
    pub entry_block: BasicBlockId,
    pub return_local: Option<LocalId>,
}

/// Each key of the table occurs once.
pub open spec fn keys_distinct<K, V>(entries: Seq<(K, V)>) -> bool {
    forall|i: int, j: int| 0 <= i < j < entries.len() ==> (#[trigger] entries[i]).0 != (#[trigger] entries[j]).0
}

impl Function {
    /// The function's tables hold each local and each block once.
    pub open spec fn wf(&self) -> bool {
        &&& keys_distinct(self.locals@)
        &&& keys_distinct(self.basic_blocks@)
    }

    /// The index of the entry of block `id`, if there is one.
    pub fn block_index(&self, id: BasicBlockId) -> (r: Option<usize>)
        ensures
            r matches Some(i) ==> i < self.basic_blocks@.len() && self.basic_blocks@[i as int].0 == id
                && forall|j: int| 0 <= j < i ==> (#[trigger] self.basic_blocks@[j]).0 != id,
            r is None ==> forall|j: int| 0 <= j < self.basic_blocks@.len() ==> (#[trigger] self.basic_blocks@[j]).0 != id,
    {
        let mut i: usize = 0;
        while i < self.basic_blocks.len()
            invariant
                i <= self.basic_blocks@.len(),
                forall|j: int| 0 <= j < i ==> (#[trigger] self.basic_blocks@[j]).0 != id,
            decreases self.basic_blocks@.len() - i,
        {
            if self.basic_blocks[i].0 == id {
                return Some(i);
            }
            i = i + 1;
        }
        None
    }

    /// The block `id`, if the function has one.
    pub fn block(&self, id: BasicBlockId) -> (r: Option<&BasicBlock>)
        ensures
            r is Some <==> exists|j: int| 0 <= j < self.basic_blocks@.len() && (#[trigger] self.basic_blocks@[j]).0 == id,
            r matches Some(b) ==> exists|j: int| 0 <= j < self.basic_blocks@.len()
                && (#[trigger] self.basic_blocks@[j]).0 == id && self.basic_blocks@[j].1 == *b,
    {
        match self.block_index(id) {
            Some(i) => Some(&self.basic_blocks[i].1),
            None => None,
        }
    }
}

/// A program: its functions, each under its name.
#[derive(Debug, PartialEq)]
pub struct Program {
    pub functions: Vec<(String, Function)>,
}

impl Program {
    /// The function named `name`, if there is one (the first such entry).
    pub fn function(&self, name: &str) -> (r: Option<&Function>)
        ensures
            r is Some <==> exists|j: int| 0 <= j < self.functions@.len() && (#[trigger] self.functions@[j]).0@ == name@,
            r matches Some(f) ==> exists|j: int| 0 <= j < self.functions@.len()
                && (#[trigger] self.functions@[j]).0@ == name@ && self.functions@[j].1 == *f,
    {
        let mut i: usize = 0;
        while i < self.functions.len()
            invariant
                i <= self.functions@.len(),
                forall|j: int| 0 <= j < i ==> (#[trigger] self.functions@[j]).0@ != name@,
            decreases self.functions@.len() - i,
        {
            if crate::text::str_is(self.functions[i].0.as_str(), name) {
                return Some(&self.functions[i].1);
            }
            i = i + 1;
        }
        None
    }
}

} // verus!
