//! Constant propagation: inside each basic block, a use of a local that
//! was last assigned a constant (as a whole, earlier in the block) is
//! replaced by that constant.

use vstd::prelude::*;
use crate::ast::PrimitiveType;
use crate::error::SemanticError;
use crate::mir::{
    BasicBlock, BasicBlockId, Constant, ConstantValue, ConstantView, Function, LocalId, Operand, OperandView,
    PlaceView, Rvalue, RvalueView, Statement, StatementView, Type, TypeView, statements_view,
};
use std::collections::HashMap;

verus! {

broadcast use vstd::std_specs::hash::group_hash_axioms;

/// The primitive type of a constant with this value, for the values whose
/// type a constant can be given: integers, floats, booleans and strings.
pub open spec fn value_type(v: ConstantValue) -> Option<PrimitiveType> {
    match v {
        ConstantValue::Integer(_) => Some(PrimitiveType::Integer),
        ConstantValue::Float(_) => Some(PrimitiveType::Float),
        ConstantValue::Bool(_) => Some(PrimitiveType::Boolean),
        ConstantValue::String(_) => Some(PrimitiveType::String),
        _ => None,
    }
}

/// A constant whose type is the primitive type of its value: `Integer`
/// for an integer, `Float` for a float, `Boolean` for a boolean and
/// `String` for a string.
pub open spec fn constant_typed_by_value(c: ConstantView) -> bool {
    match c.value {
        ConstantValue::Integer(_) => c.ty == TypeView::Primitive(PrimitiveType::Integer),
        ConstantValue::Float(_) => c.ty == TypeView::Primitive(PrimitiveType::Float),
        ConstantValue::Bool(_) => c.ty == TypeView::Primitive(PrimitiveType::Boolean),
        ConstantValue::String(_) => c.ty == TypeView::Primitive(PrimitiveType::String),
        _ => false,
    }
}

/// Where an operand that was not a constant became one, that constant is
/// typed by its value.
pub open spec fn introduced_constant_typed(before: OperandView, after: OperandView) -> bool {
    !(before is Constant) ==> (after matches OperandView::Constant(c) ==> constant_typed_by_value(c))
}

/// Where an operand that was not a constant became one, it was a copy or
/// move of a whole local and the constant holds that local's known value.
pub open spec fn introduced_constant_known(
    before: OperandView,
    after: OperandView,
    known: Map<LocalId, ConstantValue>,
) -> bool {
    !(before is Constant) ==> (after matches OperandView::Constant(c) ==> (match before {
        OperandView::Copy(p) => p.projection.len() == 0 && known.contains_key(p.local) && known[p.local] == c.value,
        OperandView::Move(p) => p.projection.len() == 0 && known.contains_key(p.local) && known[p.local] == c.value,
        OperandView::Constant(_) => true,
    }))
}

/// A value that propagation can type: an integer, a float, a boolean or
/// a string.
pub open spec fn typable_value(v: ConstantValue) -> bool {
    v is Integer || v is Float || v is Bool || v is String
}

/// Every copy or move of a whole local whose known value can be typed
/// became a constant; every other operand is left as it was.
pub open spec fn operand_propagated_fully(
    before: OperandView,
    after: OperandView,
    known: Map<LocalId, ConstantValue>,
) -> bool {
    match before {
        OperandView::Copy(p) => if p.projection.len() == 0 && known.contains_key(p.local) && typable_value(known[p.local]) {
            after is Constant
        } else {
            after == before
        },
        OperandView::Move(p) => if p.projection.len() == 0 && known.contains_key(p.local) && typable_value(known[p.local]) {
            after is Constant
        } else {
            after == before
        },
        OperandView::Constant(_) => after == before,
    }
}

/// The operands of a use, unary or binary operation, or cast are each
/// propagated fully, its operator and cast type kept; any other
/// right-hand side is left as it was.
pub open spec fn rvalue_propagated_fully(before: RvalueView, after: RvalueView, known: Map<LocalId, ConstantValue>) -> bool {
    match before {
        RvalueView::Use(a) => after matches RvalueView::Use(b) && operand_propagated_fully(a, b, known),
        RvalueView::UnaryOp { op, operand: a } => after matches RvalueView::UnaryOp { op: op2, operand: b }
            && op2 == op && operand_propagated_fully(a, b, known),
        RvalueView::BinaryOp { op, left: a1, right: a2 } => after matches RvalueView::BinaryOp { op: op2, left: b1, right: b2 }
            && op2 == op && operand_propagated_fully(a1, b1, known) && operand_propagated_fully(a2, b2, known),
        RvalueView::Cast { operand: a, ty } => after matches RvalueView::Cast { operand: b, ty: ty2 }
            && ty2 == ty && operand_propagated_fully(a, b, known),
        _ => after == before,
    }
}

/// Each operand of a use, unary or binary operation, or cast that became a
/// constant is typed by its value.
pub open spec fn rvalue_constants_typed(before: RvalueView, after: RvalueView) -> bool {
    match (before, after) {
        (RvalueView::Use(a), RvalueView::Use(b)) => introduced_constant_typed(a, b),
        (RvalueView::UnaryOp { operand: a, .. }, RvalueView::UnaryOp { operand: b, .. }) => introduced_constant_typed(a, b),
        (RvalueView::BinaryOp { left: a1, right: a2, .. }, RvalueView::BinaryOp { left: b1, right: b2, .. }) =>
            introduced_constant_typed(a1, b1) && introduced_constant_typed(a2, b2),
        (RvalueView::Cast { operand: a, .. }, RvalueView::Cast { operand: b, .. }) => introduced_constant_typed(a, b),
        _ => true,
    }
}

/// A use of `p` is replaced: `p` is a whole local whose constant is known
/// and can be given a type.
pub open spec fn replaceable(p: PlaceView, known: Map<LocalId, ConstantValue>) -> bool {
    &&& p.projection.len() == 0
    &&& known.contains_key(p.local)
    &&& value_type(known[p.local]) is Some
}

/// The constant that replaces a use of the whole local `l`.
pub open spec fn known_constant(l: LocalId, known: Map<LocalId, ConstantValue>) -> OperandView {
    OperandView::Constant(ConstantView {
        ty: TypeView::Primitive(value_type(known[l])->Some_0),
        value: known[l],
    })
}

/// An operand with a known constant in place of a copy or move of a whole
/// local.
pub open spec fn propagate_operand(o: OperandView, known: Map<LocalId, ConstantValue>) -> OperandView {
    match o {
        OperandView::Copy(p) => if replaceable(p, known) { known_constant(p.local, known) } else { o },
        OperandView::Move(p) => if replaceable(p, known) { known_constant(p.local, known) } else { o },
        OperandView::Constant(_) => o,
    }
}

/// How many replacements `propagate_operand` makes (0 or 1).
pub open spec fn operand_hits(o: OperandView, known: Map<LocalId, ConstantValue>) -> nat {
    match o {
        OperandView::Copy(p) => if replaceable(p, known) { 1 } else { 0 },
        OperandView::Move(p) => if replaceable(p, known) { 1 } else { 0 },
        OperandView::Constant(_) => 0,
    }
}

/// A right-hand side with constants propagated into the operands of a
/// use, a unary or binary operation, or a cast; others are left as they
/// are.
pub open spec fn propagate_rvalue(r: RvalueView, known: Map<LocalId, ConstantValue>) -> RvalueView {
    match r {
        RvalueView::Use(o) => RvalueView::Use(propagate_operand(o, known)),
        RvalueView::UnaryOp { op, operand } => RvalueView::UnaryOp { op, operand: propagate_operand(operand, known) },
        RvalueView::BinaryOp { op, left, right } => RvalueView::BinaryOp {
            op,
            left: propagate_operand(left, known),
            right: propagate_operand(right, known),
        },
        RvalueView::Cast { operand, ty } => RvalueView::Cast { operand: propagate_operand(operand, known), ty },
        _ => r,
    }
}

/// How many replacements `propagate_rvalue` makes.
pub open spec fn rvalue_hits(r: RvalueView, known: Map<LocalId, ConstantValue>) -> nat {
    match r {
        RvalueView::Use(o) => operand_hits(o, known),
        RvalueView::UnaryOp { operand, .. } => operand_hits(operand, known),
        RvalueView::BinaryOp { left, right, .. } => operand_hits(left, known) + operand_hits(right, known),
        RvalueView::Cast { operand, .. } => operand_hits(operand, known),
        _ => 0,
    }
}

/// A statement with constants propagated into an assignment's right-hand
/// side.
pub open spec fn propagate_statement(s: StatementView, known: Map<LocalId, ConstantValue>) -> StatementView {
    match s {
        StatementView::Assign { place, rvalue, source_info } => StatementView::Assign {
            place,
            rvalue: propagate_rvalue(rvalue, known),
            source_info,
        },
        _ => s,
    }
}

/// How many replacements `propagate_statement` makes.
pub open spec fn statement_hits(s: StatementView, known: Map<LocalId, ConstantValue>) -> nat {
    match s {
        StatementView::Assign { rvalue, .. } => rvalue_hits(rvalue, known),
        _ => 0,
    }
}

/// The constants known after a statement: assigning a constant to a whole
/// local records it; assigning anything else to a whole local forgets it.
pub open spec fn known_after(known: Map<LocalId, ConstantValue>, s: StatementView) -> Map<LocalId, ConstantValue> {
    match s {
        StatementView::Assign { place, rvalue, .. } => if place.projection.len() == 0 {
            match rvalue {
                RvalueView::Use(OperandView::Constant(c)) => known.insert(place.local, c.value),
                _ => known.remove(place.local),
            }
        } else {
            known
        },
        _ => known,
    }
}

/// Propagation through a block's statements: each statement rewritten with
/// the constants known from the (rewritten) statements before it, the
/// constants known at the end, and the number of replacements.
pub open spec fn propagate_block(s: Seq<StatementView>) -> (Seq<StatementView>, Map<LocalId, ConstantValue>, nat)
    decreases s.len(),
{
    if s.len() == 0 {
        (seq![], Map::empty(), 0)
    } else {
        let (out, known, hits) = propagate_block(s.drop_last());
        let rewritten = propagate_statement(s.last(), known);
        (out.push(rewritten), known_after(known, rewritten), hits + statement_hits(s.last(), known))
    }
}

/// The replacements that propagation makes in all of the blocks.
pub open spec fn blocks_hits(blocks: Seq<(BasicBlockId, BasicBlock)>) -> nat
    decreases blocks.len(),
{
    if blocks.len() == 0 {
        0
    } else {
        blocks_hits(blocks.drop_last()) + propagate_block(statements_view(blocks.last().1.statements@)).2
    }
}

/// The constant propagation pass. It counts the replacements it makes and
/// records whether its last run on a function changed anything.
pub struct ConstantPropagationPass {
    changed: bool,
    propagated_count: usize,
}

impl ConstantPropagationPass {
    /// Whether the last run changed anything.
    pub closed spec fn spec_changed(&self) -> bool {
        self.changed
    }

    /// The number of replacements made so far.
    pub closed spec fn spec_propagated_count(&self) -> nat {
        self.propagated_count as nat
    }

    /// A pass that has made no replacement.
    pub fn new() -> (p: ConstantPropagationPass)
        ensures
            p.spec_propagated_count() == 0,
            !p.spec_changed(),
    {
        ConstantPropagationPass { changed: false, propagated_count: 0 }
    }

    /// The pass's name.
    pub fn name(&self) -> (s: &'static str)
        ensures
            s@ == "constant-propagation"@,
    {
        "constant-propagation"
    }

    /// The number of replacements made so far.
    pub fn propagated_count(&self) -> (n: usize)
        ensures
            n == self.spec_propagated_count(),
    {
        self.propagated_count
    }

    /// Whether the last run changed anything.
    pub fn changed(&self) -> (b: bool)
        ensures
            b == self.spec_changed(),
    {
        self.changed
    }

    /// Replaces a copy or move of a whole local whose constant is known by
    /// that constant.
    pub fn propagate_in_operand(&mut self, operand: &mut Operand, constants: &HashMap<LocalId, ConstantValue>)
        requires
            old(self).spec_propagated_count() + operand_hits(old(operand)@, constants@) <= usize::MAX,
        ensures
            final(operand)@ == propagate_operand(old(operand)@, constants@),
            introduced_constant_typed(old(operand)@, final(operand)@),
            introduced_constant_known(old(operand)@, final(operand)@, constants@),
            operand_propagated_fully(old(operand)@, final(operand)@, constants@),
            final(self).spec_propagated_count() == old(self).spec_propagated_count() + operand_hits(old(operand)@, constants@),
            final(self).spec_changed() == (old(self).spec_changed() || operand_hits(old(operand)@, constants@) > 0),
    {
        let target = match &*operand {
            Operand::Copy(p) => if p.projection.len() == 0 { Some(p.local) } else { None },
            Operand::Move(p) => if p.projection.len() == 0 { Some(p.local) } else { None },
            Operand::Constant(_) => None,
        };
        if let Some(local) = target {
            if let Some(value) = constants.get(&local) {
                let primitive = match value {
                    ConstantValue::Integer(_) => Some(PrimitiveType::Integer),
                    ConstantValue::Float(_) => Some(PrimitiveType::Float),
                    ConstantValue::Bool(_) => Some(PrimitiveType::Boolean),
                    ConstantValue::String(_) => Some(PrimitiveType::String),
                    _ => None,
                };
                if let Some(p) = primitive {
                    *operand = Operand::Constant(Constant { ty: Type::primitive(p), value: value.duplicate() });
                    self.changed = true;
                    self.propagated_count = self.propagated_count + 1;
                }
            }
        }
    }

    /// Propagates known constants into the operands of a use, a unary or
    /// binary operation, or a cast.
    pub fn propagate_in_rvalue(&mut self, rvalue: &mut Rvalue, constants: &HashMap<LocalId, ConstantValue>)
        requires
            old(self).spec_propagated_count() + rvalue_hits(old(rvalue)@, constants@) <= usize::MAX,
        ensures
            final(rvalue)@ == propagate_rvalue(old(rvalue)@, constants@),
            rvalue_constants_typed(old(rvalue)@, final(rvalue)@),
            rvalue_propagated_fully(old(rvalue)@, final(rvalue)@, constants@),
            final(self).spec_propagated_count() == old(self).spec_propagated_count() + rvalue_hits(old(rvalue)@, constants@),
            final(self).spec_changed() == (old(self).spec_changed() || rvalue_hits(old(rvalue)@, constants@) > 0),
    {
        match rvalue {
            Rvalue::Use(operand) => self.propagate_in_operand(operand, constants),
            Rvalue::UnaryOp { operand, .. } => self.propagate_in_operand(operand, constants),
            Rvalue::BinaryOp { left, right, .. } => {
                self.propagate_in_operand(left, constants);
                self.propagate_in_operand(right, constants);
            },
            Rvalue::Cast { operand, .. } => self.propagate_in_operand(operand, constants),
            _ => {},
        }
    }

    /// Propagates constants through a block's statements, in order.
    pub fn run_on_block(&mut self, block_statements: &mut Vec<Statement>)
        requires
            old(self).spec_propagated_count() + propagate_block(statements_view(old(block_statements)@)).2 <= usize::MAX,
        ensures
            statements_view(final(block_statements)@) == propagate_block(statements_view(old(block_statements)@)).0,
            final(self).spec_propagated_count() == old(self).spec_propagated_count()
                + propagate_block(statements_view(old(block_statements)@)).2,
            final(self).spec_changed() == (old(self).spec_changed()
                || propagate_block(statements_view(old(block_statements)@)).2 > 0),
    {
        let ghost input = statements_view(old(block_statements)@);
        let mut rest: Vec<Statement> = Vec::new();
        std::mem::swap(block_statements, &mut rest);
        let ghost start_count = self.spec_propagated_count();
        let ghost start_changed = self.spec_changed();
        let mut known: HashMap<LocalId, ConstantValue> = HashMap::new();
        let mut i: usize = 0;
        let total = rest.len();
        assert(statements_view(rest@) == input);
        assert(input.subrange(0, 0) =~= Seq::<StatementView>::empty());
        while rest.len() > 0
            invariant
                total == input.len(),
                i + rest@.len() == total,
                statements_view(rest@) == input.subrange(i as int, total as int),
                statements_view(block_statements@) == propagate_block(input.subrange(0, i as int)).0,
                known@ == propagate_block(input.subrange(0, i as int)).1,
                self.spec_propagated_count() == start_count + propagate_block(input.subrange(0, i as int)).2,
                self.spec_changed() == (start_changed || propagate_block(input.subrange(0, i as int)).2 > 0),
                start_count + propagate_block(input).2 <= usize::MAX,
            decreases rest@.len(),
        {
            let ghost prefix = input.subrange(0, i as int + 1);
            assert(prefix.drop_last() =~= input.subrange(0, i as int));
            assert(prefix.last() == input[i as int]);
            assert(statements_view(rest@)[0] == rest@[0]@);
            let ghost old_rest = rest@;
            proof {
                lemma_block_hits_prefix(input, i as int + 1);
            }
            let statement = rest.remove(0);
            let ghost before = block_statements@;
            match statement {
                Statement::Assign { place, mut rvalue, source_info } => {
                    self.propagate_in_rvalue(&mut rvalue, &known);
                    if place.projection.len() == 0 {
                        let constant = match &rvalue {
                            Rvalue::Use(Operand::Constant(c)) => Some(c.value.duplicate()),
                            _ => None,
                        };
                        match constant {
                            Some(v) => {
                                known.insert(place.local, v);
                            },
                            None => {
                                known.remove(&place.local);
                            },
                        }
                    }
                    block_statements.push(Statement::Assign { place, rvalue, source_info });
                },
                other => {
                    block_statements.push(other);
                },
            }
            proof {
                assert(statements_view(block_statements@) =~= statements_view(before).push(block_statements@.last()@));
                assert(rest@ =~= old_rest.subrange(1, old_rest.len() as int));
                assert forall|k: int| 0 <= k < rest@.len() implies statements_view(rest@)[k]
                    == input.subrange(i as int + 1, total as int)[k] by {
                    assert(statements_view(old_rest)[k + 1] == old_rest[k + 1]@);
                }
                assert(statements_view(rest@) =~= input.subrange(i as int + 1, total as int));
            }
            i = i + 1;
        }
        assert(input.subrange(0, total as int) =~= input);
    }

    /// Runs the pass on every block of a function; the result says whether
    /// anything changed. This pass never fails.
    pub fn run_on_function(&mut self, function: &mut Function) -> (r: Result<bool, SemanticError>)
        requires
            old(self).spec_propagated_count() + blocks_hits(old(function).basic_blocks@) <= usize::MAX,
        ensures
            r == Ok::<bool, SemanticError>(blocks_hits(old(function).basic_blocks@) > 0),
            final(self).spec_changed() == (blocks_hits(old(function).basic_blocks@) > 0),
            final(self).spec_propagated_count() == old(self).spec_propagated_count()
                + blocks_hits(old(function).basic_blocks@),
            final(function).basic_blocks@.len() == old(function).basic_blocks@.len(),
            forall|k: int| 0 <= k < final(function).basic_blocks@.len() ==> {
                &&& (#[trigger] final(function).basic_blocks@[k]).0 == old(function).basic_blocks@[k].0
                &&& final(function).basic_blocks@[k].1.terminator == old(function).basic_blocks@[k].1.terminator
                &&& statements_view(final(function).basic_blocks@[k].1.statements@)
                    == propagate_block(statements_view(old(function).basic_blocks@[k].1.statements@)).0
            },
            final(function).name == old(function).name,
            final(function).parameters == old(function).parameters,
            final(function).return_type == old(function).return_type,
            final(function).locals == old(function).locals,
            final(function).entry_block == old(function).entry_block,
            final(function).return_local == old(function).return_local,
    {
        self.changed = false;
        let ghost input = old(function).basic_blocks@;
        let ghost start_count = self.spec_propagated_count();
        let mut rest: Vec<(BasicBlockId, BasicBlock)> = Vec::new();
        std::mem::swap(&mut function.basic_blocks, &mut rest);
        let mut i: usize = 0;
        let total = rest.len();
        assert(input.subrange(0, 0) =~= Seq::<(BasicBlockId, BasicBlock)>::empty());
        while rest.len() > 0
            invariant
                total == input.len(),
                i + rest@.len() == total,
                rest@ == input.subrange(i as int, total as int),
                function.basic_blocks@.len() == i,
                forall|k: int| 0 <= k < i ==> {
                    &&& (#[trigger] function.basic_blocks@[k]).0 == input[k].0
                    &&& function.basic_blocks@[k].1.terminator == input[k].1.terminator
                    &&& statements_view(function.basic_blocks@[k].1.statements@)
                        == propagate_block(statements_view(input[k].1.statements@)).0
                },
                self.spec_propagated_count() == start_count + blocks_hits(input.subrange(0, i as int)),
                self.spec_changed() == (blocks_hits(input.subrange(0, i as int)) > 0),
                start_count + blocks_hits(input) <= usize::MAX,
                function.name == old(function).name,
                function.parameters == old(function).parameters,
                function.return_type == old(function).return_type,
                function.locals == old(function).locals,
                function.entry_block == old(function).entry_block,
                function.return_local == old(function).return_local,
            decreases rest@.len(),
        {
            let ghost prefix = input.subrange(0, i as int + 1);
            assert(prefix.drop_last() =~= input.subrange(0, i as int));
            assert(prefix.last() == input[i as int]);
            proof {
                lemma_blocks_hits_prefix(input, i as int + 1);
            }
            let (id, block) = rest.remove(0);
            let BasicBlock { mut statements, terminator } = block;
            self.run_on_block(&mut statements);
            function.basic_blocks.push((id, BasicBlock { statements, terminator }));
            assert(rest@ =~= input.subrange(i as int + 1, total as int));
            i = i + 1;
        }
        assert(input.subrange(0, total as int) =~= input);
        Ok(self.changed)
    }
}

/// Propagating into an operand twice is propagating once, and the second
/// time replaces nothing.
pub proof fn lemma_propagate_operand_twice(o: OperandView, known: Map<LocalId, ConstantValue>)
    ensures
        propagate_operand(propagate_operand(o, known), known) == propagate_operand(o, known),
        operand_hits(propagate_operand(o, known), known) == 0,
{
}

/// Constant propagation is idempotent: propagating through a block that
/// was already propagated gives the same statements and the same known
/// constants, and replaces nothing.
pub proof fn lemma_propagation_idempotent(s: Seq<StatementView>)
    ensures
        propagate_block(propagate_block(s).0) == (propagate_block(s).0, propagate_block(s).1, 0nat),
    decreases s.len(),
{
    if s.len() > 0 {
        lemma_propagation_idempotent(s.drop_last());
        let (out, known, hits) = propagate_block(s.drop_last());
        let x = propagate_statement(s.last(), known);
        let all = out.push(x);
        assert(all.drop_last() =~= out);
        match s.last() {
            StatementView::Assign { rvalue, .. } => {
                match rvalue {
                    RvalueView::Use(o) => lemma_propagate_operand_twice(o, known),
                    RvalueView::UnaryOp { operand, .. } => lemma_propagate_operand_twice(operand, known),
                    RvalueView::BinaryOp { left, right, .. } => {
                        lemma_propagate_operand_twice(left, known);
                        lemma_propagate_operand_twice(right, known);
                    },
                    RvalueView::Cast { operand, .. } => lemma_propagate_operand_twice(operand, known),
                    _ => {},
                }
            },
            _ => {},
        }
        assert(propagate_statement(x, known) == x);
        assert(statement_hits(x, known) == 0);
    }
}

/// Replacements only add up along a block.
pub proof fn lemma_block_hits_prefix(s: Seq<StatementView>, n: int)
    requires
        0 <= n <= s.len(),
    ensures
        propagate_block(s.subrange(0, n)).2 <= propagate_block(s).2,
    decreases s.len() - n,
{
    if n < s.len() {
        lemma_block_hits_prefix(s, n + 1);
        assert(s.subrange(0, n + 1).drop_last() =~= s.subrange(0, n));
    } else {
        assert(s.subrange(0, n) =~= s);
    }
}

/// Replacements only add up over the blocks.
pub proof fn lemma_blocks_hits_prefix(s: Seq<(BasicBlockId, BasicBlock)>, n: int)
    requires
        0 <= n <= s.len(),
    ensures
        blocks_hits(s.subrange(0, n)) <= blocks_hits(s),
    decreases s.len() - n,
{
    if n < s.len() {
        lemma_blocks_hits_prefix(s, n + 1);
        assert(s.subrange(0, n + 1).drop_last() =~= s.subrange(0, n));
    } else {
        assert(s.subrange(0, n) =~= s);
    }
}

/// Statement `s` assigns to the whole local `l`.
pub open spec fn assigns_whole(s: StatementView, l: LocalId) -> bool {
    s matches StatementView::Assign { place, .. } && place.projection.len() == 0 && place.local == l
}

/// The index of the last statement of `ss` that assigns to the whole local
/// `l`, if there is one.
pub open spec fn last_whole_assign(ss: Seq<StatementView>, l: LocalId) -> Option<int>
    decreases ss.len(),
{
    if ss.len() == 0 {
        None
    } else if assigns_whole(ss.last(), l) {
        Some(ss.len() - 1)
    } else {
        last_whole_assign(ss.drop_last(), l)
    }
}

/// The constant an assignment `_ = Use(Constant(c))` assigns, if it is one.
pub open spec fn assigned_constant(s: StatementView) -> Option<ConstantValue> {
    match s {
        StatementView::Assign { rvalue: RvalueView::Use(OperandView::Constant(c)), .. } => Some(c.value),
        _ => None,
    }
}

/// The rewritten statements of a prefix of a block are that prefix of the
/// rewritten block.
pub proof fn lemma_propagate_prefix(s: Seq<StatementView>, n: int)
    requires
        0 <= n <= s.len(),
    ensures
        propagate_block(s).0.len() == s.len(),
        propagate_block(s.subrange(0, n)).0 == propagate_block(s).0.subrange(0, n),
    decreases s.len(),
{
    if s.len() > 0 {
        if n < s.len() {
            lemma_propagate_prefix(s.drop_last(), n);
            assert(s.drop_last().subrange(0, n) =~= s.subrange(0, n));
            assert(propagate_block(s).0.subrange(0, n) =~= propagate_block(s.drop_last()).0.subrange(0, n));
        } else {
            lemma_propagate_prefix(s.drop_last(), n - 1);
            assert(s.subrange(0, n) =~= s);
            assert(propagate_block(s).0.subrange(0, n) =~= propagate_block(s).0);
        }
    } else {
        assert(s.subrange(0, n) =~= s);
        assert(propagate_block(s).0.subrange(0, n) =~= propagate_block(s).0);
    }
}

/// The constants known after a block are read off the rewritten block: a
/// whole local is known exactly when the last rewritten statement that
/// assigns to all of it assigns a constant, and it is known to hold that
/// constant.
pub proof fn lemma_known_is_last_constant_assignment(s: Seq<StatementView>, l: LocalId)
    ensures
        propagate_block(s).1.contains_key(l) <==> (last_whole_assign(propagate_block(s).0, l) matches Some(i)
            && assigned_constant(propagate_block(s).0[i]) is Some),
        propagate_block(s).1.contains_key(l) ==> propagate_block(s).1[l]
            == assigned_constant(propagate_block(s).0[last_whole_assign(propagate_block(s).0, l)->Some_0])->Some_0,
    decreases s.len(),
{
    if s.len() > 0 {
        lemma_known_is_last_constant_assignment(s.drop_last(), l);
        lemma_propagate_prefix(s.drop_last(), 0);
        let (out, known, hits) = propagate_block(s.drop_last());
        let x = propagate_statement(s.last(), known);
        let all = out.push(x);
        assert(all.drop_last() =~= out);
        assert(all.last() == x);
        if assigns_whole(x, l) {
            assert(last_whole_assign(all, l) == Some(all.len() - 1));
        } else {
            assert(last_whole_assign(all, l) == last_whole_assign(out, l));
            match last_whole_assign(out, l) {
                Some(i) => {
                    lemma_last_whole_assign_in_range(out, l);
                    assert(all[i] == out[i]);
                },
                None => {},
            }
        }
    }
}

/// Constant propagation, statement by statement: statement `j` of a block
/// becomes that statement with the constants known before it put into its
/// right-hand side (`propagate_statement` changes only assignments), and a
/// whole local is known to hold `c` before it exactly when the last earlier
/// statement of the rewritten block that assigns to all of that local
/// assigns it the constant `c`.
pub proof fn lemma_propagation_per_statement(s: Seq<StatementView>, j: int, l: LocalId)
    requires
        0 <= j < s.len(),
    ensures
        propagate_block(s).0.len() == s.len(),
        propagate_block(s).0[j] == propagate_statement(s[j], propagate_block(s.subrange(0, j)).1),
        propagate_block(s.subrange(0, j)).1.contains_key(l) <==> (
            last_whole_assign(propagate_block(s).0.subrange(0, j), l) matches Some(i)
            && assigned_constant(propagate_block(s).0[i]) is Some),
        propagate_block(s.subrange(0, j)).1.contains_key(l) ==> propagate_block(s.subrange(0, j)).1[l]
            == assigned_constant(propagate_block(s).0[last_whole_assign(propagate_block(s).0.subrange(0, j), l)->Some_0])->Some_0,
{
    lemma_propagate_prefix(s, j + 1);
    lemma_propagate_prefix(s, j);
    lemma_known_is_last_constant_assignment(s.subrange(0, j), l);
    let p = s.subrange(0, j + 1);
    assert(p.drop_last() =~= s.subrange(0, j));
    assert(p.last() == s[j]);
    assert(propagate_block(s).0[j] == propagate_block(p).0[j]);
    match last_whole_assign(propagate_block(s).0.subrange(0, j), l) {
        Some(i) => {
            assert(0 <= i < j) by {
                lemma_last_whole_assign_in_range(propagate_block(s).0.subrange(0, j), l);
            }
            assert(propagate_block(s).0.subrange(0, j)[i] == propagate_block(s).0[i]);
        },
        None => {},
    }
}

/// The last whole assignment, where there is one, is an index of the
/// statements.
pub proof fn lemma_last_whole_assign_in_range(ss: Seq<StatementView>, l: LocalId)
    ensures
        last_whole_assign(ss, l) matches Some(i) ==> 0 <= i < ss.len(),
    decreases ss.len(),
{
    if ss.len() > 0 {
        lemma_last_whole_assign_in_range(ss.drop_last(), l);
    }
}

/// Propagation types each constant it puts in place of a local by the
/// constant's value (a boolean is `Boolean`, never `Integer`), and the
/// constant is the local's known value.
pub proof fn lemma_propagated_operand_typed(o: OperandView, known: Map<LocalId, ConstantValue>)
    ensures
        introduced_constant_typed(o, propagate_operand(o, known)),
        introduced_constant_known(o, propagate_operand(o, known), known),
        operand_propagated_fully(o, propagate_operand(o, known), known),
{
}

/// Propagation into a right-hand side rewrites every operand it may and
/// nothing else: each copy or move of a whole local with a typable known
/// value in a use, unary or binary operation, or cast becomes a constant,
/// and every other right-hand side is unchanged.
pub proof fn lemma_propagated_rvalue_fully(r: RvalueView, known: Map<LocalId, ConstantValue>)
    ensures
        rvalue_propagated_fully(r, propagate_rvalue(r, known), known),
        rvalue_constants_typed(r, propagate_rvalue(r, known)),
{
    match r {
        RvalueView::Use(o) => lemma_propagated_operand_typed(o, known),
        RvalueView::UnaryOp { operand, .. } => lemma_propagated_operand_typed(operand, known),
        RvalueView::BinaryOp { left, right, .. } => {
            lemma_propagated_operand_typed(left, known);
            lemma_propagated_operand_typed(right, known);
        },
        RvalueView::Cast { operand, .. } => lemma_propagated_operand_typed(operand, known),
        _ => {},
    }
}

/// Throughout a block, every operand that propagation turns into a
/// constant gets the primitive type of the constant's value.
pub proof fn lemma_propagated_block_typed(s: Seq<StatementView>, j: int)
    requires
        0 <= j < s.len(),
    ensures
        propagate_block(s).0.len() == s.len(),
        match (s[j], propagate_block(s).0[j]) {
            (StatementView::Assign { rvalue: r1, .. }, StatementView::Assign { rvalue: r2, .. }) => rvalue_constants_typed(r1, r2),
            _ => true,
        },
{
    lemma_propagation_per_statement(s, j, 0);
    let known = propagate_block(s.subrange(0, j)).1;
    match s[j] {
        StatementView::Assign { rvalue, .. } => match rvalue {
            RvalueView::Use(o) => lemma_propagated_operand_typed(o, known),
            RvalueView::UnaryOp { operand, .. } => lemma_propagated_operand_typed(operand, known),
            RvalueView::BinaryOp { left, right, .. } => {
                lemma_propagated_operand_typed(left, known);
                lemma_propagated_operand_typed(right, known);
            },
            RvalueView::Cast { operand, .. } => lemma_propagated_operand_typed(operand, known),
            _ => {},
        },
        _ => {},
    }
}

impl Default for ConstantPropagationPass {
    fn default() -> (p: Self)
        ensures
            p.spec_propagated_count() == 0,
            !p.spec_changed(),
    {
        Self::new()
    }
}

} // verus!
