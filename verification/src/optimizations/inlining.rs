//! Function inlining: a call of a small single-block function, written as
//! the assignment of a call whose function is a string constant naming it,
//! is replaced by the function's statements, run on fresh locals.

use vstd::prelude::*;
use crate::error::SemanticError;
use crate::mir::{
    keys_distinct, BasicBlock, BasicBlockId, ConstantValue, Function, Local, LocalId, LocalView, Operand, OperandView, Parameter,
    Place, PlaceElem, PlaceView, Program, Rvalue, RvalueView, SourceInfo, Statement, StatementView, Terminator,
    operands_view, statements_view,
};
use crate::text::str_is;
use std::collections::{HashMap, HashSet};

verus! {

broadcast use vstd::std_specs::hash::group_hash_axioms;

// ==================== RENAMING LOCALS ====================

/// A local renamed by `m`: its image when `m` has one, itself otherwise.
pub open spec fn renamed_local(l: LocalId, m: Map<LocalId, LocalId>) -> LocalId {
    if m.contains_key(l) { m[l] } else { l }
}

/// A projection step with its index local renamed.
pub open spec fn renamed_elem(e: PlaceElem, m: Map<LocalId, LocalId>) -> PlaceElem {
    match e {
        PlaceElem::Index(l) => PlaceElem::Index(renamed_local(l, m)),
        _ => e,
    }
}

/// A place with its local and index locals renamed.
pub open spec fn renamed_place(p: PlaceView, m: Map<LocalId, LocalId>) -> PlaceView {
    PlaceView { local: renamed_local(p.local, m), projection: p.projection.map_values(|e: PlaceElem| renamed_elem(e, m)) }
}

/// An operand with the locals of its place renamed.
pub open spec fn renamed_operand(o: OperandView, m: Map<LocalId, LocalId>) -> OperandView {
    match o {
        OperandView::Copy(p) => OperandView::Copy(renamed_place(p, m)),
        OperandView::Move(p) => OperandView::Move(renamed_place(p, m)),
        OperandView::Constant(_) => o,
    }
}

/// Operands with their locals renamed.
pub open spec fn renamed_operands(s: Seq<OperandView>, m: Map<LocalId, LocalId>) -> Seq<OperandView> {
    s.map_values(|o: OperandView| renamed_operand(o, m))
}

/// A right-hand side with every local it mentions renamed.
pub open spec fn renamed_rvalue(r: RvalueView, m: Map<LocalId, LocalId>) -> RvalueView {
    match r {
        RvalueView::Use(o) => RvalueView::Use(renamed_operand(o, m)),
        RvalueView::BinaryOp { op, left, right } => RvalueView::BinaryOp {
            op,
            left: renamed_operand(left, m),
            right: renamed_operand(right, m),
        },
        RvalueView::UnaryOp { op, operand } => RvalueView::UnaryOp { op, operand: renamed_operand(operand, m) },
        RvalueView::Call { func, args } => RvalueView::Call { func: renamed_operand(func, m), args: renamed_operands(args, m) },
        RvalueView::Aggregate { kind, operands } => RvalueView::Aggregate { kind, operands: renamed_operands(operands, m) },
        RvalueView::Cast { operand, ty } => RvalueView::Cast { operand: renamed_operand(operand, m), ty },
        RvalueView::Ref { place, mutable } => RvalueView::Ref { place: renamed_place(place, m), mutable },
        RvalueView::AddressOf(p) => RvalueView::AddressOf(renamed_place(p, m)),
        RvalueView::Len(p) => RvalueView::Len(renamed_place(p, m)),
        RvalueView::Discriminant(p) => RvalueView::Discriminant(renamed_place(p, m)),
        RvalueView::Closure { function, captures } => RvalueView::Closure {
            function,
            captures: renamed_operands(captures, m),
        },
    }
}

/// A statement with every local it mentions renamed.
pub open spec fn renamed_statement(s: StatementView, m: Map<LocalId, LocalId>) -> StatementView {
    match s {
        StatementView::Assign { place, rvalue, source_info } => StatementView::Assign {
            place: renamed_place(place, m),
            rvalue: renamed_rvalue(rvalue, m),
            source_info,
        },
        StatementView::StorageLive(l) => StatementView::StorageLive(renamed_local(l, m)),
        StatementView::StorageDead(l) => StatementView::StorageDead(renamed_local(l, m)),
        StatementView::Nop => StatementView::Nop,
    }
}

// ==================== LOCALS A STATEMENT MENTIONS ====================

/// The place `p` mentions the local `l`: as its local, or as the index of
/// one of its projection steps.
pub open spec fn place_mentions(p: PlaceView, l: LocalId) -> bool {
    p.local == l || exists|i: int| 0 <= i < p.projection.len() && #[trigger] p.projection[i] == PlaceElem::Index(l)
}

/// The operand `o` mentions the local `l` through its place.
pub open spec fn operand_mentions(o: OperandView, l: LocalId) -> bool {
    match o {
        OperandView::Copy(p) => place_mentions(p, l),
        OperandView::Move(p) => place_mentions(p, l),
        OperandView::Constant(_) => false,
    }
}

/// One of the operands mentions the local `l`.
pub open spec fn operands_mention(os: Seq<OperandView>, l: LocalId) -> bool {
    exists|i: int| 0 <= i < os.len() && operand_mentions(#[trigger] os[i], l)
}

/// The right-hand side `r` mentions the local `l` in one of its operands
/// or places.
pub open spec fn rvalue_mentions(r: RvalueView, l: LocalId) -> bool {
    match r {
        RvalueView::Use(o) => operand_mentions(o, l),
        RvalueView::BinaryOp { left, right, .. } => operand_mentions(left, l) || operand_mentions(right, l),
        RvalueView::UnaryOp { operand, .. } => operand_mentions(operand, l),
        RvalueView::Call { func, args } => operand_mentions(func, l) || operands_mention(args, l),
        RvalueView::Aggregate { operands, .. } => operands_mention(operands, l),
        RvalueView::Cast { operand, .. } => operand_mentions(operand, l),
        RvalueView::Ref { place, .. } => place_mentions(place, l),
        RvalueView::AddressOf(p) => place_mentions(p, l),
        RvalueView::Len(p) => place_mentions(p, l),
        RvalueView::Discriminant(p) => place_mentions(p, l),
        RvalueView::Closure { captures, .. } => operands_mention(captures, l),
    }
}

/// The statement `s` mentions the local `l`.
pub open spec fn statement_mentions(s: StatementView, l: LocalId) -> bool {
    match s {
        StatementView::Assign { place, rvalue, .. } => place_mentions(place, l) || rvalue_mentions(rvalue, l),
        StatementView::StorageLive(x) => x == l,
        StatementView::StorageDead(x) => x == l,
        StatementView::Nop => false,
    }
}

/// `l` is what the renaming `m` makes of `l0`: its image, or `l0` itself
/// where `m` has none.
pub open spec fn renames_to(l0: LocalId, l: LocalId, m: Map<LocalId, LocalId>) -> bool {
    if m.contains_key(l0) { l == m[l0] } else { l == l0 }
}

// ==================== INLINING ONE CALL ====================

/// The largest key of a table, 0 when it is empty.
pub open spec fn max_key<V>(entries: Seq<(LocalId, V)>) -> int
    decreases entries.len(),
{
    if entries.len() == 0 {
        0
    } else {
        let m = max_key(entries.drop_last());
        if entries.last().0 > m { entries.last().0 as int } else { m }
    }
}

/// The renaming of a callee's locals to fresh locals numbered `base + 1`,
/// `base + 2`, ... in table order.
pub open spec fn fresh_map<V>(callee_locals: Seq<(LocalId, V)>, base: int) -> Map<LocalId, LocalId>
    decreases callee_locals.len(),
{
    if callee_locals.len() == 0 {
        Map::empty()
    } else {
        fresh_map(callee_locals.drop_last(), base).insert(
            callee_locals.last().0,
            (base + callee_locals.len()) as LocalId,
        )
    }
}

/// The locals that inlining adds: the callee's locals under their fresh
/// numbers.
pub open spec fn fresh_locals(callee_locals: Seq<(LocalId, Local)>, base: int) -> Seq<(LocalId, LocalView)> {
    Seq::new(callee_locals.len(), |k: int| ((base + 1 + k) as LocalId, callee_locals[k].1@))
}

/// The view of a table of locals.
pub open spec fn locals_view(s: Seq<(LocalId, Local)>) -> Seq<(LocalId, LocalView)> {
    s.map_values(|e: (LocalId, Local)| (e.0, e.1@))
}

/// The assignment of each argument to the fresh local of its parameter,
/// for the parameters that have both.
pub open spec fn parameter_assignments(
    params: Seq<Parameter>,
    args: Seq<OperandView>,
    m: Map<LocalId, LocalId>,
    source_info: SourceInfo,
) -> Seq<StatementView>
    decreases params.len(),
{
    if params.len() == 0 {
        seq![]
    } else {
        let before = parameter_assignments(params.drop_last(), args, m, source_info);
        let i = params.len() - 1;
        let pid = params.last().local_id;
        if i < args.len() && m.contains_key(pid) {
            before.push(StatementView::Assign {
                place: PlaceView { local: m[pid], projection: seq![] },
                rvalue: RvalueView::Use(args[i]),
                source_info,
            })
        } else {
            before
        }
    }
}

/// The index of the first entry with key `k`, if any.
pub open spec fn first_index<V>(entries: Seq<(u32, V)>, k: u32) -> Option<int>
    decreases entries.len(),
{
    if entries.len() == 0 {
        None
    } else {
        match first_index(entries.drop_last(), k) {
            Some(j) => Some(j),
            None => if entries.last().0 == k { Some(entries.len() - 1) } else { None },
        }
    }
}

/// The statements of a function's entry block; none if it has no such
/// block.
pub open spec fn entry_statements(f: Function) -> Seq<Statement> {
    match first_index(f.basic_blocks@, f.entry_block) {
        Some(j) => f.basic_blocks@[j].1.statements@,
        None => seq![],
    }
}

/// The assignment of the callee's result to the call's destination, when
/// the callee has a result local.
pub open spec fn return_assignment(
    callee: Function,
    destination: PlaceView,
    m: Map<LocalId, LocalId>,
    source_info: SourceInfo,
) -> Seq<StatementView> {
    match callee.return_local {
        Some(r) => if m.contains_key(r) {
            seq![StatementView::Assign {
                place: destination,
                rvalue: RvalueView::Use(OperandView::Copy(PlaceView { local: m[r], projection: seq![] })),
                source_info,
            }]
        } else {
            seq![]
        },
        None => seq![],
    }
}

/// The statements that replace a call of `callee` with arguments `args`
/// into `destination`, the callee's locals renamed to fresh ones above
/// `base`: the arguments assigned to the parameters, the entry block's
/// statements, and the result assigned to the destination.
pub open spec fn inlined_statements(
    callee: Function,
    args: Seq<OperandView>,
    destination: PlaceView,
    source_info: SourceInfo,
    base: int,
) -> Seq<StatementView> {
    let m = fresh_map(callee.locals@, base);
    parameter_assignments(callee.parameters@, args, m, source_info)
        + statements_view(entry_statements(callee)).map_values(|s: StatementView| renamed_statement(s, m))
        + return_assignment(callee, destination, m, source_info)
}

// ==================== CANDIDATES AND COST ====================

/// What a terminator adds to a function's cost: 5 for a call, 2 for a
/// switch, 1 otherwise.
pub open spec fn terminator_cost(t: Terminator) -> nat {
    match t {
        Terminator::Call { .. } => 5,
        Terminator::SwitchInt { .. } => 2,
        _ => 1,
    }
}

/// A function's cost: over its blocks, the number of statements plus the
/// terminator's cost.
pub open spec fn blocks_cost(blocks: Seq<(BasicBlockId, BasicBlock)>) -> nat
    decreases blocks.len(),
{
    if blocks.len() == 0 {
        0
    } else {
        blocks_cost(blocks.drop_last()) + blocks.last().1.statements@.len() + terminator_cost(blocks.last().1.terminator)
    }
}

/// A function is inlined where it is called when it has a single block and
/// costs at most `threshold`.
pub open spec fn inline_candidate(f: Function, threshold: usize) -> bool {
    f.basic_blocks@.len() == 1 && !calls_itself(f) && blocks_cost(f.basic_blocks@) <= threshold
}

/// The operand is a constant naming the function `name`.
pub open spec fn names_function(op: Operand, name: Seq<char>) -> bool {
    op matches Operand::Constant(c) && (c.value matches ConstantValue::String(s) && s@ == name)
}

/// The statement assigns the result of a call of the function `name`.
pub open spec fn statement_calls(st: Statement, name: Seq<char>) -> bool {
    st matches Statement::Assign { rvalue: Rvalue::Call { func, .. }, .. } && names_function(func, name)
}

/// A statement of the block, or its terminator, calls the function `name`.
pub open spec fn block_calls(b: BasicBlock, name: Seq<char>) -> bool {
    ||| exists|k: int| 0 <= k < b.statements@.len() && #[trigger] statement_calls(b.statements@[k], name)
    ||| (b.terminator matches Terminator::Call { func, .. } && names_function(func, name))
}

/// Some block of the function calls the function itself (by its name).
pub open spec fn calls_itself(f: Function) -> bool {
    exists|i: int| 0 <= i < f.basic_blocks@.len() && #[trigger] block_calls(f.basic_blocks@[i].1, f.name@)
}

/// The index of the function named `name`, if any (the first).
pub open spec fn name_index(fs: Seq<(String, Function)>, name: Seq<char>) -> Option<int>
    decreases fs.len(),
{
    if fs.len() == 0 {
        None
    } else {
        match name_index(fs.drop_last(), name) {
            Some(j) => Some(j),
            None => if fs.last().0@ == name { Some(fs.len() - 1) } else { None },
        }
    }
}

/// The candidate that a statement calls, if it calls one: the statement
/// assigns a call whose function is a string constant naming a candidate.
pub open spec fn called_candidate(s: Statement, fs: Seq<(String, Function)>, threshold: usize) -> Option<int> {
    match s {
        Statement::Assign { rvalue: Rvalue::Call { func: Operand::Constant(c), .. }, .. } => match c.value {
            ConstantValue::String(name) => match name_index(fs, name@) {
                Some(j) => if inline_candidate(fs[j].1, threshold) { Some(j) } else { None },
                None => None,
            },
            _ => None,
        },
        _ => None,
    }
}

/// Inlining through a block's statements, starting from the caller's
/// locals `locals`: the rewritten statements, the locals afterwards,
/// whether a call was inlined, and whether every fresh local number fits
/// in a `LocalId`.
pub open spec fn expand_statements(
    stmts: Seq<Statement>,
    fs: Seq<(String, Function)>,
    threshold: usize,
    locals: Seq<(LocalId, LocalView)>,
) -> (Seq<StatementView>, Seq<(LocalId, LocalView)>, bool, bool)
    decreases stmts.len(),
{
    if stmts.len() == 0 {
        (seq![], locals, false, true)
    } else {
        let (out, ls, changed, fits) = expand_statements(stmts.drop_last(), fs, threshold, locals);
        let s = stmts.last();
        match called_candidate(s, fs, threshold) {
            Some(j) => match s {
                Statement::Assign { place, rvalue: Rvalue::Call { args, .. }, source_info } => {
                    let callee = fs[j].1;
                    let base = max_key(ls);
                    (
                        out + inlined_statements(callee, operands_view(args@), place@, source_info, base),
                        ls + fresh_locals(callee.locals@, base),
                        true,
                        fits && base + callee.locals@.len() <= u32::MAX,
                    )
                },
                _ => (out.push(s@), ls, changed, fits),
            },
            None => (out.push(s@), ls, changed, fits),
        }
    }
}

/// Inlining through a function's blocks in order: each block's rewritten
/// statements, the locals afterwards, whether a call was inlined, and
/// whether every fresh local number fits.
pub open spec fn expand_blocks(
    blocks: Seq<(BasicBlockId, BasicBlock)>,
    fs: Seq<(String, Function)>,
    threshold: usize,
    locals: Seq<(LocalId, LocalView)>,
) -> (Seq<Seq<StatementView>>, Seq<(LocalId, LocalView)>, bool, bool)
    decreases blocks.len(),
{
    if blocks.len() == 0 {
        (seq![], locals, false, true)
    } else {
        let (outs, ls, changed, fits) = expand_blocks(blocks.drop_last(), fs, threshold, locals);
        let (out, ls2, changed2, fits2) = expand_statements(blocks.last().1.statements@, fs, threshold, ls);
        (outs.push(out), ls2, changed || changed2, fits && fits2)
    }
}

/// Inlining into the function `f`, from its own locals.
pub open spec fn expand_function(f: Function, fs: Seq<(String, Function)>, threshold: usize)
    -> (Seq<Seq<StatementView>>, Seq<(LocalId, LocalView)>, bool, bool) {
    expand_blocks(f.basic_blocks@, fs, threshold, locals_view(f.locals@))
}

/// The functions of a program have distinct names.
pub open spec fn names_distinct(fs: Seq<(String, Function)>) -> bool {
    forall|i: int, j: int| 0 <= i < j < fs.len() ==> (#[trigger] fs[i]).0@ != (#[trigger] fs[j]).0@
}

/// Inlining into some function of the program inlines a call.
pub open spec fn program_changes(fs: Seq<(String, Function)>, threshold: usize) -> bool {
    exists|i: int| 0 <= i < fs.len() && (#[trigger] expand_function(fs[i].1, fs, threshold)).2
}

// ==================== LEMMAS ====================

pub proof fn lemma_max_key_bound<V>(entries: Seq<(LocalId, V)>)
    ensures
        0 <= max_key(entries),
        forall|k: int| 0 <= k < entries.len() ==> (#[trigger] entries[k]).0 <= max_key(entries),
    decreases entries.len(),
{
    if entries.len() > 0 {
        lemma_max_key_bound(entries.drop_last());
        assert forall|k: int| 0 <= k < entries.len() implies (#[trigger] entries[k]).0 <= max_key(entries) by {
            if k < entries.len() - 1 {
                assert(entries[k] == entries.drop_last()[k]);
            }
        }
    }
}

pub proof fn lemma_first_index_prefix<V>(entries: Seq<(u32, V)>, n: int, k: u32)
    requires
        0 <= n <= entries.len(),
        first_index(entries.subrange(0, n), k) is Some,
    ensures
        first_index(entries, k) == first_index(entries.subrange(0, n), k),
    decreases entries.len() - n,
{
    if n < entries.len() {
        assert(entries.subrange(0, n + 1).drop_last() =~= entries.subrange(0, n));
        lemma_first_index_prefix(entries, n + 1, k);
    } else {
        assert(entries.subrange(0, n) =~= entries);
    }
}

pub proof fn lemma_first_index_none<V>(entries: Seq<(u32, V)>, k: u32)
    requires
        forall|j: int| 0 <= j < entries.len() ==> (#[trigger] entries[j]).0 != k,
    ensures
        first_index(entries, k) is None,
    decreases entries.len(),
{
    if entries.len() > 0 {
        assert forall|j: int| 0 <= j < entries.drop_last().len() implies (#[trigger] entries.drop_last()[j]).0 != k by {
            assert(entries.drop_last()[j] == entries[j]);
        }
        lemma_first_index_none(entries.drop_last(), k);
    }
}

/// With distinct names, the function at index `j` is the one named by its
/// name.
pub proof fn lemma_name_index(fs: Seq<(String, Function)>, j: int)
    requires
        names_distinct(fs),
        0 <= j < fs.len(),
    ensures
        name_index(fs, fs[j].0@) == Some(j),
    decreases fs.len(),
{
    if j < fs.len() - 1 {
        assert forall|a: int, b: int| 0 <= a < b < fs.drop_last().len() implies (#[trigger] fs.drop_last()[a]).0@
            != (#[trigger] fs.drop_last()[b]).0@ by {
            assert(fs.drop_last()[a] == fs[a]);
            assert(fs.drop_last()[b] == fs[b]);
        }
        assert(fs.drop_last()[j] == fs[j]);
        lemma_name_index(fs.drop_last(), j);
    } else {
        assert(fs.drop_last() =~= fs.subrange(0, fs.len() - 1));
        lemma_name_index_none(fs.drop_last(), fs[j].0@, fs, j);
    }
}

/// A name carried by no function has no index.
pub proof fn lemma_name_index_none(prefix: Seq<(String, Function)>, name: Seq<char>, fs: Seq<(String, Function)>, j: int)
    requires
        names_distinct(fs),
        prefix.len() <= j < fs.len(),
        prefix == fs.subrange(0, prefix.len() as int),
        fs[j].0@ == name,
    ensures
        name_index(prefix, name) is None,
    decreases prefix.len(),
{
    if prefix.len() > 0 {
        assert(prefix.drop_last() =~= fs.subrange(0, prefix.len() - 1));
        lemma_name_index_none(prefix.drop_last(), name, fs, j);
        assert(prefix.last() == fs[prefix.len() - 1]);
    }
}

pub struct InliningPass {
    threshold: usize,
    max_depth: Option<usize>,
    inlined_functions: HashSet<String>,
}

impl InliningPass {
    /// The largest cost of a function that is inlined.
    pub closed spec fn spec_threshold(&self) -> usize {
        self.threshold
    }

    /// The maximum inlining depth, once one is set.
    pub closed spec fn spec_max_depth(&self) -> Option<usize> {
        self.max_depth
    }

    /// A pass that inlines functions costing at most 20, with no maximum
    /// depth set.
    pub fn new() -> (p: InliningPass)
        ensures
            p.spec_threshold() == 20,
            p.spec_max_depth() is None,
    {
        InliningPass { threshold: 20, max_depth: None, inlined_functions: HashSet::new() }
    }

    /// The pass's name.
    pub fn name(&self) -> (s: &'static str)
        ensures
            s@ == "inlining"@,
    {
        "inlining"
    }

    /// Sets the largest cost of a function that is inlined.
    pub fn set_max_inline_size(&mut self, size: usize)
        ensures
            final(self).spec_threshold() == size,
            final(self).spec_max_depth() == old(self).spec_max_depth(),
    {
        self.threshold = size;
    }

    /// Sets the maximum inlining depth. Inlining goes one level deep (the
    /// bodies put in place are not inlined into in turn), which every depth
    /// allows, so the depth changes no result of the pass.
    pub fn set_max_inline_depth(&mut self, depth: usize)
        ensures
            final(self).spec_max_depth() == Some(depth),
            final(self).spec_threshold() == old(self).spec_threshold(),
    {
        self.max_depth = Some(depth);
    }

    /// A function's cost: over its blocks, the number of statements plus 5
    /// for a call terminator, 2 for a switch, 1 for any other.
    pub fn calculate_function_cost(&self, function: &Function) -> (cost: usize)
        requires
            blocks_cost(function.basic_blocks@) <= usize::MAX,
        ensures
            cost == blocks_cost(function.basic_blocks@),
    {
        let mut cost: usize = 0;
        let mut i: usize = 0;
        while i < function.basic_blocks.len()
            invariant
                i <= function.basic_blocks@.len(),
                cost == blocks_cost(function.basic_blocks@.subrange(0, i as int)),
                blocks_cost(function.basic_blocks@) <= usize::MAX,
            decreases function.basic_blocks@.len() - i,
        {
            let ghost prefix = function.basic_blocks@.subrange(0, i as int + 1);
            assert(prefix.drop_last() =~= function.basic_blocks@.subrange(0, i as int));
            proof {
                lemma_blocks_cost_prefix(function.basic_blocks@, i as int + 1);
            }
            let block = &function.basic_blocks[i].1;
            let extra: usize = match &block.terminator {
                Terminator::Call { .. } => 5,
                Terminator::SwitchInt { .. } => 2,
                _ => 1,
            };
            cost = cost + block.statements.len() + extra;
            i = i + 1;
        }
        assert(function.basic_blocks@.subrange(0, i as int) =~= function.basic_blocks@);
        cost
    }

    /// Whether a function may be inlined: it has one block, no recursive
    /// call, and costs at most the threshold.
    pub fn should_inline(&self, function: &Function) -> (b: bool)
        requires
            blocks_cost(function.basic_blocks@) <= usize::MAX,
        ensures
            b == inline_candidate(*function, self.spec_threshold()),
    {
        if function.basic_blocks.len() != 1 {
            return false;
        }
        if self.has_recursive_calls(function) {
            return false;
        }
        let cost = self.calculate_function_cost(function);
        cost <= self.threshold
    }

    /// Whether a function calls itself: a call statement or terminator of
    /// one of its blocks whose target is a constant naming the function.
    pub fn has_recursive_calls(&self, function: &Function) -> (b: bool)
        ensures
            b == calls_itself(*function),
    {
        let mut i: usize = 0;
        while i < function.basic_blocks.len()
            invariant
                i <= function.basic_blocks@.len(),
                forall|j: int| 0 <= j < i ==> !#[trigger] block_calls(function.basic_blocks@[j].1, function.name@),
            decreases function.basic_blocks@.len() - i,
        {
            let block = &function.basic_blocks[i].1;
            let mut k: usize = 0;
            while k < block.statements.len()
                invariant
                    k <= block.statements@.len(),
                    i < function.basic_blocks@.len(),
                    *block == function.basic_blocks@[i as int].1,
                    forall|m: int| 0 <= m < k ==> !#[trigger] statement_calls(block.statements@[m], function.name@),
                decreases block.statements@.len() - k,
            {
                if let Statement::Assign { rvalue: Rvalue::Call { func, .. }, .. } = &block.statements[k] {
                    if Self::names_function_exec(func, &function.name) {
                        proof {
                            assert(statement_calls(block.statements@[k as int], function.name@));
                            assert(block_calls(function.basic_blocks@[i as int].1, function.name@));
                        }
                        return true;
                    }
                }
                k = k + 1;
            }
            if let Terminator::Call { func, .. } = &block.terminator {
                if Self::names_function_exec(func, &function.name) {
                    proof {
                        assert(block_calls(function.basic_blocks@[i as int].1, function.name@));
                    }
                    return true;
                }
            }
            i = i + 1;
        }
        false
    }

    /// Whether an operand is a constant naming the function `name`.
    fn names_function_exec(op: &Operand, name: &String) -> (b: bool)
        ensures
            b == names_function(*op, name@),
    {
        match op {
            Operand::Constant(c) => match &c.value {
                ConstantValue::String(s) => str_is(s.as_str(), name.as_str()),
                _ => false,
            },
            _ => false,
        }
    }

    /// Renames a place's local and index locals by `map`.
    pub fn remap_place(&self, place: &mut Place, map: &HashMap<LocalId, LocalId>)
        ensures
            final(place)@ == renamed_place(old(place)@, map@),
    {
        if let Some(new_local) = map.get(&place.local) {
            place.local = *new_local;
        }
        let mut projection: Vec<PlaceElem> = Vec::new();
        let mut i: usize = 0;
        while i < place.projection.len()
            invariant
                i <= place.projection@.len(),
                place.projection@ == old(place).projection@,
                projection@ == old(place).projection@.subrange(0, i as int).map_values(|e: PlaceElem| renamed_elem(e, map@)),
            decreases place.projection@.len() - i,
        {
            let elem = match place.projection[i] {
                PlaceElem::Index(local) => match map.get(&local) {
                    Some(new_local) => PlaceElem::Index(*new_local),
                    None => PlaceElem::Index(local),
                },
                other => other,
            };
            projection.push(elem);
            assert(old(place).projection@.subrange(0, i as int + 1).map_values(|e: PlaceElem| renamed_elem(e, map@))
                =~= old(place).projection@.subrange(0, i as int).map_values(|e: PlaceElem| renamed_elem(e, map@)).push(elem));
            i = i + 1;
        }
        assert(old(place).projection@.subrange(0, i as int) =~= old(place).projection@);
        place.projection = projection;
    }

    /// Renames the locals of an operand's place.
    pub fn remap_operand(&self, operand: &mut Operand, map: &HashMap<LocalId, LocalId>)
        ensures
            final(operand)@ == renamed_operand(old(operand)@, map@),
    {
        match operand {
            Operand::Copy(place) => self.remap_place(place, map),
            Operand::Move(place) => self.remap_place(place, map),
            Operand::Constant(_) => {},
        }
    }

    /// Renames the locals of a list of operands.
    fn remap_operands(&self, operands: &mut Vec<Operand>, map: &HashMap<LocalId, LocalId>)
        ensures
            operands_view(final(operands)@) == renamed_operands(operands_view(old(operands)@), map@),
    {
        let ghost input = operands_view(old(operands)@);
        let mut rest: Vec<Operand> = Vec::new();
        std::mem::swap(operands, &mut rest);
        let total = rest.len();
        let mut i: usize = 0;
        assert(operands_view(rest@) == input);
        while rest.len() > 0
            invariant
                total == input.len(),
                i + rest@.len() == total,
                operands_view(rest@) == input.subrange(i as int, total as int),
                operands_view(operands@) == renamed_operands(input.subrange(0, i as int), map@),
            decreases rest@.len(),
        {
            let ghost old_rest = rest@;
            assert(operands_view(old_rest)[0] == old_rest[0]@);
            let mut operand = rest.remove(0);
            self.remap_operand(&mut operand, map);
            let ghost before = operands@;
            operands.push(operand);
            proof {
                assert(operands_view(operands@) =~= operands_view(before).push(operands@.last()@));
                assert(renamed_operands(input.subrange(0, i as int + 1), map@)
                    =~= renamed_operands(input.subrange(0, i as int), map@).push(renamed_operand(input[i as int], map@)));
                assert(rest@ =~= old_rest.subrange(1, old_rest.len() as int));
                assert forall|k: int| 0 <= k < rest@.len() implies operands_view(rest@)[k]
                    == input.subrange(i as int + 1, total as int)[k] by {
                    assert(operands_view(old_rest)[k + 1] == old_rest[k + 1]@);
                }
                assert(operands_view(rest@) =~= input.subrange(i as int + 1, total as int));
            }
            i = i + 1;
        }
        assert(input.subrange(0, total as int) =~= input);
    }

    /// Renames every local that a right-hand side mentions.
    pub fn remap_rvalue(&self, rvalue: &mut Rvalue, map: &HashMap<LocalId, LocalId>)
        ensures
            final(rvalue)@ == renamed_rvalue(old(rvalue)@, map@),
            forall|l: LocalId| #[trigger] rvalue_mentions(final(rvalue)@, l) ==> exists|l0: LocalId|
                rvalue_mentions(old(rvalue)@, l0) && renames_to(l0, l, map@),
    {
        let ghost before = rvalue@;
        match rvalue {
            Rvalue::Use(op) => self.remap_operand(op, map),
            Rvalue::BinaryOp { left, right, .. } => {
                self.remap_operand(left, map);
                self.remap_operand(right, map);
            },
            Rvalue::UnaryOp { operand, .. } => self.remap_operand(operand, map),
            Rvalue::Call { func, args } => {
                self.remap_operand(func, map);
                self.remap_operands(args, map);
            },
            Rvalue::Aggregate { operands, .. } => self.remap_operands(operands, map),
            Rvalue::Cast { operand, .. } => self.remap_operand(operand, map),
            Rvalue::Ref { place, .. } => self.remap_place(place, map),
            Rvalue::AddressOf(place) => self.remap_place(place, map),
            Rvalue::Len(place) => self.remap_place(place, map),
            Rvalue::Discriminant(place) => self.remap_place(place, map),
            Rvalue::Closure { captures, .. } => self.remap_operands(captures, map),
        }
        proof {
            assert forall|l: LocalId| #[trigger] rvalue_mentions(rvalue@, l) implies exists|l0: LocalId|
                rvalue_mentions(before, l0) && renames_to(l0, l, map@) by {
                lemma_renamed_rvalue_mentions(before, map@, l);
            }
        }
    }

    /// Renames every local that a statement mentions.
    pub fn remap_locals_in_statement(&self, stmt: &mut Statement, map: &HashMap<LocalId, LocalId>)
        ensures
            final(stmt)@ == renamed_statement(old(stmt)@, map@),
            forall|l: LocalId| #[trigger] statement_mentions(final(stmt)@, l) ==> exists|l0: LocalId|
                statement_mentions(old(stmt)@, l0) && renames_to(l0, l, map@),
    {
        let ghost before = stmt@;
        match stmt {
            Statement::Assign { place, rvalue, .. } => {
                self.remap_place(place, map);
                self.remap_rvalue(rvalue, map);
            },
            Statement::StorageLive(local) => {
                if let Some(new_local) = map.get(local) {
                    *local = *new_local;
                }
            },
            Statement::StorageDead(local) => {
                if let Some(new_local) = map.get(local) {
                    *local = *new_local;
                }
            },
            Statement::Nop => {},
        }
        proof {
            assert forall|l: LocalId| #[trigger] statement_mentions(stmt@, l) implies exists|l0: LocalId|
                statement_mentions(before, l0) && renames_to(l0, l, map@) by {
                lemma_renamed_statement_mentions(before, map@, l);
            }
        }
    }

    /// The largest local number of a table, 0 when it is empty.
    fn max_local_id(locals: &Vec<(LocalId, Local)>) -> (m: LocalId)
        ensures
            m == max_key(locals@),
    {
        let mut m: LocalId = 0;
        let mut i: usize = 0;
        while i < locals.len()
            invariant
                i <= locals@.len(),
                m == max_key(locals@.subrange(0, i as int)),
            decreases locals@.len() - i,
        {
            assert(locals@.subrange(0, i as int + 1).drop_last() =~= locals@.subrange(0, i as int));
            if locals[i].0 > m {
                m = locals[i].0;
            }
            i = i + 1;
        }
        assert(locals@.subrange(0, i as int) =~= locals@);
        m
    }

    /// Inlines a call of `callee` with arguments `args` into `destination`:
    /// the callee's locals are added to `locals` under fresh numbers above
    /// the largest there, and `target_statements` receives the assignments
    /// of the arguments to the parameters, the entry block's statements
    /// with the locals renamed, and the assignment of the result to the
    /// destination.
    pub fn inline_call(
        &self,
        locals: &mut Vec<(LocalId, Local)>,
        callee: &Function,
        args: &[Operand],
        destination: &Place,
        target_statements: &mut Vec<Statement>,
        source_info: SourceInfo,
    )
        requires
            max_key(old(locals)@) + callee.locals@.len() <= u32::MAX,
        ensures
            locals_view(final(locals)@) == locals_view(old(locals)@) + fresh_locals(callee.locals@, max_key(old(locals)@)),
            statements_view(final(target_statements)@) == statements_view(old(target_statements)@)
                + inlined_statements(*callee, operands_view(args@), destination@, source_info, max_key(old(locals)@)),
    {
        let ghost base = max_key(old(locals)@);
        let ghost callee_locals = callee.locals@;
        let mut local_map: HashMap<LocalId, LocalId> = HashMap::new();
        let mut max_local_id = Self::max_local_id(locals);

        // The callee's locals, under fresh numbers.
        let mut k: usize = 0;
        assert(callee_locals.subrange(0, 0) =~= Seq::<(LocalId, Local)>::empty());
        assert(locals_view(locals@) + fresh_locals(callee_locals.subrange(0, 0), base) =~= locals_view(locals@));
        while k < callee.locals.len()
            invariant
                base == max_key(old(locals)@),
                base + callee_locals.len() <= u32::MAX,
                callee_locals == callee.locals@,
                k <= callee_locals.len(),
                max_local_id == base + k,
                local_map@ == fresh_map(callee_locals.subrange(0, k as int), base),
                locals_view(locals@) == locals_view(old(locals)@) + fresh_locals(callee_locals.subrange(0, k as int), base),
            decreases callee_locals.len() - k,
        {
            let ghost before = locals@;
            max_local_id = max_local_id + 1;
            let new_local_id = max_local_id;
            locals.push((new_local_id, callee.locals[k].1.duplicate()));
            local_map.insert(callee.locals[k].0, new_local_id);
            proof {
                let next = callee_locals.subrange(0, k as int + 1);
                assert(next.drop_last() =~= callee_locals.subrange(0, k as int));
                assert(locals_view(locals@) =~= locals_view(before).push((locals@.last().0, locals@.last().1@)));
                assert(fresh_locals(next, base) =~= fresh_locals(callee_locals.subrange(0, k as int), base)
                    .push(((base + 1 + k) as LocalId, callee_locals[k as int].1@)));
                assert(locals_view(locals@) =~= locals_view(old(locals)@) + fresh_locals(next, base));
            }
            k = k + 1;
        }
        assert(callee_locals.subrange(0, k as int) =~= callee_locals);
        let ghost m = local_map@;
        let ghost args_view = operands_view(args@);

        // The arguments, assigned to the parameters' fresh locals.
        let ghost start = statements_view(old(target_statements)@);
        let mut i: usize = 0;
        assert(callee.parameters@.subrange(0, 0) =~= Seq::<Parameter>::empty());
        assert(start + parameter_assignments(callee.parameters@.subrange(0, 0), args_view, m, source_info) =~= start);
        while i < callee.parameters.len()
            invariant
                i <= callee.parameters@.len(),
                m == local_map@,
                args_view == operands_view(args@),
                statements_view(target_statements@) == start
                    + parameter_assignments(callee.parameters@.subrange(0, i as int), args_view, m, source_info),
            decreases callee.parameters@.len() - i,
        {
            let ghost before = target_statements@;
            let ghost next = callee.parameters@.subrange(0, i as int + 1);
            assert(next.drop_last() =~= callee.parameters@.subrange(0, i as int));
            if i < args.len() {
                if let Some(param_local) = local_map.get(&callee.parameters[i].local_id) {
                    target_statements.push(Statement::Assign {
                        place: Place { local: *param_local, projection: Vec::new() },
                        rvalue: Rvalue::Use(args[i].duplicate()),
                        source_info: source_info.duplicate(),
                    });
                    proof {
                        assert(target_statements@.last()@ == StatementView::Assign {
                            place: PlaceView { local: m[callee.parameters@[i as int].local_id], projection: seq![] },
                            rvalue: RvalueView::Use(args_view[i as int]),
                            source_info,
                        });
                        assert(statements_view(target_statements@) =~= statements_view(before).push(target_statements@.last()@));
                    }
                }
            }
            i = i + 1;
        }
        assert(callee.parameters@.subrange(0, i as int) =~= callee.parameters@);

        // The entry block's statements, with the locals renamed.
        let ghost after_params = statements_view(target_statements@);
        let ghost body = statements_view(entry_statements(*callee)).map_values(|s: StatementView| renamed_statement(s, m));
        match callee.block_index(callee.entry_block) {
            Some(b) => {
                proof {
                    lemma_first_index_none(callee.basic_blocks@.subrange(0, b as int), callee.entry_block);
                    assert(callee.basic_blocks@.subrange(0, b as int + 1).drop_last() =~= callee.basic_blocks@.subrange(0, b as int));
                    lemma_first_index_prefix(callee.basic_blocks@, b as int + 1, callee.entry_block);
                }
                let statements = &callee.basic_blocks[b].1.statements;
                let mut j: usize = 0;
                while j < statements.len()
                    invariant
                        *statements == callee.basic_blocks@[b as int].1.statements,
                        entry_statements(*callee) == statements@,
                        j <= statements@.len(),
                        m == local_map@,
                        body == statements_view(statements@).map_values(|s: StatementView| renamed_statement(s, m)),
                        statements_view(target_statements@) == after_params + body.subrange(0, j as int),
                    decreases statements@.len() - j,
                {
                    let ghost before = target_statements@;
                    let mut new_stmt = statements[j].duplicate();
                    self.remap_locals_in_statement(&mut new_stmt, &local_map);
                    target_statements.push(new_stmt);
                    proof {
                        assert(statements_view(target_statements@) =~= statements_view(before).push(target_statements@.last()@));
                        assert(body.subrange(0, j as int + 1) =~= body.subrange(0, j as int).push(body[j as int]));
                    }
                    j = j + 1;
                }
                assert(body.subrange(0, j as int) =~= body);
            },
            None => {
                proof {
                    lemma_first_index_none(callee.basic_blocks@, callee.entry_block);
                }
                assert(body =~= Seq::<StatementView>::empty());
                assert(after_params + body =~= after_params);
            },
        }

        // The result, assigned to the destination.
        let ghost after_body = statements_view(target_statements@);
        let ghost before = target_statements@;
        match callee.return_local {
            Some(return_local) => {
                if let Some(mapped) = local_map.get(&return_local) {
                    target_statements.push(Statement::Assign {
                        place: destination.duplicate(),
                        rvalue: Rvalue::Use(Operand::Copy(Place { local: *mapped, projection: Vec::new() })),
                        source_info,
                    });
                    assert(statements_view(target_statements@) =~= statements_view(before).push(target_statements@.last()@));
                } else {
                    assert(after_body + return_assignment(*callee, destination@, m, source_info) =~= after_body);
                }
            },
            None => {
                assert(after_body + return_assignment(*callee, destination@, m, source_info) =~= after_body);
            },
        }
    }

    /// The index of the function named `name` (the first), if any.
    fn function_index(fs: &Vec<(String, Function)>, name: &str) -> (r: Option<usize>)
        ensures
            match r {
                Some(j) => name_index(fs@, name@) == Some(j as int) && j < fs@.len(),
                None => name_index(fs@, name@) is None,
            },
    {
        let mut i: usize = 0;
        assert(fs@.subrange(0, 0) =~= Seq::<(String, Function)>::empty());
        while i < fs.len()
            invariant
                i <= fs@.len(),
                name_index(fs@.subrange(0, i as int), name@) is None,
            decreases fs@.len() - i,
        {
            assert(fs@.subrange(0, i as int + 1).drop_last() =~= fs@.subrange(0, i as int));
            if str_is(fs[i].0.as_str(), name) {
                proof {
                    lemma_name_index_prefix(fs@, i as int + 1, name@);
                }
                return Some(i);
            }
            i = i + 1;
        }
        assert(fs@.subrange(0, i as int) =~= fs@);
        None
    }

    /// The candidate that a statement calls, if it calls one.
    fn called_candidate_index(&self, fs: &Vec<(String, Function)>, candidates: &Vec<bool>, s: &Statement) -> (r: Option<usize>)
        requires
            candidates@.len() == fs@.len(),
            forall|j: int| 0 <= j < fs@.len() ==> #[trigger] candidates@[j] == inline_candidate(fs@[j].1, self.spec_threshold()),
        ensures
            match r {
                Some(j) => called_candidate(*s, fs@, self.spec_threshold()) == Some(j as int) && j < fs@.len(),
                None => called_candidate(*s, fs@, self.spec_threshold()) is None,
            },
    {
        match s {
            Statement::Assign { rvalue: Rvalue::Call { func: Operand::Constant(c), .. }, .. } => match &c.value {
                ConstantValue::String(name) => match Self::function_index(fs, name.as_str()) {
                    Some(j) => if candidates[j] { Some(j) } else { None },
                    None => None,
                },
                _ => None,
            },
            _ => None,
        }
    }

    /// Copies a table of locals.
    fn duplicate_locals(v: &Vec<(LocalId, Local)>) -> (r: Vec<(LocalId, Local)>)
        ensures
            locals_view(r@) == locals_view(v@),
    {
        let mut r: Vec<(LocalId, Local)> = Vec::new();
        let mut i: usize = 0;
        while i < v.len()
            invariant
                i <= v@.len(),
                r@.len() == i,
                forall|k: int| 0 <= k < i ==> (#[trigger] r@[k]).0 == v@[k].0 && r@[k].1@ == v@[k].1@,
            decreases v@.len() - i,
        {
            r.push((v[i].0, v[i].1.duplicate()));
            i = i + 1;
        }
        assert(locals_view(r@) =~= locals_view(v@));
        r
    }

    /// Inlines the candidate calls among a block's statements, adding the
    /// callees' locals to `locals`; says whether a call was inlined.
    fn expand_block_statements(
        &self,
        fs: &Vec<(String, Function)>,
        candidates: &Vec<bool>,
        stmts: &Vec<Statement>,
        locals: &mut Vec<(LocalId, Local)>,
    ) -> (r: (Vec<Statement>, bool))
        requires
            candidates@.len() == fs@.len(),
            forall|j: int| 0 <= j < fs@.len() ==> #[trigger] candidates@[j] == inline_candidate(fs@[j].1, self.spec_threshold()),
            expand_statements(stmts@, fs@, self.spec_threshold(), locals_view(old(locals)@)).3,
        ensures
            statements_view(r.0@) == expand_statements(stmts@, fs@, self.spec_threshold(), locals_view(old(locals)@)).0,
            locals_view(final(locals)@) == expand_statements(stmts@, fs@, self.spec_threshold(), locals_view(old(locals)@)).1,
            r.1 == expand_statements(stmts@, fs@, self.spec_threshold(), locals_view(old(locals)@)).2,
    {
        let ghost start = locals_view(old(locals)@);
        let ghost th = self.spec_threshold();
        let mut new_statements: Vec<Statement> = Vec::new();
        let mut changed = false;
        let mut i: usize = 0;
        assert(stmts@.subrange(0, 0) =~= Seq::<Statement>::empty());
        while i < stmts.len()
            invariant
                candidates@.len() == fs@.len(),
                forall|j: int| 0 <= j < fs@.len() ==> #[trigger] candidates@[j] == inline_candidate(fs@[j].1, th),
                th == self.spec_threshold(),
                i <= stmts@.len(),
                expand_statements(stmts@, fs@, th, start).3,
                statements_view(new_statements@) == expand_statements(stmts@.subrange(0, i as int), fs@, th, start).0,
                locals_view(locals@) == expand_statements(stmts@.subrange(0, i as int), fs@, th, start).1,
                changed == expand_statements(stmts@.subrange(0, i as int), fs@, th, start).2,
            decreases stmts@.len() - i,
        {
            let ghost prefix = stmts@.subrange(0, i as int + 1);
            assert(prefix.drop_last() =~= stmts@.subrange(0, i as int));
            assert(prefix.last() == stmts@[i as int]);
            proof {
                lemma_expand_statements_fits_prefix(stmts@, fs@, th, start, i as int + 1);
            }
            let ghost before = new_statements@;
            let s = &stmts[i];
            match self.called_candidate_index(fs, candidates, s) {
                Some(j) => {
                    match s {
                        Statement::Assign { place, rvalue: Rvalue::Call { args, .. }, source_info } => {
                            proof {
                                lemma_max_key_view(locals@);
                            }
                            self.inline_call(locals, &fs[j].1, args.as_slice(), place, &mut new_statements, source_info.duplicate());
                            changed = true;
                        },
                        _ => {
                            new_statements.push(s.duplicate());
                            assert(statements_view(new_statements@) =~= statements_view(before).push(new_statements@.last()@));
                        },
                    }
                },
                None => {
                    new_statements.push(s.duplicate());
                    assert(statements_view(new_statements@) =~= statements_view(before).push(new_statements@.last()@));
                },
            }
            i = i + 1;
        }
        assert(stmts@.subrange(0, i as int) =~= stmts@);
        (new_statements, changed)
    }

    /// Inlines the candidate calls of a function's blocks, in order: the
    /// function's locals with the callees' added, each block's new
    /// statements, and whether a call was inlined.
    fn expand_function_blocks(
        &self,
        fs: &Vec<(String, Function)>,
        candidates: &Vec<bool>,
        f: &Function,
    ) -> (r: (Vec<(LocalId, Local)>, Vec<Vec<Statement>>, bool))
        requires
            candidates@.len() == fs@.len(),
            forall|j: int| 0 <= j < fs@.len() ==> #[trigger] candidates@[j] == inline_candidate(fs@[j].1, self.spec_threshold()),
            expand_function(*f, fs@, self.spec_threshold()).3,
        ensures
            locals_view(r.0@) == expand_function(*f, fs@, self.spec_threshold()).1,
            r.1@.len() == f.basic_blocks@.len(),
            forall|k: int| 0 <= k < r.1@.len() ==> statements_view(#[trigger] r.1@[k]@)
                == expand_function(*f, fs@, self.spec_threshold()).0[k],
            r.2 == expand_function(*f, fs@, self.spec_threshold()).2,
    {
        let ghost th = self.spec_threshold();
        let ghost start = locals_view(f.locals@);
        let ghost blocks = f.basic_blocks@;
        let mut locals = Self::duplicate_locals(&f.locals);
        let mut new_blocks: Vec<Vec<Statement>> = Vec::new();
        let mut changed = false;
        let mut b: usize = 0;
        assert(blocks.subrange(0, 0) =~= Seq::<(BasicBlockId, BasicBlock)>::empty());
        while b < f.basic_blocks.len()
            invariant
                candidates@.len() == fs@.len(),
                forall|j: int| 0 <= j < fs@.len() ==> #[trigger] candidates@[j] == inline_candidate(fs@[j].1, th),
                th == self.spec_threshold(),
                blocks == f.basic_blocks@,
                start == locals_view(f.locals@),
                b <= blocks.len(),
                expand_blocks(blocks, fs@, th, start).3,
                new_blocks@.len() == b,
                expand_blocks(blocks.subrange(0, b as int), fs@, th, start).0.len() == b,
                forall|k: int| 0 <= k < b ==> statements_view(#[trigger] new_blocks@[k]@)
                    == expand_blocks(blocks.subrange(0, b as int), fs@, th, start).0[k],
                locals_view(locals@) == expand_blocks(blocks.subrange(0, b as int), fs@, th, start).1,
                changed == expand_blocks(blocks.subrange(0, b as int), fs@, th, start).2,
            decreases blocks.len() - b,
        {
            let ghost prefix = blocks.subrange(0, b as int + 1);
            assert(prefix.drop_last() =~= blocks.subrange(0, b as int));
            assert(prefix.last() == blocks[b as int]);
            proof {
                lemma_expand_blocks_fits_prefix(blocks, fs@, th, start, b as int + 1);
            }
            let (statements, block_changed) = self.expand_block_statements(fs, candidates, &f.basic_blocks[b].1.statements, &mut locals);
            new_blocks.push(statements);
            changed = changed || block_changed;
            b = b + 1;
        }
        assert(blocks.subrange(0, b as int) =~= blocks);
        (locals, new_blocks, changed)
    }

    /// Inlining needs the whole program, so on a single function the pass
    /// changes nothing.
    pub fn run_on_function(&mut self, function: &mut Function) -> (r: Result<bool, SemanticError>)
        ensures
            r == Ok::<bool, SemanticError>(false),
            *final(function) == *old(function),
            *final(self) == *old(self),
    {
        Ok(false)
    }

    /// Inlines, in every function, each call of a candidate (a function
    /// with one block that costs at most the threshold), using the
    /// functions as they were before the pass; the result says whether a
    /// call was inlined. This pass never fails.
    pub fn run_on_program(&mut self, program: &mut Program) -> (r: Result<bool, SemanticError>)
        requires
            names_distinct(old(program).functions@),
            forall|i: int| 0 <= i < old(program).functions@.len()
                ==> blocks_cost((#[trigger] old(program).functions@[i]).1.basic_blocks@) <= usize::MAX,
            forall|i: int| 0 <= i < old(program).functions@.len()
                ==> (#[trigger] expand_function(old(program).functions@[i].1, old(program).functions@, old(self).spec_threshold())).3,
        ensures
            *final(self) == *old(self),
            r == Ok::<bool, SemanticError>(program_changes(old(program).functions@, old(self).spec_threshold())),
            final(program).functions@.len() == old(program).functions@.len(),
            forall|i: int| 0 <= i < final(program).functions@.len() ==> {
                let before = old(program).functions@[i];
                let after = (#[trigger] final(program).functions@[i]);
                let expanded = expand_function(before.1, old(program).functions@, old(self).spec_threshold());
                &&& after.0 == before.0
                &&& after.1.name == before.1.name
                &&& after.1.parameters == before.1.parameters
                &&& after.1.return_type == before.1.return_type
                &&& after.1.entry_block == before.1.entry_block
                &&& after.1.return_local == before.1.return_local
                &&& locals_view(after.1.locals@) == expanded.1
                &&& after.1.basic_blocks@.len() == before.1.basic_blocks@.len()
                &&& forall|k: int| 0 <= k < after.1.basic_blocks@.len() ==> {
                    &&& (#[trigger] after.1.basic_blocks@[k]).0 == before.1.basic_blocks@[k].0
                    &&& after.1.basic_blocks@[k].1.terminator == before.1.basic_blocks@[k].1.terminator
                    &&& statements_view(after.1.basic_blocks@[k].1.statements@) == expanded.0[k]
                }
            },
    {
        let ghost th = self.spec_threshold();
        let ghost fs0 = program.functions@;
        let n = program.functions.len();

        // The candidates, from the functions as they are.
        let mut candidates: Vec<bool> = Vec::new();
        let mut i: usize = 0;
        while i < n
            invariant
                n == fs0.len(),
                fs0 == program.functions@,
                th == self.spec_threshold(),
                i <= n,
                candidates@.len() == i,
                forall|j: int| 0 <= j < fs0.len() ==> blocks_cost((#[trigger] fs0[j]).1.basic_blocks@) <= usize::MAX,
                forall|j: int| 0 <= j < i ==> #[trigger] candidates@[j] == inline_candidate(fs0[j].1, th),
            decreases n - i,
        {
            let c = self.should_inline(&program.functions[i].1);
            candidates.push(c);
            i = i + 1;
        }

        // What each function becomes, computed from the functions as they are.
        let mut results: Vec<(Vec<(LocalId, Local)>, Vec<Vec<Statement>>)> = Vec::new();
        let mut changed = false;
        let mut i: usize = 0;
        while i < n
            invariant
                n == fs0.len(),
                fs0 == program.functions@,
                th == self.spec_threshold(),
                i <= n,
                candidates@.len() == fs0.len(),
                forall|j: int| 0 <= j < fs0.len() ==> #[trigger] candidates@[j] == inline_candidate(fs0[j].1, th),
                forall|j: int| 0 <= j < fs0.len() ==> (#[trigger] expand_function(fs0[j].1, fs0, th)).3,
                results@.len() == i,
                forall|j: int| 0 <= j < i ==> {
                    &&& locals_view((#[trigger] results@[j]).0@) == expand_function(fs0[j].1, fs0, th).1
                    &&& results@[j].1@.len() == fs0[j].1.basic_blocks@.len()
                    &&& forall|k: int| 0 <= k < results@[j].1@.len() ==> statements_view(#[trigger] results@[j].1@[k]@)
                        == expand_function(fs0[j].1, fs0, th).0[k]
                },
                changed == exists|j: int| 0 <= j < i && (#[trigger] expand_function(fs0[j].1, fs0, th)).2,
            decreases n - i,
        {
            let (locals, blocks, function_changed) = self.expand_function_blocks(&program.functions, &candidates, &program.functions[i].1);
            results.push((locals, blocks));
            proof {
                if !changed && function_changed {
                    assert(expand_function(fs0[i as int].1, fs0, th).2);
                }
                if changed {
                    let w = choose|j: int| 0 <= j < i && (#[trigger] expand_function(fs0[j].1, fs0, th)).2;
                    assert(0 <= w < i + 1 && expand_function(fs0[w].1, fs0, th).2);
                }
            }
            changed = changed || function_changed;
            i = i + 1;
        }

        // The functions, rewritten.
        let mut rest: Vec<(String, Function)> = Vec::new();
        std::mem::swap(&mut program.functions, &mut rest);
        let mut i: usize = 0;
        while i < n
            invariant
                n == fs0.len(),
                th == self.spec_threshold(),
                i <= n,
                rest@ == fs0.subrange(i as int, n as int),
                results@.len() == n - i,
                forall|j: int| 0 <= j < n - i ==> {
                    &&& locals_view((#[trigger] results@[j]).0@) == expand_function(fs0[j + i].1, fs0, th).1
                    &&& results@[j].1@.len() == fs0[j + i].1.basic_blocks@.len()
                    &&& forall|k: int| 0 <= k < results@[j].1@.len() ==> statements_view(#[trigger] results@[j].1@[k]@)
                        == expand_function(fs0[j + i].1, fs0, th).0[k]
                },
                program.functions@.len() == i,
                forall|j: int| 0 <= j < i ==> {
                    let before = fs0[j];
                    let after = (#[trigger] program.functions@[j]);
                    let expanded = expand_function(before.1, fs0, th);
                    &&& after.0 == before.0
                    &&& after.1.name == before.1.name
                    &&& after.1.parameters == before.1.parameters
                    &&& after.1.return_type == before.1.return_type
                    &&& after.1.entry_block == before.1.entry_block
                    &&& after.1.return_local == before.1.return_local
                    &&& locals_view(after.1.locals@) == expanded.1
                    &&& after.1.basic_blocks@.len() == before.1.basic_blocks@.len()
                    &&& forall|k: int| 0 <= k < after.1.basic_blocks@.len() ==> {
                        &&& (#[trigger] after.1.basic_blocks@[k]).0 == before.1.basic_blocks@[k].0
                        &&& after.1.basic_blocks@[k].1.terminator == before.1.basic_blocks@[k].1.terminator
                        &&& statements_view(after.1.basic_blocks@[k].1.statements@) == expanded.0[k]
                    }
                },
            decreases n - i,
        {
            let ghost old_results = results@;
            let ghost old_rest = rest@;
            let (name, mut function) = rest.remove(0);
            let (new_locals, mut new_blocks) = results.remove(0);
            let ghost expected = expand_function(fs0[i as int].1, fs0, th);
            assert(old_rest[0] == fs0[i as int]);
            function.locals = new_locals;
            let mut block_rest: Vec<(BasicBlockId, BasicBlock)> = Vec::new();
            std::mem::swap(&mut function.basic_blocks, &mut block_rest);
            let ghost blocks0 = block_rest@;
            let nb = block_rest.len();
            let mut b: usize = 0;
            while b < nb
                invariant
                    nb == blocks0.len(),
                    blocks0 == fs0[i as int].1.basic_blocks@,
                    b <= nb,
                    block_rest@ == blocks0.subrange(b as int, nb as int),
                    new_blocks@.len() == nb - b,
                    forall|k: int| 0 <= k < nb - b ==> statements_view(#[trigger] new_blocks@[k]@) == expected.0[k + b],
                    function.basic_blocks@.len() == b,
                    forall|k: int| 0 <= k < b ==> {
                        &&& (#[trigger] function.basic_blocks@[k]).0 == blocks0[k].0
                        &&& function.basic_blocks@[k].1.terminator == blocks0[k].1.terminator
                        &&& statements_view(function.basic_blocks@[k].1.statements@) == expected.0[k]
                    },
                    function.name == fs0[i as int].1.name,
                    function.parameters == fs0[i as int].1.parameters,
                    function.return_type == fs0[i as int].1.return_type,
                    function.entry_block == fs0[i as int].1.entry_block,
                    function.return_local == fs0[i as int].1.return_local,
                    locals_view(function.locals@) == expected.1,
                decreases nb - b,
            {
                let ghost old_new_blocks = new_blocks@;
                let ghost old_block_rest = block_rest@;
                let (id, block) = block_rest.remove(0);
                let statements = new_blocks.remove(0);
                assert(old_block_rest[0] == blocks0[b as int]);
                assert(statements@ == old_new_blocks[0]@);
                function.basic_blocks.push((id, BasicBlock { statements, terminator: block.terminator }));
                assert(block_rest@ =~= blocks0.subrange(b as int + 1, nb as int));
                assert forall|k: int| 0 <= k < nb - (b + 1) implies statements_view(#[trigger] new_blocks@[k]@)
                    == expected.0[k + b + 1] by {
                    assert(new_blocks@[k] == old_new_blocks[k + 1]);
                }
                b = b + 1;
            }
            program.functions.push((name, function));
            assert(rest@ =~= fs0.subrange(i as int + 1, n as int));
            assert forall|j: int| 0 <= j < n - (i + 1) implies {
                &&& locals_view((#[trigger] results@[j]).0@) == expand_function(fs0[j + i + 1].1, fs0, th).1
                &&& results@[j].1@.len() == fs0[j + i + 1].1.basic_blocks@.len()
                &&& forall|k: int| 0 <= k < results@[j].1@.len() ==> statements_view(#[trigger] results@[j].1@[k]@)
                    == expand_function(fs0[j + i + 1].1, fs0, th).0[k]
            } by {
                assert(results@[j] == old_results[j + 1]);
            }
            i = i + 1;
        }
        assert(fs0.subrange(0, n as int) =~= fs0);
        Ok(changed)
    }
}

/// Inlining keeps a caller's table of locals well formed: when the
/// caller's locals have distinct numbers, so do they with the callee's
/// locals added under fresh numbers above the largest.
pub proof fn lemma_fresh_locals_distinct(locals: Seq<(LocalId, LocalView)>, callee_locals: Seq<(LocalId, Local)>)
    requires
        keys_distinct(locals),
        max_key(locals) + callee_locals.len() <= u32::MAX,
    ensures
        keys_distinct(locals + fresh_locals(callee_locals, max_key(locals))),
{
    let base = max_key(locals);
    let all = locals + fresh_locals(callee_locals, base);
    lemma_max_key_bound(locals);
    assert forall|i: int, j: int| 0 <= i < j < all.len() implies (#[trigger] all[i]).0 != (#[trigger] all[j]).0 by {
        if j < locals.len() {
            assert(all[i] == locals[i]);
            assert(all[j] == locals[j]);
        } else if i < locals.len() {
            assert(all[i] == locals[i]);
            assert(all[j].0 == (base + 1 + (j - locals.len())) as LocalId);
        } else {
            assert(all[i].0 == (base + 1 + (i - locals.len())) as LocalId);
            assert(all[j].0 == (base + 1 + (j - locals.len())) as LocalId);
        }
    }
}

/// A block without a call of a candidate is left as it is: its statements
/// and the caller's locals are unchanged, and nothing is inlined.
pub proof fn lemma_no_candidate_call_unchanged(
    stmts: Seq<Statement>,
    fs: Seq<(String, Function)>,
    threshold: usize,
    locals: Seq<(LocalId, LocalView)>,
)
    requires
        forall|i: int| 0 <= i < stmts.len() ==> called_candidate(#[trigger] stmts[i], fs, threshold) is None,
    ensures
        expand_statements(stmts, fs, threshold, locals) == (statements_view(stmts), locals, false, true),
    decreases stmts.len(),
{
    if stmts.len() > 0 {
        assert forall|i: int| 0 <= i < stmts.drop_last().len() implies called_candidate(#[trigger] stmts.drop_last()[i], fs, threshold) is None by {
            assert(stmts.drop_last()[i] == stmts[i]);
        }
        lemma_no_candidate_call_unchanged(stmts.drop_last(), fs, threshold, locals);
        assert(called_candidate(stmts[stmts.len() - 1], fs, threshold) is None);
        assert(statements_view(stmts) =~= statements_view(stmts.drop_last()).push(stmts.last()@));
    }
}

/// The keys of a table of locals are those of its view.
pub proof fn lemma_max_key_view(s: Seq<(LocalId, Local)>)
    ensures
        max_key(locals_view(s)) == max_key(s),
    decreases s.len(),
{
    if s.len() > 0 {
        assert(locals_view(s).drop_last() =~= locals_view(s.drop_last()));
        lemma_max_key_view(s.drop_last());
    }
}

/// A name found in a prefix is found at the same index in the whole.
pub proof fn lemma_name_index_prefix(fs: Seq<(String, Function)>, n: int, name: Seq<char>)
    requires
        0 <= n <= fs.len(),
        name_index(fs.subrange(0, n), name) is Some,
    ensures
        name_index(fs, name) == name_index(fs.subrange(0, n), name),
        name_index(fs, name)->Some_0 < n,
    decreases fs.len() - n,
{
    lemma_name_index_bound(fs.subrange(0, n), name);
    if n < fs.len() {
        assert(fs.subrange(0, n + 1).drop_last() =~= fs.subrange(0, n));
        lemma_name_index_prefix(fs, n + 1, name);
    } else {
        assert(fs.subrange(0, n) =~= fs);
    }
}

/// `name_index` gives an index of the sequence.
pub proof fn lemma_name_index_bound(fs: Seq<(String, Function)>, name: Seq<char>)
    ensures
        name_index(fs, name) matches Some(j) ==> 0 <= j < fs.len(),
    decreases fs.len(),
{
    if fs.len() > 0 {
        lemma_name_index_bound(fs.drop_last(), name);
    }
}

/// If the fresh numbers of a whole block fit, so do those of a prefix.
pub proof fn lemma_expand_statements_fits_prefix(
    stmts: Seq<Statement>,
    fs: Seq<(String, Function)>,
    th: usize,
    locals: Seq<(LocalId, LocalView)>,
    n: int,
)
    requires
        0 <= n <= stmts.len(),
        expand_statements(stmts, fs, th, locals).3,
    ensures
        expand_statements(stmts.subrange(0, n), fs, th, locals).3,
    decreases stmts.len() - n,
{
    if n < stmts.len() {
        lemma_expand_statements_fits_prefix(stmts, fs, th, locals, n + 1);
        assert(stmts.subrange(0, n + 1).drop_last() =~= stmts.subrange(0, n));
    } else {
        assert(stmts.subrange(0, n) =~= stmts);
    }
}

/// If the fresh numbers of all blocks fit, so do those of a prefix.
pub proof fn lemma_expand_blocks_fits_prefix(
    blocks: Seq<(BasicBlockId, BasicBlock)>,
    fs: Seq<(String, Function)>,
    th: usize,
    locals: Seq<(LocalId, LocalView)>,
    n: int,
)
    requires
        0 <= n <= blocks.len(),
        expand_blocks(blocks, fs, th, locals).3,
    ensures
        expand_blocks(blocks.subrange(0, n), fs, th, locals).3,
    decreases blocks.len() - n,
{
    if n < blocks.len() {
        lemma_expand_blocks_fits_prefix(blocks, fs, th, locals, n + 1);
        assert(blocks.subrange(0, n + 1).drop_last() =~= blocks.subrange(0, n));
    } else {
        assert(blocks.subrange(0, n) =~= blocks);
    }
}

/// A statement of a block calls a candidate.
pub open spec fn some_candidate_call(stmts: Seq<Statement>, fs: Seq<(String, Function)>, threshold: usize) -> bool {
    exists|m: int| 0 <= m < stmts.len() && (#[trigger] called_candidate(stmts[m], fs, threshold)) is Some
}

/// Inlining through statements inlines a call exactly when one of them
/// calls a candidate, and it only adds locals after the caller's own.
pub proof fn lemma_expand_statements_changes(
    stmts: Seq<Statement>,
    fs: Seq<(String, Function)>,
    threshold: usize,
    locals: Seq<(LocalId, LocalView)>,
)
    ensures
        expand_statements(stmts, fs, threshold, locals).2 <==> some_candidate_call(stmts, fs, threshold),
        locals.len() <= expand_statements(stmts, fs, threshold, locals).1.len(),
        expand_statements(stmts, fs, threshold, locals).1.subrange(0, locals.len() as int) == locals,
    decreases stmts.len(),
{
    if stmts.len() > 0 {
        let init = stmts.drop_last();
        lemma_expand_statements_changes(init, fs, threshold, locals);
        let ls = expand_statements(init, fs, threshold, locals).1;
        if some_candidate_call(init, fs, threshold) {
            let m = choose|m: int| 0 <= m < init.len() && (#[trigger] called_candidate(init[m], fs, threshold)) is Some;
            assert(stmts[m] == init[m]);
        }
        if some_candidate_call(stmts, fs, threshold) {
            let m = choose|m: int| 0 <= m < stmts.len() && (#[trigger] called_candidate(stmts[m], fs, threshold)) is Some;
            if m < init.len() {
                assert(init[m] == stmts[m]);
            }
        }
        match called_candidate(stmts.last(), fs, threshold) {
            Some(j) => {
                assert(called_candidate(stmts[stmts.len() - 1], fs, threshold) is Some);
                let callee = fs[j].1;
                let base = max_key(ls);
                let ls2 = ls + fresh_locals(callee.locals@, base);
                assert(ls2.subrange(0, locals.len() as int) =~= ls.subrange(0, locals.len() as int));
            },
            None => {},
        }
    } else {
        assert(locals.subrange(0, locals.len() as int) =~= locals);
    }
}

/// A block of a function calls a candidate.
pub open spec fn blocks_candidate_call(blocks: Seq<(BasicBlockId, BasicBlock)>, fs: Seq<(String, Function)>, threshold: usize) -> bool {
    exists|k: int| 0 <= k < blocks.len() && some_candidate_call((#[trigger] blocks[k]).1.statements@, fs, threshold)
}

/// Inlining through blocks inlines a call exactly when a statement of one
/// of them calls a candidate, and it only adds locals after the caller's
/// own.
pub proof fn lemma_expand_blocks_changes(
    blocks: Seq<(BasicBlockId, BasicBlock)>,
    fs: Seq<(String, Function)>,
    threshold: usize,
    locals: Seq<(LocalId, LocalView)>,
)
    ensures
        expand_blocks(blocks, fs, threshold, locals).2 <==> blocks_candidate_call(blocks, fs, threshold),
        locals.len() <= expand_blocks(blocks, fs, threshold, locals).1.len(),
        expand_blocks(blocks, fs, threshold, locals).1.subrange(0, locals.len() as int) == locals,
    decreases blocks.len(),
{
    if blocks.len() > 0 {
        let init = blocks.drop_last();
        lemma_expand_blocks_changes(init, fs, threshold, locals);
        let ls = expand_blocks(init, fs, threshold, locals).1;
        lemma_expand_statements_changes(blocks.last().1.statements@, fs, threshold, ls);
        let ls2 = expand_statements(blocks.last().1.statements@, fs, threshold, ls).1;
        assert(ls2.subrange(0, locals.len() as int) =~= ls2.subrange(0, ls.len() as int).subrange(0, locals.len() as int));
        if blocks_candidate_call(init, fs, threshold) {
            let k = choose|k: int| 0 <= k < init.len() && some_candidate_call((#[trigger] init[k]).1.statements@, fs, threshold);
            assert(blocks[k] == init[k]);
        }
        if blocks_candidate_call(blocks, fs, threshold) {
            let k = choose|k: int| 0 <= k < blocks.len() && some_candidate_call((#[trigger] blocks[k]).1.statements@, fs, threshold);
            if k < init.len() {
                assert(init[k] == blocks[k]);
            }
        }
        if some_candidate_call(blocks.last().1.statements@, fs, threshold) {
            assert(blocks[blocks.len() - 1] == blocks.last());
        }
    } else {
        assert(locals.subrange(0, locals.len() as int) =~= locals);
    }
}

/// Inlining over a program: a run inlines some call exactly when some
/// statement of some function of the program assigns a call of a
/// candidate (a function of the program named by a string constant that
/// is small enough, has one block and does not call itself), and every
/// function keeps its own locals, gaining only new ones after them.
pub proof fn lemma_program_changes_iff_candidate_call(fs: Seq<(String, Function)>, threshold: usize)
    ensures
        program_changes(fs, threshold) <==> exists|i: int|
            0 <= i < fs.len() && blocks_candidate_call((#[trigger] fs[i]).1.basic_blocks@, fs, threshold),
        forall|i: int| 0 <= i < fs.len() ==> {
            let e = (#[trigger] expand_function(fs[i].1, fs, threshold)).1;
            &&& locals_view(fs[i].1.locals@).len() <= e.len()
            &&& e.subrange(0, locals_view(fs[i].1.locals@).len() as int) == locals_view(fs[i].1.locals@)
        },
{
    assert forall|i: int| 0 <= i < fs.len() implies
        (#[trigger] expand_function(fs[i].1, fs, threshold)).2 == blocks_candidate_call(fs[i].1.basic_blocks@, fs, threshold)
        && locals_view(fs[i].1.locals@).len() <= expand_function(fs[i].1, fs, threshold).1.len()
        && expand_function(fs[i].1, fs, threshold).1.subrange(0, locals_view(fs[i].1.locals@).len() as int)
            == locals_view(fs[i].1.locals@) by {
        lemma_expand_blocks_changes(fs[i].1.basic_blocks@, fs, threshold, locals_view(fs[i].1.locals@));
    }
    if program_changes(fs, threshold) {
        let i = choose|i: int| 0 <= i < fs.len() && (#[trigger] expand_function(fs[i].1, fs, threshold)).2;
        assert(blocks_candidate_call(fs[i].1.basic_blocks@, fs, threshold));
    }
    if exists|i: int| 0 <= i < fs.len() && blocks_candidate_call((#[trigger] fs[i]).1.basic_blocks@, fs, threshold) {
        let i = choose|i: int| 0 <= i < fs.len() && blocks_candidate_call((#[trigger] fs[i]).1.basic_blocks@, fs, threshold);
        assert(expand_function(fs[i].1, fs, threshold).2);
    }
}

/// Renaming a place: each local the renamed place mentions is the image of
/// one the place mentioned.
pub proof fn lemma_renamed_place_mentions(p: PlaceView, m: Map<LocalId, LocalId>, l: LocalId)
    requires
        place_mentions(renamed_place(p, m), l),
    ensures
        exists|l0: LocalId| place_mentions(p, l0) && renames_to(l0, l, m),
{
    let rp = renamed_place(p, m);
    if rp.local == l {
        assert(place_mentions(p, p.local) && renames_to(p.local, l, m));
    } else {
        let i = choose|i: int| 0 <= i < rp.projection.len() && #[trigger] rp.projection[i] == PlaceElem::Index(l);
        assert(rp.projection[i] == renamed_elem(p.projection[i], m));
        match p.projection[i] {
            PlaceElem::Index(x) => {
                assert(place_mentions(p, x) && renames_to(x, l, m));
            },
            _ => {},
        }
    }
}

/// Renaming an operand: each local the renamed operand mentions is the
/// image of one the operand mentioned.
pub proof fn lemma_renamed_operand_mentions(o: OperandView, m: Map<LocalId, LocalId>, l: LocalId)
    requires
        operand_mentions(renamed_operand(o, m), l),
    ensures
        exists|l0: LocalId| operand_mentions(o, l0) && renames_to(l0, l, m),
{
    match o {
        OperandView::Copy(p) => {
            lemma_renamed_place_mentions(p, m, l);
            let l0 = choose|l0: LocalId| place_mentions(p, l0) && renames_to(l0, l, m);
            assert(operand_mentions(o, l0));
        },
        OperandView::Move(p) => {
            lemma_renamed_place_mentions(p, m, l);
            let l0 = choose|l0: LocalId| place_mentions(p, l0) && renames_to(l0, l, m);
            assert(operand_mentions(o, l0));
        },
        OperandView::Constant(_) => {},
    }
}

/// Renaming operands: each local the renamed operands mention is the image
/// of one the operands mentioned.
pub proof fn lemma_renamed_operands_mention(os: Seq<OperandView>, m: Map<LocalId, LocalId>, l: LocalId)
    requires
        operands_mention(renamed_operands(os, m), l),
    ensures
        exists|l0: LocalId| operands_mention(os, l0) && renames_to(l0, l, m),
{
    let rs = renamed_operands(os, m);
    let i = choose|i: int| 0 <= i < rs.len() && operand_mentions(#[trigger] rs[i], l);
    assert(rs[i] == renamed_operand(os[i], m));
    lemma_renamed_operand_mentions(os[i], m, l);
    let l0 = choose|l0: LocalId| operand_mentions(os[i], l0) && renames_to(l0, l, m);
    assert(operands_mention(os, l0));
}

/// Renaming a right-hand side, of every kind: each local the renamed
/// right-hand side mentions is the image of one it mentioned.
pub proof fn lemma_renamed_rvalue_mentions(r: RvalueView, m: Map<LocalId, LocalId>, l: LocalId)
    requires
        rvalue_mentions(renamed_rvalue(r, m), l),
    ensures
        exists|l0: LocalId| rvalue_mentions(r, l0) && renames_to(l0, l, m),
{
    match r {
        RvalueView::Use(o) => {
            lemma_renamed_operand_mentions(o, m, l);
            let l0 = choose|l0: LocalId| operand_mentions(o, l0) && renames_to(l0, l, m);
            assert(rvalue_mentions(r, l0));
        },
        RvalueView::BinaryOp { left, right, .. } => {
            if operand_mentions(renamed_operand(left, m), l) {
                lemma_renamed_operand_mentions(left, m, l);
                let l0 = choose|l0: LocalId| operand_mentions(left, l0) && renames_to(l0, l, m);
                assert(rvalue_mentions(r, l0));
            } else {
                lemma_renamed_operand_mentions(right, m, l);
                let l0 = choose|l0: LocalId| operand_mentions(right, l0) && renames_to(l0, l, m);
                assert(rvalue_mentions(r, l0));
            }
        },
        RvalueView::UnaryOp { operand, .. } => {
            lemma_renamed_operand_mentions(operand, m, l);
            let l0 = choose|l0: LocalId| operand_mentions(operand, l0) && renames_to(l0, l, m);
            assert(rvalue_mentions(r, l0));
        },
        RvalueView::Call { func, args } => {
            if operand_mentions(renamed_operand(func, m), l) {
                lemma_renamed_operand_mentions(func, m, l);
                let l0 = choose|l0: LocalId| operand_mentions(func, l0) && renames_to(l0, l, m);
                assert(rvalue_mentions(r, l0));
            } else {
                lemma_renamed_operands_mention(args, m, l);
                let l0 = choose|l0: LocalId| operands_mention(args, l0) && renames_to(l0, l, m);
                assert(rvalue_mentions(r, l0));
            }
        },
        RvalueView::Aggregate { operands, .. } => {
            lemma_renamed_operands_mention(operands, m, l);
            let l0 = choose|l0: LocalId| operands_mention(operands, l0) && renames_to(l0, l, m);
            assert(rvalue_mentions(r, l0));
        },
        RvalueView::Cast { operand, .. } => {
            lemma_renamed_operand_mentions(operand, m, l);
            let l0 = choose|l0: LocalId| operand_mentions(operand, l0) && renames_to(l0, l, m);
            assert(rvalue_mentions(r, l0));
        },
        RvalueView::Ref { place, .. } => {
            lemma_renamed_place_mentions(place, m, l);
            let l0 = choose|l0: LocalId| place_mentions(place, l0) && renames_to(l0, l, m);
            assert(rvalue_mentions(r, l0));
        },
        RvalueView::AddressOf(p) => {
            lemma_renamed_place_mentions(p, m, l);
            let l0 = choose|l0: LocalId| place_mentions(p, l0) && renames_to(l0, l, m);
            assert(rvalue_mentions(r, l0));
        },
        RvalueView::Len(p) => {
            lemma_renamed_place_mentions(p, m, l);
            let l0 = choose|l0: LocalId| place_mentions(p, l0) && renames_to(l0, l, m);
            assert(rvalue_mentions(r, l0));
        },
        RvalueView::Discriminant(p) => {
            lemma_renamed_place_mentions(p, m, l);
            let l0 = choose|l0: LocalId| place_mentions(p, l0) && renames_to(l0, l, m);
            assert(rvalue_mentions(r, l0));
        },
        RvalueView::Closure { captures, .. } => {
            lemma_renamed_operands_mention(captures, m, l);
            let l0 = choose|l0: LocalId| operands_mention(captures, l0) && renames_to(l0, l, m);
            assert(rvalue_mentions(r, l0));
        },
    }
}

/// Renaming a statement: each local the renamed statement mentions is the
/// image of one it mentioned.
pub proof fn lemma_renamed_statement_mentions(s: StatementView, m: Map<LocalId, LocalId>, l: LocalId)
    requires
        statement_mentions(renamed_statement(s, m), l),
    ensures
        exists|l0: LocalId| statement_mentions(s, l0) && renames_to(l0, l, m),
{
    match s {
        StatementView::Assign { place, rvalue, .. } => {
            if place_mentions(renamed_place(place, m), l) {
                lemma_renamed_place_mentions(place, m, l);
                let l0 = choose|l0: LocalId| place_mentions(place, l0) && renames_to(l0, l, m);
                assert(statement_mentions(s, l0));
            } else {
                lemma_renamed_rvalue_mentions(rvalue, m, l);
                let l0 = choose|l0: LocalId| rvalue_mentions(rvalue, l0) && renames_to(l0, l, m);
                assert(statement_mentions(s, l0));
            }
        },
        StatementView::StorageLive(x) => {
            assert(statement_mentions(s, x) && renames_to(x, l, m));
        },
        StatementView::StorageDead(x) => {
            assert(statement_mentions(s, x) && renames_to(x, l, m));
        },
        StatementView::Nop => {},
    }
}

/// The fresh renaming of a callee's locals: it renames exactly the
/// callee's locals, each to a number above `base` and at most `base` plus
/// their count; where the keys are distinct, the local at table position
/// `k` becomes `base + 1 + k`.
pub proof fn lemma_fresh_map<V>(locals: Seq<(LocalId, V)>, base: int)
    requires
        0 <= base,
        base + locals.len() <= u32::MAX,
    ensures
        forall|l0: LocalId| #[trigger] fresh_map(locals, base).contains_key(l0)
            <==> exists|k: int| 0 <= k < locals.len() && locals[k].0 == l0,
        forall|l0: LocalId| #[trigger] fresh_map(locals, base).contains_key(l0)
            ==> base < fresh_map(locals, base)[l0] <= base + locals.len(),
        keys_distinct(locals) ==> forall|k: int| 0 <= k < locals.len()
            ==> fresh_map(locals, base)[#[trigger] locals[k].0] == base + 1 + k,
    decreases locals.len(),
{
    if locals.len() > 0 {
        let init = locals.drop_last();
        lemma_fresh_map(init, base);
        assert forall|l0: LocalId| #[trigger] fresh_map(locals, base).contains_key(l0)
            <==> exists|k: int| 0 <= k < locals.len() && locals[k].0 == l0 by {
            if fresh_map(locals, base).contains_key(l0) && l0 != locals.last().0 {
                assert(fresh_map(init, base).contains_key(l0));
                let k = choose|k: int| 0 <= k < init.len() && init[k].0 == l0;
                assert(locals[k] == init[k]);
            }
            if exists|k: int| 0 <= k < locals.len() && locals[k].0 == l0 {
                let k = choose|k: int| 0 <= k < locals.len() && locals[k].0 == l0;
                if k < init.len() {
                    assert(init[k] == locals[k]);
                    assert(fresh_map(init, base).contains_key(l0));
                } else {
                    assert(locals[k] == locals.last());
                }
            }
        }
        assert forall|l0: LocalId| #[trigger] fresh_map(locals, base).contains_key(l0)
            implies base < fresh_map(locals, base)[l0] <= base + locals.len() by {
            if l0 != locals.last().0 {
                assert(fresh_map(init, base).contains_key(l0));
            }
        }
        if keys_distinct(locals) {
            assert(keys_distinct(init)) by {
                assert forall|i: int, j: int| 0 <= i < j < init.len() implies (#[trigger] init[i]).0 != (#[trigger] init[j]).0 by {
                    assert(init[i] == locals[i] && init[j] == locals[j]);
                }
            }
            assert forall|k: int| 0 <= k < locals.len() implies fresh_map(locals, base)[#[trigger] locals[k].0] == base + 1 + k by {
                if k < init.len() {
                    assert(init[k] == locals[k]);
                    assert(locals[k].0 != locals[locals.len() - 1].0);
                    assert(fresh_map(init, base)[init[k].0] == base + 1 + k);
                } else {
                    assert(locals[k] == locals.last());
                }
            }
        }
    }
}

/// The argument assignments, where every parameter is renamed: one per
/// parameter that has an argument, the `i`-th assigning the `i`-th
/// argument to the `i`-th parameter's renamed local.
pub proof fn lemma_parameter_assignments(
    params: Seq<Parameter>,
    args: Seq<OperandView>,
    m: Map<LocalId, LocalId>,
    source_info: SourceInfo,
)
    requires
        forall|i: int| 0 <= i < params.len() ==> m.contains_key(#[trigger] params[i].local_id),
    ensures
        parameter_assignments(params, args, m, source_info).len() == (if params.len() < args.len() { params.len() } else { args.len() }),
        forall|i: int| 0 <= i < parameter_assignments(params, args, m, source_info).len()
            ==> #[trigger] parameter_assignments(params, args, m, source_info)[i] == (StatementView::Assign {
                place: PlaceView { local: m[params[i].local_id], projection: seq![] },
                rvalue: RvalueView::Use(args[i]),
                source_info,
            }),
    decreases params.len(),
{
    if params.len() > 0 {
        let init = params.drop_last();
        assert forall|i: int| 0 <= i < init.len() implies m.contains_key(#[trigger] init[i].local_id) by {
            assert(init[i] == params[i]);
        }
        lemma_parameter_assignments(init, args, m, source_info);
        let before = parameter_assignments(init, args, m, source_info);
        assert forall|i: int| 0 <= i < before.len() implies params[i] == #[trigger] init[i] by {}
        assert(m.contains_key(params[params.len() - 1].local_id));
    }
}

/// Inlining passes each argument to the parameter at its position: where
/// the callee's parameters are among its locals (with distinct keys), the
/// `i`-th inlined statement assigns the `i`-th argument to the fresh local
/// of the `i`-th parameter, numbered `base + 1 + k` for the parameter's
/// position `k` in the callee's locals.
pub proof fn lemma_inlined_arguments_in_order(
    callee: Function,
    args: Seq<OperandView>,
    destination: PlaceView,
    source_info: SourceInfo,
    base: int,
    i: int,
    k: int,
)
    requires
        0 <= base,
        base + callee.locals@.len() <= u32::MAX,
        keys_distinct(callee.locals@),
        forall|p: int| 0 <= p < callee.parameters@.len() ==> exists|q: int|
            0 <= q < callee.locals@.len() && callee.locals@[q].0 == (#[trigger] callee.parameters@[p]).local_id,
        0 <= i < callee.parameters@.len(),
        i < args.len(),
        0 <= k < callee.locals@.len(),
        callee.locals@[k].0 == callee.parameters@[i].local_id,
    ensures
        inlined_statements(callee, args, destination, source_info, base)[i] == (StatementView::Assign {
            place: PlaceView { local: (base + 1 + k) as LocalId, projection: seq![] },
            rvalue: RvalueView::Use(args[i]),
            source_info,
        }),
{
    let m = fresh_map(callee.locals@, base);
    lemma_fresh_map(callee.locals@, base);
    assert forall|p: int| 0 <= p < callee.parameters@.len() implies m.contains_key(#[trigger] callee.parameters@[p].local_id) by {
        let q = choose|q: int| 0 <= q < callee.locals@.len() && callee.locals@[q].0 == callee.parameters@[p].local_id;
        assert(m.contains_key(callee.locals@[q].0));
    }
    lemma_parameter_assignments(callee.parameters@, args, m, source_info);
    let pa = parameter_assignments(callee.parameters@, args, m, source_info);
    let body = statements_view(entry_statements(callee)).map_values(|s: StatementView| renamed_statement(s, m));
    let ret = return_assignment(callee, destination, m, source_info);
    assert((pa + body + ret)[i] == pa[i]);
    assert(m[callee.locals@[k].0] == base + 1 + k);
}

/// Inlining ends with the callee's result: where the callee's parameters
/// are among its locals (with distinct keys), the inlined statements are
/// one assignment per parameter that has an argument, then one per
/// statement of the callee's entry block, then, where the callee returns
/// its local at table position `k`, the copy of that local's fresh number
/// `base + 1 + k` into the call's destination (and nothing where it
/// returns none).
pub proof fn lemma_inlined_result_last(
    callee: Function,
    args: Seq<OperandView>,
    destination: PlaceView,
    source_info: SourceInfo,
    base: int,
    k: int,
)
    requires
        0 <= base,
        base + callee.locals@.len() <= u32::MAX,
        keys_distinct(callee.locals@),
        forall|p: int| 0 <= p < callee.parameters@.len() ==> exists|q: int|
            0 <= q < callee.locals@.len() && callee.locals@[q].0 == (#[trigger] callee.parameters@[p]).local_id,
        callee.return_local is Some ==> 0 <= k < callee.locals@.len() && callee.locals@[k].0 == callee.return_local->Some_0,
    ensures
        ({
            let n = if callee.parameters@.len() < args.len() { callee.parameters@.len() as int } else { args.len() as int };
            let e = statements_view(entry_statements(callee)).len() as int;
            let all = inlined_statements(callee, args, destination, source_info, base);
            &&& callee.return_local is None ==> all.len() == n + e
            &&& callee.return_local is Some ==> all.len() == n + e + 1 && all[n + e] == (StatementView::Assign {
                place: destination,
                rvalue: RvalueView::Use(OperandView::Copy(PlaceView { local: (base + 1 + k) as LocalId, projection: seq![] })),
                source_info,
            })
        }),
{
    let m = fresh_map(callee.locals@, base);
    lemma_fresh_map(callee.locals@, base);
    assert forall|p: int| 0 <= p < callee.parameters@.len() implies m.contains_key(#[trigger] callee.parameters@[p].local_id) by {
        let q = choose|q: int| 0 <= q < callee.locals@.len() && callee.locals@[q].0 == callee.parameters@[p].local_id;
        assert(m.contains_key(callee.locals@[q].0));
    }
    lemma_parameter_assignments(callee.parameters@, args, m, source_info);
    let pa = parameter_assignments(callee.parameters@, args, m, source_info);
    let body = statements_view(entry_statements(callee)).map_values(|s: StatementView| renamed_statement(s, m));
    let ret = return_assignment(callee, destination, m, source_info);
    if callee.return_local is Some {
        assert(m.contains_key(callee.locals@[k].0));
        assert(m[callee.locals@[k].0] == base + 1 + k);
        assert((pa + body + ret)[(pa.len() + body.len()) as int] == ret[0]);
    }
}

/// Inlining renames every local of the callee's body to a fresh one: where
/// the callee's parameters and every local its entry block mentions are
/// among its locals, each local that an inlined statement of the body
/// mentions lies above `base` (the caller's largest local) and is at most
/// `base` plus the number of callee locals, so it is none of the caller's
/// own locals.
pub proof fn lemma_inlined_body_locals_fresh(
    callee: Function,
    args: Seq<OperandView>,
    destination: PlaceView,
    source_info: SourceInfo,
    base: int,
    j: int,
    l: LocalId,
)
    requires
        0 <= base,
        base + callee.locals@.len() <= u32::MAX,
        forall|p: int| 0 <= p < callee.parameters@.len() ==> exists|q: int|
            0 <= q < callee.locals@.len() && callee.locals@[q].0 == (#[trigger] callee.parameters@[p]).local_id,
        forall|t: int, l0: LocalId| 0 <= t < statements_view(entry_statements(callee)).len()
            && #[trigger] statement_mentions(statements_view(entry_statements(callee))[t], l0)
            ==> exists|q: int| 0 <= q < callee.locals@.len() && callee.locals@[q].0 == l0,
        ({
            let n = if callee.parameters@.len() < args.len() { callee.parameters@.len() as int } else { args.len() as int };
            n <= j < n + statements_view(entry_statements(callee)).len()
        }),
        statement_mentions(inlined_statements(callee, args, destination, source_info, base)[j], l),
    ensures
        base < l <= base + callee.locals@.len(),
{
    let m = fresh_map(callee.locals@, base);
    lemma_fresh_map(callee.locals@, base);
    assert forall|p: int| 0 <= p < callee.parameters@.len() implies m.contains_key(#[trigger] callee.parameters@[p].local_id) by {
        let q = choose|q: int| 0 <= q < callee.locals@.len() && callee.locals@[q].0 == callee.parameters@[p].local_id;
        assert(m.contains_key(callee.locals@[q].0));
    }
    lemma_parameter_assignments(callee.parameters@, args, m, source_info);
    let pa = parameter_assignments(callee.parameters@, args, m, source_info);
    let entry = statements_view(entry_statements(callee));
    let body = entry.map_values(|s: StatementView| renamed_statement(s, m));
    let ret = return_assignment(callee, destination, m, source_info);
    let t = j - pa.len();
    assert((pa + body + ret)[j] == body[t]);
    assert(body[t] == renamed_statement(entry[t], m));
    lemma_renamed_statement_mentions(entry[t], m, l);
    let l0 = choose|l0: LocalId| statement_mentions(entry[t], l0) && renames_to(l0, l, m);
    let q = choose|q: int| 0 <= q < callee.locals@.len() && callee.locals@[q].0 == l0;
    assert(m.contains_key(callee.locals@[q].0));
}

/// The cost of a prefix of the blocks is at most the whole cost.
pub proof fn lemma_blocks_cost_prefix(s: Seq<(BasicBlockId, BasicBlock)>, n: int)
    requires
        0 <= n <= s.len(),
    ensures
        blocks_cost(s.subrange(0, n)) <= blocks_cost(s),
    decreases s.len() - n,
{
    if n < s.len() {
        lemma_blocks_cost_prefix(s, n + 1);
        assert(s.subrange(0, n + 1).drop_last() =~= s.subrange(0, n));
    } else {
        assert(s.subrange(0, n) =~= s);
    }
}

} // verus!

verus! {

impl Default for InliningPass {
    fn default() -> (p: Self)
        ensures
            p.spec_threshold() == 20,
    {
        Self::new()
    }
}

} // verus!
