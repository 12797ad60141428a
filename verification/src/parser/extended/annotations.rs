//! What the annotations written before a function say about it: its
//! intent, its contracts (`@pre`/`@requires`, `@post`/`@ensures`,
//! `@invariant`), an algorithm hint, a performance target, a complexity
//! expectation, and whether it is thread safe or may block. Where several
//! annotations or arguments say the same thing, the last one counts.

use vstd::prelude::*;
use crate::ast::{
    ComplexityExpectation, ComplexityNotation, ComplexityType, ContractAssertion, Expression, FailureAction,
    Function, PerformanceExpectation, PerformanceMetric,
};
use crate::error::ParserError;
use crate::text::{signed_decimal, spec_signed_decimal, str_is};
use super::{Annotation, AnnotationArgument, AnnotationValue, Parser};

verus! {

/// The argument is labeled `label`.
pub open spec fn has_label(arg: AnnotationArgument, label: Seq<char>) -> bool {
    arg.label matches Some(l) && l@ == label
}

/// The string held by the last argument labeled `label` that holds a
/// string, if any.
pub open spec fn last_labeled_string(args: Seq<AnnotationArgument>, label: Seq<char>) -> Option<String>
    decreases args.len(),
{
    if args.len() == 0 {
        None
    } else if has_label(args.last(), label) && args.last().value is String {
        Some(args.last().value->String_0)
    } else {
        last_labeled_string(args.drop_last(), label)
    }
}

/// The condition of a contract annotation: the expression of the last
/// unlabeled argument that holds one.
pub open spec fn contract_condition(args: Seq<AnnotationArgument>) -> Option<Box<Expression>>
    decreases args.len(),
{
    if args.len() == 0 {
        None
    } else if args.last().label is None && args.last().value is Expression {
        Some(args.last().value->Expression_0)
    } else {
        contract_condition(args.drop_last())
    }
}

/// The argument is `check: runtime`.
pub open spec fn is_runtime_check(arg: AnnotationArgument) -> bool {
    has_label(arg, "check"@) && (arg.value matches AnnotationValue::Identifier(id) && id@ == "runtime"@)
}

/// A contract annotation asks for a runtime check: some argument is
/// `check: runtime` (or `check = runtime`).
pub open spec fn runtime_checked(args: Seq<AnnotationArgument>) -> bool {
    exists|i: int| 0 <= i < args.len() && is_runtime_check(#[trigger] args[i])
}

/// The contract assertion that an annotation's arguments give, if they
/// hold a condition.
pub open spec fn contract_of(a: Annotation) -> Option<ContractAssertion> {
    match contract_condition(a.arguments@) {
        Some(condition) => Some(ContractAssertion {
            condition,
            failure_action: FailureAction::ThrowException,
            message: None,
            runtime_check: runtime_checked(a.arguments@),
            source_location: a.source_location,
        }),
        None => None,
    }
}

/// The annotation is named `name`.
pub open spec fn named(a: Annotation, name: Seq<char>) -> bool {
    a.name@ == name
}

/// The contract assertions, in order, of the annotations named `n1` or `n2`
/// that hold a condition.
pub open spec fn contracts_of(anns: Seq<Annotation>, n1: Seq<char>, n2: Seq<char>) -> Seq<ContractAssertion>
    decreases anns.len(),
{
    if anns.len() == 0 {
        seq![]
    } else {
        let before = contracts_of(anns.drop_last(), n1, n2);
        let a = anns.last();
        if (named(a, n1) || named(a, n2)) && contract_of(a) is Some {
            before.push(contract_of(a)->Some_0)
        } else {
            before
        }
    }
}

/// The string held by the first argument of an annotation named `name`.
pub open spec fn first_string(a: Annotation, name: Seq<char>) -> Option<String> {
    if named(a, name) && a.arguments@.len() > 0 && a.arguments@[0].value is String {
        Some(a.arguments@[0].value->String_0)
    } else {
        None
    }
}

/// The boolean held by the first argument of an annotation named `name`.
pub open spec fn first_bool(a: Annotation, name: Seq<char>) -> Option<bool> {
    if named(a, name) && a.arguments@.len() > 0 && a.arguments@[0].value is Boolean {
        Some(a.arguments@[0].value->Boolean_0)
    } else {
        None
    }
}

/// `prev`, replaced by the first-argument string of each annotation named
/// `name` that has one: the last such string, or `prev` when there is none.
pub open spec fn last_string(anns: Seq<Annotation>, name: Seq<char>, prev: Option<String>) -> Option<String>
    decreases anns.len(),
{
    if anns.len() == 0 {
        prev
    } else {
        match first_string(anns.last(), name) {
            Some(s) => Some(s),
            None => last_string(anns.drop_last(), name, prev),
        }
    }
}

/// Like `last_string`, for a first-argument boolean.
pub open spec fn last_bool(anns: Seq<Annotation>, name: Seq<char>, prev: Option<bool>) -> Option<bool>
    decreases anns.len(),
{
    if anns.len() == 0 {
        prev
    } else {
        match first_bool(anns.last(), name) {
            Some(b) => Some(b),
            None => last_bool(anns.drop_last(), name, prev),
        }
    }
}

/// The performance metric named by a string.
pub open spec fn metric_named(s: Seq<char>) -> Option<PerformanceMetric> {
    if s == "LatencyMs"@ {
        Some(PerformanceMetric::LatencyMs)
    } else if s == "ThroughputOpsPerSec"@ {
        Some(PerformanceMetric::ThroughputOpsPerSec)
    } else if s == "MemoryUsageBytes"@ {
        Some(PerformanceMetric::MemoryUsageBytes)
    } else {
        None
    }
}

/// The metric of a `@perf` annotation: the one named by the last `metric:`
/// string.
pub open spec fn perf_metric(args: Seq<AnnotationArgument>) -> Option<PerformanceMetric> {
    match last_labeled_string(args, "metric"@) {
        Some(s) => metric_named(s@),
        None => None,
    }
}

/// The target of a `@perf` annotation as text: that of the last `target:`
/// argument holding a float or an integer, or `0` when there is none.
pub open spec fn perf_target(args: Seq<AnnotationArgument>) -> Seq<char>
    decreases args.len(),
{
    if args.len() == 0 {
        "0"@
    } else if has_label(args.last(), "target"@) && args.last().value is Float {
        (args.last().value->Float_0)@
    } else if has_label(args.last(), "target"@) && args.last().value is Integer {
        spec_signed_decimal(args.last().value->Integer_0 as int)
    } else {
        perf_target(args.drop_last())
    }
}

/// The index of the last `@perf` annotation that names a known metric.
pub open spec fn last_perf(anns: Seq<Annotation>) -> Option<int>
    decreases anns.len(),
{
    if anns.len() == 0 {
        None
    } else if named(anns.last(), "perf"@) && perf_metric(anns.last().arguments@) is Some {
        Some(anns.len() - 1)
    } else {
        last_perf(anns.drop_last())
    }
}

/// `p` is the performance expectation given by the arguments of a `@perf`
/// annotation.
pub open spec fn perf_from(p: Option<PerformanceExpectation>, args: Seq<AnnotationArgument>) -> bool {
    p matches Some(pe) && Some(pe.metric) == perf_metric(args)
        && pe.target_value@ == perf_target(args)
        && pe.context == last_labeled_string(args, "context"@)
}

/// The complexity type named by the last `type:` string: `Space` for
/// "Space", `Time` otherwise.
pub open spec fn complexity_type_of(args: Seq<AnnotationArgument>) -> ComplexityType {
    match last_labeled_string(args, "type"@) {
        Some(s) => if s@ == "Space"@ { ComplexityType::Space } else { ComplexityType::Time },
        None => ComplexityType::Time,
    }
}

/// The notation named by the last `notation:` string: `BigTheta`,
/// `BigOmega`, or `BigO` otherwise.
pub open spec fn complexity_notation_of(args: Seq<AnnotationArgument>) -> ComplexityNotation {
    match last_labeled_string(args, "notation"@) {
        Some(s) => if s@ == "BigTheta"@ {
            ComplexityNotation::BigTheta
        } else if s@ == "BigOmega"@ {
            ComplexityNotation::BigOmega
        } else {
            ComplexityNotation::BigO
        },
        None => ComplexityNotation::BigO,
    }
}

/// The notation that the `notation:` string `s` names: `BigOmega` for
/// "BigOmega", `BigTheta` for "BigTheta", and `BigO` for any other string
/// or none.
pub open spec fn notation_named(n: ComplexityNotation, s: Option<String>) -> bool {
    &&& (s matches Some(t) && t@ == "BigOmega"@ ==> n == ComplexityNotation::BigOmega)
    &&& (s matches Some(t) && t@ == "BigTheta"@ ==> n == ComplexityNotation::BigTheta)
    &&& (s matches Some(t) && t@ != "BigOmega"@ && t@ != "BigTheta"@ ==> n == ComplexityNotation::BigO)
    &&& (s is None ==> n == ComplexityNotation::BigO)
}

/// A `@complexity` annotation's notation is the one its last `notation:`
/// string names: "BigOmega" gives `BigOmega`, "BigTheta" gives `BigTheta`,
/// anything else or nothing gives `BigO`.
pub proof fn lemma_complexity_notation_named(args: Seq<AnnotationArgument>)
    ensures
        notation_named(complexity_notation_of(args), last_labeled_string(args, "notation"@)),
{
    reveal_strlit("BigOmega");
    reveal_strlit("BigTheta");
    assert("BigOmega"@[3] != "BigTheta"@[3]);
}

/// The index of the last annotation named `name`.
pub open spec fn last_named(anns: Seq<Annotation>, name: Seq<char>) -> Option<int>
    decreases anns.len(),
{
    if anns.len() == 0 {
        None
    } else if named(anns.last(), name) {
        Some(anns.len() - 1)
    } else {
        last_named(anns.drop_last(), name)
    }
}

/// `c` is the complexity expectation given by the arguments of a
/// `@complexity` annotation: its type, notation and value (the last
/// `value:` string, empty without one).
pub open spec fn complexity_from(c: Option<ComplexityExpectation>, args: Seq<AnnotationArgument>) -> bool {
    c matches Some(ce) && ce.complexity_type == complexity_type_of(args)
        && ce.notation == complexity_notation_of(args)
        && ce.value@ == match last_labeled_string(args, "value"@) {
            Some(v) => v@,
            None => Seq::<char>::empty(),
        }
}

/// `after` is `before` with the annotations `anns` applied in order. Only
/// the intent and the metadata change.
pub open spec fn annotated(before: Function, anns: Seq<Annotation>, after: Function) -> bool {
    &&& after.name == before.name
    &&& after.generic_parameters == before.generic_parameters
    &&& after.where_clause == before.where_clause
    &&& after.parameters == before.parameters
    &&& after.return_type == before.return_type
    &&& after.body == before.body
    &&& after.export_info == before.export_info
    &&& after.source_location == before.source_location
    &&& after.metadata.throws_exceptions == before.metadata.throws_exceptions
    &&& after.intent == last_string(anns, "intent"@, before.intent)
    &&& after.metadata.algorithm_hint == last_string(anns, "algo"@, before.metadata.algorithm_hint)
    &&& after.metadata.thread_safe == last_bool(anns, "thread_safe"@, before.metadata.thread_safe)
    &&& after.metadata.may_block == last_bool(anns, "may_block"@, before.metadata.may_block)
    &&& after.metadata.preconditions@ == before.metadata.preconditions@ + contracts_of(anns, "pre"@, "requires"@)
    &&& after.metadata.postconditions@ == before.metadata.postconditions@ + contracts_of(anns, "post"@, "ensures"@)
    &&& after.metadata.invariants@ == before.metadata.invariants@ + contracts_of(anns, "invariant"@, "invariant"@)
    &&& match last_perf(anns) {
        Some(i) => perf_from(after.metadata.performance_expectation, anns[i].arguments@),
        None => after.metadata.performance_expectation == before.metadata.performance_expectation,
    }
    &&& match last_named(anns, "complexity"@) {
        Some(i) => complexity_from(after.metadata.complexity_expectation, anns[i].arguments@),
        None => after.metadata.complexity_expectation == before.metadata.complexity_expectation,
    }
}

/// `after` is `before` with the one annotation `a` applied.
pub open spec fn applied(before: Function, a: Annotation, after: Function) -> bool {
    &&& after.name == before.name
    &&& after.generic_parameters == before.generic_parameters
    &&& after.where_clause == before.where_clause
    &&& after.parameters == before.parameters
    &&& after.return_type == before.return_type
    &&& after.body == before.body
    &&& after.export_info == before.export_info
    &&& after.source_location == before.source_location
    &&& after.metadata.throws_exceptions == before.metadata.throws_exceptions
    &&& after.intent == match first_string(a, "intent"@) {
        Some(s) => Some(s),
        None => before.intent,
    }
    &&& after.metadata.algorithm_hint == match first_string(a, "algo"@) {
        Some(s) => Some(s),
        None => before.metadata.algorithm_hint,
    }
    &&& after.metadata.thread_safe == match first_bool(a, "thread_safe"@) {
        Some(b) => Some(b),
        None => before.metadata.thread_safe,
    }
    &&& after.metadata.may_block == match first_bool(a, "may_block"@) {
        Some(b) => Some(b),
        None => before.metadata.may_block,
    }
    &&& after.metadata.preconditions@ == if (named(a, "pre"@) || named(a, "requires"@)) && contract_of(a) is Some {
        before.metadata.preconditions@.push(contract_of(a)->Some_0)
    } else {
        before.metadata.preconditions@
    }
    &&& after.metadata.postconditions@ == if (named(a, "post"@) || named(a, "ensures"@)) && contract_of(a) is Some {
        before.metadata.postconditions@.push(contract_of(a)->Some_0)
    } else {
        before.metadata.postconditions@
    }
    &&& after.metadata.invariants@ == if named(a, "invariant"@) && contract_of(a) is Some {
        before.metadata.invariants@.push(contract_of(a)->Some_0)
    } else {
        before.metadata.invariants@
    }
    &&& if named(a, "perf"@) && perf_metric(a.arguments@) is Some {
        perf_from(after.metadata.performance_expectation, a.arguments@)
    } else {
        after.metadata.performance_expectation == before.metadata.performance_expectation
    }
    &&& if named(a, "complexity"@) {
        complexity_from(after.metadata.complexity_expectation, a.arguments@)
    } else {
        after.metadata.complexity_expectation == before.metadata.complexity_expectation
    }
}

/// `last_perf` gives an index of the sequence.
pub proof fn lemma_last_perf_bound(anns: Seq<Annotation>)
    ensures
        last_perf(anns) matches Some(i) ==> 0 <= i < anns.len(),
    decreases anns.len(),
{
    if anns.len() > 0 {
        lemma_last_perf_bound(anns.drop_last());
    }
}

/// `last_named` gives an index of the sequence.
pub proof fn lemma_last_named_bound(anns: Seq<Annotation>, name: Seq<char>)
    ensures
        last_named(anns, name) matches Some(i) ==> 0 <= i < anns.len(),
    decreases anns.len(),
{
    if anns.len() > 0 {
        lemma_last_named_bound(anns.drop_last(), name);
    }
}

/// No annotations leave a function as it is.
pub proof fn lemma_annotated_none(f: Function)
    ensures
        annotated(f, Seq::empty(), f),
{
    let none = Seq::<Annotation>::empty();
    assert(contracts_of(none, "pre"@, "requires"@) =~= Seq::<ContractAssertion>::empty());
    assert(contracts_of(none, "post"@, "ensures"@) =~= Seq::<ContractAssertion>::empty());
    assert(contracts_of(none, "invariant"@, "invariant"@) =~= Seq::<ContractAssertion>::empty());
    assert(f.metadata.preconditions@ + Seq::<ContractAssertion>::empty() =~= f.metadata.preconditions@);
    assert(f.metadata.postconditions@ + Seq::<ContractAssertion>::empty() =~= f.metadata.postconditions@);
    assert(f.metadata.invariants@ + Seq::<ContractAssertion>::empty() =~= f.metadata.invariants@);
}

/// Applying the annotations `anns` and then `a` is applying `anns` followed
/// by `a`.
pub proof fn lemma_annotated_push(start: Function, anns: Seq<Annotation>, mid: Function, a: Annotation, after: Function)
    requires
        annotated(start, anns, mid),
        applied(mid, a, after),
    ensures
        annotated(start, anns.push(a), after),
{
    let all = anns.push(a);
    assert(all.drop_last() =~= anns);
    assert(all.last() == a);
    assert(after.metadata.preconditions@ =~= start.metadata.preconditions@ + contracts_of(all, "pre"@, "requires"@));
    assert(after.metadata.postconditions@ =~= start.metadata.postconditions@ + contracts_of(all, "post"@, "ensures"@));
    assert(after.metadata.invariants@ =~= start.metadata.invariants@ + contracts_of(all, "invariant"@, "invariant"@));
    lemma_last_perf_bound(anns);
    lemma_last_named_bound(anns, "complexity"@);
    if last_perf(all) is Some && last_perf(all) != Some(all.len() - 1) {
        assert(all[last_perf(all)->Some_0] == anns[last_perf(all)->Some_0]);
    }
    if last_named(all, "complexity"@) is Some && last_named(all, "complexity"@) != Some(all.len() - 1) {
        assert(all[last_named(all, "complexity"@)->Some_0] == anns[last_named(all, "complexity"@)->Some_0]);
    }
}

/// The last string held by an argument labeled `label` in `args`, moving
/// the arguments out.
fn take_last_labeled_string(args: Vec<AnnotationArgument>, label: &str) -> (r: Option<String>)
    ensures
        r == last_labeled_string(args@, label@),
{
    let ghost input = args@;
    let mut rest = args;
    let mut found: Option<String> = None;
    let mut i: usize = 0;
    let total = rest.len();
    assert(input.subrange(0, 0) =~= Seq::<AnnotationArgument>::empty());
    while rest.len() > 0
        invariant
            total == input.len(),
            i + rest@.len() == total,
            rest@ == input.subrange(i as int, total as int),
            found == last_labeled_string(input.subrange(0, i as int), label@),
        decreases rest@.len(),
    {
        let arg = rest.remove(0);
        let labeled = match &arg.label {
            Some(l) => str_is(l.as_str(), label),
            None => false,
        };
        assert(input.subrange(0, i as int + 1).drop_last() =~= input.subrange(0, i as int));
        if labeled {
            match arg.value {
                AnnotationValue::String(s) => {
                    found = Some(s);
                },
                _ => {},
            }
        }
        assert(rest@ =~= input.subrange(i as int + 1, total as int));
        i = i + 1;
    }
    assert(input.subrange(0, total as int) =~= input);
    found
}

impl Parser {
    /// The condition of a contract annotation (the last unlabeled argument
    /// holding an expression) and whether it asks for a runtime check
    /// (`check: runtime`).
    fn extract_contract_args(args: Vec<AnnotationArgument>) -> (r: (Option<Box<Expression>>, bool))
        ensures
            r.0 == contract_condition(args@),
            r.1 == runtime_checked(args@),
    {
        let ghost input = args@;
        let mut rest = args;
        let mut condition: Option<Box<Expression>> = None;
        let mut runtime_check = false;
        let mut i: usize = 0;
        let total = rest.len();
        assert(input.subrange(0, 0) =~= Seq::<AnnotationArgument>::empty());
        while rest.len() > 0
            invariant
                total == input.len(),
                i + rest@.len() == total,
                rest@ == input.subrange(i as int, total as int),
                condition == contract_condition(input.subrange(0, i as int)),
                runtime_check == runtime_checked(input.subrange(0, i as int)),
            decreases rest@.len(),
        {
            let arg = rest.remove(0);
            let ghost prefix = input.subrange(0, i as int + 1);
            assert(prefix.drop_last() =~= input.subrange(0, i as int));
            assert(prefix.last() == arg);
            let is_check = match &arg.label {
                Some(l) => str_is(l.as_str(), "check"),
                None => false,
            };
            let unlabeled = arg.label.is_none();
            match arg.value {
                AnnotationValue::Expression(e) => {
                    if unlabeled {
                        condition = Some(e);
                    }
                },
                AnnotationValue::Identifier(id) => {
                    if is_check && str_is(id.as_str(), "runtime") {
                        runtime_check = true;
                    }
                },
                _ => {},
            }
            proof {
                reveal_strlit("check");
                reveal_strlit("runtime");
                assert forall|j: int| 0 <= j < i implies prefix[j] == input.subrange(0, i as int)[j] by {}
                if runtime_check {
                    if !runtime_checked(input.subrange(0, i as int)) {
                        assert(prefix[i as int] == arg);
                    }
                } else {
                    assert forall|j: int| 0 <= j < prefix.len() implies !is_runtime_check(#[trigger] prefix[j]) by {
                        if j < i {
                            assert(prefix[j] == input.subrange(0, i as int)[j]);
                        }
                    }
                }
            }
            assert(rest@ =~= input.subrange(i as int + 1, total as int));
            i = i + 1;
        }
        assert(input.subrange(0, total as int) =~= input);
        (condition, runtime_check)
    }

    /// The contract assertion that a contract annotation gives, if it holds
    /// a condition.
    fn contract_assertion(ann: Annotation) -> (r: Option<ContractAssertion>)
        ensures
            r == contract_of(ann),
    {
        let (condition, runtime_check) = Self::extract_contract_args(ann.arguments);
        match condition {
            Some(expr) => Some(ContractAssertion {
                condition: expr,
                failure_action: FailureAction::ThrowException,
                message: None,
                runtime_check,
                source_location: ann.source_location,
            }),
            None => None,
        }
    }

    /// Applies one annotation to `func`.
    fn apply_annotation(func: &mut Function, ann: Annotation)
        ensures
            applied(*old(func), ann, *final(func)),
    {
        proof {
            reveal_strlit("intent");
            reveal_strlit("algo");
            reveal_strlit("thread_safe");
            reveal_strlit("may_block");
            reveal_strlit("pre");
            reveal_strlit("requires");
            reveal_strlit("post");
            reveal_strlit("ensures");
            reveal_strlit("invariant");
            reveal_strlit("perf");
            reveal_strlit("complexity");
            assert("intent"@.len() == 6 && "algo"@.len() == 4 && "thread_safe"@.len() == 11);
            assert("may_block"@.len() == 9 && "pre"@.len() == 3 && "requires"@.len() == 8);
            assert("post"@.len() == 4 && "ensures"@.len() == 7 && "invariant"@.len() == 9);
            assert("perf"@.len() == 4 && "complexity"@.len() == 10);
            assert("algo"@[0] == 'a' && "post"@[0] == 'p' && "post"@[1] == 'o' && "perf"@[1] == 'e');
            assert("may_block"@[0] == 'm' && "invariant"@[0] == 'i');
        }
        let is_intent = str_is(ann.name.as_str(), "intent");
        let is_algo = str_is(ann.name.as_str(), "algo");
        let is_thread_safe = str_is(ann.name.as_str(), "thread_safe");
        let is_may_block = str_is(ann.name.as_str(), "may_block");
        let is_pre = str_is(ann.name.as_str(), "pre") || str_is(ann.name.as_str(), "requires");
        let is_post = str_is(ann.name.as_str(), "post") || str_is(ann.name.as_str(), "ensures");
        let is_invariant = str_is(ann.name.as_str(), "invariant");
        let is_perf = str_is(ann.name.as_str(), "perf");
        let is_complexity = str_is(ann.name.as_str(), "complexity");
        if is_intent || is_algo || is_thread_safe || is_may_block {
            let mut arguments = ann.arguments;
            if arguments.len() > 0 {
                let first = arguments.remove(0);
                match first.value {
                    AnnotationValue::String(s) => {
                        if is_intent {
                            func.intent = Some(s);
                        } else if is_algo {
                            func.metadata.algorithm_hint = Some(s);
                        }
                    },
                    AnnotationValue::Boolean(b) => {
                        if is_thread_safe {
                            func.metadata.thread_safe = Some(b);
                        } else if !is_intent && !is_algo {
                            func.metadata.may_block = Some(b);
                        }
                    },
                    _ => {},
                }
            }
        } else if is_pre {
            if let Some(c) = Self::contract_assertion(ann) {
                func.metadata.preconditions.push(c);
            }
        } else if is_post {
            if let Some(c) = Self::contract_assertion(ann) {
                func.metadata.postconditions.push(c);
            }
        } else if is_invariant {
            if let Some(c) = Self::contract_assertion(ann) {
                func.metadata.invariants.push(c);
            }
        } else if is_perf {
            if let Some(p) = Self::performance_expectation(ann.arguments) {
                func.metadata.performance_expectation = Some(p);
            }
        } else if is_complexity {
            func.metadata.complexity_expectation = Some(Self::complexity_expectation(ann.arguments));
        }
    }

    /// The performance expectation of a `@perf` annotation's arguments, if
    /// they name a known metric.
    fn performance_expectation(args: Vec<AnnotationArgument>) -> (r: Option<PerformanceExpectation>)
        ensures
            r is Some <==> perf_metric(args@) is Some,
            r is Some ==> perf_from(r, args@),
    {
        let ghost input = args@;
        let mut rest = args;
        let mut metric: Option<PerformanceMetric> = None;
        let mut metric_text: Option<String> = None;
        let mut target: Option<String> = None;
        let mut context: Option<String> = None;
        let mut i: usize = 0;
        let total = rest.len();
        assert(input.subrange(0, 0) =~= Seq::<AnnotationArgument>::empty());
        while rest.len() > 0
            invariant
                total == input.len(),
                i + rest@.len() == total,
                rest@ == input.subrange(i as int, total as int),
                metric_text == last_labeled_string(input.subrange(0, i as int), "metric"@),
                metric == match metric_text {
                    Some(s) => metric_named(s@),
                    None => None,
                },
                context == last_labeled_string(input.subrange(0, i as int), "context"@),
                match target {
                    Some(t) => t@ == perf_target(input.subrange(0, i as int)),
                    None => perf_target(input.subrange(0, i as int)) == "0"@,
                },
            decreases rest@.len(),
        {
            let arg = rest.remove(0);
            let ghost prefix = input.subrange(0, i as int + 1);
            assert(prefix.drop_last() =~= input.subrange(0, i as int));
            assert(prefix.last() == arg);
            proof {
                reveal_strlit("metric");
                reveal_strlit("target");
                reveal_strlit("context");
                assert("metric"@.len() == 6 && "target"@.len() == 6 && "context"@.len() == 7);
                assert("metric"@[0] == 'm' && "target"@[0] == 't');
            }
            let (is_metric, is_target, is_context) = match &arg.label {
                Some(l) => (str_is(l.as_str(), "metric"), str_is(l.as_str(), "target"), str_is(l.as_str(), "context")),
                None => (false, false, false),
            };
            match arg.value {
                AnnotationValue::String(s) => {
                    if is_metric {
                        metric = if str_is(s.as_str(), "LatencyMs") {
                            Some(PerformanceMetric::LatencyMs)
                        } else if str_is(s.as_str(), "ThroughputOpsPerSec") {
                            Some(PerformanceMetric::ThroughputOpsPerSec)
                        } else if str_is(s.as_str(), "MemoryUsageBytes") {
                            Some(PerformanceMetric::MemoryUsageBytes)
                        } else {
                            None
                        };
                        metric_text = Some(s);
                    } else if is_context {
                        context = Some(s);
                    }
                },
                AnnotationValue::Float(t) => {
                    if is_target {
                        target = Some(t);
                    }
                },
                AnnotationValue::Integer(n) => {
                    if is_target {
                        target = Some(signed_decimal(n));
                    }
                },
                _ => {},
            }
            assert(rest@ =~= input.subrange(i as int + 1, total as int));
            i = i + 1;
        }
        assert(input.subrange(0, total as int) =~= input);
        match metric {
            Some(m) => {
                let target_value = match target {
                    Some(t) => t,
                    None => String::from_str("0"),
                };
                proof {
                    reveal_strlit("0");
                }
                Some(PerformanceExpectation { metric: m, target_value, context })
            },
            None => None,
        }
    }

    /// The complexity expectation of a `@complexity` annotation's arguments.
    fn complexity_expectation(args: Vec<AnnotationArgument>) -> (r: ComplexityExpectation)
        ensures
            complexity_from(Some(r), args@),
            notation_named(r.notation, last_labeled_string(args@, "notation"@)),
            (last_labeled_string(args@, "type"@) matches Some(t) && t@ == "Space"@) <==> r.complexity_type == ComplexityType::Space,
            r.complexity_type == ComplexityType::Space || r.complexity_type == ComplexityType::Time,
    {
        let ghost input = args@;
        let mut rest = args;
        let mut complexity_type = ComplexityType::Time;
        let mut notation = ComplexityNotation::BigO;
        let mut value: Option<String> = None;
        let mut i: usize = 0;
        let total = rest.len();
        assert(input.subrange(0, 0) =~= Seq::<AnnotationArgument>::empty());
        while rest.len() > 0
            invariant
                total == input.len(),
                i + rest@.len() == total,
                rest@ == input.subrange(i as int, total as int),
                complexity_type == complexity_type_of(input.subrange(0, i as int)),
                notation == complexity_notation_of(input.subrange(0, i as int)),
                value == last_labeled_string(input.subrange(0, i as int), "value"@),
            decreases rest@.len(),
        {
            let arg = rest.remove(0);
            let ghost prefix = input.subrange(0, i as int + 1);
            assert(prefix.drop_last() =~= input.subrange(0, i as int));
            assert(prefix.last() == arg);
            proof {
                reveal_strlit("type");
                reveal_strlit("notation");
                reveal_strlit("value");
                assert("type"@.len() == 4 && "notation"@.len() == 8 && "value"@.len() == 5);
            }
            let (is_type, is_notation, is_value) = match &arg.label {
                Some(l) => (str_is(l.as_str(), "type"), str_is(l.as_str(), "notation"), str_is(l.as_str(), "value")),
                None => (false, false, false),
            };
            match arg.value {
                AnnotationValue::String(s) => {
                    if is_type {
                        complexity_type = if str_is(s.as_str(), "Space") {
                            ComplexityType::Space
                        } else {
                            ComplexityType::Time
                        };
                    } else if is_notation {
                        notation = if str_is(s.as_str(), "BigTheta") {
                            ComplexityNotation::BigTheta
                        } else if str_is(s.as_str(), "BigOmega") {
                            ComplexityNotation::BigOmega
                        } else {
                            ComplexityNotation::BigO
                        };
                    } else if is_value {
                        value = Some(s);
                    }
                },
                _ => {},
            }
            assert(rest@ =~= input.subrange(i as int + 1, total as int));
            i = i + 1;
        }
        assert(input.subrange(0, total as int) =~= input);
        proof {
            lemma_complexity_notation_named(input);
        }
        let value = match value {
            Some(v) => v,
            None => String::new(),
        };
        ComplexityExpectation { complexity_type, notation, value }
    }

    /// Applies the annotations written before a function to it, in order:
    /// see `annotated`. Unknown annotations are ignored.
    pub fn apply_annotations(&self, func: &mut Function, annotations: Vec<Annotation>) -> (r: Result<(), ParserError>)
        ensures
            r is Ok,
            annotated(*old(func), annotations@, *final(func)),
    {
        let ghost input = annotations@;
        let ghost start = *func;
        let mut rest = annotations;
        let mut i: usize = 0;
        let total = rest.len();
        assert(input.subrange(0, 0) =~= Seq::<Annotation>::empty());
        proof {
            lemma_annotated_none(start);
        }
        while rest.len() > 0
            invariant
                total == input.len(),
                i + rest@.len() == total,
                rest@ == input.subrange(i as int, total as int),
                annotated(start, input.subrange(0, i as int), *func),
            decreases rest@.len(),
        {
            let ann = rest.remove(0);
            let ghost before = *func;
            let ghost prefix = input.subrange(0, i as int + 1);
            Self::apply_annotation(func, ann);
            proof {
                assert(input.subrange(0, i as int).push(ann) =~= prefix);
                lemma_annotated_push(start, input.subrange(0, i as int), before, ann, *func);
            }
            assert(rest@ =~= input.subrange(i as int + 1, total as int));
            i = i + 1;
        }
        assert(input.subrange(0, total as int) =~= input);
        Ok(())
    }
}

} // verus!
