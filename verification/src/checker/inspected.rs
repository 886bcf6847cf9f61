//! The parts of an expression that the checker inspects before it accepts
//! the expression, and the parts among them that the execution policy
//! forbids outright.

use vstd::prelude::*;

use crate::ast::{DoStep, Expr, MatchArm};
use crate::checker::exprs::denied_by;
use crate::checker::TypeChecker;
use crate::policy::PolicyModel;

verus! {

impl TypeChecker {
    /// The policy of this checker forbids a part of the expression that is
    /// evaluated.
    pub open spec fn forbids(&self, expr: Expr) -> bool {
        contains_denied(self.policy.model(), expr)
    }
}

/// The expression, or a part of it that is evaluated, is forbidden outright
/// by the policy: a raw shell command in any position, or a filesystem
/// operation or command that the policy does not allow. Patterns are not
/// evaluated.
pub open spec fn contains_denied(policy: PolicyModel, expr: Expr) -> bool
    decreases expr, 1nat,
{
    denied_by(policy, expr) || match expr {
        Expr::OptionSome(v) | Expr::ResultOk(v) | Expr::ResultErr(v) | Expr::Not(v) | Expr::BitNot(v)
        | Expr::ArrayLenValue(v) | Expr::MapLenValue(v) | Expr::StringLenValue(v) | Expr::ArrayIsEmptyValue(v)
        | Expr::MapIsEmptyValue(v) | Expr::StringIsEmptyValue(v) | Expr::ArrayFirstValue(v) | Expr::ArrayLastValue(v)
        | Expr::ArrayReverseValue(v) | Expr::ArraySortValue(v) | Expr::ArrayUniqueValue(v) | Expr::MapKeysValue(v)
        | Expr::MapValuesValue(v) | Expr::StringTrimValue(v) | Expr::StringTrimStartValue(v)
        | Expr::StringTrimEndValue(v) | Expr::StringToUpperValue(v) | Expr::StringToLowerValue(v)
        | Expr::PathBasenameValue(v) | Expr::PathDirnameValue(v) | Expr::PathStemValue(v) | Expr::PathExtnameValue(v)
        | Expr::PathIsAbsoluteValue(v) | Expr::PathExists(v) | Expr::MatchGuardResult(v) | Expr::TryResult(v) =>
            contains_denied(policy, *v),
        Expr::Lambda { body, .. } => contains_denied(policy, *body),
        Expr::Match { value, arms } => {
            proof {
                assert(decreases_to!(arms => arms@));
            }
            contains_denied(policy, *value) || any_arm_denied(policy, arms@)
        },
        Expr::Do { steps, result } => {
            proof {
                assert(decreases_to!(steps => steps@));
            }
            any_step_denied(policy, steps@) || contains_denied(policy, *result)
        },
        Expr::LetIn { value, body, .. } => contains_denied(policy, *value) || contains_denied(policy, *body),
        Expr::TupleFieldValue { value, .. } | Expr::FieldValue { value, .. } | Expr::JsonParse { value }
        | Expr::JsonStringifyValue { value } => contains_denied(policy, *value),
        Expr::ProcessEnv { name } => contains_denied(policy, *name),
        Expr::Cast { expr: inner, .. } => contains_denied(policy, *inner),
        Expr::FsIsFile { path } | Expr::FsIsDir { path } | Expr::FsSize { path } | Expr::FsReadLines { path }
        | Expr::FsList { path } => contains_denied(policy, *path),
        Expr::ResultOption(v) => contains_denied(policy, *v),
        Expr::Index { index, .. } => contains_denied(policy, *index),
        Expr::ArrayTake { count, .. } | Expr::ArrayDrop { count, .. } | Expr::StringRepeat { count, .. } =>
            contains_denied(policy, *count),
        Expr::Join { separator, .. } | Expr::StringSplit { separator, .. } => contains_denied(policy, *separator),
        Expr::ArrayContains { value, .. } | Expr::ArrayIndexOf { value, .. } => contains_denied(policy, *value),
        Expr::MapHas { key, .. } => contains_denied(policy, *key),
        Expr::StringContains { needle, .. } | Expr::StringIndexOf { needle, .. } => contains_denied(policy, *needle),
        Expr::StringStartsWith { prefix, .. } => contains_denied(policy, *prefix),
        Expr::StringEndsWith { suffix, .. } => contains_denied(policy, *suffix),
        Expr::Binary { left, right, .. } => contains_denied(policy, *left) || contains_denied(policy, *right),
        Expr::IndexValue { value, index } => contains_denied(policy, *value) || contains_denied(policy, *index),
        Expr::ArrayTakeValue { value, count } | Expr::ArrayDropValue { value, count }
        | Expr::StringRepeatValue { value, count } => contains_denied(policy, *value) || contains_denied(policy, *count),
        Expr::JoinValue { value, separator } | Expr::StringSplitValue { value, separator } =>
            contains_denied(policy, *value) || contains_denied(policy, *separator),
        Expr::ArrayContainsValue { value, item } | Expr::ArrayIndexOfValue { value, item } =>
            contains_denied(policy, *value) || contains_denied(policy, *item),
        Expr::MapHasValue { value, key } => contains_denied(policy, *value) || contains_denied(policy, *key),
        Expr::StringContainsValue { value, needle } | Expr::StringIndexOfValue { value, needle } =>
            contains_denied(policy, *value) || contains_denied(policy, *needle),
        Expr::StringStartsWithValue { value, prefix } => contains_denied(policy, *value) || contains_denied(policy, *prefix),
        Expr::StringEndsWithValue { value, suffix } => contains_denied(policy, *value) || contains_denied(policy, *suffix),
        Expr::Slice { start, end, .. } | Expr::StringSlice { start, end, .. } =>
            contains_denied(policy, *start) || contains_denied(policy, *end),
        Expr::StringReplace { from, to, .. } => contains_denied(policy, *from) || contains_denied(policy, *to),
        Expr::Default { value, fallback } | Expr::OptionOrElseValue { value, fallback } =>
            contains_denied(policy, *value) || contains_denied(policy, *fallback),
        Expr::FsWriteLines { path, lines } | Expr::FsAppendLines { path, lines } =>
            contains_denied(policy, *path) || contains_denied(policy, *lines),
        Expr::IfElse { condition, then_expr, else_expr } => contains_denied(policy, *condition) || contains_denied(
            policy,
            *then_expr,
        ) || contains_denied(policy, *else_expr),
        Expr::ArraySliceValue { value, start, end } | Expr::StringSliceValue { value, start, end } =>
            contains_denied(policy, *value) || contains_denied(policy, *start) || contains_denied(policy, *end),
        Expr::StringReplaceValue { value, from, to } => contains_denied(policy, *value) || contains_denied(policy, *from)
            || contains_denied(policy, *to),
        Expr::NewtypeCtor { value, .. } => contains_denied(policy, *value),
        Expr::ArrayMap { mapper, .. } | Expr::OptionMap { mapper, .. } | Expr::ResultMap { mapper, .. }
        | Expr::OptionFlatMap { mapper, .. } | Expr::ResultFlatMap { mapper, .. } => contains_denied(policy, *mapper),
        Expr::ArrayMapValue { value, mapper } | Expr::OptionMapValue { value, mapper } | Expr::ResultMapValue { value, mapper }
        | Expr::OptionFlatMapValue { value, mapper } | Expr::ResultFlatMapValue { value, mapper } =>
            contains_denied(policy, *value) || contains_denied(policy, *mapper),
        Expr::OptionAp { value, .. } | Expr::ResultAp { value, .. } => contains_denied(policy, *value),
        Expr::OptionApValue { function, value } | Expr::ResultApValue { function, value } =>
            contains_denied(policy, *function) || contains_denied(policy, *value),
        Expr::OptionOrElse { fallback, .. } => contains_denied(policy, *fallback),
        Expr::ArrayPush { value, .. } => contains_denied(policy, *value),
        Expr::MapSet { key, value, .. } => contains_denied(policy, *key) || contains_denied(policy, *value),
        Expr::MapRemove { key, .. } => contains_denied(policy, *key),
        Expr::Async(v) | Expr::NamedArg { value: v, .. } => contains_denied(policy, *v),
        Expr::Range { start, end, .. } => contains_denied(policy, *start) || contains_denied(policy, *end),
        Expr::ArrayFilter { predicate: f, .. } | Expr::ArrayFind { predicate: f, .. } | Expr::ArrayAny { predicate: f, .. }
        | Expr::ArrayAll { predicate: f, .. } | Expr::ArrayFlatMap { mapper: f, .. } => contains_denied(policy, *f),
        Expr::ArrayFilterValue { value, predicate: f } | Expr::ArrayFindValue { value, predicate: f }
        | Expr::ArrayAnyValue { value, predicate: f } | Expr::ArrayAllValue { value, predicate: f }
        | Expr::ArrayFlatMapValue { value, mapper: f } => contains_denied(policy, *value) || contains_denied(policy, *f),
        Expr::ArrayFold { initial, reducer, .. } => contains_denied(policy, *initial) || contains_denied(policy, *reducer),
        Expr::ArrayFoldValue { value, initial, reducer } => contains_denied(policy, *value) || contains_denied(policy, *initial)
            || contains_denied(policy, *reducer),
        Expr::OptionOrElseTry { value, fallback } => contains_denied(policy, *value) || contains_denied(policy, *fallback),
        Expr::DefaultTry { value, fallback } => contains_denied(policy, *value) || contains_denied(policy, *fallback),
        Expr::Call { args: values, .. } | Expr::Variant { args: values, .. } | Expr::AllowedCommand { args: values, .. } => {
            proof {
                assert(decreases_to!(values => values@));
            }
            any_denied(policy, values@)
        },
        Expr::Array(values) | Expr::Tuple(values) => {
            proof {
                assert(decreases_to!(values => values@));
            }
            any_denied(policy, values@)
        },
        Expr::MapLiteral(entries) => {
            proof {
                assert(decreases_to!(entries => entries@));
            }
            any_entry_denied(policy, entries@)
        },
        Expr::Record(fields) => {
            proof {
                assert(decreases_to!(fields => fields@));
            }
            any_field_denied(policy, fields@)
        },
        _ => false,
    }
}

/// Some expression of the sequence contains a forbidden part.
pub open spec fn any_denied(policy: PolicyModel, es: Seq<Expr>) -> bool
    decreases es, 0nat,
{
    if es.len() == 0 {
        false
    } else {
        proof {
            assert(decreases_to!(es => es[es.len() - 1]));
        }
        any_denied(policy, es.drop_last()) || contains_denied(policy, es[es.len() - 1])
    }
}

/// Some key or value of the map entries contains a forbidden part.
pub open spec fn any_entry_denied(policy: PolicyModel, es: Seq<(Expr, Expr)>) -> bool
    decreases es, 0nat,
{
    if es.len() == 0 {
        false
    } else {
        proof {
            assert(decreases_to!(es => es[es.len() - 1]));
        }
        any_entry_denied(policy, es.drop_last()) || contains_denied(policy, es[es.len() - 1].0) || contains_denied(
            policy,
            es[es.len() - 1].1,
        )
    }
}

/// Some value of the record fields contains a forbidden part.
pub open spec fn any_field_denied(policy: PolicyModel, fs: Seq<(String, Expr)>) -> bool
    decreases fs, 0nat,
{
    if fs.len() == 0 {
        false
    } else {
        proof {
            assert(decreases_to!(fs => fs[fs.len() - 1]));
        }
        any_field_denied(policy, fs.drop_last()) || contains_denied(policy, fs[fs.len() - 1].1)
    }
}

/// `any_denied` names one expression.
pub proof fn lemma_any_denied(policy: PolicyModel, es: Seq<Expr>)
    ensures
        any_denied(policy, es) <==> exists|j: int| 0 <= j < es.len() && contains_denied(policy, #[trigger] es[j]),
    decreases es.len(),
{
    if es.len() > 0 {
        lemma_any_denied(policy, es.drop_last());
        if any_denied(policy, es.drop_last()) {
            let j = choose|j: int| 0 <= j < es.drop_last().len() && contains_denied(policy, #[trigger] es.drop_last()[j]);
            assert(es[j] == es.drop_last()[j]);
        }
        if exists|j: int| 0 <= j < es.len() && contains_denied(policy, #[trigger] es[j]) {
            let j = choose|j: int| 0 <= j < es.len() && contains_denied(policy, #[trigger] es[j]);
            if j < es.len() - 1 {
                assert(es.drop_last()[j] == es[j]);
            }
        }
    }
}

/// `any_entry_denied` names one entry.
pub proof fn lemma_any_entry_denied(policy: PolicyModel, es: Seq<(Expr, Expr)>)
    ensures
        any_entry_denied(policy, es) <==> exists|j: int| 0 <= j < es.len() && entry_denied(policy, #[trigger] es[j]),
    decreases es.len(),
{
    if es.len() > 0 {
        let init = es.drop_last();
        lemma_any_entry_denied(policy, init);
        if any_entry_denied(policy, init) {
            let j = choose|j: int| 0 <= j < init.len() && entry_denied(policy, #[trigger] init[j]);
            assert(es[j] == init[j]);
        }
        if exists|j: int| 0 <= j < es.len() && entry_denied(policy, #[trigger] es[j]) {
            let j = choose|j: int| 0 <= j < es.len() && entry_denied(policy, #[trigger] es[j]);
            if j < es.len() - 1 {
                assert(init[j] == es[j]);
            }
        }
    }
}

/// The key or the value of a map entry contains a forbidden part.
pub open spec fn entry_denied(policy: PolicyModel, entry: (Expr, Expr)) -> bool {
    contains_denied(policy, entry.0) || contains_denied(policy, entry.1)
}

/// `any_field_denied` names one field.
pub proof fn lemma_any_field_denied(policy: PolicyModel, fs: Seq<(String, Expr)>)
    ensures
        any_field_denied(policy, fs) <==> exists|j: int| 0 <= j < fs.len() && contains_denied(policy, #[trigger] fs[j].1),
    decreases fs.len(),
{
    if fs.len() > 0 {
        lemma_any_field_denied(policy, fs.drop_last());
        if any_field_denied(policy, fs.drop_last()) {
            let j = choose|j: int| 0 <= j < fs.drop_last().len() && contains_denied(policy, #[trigger] fs.drop_last()[j].1);
            assert(fs[j] == fs.drop_last()[j]);
        }
        if exists|j: int| 0 <= j < fs.len() && contains_denied(policy, #[trigger] fs[j].1) {
            let j = choose|j: int| 0 <= j < fs.len() && contains_denied(policy, #[trigger] fs[j].1);
            if j < fs.len() - 1 {
                assert(fs.drop_last()[j] == fs[j]);
            }
        }
    }
}

/// The value of a step of a `do` chain holds a forbidden part.
pub open spec fn step_denied(policy: PolicyModel, step: DoStep) -> bool
    decreases step, 0nat,
{
    match step {
        DoStep::Bind { expr, .. } => contains_denied(policy, expr),
        DoStep::Let { expr, .. } => contains_denied(policy, expr),
    }
}

/// Some step of a `do` chain holds a forbidden part.
pub open spec fn any_step_denied(policy: PolicyModel, steps: Seq<DoStep>) -> bool
    decreases steps, 1nat,
{
    if steps.len() == 0 {
        false
    } else {
        proof {
            assert(decreases_to!(steps => steps[steps.len() - 1]));
        }
        any_step_denied(policy, steps.drop_last()) || step_denied(policy, steps[steps.len() - 1])
    }
}

/// `any_step_denied` names one step.
pub proof fn lemma_any_step_denied(policy: PolicyModel, steps: Seq<DoStep>)
    ensures
        any_step_denied(policy, steps) <==> exists|j: int| 0 <= j < steps.len() && step_denied(policy, #[trigger] steps[j]),
    decreases steps.len(),
{
    if steps.len() > 0 {
        let init = steps.drop_last();
        lemma_any_step_denied(policy, init);
        if any_step_denied(policy, init) {
            let j = choose|j: int| 0 <= j < init.len() && step_denied(policy, #[trigger] init[j]);
            assert(steps[j] == init[j]);
        }
        if exists|j: int| 0 <= j < steps.len() && step_denied(policy, #[trigger] steps[j]) {
            let j = choose|j: int| 0 <= j < steps.len() && step_denied(policy, #[trigger] steps[j]);
            if j < steps.len() - 1 {
                assert(init[j] == steps[j]);
            }
        }
    }
}

/// The guard or the body of a match arm holds a forbidden part.
pub open spec fn arm_denied(policy: PolicyModel, arm: MatchArm) -> bool
    decreases arm, 0nat,
{
    (arm.guard matches Some(g) && contains_denied(policy, g)) || contains_denied(policy, arm.expr)
}

/// Some arm of a match holds a forbidden part.
pub open spec fn any_arm_denied(policy: PolicyModel, arms: Seq<MatchArm>) -> bool
    decreases arms, 1nat,
{
    if arms.len() == 0 {
        false
    } else {
        proof {
            assert(decreases_to!(arms => arms[arms.len() - 1]));
        }
        any_arm_denied(policy, arms.drop_last()) || arm_denied(policy, arms[arms.len() - 1])
    }
}

/// `any_arm_denied` names one arm.
pub proof fn lemma_any_arm_denied(policy: PolicyModel, arms: Seq<MatchArm>)
    ensures
        any_arm_denied(policy, arms) <==> exists|j: int| 0 <= j < arms.len() && arm_denied(policy, #[trigger] arms[j]),
    decreases arms.len(),
{
    if arms.len() > 0 {
        let init = arms.drop_last();
        lemma_any_arm_denied(policy, init);
        if any_arm_denied(policy, init) {
            let j = choose|j: int| 0 <= j < init.len() && arm_denied(policy, #[trigger] init[j]);
            assert(arms[j] == init[j]);
        }
        if exists|j: int| 0 <= j < arms.len() && arm_denied(policy, #[trigger] arms[j]) {
            let j = choose|j: int| 0 <= j < arms.len() && arm_denied(policy, #[trigger] arms[j]);
            if j < arms.len() - 1 {
                assert(init[j] == arms[j]);
            }
        }
    }
}

} // verus!
