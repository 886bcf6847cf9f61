//! `do` expressions: a chain of Option or Result bindings.
//!
//! `do { x <- a; let y = b; pure(f(x, y)) }` stands for
//! `a.flatMap(x => let y = b in Some(f(x, y)))`, or `Ok(..)` in place of
//! `Some(..)` when the chain binds Results. The checker gives a `do`
//! expression the type of that chain: each binding is checked in the scope
//! that the earlier ones build, then the chain's type is assembled from the
//! last step back to the first.

use vstd::prelude::*;
use vstd::string::StringExecFns;

use crate::ast::{DoStep, Expr, Type};
use crate::checker::exprs::{option_of, result_of};
use crate::checker::messages::{about_type, fixed};
use crate::checker::TypeChecker;
use crate::collections::Duplicate;
use crate::error::CompileError;
use crate::text::{decimal_string, str_eq};
use crate::type_utils::{option_element, option_element_type, result_parts, result_types};

verus! {

/// What one step of a chain contributes when its type is assembled: a
/// binding of an Option element, a binding of a Result success with the
/// Result's error, or a `let`.
enum Frame {
    OptionBind(Type),
    ResultBind(Type, Type),
    Let,
}

/// `pure(value)`: the one argument of the final `pure`, when the result is a
/// call of `pure`.
fn pure_argument(result: &Expr, line: usize) -> (r: Result<Option<&Expr>, CompileError>)
    ensures
        r matches Ok(Some(v)) ==> (result matches Expr::Call { name, args } && name@ == "pure"@ && args@.len() == 1
            && *v == args@[0]),
        r matches Ok(None) ==> !(result matches Expr::Call { name, .. } && name@ == "pure"@),
        r matches Err(e) ==> e.line == line && (result matches Expr::Call { name, args } && name@ == "pure"@
            && args@.len() != 1),
{
    match result {
        Expr::Call { name, args } => {
            if !str_eq(name.as_str(), "pure") {
                return Ok(None);
            }
            if args.len() != 1 {
                let mut message = String::from_str("pure expects 1 argument, found ");
                message.append(decimal_string(args.len()).as_str());
                return Err(CompileError::new(line, message));
            }
            Ok(Some(&args[0]))
        },
        _ => Ok(None),
    }
}

/// Some step of the chain binds an Option or a Result.
pub open spec fn binds_something(steps: Seq<DoStep>) -> bool {
    exists|j: int| 0 <= j < steps.len() && (#[trigger] steps[j]) is Bind
}

impl TypeChecker {
    /// Whether a chain binds Results rather than Options: the first binding
    /// decides, after the `let`s before it; a chain without bindings is
    /// decided by its result, which must then not be `pure`.
    pub(crate) fn do_family(&self, steps: &Vec<DoStep>, result: &Expr, line: usize, Ghost(owner): Ghost<Expr>) -> (r: Result<bool, CompileError>)
        requires
            self.wf(),
            decreases_to!(owner => *steps),
            decreases_to!(owner => *result),
        ensures
            r matches Err(e) ==> e.line == line,
            steps@.len() == 0 && (result matches Expr::Call { name, .. } && name@ == "pure"@) ==> (r matches Err(e)
                && e.message@ == "pure in do expression requires an Option or Result binding"@),
        decreases owner, 3nat,
    {
        let mut checker = self.without_nested_tries();
        let mut i: usize = 0;
        while i < steps.len()
            invariant
                checker.wf(),
                i <= steps@.len(),
                decreases_to!(owner => *steps),
            decreases steps.len() - i,
        {
            assert(decreases_to!(*steps => steps@));
            assert(decreases_to!(steps@ => steps@[i as int]));
            match &steps[i] {
                DoStep::Let { name, annotation, expr } => {
                    assert(decreases_to!(steps@[i as int] => *expr));
                    let value_ty = checker.binding_expr_type(annotation.as_ref(), expr, line)?;
                    let binding_ty = checker.check_annotation(annotation.as_ref(), value_ty, expr, line)?;
                    checker.define(name.as_str(), binding_ty, false, line)?;
                },
                DoStep::Bind { expr, .. } => {
                    assert(decreases_to!(steps@[i as int] => *expr));
                    let ty = checker.check_expr(expr, line)?;
                    if option_element_type(&ty).is_some() {
                        return Ok(false);
                    }
                    if result_types(&ty).is_some() {
                        return Ok(true);
                    }
                    return Err(about_type(line, "do binding expects Option or Result, found ", &ty, ""));
                },
            }
            i += 1;
        }
        if let Expr::Call { name, .. } = result {
            if str_eq(name.as_str(), "pure") {
                return Err(fixed(line, "pure in do expression requires an Option or Result binding"));
            }
        }
        let ty = checker.check_expr(result, line)?;
        if option_element_type(&ty).is_some() {
            Ok(false)
        } else if result_types(&ty).is_some() {
            Ok(true)
        } else {
            Err(about_type(line, "do expression result must be Option or Result, found ", &ty, ""))
        }
    }

    /// The type of `do { steps; result }`.
    pub(crate) fn check_do(&self, steps: &Vec<DoStep>, result: &Expr, line: usize, Ghost(owner): Ghost<Expr>) -> (r: Result<Type, CompileError>)
        requires
            self.wf(),
            decreases_to!(owner => *steps),
            decreases_to!(owner => *result),
        ensures
            r matches Err(e) ==> e.line == line,
            r matches Ok(t) ==> (binds_something(steps@) || (result matches Expr::Call { name, .. } && name@ == "pure"@))
                ==> (option_element(t@) is Some || result_parts(t@) is Some),
            steps@.len() == 0 && (result matches Expr::Call { name, .. } && name@ == "pure"@) ==> (r matches Err(e)
                && e.message@ == "pure in do expression requires an Option or Result binding"@),
            crate::checker::inspected::any_step_denied(self.policy.model(), steps@) || self.forbids(*result) ==> r is Err,
        decreases owner, 4nat,
    {
        let binds_results = self.do_family(steps, result, line, Ghost(owner))?;
        let pure_value = pure_argument(result, line)?;
        let mut checker = self.without_nested_tries();
        let mut frames: Vec<Frame> = Vec::new();
        let mut i: usize = 0;
        while i < steps.len()
            invariant
                checker.wf(),
                checker.policy.model() == self.policy.model(),
                i <= steps@.len(),
                decreases_to!(owner => *steps),
                forall|j: int| 0 <= j < i ==> !crate::checker::inspected::step_denied(self.policy.model(), #[trigger] steps@[j]),
                frames@.len() == i,
                forall|j: int| 0 <= j < i ==> ((#[trigger] frames@[j]) is Let <==> steps@[j] is Let),
            decreases steps.len() - i,
        {
            assert(decreases_to!(*steps => steps@));
            assert(decreases_to!(steps@ => steps@[i as int]));
            match &steps[i] {
                DoStep::Bind { name, expr } => {
                    assert(decreases_to!(steps@[i as int] => *expr));
                    let value_ty = checker.check_expr(expr, line)?;
                    let mut names: Vec<String> = Vec::new();
                    names.push(name.clone());
                    let mut bound: Vec<Type> = Vec::new();
                    if result_types(&value_ty).is_some() {
                        let (ok, error) = checker.result_parts_of(&value_ty, "flatMap", line)?;
                        bound.push(ok.duplicate());
                        frames.push(Frame::ResultBind(ok, error));
                    } else {
                        let element = checker.option_element_of(&value_ty, "flatMap", line)?;
                        bound.push(element.duplicate());
                        frames.push(Frame::OptionBind(element));
                    }
                    checker = checker.lambda_checker(&names, &bound, line);
                },
                DoStep::Let { name, annotation, expr } => {
                    assert(decreases_to!(steps@[i as int] => *expr));
                    let value_ty = checker.binding_expr_type(annotation.as_ref(), expr, line)?;
                    let binding_ty = checker.check_annotation(annotation.as_ref(), value_ty, expr, line)?;
                    let mut next = checker.scope();
                    next.define(name.as_str(), binding_ty, false, line)?;
                    frames.push(Frame::Let);
                    checker = next;
                },
            }
            i += 1;
        }
        proof {
            crate::checker::inspected::lemma_any_step_denied(self.policy.model(), steps@);
            if let Expr::Call { args, .. } = result {
                crate::checker::inspected::lemma_any_denied(self.policy.model(), args@);
            }
        }
        let mut chained = match pure_value {
            Some(value) => {
                let t = checker.check_expr(value, line)?;
                if binds_results {
                    result_of(t, Type::Unit)
                } else {
                    option_of(t)
                }
            },
            None => checker.check_expr(result, line)?,
        };
        let not_a_byte = Expr::Unit;
        let ghost pure_result = result matches Expr::Call { name, .. } && name@ == "pure"@;
        let mut k: usize = frames.len();
        while k > 0
            invariant
                k <= frames@.len(),
                frames@.len() == steps@.len(),
                forall|j: int| 0 <= j < steps@.len() ==> ((#[trigger] frames@[j]) is Let <==> steps@[j] is Let),
                (pure_result || exists|j: int| k <= j < frames@.len() && !(#[trigger] frames@[j] is Let)) ==> (option_element(
                    chained@,
                ) is Some || result_parts(chained@) is Some),
            decreases k,
        {
            k -= 1;
            match &frames[k] {
                Frame::OptionBind(element) => {
                    let (_, mapped) = self.check_flat_map_result(element, chained, line)?;
                    chained = mapped;
                },
                Frame::ResultBind(ok, error) => {
                    let (_, _, joined) = self.check_result_flat_map_result(ok, error, chained, &not_a_byte, line)?;
                    chained = joined;
                },
                Frame::Let => {},
            }
        }
        proof {
            if binds_something(steps@) {
                let j = choose|j: int| 0 <= j < steps@.len() && (#[trigger] steps@[j]) is Bind;
                assert(!(frames@[j] is Let));
            }
        }
        Ok(chained)
    }
}

} // verus!
