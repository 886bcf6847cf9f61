//! What checking gives on the plain part of the language, stated from the
//! declarations and the variables in scope alone: literals, names and
//! operators; bindings, assignments, `return` and shell statements; and a
//! block of such statements, which stops at the first error.

use vstd::prelude::*;

use crate::ast::{display_name, AssignTarget, Expr, MatchArm, Statement, Type, TypeModel};
use crate::checker::exprs::{binary_result, rejected_form};
use crate::checker::messages::undefined_variable_message;
use crate::checker::matching::{expected_cases, has_wildcard_arm};
use crate::checker::relations::{assignable, byte_literal, comparable};
use crate::checker::resolve::{resolved, TypeEnv};
use crate::checker::scope::{args_binding, signature_type};
use crate::checker::statements::shell_statement;
use crate::checker::{FunctionSig, TypeChecker, VariantSig};
use crate::error::CompileError;
use crate::validation::unsafe_execution_message;

verus! {

/// The variables in scope: each name with its type and whether it may be
/// reassigned.
pub type Bindings = Map<Seq<char>, (TypeModel, bool)>;

/// The declarations that checking a plain statement consults and keeps.
pub struct Decls {
    pub variants: Map<Seq<char>, <VariantSig as View>::V>,
    pub functions: Map<Seq<char>, <FunctionSig as View>::V>,
    pub expected_return: Option<TypeModel>,
    pub env: TypeEnv,
    pub sum_types: Map<Seq<char>, Seq<String>>,
}

impl TypeChecker {
    /// The declarations of this checker.
    pub open spec fn decls(&self) -> Decls {
        Decls {
            variants: self.variants.view(),
            functions: self.functions.view(),
            expected_return: match self.expected_return {
                Some(t) => Some(t@),
                None => None,
            },
            env: self.type_env(),
            sum_types: self.sum_types.view(),
        }
    }
}

/// A variable in scope, or the script's arguments `args`.
pub open spec fn lookup_in(b: Bindings, name: Seq<char>) -> Option<(TypeModel, bool)> {
    if b.dom().contains(name) {
        Some(b[name])
    } else if name == "args"@ {
        Some(args_binding())
    } else {
        None
    }
}

/// What a bare name denotes: a variant without fields, a variable, or a
/// declared function.
pub open spec fn ident_in(d: Decls, b: Bindings, name: Seq<char>) -> Result<TypeModel, Seq<char>> {
    if d.variants.dom().contains(name) && d.variants[name].1.len() == 0 {
        Ok(TypeModel::Named(d.variants[name].0))
    } else {
        match lookup_in(b, name) {
            Some((t, _)) => Ok(t),
            None => if d.functions.dom().contains(name) {
                Ok(signature_type(d.functions[name]))
            } else {
                Err(undefined_variable_message(name))
            },
        }
    }
}

/// The outcome of checking an expression, where the expression is plain:
/// its type, or the message of its first error.
pub open spec fn expr_outcome(d: Decls, b: Bindings, e: Expr) -> Option<Result<TypeModel, Seq<char>>>
    decreases e, 1nat, 0int,
{
    match e {
        Expr::Int(_) => Some(Ok(TypeModel::Int)),
        Expr::Float(_) => Some(Ok(TypeModel::Float)),
        Expr::Bool(_) | Expr::HasCommand(_) => Some(Ok(TypeModel::Bool)),
        Expr::Unit => Some(Ok(TypeModel::Unit)),
        Expr::RawString(_) | Expr::Env(_) | Expr::EnvDefault { .. } => Some(Ok(TypeModel::String)),
        Expr::Ident(n) => Some(ident_in(d, b, n@)),
        Expr::String(v) => match crate::validation::interpolations_from(v@, 0) {
            Err(m) => Some(Err(m)),
            Ok(names) => if forall|i: int| 0 <= i < names.len() ==> #[trigger] b.dom().contains(names[i]) {
                Some(Ok(TypeModel::String))
            } else {
                None
            },
        },
        Expr::OptionNone => Some(Ok(TypeModel::Applied("Option"@, seq![TypeModel::Unit]))),
        Expr::OptionSome(v) => match expr_outcome(d, b, *v) {
            Some(Ok(t)) => Some(Ok(TypeModel::Applied("Option"@, seq![t]))),
            other => other,
        },
        Expr::ResultOk(v) => match expr_outcome(d, b, *v) {
            Some(Ok(t)) => Some(Ok(TypeModel::Applied("Result"@, seq![t, TypeModel::Unit]))),
            other => other,
        },
        Expr::ResultErr(v) => match expr_outcome(d, b, *v) {
            Some(Ok(t)) => Some(Ok(TypeModel::Applied("Result"@, seq![TypeModel::Unit, t]))),
            other => other,
        },
        Expr::Binary { left, op, right } => match expr_outcome(d, b, *left) {
            Some(Err(m)) => Some(Err(m)),
            Some(Ok(lt)) => match expr_outcome(d, b, *right) {
                Some(Err(m)) => Some(Err(m)),
                Some(Ok(rt)) => Some(binary_result(op, lt, rt)),
                None => None,
            },
            None => None,
        },
        Expr::Match { value, arms } => if arms@.len() == 0 {
            Some(Err("match expression requires at least one arm"@))
        } else {
            match expr_outcome(d, b, *value) {
                Some(Err(m)) => Some(Err(m)),
                Some(Ok(vt)) => {
                    proof {
                        assert(decreases_to!(arms => arms@));
                    }
                    match arms_outcome(d, b, vt, arms@, 0, None) {
                        Some(Err(m)) => Some(Err(m)),
                        Some(Ok(first)) => if has_wildcard_arm(arms@) {
                            match first {
                                Some(t) => Some(Ok(t)),
                                None => None,
                            }
                        } else if expected_cases(vt, d.sum_types) is None {
                            Some(Err("match expression requires wildcard `_` arm"@))
                        } else {
                            None
                        },
                        None => None,
                    }
                },
                None => None,
            }
        },
        _ => match rejected_form(e) {
            Some(m) => Some(Err(m)),
            None => None,
        },
    }
}

/// A match arm whose pattern is a literal or absent, without a guard.
pub open spec fn plain_arm(arm: MatchArm) -> bool {
    arm.guard is None && match arm.pattern {
        None => true,
        Some(p) => p is Int || p is Bool || p is Float,
    }
}

/// The type a literal pattern has.
pub open spec fn literal_type(p: Expr) -> TypeModel {
    match p {
        Expr::Int(_) => TypeModel::Int,
        Expr::Float(_) => TypeModel::Float,
        _ => TypeModel::Bool,
    }
}

/// The arms of a match on a value of type `vt` from the `i`-th, given the
/// type of the arms before it: the type of all the arms, or the message of
/// the first error.
pub open spec fn arms_outcome(d: Decls, b: Bindings, vt: TypeModel, arms: Seq<MatchArm>, i: int, first: Option<TypeModel>) -> Option<
    Result<Option<TypeModel>, Seq<char>>,
>
    decreases arms, 0nat, arms.len() - i,
{
    if i >= arms.len() || i < 0 {
        Some(Ok(first))
    } else if !plain_arm(arms[i]) {
        None
    } else {
        let arm = arms[i];
        let mismatch = match arm.pattern {
            Some(p) => !comparable(vt, literal_type(p)),
            None => false,
        };
        if mismatch {
            Some(Err("match pattern type mismatch: expected "@ + display_name(vt) + ", found "@ + display_name(
                literal_type(arm.pattern->0),
            )))
        } else {
            proof {
                assert(decreases_to!(arms => arms[i]));
            }
            match expr_outcome(d, b, arm.expr) {
                Some(Err(m)) => Some(Err(m)),
                Some(Ok(t)) => match first {
                    None => arms_outcome(d, b, vt, arms, i + 1, Some(t)),
                    Some(ex) => if assignable(ex, t, byte_literal(arm.expr)) {
                        arms_outcome(d, b, vt, arms, i + 1, Some(ex))
                    } else if assignable(t, ex, byte_literal(arm.expr)) {
                        arms_outcome(d, b, vt, arms, i + 1, Some(t))
                    } else {
                        Some(Err("match arms must have matching types, found "@ + display_name(ex) + " and "@ + display_name(t)))
                    },
                },
                None => None,
            }
        }
    }
}

/// A checked type agrees with an outcome: the same type, or an error with
/// the same message.
pub open spec fn agrees(r: Result<Type, CompileError>, o: Result<TypeModel, Seq<char>>) -> bool {
    match o {
        Ok(t) => r matches Ok(x) && x@ == t,
        Err(m) => r matches Err(e) && e.message@ == m,
    }
}

/// A statement's result agrees with an outcome: success, or an error with
/// the same message.
pub open spec fn unit_agrees(r: Result<(), CompileError>, o: Result<(), Seq<char>>) -> bool {
    match o {
        Ok(()) => r is Ok,
        Err(m) => r matches Err(e) && e.message@ == m,
    }
}

/// Declaring a name: `_` declares nothing, and a name already in scope is
/// an error.
pub open spec fn define_outcome(b: Bindings, name: Seq<char>, t: TypeModel, mutable: bool) -> (Result<(), Seq<char>>, Bindings) {
    if name == "_"@ {
        (Ok(()), b)
    } else if b.dom().contains(name) {
        (Err("variable `"@ + name + "` is already defined"@), b)
    } else {
        (Ok(()), b.insert(name, (t, mutable)))
    }
}

pub open spec fn lambda_message() -> Seq<char> {
    "lambda type cannot be inferred; provide a function type annotation or pass it to a typed function parameter"@
}

/// `const` or `let` of a plain value, with or without an annotation.
pub open spec fn binding_outcome(d: Decls, b: Bindings, name: Seq<char>, annotation: Option<TypeModel>, expr: Expr, mutable: bool) -> Option<(
    Result<(), Seq<char>>,
    Bindings,
)> {
    if expr is Lambda {
        if annotation is None {
            Some((Err(lambda_message()), b))
        } else {
            None
        }
    } else if expr is TryResult {
        None
    } else {
        match annotation {
            None => match expr_outcome(d, b, expr) {
                Some(Ok(t)) => Some(define_outcome(b, name, t, mutable)),
                Some(Err(m)) => Some((Err(m), b)),
                None => None,
            },
            Some(a) => match resolved(d.env, Set::empty(), a) {
                Err(m) => Some((Err(m), b)),
                Ok(rt) => match expr_outcome(d, b, expr) {
                    Some(Ok(t)) => if assignable(rt, t, byte_literal(expr)) {
                        Some(define_outcome(b, name, rt, mutable))
                    } else {
                        Some((Err("type annotation mismatch: expected "@ + display_name(rt) + ", found "@ + display_name(t)), b))
                    },
                    Some(Err(m)) => Some((Err(m), b)),
                    None => None,
                },
            },
        }
    }
}

/// `name = expr` of a plain value.
pub open spec fn assign_outcome(d: Decls, b: Bindings, name: Seq<char>, expr: Expr) -> Option<Result<(), Seq<char>>> {
    if name == "_"@ {
        match expr_outcome(d, b, expr) {
            Some(Ok(_)) => Some(Ok(())),
            Some(Err(m)) => Some(Err(m)),
            None => None,
        }
    } else {
        match lookup_in(b, name) {
            None => Some(Err("cannot assign to undefined variable `"@ + name + "`"@)),
            Some((ty, mutable)) => if expr is Lambda {
                None
            } else {
                match expr_outcome(d, b, expr) {
                    Some(Err(m)) => Some(Err(m)),
                    Some(Ok(t)) => if !mutable {
                        Some(Err("cannot assign to const `"@ + name + "`"@))
                    } else if !assignable(ty, t, byte_literal(expr)) {
                        Some(Err("type mismatch for `"@ + name + "`: expected "@ + display_name(ty) + ", found "@ + display_name(t)))
                    } else {
                        Some(Ok(()))
                    },
                    None => None,
                }
            },
        }
    }
}

/// The type an annotation names, as written.
pub open spec fn annotation_model(annotation: Option<Type>) -> Option<TypeModel> {
    match annotation {
        Some(a) => Some(a@),
        None => None,
    }
}

/// The outcome of a plain statement and the variables in scope after it.
pub open spec fn stmt_outcome(d: Decls, b: Bindings, st: Statement) -> Option<(Result<(), Seq<char>>, Bindings)> {
    if shell_statement(st) {
        Some((Err(unsafe_execution_message()), b))
    } else {
        match st {
            Statement::Use { .. } | Statement::Break | Statement::Continue => Some((Ok(()), b)),
            Statement::Const { name, annotation, expr } => binding_outcome(d, b, name@, annotation_model(annotation), expr, false),
            Statement::Let { name, annotation, expr } => binding_outcome(d, b, name@, annotation_model(annotation), expr, true),
            Statement::Assign { target, expr } => match target {
                AssignTarget::Name(n) => match assign_outcome(d, b, n@, expr) {
                    Some(o) => Some((o, b)),
                    None => None,
                },
                _ => Some((Err("assignment target is not supported by the checker"@), b)),
            },
            Statement::Return(_) => if d.expected_return is None {
                Some((Err("return is only valid inside a function"@), b))
            } else {
                None
            },
            Statement::Expr(e) => if e is ArrayPush || e is ArrayPop || e is MapSet || e is MapRemove {
                None
            } else {
                match expr_outcome(d, b, e) {
                    Some(Ok(_)) => Some((Ok(()), b)),
                    Some(Err(m)) => Some((Err(m), b)),
                    None => None,
                }
            },
            Statement::InherentImpl { .. } => Some((Err("inherent impl blocks are not supported by the checker"@), b)),
            _ => None,
        }
    }
}

/// The outcome of the statements from the `i`-th of the first `n`: the
/// line and message of the first error, where every statement up to it is
/// plain.
pub open spec fn block_from(d: Decls, b: Bindings, stmts: Seq<Statement>, lines: Seq<usize>, i: int, n: int) -> Option<Result<(), (usize, Seq<char>)>>
    decreases n - i,
{
    if i >= n || i < 0 {
        Some(Ok(()))
    } else {
        match stmt_outcome(d, b, stmts[i]) {
            None => None,
            Some((Err(m), _)) => Some(Err((lines[i], m))),
            Some((Ok(()), nb)) => block_from(d, nb, stmts, lines, i + 1, n),
        }
    }
}

/// A block's result agrees with an outcome: success, or an error at the
/// same line with the same message.
pub open spec fn block_agrees(r: Result<(), CompileError>, o: Result<(), (usize, Seq<char>)>) -> bool {
    match o {
        Ok(()) => r is Ok,
        Err((l, m)) => r matches Err(e) && e.line == l && e.message@ == m,
    }
}

/// The declarations a fresh checker starts from: only the built-in type
/// `CmdError`.
pub open spec fn initial_decls() -> Decls {
    Decls {
        variants: Map::empty(),
        functions: Map::empty(),
        expected_return: None,
        env: TypeEnv {
            types: Map::empty().insert("CmdError"@, crate::type_utils::cmd_error_model()),
            generic_types: Map::empty(),
        },
        sum_types: Map::empty(),
    }
}

} // verus!
