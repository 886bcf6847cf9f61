//! The types of expressions.

use vstd::prelude::*;
use vstd::string::StringExecFns;
use vstd::string::StrSliceExecFns;

use crate::ast::{display_name, lemma_type_model_tags, lemma_types_model, type_model, types_model, BinaryOp, Expr, MatchArm, Type, TypeModel};
use crate::checker::messages::{about, about_name_types, about_type, about_types, fixed, no_method, undefined_variable, undefined_variable_message};
use crate::checker::relations::{assignable, assignable_types_pub, byte_literal, comparable, integer_numeric, numeric, string_like, types_equal};
use crate::checker::scope::signature_type;
use crate::checker::{FunctionSig, TypeChecker};
use crate::collections::Duplicate;
use crate::error::CompileError;
use crate::text::{decimal_string, str_eq};
use crate::type_utils::{default_success_type, option_element_type, result_types};
use crate::policy::{allows_command, may_read, may_write, PolicyModel};
use crate::validation::{interpolation_names, unsafe_execution_error, unsafe_execution_message};

verus! {

/// `Option[t]`.
pub fn option_of(t: Type) -> (r: Type)
    ensures
        r@ == TypeModel::Applied("Option"@, seq![t@]),
{
    let mut args: Vec<Type> = Vec::new();
    args.push(t);
    proof {
        lemma_types_model(args@);
        assert(types_model(args@) =~= seq![type_model(args@[0])]);
    }
    Type::Applied(String::from_str("Option"), args)
}

/// `Result[ok, err]`.
pub fn result_of(ok: Type, err: Type) -> (r: Type)
    ensures
        r@ == TypeModel::Applied("Result"@, seq![ok@, err@]),
{
    let mut args: Vec<Type> = Vec::new();
    args.push(ok);
    args.push(err);
    proof {
        lemma_types_model(args@);
        assert(types_model(args@) =~= seq![type_model(args@[0]), type_model(args@[1])]);
    }
    Type::Applied(String::from_str("Result"), args)
}

/// The result type of a binary operator on operands of the given types,
/// or the message that rejects them.
pub open spec fn operands_message(op: BinaryOp, requirement: Seq<char>, left: TypeModel, right: TypeModel) -> Seq<char> {
    "operator `"@ + crate::ast::op_text(op) + "` requires "@ + requirement + " operands, found "@ + display_name(left) + " and "@ + display_name(right)
}

pub open spec fn binary_result(op: BinaryOp, left: TypeModel, right: TypeModel) -> Result<TypeModel, Seq<char>> {
    match op {
        BinaryOp::Add | BinaryOp::Sub | BinaryOp::Mul | BinaryOp::Div => if numeric(left) && numeric(right) {
            if left is Float || right is Float { Ok(TypeModel::Float) } else { Ok(TypeModel::Int) }
        } else {
            Err(operands_message(op, "numeric"@, left, right))
        },
        BinaryOp::Mod | BinaryOp::BitAnd | BinaryOp::BitOr | BinaryOp::BitXor | BinaryOp::Shl | BinaryOp::Shr =>
            if integer_numeric(left) && integer_numeric(right) {
                Ok(TypeModel::Int)
            } else {
                Err(operands_message(op, "Int"@, left, right))
            },
        BinaryOp::Concat => if string_like(left) && string_like(right) {
            Ok(TypeModel::String)
        } else {
            Err(operands_message(op, "String or Path"@, left, right))
        },
        BinaryOp::Eq | BinaryOp::Ne => if comparable(left, right) {
            Ok(TypeModel::Bool)
        } else {
            Err("operator `"@ + crate::ast::op_text(op) + "` requires matching operand types, found "@ + display_name(left) + " and "@ + display_name(right))
        },
        BinaryOp::Lt | BinaryOp::Le | BinaryOp::Gt | BinaryOp::Ge => if numeric(left) && numeric(right) {
            Ok(TypeModel::Bool)
        } else {
            Err(operands_message(op, "numeric"@, left, right))
        },
        BinaryOp::And | BinaryOp::Or => if left == TypeModel::Bool && right == TypeModel::Bool {
            Ok(TypeModel::Bool)
        } else {
            Err(operands_message(op, "Bool"@, left, right))
        },
    }
}

/// What a binary operator's result type can be, whatever its operands.
pub open spec fn binary_fits(op: BinaryOp, t: TypeModel) -> bool {
    match op {
        BinaryOp::Add | BinaryOp::Sub | BinaryOp::Mul | BinaryOp::Div => t == TypeModel::Int || t == TypeModel::Float,
        BinaryOp::Mod | BinaryOp::BitAnd | BinaryOp::BitOr | BinaryOp::BitXor | BinaryOp::Shl | BinaryOp::Shr => t == TypeModel::Int,
        BinaryOp::Concat => t == TypeModel::String,
        _ => t == TypeModel::Bool,
    }
}

/// `Array[String]`.
pub open spec fn strings_model() -> TypeModel {
    TypeModel::Array(Box::new(TypeModel::String))
}

/// `Map[String, String]`.
pub open spec fn string_map_model() -> TypeModel {
    TypeModel::Mapping(Box::new(TypeModel::String), Box::new(TypeModel::String))
}

/// `Array[String]`, the type of a list of lines or arguments.
pub fn strings_type() -> (t: Type)
    ensures
        t@ == strings_model(),
{
    let t = Type::Array(Box::new(Type::String));
    proof {
        reveal_with_fuel(type_model, 2);
    }
    t
}

/// `Map[String, String]`, the type of parsed flags and JSON objects.
pub fn string_map_type() -> (t: Type)
    ensures
        t@ == string_map_model(),
{
    let t = Type::Mapping(Box::new(Type::String), Box::new(Type::String));
    proof {
        reveal_with_fuel(type_model, 2);
    }
    t
}

/// The type that an expression of this form has whenever it checks, where the
/// form alone fixes it.
pub open spec fn form_type(expr: Expr) -> Option<TypeModel> {
    match expr {
        Expr::Int(_) | Expr::BitNot(_) | Expr::Len(_) | Expr::StringLen(_) | Expr::ArrayLenValue(_)
        | Expr::MapLenValue(_) | Expr::StringLenValue(_) | Expr::ArrayIndexOf { .. } | Expr::ArrayIndexOfValue { .. }
        | Expr::StringIndexOf { .. } | Expr::StringIndexOfValue { .. } | Expr::FsSize { .. } => Some(TypeModel::Int),
        Expr::Float(_) => Some(TypeModel::Float),
        Expr::Bool(_) | Expr::HasCommand(_) | Expr::Not(_) | Expr::IsEmpty(_) | Expr::StringIsEmpty(_)
        | Expr::ArrayIsEmptyValue(_) | Expr::MapIsEmptyValue(_) | Expr::StringIsEmptyValue(_)
        | Expr::ArrayContains { .. } | Expr::ArrayContainsValue { .. } | Expr::MapHas { .. } | Expr::MapHasValue { .. }
        | Expr::StringContains { .. } | Expr::StringContainsValue { .. } | Expr::StringStartsWith { .. }
        | Expr::StringStartsWithValue { .. } | Expr::StringEndsWith { .. } | Expr::StringEndsWithValue { .. }
        | Expr::PathIsAbsolute(_) | Expr::PathIsAbsoluteValue(_) | Expr::PathExists(_) | Expr::FsIsFile { .. }
        | Expr::FsIsDir { .. } | Expr::MatchGuardResult(_) => Some(TypeModel::Bool),
        Expr::String(_) | Expr::RawString(_) | Expr::Env(_) | Expr::EnvDefault { .. } | Expr::StringRepeat { .. }
        | Expr::StringRepeatValue { .. } | Expr::StringReplace { .. } | Expr::StringReplaceValue { .. }
        | Expr::StringTrim(_) | Expr::StringTrimValue(_) | Expr::StringTrimStart(_) | Expr::StringTrimStartValue(_)
        | Expr::StringTrimEnd(_) | Expr::StringTrimEndValue(_) | Expr::StringToUpper(_) | Expr::StringToUpperValue(_)
        | Expr::StringToLower(_) | Expr::StringToLowerValue(_) | Expr::PathBasename(_) | Expr::PathBasenameValue(_)
        | Expr::PathDirname(_) | Expr::PathDirnameValue(_) | Expr::PathStem(_) | Expr::PathStemValue(_)
        | Expr::PathExtname(_) | Expr::PathExtnameValue(_) | Expr::Join { .. } | Expr::JoinValue { .. }
        | Expr::JsonStringify { .. } | Expr::JsonStringifyValue { .. } | Expr::ProcessEnv { .. }
        | Expr::StringSliceValue { .. } | Expr::AllowedCommand { .. } => Some(TypeModel::String),
        Expr::Unit | Expr::FsWriteLines { .. } | Expr::FsAppendLines { .. } => Some(TypeModel::Unit),
        Expr::ProcessArgs | Expr::FsReadLines { .. } | Expr::FsList { .. } | Expr::StringSplit { .. }
        | Expr::StringSplitValue { .. } => Some(strings_model()),
        Expr::CliParse | Expr::JsonParse { .. } => Some(string_map_model()),
        Expr::OptionNone => Some(TypeModel::Applied("Option"@, seq![TypeModel::Unit])),
        _ => None,
    }
}

/// What the type of an expression of this form looks like whenever it checks.
pub open spec fn form_shape(expr: Expr, t: TypeModel) -> bool {
    match expr {
        Expr::Binary { op, .. } => binary_fits(op, t),
        Expr::Array(_) | Expr::ArrayReverseValue(_) | Expr::ArraySortValue(_) | Expr::ArrayUniqueValue(_)
        | Expr::MapKeysValue(_) | Expr::MapValuesValue(_) | Expr::ArrayTakeValue { .. } | Expr::ArrayDropValue { .. }
        | Expr::ArraySliceValue { .. } => t is Array,
        Expr::MapLiteral(_) => t is Mapping,
        Expr::Record(fields) => t is Record && t->Record_0.len() == fields@.len(),
        Expr::Tuple(values) => t is Tuple && t->Tuple_0.len() == values@.len(),
        Expr::OptionSome(_) => t matches TypeModel::Applied(n, a) && n == "Option"@ && a.len() == 1,
        Expr::ResultOk(_) | Expr::ResultErr(_) | Expr::DefaultTry { .. } | Expr::ResultMap { .. } | Expr::ResultMapValue { .. }
        | Expr::ResultFlatMap { .. } | Expr::ResultFlatMapValue { .. } | Expr::ResultAp { .. } | Expr::ResultApValue { .. }
        | Expr::OptionOrElseTry { .. } => t matches TypeModel::Applied(n, a) && n == "Result"@ && a.len() == 2,
        Expr::OptionMap { .. } | Expr::OptionMapValue { .. } =>
            t matches TypeModel::Applied(n, a) && n == "Option"@ && a.len() == 1,
        Expr::OptionApValue { .. } => t matches TypeModel::Applied(n, a) && ((n == "Option"@ && a.len() == 1) || (n
            == "Result"@ && a.len() == 2)),
        Expr::OptionOrElseValue { .. } => crate::type_utils::option_element(t) is Some,
        _ => true,
    }
}

/// An expression that the policy forbids outright, whatever surrounds it:
/// a shell command, a filesystem read where no read root is allowed, a
/// filesystem write where no write root is, or a command the policy does not
/// list.
pub open spec fn denied_by(policy: PolicyModel, expr: Expr) -> bool {
    ||| runs_shell(expr)
    ||| reads_files(expr) && !may_read(policy)
    ||| writes_files(expr) && !may_write(policy)
    ||| expr matches Expr::AllowedCommand { group, command, .. } && !allows_command(policy, group@, command@)
}

/// A shell command or pipeline.
pub open spec fn runs_shell(expr: Expr) -> bool {
    expr is Command || expr is CommandResult || expr is AsyncCommand || expr is Pipeline || expr is TryPipeline
        || expr is PipelineResult
}

/// A filesystem query.
pub open spec fn reads_files(expr: Expr) -> bool {
    expr is PathExists || expr is FsIsFile || expr is FsIsDir || expr is FsSize || expr is FsReadLines || expr is FsList
}

/// A filesystem write.
pub open spec fn writes_files(expr: Expr) -> bool {
    expr is FsWriteLines || expr is FsAppendLines
}

/// The message with which a form is always rejected.
pub open spec fn rejected_form(expr: Expr) -> Option<Seq<char>> {
    match expr {
        Expr::RecordPattern(_) => Some("record patterns are only valid in match arms"@),
        Expr::Lambda { .. } => Some(
            "lambda type cannot be inferred; provide a function type annotation or pass it to a typed function parameter"@,
        ),
        Expr::Closure { .. } => Some("internal closure expression cannot appear in source"@),
        Expr::ArrayPush { .. } => Some("push is only valid as a statement"@),
        Expr::ArrayPop { .. } => Some("pop is only valid as a statement"@),
        Expr::Command { .. } | Expr::CommandResult { .. } | Expr::AsyncCommand(_) | Expr::Pipeline { .. }
        | Expr::TryPipeline { .. } | Expr::PipelineResult { .. } => Some(unsafe_execution_message()),
        Expr::Match { arms, .. } => if arms@.len() == 0 {
            Some("match expression requires at least one arm"@)
        } else {
            None
        },
        Expr::Async(_) | Expr::Range { .. } | Expr::ArrayPattern { .. } | Expr::AliasPattern { .. } | Expr::NamedArg { .. } | Expr::ArrayFilter { .. } | Expr::ArrayFilterValue { .. } | Expr::ArrayFlatMap { .. }
        | Expr::ArrayFlatMapValue { .. } | Expr::ArrayFind { .. } | Expr::ArrayFindValue { .. } | Expr::ArrayAny { .. }
        | Expr::ArrayAnyValue { .. } | Expr::ArrayAll { .. } | Expr::ArrayAllValue { .. } | Expr::ArrayFold { .. }
        | Expr::ArrayFoldValue { .. } => Some("expression is not supported by the checker"@),
        _ => None,
    }
}

fn operands_error(line: usize, op: BinaryOp, requirement: &str, left: &Type, right: &Type) -> (e: CompileError)
    ensures
        e.line == line,
        e.message@ == operands_message(op, requirement@, left@, right@),
{
    let mut message = String::from_str("operator `");
    message.append(op.bash());
    message.append("` requires ");
    message.append(requirement);
    message.append(" operands, found ");
    message.append(left.name().as_str());
    message.append(" and ");
    message.append(right.name().as_str());
    CompileError::new(line, message)
}

impl TypeChecker {
    /// The type of a binary operation whose operands have the given types.
    pub fn binary_type(&self, op: BinaryOp, left: &Type, right: &Type, line: usize) -> (r: Result<Type, CompileError>)
        ensures
            r matches Ok(t) ==> binary_result(op, left@, right@) == Ok::<TypeModel, Seq<char>>(t@),
            r matches Err(e) ==> e.line == line && binary_result(op, left@, right@) == Err::<TypeModel, Seq<char>>(e.message@),
    {
        proof {
            lemma_type_model_tags(*left);
            lemma_type_model_tags(*right);
        }
        match op {
            BinaryOp::Add | BinaryOp::Sub | BinaryOp::Mul | BinaryOp::Div => {
                if self.is_numeric(left) && self.is_numeric(right) {
                    if matches!(left, Type::Float) || matches!(right, Type::Float) {
                        Ok(Type::Float)
                    } else {
                        Ok(Type::Int)
                    }
                } else {
                    Err(operands_error(line, op, "numeric", left, right))
                }
            },
            BinaryOp::Mod | BinaryOp::BitAnd | BinaryOp::BitOr | BinaryOp::BitXor | BinaryOp::Shl | BinaryOp::Shr => {
                if self.is_integer_numeric(left) && self.is_integer_numeric(right) {
                    Ok(Type::Int)
                } else {
                    Err(operands_error(line, op, "Int", left, right))
                }
            },
            BinaryOp::Concat => {
                if self.is_string_like(left) && self.is_string_like(right) {
                    Ok(Type::String)
                } else {
                    Err(operands_error(line, op, "String or Path", left, right))
                }
            },
            BinaryOp::Eq | BinaryOp::Ne => {
                if self.is_comparable_by_equality(left, right) {
                    Ok(Type::Bool)
                } else {
                    let mut message = String::from_str("operator `");
                    message.append(op.bash());
                    message.append("` requires matching operand types, found ");
                    message.append(left.name().as_str());
                    message.append(" and ");
                    message.append(right.name().as_str());
                    Err(CompileError::new(line, message))
                }
            },
            BinaryOp::Lt | BinaryOp::Le | BinaryOp::Gt | BinaryOp::Ge => {
                if self.is_numeric(left) && self.is_numeric(right) {
                    Ok(Type::Bool)
                } else {
                    Err(operands_error(line, op, "numeric", left, right))
                }
            },
            BinaryOp::And | BinaryOp::Or => {
                if matches!(left, Type::Bool) && matches!(right, Type::Bool) {
                    Ok(Type::Bool)
                } else {
                    Err(operands_error(line, op, "Bool", left, right))
                }
            },
        }
    }

    /// What a bare name denotes: a variant without fields, a variable, or a
    /// declared function.
    pub open spec fn ident_result(&self, name: Seq<char>) -> Result<TypeModel, Seq<char>> {
        if self.variants.view().dom().contains(name) && self.variants.view()[name].1.len() == 0 {
            Ok(TypeModel::Named(self.variants.view()[name].0))
        } else {
            match self.lookup(name) {
                Some((t, _)) => Ok(t),
                None => if self.functions.view().dom().contains(name) {
                    Ok(signature_type(self.functions.view()[name]))
                } else {
                    Err(undefined_variable_message(name))
                },
            }
        }
    }

    /// Every variable that the interpolations of a string read is in scope.
    pub open spec fn interpolations_bound(&self, value: Seq<char>) -> bool {
        match crate::validation::interpolations_from(value, 0) {
            Ok(names) => forall|i: int| 0 <= i < names.len() ==> #[trigger] self.bindings.view().dom().contains(names[i]),
            Err(_) => false,
        }
    }

    /// Whether a form that reads one variable by name checks: its variable's
    /// type alone decides it.
    pub open spec fn named_form_checks(&self, expr: Expr) -> Option<bool> {
        match expr {
            Expr::Len(n) | Expr::StringLen(n) | Expr::IsEmpty(n) | Expr::StringIsEmpty(n) => Some(
                self.lookup(n@) matches Some((ty, _)) && (ty is Array || ty is Mapping || string_like(ty)),
            ),
            Expr::ArrayFirst(n) | Expr::ArrayLast(n) | Expr::ArrayReverse(n) | Expr::ArrayUnique(n) => Some(
                self.lookup(n@) matches Some((TypeModel::Array(_), _)),
            ),
            Expr::ArraySort(n) => Some(self.lookup(n@) matches Some((TypeModel::Array(e), _)) && string_like(*e)),
            Expr::MapKeys(n) | Expr::MapValues(n) => Some(self.lookup(n@) matches Some((TypeModel::Mapping(_, _), _))),
            Expr::JsonStringify { name } => Some(
                self.lookup(name@) matches Some((TypeModel::Mapping(k, v), _)) && *k == TypeModel::String
                    && *v == TypeModel::String,
            ),
            Expr::Await(n) => Some(self.lookup(n@) matches Some((TypeModel::Future(_), _))),
            Expr::Value(n) => Some(self.bindings.view().dom().contains(n@) && self.bindings.view()[n@].0 is Brand),
            _ => None,
        }
    }

    /// The type of a form that reads one variable by name, when it checks.
    pub open spec fn named_form_type(&self, expr: Expr) -> Option<TypeModel> {
        match expr {
            Expr::ArrayFirst(n) | Expr::ArrayLast(n) => match self.lookup(n@) {
                Some((TypeModel::Array(e), _)) => Some(*e),
                _ => None,
            },
            Expr::ArrayReverse(n) | Expr::ArrayUnique(n) | Expr::ArraySort(n) => match self.lookup(n@) {
                Some((ty, _)) => Some(ty),
                None => None,
            },
            Expr::MapKeys(n) => match self.lookup(n@) {
                Some((TypeModel::Mapping(k, _), _)) => Some(TypeModel::Array(k)),
                _ => None,
            },
            Expr::MapValues(n) => match self.lookup(n@) {
                Some((TypeModel::Mapping(_, v), _)) => Some(TypeModel::Array(v)),
                _ => None,
            },
            Expr::Await(n) => match self.lookup(n@) {
                Some((TypeModel::Future(v), _)) => Some(*v),
                _ => None,
            },
            Expr::Value(n) => if self.bindings.view().dom().contains(n@) {
                match self.bindings.view()[n@].0 {
                    TypeModel::Brand { base, .. } => Some(*base),
                    _ => None,
                }
            } else {
                None
            },
            Expr::Index { name, .. } => match self.lookup(name@) {
                Some((TypeModel::Array(e), _)) => Some(*e),
                Some((TypeModel::Mapping(_, v), _)) => Some(*v),
                _ => None,
            },
            Expr::ArrayTake { name, .. } | Expr::ArrayDrop { name, .. } => match self.lookup(name@) {
                Some((ty, _)) => Some(ty),
                None => None,
            },
            _ => None,
        }
    }

    pub fn check_ident(&self, name: &str, line: usize) -> (r: Result<Type, CompileError>)
        requires
            self.wf(),
        ensures
            r matches Ok(t) ==> self.ident_result(name@) == Ok::<TypeModel, Seq<char>>(t@),
            r matches Err(e) ==> e.line == line && self.ident_result(name@) == Err::<TypeModel, Seq<char>>(e.message@),
    {
        let key = String::from_str(name);
        match self.variants.get(&key) {
            Some(variant) => {
                if variant.fields.len() == 0 {
                    return Ok(Type::Named(variant.sum_type.clone()));
                }
            },
            None => {},
        }
        match self.lookup_binding(name) {
            Some(binding) => Ok(binding.ty),
            None => match self.functions.get(&key) {
                Some(sig) => Ok(sig.function_type()),
                None => Err(undefined_variable(line, name)),
            },
        }
    }

    /// Every `${name}` of a string literal must name a variable in scope.
    pub fn check_string_interpolations(&self, value: &str, line: usize) -> (r: Result<(), CompileError>)
        requires
            self.wf(),
        ensures
            r matches Err(e) ==> e.line == line,
            crate::validation::interpolations_from(value@, 0) matches Err(m) ==> (r matches Err(e) && e.message@ == m),
            crate::validation::interpolations_from(value@, 0) is Ok ==> (r is Ok <==> self.interpolations_bound(value@)),
    {
        let names = interpolation_names(value, line)?;
        let mut i: usize = 0;
        while i < names.len()
            invariant
                self.wf(),
                i <= names@.len(),
                crate::validation::interpolations_from(value@, 0) == Ok::<Seq<Seq<char>>, Seq<char>>(crate::validation::string_views(names@)),
                forall|j: int| 0 <= j < i ==> #[trigger] self.bindings.view().dom().contains(crate::validation::string_views(names@)[j]),
            decreases names.len() - i,
        {
            if !self.bindings.contains_key(&names[i]) {
                proof {
                    let read = crate::validation::interpolations_from(value@, 0)->Ok_0;
                    assert(read == crate::validation::string_views(names@));
                    assert(!self.bindings.view().dom().contains(read[i as int]));
                }
                return Err(about(line, "undefined variable `", names[i].as_str(), "` in string interpolation"));
            }
            i += 1;
        }
        Ok(())
    }

    /// A condition must have type `Bool`.
    pub fn check_condition(&self, condition: &Expr, line: usize) -> (r: Result<(), CompileError>)
        requires
            self.wf(),
        ensures
            self.forbids(*condition) ==> r is Err,
            r matches Err(e) ==> e.line == line,
            form_type(*condition) matches Some(t) ==> (t != TypeModel::Bool ==> r is Err),
            rejected_form(*condition) matches Some(m) ==> (r matches Err(e) && e.message@ == m),
            condition is Bool ==> r is Ok,
        decreases condition, 6nat,
    {
        let ty = self.check_expr(condition, line)?;
        if matches!(ty, Type::Bool) {
            Ok(())
        } else {
            Err(about_type(line, "condition must be Bool, found ", &ty, ""))
        }
    }

    /// The type of an expression.
    #[verifier::rlimit(40)]
    pub fn check_expr(&self, expr: &Expr, line: usize) -> (r: Result<Type, CompileError>)
        requires
            self.wf(),
        ensures
            r matches Err(e) ==> e.line == line,
            expr is Int ==> (r matches Ok(t) && t@ == TypeModel::Int),
            expr is Float ==> (r matches Ok(t) && t@ == TypeModel::Float),
            expr is Bool ==> (r matches Ok(t) && t@ == TypeModel::Bool),
            expr is Unit ==> (r matches Ok(t) && t@ == TypeModel::Unit),
            expr is HasCommand ==> (r matches Ok(t) && t@ == TypeModel::Bool),
            (expr is RawString || expr is Env || expr is EnvDefault) ==> (r matches Ok(t) && t@ == TypeModel::String),
            (expr is Command || expr is CommandResult || expr is AsyncCommand || expr is Pipeline
                || expr is TryPipeline || expr is PipelineResult) ==> (r matches Err(e) && e.message@ == unsafe_execution_message()),
            expr matches Expr::Ident(name) ==> match r {
                Ok(t) => self.ident_result(name@) == Ok::<TypeModel, Seq<char>>(t@),
                Err(e) => self.ident_result(name@) == Err::<TypeModel, Seq<char>>(e.message@),
            },
            (expr is PathExists || expr is FsIsFile || expr is FsIsDir || expr is FsSize || expr is FsReadLines || expr is FsList)
                && self.policy.read_roots@.len() == 0 ==> r is Err,
            (expr is FsWriteLines || expr is FsAppendLines) && self.policy.write_roots@.len() == 0 ==> r is Err,
            expr matches Expr::AllowedCommand { group, command, .. } ==> (
                crate::policy::command_index(self.policy.commands@, group@, command@) is None ==> r is Err),
            form_type(*expr) matches Some(ty) ==> (r matches Ok(t) ==> t@ == ty),
            r matches Ok(t) ==> form_shape(*expr, t@),
            denied_by(self.policy.model(), *expr) ==> r is Err,
            self.forbids(*expr) ==> r is Err,
            rejected_form(*expr) matches Some(m) ==> (r matches Err(e) && e.message@ == m),
            expr is TryResult && !self.binds_nested_tries ==> (r matches Err(e) && e.message@
                == "try propagation requires a Result-returning function or lambda"@),
            expr is TryResult && self.expected_return is None ==> r is Err,
            crate::checker::outcomes::expr_outcome(self.decls(), self.bindings.view(), *expr) matches Some(o)
                ==> crate::checker::outcomes::agrees(r, o),
            self.named_form_checks(*expr) matches Some(ok) ==> (r is Ok <==> ok),
            self.named_form_type(*expr) matches Some(ty) ==> (r matches Ok(t) ==> t@ == ty),
            expr matches Expr::Call { name, args } ==> (!self.variants.view().dom().contains(name@)
                && crate::text::last_index_of(name@, '.') is None ==> self.plain_call_facts(name@, args@.len() as int, r)),
            expr matches Expr::Call { name, args } ==> (self.variants.view().dom().contains(name@) ==> self.variant_facts(name@, args@.len(), r)),
            expr matches Expr::Variant { name, args, .. } ==> self.variant_facts(name@, args@.len(), r),
            expr matches Expr::Cast { ty, .. } ==> (r matches Ok(t) ==> crate::checker::resolve::resolved(
                self.type_env(),
                Set::empty(),
                ty@,
            ) == Ok::<TypeModel, Seq<char>>(t@)),
            expr matches Expr::IndexValue { value, .. } ==> (r is Ok ==> (**value is Array || **value is MapLiteral)),
            expr matches Expr::Slice { name, .. } ==> (r matches Ok(t) ==> (self.lookup(name@) matches Some((ty, _)) && ((ty is Array
                && t@ == ty) || (!(ty is Array) && string_like(ty) && t@ == TypeModel::String)))),
            expr matches Expr::Match { value, arms } ==> (form_type(**value) matches Some(vt) ==> (r is Ok ==> self.exhaustive(
                vt,
                arms@,
            ))),
            expr matches Expr::Do { steps, result } ==> (r matches Ok(t) ==> (crate::checker::sequencing::binds_something(steps@)
                || (**result matches Expr::Call { name, .. } && name@ == "pure"@)) ==> (crate::type_utils::option_element(t@) is Some
                || crate::type_utils::result_parts(t@) is Some)),
            expr matches Expr::String(v) ==> (crate::validation::interpolations_from(v@, 0) matches Err(m) ==> (r matches Err(e)
                && e.message@ == m)),
            expr matches Expr::String(v) ==> (crate::validation::interpolations_from(v@, 0) is Ok ==> (r is Ok
                <==> self.interpolations_bound(v@))),
        decreases expr, 5nat,
    {
        match expr {
            Expr::Int(_) => Ok(Type::Int),
            Expr::Float(_) => Ok(Type::Float),
            Expr::Bool(_) => Ok(Type::Bool),
            Expr::Unit => Ok(Type::Unit),
            Expr::OptionSome(value) => {
                let t = self.check_expr(value, line)?;
                Ok(option_of(t))
            },
            Expr::OptionNone => Ok(option_of(Type::Unit)),
            Expr::ResultOk(value) => {
                let t = self.check_expr(value, line)?;
                Ok(result_of(t, Type::Unit))
            },
            Expr::ResultErr(value) => {
                let t = self.check_expr(value, line)?;
                Ok(result_of(Type::Unit, t))
            },
            Expr::TryResult(value) => if self.binds_nested_tries {
                self.check_try_result_expr(value, line)
            } else {
                Err(fixed(line, "try propagation requires a Result-returning function or lambda"))
            },
            Expr::String(value) => {
                self.check_string_interpolations(value.as_str(), line)?;
                Ok(Type::String)
            },
            Expr::HasCommand(_) => Ok(Type::Bool),
            Expr::RecordPattern(_) => Err(fixed(line, "record patterns are only valid in match arms")),
            Expr::Lambda { .. } => Err(fixed(line, "lambda type cannot be inferred; provide a function type annotation or pass it to a typed function parameter")),
            Expr::Closure { .. } => Err(fixed(line, "internal closure expression cannot appear in source")),
            Expr::Value(name) => self.check_value_access(name.as_str(), line),
            Expr::Len(name) | Expr::StringLen(name) => self.check_len(name.as_str(), line),
            Expr::IsEmpty(name) | Expr::StringIsEmpty(name) => self.check_is_empty(name.as_str(), line),
            Expr::ArrayFirst(name) => self.check_array_edge(name.as_str(), "first", line),
            Expr::ArrayLast(name) => self.check_array_edge(name.as_str(), "last", line),
            Expr::ArrayReverse(name) => self.check_array_same(name.as_str(), "reverse", line),
            Expr::ArraySort(name) => self.check_array_sort(name.as_str(), line),
            Expr::ArrayUnique(name) => self.check_array_same(name.as_str(), "unique", line),
            Expr::MapKeys(name) => self.check_map_keys(name.as_str(), line),
            Expr::MapValues(name) => self.check_map_values(name.as_str(), line),
            Expr::JsonStringify { name } => self.check_json_stringify(name.as_str(), line),
            Expr::TupleField { name, field } => self.check_tuple_field(name.as_str(), *field, line),
            Expr::Field { name, field } => self.check_field(name.as_str(), field.as_str(), line),
            Expr::Await(name) => self.check_await(name.as_str(), line),
            Expr::ArrayPush { .. } => Err(fixed(line, "push is only valid as a statement")),
            Expr::ArrayPop { .. } => Err(fixed(line, "pop is only valid as a statement")),
            Expr::RawString(_) | Expr::Env(_) | Expr::EnvDefault { .. } => Ok(Type::String),
            Expr::Command { .. }
            | Expr::CommandResult { .. }
            | Expr::AsyncCommand(_)
            | Expr::Pipeline { .. }
            | Expr::TryPipeline { .. }
            | Expr::PipelineResult { .. } => Err(unsafe_execution_error(line)),
            Expr::ProcessArgs => Ok(strings_type()),
            Expr::CliParse => Ok(string_map_type()),
            Expr::Ident(name) => self.check_ident(name.as_str(), line),
            Expr::Not(inner) => {
                let ty = self.check_expr(inner, line)?;
                if matches!(ty, Type::Bool) {
                    Ok(Type::Bool)
                } else {
                    Err(about_type(line, "operator `!` requires Bool operand, found ", &ty, ""))
                }
            },
            Expr::BitNot(inner) => {
                let ty = self.check_expr(inner, line)?;
                if self.is_integer_numeric(&ty) {
                    Ok(Type::Int)
                } else {
                    Err(about_type(line, "operator `~` requires Int operands, found ", &ty, ""))
                }
            },
            Expr::Binary { left, op, right } => self.check_binary(left, *op, right, line, Ghost(*expr)),
            Expr::Array(values) => {
                proof {
                    crate::checker::forms::lemma_vec_owned(*expr, *values);
                }
                self.check_array(values.as_slice(), line)
            },
            Expr::MapLiteral(entries) => {
                assert(decreases_to!(*expr => *entries));
                assert(decreases_to!(*entries => entries@));
                self.check_map(entries.as_slice(), line)
            },
            Expr::Record(fields) => {
                assert(decreases_to!(*expr => *fields));
                assert(decreases_to!(*fields => fields@));
                self.check_record(fields.as_slice(), line)
            },
            Expr::Index { name, index } => self.check_index(name.as_str(), index, line),
            Expr::IndexValue { value, index } => self.check_index_value(value, index, line, Ghost(*expr)),
            Expr::Slice { name, start, end } | Expr::StringSlice { name, start, end } =>
                self.check_slice(name.as_str(), start, end, line, Ghost(*expr)),
            Expr::ArraySliceValue { value, start, end } => self.check_array_slice_value(value, start, end, line, Ghost(*expr)),
            Expr::StringSliceValue { value, start, end } => self.check_string_slice_value(value, start, end, line, Ghost(*expr)),
            Expr::TupleFieldValue { value, field } => self.check_tuple_field_value(value, *field, line),
            Expr::FieldValue { value, field } => self.check_field_value(value, field.as_str(), line),
            Expr::NewtypeCtor { name, value } => {
                if self.variants.contains_key(name) {
                    let args: Vec<&Expr> = vec![&**value];
                    proof {
                        crate::checker::forms::lemma_parts_owned(*expr, seq![**value], args@);
                    }
                    let r = self.variant_in(name.as_str(), args.as_slice(), line, Ghost(*expr));
                    proof {
                        if r is Ok {
                            assert(*args@[0] == **value);
                        }
                    }
                    r
                } else {
                    self.newtype_ctor_in(name.as_str(), value, line, Ghost(*expr))
                }
            },
            Expr::Variant { name, args, .. } => {
                let refs = crate::collections::refs_of(args);
                proof {
                    crate::checker::calls::lemma_refs_owned(*expr, *args, refs@);
                }
                let r = self.variant_in(name.as_str(), refs.as_slice(), line, Ghost(*expr));
                proof {
                    if r is Ok {
                        self.lemma_refs_pass(*args, refs@);
                        crate::checker::inspected::lemma_any_denied(self.policy.model(), args@);
                    }
                }
                r
            },
            Expr::Call { name, args } => {
                let refs = crate::collections::refs_of(args);
                proof {
                    crate::checker::calls::lemma_refs_owned(*expr, *args, refs@);
                }
                let r = if self.variants.contains_key(name) {
                    self.variant_in(name.as_str(), refs.as_slice(), line, Ghost(*expr))
                } else {
                    self.call_in(name.as_str(), refs.as_slice(), line, Ghost(*expr))
                };
                proof {
                    if r is Ok {
                        self.lemma_refs_pass(*args, refs@);
                        crate::checker::inspected::lemma_any_denied(self.policy.model(), args@);
                    }
                }
                r
            },
            Expr::Cast { expr: inner, ty } => self.check_cast(inner, ty, line),
            Expr::ResultOption(value) => self.check_result_option(value, line),
            Expr::Default { value, fallback } => self.check_default(value, fallback, line, Ghost(*expr)),
            Expr::DefaultTry { value, fallback } => self.check_default_try(value, fallback, line, Ghost(*expr)),
            Expr::AllowedCommand { group, command, args, .. } => {
                let refs = crate::collections::refs_of(args);
                proof {
                    crate::checker::calls::lemma_refs_owned(*expr, *args, refs@);
                    crate::policy::lemma_command_index_absent(self.policy, group@, command@);
                }
                let r = self.check_allowed_command(group.as_str(), command.as_str(), refs.as_slice(), line, Ghost(*expr));
                proof {
                    if r is Ok {
                        self.lemma_refs_pass(*args, refs@);
                        crate::checker::inspected::lemma_any_denied(self.policy.model(), args@);
                    }
                }
                r
            },
            Expr::PathExists(path) => {
                self.require_read_access("pathExists", line)?;
                self.check_path_exists(path, line)
            },
            Expr::ProcessEnv { name } => self.check_process_env(name, line),
            Expr::JsonParse { value } => self.check_json_parse(value, line),
            Expr::JsonStringifyValue { value } => self.check_json_stringify_value(value, line),
            Expr::LetIn { name, annotation, value, body } =>
                self.check_let_in(name.as_str(), annotation.as_ref(), value, body, line, Ghost(*expr)),
            Expr::ArrayLenValue(value) => {
                self.check_array_value(value, "len", line)?;
                Ok(Type::Int)
            },
            Expr::MapLenValue(value) => {
                self.check_map_value(value, "len", line)?;
                Ok(Type::Int)
            },
            Expr::StringLenValue(value) => {
                self.check_string_transform_value(value, "len", line)?;
                Ok(Type::Int)
            },
            Expr::ArrayIsEmptyValue(value) => {
                self.check_array_value(value, "isEmpty", line)?;
                Ok(Type::Bool)
            },
            Expr::MapIsEmptyValue(value) => {
                self.check_map_value(value, "isEmpty", line)?;
                Ok(Type::Bool)
            },
            Expr::StringIsEmptyValue(value) => {
                self.check_string_transform_value(value, "isEmpty", line)?;
                Ok(Type::Bool)
            },
            Expr::ArrayFirstValue(value) => self.check_array_edge_value(value, "first", line),
            Expr::ArrayLastValue(value) => self.check_array_edge_value(value, "last", line),
            Expr::ArrayReverseValue(value) => self.check_array_transform_value(value, "reverse", line),
            Expr::ArraySortValue(value) => self.check_array_sort_value(value, line),
            Expr::ArrayUniqueValue(value) => self.check_array_transform_value(value, "unique", line),
            Expr::ArrayMap { name, mapper } => {
                if self.is_qualified_function_call(name.as_str(), "map") {
                    return self.qualified_call(name.as_str(), "map", mapper, line, Ghost(*expr));
                }
                match self.lookup_binding(name.as_str()) {
                    Some(binding) => {
                        if option_element_type(&binding.ty).is_some() {
                            let (_, mapped) = self.check_option_map(name.as_str(), mapper, line)?;
                            return Ok(option_of(mapped));
                        }
                        if result_types(&binding.ty).is_some() {
                            let (_, error, mapped) = self.check_result_map(name.as_str(), mapper, line)?;
                            return Ok(result_of(mapped, error));
                        }
                    },
                    None => {},
                }
                let (_, mapped) = self.check_array_map(name.as_str(), mapper, line)?;
                Ok(Type::Array(Box::new(mapped)))
            },
            Expr::ArrayMapValue { value, mapper } => {
                let value_ty = self.check_expr(value, line)?;
                if option_element_type(&value_ty).is_some() {
                    let (_, mapped) = self.check_option_map_value(value, mapper, line, Ghost(*expr))?;
                    Ok(option_of(mapped))
                } else if result_types(&value_ty).is_some() {
                    let (_, error, mapped) = self.check_result_map_value(value, mapper, line, Ghost(*expr))?;
                    Ok(result_of(mapped, error))
                } else {
                    let (_, mapped) = self.check_array_map_value(value, mapper, line, Ghost(*expr))?;
                    Ok(Type::Array(Box::new(mapped)))
                }
            },
            Expr::OptionMap { name, mapper } => {
                let (_, mapped) = self.check_option_map(name.as_str(), mapper, line)?;
                Ok(option_of(mapped))
            },
            Expr::OptionMapValue { value, mapper } => {
                let (_, mapped) = self.check_option_map_value(value, mapper, line, Ghost(*expr))?;
                Ok(option_of(mapped))
            },
            Expr::ResultMap { name, mapper } => {
                let (_, error, mapped) = self.check_result_map(name.as_str(), mapper, line)?;
                Ok(result_of(mapped, error))
            },
            Expr::ResultMapValue { value, mapper } => {
                let (_, error, mapped) = self.check_result_map_value(value, mapper, line, Ghost(*expr))?;
                Ok(result_of(mapped, error))
            },
            Expr::OptionFlatMap { name, mapper } => {
                if self.is_qualified_function_call(name.as_str(), "flatMap") {
                    return self.qualified_call(name.as_str(), "flatMap", mapper, line, Ghost(*expr));
                }
                let on_result = match self.lookup_binding(name.as_str()) {
                    Some(binding) => result_types(&binding.ty).is_some(),
                    None => false,
                };
                if on_result {
                    let (_, _, result) = self.check_result_flat_map(name.as_str(), mapper, line)?;
                    Ok(result)
                } else {
                    let (_, mapped) = self.check_option_flat_map(name.as_str(), mapper, line)?;
                    Ok(mapped)
                }
            },
            Expr::OptionFlatMapValue { value, mapper } => {
                let value_ty = self.check_expr(value, line)?;
                if result_types(&value_ty).is_some() {
                    let (_, _, result) = self.check_result_flat_map_value(value, mapper, line, Ghost(*expr))?;
                    Ok(result)
                } else {
                    let (_, mapped) = self.check_option_flat_map_value(value, mapper, line, Ghost(*expr))?;
                    Ok(mapped)
                }
            },
            Expr::ResultFlatMap { name, mapper } => {
                let (_, _, result) = self.check_result_flat_map(name.as_str(), mapper, line)?;
                Ok(result)
            },
            Expr::ResultFlatMapValue { value, mapper } => {
                let (_, _, result) = self.check_result_flat_map_value(value, mapper, line, Ghost(*expr))?;
                Ok(result)
            },
            Expr::OptionAp { name, value } => {
                if self.is_qualified_function_call(name.as_str(), "ap") {
                    return self.qualified_call(name.as_str(), "ap", value, line, Ghost(*expr));
                }
                let on_result = match self.lookup_binding(name.as_str()) {
                    Some(binding) => result_types(&binding.ty).is_some(),
                    None => false,
                };
                self.check_named_ap(name.as_str(), value, on_result, line)
            },
            Expr::OptionApValue { function, value } => self.check_ap_value(function, value, None, line, Ghost(*expr)),
            Expr::ResultAp { name, value } => self.check_named_ap(name.as_str(), value, true, line),
            Expr::ResultApValue { function, value } => self.check_ap_value(function, value, Some(true), line, Ghost(*expr)),
            Expr::OptionOrElse { name, fallback } => {
                if self.is_qualified_function_call(name.as_str(), "orElse") {
                    return self.qualified_call(name.as_str(), "orElse", fallback, line, Ghost(*expr));
                }
                self.check_option_or_else(name.as_str(), fallback, line)
            },
            Expr::OptionOrElseValue { value, fallback } => self.check_option_or_else_value(value, fallback, line, Ghost(*expr)),
            Expr::OptionOrElseTry { value, fallback } => self.check_option_or_else_try(value, fallback, line, Ghost(*expr)),
            Expr::ArrayTake { name, count } => self.check_array_count(name.as_str(), count, "take", line),
            Expr::ArrayTakeValue { value, count } => self.check_array_count_value(value, count, "take", line, Ghost(*expr)),
            Expr::ArrayDrop { name, count } => self.check_array_count(name.as_str(), count, "drop", line),
            Expr::ArrayDropValue { value, count } => self.check_array_count_value(value, count, "drop", line, Ghost(*expr)),
            Expr::Join { name, separator } => self.check_join(name.as_str(), separator, line),
            Expr::JoinValue { value, separator } => self.check_join_value(value, separator, line, Ghost(*expr)),
            Expr::ArrayContains { name, value } => self.check_array_contains(name.as_str(), value, line),
            Expr::ArrayContainsValue { value, item } => {
                self.check_array_value_item(value, item, "contains", line, Ghost(*expr))?;
                Ok(Type::Bool)
            },
            Expr::ArrayIndexOf { name, value } => self.check_index_of(name.as_str(), value, line),
            Expr::ArrayIndexOfValue { value, item } => {
                self.check_array_value_item(value, item, "indexOf", line, Ghost(*expr))?;
                Ok(Type::Int)
            },
            Expr::MapKeysValue(value) => self.check_map_keys_value(value, line),
            Expr::MapValuesValue(value) => self.check_map_values_value(value, line),
            Expr::MapHas { name, key } => self.check_map_has(name.as_str(), key, line),
            Expr::MapHasValue { value, key } => self.check_map_has_value(value, key, line, Ghost(*expr)),
            Expr::MapSet { name, key, value } => {
                if self.is_qualified_function_call(name.as_str(), "set") {
                    let args: Vec<&Expr> = vec![&**key, &**value];
                    proof {
                        crate::checker::forms::lemma_parts_owned(*expr, seq![**key, **value], args@);
                    }
                    let mut qualified = String::from_str(name.as_str());
                    qualified.append(".set");
                    self.call_in(qualified.as_str(), args.as_slice(), line, Ghost(*expr))
                } else {
                    Err(fixed(line, "set is only valid as a statement"))
                }
            },
            Expr::MapRemove { name, key } => {
                if self.is_qualified_function_call(name.as_str(), "remove") {
                    self.qualified_call(name.as_str(), "remove", key, line, Ghost(*expr))
                } else {
                    Err(fixed(line, "remove is only valid as a statement"))
                }
            },
            Expr::StringContains { name, needle } => self.check_string_predicate(name.as_str(), needle, "contains", "needle", line),
            Expr::StringContainsValue { value, needle } =>
                self.check_string_value_method(value, needle, "contains", "contains needle", Type::Bool, line, Ghost(*expr)),
            Expr::StringIndexOf { name, needle } =>
                self.check_string_arg_method(name.as_str(), needle, "indexOf", "indexOf needle", Type::Int, line),
            Expr::StringIndexOfValue { value, needle } =>
                self.check_string_value_method(value, needle, "indexOf", "indexOf needle", Type::Int, line, Ghost(*expr)),
            Expr::StringStartsWith { name, prefix } => self.check_string_predicate(name.as_str(), prefix, "startsWith", "prefix", line),
            Expr::StringStartsWithValue { value, prefix } =>
                self.check_string_value_method(value, prefix, "startsWith", "startsWith prefix", Type::Bool, line, Ghost(*expr)),
            Expr::StringEndsWith { name, suffix } => self.check_string_predicate(name.as_str(), suffix, "endsWith", "suffix", line),
            Expr::StringEndsWithValue { value, suffix } =>
                self.check_string_value_method(value, suffix, "endsWith", "endsWith suffix", Type::Bool, line, Ghost(*expr)),
            Expr::StringTrim(name) => self.check_string_transform(name.as_str(), "trim", line),
            Expr::StringTrimValue(value) => self.check_string_transform_value(value, "trim", line),
            Expr::StringTrimStart(name) => self.check_string_transform(name.as_str(), "trimStart", line),
            Expr::StringTrimStartValue(value) => self.check_string_transform_value(value, "trimStart", line),
            Expr::StringTrimEnd(name) => self.check_string_transform(name.as_str(), "trimEnd", line),
            Expr::StringTrimEndValue(value) => self.check_string_transform_value(value, "trimEnd", line),
            Expr::StringToUpper(name) => self.check_string_transform(name.as_str(), "toUpper", line),
            Expr::StringToUpperValue(value) => self.check_string_transform_value(value, "toUpper", line),
            Expr::StringToLower(name) => self.check_string_transform(name.as_str(), "toLower", line),
            Expr::StringToLowerValue(value) => self.check_string_transform_value(value, "toLower", line),
            Expr::StringRepeat { name, count } => self.check_string_repeat(name.as_str(), count, line),
            Expr::StringRepeatValue { value, count } => self.check_string_repeat_value(value, count, line, Ghost(*expr)),
            Expr::StringSplit { name, separator } => {
                let t = strings_type();
                self.check_string_arg_method(name.as_str(), separator, "split", "split separator", t, line)
            },
            Expr::StringSplitValue { value, separator } => {
                let t = strings_type();
                self.check_string_value_method(value, separator, "split", "split separator", t, line, Ghost(*expr))
            },
            Expr::StringReplace { name, from, to } => self.check_string_replace(name.as_str(), from, to, line, Ghost(*expr)),
            Expr::StringReplaceValue { value, from, to } => self.check_string_replace_value(value, from, to, line, Ghost(*expr)),
            Expr::PathBasename(name) => self.check_string_transform(name.as_str(), "basename", line),
            Expr::PathBasenameValue(value) => self.check_string_transform_value(value, "basename", line),
            Expr::PathDirname(name) => self.check_string_transform(name.as_str(), "dirname", line),
            Expr::PathDirnameValue(value) => self.check_string_transform_value(value, "dirname", line),
            Expr::PathStem(name) => self.check_string_transform(name.as_str(), "stem", line),
            Expr::PathStemValue(value) => self.check_string_transform_value(value, "stem", line),
            Expr::PathExtname(name) => self.check_string_transform(name.as_str(), "extname", line),
            Expr::PathExtnameValue(value) => self.check_string_transform_value(value, "extname", line),
            Expr::PathIsAbsolute(name) => self.check_path_predicate(name.as_str(), "isAbsolute", line),
            Expr::PathIsAbsoluteValue(value) => {
                self.check_string_transform_value(value, "isAbsolute", line)?;
                Ok(Type::Bool)
            },
            Expr::FsIsFile { path } | Expr::FsIsDir { path } => {
                self.require_read_access("filesystem read", line)?;
                self.check_fs_path(path, line)?;
                Ok(Type::Bool)
            },
            Expr::FsSize { path } => {
                self.require_read_access("fs.size", line)?;
                self.check_fs_path(path, line)?;
                Ok(Type::Int)
            },
            Expr::FsReadLines { path } => {
                self.require_read_access("fs.readLines", line)?;
                self.check_fs_path(path, line)?;
                Ok(strings_type())
            },
            Expr::FsList { path } => {
                self.require_read_access("fs.list", line)?;
                self.check_fs_path(path, line)?;
                Ok(strings_type())
            },
            Expr::FsWriteLines { path, lines } => {
                self.require_write_access("fs.writeLines", line)?;
                self.check_fs_write_lines(path, lines, "fs.writeLines", line, Ghost(*expr))
            },
            Expr::FsAppendLines { path, lines } => {
                self.require_write_access("fs.appendLines", line)?;
                self.check_fs_write_lines(path, lines, "fs.appendLines", line, Ghost(*expr))
            },
            Expr::IfElse { condition, then_expr, else_expr } =>
                self.check_if_expr(condition, then_expr, else_expr, line, Ghost(*expr)),
            Expr::MatchGuardResult(value) => self.check_match_guard_result(value, line),
            Expr::Match { value, arms } => {
                if arms.len() == 0 {
                    return Err(fixed(line, "match expression requires at least one arm"));
                }
                let value_ty = self.match_value_type(value, line)?;
                assert(decreases_to!(*expr => *arms));
                assert(decreases_to!(*arms => arms@));
                self.check_match_arms(crate::checker::matching::expr_is_byte(value), &value_ty, arms.as_slice(), line)
            },
            Expr::Tuple(values) => {
                proof {
                    crate::checker::forms::lemma_vec_owned(*expr, *values);
                }
                self.check_tuple(values.as_slice(), line)
            },
            Expr::Do { steps, result } => {
                assert(decreases_to!(*expr => *steps));
                self.check_do(steps, result, line, Ghost(*expr))
            },
            _ => Err(fixed(line, "expression is not supported by the checker")),
        }
    }
}

impl TypeChecker {
    /// `left op right`: the operands are checked left to right, and the
    /// operator decides the result from their types.
    pub(crate) fn check_binary(&self, left: &Expr, op: BinaryOp, right: &Expr, line: usize, Ghost(owner): Ghost<Expr>) -> (r: Result<Type, CompileError>)
        requires
            self.wf(),
            decreases_to!(owner => *left),
            decreases_to!(owner => *right),
        ensures
            self.forbids(*left) || self.forbids(*right) ==> r is Err,
            r matches Err(e) ==> e.line == line,
            r matches Ok(t) ==> binary_fits(op, t@),
            crate::checker::outcomes::expr_outcome(self.decls(), self.bindings.view(), Expr::Binary {
                left: Box::new(*left),
                op,
                right: Box::new(*right),
            }) matches Some(o) ==> crate::checker::outcomes::agrees(r, o),
        decreases owner, 4nat,
    {
        let left_ty = self.check_expr(left, line)?;
        let right_ty = self.check_expr(right, line)?;
        self.binary_type(op, &left_ty, &right_ty, line)
    }

    /// `name.method(arg)` where `name.method` is a declared function.
    fn qualified_call(&self, name: &str, method: &str, arg: &Expr, line: usize, Ghost(owner): Ghost<Expr>) -> (r: Result<Type, CompileError>)
        requires
            self.wf(),
            decreases_to!(owner => *arg),
        ensures
            r matches Err(e) ==> e.line == line,
            self.forbids(*arg) ==> r is Err,
        decreases owner, 4nat,
    {
        let args: Vec<&Expr> = vec![arg];
        proof {
            crate::checker::forms::lemma_parts_owned(owner, seq![*arg], args@);
        }
        let mut qualified = String::from_str(name);
        qualified.append(".");
        qualified.append(method);
        let r = self.call_in(qualified.as_str(), args.as_slice(), line, Ghost(owner));
        proof {
            if r is Ok {
                assert(*args@[0] == *arg);
            }
        }
        r
    }
}

/// `s` without `prefix`, when it starts with it.
pub fn strip_prefix<'a>(s: &'a str, prefix: &str) -> (r: Option<&'a str>)
    ensures
        r matches Some(rest) ==> s@ == prefix@ + rest@,
        r is None ==> !(prefix@.len() <= s@.len() && s@.subrange(0, prefix@.len() as int) == prefix@),
{
    let n = s.unicode_len();
    let k = prefix.unicode_len();
    if k > n {
        return None;
    }
    let head = s.substring_char(0, k);
    if !str_eq(head, prefix) {
        return None;
    }
    let rest = s.substring_char(k, n);
    assert(s@ =~= prefix@ + rest@);
    Some(rest)
}

impl TypeChecker {
    /// A checker for the body of a lambda: the parameters are bound, shadowing
    /// variables of the same name, and no return type is expected yet.
    pub fn lambda_checker(&self, params: &Vec<String>, param_types: &Vec<Type>, line: usize) -> (r: TypeChecker)
        requires
            self.wf(),
            params@.len() == param_types@.len(),
        ensures
            r.wf(),
            r.policy.model() == self.policy.model(),
            r.expected_return is None,
            !r.binds_nested_tries,
            forall|i: int| 0 <= i < params@.len() && params@[i]@ != "_"@ ==> #[trigger] r.bindings.view().dom().contains(params@[i]@),
    {
        let mut checker = self.scope();
        checker.expected_return = None;
        checker.binds_nested_tries = false;
        let mut i: usize = 0;
        while i < params.len()
            invariant
                checker.wf(),
                checker.policy.model() == self.policy.model(),
                checker.expected_return is None,
                !checker.binds_nested_tries,
                params@.len() == param_types@.len(),
                i <= params@.len(),
                forall|j: int| 0 <= j < i && params@[j]@ != "_"@ ==> #[trigger] checker.bindings.view().dom().contains(params@[j]@),
            decreases params.len() - i,
        {
            if !str_eq(params[i].as_str(), "_") {
                checker.bindings.insert(params[i].clone(), crate::checker::Binding { ty: param_types[i].duplicate(), mutable: false });
            }
            i += 1;
        }
        checker
    }

    /// The type of a lambda checked against the function type it must have.
    pub fn check_lambda(&self, params: &Vec<String>, body: &Expr, expected: &Type, line: usize) -> (r: Result<Type, CompileError>)
        requires
            self.wf(),
        ensures
            r matches Ok(t) ==> t@ == expected@,
            r matches Err(e) ==> e.line == line,
            self.forbids(*body) ==> r is Err,
            !(expected@ is Function) ==> (r matches Err(e) && e.message@ == "lambda requires a function type, found "@
                + display_name(expected@) + ""@),
            expected@ matches TypeModel::Function(ps, _) ==> (params@.len() != ps.len() ==> r is Err),
        decreases body, 8nat,
    {
        proof {
            lemma_type_model_tags(*expected);
        }
        let (param_types, return_type) = match expected {
            Type::Function(param_types, return_type) => (param_types, return_type),
            _ => return Err(about_type(line, "lambda requires a function type, found ", expected, "")),
        };
        proof {
            lemma_types_model(param_types@);
        }
        if params.len() != param_types.len() {
            let mut message = String::from_str("lambda expects ");
            message.append(decimal_string(param_types.len()).as_str());
            message.append(" parameters from its function type, found ");
            message.append(decimal_string(params.len()).as_str());
            return Err(CompileError::new(line, message));
        }
        let mut checker = self.lambda_checker(params, param_types, line);
        checker.expected_return = Some(return_type.duplicate());
        checker.binds_nested_tries = true;
        match checker.check_return(body, line) {
            Ok(()) => Ok(expected.duplicate()),
            Err(error) => {
                match strip_prefix(error.message.as_str(), "return type mismatch: ") {
                    Some(rest) => {
                        let mut message = String::from_str("lambda return type mismatch: ");
                        message.append(rest);
                        Err(CompileError::new(error.line, message))
                    },
                    None => Err(error),
                }
            },
        }
    }

    /// The type of an expression where a value of type `expected` is
    /// required; a lambda takes its parameter types from `expected`.
    pub fn check_expr_expected(&self, expr: &Expr, expected: &Type, line: usize) -> (r: Result<Type, CompileError>)
        requires
            self.wf(),
        ensures
            r matches Err(e) ==> e.line == line,
            expr is Lambda ==> (r matches Ok(t) ==> t@ == expected@),
            self.forbids(*expr) ==> r is Err,
            !(expr is Lambda) ==> (form_type(*expr) matches Some(ty) ==> (r matches Ok(t) ==> t@ == ty)),
            !(expr is Lambda) ==> (rejected_form(*expr) matches Some(m) ==> (r matches Err(e) && e.message@ == m)),
            !(expr is Lambda) ==> (crate::checker::outcomes::expr_outcome(self.decls(), self.bindings.view(), *expr) matches Some(o)
                ==> crate::checker::outcomes::agrees(r, o)),
        decreases expr, 6nat,
    {
        match expr {
            Expr::Lambda { params, body } => self.check_lambda(params, body, expected, line),
            _ => self.check_expr(expr, line),
        }
    }

    /// The success and error types of `expr?` inside a function that returns a Result.
    pub fn try_result_types(&self, expr: &Expr, line: usize) -> (r: Result<(Type, Type), CompileError>)
        requires
            self.wf(),
        ensures
            r matches Err(e) ==> e.line == line,
            self.forbids(*expr) ==> r is Err,
            self.expected_return is None ==> (r matches Err(e) && e.message@ == "try result is only valid inside a Result-returning function"@),
            r is Ok ==> (self.expected_return matches Some(t) && crate::checker::resolve::resolved(self.type_env(), Set::empty(), t@) matches Ok(
                rt,
            ) && crate::type_utils::result_parts(rt) is Some),
        decreases expr, 6nat,
    {
        let expected = match &self.expected_return {
            Some(t) => t,
            None => return Err(fixed(line, "try result is only valid inside a Result-returning function")),
        };
        let expected = self.resolve_type(expected, line)?;
        let expected_err = match result_types(&expected) {
            Some((_, err)) => err,
            None => return Err(fixed(line, "try result is only valid inside a Result-returning function")),
        };
        let actual = self.check_expr(expr, line)?;
        match result_types(&actual) {
            Some((ok, actual_err)) => {
                if assignable_types_pub(expected_err, actual_err, byte_of(expr)) {
                    Ok((ok.duplicate(), actual_err.duplicate()))
                } else {
                    Err(about_types(line, "try error mismatch: expected ", expected_err, ", found ", actual_err))
                }
            },
            None => Err(about_type(line, "try expects Result value, found ", &actual, "")),
        }
    }

    /// `return expr`: only inside a function, with a value its return type accepts.
    pub fn check_return(&self, expr: &Expr, line: usize) -> (r: Result<(), CompileError>)
        requires
            self.wf(),
        ensures
            self.forbids(*expr) ==> r is Err,
            r matches Err(e) ==> e.line == line,
            self.expected_return is None ==> (r matches Err(e) && e.message@ == "return is only valid inside a function"@),
        decreases expr, 7nat,
    {
        let expected = match &self.expected_return {
            Some(t) => t,
            None => return Err(fixed(line, "return is only valid inside a function")),
        };
        let actual = match expr {
            Expr::TryResult(value) => {
                let (ok, _) = self.try_result_types(value, line)?;
                ok
            },
            _ => self.check_expr_expected(expr, expected, line)?,
        };
        let accepted = self.is_assignable(expected, &actual, expr) || match result_types(expected) {
            Some((ok, _)) => self.is_assignable(ok, &actual, expr),
            None => false,
        };
        if accepted {
            Ok(())
        } else {
            Err(about_types(line, "return type mismatch: expected ", expected, ", found ", &actual))
        }
    }
}

fn byte_of(expr: &Expr) -> (r: bool)
    ensures
        r == byte_literal(*expr),
{
    match expr {
        Expr::Int(v) => 0 <= *v && *v <= 255,
        _ => false,
    }
}

} // verus!
