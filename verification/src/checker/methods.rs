//! Methods with two or more operands: string methods on values, array and
//! map methods on literals, filesystem writes, allowed commands, `??`,
//! `if` expressions and `let ... in`.

use vstd::prelude::*;
use vstd::string::StringExecFns;

use crate::ast::{display_name, lemma_type_model_tags, type_model, Expr, Type, TypeModel};
use crate::checker::calls::owns_all;
use crate::checker::messages::{about, about_type, about_types, fixed, no_method, undefined_variable};
use crate::checker::relations::{assignable, byte_literal, string_like};
use crate::checker::values::{is_int_type, is_string_type, literal_required, must_be, value_mismatch};
use crate::checker::resolve::resolved;
use crate::checker::TypeChecker;
use crate::collections::Duplicate;
use crate::error::CompileError;
use crate::text::decimal_string;
use crate::type_utils::{default_success_type, result_types};

verus! {

/// `Option[t]` and `Result[ok, err]`, built from owned parts.
pub fn applied_one(name: &str, t: Type) -> (r: Type)
    ensures
        r@ == TypeModel::Applied(name@, seq![t@]),
{
    let mut args: Vec<Type> = Vec::new();
    args.push(t);
    proof {
        crate::ast::lemma_types_model(args@);
        assert(crate::ast::types_model(args@) =~= seq![type_model(args@[0])]);
    }
    Type::Applied(String::from_str(name), args)
}

impl TypeChecker {
    /// A method of a string value whose one argument must be a string too:
    /// `contains`, `startsWith`, `endsWith`, `indexOf` and `split`.
    pub(crate) fn check_string_value_method(&self, receiver: &Expr, arg: &Expr, method: &str, what: &str, result: Type, line: usize, Ghost(owner): Ghost<Expr>) -> (r: Result<Type, CompileError>)
        requires
            self.wf(),
            decreases_to!(owner => *receiver),
            decreases_to!(owner => *arg),
        ensures
            self.forbids(*receiver) || self.forbids(*arg) ==> r is Err,
            r matches Err(e) ==> e.line == line,
            r matches Ok(t) ==> t@ == result@,
        decreases owner, 4nat,
    {
        let receiver_ty = self.check_expr(receiver, line)?;
        if !is_string_type(&receiver_ty) {
            return Err(no_method(line, &receiver_ty, method));
        }
        let arg_ty = self.check_expr(arg, line)?;
        if is_string_type(&arg_ty) {
            Ok(result)
        } else {
            Err(must_be(line, what, "String or Path", &arg_ty))
        }
    }

    /// `value.repeat(count)` of a string value.
    pub(crate) fn check_string_repeat_value(&self, value: &Expr, count: &Expr, line: usize, Ghost(owner): Ghost<Expr>) -> (r: Result<Type, CompileError>)
        requires
            self.wf(),
            decreases_to!(owner => *value),
            decreases_to!(owner => *count),
        ensures
            self.forbids(*value) || self.forbids(*count) ==> r is Err,
            r matches Err(e) ==> e.line == line,
            r matches Ok(t) ==> t@ == TypeModel::String,
        decreases owner, 4nat,
    {
        let value_ty = self.check_expr(value, line)?;
        if !is_string_type(&value_ty) {
            return Err(no_method(line, &value_ty, "repeat"));
        }
        let count_ty = self.check_expr(count, line)?;
        if is_int_type(&count_ty) {
            Ok(Type::String)
        } else {
            Err(must_be(line, "repeat count", "Int", &count_ty))
        }
    }

    /// The search and replacement of `replace` must be strings.
    fn check_replace_args(&self, from: &Expr, to: &Expr, line: usize, Ghost(owner): Ghost<Expr>) -> (r: Result<Type, CompileError>)
        requires
            self.wf(),
            decreases_to!(owner => *from),
            decreases_to!(owner => *to),
        ensures
            self.forbids(*from) || self.forbids(*to) ==> r is Err,
            r matches Err(e) ==> e.line == line,
            r matches Ok(t) ==> t@ == TypeModel::String,
        decreases owner, 3nat,
    {
        let from_ty = self.check_expr(from, line)?;
        if !is_string_type(&from_ty) {
            return Err(must_be(line, "replace search", "String or Path", &from_ty));
        }
        let to_ty = self.check_expr(to, line)?;
        if !is_string_type(&to_ty) {
            return Err(must_be(line, "replace replacement", "String or Path", &to_ty));
        }
        Ok(Type::String)
    }

    /// `name.replace(from, to)` of a string variable.
    pub(crate) fn check_string_replace(&self, name: &str, from: &Expr, to: &Expr, line: usize, Ghost(owner): Ghost<Expr>) -> (r: Result<Type, CompileError>)
        requires
            self.wf(),
            decreases_to!(owner => *from),
            decreases_to!(owner => *to),
        ensures
            self.forbids(*from) || self.forbids(*to) ==> r is Err,
            r matches Err(e) ==> e.line == line,
            r matches Ok(t) ==> t@ == TypeModel::String,
        decreases owner, 4nat,
    {
        let binding = match self.lookup_binding(name) {
            Some(b) => b,
            None => return Err(undefined_variable(line, name)),
        };
        if !is_string_type(&binding.ty) {
            return Err(no_method(line, &binding.ty, "replace"));
        }
        self.check_replace_args(from, to, line, Ghost(owner))
    }

    /// `value.replace(from, to)` of a string value.
    pub(crate) fn check_string_replace_value(&self, value: &Expr, from: &Expr, to: &Expr, line: usize, Ghost(owner): Ghost<Expr>) -> (r: Result<Type, CompileError>)
        requires
            self.wf(),
            decreases_to!(owner => *value),
            decreases_to!(owner => *from),
            decreases_to!(owner => *to),
        ensures
            self.forbids(*value) || self.forbids(*from) || self.forbids(*to) ==> r is Err,
            r matches Err(e) ==> e.line == line,
            r matches Ok(t) ==> t@ == TypeModel::String,
        decreases owner, 4nat,
    {
        let value_ty = self.check_expr(value, line)?;
        if !is_string_type(&value_ty) {
            return Err(no_method(line, &value_ty, "replace"));
        }
        self.check_replace_args(from, to, line, Ghost(owner))
    }

    /// `[...].join(separator)` of an array literal of strings.
    pub(crate) fn check_join_value(&self, value: &Expr, separator: &Expr, line: usize, Ghost(owner): Ghost<Expr>) -> (r: Result<Type, CompileError>)
        requires
            self.wf(),
            decreases_to!(owner => *value),
            decreases_to!(owner => *separator),
        ensures
            self.forbids(*value) || self.forbids(*separator) ==> r is Err,
            r matches Err(e) ==> e.line == line,
            r matches Ok(t) ==> t@ == TypeModel::String,
            !(value is Array) ==> r is Err,
        decreases owner, 4nat,
    {
        if !matches!(value, Expr::Array(_)) {
            return Err(fixed(line, "join value must be an array literal or named array"));
        }
        let separator_ty = self.check_expr(separator, line)?;
        if !is_string_type(&separator_ty) {
            return Err(must_be(line, "join separator", "String or Path", &separator_ty));
        }
        match self.check_expr(value, line)? {
            Type::Array(element) => {
                if is_string_type(&element) {
                    Ok(Type::String)
                } else {
                    Err(about_type(line, "join array elements must be String or Path, found ", &element, ""))
                }
            },
            other => Err(no_method(line, &other, "join")),
        }
    }

    /// `[...].contains(item)` and `[...].indexOf(item)` of an array literal.
    pub(crate) fn check_array_value_item(&self, value: &Expr, item: &Expr, method: &str, line: usize, Ghost(owner): Ghost<Expr>) -> (r: Result<(), CompileError>)
        requires
            self.wf(),
            decreases_to!(owner => *value),
            decreases_to!(owner => *item),
        ensures
            self.forbids(*value) || self.forbids(*item) ==> r is Err,
            r matches Err(e) ==> e.line == line,
            !(value is Array) ==> r is Err,
        decreases owner, 4nat,
    {
        let value_ty = self.check_expr(value, line)?;
        let element = match value_ty {
            Type::Array(element) => element,
            other => return Err(no_method(line, &other, method)),
        };
        if !matches!(value, Expr::Array(_)) {
            return Err(literal_required(line, method));
        }
        let item_ty = self.check_expr(item, line)?;
        if self.is_assignable(&element, &item_ty, item) {
            Ok(())
        } else {
            Err(value_mismatch(line, method, &element, &item_ty))
        }
    }

    /// `[...].take(n)` and `[...].drop(n)` of an array literal.
    pub(crate) fn check_array_count_value(&self, value: &Expr, count: &Expr, method: &str, line: usize, Ghost(owner): Ghost<Expr>) -> (r: Result<Type, CompileError>)
        requires
            self.wf(),
            decreases_to!(owner => *value),
            decreases_to!(owner => *count),
        ensures
            self.forbids(*value) || self.forbids(*count) ==> r is Err,
            r matches Err(e) ==> e.line == line,
            r matches Ok(t) ==> t@ is Array,
        decreases owner, 4nat,
    {
        let count_ty = self.check_expr(count, line)?;
        if !is_int_type(&count_ty) {
            let mut what = String::from_str(method);
            what.append(" count");
            return Err(must_be(line, what.as_str(), "Int", &count_ty));
        }
        self.check_array_value(value, method, line)
    }

    /// `{...}.has(key)` of a map value.
    pub(crate) fn check_map_has_value(&self, value: &Expr, key: &Expr, line: usize, Ghost(owner): Ghost<Expr>) -> (r: Result<Type, CompileError>)
        requires
            self.wf(),
            decreases_to!(owner => *value),
            decreases_to!(owner => *key),
        ensures
            self.forbids(*value) || self.forbids(*key) ==> r is Err,
            r matches Err(e) ==> e.line == line,
            r matches Ok(t) ==> t@ == TypeModel::Bool,
        decreases owner, 4nat,
    {
        let key_ty = self.check_expr(key, line)?;
        match self.check_expr(value, line)? {
            Type::Mapping(expected, _) => {
                if self.is_assignable(&expected, &key_ty, key) {
                    Ok(Type::Bool)
                } else {
                    Err(about_types(line, "map key must be ", &expected, ", found ", &key_ty))
                }
            },
            other => Err(no_method(line, &other, "has")),
        }
    }

    /// `name.set(key, value)`: the variable must be a mutable map.
    pub(crate) fn check_map_set(&self, name: &str, key: &Expr, value: &Expr, line: usize, Ghost(owner): Ghost<Expr>) -> (r: Result<Type, CompileError>)
        requires
            self.wf(),
            decreases_to!(owner => *key),
            decreases_to!(owner => *value),
        ensures
            self.forbids(*key) || self.forbids(*value) ==> r is Err,
            r matches Err(e) ==> e.line == line,
            r matches Ok(t) ==> t@ == TypeModel::Unit && (self.lookup(name@) matches Some((TypeModel::Mapping(_, _), true))),
        decreases owner, 4nat,
    {
        let binding = match self.lookup_binding(name) {
            Some(b) => b,
            None => return Err(undefined_variable(line, name)),
        };
        if !binding.mutable {
            return Err(about(line, "cannot set const map `", name, "`"));
        }
        proof {
            lemma_type_model_tags(binding.ty);
        }
        let (expected_key, expected_value) = match &binding.ty {
            Type::Mapping(k, v) => (k, v),
            other => return Err(no_method(line, other, "set")),
        };
        let key_ty = self.check_expr(key, line)?;
        if !self.is_assignable(expected_key, &key_ty, key) {
            return Err(about_types(line, "map key must be ", expected_key, ", found ", &key_ty));
        }
        let value_ty = self.check_expr(value, line)?;
        if !self.is_assignable(expected_value, &value_ty, value) {
            return Err(about_types(line, "map value must be ", expected_value, ", found ", &value_ty));
        }
        Ok(Type::Unit)
    }

    /// `json.stringify(value)` of a map literal or a `json.parse` result.
    pub fn check_json_stringify_value(&self, value: &Expr, line: usize) -> (r: Result<Type, CompileError>)
        requires
            self.wf(),
        ensures
            self.forbids(*value) ==> r is Err,
            r matches Err(e) ==> e.line == line,
            r matches Ok(t) ==> t@ == TypeModel::String,
            !(value is MapLiteral || value is JsonParse) ==> (r matches Err(e)
                && e.message@ == "json.stringify value must be a map literal or json.parse result"@),
        decreases value, 6nat,
    {
        if !matches!(value, Expr::MapLiteral(_) | Expr::JsonParse { .. }) {
            return Err(fixed(line, "json.stringify value must be a map literal or json.parse result"));
        }
        let value_ty = self.check_expr(value, line)?;
        proof {
            lemma_type_model_tags(value_ty);
        }
        match &value_ty {
            Type::Mapping(key, item) => {
                proof {
                    lemma_type_model_tags(**key);
                    lemma_type_model_tags(**item);
                }
                if matches!(**key, Type::String) && matches!(**item, Type::String) {
                    return Ok(Type::String);
                }
            },
            _ => {},
        }
        Err(about_type(line, "json.stringify expects Map[String, String], found ", &value_ty, ""))
    }

    /// `fs.writeLines(path, lines)` and `fs.appendLines(path, lines)`.
    pub(crate) fn check_fs_write_lines(&self, path: &Expr, lines: &Expr, function: &str, line: usize, Ghost(owner): Ghost<Expr>) -> (r: Result<Type, CompileError>)
        requires
            self.wf(),
            decreases_to!(owner => *path),
            decreases_to!(owner => *lines),
        ensures
            self.forbids(*path) || self.forbids(*lines) ==> r is Err,
            r matches Err(e) ==> e.line == line,
            r matches Ok(t) ==> t@ == TypeModel::Unit,
        decreases owner, 4nat,
    {
        self.check_fs_path(path, line)?;
        let lines_ty = self.check_expr(lines, line)?;
        match lines_ty {
            Type::Array(element) => {
                if is_string_type(&element) {
                    Ok(Type::Unit)
                } else {
                    let mut message = String::from_str(function);
                    message.append(" lines must be [String] or [Path], found [");
                    message.append(element.name().as_str());
                    message.append("]");
                    Err(CompileError::new(line, message))
                }
            },
            other => {
                let mut message = String::from_str(function);
                message.append(" lines must be Array, found ");
                message.append(other.name().as_str());
                Err(CompileError::new(line, message))
            },
        }
    }

    /// `run.group.command(args)`: the policy must allow the command, grant
    /// the filesystem access its path arguments need, and every argument must
    /// be a scalar.
    pub(crate) fn check_allowed_command(&self, group: &str, command: &str, args: &[&Expr], line: usize, Ghost(owner): Ghost<Expr>) -> (r: Result<Type, CompileError>)
        requires
            self.wf(),
            owns_all(owner, args@),
        ensures
            r matches Err(e) ==> e.line == line,
            r matches Ok(t) ==> t@ == TypeModel::String,
            crate::policy::command_index(self.policy.commands@, group@, command@) is None ==> r is Err,
            r is Ok ==> self.args_pass(args@),
        decreases owner, 4nat,
    {
        let mut label = String::from_str("command `");
        label.append(group);
        label.append(".");
        label.append(command);
        label.append("`");
        let policy = match self.policy.command(group, command) {
            Some(p) => p,
            None => {
                let mut message = label.clone();
                message.append(" is not allowed by the execution policy");
                return Err(CompileError::new(line, message));
            },
        };
        let mut i: usize = 0;
        while i < policy.read_args.len()
            invariant
                i <= policy.read_args@.len(),
            decreases policy.read_args.len() - i,
        {
            if policy.read_args[i] >= args.len() {
                let mut message = String::from_str("policy for ");
                message.append(label.as_str());
                message.append(" requires read path argument ");
                let shown = if policy.read_args[i] < usize::MAX { policy.read_args[i] + 1 } else { policy.read_args[i] };
                message.append(decimal_string(shown).as_str());
                return Err(CompileError::new(line, message));
            }
            self.require_read_access(label.as_str(), line)?;
            i += 1;
        }
        let mut j: usize = 0;
        while j < policy.write_args.len()
            invariant
                j <= policy.write_args@.len(),
            decreases policy.write_args.len() - j,
        {
            if policy.write_args[j] >= args.len() {
                let mut message = String::from_str("policy for ");
                message.append(label.as_str());
                message.append(" requires write path argument ");
                let shown = if policy.write_args[j] < usize::MAX { policy.write_args[j] + 1 } else { policy.write_args[j] };
                message.append(decimal_string(shown).as_str());
                return Err(CompileError::new(line, message));
            }
            self.require_write_access(label.as_str(), line)?;
            j += 1;
        }
        let mut k: usize = 0;
        while k < args.len()
            invariant
                self.wf(),
                owns_all(owner, args@),
                k <= args@.len(),
                forall|m: int| 0 <= m < k ==> !self.forbids(*#[trigger] args@[m]),
            decreases args.len() - k,
        {
            let ty = self.check_expr(args[k], line)?;
            if !matches!(ty, Type::String | Type::Path | Type::Int | Type::Float | Type::Bool | Type::ExitCode) {
                let mut message = label.clone();
                message.append(" arguments must be scalar, found ");
                message.append(ty.name().as_str());
                return Err(CompileError::new(line, message));
            }
            k += 1;
        }
        Ok(Type::String)
    }

    /// `value ?? fallback`: the fallback must fit the success type of an
    /// Option or Result value.
    pub(crate) fn check_default(&self, value: &Expr, fallback: &Expr, line: usize, Ghost(owner): Ghost<Expr>) -> (r: Result<Type, CompileError>)
        requires
            self.wf(),
            decreases_to!(owner => *value),
            decreases_to!(owner => *fallback),
        ensures
            self.forbids(*value) || self.forbids(*fallback) ==> r is Err,
            r matches Err(e) ==> e.line == line,
        decreases owner, 4nat,
    {
        let value_ty = self.check_expr(value, line)?;
        let element_ty = match default_success_type(&value_ty) {
            Some(t) => t,
            None => return Err(about_type(line, "operator `??` requires Option or Result value, found ", &value_ty, "")),
        };
        let fallback_ty = self.check_expr(fallback, line)?;
        if self.is_assignable(element_ty, &fallback_ty, fallback) {
            Ok(element_ty.duplicate())
        } else {
            Err(about_types(line, "operator `??` fallback mismatch: expected ", element_ty, ", found ", &fallback_ty))
        }
    }

    /// `value ?? fallback?`: the fallback returns a Result whose success must
    /// fit the value's success type.
    pub(crate) fn check_default_try(&self, value: &Expr, fallback: &Expr, line: usize, Ghost(owner): Ghost<Expr>) -> (r: Result<Type, CompileError>)
        requires
            self.wf(),
            decreases_to!(owner => *value),
            decreases_to!(owner => *fallback),
        ensures
            r matches Err(e) ==> e.line == line,
            r matches Ok(t) ==> t@ matches TypeModel::Applied(n, args) && n == "Result"@ && args.len() == 2,
            self.forbids(*value) || self.forbids(*fallback) ==> r is Err,
        decreases owner, 4nat,
    {
        let value_ty = self.check_expr(value, line)?;
        let success_ty = match default_success_type(&value_ty) {
            Some(t) => t.duplicate(),
            None => return Err(about_type(line, "operator `??` requires Option or Result value, found ", &value_ty, "")),
        };
        let fallback_ty = self.check_expr(fallback, line)?;
        let (fallback_ok, fallback_error) = match result_types(&fallback_ty) {
            Some(parts) => parts,
            None => return Err(about_type(line, "propagating `??` fallback must return Result, found ", &fallback_ty, "")),
        };
        if !self.is_assignable(&success_ty, fallback_ok, fallback) {
            return Err(about_types(line, "operator `??` fallback mismatch: expected ", &success_ty, ", found ", fallback_ok));
        }
        Ok(crate::checker::exprs::result_of(success_ty, fallback_error.duplicate()))
    }

    /// `value?` as an Option: the success of a Result value.
    pub fn check_result_option(&self, value: &Expr, line: usize) -> (r: Result<Type, CompileError>)
        requires
            self.wf(),
        ensures
            self.forbids(*value) ==> r is Err,
            r matches Err(e) ==> e.line == line,
        decreases value, 6nat,
    {
        let value_ty = self.check_expr(value, line)?;
        match result_types(&value_ty) {
            Some((ok, _)) => Ok(applied_one("Option", ok.duplicate())),
            None => Err(about_type(line, "operator `?` requires Result value, found ", &value_ty, "")),
        }
    }

    /// A propagating match guard: a Result whose success is `Bool`.
    pub fn check_match_guard_result(&self, value: &Expr, line: usize) -> (r: Result<Type, CompileError>)
        requires
            self.wf(),
        ensures
            self.forbids(*value) ==> r is Err,
            r matches Err(e) ==> e.line == line,
            r matches Ok(t) ==> t@ == TypeModel::Bool,
        decreases value, 6nat,
    {
        let ty = self.check_expr(value, line)?;
        let ok = match result_types(&ty) {
            Some((ok, _)) => ok,
            None => return Err(about_type(line, "match guard propagation expects Result, found ", &ty, "")),
        };
        proof {
            lemma_type_model_tags(*ok);
        }
        if matches!(ok, Type::Bool) {
            Ok(Type::Bool)
        } else {
            Err(about_type(line, "match guard must be Bool, found ", ok, ""))
        }
    }

    /// `if c { a } else { b }`: the branches must have one type, whichever
    /// accepts the other.
    pub(crate) fn check_if_expr(&self, condition: &Expr, then_expr: &Expr, else_expr: &Expr, line: usize, Ghost(owner): Ghost<Expr>) -> (r: Result<Type, CompileError>)
        requires
            self.wf(),
            decreases_to!(owner => *condition),
            decreases_to!(owner => *then_expr),
            decreases_to!(owner => *else_expr),
        ensures
            self.forbids(*condition) || self.forbids(*then_expr) || self.forbids(*else_expr) ==> r is Err,
            r matches Err(e) ==> e.line == line,
            crate::checker::exprs::form_type(*condition) matches Some(t) ==> (t != TypeModel::Bool ==> r is Err),
        decreases owner, 4nat,
    {
        self.check_condition(condition, line)?;
        let then_ty = self.check_expr(then_expr, line)?;
        let else_ty = self.check_expr(else_expr, line)?;
        if self.is_assignable(&then_ty, &else_ty, else_expr) {
            Ok(then_ty)
        } else if self.is_assignable(&else_ty, &then_ty, then_expr) {
            Ok(else_ty)
        } else {
            Err(about_types(line, "if expression branches must have matching types, found ", &then_ty, " and ", &else_ty))
        }
    }

    /// The declared type of a binding: the annotation, resolved, when the
    /// value fits it; otherwise the value's own type.
    pub fn check_annotation(&self, annotation: Option<&Type>, actual: Type, expr: &Expr, line: usize) -> (r: Result<Type, CompileError>)
        requires
            self.wf(),
        ensures
            r matches Err(e) ==> e.line == line,
            annotation is None ==> (r matches Ok(t) && t@ == actual@),
            annotation matches Some(a) ==> (r matches Ok(t) ==> resolved(self.type_env(), Set::empty(), a@) == Ok::<
                TypeModel,
                Seq<char>,
            >(t@)),
            annotation matches Some(a) ==> (resolved(self.type_env(), Set::empty(), a@) matches Err(m) ==> (r matches Err(e)
                && e.message@ == m)),
            annotation matches Some(a) ==> (resolved(self.type_env(), Set::empty(), a@) matches Ok(rt) ==> (if assignable(
                rt,
                actual@,
                byte_literal(*expr),
            ) {
                r matches Ok(t) && t@ == rt
            } else {
                r matches Err(e) && e.message@ == "type annotation mismatch: expected "@ + display_name(rt) + ", found "@
                    + display_name(actual@)
            })),
    {
        let expected = match annotation {
            Some(t) => t,
            None => return Ok(actual),
        };
        let expected = self.resolve_type(expected, line)?;
        if self.is_assignable(&expected, &actual, expr) {
            Ok(expected)
        } else {
            Err(about_types(line, "type annotation mismatch: expected ", &expected, ", found ", &actual))
        }
    }

    /// The type of the value bound by `const`, `let` or `let ... in`.
    pub fn binding_expr_type(&self, annotation: Option<&Type>, expr: &Expr, line: usize) -> (r: Result<Type, CompileError>)
        requires
            self.wf(),
        ensures
            self.forbids(*expr) ==> r is Err,
            r matches Err(e) ==> e.line == line,
            expr is TryResult && self.expected_return is None ==> r is Err,
            annotation is None && !(expr is TryResult) ==> (crate::checker::exprs::form_type(*expr) matches Some(ty) ==> (
            r matches Ok(t) ==> t@ == ty)),
            !(expr is TryResult) ==> (crate::checker::exprs::rejected_form(*expr) matches Some(m) ==> (r matches Err(e)
                && e.message@ == m)),
            crate::checker::exprs::denied_by(self.policy.model(), *expr) ==> r is Err,
            !(expr is TryResult) ==> (crate::checker::outcomes::expr_outcome(self.decls(), self.bindings.view(), *expr) matches Some(o)
                ==> crate::checker::outcomes::agrees(r, o)),
        decreases expr, 8nat,
    {
        if let Expr::TryResult(value) = expr {
            return self.check_try_result_expr(value, line);
        }
        self.check_expr(expr, line)
    }

    /// `expr?` as a statement: the function must return a Result whose
    /// error accepts the value's error.
    pub fn check_try_result(&self, expr: &Expr, line: usize) -> (r: Result<(), CompileError>)
        requires
            self.wf(),
        ensures
            r matches Err(e) ==> e.line == line,
            self.forbids(*expr) ==> r is Err,
            self.expected_return is None ==> r is Err,
        decreases expr, 7nat,
    {
        self.try_result_types(expr, line)?;
        Ok(())
    }

    /// The success type of `expr?` used as a value.
    pub fn check_try_result_expr(&self, expr: &Expr, line: usize) -> (r: Result<Type, CompileError>)
        requires
            self.wf(),
        ensures
            r matches Err(e) ==> e.line == line,
            self.forbids(*expr) ==> r is Err,
            self.expected_return is None ==> r is Err,
        decreases expr, 7nat,
    {
        let (ok, _) = self.try_result_types(expr, line)?;
        Ok(ok)
    }

    /// `let name: T = value in body`.
    pub(crate) fn check_let_in(&self, name: &str, annotation: Option<&Type>, value: &Expr, body: &Expr, line: usize, Ghost(owner): Ghost<Expr>) -> (r: Result<Type, CompileError>)
        requires
            self.wf(),
            decreases_to!(owner => *value),
            decreases_to!(owner => *body),
        ensures
            r matches Err(e) ==> e.line == line,
            name@ != "_"@ && self.bindings.view().dom().contains(name@) ==> r is Err,
            self.forbids(*value) ==> r is Err,
            self.forbids(*body) ==> r is Err,
        decreases owner, 4nat,
    {
        let plain = self.without_nested_tries();
        let value_ty = plain.binding_expr_type(annotation, value, line)?;
        let binding_ty = plain.check_annotation(annotation, value_ty, value, line)?;
        let mut body_checker = plain.scope();
        body_checker.define(name, binding_ty, false, line)?;
        body_checker.check_expr(body, line)
    }
}

} // verus!
