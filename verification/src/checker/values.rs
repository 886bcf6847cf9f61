//! Methods of arrays, maps, strings and paths, on named values and on literals.

use vstd::prelude::*;
use vstd::string::StringExecFns;

use crate::ast::{display_name, lemma_type_model_tags, lemma_types_model, type_model, Expr, Type, TypeModel};
use crate::checker::messages::{about, about_type, about_types, fixed, no_method, undefined_variable, undefined_variable_message};
use crate::checker::relations::{string_like, assignable_types_pub};
use crate::checker::TypeChecker;
use crate::collections::Duplicate;
use crate::error::CompileError;
use crate::text::{decimal_string, str_eq};

verus! {

/// `<before><type name><after>`, the common shape of a type mismatch message
/// that names what was expected in `before`.
pub(crate) fn must_be(line: usize, what: &str, requirement: &str, found: &Type) -> (e: CompileError)
    ensures
        e.line == line,
        e.message@ == what@ + " must be "@ + requirement@ + ", found "@ + display_name(found@),
{
    let mut message = String::from_str(what);
    message.append(" must be ");
    message.append(requirement);
    message.append(", found ");
    message.append(found.name().as_str());
    CompileError::new(line, message)
}

/// `<method> value must be an array literal or named array`.
pub(crate) fn literal_required(line: usize, method: &str) -> (e: CompileError)
    ensures
        e.line == line,
        e.message@ == method@ + " value must be an array literal or named array"@,
{
    let mut message = String::from_str(method);
    message.append(" value must be an array literal or named array");
    CompileError::new(line, message)
}

/// `<what> type mismatch: expected <expected>, found <found>`.
pub(crate) fn value_mismatch(line: usize, what: &str, expected: &Type, found: &Type) -> (e: CompileError)
    ensures
        e.line == line,
        e.message@ == what@ + " value type mismatch: expected "@ + display_name(expected@) + ", found "@ + display_name(found@),
{
    let mut message = String::from_str(what);
    message.append(" value type mismatch: expected ");
    message.append(expected.name().as_str());
    message.append(", found ");
    message.append(found.name().as_str());
    CompileError::new(line, message)
}

pub(crate) fn is_string_type(t: &Type) -> (r: bool)
    ensures
        r == string_like(t@),
{
    proof {
        lemma_type_model_tags(*t);
    }
    matches!(t, Type::String | Type::Path)
}

pub(crate) fn is_int_type(t: &Type) -> (r: bool)
    ensures
        r == (t@ == TypeModel::Int),
{
    proof {
        lemma_type_model_tags(*t);
    }
    matches!(t, Type::Int)
}

impl TypeChecker {
    /// A method of a string variable whose one argument must be a string too.
    pub fn check_string_arg_method(&self, name: &str, arg: &Expr, method: &str, what: &str, result: Type, line: usize) -> (r: Result<Type, CompileError>)
        requires
            self.wf(),
        ensures
            self.forbids(*arg) ==> r is Err,
            r matches Err(e) ==> e.line == line,
            r matches Ok(t) ==> t@ == result@,
        decreases arg, 6nat,
    {
        let binding = match self.lookup_binding(name) {
            Some(b) => b,
            None => return Err(undefined_variable(line, name)),
        };
        if !is_string_type(&binding.ty) {
            return Err(no_method(line, &binding.ty, method));
        }
        let arg_ty = self.check_expr(arg, line)?;
        if is_string_type(&arg_ty) {
            Ok(result)
        } else {
            Err(must_be(line, what, "String or Path", &arg_ty))
        }
    }

    /// `name.contains(x)`, `name.startsWith(x)` and `name.endsWith(x)`; an
    /// array variable has `contains` only.
    pub fn check_string_predicate(&self, name: &str, value: &Expr, method: &str, arg_name: &str, line: usize) -> (r: Result<Type, CompileError>)
        requires
            self.wf(),
        ensures
            self.forbids(*value) ==> r is Err,
            r matches Err(e) ==> e.line == line,
            r matches Ok(t) ==> t@ == TypeModel::Bool,
        decreases value, 6nat,
    {
        let binding = match self.lookup_binding(name) {
            Some(b) => b,
            None => return Err(undefined_variable(line, name)),
        };
        if let Type::Array(element) = &binding.ty {
            if !str_eq(method, "contains") {
                return Err(no_method(line, &binding.ty, method));
            }
            let value_ty = self.check_expr(value, line)?;
            return if self.is_assignable(element, &value_ty, value) {
                Ok(Type::Bool)
            } else {
                Err(value_mismatch(line, "contains", element, &value_ty))
            };
        }
        if !is_string_type(&binding.ty) {
            return Err(no_method(line, &binding.ty, method));
        }
        let value_ty = self.check_expr(value, line)?;
        if is_string_type(&value_ty) {
            Ok(Type::Bool)
        } else {
            let mut what = String::from_str(method);
            what.append(" ");
            what.append(arg_name);
            Err(must_be(line, what.as_str(), "String or Path", &value_ty))
        }
    }

    /// `name.repeat(count)`.
    pub fn check_string_repeat(&self, name: &str, count: &Expr, line: usize) -> (r: Result<Type, CompileError>)
        requires
            self.wf(),
        ensures
            self.forbids(*count) ==> r is Err,
            r matches Err(e) ==> e.line == line,
            r matches Ok(t) ==> t@ == TypeModel::String,
        decreases count, 6nat,
    {
        let binding = match self.lookup_binding(name) {
            Some(b) => b,
            None => return Err(undefined_variable(line, name)),
        };
        if !is_string_type(&binding.ty) {
            return Err(no_method(line, &binding.ty, "repeat"));
        }
        let count_ty = self.check_expr(count, line)?;
        if is_int_type(&count_ty) {
            Ok(Type::String)
        } else {
            Err(must_be(line, "repeat count", "Int", &count_ty))
        }
    }

    /// A method of a string variable that yields a string: `trim`,
    /// `toUpper`, `basename` and the like.
    pub fn check_string_transform(&self, name: &str, method: &str, line: usize) -> (r: Result<Type, CompileError>)
        requires
            self.wf(),
        ensures
            r matches Ok(t) ==> t@ == TypeModel::String,
            r is Ok <==> (self.lookup(name@) matches Some((ty, _)) && string_like(ty)),
            r matches Err(e) ==> e.line == line,
    {
        let binding = match self.lookup_binding(name) {
            Some(b) => b,
            None => return Err(undefined_variable(line, name)),
        };
        if is_string_type(&binding.ty) {
            Ok(Type::String)
        } else {
            Err(no_method(line, &binding.ty, method))
        }
    }

    /// `name.isAbsolute()`.
    pub fn check_path_predicate(&self, name: &str, method: &str, line: usize) -> (r: Result<Type, CompileError>)
        requires
            self.wf(),
        ensures
            r matches Ok(t) ==> t@ == TypeModel::Bool,
            r is Ok <==> (self.lookup(name@) matches Some((ty, _)) && string_like(ty)),
            r matches Err(e) ==> e.line == line,
    {
        let binding = match self.lookup_binding(name) {
            Some(b) => b,
            None => return Err(undefined_variable(line, name)),
        };
        if is_string_type(&binding.ty) {
            Ok(Type::Bool)
        } else {
            Err(no_method(line, &binding.ty, method))
        }
    }

    /// A method of a string literal or expression that yields a string.
    pub fn check_string_transform_value(&self, value: &Expr, method: &str, line: usize) -> (r: Result<Type, CompileError>)
        requires
            self.wf(),
        ensures
            self.forbids(*value) ==> r is Err,
            r matches Err(e) ==> e.line == line,
            r matches Ok(t) ==> t@ == TypeModel::String,
        decreases value, 6nat,
    {
        let value_ty = self.check_expr(value, line)?;
        if is_string_type(&value_ty) {
            Ok(Type::String)
        } else {
            Err(no_method(line, &value_ty, method))
        }
    }

    /// A method that needs an array value written as a literal.
    pub fn check_array_value(&self, value: &Expr, method: &str, line: usize) -> (r: Result<Type, CompileError>)
        requires
            self.wf(),
        ensures
            self.forbids(*value) ==> r is Err,
            r matches Err(e) ==> e.line == line,
            r matches Ok(t) ==> t@ is Array,
        decreases value, 6nat,
    {
        let value_ty = self.check_expr(value, line)?;
        let element = match value_ty {
            Type::Array(element) => element,
            other => return Err(no_method(line, &other, method)),
        };
        if !matches!(value, Expr::Array(_)) {
            return Err(literal_required(line, method));
        }
        Ok(Type::Array(element))
    }

    /// A method of a map value.
    pub fn check_map_value(&self, value: &Expr, method: &str, line: usize) -> (r: Result<Type, CompileError>)
        requires
            self.wf(),
        ensures
            self.forbids(*value) ==> r is Err,
            r matches Err(e) ==> e.line == line,
            r matches Ok(t) ==> t@ is Mapping,
        decreases value, 6nat,
    {
        let value_ty = self.check_expr(value, line)?;
        match value_ty {
            Type::Mapping(k, v) => Ok(Type::Mapping(k, v)),
            other => Err(no_method(line, &other, method)),
        }
    }

    /// `first()` or `last()` of a non-empty array literal.
    pub fn check_array_edge_value(&self, value: &Expr, method: &str, line: usize) -> (r: Result<Type, CompileError>)
        requires
            self.wf(),
        ensures
            self.forbids(*value) ==> r is Err,
            r matches Err(e) ==> e.line == line,
            !(value is Array) ==> r is Err,
            r matches Ok(t) ==> t@ != TypeModel::Unit,
        decreases value, 6nat,
    {
        let value_ty = self.check_expr(value, line)?;
        let element = match value_ty {
            Type::Array(element) => element,
            other => return Err(no_method(line, &other, method)),
        };
        if matches!(*element, Type::Unit) {
            let mut message = String::from_str(method);
            message.append(" requires a non-empty array literal");
            return Err(CompileError::new(line, message));
        }
        if !matches!(value, Expr::Array(_)) {
            return Err(literal_required(line, method));
        }
        Ok(*element)
    }

    /// `reverse()` or `unique()` of an array literal.
    pub fn check_array_transform_value(&self, value: &Expr, method: &str, line: usize) -> (r: Result<Type, CompileError>)
        requires
            self.wf(),
        ensures
            self.forbids(*value) ==> r is Err,
            r matches Err(e) ==> e.line == line,
            r matches Ok(t) ==> t@ is Array,
        decreases value, 7nat,
    {
        self.check_array_value(value, method, line)
    }

    /// `sort()` of an array literal of strings or paths.
    pub fn check_array_sort_value(&self, value: &Expr, line: usize) -> (r: Result<Type, CompileError>)
        requires
            self.wf(),
        ensures
            self.forbids(*value) ==> r is Err,
            r matches Err(e) ==> e.line == line,
            r matches Ok(t) ==> t@ is Array,
        decreases value, 8nat,
    {
        let value_ty = self.check_array_transform_value(value, "sort", line)?;
        match value_ty {
            Type::Array(element) => {
                if is_string_type(&element) {
                    Ok(Type::Array(element))
                } else {
                    Err(about_type(line, "sort array elements must be String or Path, found ", &element, ""))
                }
            },
            other => Err(no_method(line, &other, "sort")),
        }
    }

    /// `keys()` of a map value.
    pub fn check_map_keys_value(&self, value: &Expr, line: usize) -> (r: Result<Type, CompileError>)
        requires
            self.wf(),
        ensures
            self.forbids(*value) ==> r is Err,
            r matches Err(e) ==> e.line == line,
            r matches Ok(t) ==> t@ is Array,
        decreases value, 6nat,
    {
        match self.check_expr(value, line)? {
            Type::Mapping(key, _) => Ok(Type::Array(key)),
            other => Err(no_method(line, &other, "keys")),
        }
    }

    /// `values()` of a map value.
    pub fn check_map_values_value(&self, value: &Expr, line: usize) -> (r: Result<Type, CompileError>)
        requires
            self.wf(),
        ensures
            self.forbids(*value) ==> r is Err,
            r matches Err(e) ==> e.line == line,
            r matches Ok(t) ==> t@ is Array,
        decreases value, 6nat,
    {
        match self.check_expr(value, line)? {
            Type::Mapping(_, v) => Ok(Type::Array(v)),
            other => Err(no_method(line, &other, "values")),
        }
    }

    /// `name[index]` of an array or map variable.
    pub fn check_index(&self, name: &str, index: &Expr, line: usize) -> (r: Result<Type, CompileError>)
        requires
            self.wf(),
        ensures
            self.forbids(*index) ==> r is Err,
            r matches Err(e) ==> e.line == line,
            r matches Ok(t) ==> match self.lookup(name@) {
                Some((TypeModel::Array(e), _)) => t@ == *e,
                Some((TypeModel::Mapping(_, v), _)) => t@ == *v,
                _ => false,
            },
        decreases index, 6nat,
    {
        let index_ty = self.check_expr(index, line)?;
        let binding = match self.lookup_binding(name) {
            Some(b) => b,
            None => return Err(undefined_variable(line, name)),
        };
        match &binding.ty {
            Type::Array(element) => {
                if self.is_integer_numeric(&index_ty) {
                    Ok(element.duplicate())
                } else {
                    Err(about_type(line, "array index must be Int, found ", &index_ty, ""))
                }
            },
            Type::Mapping(key, value) => {
                if self.is_assignable(key, &index_ty, index) {
                    Ok(value.duplicate())
                } else {
                    Err(about_types(line, "map key must be ", key, ", found ", &index_ty))
                }
            },
            other => {
                let mut message = String::from_str("cannot index `");
                message.append(name);
                message.append("` of type ");
                message.append(other.name().as_str());
                Err(CompileError::new(line, message))
            },
        }
    }

    /// `name.take(n)` and `name.drop(n)` of an array variable.
    pub fn check_array_count(&self, name: &str, count: &Expr, method: &str, line: usize) -> (r: Result<Type, CompileError>)
        requires
            self.wf(),
        ensures
            self.forbids(*count) ==> r is Err,
            r matches Err(e) ==> e.line == line,
            self.lookup(name@) is None ==> (r matches Err(e) && e.message@ == undefined_variable_message(name@)),
            r matches Ok(t) ==> (self.lookup(name@) matches Some((ty, _)) && ty is Array && t@ == ty),
            !(self.lookup(name@) matches Some((TypeModel::Array(_), _))) ==> r is Err,
        decreases count, 6nat,
    {
        let binding = match self.lookup_binding(name) {
            Some(b) => b,
            None => return Err(undefined_variable(line, name)),
        };
        let count_ty = self.check_expr(count, line)?;
        if !is_int_type(&count_ty) {
            let mut what = String::from_str(method);
            what.append(" count");
            return Err(must_be(line, what.as_str(), "Int", &count_ty));
        }
        match &binding.ty {
            Type::Array(element) => Ok(Type::Array(Box::new(element.duplicate()))),
            other => Err(no_method(line, other, method)),
        }
    }

    /// `name.join(separator)` of an array of strings.
    pub fn check_join(&self, name: &str, separator: &Expr, line: usize) -> (r: Result<Type, CompileError>)
        requires
            self.wf(),
        ensures
            self.forbids(*separator) ==> r is Err,
            r matches Err(e) ==> e.line == line,
            r matches Ok(t) ==> t@ == TypeModel::String,
        decreases separator, 6nat,
    {
        let binding = match self.lookup_binding(name) {
            Some(b) => b,
            None => return Err(undefined_variable(line, name)),
        };
        let separator_ty = self.check_expr(separator, line)?;
        if !is_string_type(&separator_ty) {
            return Err(must_be(line, "join separator", "String or Path", &separator_ty));
        }
        match &binding.ty {
            Type::Array(element) => {
                if is_string_type(element) {
                    Ok(Type::String)
                } else {
                    Err(about_type(line, "join array elements must be String or Path, found ", element, ""))
                }
            },
            other => Err(no_method(line, other, "join")),
        }
    }

    /// `name.push(value)`: the variable must be a mutable array.
    pub fn check_array_push(&self, name: &str, value: &Expr, line: usize) -> (r: Result<Type, CompileError>)
        requires
            self.wf(),
        ensures
            self.forbids(*value) ==> r is Err,
            r matches Err(e) ==> e.line == line,
            r matches Ok(t) ==> t@ == TypeModel::Unit && (self.lookup(name@) matches Some((TypeModel::Array(_), true))),
        decreases value, 6nat,
    {
        let binding = match self.lookup_binding(name) {
            Some(b) => b,
            None => return Err(undefined_variable(line, name)),
        };
        if !binding.mutable {
            return Err(about(line, "cannot push to const array `", name, "`"));
        }
        let element = match &binding.ty {
            Type::Array(element) => element,
            other => return Err(no_method(line, other, "push")),
        };
        let value_ty = self.check_expr(value, line)?;
        if self.is_assignable(element, &value_ty, value) {
            Ok(Type::Unit)
        } else {
            Err(about_types(line, "push value type mismatch: expected ", element, ", found ", &value_ty))
        }
    }

    /// `name.pop()`: the variable must be a mutable array.
    pub fn check_array_pop(&self, name: &str, line: usize) -> (r: Result<Type, CompileError>)
        requires
            self.wf(),
        ensures
            r matches Err(e) ==> e.line == line,
            r is Ok <==> (self.lookup(name@) matches Some((TypeModel::Array(_), true))),
            r matches Ok(t) ==> t@ == TypeModel::Unit,
    {
        let binding = match self.lookup_binding(name) {
            Some(b) => b,
            None => return Err(undefined_variable(line, name)),
        };
        if !binding.mutable {
            return Err(about(line, "cannot pop from const array `", name, "`"));
        }
        match &binding.ty {
            Type::Array(_) => Ok(Type::Unit),
            other => Err(no_method(line, other, "pop")),
        }
    }

    /// `name.contains(value)` of an array variable.
    pub fn check_array_contains(&self, name: &str, value: &Expr, line: usize) -> (r: Result<Type, CompileError>)
        requires
            self.wf(),
        ensures
            self.forbids(*value) ==> r is Err,
            r matches Err(e) ==> e.line == line,
            r matches Ok(t) ==> t@ == TypeModel::Bool,
        decreases value, 6nat,
    {
        let binding = match self.lookup_binding(name) {
            Some(b) => b,
            None => return Err(undefined_variable(line, name)),
        };
        let element = match &binding.ty {
            Type::Array(element) => element,
            other => return Err(no_method(line, other, "contains")),
        };
        let value_ty = self.check_expr(value, line)?;
        if self.is_assignable(element, &value_ty, value) {
            Ok(Type::Bool)
        } else {
            Err(value_mismatch(line, "contains", element, &value_ty))
        }
    }

    /// `name.indexOf(value)` of an array or string variable.
    pub fn check_index_of(&self, name: &str, value: &Expr, line: usize) -> (r: Result<Type, CompileError>)
        requires
            self.wf(),
        ensures
            self.forbids(*value) ==> r is Err,
            r matches Err(e) ==> e.line == line,
            r matches Ok(t) ==> t@ == TypeModel::Int,
        decreases value, 7nat,
    {
        let binding = match self.lookup_binding(name) {
            Some(b) => b,
            None => return Err(undefined_variable(line, name)),
        };
        match &binding.ty {
            Type::Array(element) => {
                let value_ty = self.check_expr(value, line)?;
                if self.is_assignable(element, &value_ty, value) {
                    Ok(Type::Int)
                } else {
                    Err(value_mismatch(line, "indexOf", element, &value_ty))
                }
            },
            Type::String | Type::Path => self.check_string_arg_method(name, value, "indexOf", "indexOf needle", Type::Int, line),
            other => Err(no_method(line, other, "indexOf")),
        }
    }

    /// `name.has(key)` of a map variable.
    pub fn check_map_has(&self, name: &str, key: &Expr, line: usize) -> (r: Result<Type, CompileError>)
        requires
            self.wf(),
        ensures
            self.forbids(*key) ==> r is Err,
            r matches Err(e) ==> e.line == line,
            r matches Ok(t) ==> t@ == TypeModel::Bool,
        decreases key, 6nat,
    {
        let key_ty = self.check_expr(key, line)?;
        let binding = match self.lookup_binding(name) {
            Some(b) => b,
            None => return Err(undefined_variable(line, name)),
        };
        match &binding.ty {
            Type::Mapping(expected, _) => {
                if self.is_assignable(expected, &key_ty, key) {
                    Ok(Type::Bool)
                } else {
                    Err(about_types(line, "map key must be ", expected, ", found ", &key_ty))
                }
            },
            other => Err(no_method(line, other, "has")),
        }
    }

    /// `name.remove(key)`: the variable must be a mutable map.
    pub fn check_map_remove(&self, name: &str, key: &Expr, line: usize) -> (r: Result<Type, CompileError>)
        requires
            self.wf(),
        ensures
            self.forbids(*key) ==> r is Err,
            r matches Err(e) ==> e.line == line,
            r matches Ok(t) ==> t@ == TypeModel::Unit,
        decreases key, 6nat,
    {
        let binding = match self.lookup_binding(name) {
            Some(b) => b,
            None => return Err(undefined_variable(line, name)),
        };
        if !binding.mutable {
            return Err(about(line, "cannot remove from const map `", name, "`"));
        }
        let expected_key = match &binding.ty {
            Type::Mapping(k, _) => k,
            other => return Err(no_method(line, other, "remove")),
        };
        let key_ty = self.check_expr(key, line)?;
        if self.is_assignable(expected_key, &key_ty, key) {
            Ok(Type::Unit)
        } else {
            Err(about_types(line, "map key must be ", expected_key, ", found ", &key_ty))
        }
    }

    /// `json.parse(value)` of a string or path.
    pub fn check_json_parse(&self, value: &Expr, line: usize) -> (r: Result<Type, CompileError>)
        requires
            self.wf(),
        ensures
            self.forbids(*value) ==> r is Err,
            r matches Err(e) ==> e.line == line,
            r matches Ok(t) ==> t@ == TypeModel::Mapping(Box::new(TypeModel::String), Box::new(TypeModel::String)),
        decreases value, 6nat,
    {
        let value_ty = self.check_expr(value, line)?;
        if is_string_type(&value_ty) {
            let t = Type::Mapping(Box::new(Type::String), Box::new(Type::String));
            assert(type_model(Type::String) == TypeModel::String);
            Ok(t)
        } else {
            Err(must_be(line, "json.parse value", "String or Path", &value_ty))
        }
    }

    /// `process.env(name)` of a string or path.
    pub fn check_process_env(&self, name: &Expr, line: usize) -> (r: Result<Type, CompileError>)
        requires
            self.wf(),
        ensures
            self.forbids(*name) ==> r is Err,
            r matches Err(e) ==> e.line == line,
            r matches Ok(t) ==> t@ == TypeModel::String,
        decreases name, 6nat,
    {
        let name_ty = self.check_expr(name, line)?;
        if is_string_type(&name_ty) {
            Ok(Type::String)
        } else {
            Err(must_be(line, "process.env name", "String or Path", &name_ty))
        }
    }

    /// `pathExists(path)` of a string or path.
    pub fn check_path_exists(&self, path: &Expr, line: usize) -> (r: Result<Type, CompileError>)
        requires
            self.wf(),
        ensures
            self.forbids(*path) ==> r is Err,
            r matches Err(e) ==> e.line == line,
            r matches Ok(t) ==> t@ == TypeModel::Bool,
        decreases path, 6nat,
    {
        let path_ty = self.check_expr(path, line)?;
        if is_string_type(&path_ty) {
            Ok(Type::Bool)
        } else {
            Err(about_type(line, "pathExists expects String or Path, found ", &path_ty, ""))
        }
    }

    /// A filesystem path argument must be a string or path.
    pub fn check_fs_path(&self, path: &Expr, line: usize) -> (r: Result<(), CompileError>)
        requires
            self.wf(),
        ensures
            self.forbids(*path) ==> r is Err,
            r matches Err(e) ==> e.line == line,
            crate::checker::exprs::form_type(*path) matches Some(t) ==> (!string_like(t) ==> r is Err),
        decreases path, 6nat,
    {
        let path_ty = self.check_expr(path, line)?;
        if is_string_type(&path_ty) {
            Ok(())
        } else {
            Err(must_be(line, "fs path", "String or Path", &path_ty))
        }
    }

    /// The policy must name at least one root that may be read.
    pub fn require_read_access(&self, operation: &str, line: usize) -> (r: Result<(), CompileError>)
        ensures
            r is Ok <==> self.policy.read_roots@.len() > 0,
            r matches Err(e) ==> e.line == line && e.message@ == operation@ + " requires at least one allowed filesystem read root"@,
    {
        if self.policy.has_read_access() {
            Ok(())
        } else {
            let mut message = String::from_str(operation);
            message.append(" requires at least one allowed filesystem read root");
            Err(CompileError::new(line, message))
        }
    }

    /// The policy must name at least one root that may be written.
    pub fn require_write_access(&self, operation: &str, line: usize) -> (r: Result<(), CompileError>)
        ensures
            r is Ok <==> self.policy.write_roots@.len() > 0,
            r matches Err(e) ==> e.line == line && e.message@ == operation@ + " requires at least one allowed filesystem write root"@,
    {
        if self.policy.has_write_access() {
            Ok(())
        } else {
            let mut message = String::from_str(operation);
            message.append(" requires at least one allowed filesystem write root");
            Err(CompileError::new(line, message))
        }
    }
}

} // verus!
