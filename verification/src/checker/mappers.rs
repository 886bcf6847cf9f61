//! `map`, `flatMap`, `ap` and `orElse` on arrays, Options and Results.

use vstd::prelude::*;
use vstd::string::StringExecFns;

use crate::ast::{display_name, lemma_type_model_tags, lemma_types_model, type_model, types_model, Expr, Type, TypeModel};
use crate::checker::messages::{about, about_type, about_types, fixed, no_method, undefined_variable, undefined_variable_message};
use crate::checker::methods::applied_one;
use crate::checker::TypeChecker;
use crate::collections::Duplicate;
use crate::error::CompileError;
use crate::text::decimal_string;
use crate::type_utils::{option_element, option_element_type, result_parts, result_types};

verus! {

/// `<method> <what> expects 1 parameter, found <n>`.
fn one_parameter(line: usize, method: &str, what: &str, found: usize) -> (e: CompileError)
    ensures
        e.line == line,
{
    let mut message = String::from_str(method);
    message.append(" ");
    message.append(what);
    message.append(" expects 1 parameter, found ");
    message.append(decimal_string(found).as_str());
    CompileError::new(line, message)
}

/// `<prefix><method><suffix>`, a message about one method.
fn about_method(line: usize, prefix: &str, method: &str, suffix: &str) -> (e: CompileError)
    ensures
        e.line == line,
        e.message@ == prefix@ + method@ + suffix@,
{
    about(line, prefix, method, suffix)
}

fn is_unit(t: &Type) -> (r: bool)
    ensures
        r == (t@ == TypeModel::Unit),
{
    proof {
        lemma_type_model_tags(*t);
    }
    matches!(t, Type::Unit)
}

impl TypeChecker {
    /// The type a mapper returns for an element of the given type: a lambda
    /// of one parameter is checked with the parameter bound to the element;
    /// any other mapper must be a function of one parameter that accepts it.
    pub fn check_map_mapper(&self, mapper: &Expr, element: &Type, method: &str, line: usize) -> (r: Result<Type, CompileError>)
        requires
            self.wf(),
        ensures
            self.forbids(*mapper) ==> r is Err,
            r matches Err(e) ==> e.line == line,
            mapper matches Expr::Lambda { params, .. } ==> (params@.len() != 1 ==> r is Err),
            !(mapper is Lambda) && crate::checker::exprs::form_type(*mapper) is Some ==> r is Err,
        decreases mapper, 7nat,
    {
        if let Expr::Lambda { params, body } = mapper {
            if params.len() != 1 {
                return Err(one_parameter(line, method, "lambda", params.len()));
            }
            let mut param_types: Vec<Type> = Vec::new();
            param_types.push(element.duplicate());
            let checker = self.lambda_checker(params, &param_types, line);
            return checker.check_expr(body, line);
        }
        let mapper_ty = self.check_expr(mapper, line)?;
        let (params, return_type) = match mapper_ty {
            Type::Function(params, return_type) => (params, return_type),
            other => {
                let mut message = String::from_str(method);
                message.append(" mapper must be a function, found ");
                message.append(other.name().as_str());
                return Err(CompileError::new(line, message));
            },
        };
        if params.len() != 1 {
            return Err(one_parameter(line, method, "mapper", params.len()));
        }
        if !self.is_assignable(&params[0], element, mapper) {
            let mut message = String::from_str(method);
            message.append(" mapper parameter must accept ");
            message.append(element.name().as_str());
            message.append(", found ");
            message.append(params[0].name().as_str());
            return Err(CompileError::new(line, message));
        }
        Ok(*return_type)
    }

    /// The element type of an Option variable, which must not be `Unit`.
    fn option_variable_element(&self, name: &str, method: &str, line: usize) -> (r: Result<Type, CompileError>)
        requires
            self.wf(),
        ensures
            r matches Err(e) ==> e.line == line,
            r matches Ok(t) ==> t@ != TypeModel::Unit,
            self.lookup(name@) is None ==> (r matches Err(e) && e.message@ == undefined_variable_message(name@)),
            self.lookup(name@) matches Some((ty, _)) ==> (option_element(ty) is None ==> r is Err),
            r matches Ok(t) ==> (self.lookup(name@) matches Some((ty, _)) && option_element(ty) == Some(t@)),
    {
        let binding = match self.lookup_binding(name) {
            Some(b) => b,
            None => return Err(undefined_variable(line, name)),
        };
        self.option_element_of(&binding.ty, method, line)
    }

    /// The element type of an Option type, which must not be `Unit`.
    pub(crate) fn option_element_of(&self, ty: &Type, method: &str, line: usize) -> (r: Result<Type, CompileError>)
        ensures
            r matches Err(e) ==> e.line == line,
            r matches Ok(t) ==> option_element(ty@) == Some(t@) && t@ != TypeModel::Unit,
            option_element(ty@) is None ==> r is Err,
    {
        let element = match option_element_type(ty) {
            Some(e) => e,
            None => return Err(no_method(line, ty, method)),
        };
        if is_unit(element) {
            return Err(about_method(line, "", method, " on None requires a typed Option"));
        }
        Ok(element.duplicate())
    }

    /// The success and error types of a Result type; the success must not be `Unit`.
    pub(crate) fn result_parts_of(&self, ty: &Type, method: &str, line: usize) -> (r: Result<(Type, Type), CompileError>)
        ensures
            r matches Err(e) ==> e.line == line,
            r matches Ok((ok, err)) ==> result_parts(ty@) == Some((ok@, err@)) && ok@ != TypeModel::Unit,
            result_parts(ty@) is None ==> r is Err,
    {
        let (ok, err) = match result_types(ty) {
            Some(parts) => parts,
            None => return Err(no_method(line, ty, method)),
        };
        if is_unit(ok) {
            return Err(about_method(line, "", method, " on Err requires a typed Result"));
        }
        Ok((ok.duplicate(), err.duplicate()))
    }

    /// `name.map(f)` of an array variable: the element and mapped types.
    pub fn check_array_map(&self, name: &str, mapper: &Expr, line: usize) -> (r: Result<(Type, Type), CompileError>)
        requires
            self.wf(),
        ensures
            self.forbids(*mapper) ==> r is Err,
            r matches Err(e) ==> e.line == line,
            r matches Ok((element, _)) ==> (self.lookup(name@) matches Some((TypeModel::Array(e), _)) && element@ == *e),
            !(self.lookup(name@) matches Some((TypeModel::Array(_), _))) ==> r is Err,
        decreases mapper, 8nat,
    {
        let binding = match self.lookup_binding(name) {
            Some(b) => b,
            None => return Err(undefined_variable(line, name)),
        };
        let element = match binding.ty {
            Type::Array(element) => element,
            other => return Err(no_method(line, &other, "map")),
        };
        let mapped = self.check_map_mapper(mapper, &element, "map", line)?;
        Ok((*element, mapped))
    }

    /// `[...].map(f)` of an array literal.
    pub(crate) fn check_array_map_value(&self, value: &Expr, mapper: &Expr, line: usize, Ghost(owner): Ghost<Expr>) -> (r: Result<(Type, Type), CompileError>)
        requires
            self.wf(),
            decreases_to!(owner => *value),
            decreases_to!(owner => *mapper),
        ensures
            self.forbids(*value) || self.forbids(*mapper) ==> r is Err,
            r matches Err(e) ==> e.line == line,
            !(value is Array) ==> r is Err,
            r matches Ok((element, _)) ==> element@ != TypeModel::Unit,
        decreases owner, 4nat,
    {
        let value_ty = self.check_expr(value, line)?;
        let element = match value_ty {
            Type::Array(element) => element,
            other => return Err(no_method(line, &other, "map")),
        };
        if is_unit(&element) {
            return Err(fixed(line, "map requires a non-empty array literal or typed array"));
        }
        if !matches!(value, Expr::Array(_)) {
            return Err(fixed(line, "map value must be an array literal or named array"));
        }
        let mapped = self.check_map_mapper(mapper, &element, "map", line)?;
        Ok((*element, mapped))
    }

    /// `name.map(f)` of an Option variable.
    pub fn check_option_map(&self, name: &str, mapper: &Expr, line: usize) -> (r: Result<(Type, Type), CompileError>)
        requires
            self.wf(),
        ensures
            self.forbids(*mapper) ==> r is Err,
            r matches Err(e) ==> e.line == line,
            self.lookup(name@) is None ==> (r matches Err(e) && e.message@ == undefined_variable_message(name@)),
            self.lookup(name@) matches Some((ty, _)) ==> (option_element(ty) is None ==> r is Err),
            r matches Ok((element, _)) ==> (self.lookup(name@) matches Some((ty, _)) && option_element(ty) == Some(element@)
                && element@ != TypeModel::Unit),
        decreases mapper, 8nat,
    {
        let element = self.option_variable_element(name, "map", line)?;
        let mapped = self.check_map_mapper(mapper, &element, "map", line)?;
        Ok((element, mapped))
    }

    /// `value.map(f)` of an Option value.
    pub(crate) fn check_option_map_value(&self, value: &Expr, mapper: &Expr, line: usize, Ghost(owner): Ghost<Expr>) -> (r: Result<(Type, Type), CompileError>)
        requires
            self.wf(),
            decreases_to!(owner => *value),
            decreases_to!(owner => *mapper),
        ensures
            self.forbids(*value) || self.forbids(*mapper) ==> r is Err,
            r matches Err(e) ==> e.line == line,
            r matches Ok((element, _)) ==> element@ != TypeModel::Unit,
        decreases owner, 4nat,
    {
        let value_ty = self.check_expr(value, line)?;
        let element = self.option_element_of(&value_ty, "map", line)?;
        let mapped = self.check_map_mapper(mapper, &element, "map", line)?;
        Ok((element, mapped))
    }

    /// `name.map(f)` of a Result variable: the success, error and mapped types.
    pub fn check_result_map(&self, name: &str, mapper: &Expr, line: usize) -> (r: Result<(Type, Type, Type), CompileError>)
        requires
            self.wf(),
        ensures
            self.forbids(*mapper) ==> r is Err,
            r matches Err(e) ==> e.line == line,
            self.lookup(name@) is None ==> (r matches Err(e) && e.message@ == undefined_variable_message(name@)),
            self.lookup(name@) matches Some((ty, _)) ==> (result_parts(ty) is None ==> r is Err),
            r matches Ok((ok, _, _)) ==> (self.lookup(name@) matches Some((ty, _)) && result_parts(ty) matches Some((o, _))
                && o == ok@ && ok@ != TypeModel::Unit),
        decreases mapper, 8nat,
    {
        let binding = match self.lookup_binding(name) {
            Some(b) => b,
            None => return Err(undefined_variable(line, name)),
        };
        let (ok, err) = self.result_parts_of(&binding.ty, "map", line)?;
        let mapped = self.check_map_mapper(mapper, &ok, "map", line)?;
        Ok((ok, err, mapped))
    }

    /// `value.map(f)` of a Result value.
    pub(crate) fn check_result_map_value(&self, value: &Expr, mapper: &Expr, line: usize, Ghost(owner): Ghost<Expr>) -> (r: Result<(Type, Type, Type), CompileError>)
        requires
            self.wf(),
            decreases_to!(owner => *value),
            decreases_to!(owner => *mapper),
        ensures
            self.forbids(*value) || self.forbids(*mapper) ==> r is Err,
            r matches Err(e) ==> e.line == line,
            r matches Ok((ok, _, _)) ==> ok@ != TypeModel::Unit,
        decreases owner, 4nat,
    {
        let value_ty = self.check_expr(value, line)?;
        let (ok, err) = self.result_parts_of(&value_ty, "map", line)?;
        let mapped = self.check_map_mapper(mapper, &ok, "map", line)?;
        Ok((ok, err, mapped))
    }

    /// A flatMap mapper over an Option must return a typed Option.
    pub fn check_flat_map_result(&self, element: &Type, mapped: Type, line: usize) -> (r: Result<(Type, Type), CompileError>)
        ensures
            r matches Err(e) ==> e.line == line,
            r matches Ok((a, b)) ==> a@ == element@ && b@ == mapped@,
            option_element(mapped@) is None ==> r is Err,
    {
        let mapped_element = match option_element_type(&mapped) {
            Some(t) => t,
            None => return Err(about_type(line, "flatMap mapper must return Option, found ", &mapped, "")),
        };
        if is_unit(mapped_element) {
            return Err(fixed(line, "flatMap mapper returning None requires a typed Option"));
        }
        Ok((element.duplicate(), mapped))
    }

    /// A flatMap mapper over a Result must return a Result whose error fits
    /// the receiver's error; the result joins the two errors.
    pub fn check_result_flat_map_result(&self, element: &Type, error: &Type, mapped: Type, mapper: &Expr, line: usize) -> (r: Result<(Type, Type, Type), CompileError>)
        ensures
            r matches Err(e) ==> e.line == line,
            result_parts(mapped@) is None ==> r is Err,
            r matches Ok((a, b, c)) ==> a@ == element@ && b@ == mapped@ && (result_parts(mapped@) matches Some((ok, _))
                && c@ matches TypeModel::Applied(n, args) && n == "Result"@ && args.len() == 2 && args[0] == ok),
    {
        let (mapped_element, mapped_error) = match result_types(&mapped) {
            Some(parts) => parts,
            None => return Err(about_type(line, "flatMap mapper must return Result, found ", &mapped, "")),
        };
        let result_error = if is_unit(error) {
            mapped_error.duplicate()
        } else if is_unit(mapped_error) || self.is_assignable(error, mapped_error, mapper) {
            error.duplicate()
        } else {
            return Err(about_types(line, "flatMap mapper error must be assignable to ", error, ", found ", mapped_error));
        };
        let result = crate::checker::exprs::result_of(mapped_element.duplicate(), result_error);
        Ok((element.duplicate(), mapped, result))
    }

    /// `name.flatMap(f)` of an Option variable.
    pub fn check_option_flat_map(&self, name: &str, mapper: &Expr, line: usize) -> (r: Result<(Type, Type), CompileError>)
        requires
            self.wf(),
        ensures
            self.forbids(*mapper) ==> r is Err,
            r matches Err(e) ==> e.line == line,
            self.lookup(name@) is None ==> (r matches Err(e) && e.message@ == undefined_variable_message(name@)),
            self.lookup(name@) matches Some((ty, _)) ==> (option_element(ty) is None ==> r is Err),
            r matches Ok((element, _)) ==> (self.lookup(name@) matches Some((ty, _)) && option_element(ty) == Some(element@)
                && element@ != TypeModel::Unit),
            r matches Ok((_, mapped)) ==> option_element(mapped@) is Some,
        decreases mapper, 8nat,
    {
        let element = self.option_variable_element(name, "flatMap", line)?;
        let mapped = self.check_map_mapper(mapper, &element, "flatMap", line)?;
        self.check_flat_map_result(&element, mapped, line)
    }

    /// `value.flatMap(f)` of an Option value.
    pub(crate) fn check_option_flat_map_value(&self, value: &Expr, mapper: &Expr, line: usize, Ghost(owner): Ghost<Expr>) -> (r: Result<(Type, Type), CompileError>)
        requires
            self.wf(),
            decreases_to!(owner => *value),
            decreases_to!(owner => *mapper),
        ensures
            self.forbids(*value) || self.forbids(*mapper) ==> r is Err,
            r matches Err(e) ==> e.line == line,
            r matches Ok((element, mapped)) ==> element@ != TypeModel::Unit && option_element(mapped@) is Some,
        decreases owner, 4nat,
    {
        let value_ty = self.check_expr(value, line)?;
        let element = self.option_element_of(&value_ty, "flatMap", line)?;
        let mapped = self.check_map_mapper(mapper, &element, "flatMap", line)?;
        self.check_flat_map_result(&element, mapped, line)
    }

    /// `name.flatMap(f)` of a Result variable.
    pub fn check_result_flat_map(&self, name: &str, mapper: &Expr, line: usize) -> (r: Result<(Type, Type, Type), CompileError>)
        requires
            self.wf(),
        ensures
            self.forbids(*mapper) ==> r is Err,
            r matches Err(e) ==> e.line == line,
            self.lookup(name@) is None ==> (r matches Err(e) && e.message@ == undefined_variable_message(name@)),
            self.lookup(name@) matches Some((ty, _)) ==> (result_parts(ty) is None ==> r is Err),
            r matches Ok((ok, _, _)) ==> (self.lookup(name@) matches Some((ty, _)) && result_parts(ty) matches Some((o, _))
                && o == ok@ && ok@ != TypeModel::Unit),
            r matches Ok((_, mapped, result)) ==> (result_parts(mapped@) matches Some((ok, _)) && result@ matches TypeModel::Applied(
                n,
                args,
            ) && n == "Result"@ && args.len() == 2 && args[0] == ok),
        decreases mapper, 8nat,
    {
        let binding = match self.lookup_binding(name) {
            Some(b) => b,
            None => return Err(undefined_variable(line, name)),
        };
        let (ok, err) = self.result_parts_of(&binding.ty, "flatMap", line)?;
        let mapped = self.check_map_mapper(mapper, &ok, "flatMap", line)?;
        self.check_result_flat_map_result(&ok, &err, mapped, mapper, line)
    }

    /// `value.flatMap(f)` of a Result value.
    pub(crate) fn check_result_flat_map_value(&self, value: &Expr, mapper: &Expr, line: usize, Ghost(owner): Ghost<Expr>) -> (r: Result<(Type, Type, Type), CompileError>)
        requires
            self.wf(),
            decreases_to!(owner => *value),
            decreases_to!(owner => *mapper),
        ensures
            self.forbids(*value) || self.forbids(*mapper) ==> r is Err,
            r matches Err(e) ==> e.line == line,
            r matches Ok((ok, mapped, result)) ==> ok@ != TypeModel::Unit && (result_parts(mapped@) matches Some((o, _))
                && result@ matches TypeModel::Applied(n, args) && n == "Result"@ && args.len() == 2 && args[0] == o),
        decreases owner, 4nat,
    {
        let value_ty = self.check_expr(value, line)?;
        let (ok, err) = self.result_parts_of(&value_ty, "flatMap", line)?;
        let mapped = self.check_map_mapper(mapper, &ok, "flatMap", line)?;
        self.check_result_flat_map_result(&ok, &err, mapped, mapper, line)
    }

    /// The function inside an applicative receiver: it must take one parameter.
    fn ap_function<'a>(&self, function: &'a Type, kind: &str, line: usize) -> (r: Result<(&'a Type, &'a Type), CompileError>)
        ensures
            r matches Err(e) ==> e.line == line,
            r is Ok <==> (function@ matches TypeModel::Function(ps, _) && ps.len() == 1),
            r matches Ok((param, ret)) ==> function@ == TypeModel::Function(seq![param@], Box::new(ret@)),
    {
        proof {
            lemma_type_model_tags(*function);
        }
        if is_unit(function) {
            let mut message = String::from_str("ap on ");
            message.append(kind);
            message.append(" requires a typed ");
            message.append(if crate::text::str_eq(kind, "None") { "Option" } else { "Result" });
            message.append(" function");
            return Err(CompileError::new(line, message));
        }
        let (params, return_type) = match function {
            Type::Function(params, return_type) => (params, return_type),
            _ => return Err(about_type(line, "ap receiver must contain a function, found ", function, "")),
        };
        proof {
            lemma_types_model(params@);
        }
        if params.len() != 1 {
            let mut message = String::from_str("ap function expects 1 parameter, found ");
            message.append(decimal_string(params.len()).as_str());
            return Err(CompileError::new(line, message));
        }
        proof {
            assert(types_model(params@) =~= seq![params@[0]@]);
        }
        Ok((&params[0], &**return_type))
    }

    /// `f.ap(x)` on Options: `Option[T => U]` applied to `Option[T]`.
    pub fn check_option_ap_types(&self, function_ty: &Type, value_ty: &Type, value: &Expr, line: usize) -> (r: Result<Type, CompileError>)
        ensures
            r matches Err(e) ==> e.line == line,
            option_element(function_ty@) is None ==> r is Err,
            r matches Ok(t) ==> t@ matches TypeModel::Applied(n, args) && n == "Option"@ && args.len() == 1,
    {
        let function = match option_element_type(function_ty) {
            Some(f) => f,
            None => return Err(no_method(line, function_ty, "ap")),
        };
        let (param, return_type) = self.ap_function(function, "None", line)?;
        let element = match option_element_type(value_ty) {
            Some(e) => e,
            None => return Err(about_type(line, "ap argument must be Option, found ", value_ty, "")),
        };
        if !is_unit(element) && !self.is_assignable(param, element, value) {
            return Err(about_types(line, "ap argument must contain ", param, ", found ", element));
        }
        Ok(applied_one("Option", return_type.duplicate()))
    }

    /// `f.ap(x)` on Results: the errors of the two sides are joined.
    pub fn check_result_ap_types(&self, function_ty: &Type, value_ty: &Type, value: &Expr, line: usize) -> (r: Result<Type, CompileError>)
        ensures
            r matches Err(e) ==> e.line == line,
            result_parts(function_ty@) is None ==> r is Err,
            r matches Ok(t) ==> t@ matches TypeModel::Applied(n, args) && n == "Result"@ && args.len() == 2,
    {
        let (function, function_error) = match result_types(function_ty) {
            Some(parts) => parts,
            None => return Err(no_method(line, function_ty, "ap")),
        };
        let (param, return_type) = self.ap_function(function, "Err", line)?;
        let (element, value_error) = match result_types(value_ty) {
            Some(parts) => parts,
            None => return Err(about_type(line, "ap argument must be Result, found ", value_ty, "")),
        };
        if !is_unit(element) && !self.is_assignable(param, element, value) {
            return Err(about_types(line, "ap argument must contain ", param, ", found ", element));
        }
        let error = if is_unit(function_error) {
            value_error.duplicate()
        } else if is_unit(value_error) || self.is_assignable(function_error, value_error, value) {
            function_error.duplicate()
        } else {
            return Err(about_types(line, "ap argument error must be assignable to ", function_error, ", found ", value_error));
        };
        Ok(crate::checker::exprs::result_of(return_type.duplicate(), error))
    }

    /// `name.ap(x)` of a variable holding an Option or Result of a function.
    pub fn check_named_ap(&self, name: &str, value: &Expr, result: bool, line: usize) -> (r: Result<Type, CompileError>)
        requires
            self.wf(),
        ensures
            self.forbids(*value) ==> r is Err,
            r matches Err(e) ==> e.line == line,
            self.lookup(name@) is None ==> (r matches Err(e) && e.message@ == undefined_variable_message(name@)),
            self.lookup(name@) matches Some((ty, _)) ==> (result && result_parts(ty) is None ==> r is Err),
            self.lookup(name@) matches Some((ty, _)) ==> (!result && option_element(ty) is None ==> r is Err),
            r matches Ok(t) ==> t@ matches TypeModel::Applied(n, args) && if result {
                n == "Result"@ && args.len() == 2
            } else {
                n == "Option"@ && args.len() == 1
            },
        decreases value, 6nat,
    {
        let binding = match self.lookup_binding(name) {
            Some(b) => b,
            None => return Err(undefined_variable(line, name)),
        };
        let value_ty = self.check_expr(value, line)?;
        if result {
            self.check_result_ap_types(&binding.ty, &value_ty, value, line)
        } else {
            self.check_option_ap_types(&binding.ty, &value_ty, value, line)
        }
    }

    /// `f.ap(x)` of a function value and an argument value.
    pub(crate) fn check_ap_value(&self, function: &Expr, value: &Expr, result: Option<bool>, line: usize, Ghost(owner): Ghost<Expr>) -> (r: Result<Type, CompileError>)
        requires
            self.wf(),
            decreases_to!(owner => *function),
            decreases_to!(owner => *value),
        ensures
            self.forbids(*function) || self.forbids(*value) ==> r is Err,
            r matches Err(e) ==> e.line == line,
            r matches Ok(t) ==> t@ matches TypeModel::Applied(n, args) && ((n == "Result"@ && args.len() == 2) || (n
                == "Option"@ && args.len() == 1)),
            result == Some(true) ==> (r matches Ok(t) ==> t@ matches TypeModel::Applied(n, args) && n == "Result"@ && args.len() == 2),
        decreases owner, 4nat,
    {
        let function_ty = self.check_expr(function, line)?;
        let on_result = match result {
            Some(b) => b,
            None => result_types(&function_ty).is_some(),
        };
        let value_ty = self.check_expr(value, line)?;
        if on_result {
            self.check_result_ap_types(&function_ty, &value_ty, value, line)
        } else {
            self.check_option_ap_types(&function_ty, &value_ty, value, line)
        }
    }

    /// `a.orElse(b)` on Options: a `None` side takes the other side's type.
    pub fn check_option_or_else_types(&self, value_ty: &Type, fallback_ty: &Type, fallback: &Expr, line: usize) -> (r: Result<Type, CompileError>)
        ensures
            r matches Err(e) ==> e.line == line,
            option_element(value_ty@) is None ==> r is Err,
            option_element(fallback_ty@) is None ==> r is Err,
            r matches Ok(t) ==> t@ == value_ty@ || t@ == fallback_ty@,
    {
        let value_element = match option_element_type(value_ty) {
            Some(e) => e,
            None => return Err(no_method(line, value_ty, "orElse")),
        };
        let fallback_element = match option_element_type(fallback_ty) {
            Some(e) => e,
            None => return Err(about_type(line, "orElse fallback must be Option, found ", fallback_ty, "")),
        };
        if is_unit(value_element) && is_unit(fallback_element) {
            return Err(fixed(line, "orElse with two None values requires a typed Option"));
        }
        if is_unit(value_element) {
            return Ok(fallback_ty.duplicate());
        }
        if is_unit(fallback_element) || self.is_assignable(value_element, fallback_element, fallback) {
            return Ok(value_ty.duplicate());
        }
        Err(about_types(line, "orElse fallback mismatch: expected ", value_ty, ", found ", fallback_ty))
    }

    /// `name.orElse(fallback)` of an Option variable.
    pub fn check_option_or_else(&self, name: &str, fallback: &Expr, line: usize) -> (r: Result<Type, CompileError>)
        requires
            self.wf(),
        ensures
            self.forbids(*fallback) ==> r is Err,
            r matches Err(e) ==> e.line == line,
            self.lookup(name@) is None ==> (r matches Err(e) && e.message@ == undefined_variable_message(name@)),
            self.lookup(name@) matches Some((ty, _)) ==> (option_element(ty) is None ==> r is Err),
            r matches Ok(t) ==> option_element(t@) is Some,
        decreases fallback, 6nat,
    {
        let binding = match self.lookup_binding(name) {
            Some(b) => b,
            None => return Err(undefined_variable(line, name)),
        };
        let fallback_ty = self.check_expr(fallback, line)?;
        self.check_option_or_else_types(&binding.ty, &fallback_ty, fallback, line)
    }

    /// `value.orElse(fallback)` of an Option value.
    pub(crate) fn check_option_or_else_value(&self, value: &Expr, fallback: &Expr, line: usize, Ghost(owner): Ghost<Expr>) -> (r: Result<Type, CompileError>)
        requires
            self.wf(),
            decreases_to!(owner => *value),
            decreases_to!(owner => *fallback),
        ensures
            self.forbids(*value) || self.forbids(*fallback) ==> r is Err,
            r matches Err(e) ==> e.line == line,
            r matches Ok(t) ==> option_element(t@) is Some,
        decreases owner, 4nat,
    {
        let value_ty = self.check_expr(value, line)?;
        let fallback_ty = self.check_expr(fallback, line)?;
        self.check_option_or_else_types(&value_ty, &fallback_ty, fallback, line)
    }

    /// `value.orElse(fallback)?`: the fallback returns a Result of an Option,
    /// and the whole is a Result of an Option.
    pub(crate) fn check_option_or_else_try(&self, value: &Expr, fallback: &Expr, line: usize, Ghost(owner): Ghost<Expr>) -> (r: Result<Type, CompileError>)
        requires
            self.wf(),
            decreases_to!(owner => *value),
            decreases_to!(owner => *fallback),
        ensures
            self.forbids(*value) || self.forbids(*fallback) ==> r is Err,
            r matches Err(e) ==> e.line == line,
            r matches Ok(t) ==> t@ matches TypeModel::Applied(n, args) && n == "Result"@ && args.len() == 2 && (
            args[0] matches TypeModel::Applied(m, inner) && m == "Option"@ && inner.len() == 1),
        decreases owner, 4nat,
    {
        let value_ty = self.check_expr(value, line)?;
        let value_element = match option_element_type(&value_ty) {
            Some(e) => e,
            None => return Err(no_method(line, &value_ty, "orElse")),
        };
        let fallback_ty = self.check_expr(fallback, line)?;
        let (fallback_ok, fallback_error) = match result_types(&fallback_ty) {
            Some(parts) => parts,
            None => return Err(about_type(line, "propagating orElse fallback must return Result, found ", &fallback_ty, "")),
        };
        let fallback_element = match option_element_type(fallback_ok) {
            Some(e) => e,
            None => return Err(about_type(line, "propagating orElse fallback must return Option, found ", fallback_ok, "")),
        };
        if !is_unit(value_element) && !is_unit(fallback_element) && !self.is_assignable(value_element, fallback_element, fallback) {
            return Err(about_types(line, "orElse fallback element mismatch: expected ", value_element, ", found ", fallback_element));
        }
        let element = if is_unit(value_element) {
            fallback_element.duplicate()
        } else {
            value_element.duplicate()
        };
        Ok(crate::checker::exprs::result_of(applied_one("Option", element), fallback_error.duplicate()))
    }
}

} // verus!
