//! Variables in scope, and the checks that read one variable's type.

use vstd::prelude::*;
use vstd::string::StringExecFns;

use crate::ast::{lemma_type_model_tags, display_name, fields_model, lemma_types_model, type_model, types_model, Type, TypeModel};
use crate::checker::messages::{about, about_type, fixed, no_method, no_method_message, undefined_variable, undefined_variable_message};
use crate::checker::relations::{field_type, find_field, string_like};
use crate::checker::{Binding, FunctionSig, TypeChecker};
use crate::collections::Duplicate;
use crate::error::CompileError;
use crate::text::{decimal, decimal_string, str_eq};

verus! {

pub open spec fn args_binding() -> (TypeModel, bool) {
    (TypeModel::Array(Box::new(TypeModel::String)), false)
}

/// The function type of a signature: its parameter types and return type.
pub open spec fn signature_type(sig: <FunctionSig as View>::V) -> TypeModel {
    TypeModel::Function(sig.1.map_values(|p: (Seq<char>, TypeModel, bool, bool)| p.1), Box::new(sig.2))
}

impl FunctionSig {
    pub fn function_type(&self) -> (r: Type)
        ensures
            r@ == signature_type(self@),
    {
        let mut params: Vec<Type> = Vec::new();
        let mut i: usize = 0;
        while i < self.params.len()
            invariant
                i <= self.params@.len(),
                params@.len() == i,
                forall|j: int| 0 <= j < i ==> type_model(#[trigger] params@[j]) == self.params@[j].ty@,
            decreases self.params.len() - i,
        {
            params.push(self.params[i].ty.duplicate());
            i += 1;
        }
        proof {
            lemma_types_model(params@);
            assert(types_model(params@) =~= self@.1.map_values(|p: (Seq<char>, TypeModel, bool, bool)| p.1));
        }
        Type::Function(params, Box::new(self.return_type.duplicate()))
    }
}

impl TypeChecker {
    /// What a name refers to as a variable: a binding in scope, or the
    /// built-in `args`.
    pub open spec fn lookup(&self, name: Seq<char>) -> Option<(TypeModel, bool)> {
        if self.bindings.view().dom().contains(name) {
            Some(self.bindings.view()[name])
        } else if name == "args"@ {
            Some(args_binding())
        } else {
            None
        }
    }

    /// Everything but the variables in scope is as in `other`.
    pub open spec fn same_declarations(&self, other: &TypeChecker) -> bool {
        &&& self.policy == other.policy
        &&& self.types == other.types
        &&& self.generic_types == other.generic_types
        &&& self.traits == other.traits
        &&& self.trait_impls == other.trait_impls
        &&& self.method_impls == other.method_impls
        &&& self.functions == other.functions
        &&& self.sum_types == other.sum_types
        &&& self.variants == other.variants
        &&& self.constructor_overrides == other.constructor_overrides
        &&& self.expected_return == other.expected_return
    }

    pub fn lookup_binding(&self, name: &str) -> (r: Option<Binding>)
        requires
            self.wf(),
        ensures
            r is Some == self.lookup(name@) is Some,
            r matches Some(b) ==> self.lookup(name@) == Some(b@),
    {
        let key = String::from_str(name);
        match self.bindings.get(&key) {
            Some(b) => Some(b.duplicate()),
            None => {
                if str_eq(name, "args") {
                    let b = Binding { ty: Type::Array(Box::new(Type::String)), mutable: false };
                    assert(type_model(Type::String) == TypeModel::String);
                    assert(b@ == args_binding());
                    Some(b)
                } else {
                    None
                }
            },
        }
    }

    /// Declares a variable. `_` declares nothing; a name already in scope is
    /// an error.
    pub fn define(&mut self, name: &str, ty: Type, mutable: bool, line: usize) -> (r: Result<(), CompileError>)
        requires
            old(self).wf(),
        ensures
            final(self).wf(),
            final(self).same_declarations(old(self)),
            name@ == "_"@ ==> r is Ok && final(self).bindings.view() == old(self).bindings.view(),
            name@ != "_"@ && old(self).bindings.view().dom().contains(name@) ==> r is Err && final(self).bindings.view() == old(self).bindings.view(),
            name@ != "_"@ && !old(self).bindings.view().dom().contains(name@) ==> r is Ok && final(self).bindings.view() == old(self).bindings.view().insert(name@, (ty@, mutable)),
            r matches Err(e) ==> e.line == line && e.message@ == "variable `"@ + name@ + "` is already defined"@,
            r is Ok && name@ != "_"@ ==> final(self).lookup(name@) == Some((ty@, mutable)),
    {
        if str_eq(name, "_") {
            return Ok(());
        }
        let key = String::from_str(name);
        if self.bindings.contains_key(&key) {
            return Err(about(line, "variable `", name, "` is already defined"));
        }
        self.bindings.insert(key, Binding { ty, mutable });
        Ok(())
    }

    /// The base value of a newtype variable, `name.value`.
    pub fn check_value_access(&self, name: &str, line: usize) -> (r: Result<Type, CompileError>)
        requires
            self.wf(),
        ensures
            r matches Ok(t) ==> self.bindings.view().dom().contains(name@) && (self.bindings.view()[name@].0 matches TypeModel::Brand { base, .. } && t@ == *base),
            r matches Err(e) ==> e.line == line && !(self.bindings.view().dom().contains(name@) && self.bindings.view()[name@].0 is Brand),
            r matches Err(e) ==> !self.bindings.view().dom().contains(name@) ==> e.message@ == undefined_variable_message(name@),
    {
        let key = String::from_str(name);
        let binding = match self.bindings.get(&key) {
            Some(b) => b,
            None => return Err(undefined_variable(line, name)),
        };
        match &binding.ty {
            Type::Brand { base, .. } => Ok(base.duplicate()),
            other => {
                let mut message = String::from_str("cannot access `.value` on `");
                message.append(name);
                message.append("` of type ");
                message.append(other.name().as_str());
                Err(CompileError::new(line, message))
            },
        }
    }

    /// `await name`: the value type of a future variable.
    pub fn check_await(&self, name: &str, line: usize) -> (r: Result<Type, CompileError>)
        requires
            self.wf(),
        ensures
            r matches Ok(t) ==> self.lookup(name@) matches Some((TypeModel::Future(v), _)) && t@ == *v,
            r matches Err(e) ==> e.line == line && !(self.lookup(name@) matches Some((TypeModel::Future(_), _))),
            r matches Err(e) ==> self.lookup(name@) is None ==> e.message@ == "undefined future `"@ + name@ + "`"@,
    {
        let binding = match self.lookup_binding(name) {
            Some(b) => b,
            None => return Err(about(line, "undefined future `", name, "`")),
        };
        match &binding.ty {
            Type::Future(value) => Ok(value.duplicate()),
            other => Err(about_type(line, "await expects Future, found ", other, "")),
        }
    }

    /// `name.len()`: arrays, maps and strings have a length.
    pub fn check_len(&self, name: &str, line: usize) -> (r: Result<Type, CompileError>)
        requires
            self.wf(),
        ensures
            r matches Ok(t) ==> t@ == TypeModel::Int,
            r is Ok <==> (self.lookup(name@) matches Some((ty, _)) && (ty is Array || ty is Mapping || string_like(ty))),
            r matches Err(e) ==> e.line == line,
            r matches Err(e) ==> self.lookup(name@) is None ==> e.message@ == undefined_variable_message(name@),
    {
        let binding = match self.lookup_binding(name) {
            Some(b) => b,
            None => return Err(undefined_variable(line, name)),
        };
        match &binding.ty {
            Type::Array(_) | Type::Mapping(_, _) | Type::String | Type::Path => Ok(Type::Int),
            other => Err(no_method(line, other, "len")),
        }
    }

    /// `name.isEmpty()`: arrays, maps and strings may be empty.
    pub fn check_is_empty(&self, name: &str, line: usize) -> (r: Result<Type, CompileError>)
        requires
            self.wf(),
        ensures
            r matches Ok(t) ==> t@ == TypeModel::Bool,
            r is Ok <==> (self.lookup(name@) matches Some((ty, _)) && (ty is Array || ty is Mapping || string_like(ty))),
            r matches Err(e) ==> e.line == line,
            r matches Err(e) ==> self.lookup(name@) is None ==> e.message@ == undefined_variable_message(name@),
    {
        let binding = match self.lookup_binding(name) {
            Some(b) => b,
            None => return Err(undefined_variable(line, name)),
        };
        match &binding.ty {
            Type::Array(_) | Type::Mapping(_, _) | Type::String | Type::Path => Ok(Type::Bool),
            other => Err(no_method(line, other, "isEmpty")),
        }
    }

    /// `name.first()` or `name.last()`: the element type of an array variable.
    pub fn check_array_edge(&self, name: &str, method: &str, line: usize) -> (r: Result<Type, CompileError>)
        requires
            self.wf(),
        ensures
            r matches Ok(t) ==> self.lookup(name@) matches Some((TypeModel::Array(e), _)) && t@ == *e,
            r is Ok <==> self.lookup(name@) matches Some((TypeModel::Array(_), _)),
            r matches Err(e) ==> e.line == line,
    {
        let binding = match self.lookup_binding(name) {
            Some(b) => b,
            None => return Err(undefined_variable(line, name)),
        };
        match &binding.ty {
            Type::Array(element) => Ok(element.duplicate()),
            other => Err(no_method(line, other, method)),
        }
    }

    /// `name.reverse()` and `name.unique()`: an array of the same type.
    pub fn check_array_same(&self, name: &str, method: &str, line: usize) -> (r: Result<Type, CompileError>)
        requires
            self.wf(),
        ensures
            r matches Ok(t) ==> self.lookup(name@) matches Some((ty, _)) && ty is Array && t@ == ty,
            r is Ok <==> self.lookup(name@) matches Some((TypeModel::Array(_), _)),
            r matches Err(e) ==> e.line == line,
    {
        let binding = match self.lookup_binding(name) {
            Some(b) => b,
            None => return Err(undefined_variable(line, name)),
        };
        match &binding.ty {
            Type::Array(element) => Ok(Type::Array(Box::new(element.duplicate()))),
            other => Err(no_method(line, other, method)),
        }
    }

    /// `name.sort()`: only arrays of strings or paths sort.
    pub fn check_array_sort(&self, name: &str, line: usize) -> (r: Result<Type, CompileError>)
        requires
            self.wf(),
        ensures
            r matches Ok(t) ==> self.lookup(name@) matches Some((ty, _)) && ty is Array && t@ == ty,
            r is Ok <==> (self.lookup(name@) matches Some((TypeModel::Array(e), _)) && string_like(*e)),
            r matches Err(e) ==> e.line == line,
    {
        let binding = match self.lookup_binding(name) {
            Some(b) => b,
            None => return Err(undefined_variable(line, name)),
        };
        match &binding.ty {
            Type::Array(element) => {
                if matches!(**element, Type::String | Type::Path) {
                    Ok(Type::Array(Box::new(element.duplicate())))
                } else {
                    Err(about_type(line, "sort array elements must be String or Path, found ", element, ""))
                }
            },
            other => Err(no_method(line, other, "sort")),
        }
    }

    /// `name.keys()`: an array of a map variable's keys.
    pub fn check_map_keys(&self, name: &str, line: usize) -> (r: Result<Type, CompileError>)
        requires
            self.wf(),
        ensures
            r matches Ok(t) ==> self.lookup(name@) matches Some((TypeModel::Mapping(k, _), _)) && t@ == TypeModel::Array(k),
            r is Ok <==> self.lookup(name@) matches Some((TypeModel::Mapping(_, _), _)),
            r matches Err(e) ==> e.line == line,
    {
        let binding = match self.lookup_binding(name) {
            Some(b) => b,
            None => return Err(undefined_variable(line, name)),
        };
        match &binding.ty {
            Type::Mapping(key, _) => Ok(Type::Array(Box::new(key.duplicate()))),
            other => Err(no_method(line, other, "keys")),
        }
    }

    /// `name.values()`: an array of a map variable's values.
    pub fn check_map_values(&self, name: &str, line: usize) -> (r: Result<Type, CompileError>)
        requires
            self.wf(),
        ensures
            r matches Ok(t) ==> self.lookup(name@) matches Some((TypeModel::Mapping(_, v), _)) && t@ == TypeModel::Array(v),
            r is Ok <==> self.lookup(name@) matches Some((TypeModel::Mapping(_, _), _)),
            r matches Err(e) ==> e.line == line,
    {
        let binding = match self.lookup_binding(name) {
            Some(b) => b,
            None => return Err(undefined_variable(line, name)),
        };
        match &binding.ty {
            Type::Mapping(_, value) => Ok(Type::Array(Box::new(value.duplicate()))),
            other => Err(no_method(line, other, "values")),
        }
    }

    /// `json.stringify(name)`: only a `Map[String, String]` variable.
    pub fn check_json_stringify(&self, name: &str, line: usize) -> (r: Result<Type, CompileError>)
        requires
            self.wf(),
        ensures
            r matches Ok(t) ==> t@ == TypeModel::String,
            r is Ok <==> (self.lookup(name@) matches Some((TypeModel::Mapping(k, v), _)) && *k == TypeModel::String && *v == TypeModel::String),
            r matches Err(e) ==> e.line == line,
    {
        let binding = match self.lookup_binding(name) {
            Some(b) => b,
            None => return Err(undefined_variable(line, name)),
        };
        match &binding.ty {
            Type::Mapping(key, value) => {
                proof {
                    lemma_type_model_tags(**key);
                    lemma_type_model_tags(**value);
                }
                match (&**key, &**value) {
                    (Type::String, Type::String) => {
                        return Ok(Type::String);
                    },
                    _ => {},
                }
            },
            _ => {},
        }
        Err(about_type(line, "json.stringify expects Map[String, String], found ", &binding.ty, ""))
    }

    /// `name._N`: the N-th element type of a tuple variable, counting from 1.
    pub fn check_tuple_field(&self, name: &str, field: usize, line: usize) -> (r: Result<Type, CompileError>)
        requires
            self.wf(),
        ensures
            r matches Ok(t) ==> self.lookup(name@) matches Some((TypeModel::Tuple(es), _)) && 1 <= field <= es.len() && t@ == es[field - 1],
            r is Ok <==> (self.lookup(name@) matches Some((TypeModel::Tuple(es), _)) && 1 <= field <= es.len()),
            r matches Err(e) ==> e.line == line,
            r matches Err(e) ==> self.lookup(name@) is None ==> e.message@ == undefined_variable_message(name@),
    {
        let binding = match self.lookup_binding(name) {
            Some(b) => b,
            None => return Err(undefined_variable(line, name)),
        };
        match &binding.ty {
            Type::Tuple(elements) => {
                proof {
                    lemma_types_model(elements@);
                }
                if field >= 1 && field <= elements.len() {
                    Ok(elements[field - 1].duplicate())
                } else {
                    let mut message = String::from_str("tuple `");
                    message.append(name);
                    message.append("` has no field _");
                    message.append(decimal_string(field).as_str());
                    message.append("; it has ");
                    message.append(decimal_string(elements.len()).as_str());
                    message.append(" fields");
                    Err(CompileError::new(line, message))
                }
            },
            other => {
                let mut message = String::from_str("cannot access tuple field on `");
                message.append(name);
                message.append("` of type ");
                message.append(other.name().as_str());
                Err(CompileError::new(line, message))
            },
        }
    }

    /// `name.field`: a record variable's field, or a function declared as
    /// `name.field`.
    pub fn check_field(&self, name: &str, field: &str, line: usize) -> (r: Result<Type, CompileError>)
        requires
            self.wf(),
        ensures
            r matches Ok(t) ==> match self.lookup(name@) {
                Some((TypeModel::Record(fs), _)) => field_type(fs, field@) == Some(t@),
                Some(_) => false,
                None => self.functions.view().dom().contains(name@ + "."@ + field@)
                    && t@ == signature_type(self.functions.view()[name@ + "."@ + field@]),
            },
            r is Err ==> match self.lookup(name@) {
                Some((TypeModel::Record(fs), _)) => field_type(fs, field@) is None,
                Some(_) => true,
                None => !self.functions.view().dom().contains(name@ + "."@ + field@),
            },
            r matches Err(e) ==> e.line == line,
            r matches Err(e) ==> self.lookup(name@) is None ==> e.message@ == undefined_variable_message(name@),
    {
        let binding = match self.lookup_binding(name) {
            Some(b) => b,
            None => {
                let mut qualified = String::from_str(name);
                qualified.append(".");
                qualified.append(field);
                match self.functions.get(&qualified) {
                    Some(sig) => return Ok(sig.function_type()),
                    None => return Err(undefined_variable(line, name)),
                }
            },
        };
        match &binding.ty {
            Type::Record(fields) => match find_field(fields, field) {
                Some(k) => Ok(fields[k].1.duplicate()),
                None => {
                    let mut message = String::from_str("record `");
                    message.append(name);
                    message.append("` has no field `");
                    message.append(field);
                    message.append("`");
                    Err(CompileError::new(line, message))
                },
            },
            other => {
                let mut message = String::from_str("cannot access field `");
                message.append(field);
                message.append("` on `");
                message.append(name);
                message.append("` of type ");
                message.append(other.name().as_str());
                Err(CompileError::new(line, message))
            },
        }
    }
}

} // verus!
