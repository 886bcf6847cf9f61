//! Literals, indexing, slicing and field access on values, and the other
//! expressions with more than one operand.

use vstd::prelude::*;
use vstd::string::StringExecFns;

use crate::ast::{display_name, lemma_type_model_tags, lemma_types_model, type_model, types_model, Expr, Type, TypeModel};
use crate::checker::calls::{lemma_refs_owned, owns_all};
use crate::checker::messages::{about, about_type, about_types, fixed, no_method, undefined_variable};
use crate::checker::relations::{find_field, string_like};
use crate::checker::inspected::{entry_denied, lemma_any_denied, lemma_any_entry_denied, lemma_any_field_denied};
use crate::checker::resolve::resolved;
use crate::checker::TypeChecker;
use crate::collections::{refs_of, Duplicate};
use crate::error::CompileError;
use crate::text::{decimal_string, str_eq};

verus! {

/// The elements of a vector that an expression holds are parts of it.
pub proof fn lemma_vec_owned(owner: Expr, v: Vec<Expr>)
    requires
        decreases_to!(owner => v),
    ensures
        decreases_to!(owner => v@),
{
    assert(decreases_to!(v => v@));
}

/// A list of references to parts of `owner`.
pub proof fn lemma_parts_owned(owner: Expr, parts: Seq<Expr>, args: Seq<&Expr>)
    requires
        forall|i: int| 0 <= i < parts.len() ==> decreases_to!(owner => #[trigger] parts[i]),
        args.len() == parts.len(),
        forall|i: int| 0 <= i < parts.len() ==> *#[trigger] args[i] == parts[i],
    ensures
        owns_all(owner, args),
{
    assert forall|j: int| 0 <= j < args.len() implies decreases_to!(owner => *#[trigger] args[j]) by {
        assert(*args[j] == parts[j]);
    }
}

impl TypeChecker {
    /// `[a, b, ...]`: every element has the type of the first; the empty
    /// literal is an array of `Unit`.
    pub fn check_array(&self, values: &[Expr], line: usize) -> (r: Result<Type, CompileError>)
        requires
            self.wf(),
        ensures
            crate::checker::inspected::any_denied(self.policy.model(), values@) ==> r is Err,
            r matches Err(e) ==> e.line == line,
            r matches Ok(t) ==> t@ is Array,
            values@.len() == 0 ==> (r matches Ok(t) && t@ == TypeModel::Array(Box::new(TypeModel::Unit))),
        decreases values@, 6nat,
    {
        if values.len() == 0 {
            let t = Type::Array(Box::new(Type::Unit));
            assert(type_model(Type::Unit) == TypeModel::Unit);
            proof {
                lemma_any_denied(self.policy.model(), values@);
            }
            return Ok(t);
        }
        let element_ty = self.check_expr(&values[0], line)?;
        let mut i: usize = 1;
        while i < values.len()
            invariant
                self.wf(),
                1 <= i <= values@.len(),
                forall|j: int| 0 <= j < i ==> !self.forbids(#[trigger] values@[j]),
            decreases values.len() - i,
        {
            let value_ty = self.check_expr(&values[i], line)?;
            if !self.is_assignable(&element_ty, &value_ty, &values[i]) || !self.is_assignable(&value_ty, &element_ty, &values[0]) {
                return Err(about_types(line, "array elements must have matching types, found ", &element_ty, " and ", &value_ty));
            }
            i += 1;
        }
        proof {
            lemma_any_denied(self.policy.model(), values@);
        }
        Ok(Type::Array(Box::new(element_ty)))
    }

    /// `{k: v, ...}`: every key has the type of the first key, and every
    /// value that of the first value; the empty literal maps `Unit` to `Unit`.
    pub fn check_map(&self, entries: &[(Expr, Expr)], line: usize) -> (r: Result<Type, CompileError>)
        requires
            self.wf(),
        ensures
            crate::checker::inspected::any_entry_denied(self.policy.model(), entries@) ==> r is Err,
            r matches Err(e) ==> e.line == line,
            r matches Ok(t) ==> t@ is Mapping,
        decreases entries@, 6nat,
    {
        proof {
            lemma_any_entry_denied(self.policy.model(), entries@);
        }
        if entries.len() == 0 {
            return Ok(Type::Mapping(Box::new(Type::Unit), Box::new(Type::Unit)));
        }
        let key_ty = self.check_expr(&entries[0].0, line)?;
        let value_ty = self.check_expr(&entries[0].1, line)?;
        let mut i: usize = 1;
        while i < entries.len()
            invariant
                self.wf(),
                1 <= i <= entries@.len(),
                forall|j: int| 0 <= j < i ==> !entry_denied(self.policy.model(), #[trigger] entries@[j]),
            decreases entries.len() - i,
        {
            let next_key_ty = self.check_expr(&entries[i].0, line)?;
            let next_value_ty = self.check_expr(&entries[i].1, line)?;
            if !self.is_assignable(&key_ty, &next_key_ty, &entries[i].0) || !self.is_assignable(&next_key_ty, &key_ty, &entries[0].0) {
                return Err(about_types(line, "map keys must have matching types, found ", &key_ty, " and ", &next_key_ty));
            }
            if !self.is_assignable(&value_ty, &next_value_ty, &entries[i].1) || !self.is_assignable(&next_value_ty, &value_ty, &entries[0].1) {
                return Err(about_types(line, "map values must have matching types, found ", &value_ty, " and ", &next_value_ty));
            }
            i += 1;
        }
        Ok(Type::Mapping(Box::new(key_ty), Box::new(value_ty)))
    }

    /// `{name: value, ...}`: a record type with the fields in order; a field
    /// name may not repeat.
    pub fn check_record(&self, fields: &[(String, Expr)], line: usize) -> (r: Result<Type, CompileError>)
        requires
            self.wf(),
        ensures
            crate::checker::inspected::any_field_denied(self.policy.model(), fields@) ==> r is Err,
            r matches Err(e) ==> e.line == line,
            r matches Ok(t) ==> t@ is Record && t@->Record_0.len() == fields@.len()
                && forall|i: int| 0 <= i < fields@.len() ==> (#[trigger] t@->Record_0[i]).0 == fields@[i].0@,
        decreases fields@, 6nat,
    {
        let mut typed: Vec<(String, Type)> = Vec::new();
        let mut i: usize = 0;
        while i < fields.len()
            invariant
                self.wf(),
                i <= fields@.len(),
                typed@.len() == i,
                forall|j: int| 0 <= j < i ==> (#[trigger] typed@[j]).0@ == fields@[j].0@,
                forall|j: int| 0 <= j < i ==> !self.forbids(#[trigger] fields@[j].1),
            decreases fields.len() - i,
        {
            let mut k: usize = 0;
            while k < typed.len()
                invariant
                    k <= typed@.len(),
                    i < fields@.len(),
                decreases typed.len() - k,
            {
                if str_eq(typed[k].0.as_str(), fields[i].0.as_str()) {
                    return Err(about(line, "record field `", fields[i].0.as_str(), "` is already defined"));
                }
                k += 1;
            }
            let t = self.check_expr(&fields[i].1, line)?;
            typed.push((fields[i].0.clone(), t));
            i += 1;
        }
        proof {
            crate::ast::lemma_fields_model(typed@);
            lemma_any_field_denied(self.policy.model(), fields@);
        }
        Ok(Type::Record(typed))
    }

    /// `(a, b, ...)`: a tuple literal has at least two elements.
    pub fn check_tuple(&self, values: &[Expr], line: usize) -> (r: Result<Type, CompileError>)
        requires
            self.wf(),
        ensures
            crate::checker::inspected::any_denied(self.policy.model(), values@) ==> r is Err,
            r matches Err(e) ==> e.line == line,
            values@.len() < 2 ==> (r matches Err(e) && e.message@ == "tuple literal requires at least two elements"@),
            r matches Ok(t) ==> t@ is Tuple && t@->Tuple_0.len() == values@.len(),
        decreases values@, 6nat,
    {
        if values.len() < 2 {
            return Err(fixed(line, "tuple literal requires at least two elements"));
        }
        let mut elements: Vec<Type> = Vec::new();
        let mut i: usize = 0;
        while i < values.len()
            invariant
                self.wf(),
                i <= values@.len(),
                elements@.len() == i,
                values@.len() >= 2,
                forall|j: int| 0 <= j < i ==> !self.forbids(#[trigger] values@[j]),
            decreases values.len() - i,
        {
            let t = self.check_expr(&values[i], line)?;
            elements.push(t);
            i += 1;
        }
        proof {
            lemma_types_model(elements@);
            lemma_any_denied(self.policy.model(), values@);
        }
        Ok(Type::Tuple(elements))
    }
}


impl TypeChecker {
    /// The start and end of a slice must both be integers.
    fn check_slice_bounds(&self, start: &Expr, end: &Expr, line: usize, Ghost(owner): Ghost<Expr>) -> (r: Result<(), CompileError>)
        requires
            self.wf(),
            decreases_to!(owner => *start),
            decreases_to!(owner => *end),
        ensures
            self.forbids(*start) || self.forbids(*end) ==> r is Err,
            r matches Err(e) ==> e.line == line,
        decreases owner, 3nat,
    {
        let start_ty = self.check_expr(start, line)?;
        if !self.is_integer_numeric(&start_ty) {
            return Err(about_type(line, "slice start must be Int, found ", &start_ty, ""));
        }
        let end_ty = self.check_expr(end, line)?;
        if !self.is_integer_numeric(&end_ty) {
            return Err(about_type(line, "slice end must be Int, found ", &end_ty, ""));
        }
        Ok(())
    }

    /// `value[index]` of an array or map literal.
    pub(crate) fn check_index_value(&self, value: &Expr, index: &Expr, line: usize, Ghost(owner): Ghost<Expr>) -> (r: Result<Type, CompileError>)
        requires
            self.wf(),
            decreases_to!(owner => *value),
            decreases_to!(owner => *index),
        ensures
            self.forbids(*value) || self.forbids(*index) ==> r is Err,
            r matches Err(e) ==> e.line == line,
            r is Ok ==> (value is Array || value is MapLiteral),
        decreases owner, 4nat,
    {
        let index_ty = self.check_expr(index, line)?;
        let value_ty = self.check_expr(value, line)?;
        match value_ty {
            Type::Array(element) => {
                if !matches!(value, Expr::Array(_)) {
                    return Err(fixed(line, "index value must be an array literal or named array"));
                }
                if self.is_integer_numeric(&index_ty) {
                    Ok(*element)
                } else {
                    Err(about_type(line, "array index must be Int, found ", &index_ty, ""))
                }
            },
            Type::Mapping(key, map_value) => {
                if !matches!(value, Expr::MapLiteral(_)) {
                    return Err(fixed(line, "index value must be a map literal or named map"));
                }
                if self.is_assignable(&key, &index_ty, index) {
                    Ok(*map_value)
                } else {
                    Err(about_types(line, "map key must be ", &key, ", found ", &index_ty))
                }
            },
            other => Err(about_type(line, "cannot index value of type ", &other, "")),
        }
    }

    /// `name[start..end]` of an array or string variable.
    pub(crate) fn check_slice(&self, name: &str, start: &Expr, end: &Expr, line: usize, Ghost(owner): Ghost<Expr>) -> (r: Result<Type, CompileError>)
        requires
            self.wf(),
            decreases_to!(owner => *start),
            decreases_to!(owner => *end),
        ensures
            self.forbids(*start) || self.forbids(*end) ==> r is Err,
            r matches Err(e) ==> e.line == line,
            r matches Ok(t) ==> (self.lookup(name@) matches Some((ty, _)) && ((ty is Array && t@ == ty) || (!(ty is Array)
                && string_like(ty) && t@ == TypeModel::String))),
            self.lookup(name@) matches Some((ty, _)) ==> (!(ty is Array) && !string_like(ty) ==> r is Err),
        decreases owner, 4nat,
    {
        self.check_slice_bounds(start, end, line, Ghost(owner))?;
        let binding = match self.lookup_binding(name) {
            Some(b) => b,
            None => return Err(undefined_variable(line, name)),
        };
        match binding.ty {
            Type::Array(element) => Ok(Type::Array(element)),
            other => {
                if self.is_string_like(&other) {
                    Ok(Type::String)
                } else {
                    Err(no_method(line, &other, "slice"))
                }
            },
        }
    }

    /// `value[start..end]` of a string value.
    pub(crate) fn check_string_slice_value(&self, value: &Expr, start: &Expr, end: &Expr, line: usize, Ghost(owner): Ghost<Expr>) -> (r: Result<Type, CompileError>)
        requires
            self.wf(),
            decreases_to!(owner => *value),
            decreases_to!(owner => *start),
            decreases_to!(owner => *end),
        ensures
            self.forbids(*value) || self.forbids(*start) || self.forbids(*end) ==> r is Err,
            r matches Err(e) ==> e.line == line,
            r matches Ok(t) ==> t@ == TypeModel::String,
        decreases owner, 4nat,
    {
        self.check_slice_bounds(start, end, line, Ghost(owner))?;
        let value_ty = self.check_expr(value, line)?;
        if self.is_string_like(&value_ty) {
            Ok(Type::String)
        } else {
            Err(no_method(line, &value_ty, "slice"))
        }
    }

    /// `value[start..end]` of an array literal.
    pub(crate) fn check_array_slice_value(&self, value: &Expr, start: &Expr, end: &Expr, line: usize, Ghost(owner): Ghost<Expr>) -> (r: Result<Type, CompileError>)
        requires
            self.wf(),
            decreases_to!(owner => *value),
            decreases_to!(owner => *start),
            decreases_to!(owner => *end),
        ensures
            self.forbids(*value) || self.forbids(*start) || self.forbids(*end) ==> r is Err,
            r matches Err(e) ==> e.line == line,
            r matches Ok(t) ==> t@ is Array,
        decreases owner, 4nat,
    {
        self.check_slice_bounds(start, end, line, Ghost(owner))?;
        self.check_array_value(value, "slice", line)
    }

    /// `value._n` of a tuple value; fields count from 1.
    pub fn check_tuple_field_value(&self, value: &Expr, field: usize, line: usize) -> (r: Result<Type, CompileError>)
        requires
            self.wf(),
        ensures
            self.forbids(*value) ==> r is Err,
            r matches Err(e) ==> e.line == line,
            field == 0 ==> r is Err,
        decreases value, 6nat,
    {
        let value_ty = self.check_expr(value, line)?;
        match value_ty {
            Type::Tuple(elements) => {
                if field == 0 || field > elements.len() {
                    let mut message = String::from_str("tuple value has no field _");
                    message.append(decimal_string(field).as_str());
                    message.append("; it has ");
                    message.append(decimal_string(elements.len()).as_str());
                    message.append(" fields");
                    Err(CompileError::new(line, message))
                } else {
                    Ok(elements[field - 1].duplicate())
                }
            },
            other => Err(about_type(line, "cannot access tuple field on value of type ", &other, "")),
        }
    }

    /// `value.field` of a record literal.
    pub fn check_field_value(&self, value: &Expr, field: &str, line: usize) -> (r: Result<Type, CompileError>)
        requires
            self.wf(),
        ensures
            self.forbids(*value) ==> r is Err,
            r matches Err(e) ==> e.line == line,
            !(value is Record) ==> r is Err,
        decreases value, 6nat,
    {
        let value_ty = self.check_expr(value, line)?;
        if !matches!(value, Expr::Record(_)) {
            let mut message = String::from_str("cannot access field `");
            message.append(field);
            message.append("` on value of type ");
            message.append(value_ty.name().as_str());
            message.append("; use a named record or record literal");
            return Err(CompileError::new(line, message));
        }
        match value_ty {
            Type::Record(fields) => match find_field(&fields, field) {
                Some(i) => Ok(fields[i].1.duplicate()),
                None => Err(about(line, "record value has no field `", field, "`")),
            },
            other => {
                let mut message = String::from_str("cannot access field `");
                message.append(field);
                message.append("` on value of type ");
                message.append(other.name().as_str());
                Err(CompileError::new(line, message))
            },
        }
    }

    /// `expr as T`: the target type, when the value may be cast to it.
    pub fn check_cast(&self, expr: &Expr, target: &Type, line: usize) -> (r: Result<Type, CompileError>)
        requires
            self.wf(),
        ensures
            self.forbids(*expr) ==> r is Err,
            r matches Err(e) ==> e.line == line,
            r matches Ok(t) ==> resolved(self.type_env(), Set::empty(), target@) == Ok::<TypeModel, Seq<char>>(t@),
        decreases expr, 6nat,
    {
        let actual = self.check_expr(expr, line)?;
        let target = self.resolve_type(target, line)?;
        if self.is_castable(&target, &actual, expr) {
            Ok(target)
        } else {
            Err(about_types(line, "cannot cast ", &actual, " to ", &target))
        }
    }

    /// `Name(value)`: a newtype constructor, or a function that overrides it.
    pub fn check_newtype_ctor(&self, name: &str, value: &Expr, line: usize) -> (r: Result<Type, CompileError>)
        requires
            self.wf(),
        ensures
            r matches Err(e) ==> e.line == line,
            !self.constructor_overrides.view().dom().contains(name@) && !self.types.view().dom().contains(name@)
                ==> (r matches Err(e) && e.message@ == "unknown type `"@ + name@ + "`"@),
            !self.constructor_overrides.view().dom().contains(name@) && self.types.view().dom().contains(name@)
                && !(self.types.view()[name@] is Brand)
                ==> (r matches Err(e) && e.message@ == "type `"@ + name@ + "` is not a newtype"@),
            self.forbids(*value) ==> r is Err,
    {
        let ghost owner = Expr::OptionSome(Box::new(*value));
        assert(decreases_to!(owner => owner->OptionSome_0));
        self.newtype_ctor_in(name, value, line, Ghost(owner))
    }

    pub(crate) fn newtype_ctor_in(&self, name: &str, value: &Expr, line: usize, Ghost(owner): Ghost<Expr>) -> (r: Result<Type, CompileError>)
        requires
            self.wf(),
            decreases_to!(owner => *value),
        ensures
            r matches Err(e) ==> e.line == line,
            !self.constructor_overrides.view().dom().contains(name@) && !self.types.view().dom().contains(name@)
                ==> (r matches Err(e) && e.message@ == "unknown type `"@ + name@ + "`"@),
            !self.constructor_overrides.view().dom().contains(name@) && self.types.view().dom().contains(name@)
                && !(self.types.view()[name@] is Brand)
                ==> (r matches Err(e) && e.message@ == "type `"@ + name@ + "` is not a newtype"@),
            self.forbids(*value) ==> r is Err,
        decreases owner, 4nat,
    {
        let key = String::from_str(name);
        if self.constructor_overrides.contains_key(&key) {
            let args: Vec<&Expr> = vec![value];
            proof {
                lemma_parts_owned(owner, seq![*value], args@);
            }
            let r = self.call_in(name, args.as_slice(), line, Ghost(owner));
            proof {
                if r is Ok {
                    assert(*args@[0] == *value);
                }
            }
            return r;
        }
        let ty = match self.types.get(&key) {
            Some(t) => t,
            None => return Err(about(line, "unknown type `", name, "`")),
        };
        proof {
            lemma_type_model_tags(*ty);
        }
        let base = match ty {
            Type::Brand { base, .. } => base,
            _ => return Err(about(line, "type `", name, "` is not a newtype")),
        };
        let value_ty = self.check_expr(value, line)?;
        if self.is_assignable(base, &value_ty, value) {
            Ok(ty.duplicate())
        } else {
            let mut message = String::from_str("newtype constructor `");
            message.append(name);
            message.append("` expected ");
            message.append(base.name().as_str());
            message.append(", found ");
            message.append(value_ty.name().as_str());
            Err(CompileError::new(line, message))
        }
    }
}

} // verus!
