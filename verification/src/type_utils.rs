//! Operations on types: generic substitution and the shapes of the
//! built-in Option, Result and command types.

use vstd::prelude::*;
use vstd::string::StringExecFns;

use crate::ast::{fields_model, lemma_fields_model, lemma_types_model, type_model, types_model, Type, TypeModel};
use crate::collections::{AssocMap, Duplicate};
use crate::text::str_eq;

verus! {

impl Duplicate for Type {
    fn duplicate(&self) -> (r: Type) {
        Type::duplicate(self)
    }
}

/// Replaces each generic parameter that `m` binds by its binding.
pub open spec fn subst(t: TypeModel, m: Map<Seq<char>, TypeModel>) -> TypeModel
    decreases t,
{
    match t {
        TypeModel::Generic(n) => if m.dom().contains(n) { m[n] } else { t },
        TypeModel::Array(e) => TypeModel::Array(Box::new(subst(*e, m))),
        TypeModel::Future(v) => TypeModel::Future(Box::new(subst(*v, m))),
        TypeModel::Mapping(k, v) => TypeModel::Mapping(Box::new(subst(*k, m)), Box::new(subst(*v, m))),
        TypeModel::Record(fs) => TypeModel::Record(subst_fields(fs, m)),
        TypeModel::Tuple(es) => TypeModel::Tuple(subst_all(es, m)),
        TypeModel::Function(ps, r) => TypeModel::Function(subst_all(ps, m), Box::new(subst(*r, m))),
        TypeModel::Union(ts) => TypeModel::Union(subst_all(ts, m)),
        TypeModel::Intersection(ts) => TypeModel::Intersection(subst_all(ts, m)),
        TypeModel::Applied(n, args) => TypeModel::Applied(n, subst_all(args, m)),
        _ => t,
    }
}

pub open spec fn subst_all(ts: Seq<TypeModel>, m: Map<Seq<char>, TypeModel>) -> Seq<TypeModel>
    decreases ts,
{
    if ts.len() == 0 {
        Seq::empty()
    } else {
        subst_all(ts.drop_last(), m).push(subst(ts.last(), m))
    }
}

pub open spec fn subst_fields(fs: Seq<(Seq<char>, TypeModel)>, m: Map<Seq<char>, TypeModel>) -> Seq<(Seq<char>, TypeModel)>
    decreases fs,
{
    if fs.len() == 0 {
        Seq::empty()
    } else {
        subst_fields(fs.drop_last(), m).push((fs.last().0, subst(fs.last().1, m)))
    }
}

pub proof fn lemma_subst_all(ts: Seq<TypeModel>, m: Map<Seq<char>, TypeModel>)
    ensures
        subst_all(ts, m).len() == ts.len(),
        forall|i: int| 0 <= i < ts.len() ==> #[trigger] subst_all(ts, m)[i] == subst(ts[i], m),
    decreases ts.len(),
{
    if ts.len() > 0 {
        lemma_subst_all(ts.drop_last(), m);
    }
}

pub proof fn lemma_subst_fields(fs: Seq<(Seq<char>, TypeModel)>, m: Map<Seq<char>, TypeModel>)
    ensures
        subst_fields(fs, m).len() == fs.len(),
        forall|i: int| 0 <= i < fs.len() ==> #[trigger] subst_fields(fs, m)[i] == (fs[i].0, subst(fs[i].1, m)),
    decreases fs.len(),
{
    if fs.len() > 0 {
        lemma_subst_fields(fs.drop_last(), m);
    }
}

fn substitute_all(ts: &Vec<Type>, inferred: &AssocMap<String, Type>) -> (r: Vec<Type>)
    requires
        inferred.wf(),
    ensures
        types_model(r@) == subst_all(types_model(ts@), inferred.view()),
    decreases ts,
{
    let ghost m = inferred.view();
    let mut out: Vec<Type> = Vec::new();
    let mut i: usize = 0;
    while i < ts.len()
        invariant
            inferred.wf(),
            m == inferred.view(),
            i <= ts.len(),
            out@.len() == i,
            forall|j: int| 0 <= j < i ==> #[trigger] type_model(out@[j]) == subst(type_model(ts@[j]), m),
        decreases ts.len() - i,
    {
        proof {
            assert(decreases_to!(ts => ts[i as int]));
        }
        out.push(substitute_generics(&ts[i], inferred));
        i += 1;
    }
    proof {
        lemma_types_model(out@);
        lemma_types_model(ts@);
        lemma_subst_all(types_model(ts@), m);
        assert(types_model(out@) =~= subst_all(types_model(ts@), m));
    }
    out
}

fn substitute_fields(fs: &Vec<(String, Type)>, inferred: &AssocMap<String, Type>) -> (r: Vec<(String, Type)>)
    requires
        inferred.wf(),
    ensures
        fields_model(r@) == subst_fields(fields_model(fs@), inferred.view()),
    decreases fs,
{
    let ghost m = inferred.view();
    let mut out: Vec<(String, Type)> = Vec::new();
    let mut i: usize = 0;
    while i < fs.len()
        invariant
            inferred.wf(),
            m == inferred.view(),
            i <= fs.len(),
            out@.len() == i,
            forall|j: int| 0 <= j < i ==> #[trigger] out@[j].0@ == fs@[j].0@ && type_model(out@[j].1) == subst(type_model(fs@[j].1), m),
        decreases fs.len() - i,
    {
        proof {
            assert(decreases_to!(fs => fs[i as int]));
            assert(decreases_to!(fs[i as int] => fs[i as int].1));
        }
        out.push((fs[i].0.clone(), substitute_generics(&fs[i].1, inferred)));
        i += 1;
    }
    proof {
        lemma_fields_model(out@);
        lemma_fields_model(fs@);
        lemma_subst_fields(fields_model(fs@), m);
        assert(fields_model(out@) =~= subst_fields(fields_model(fs@), m));
    }
    out
}

/// `ty` with each generic parameter that `inferred` binds replaced by its binding.
pub fn substitute_generics(ty: &Type, inferred: &AssocMap<String, Type>) -> (r: Type)
    requires
        inferred.wf(),
    ensures
        r@ == subst(ty@, inferred.view()),
    decreases ty,
{
    match ty {
        Type::Generic(name) => match inferred.get(name) {
            Some(bound) => bound.duplicate(),
            None => ty.duplicate(),
        },
        Type::Array(element) => Type::Array(Box::new(substitute_generics(element, inferred))),
        Type::Future(value) => Type::Future(Box::new(substitute_generics(value, inferred))),
        Type::Mapping(key, value) => Type::Mapping(
            Box::new(substitute_generics(key, inferred)),
            Box::new(substitute_generics(value, inferred)),
        ),
        Type::Record(fields) => Type::Record(substitute_fields(fields, inferred)),
        Type::Tuple(elements) => Type::Tuple(substitute_all(elements, inferred)),
        Type::Function(params, return_type) => Type::Function(
            substitute_all(params, inferred),
            Box::new(substitute_generics(return_type, inferred)),
        ),
        Type::Union(types) => Type::Union(substitute_all(types, inferred)),
        Type::Intersection(types) => Type::Intersection(substitute_all(types, inferred)),
        Type::Applied(name, args) => Type::Applied(name.clone(), substitute_all(args, inferred)),
        _ => ty.duplicate(),
    }
}

/// The element type of `Option[T]`.
pub open spec fn option_element(t: TypeModel) -> Option<TypeModel> {
    match t {
        TypeModel::Applied(n, args) => if n == "Option"@ && args.len() == 1 { Some(args[0]) } else { None },
        _ => None,
    }
}

pub fn option_element_type(ty: &Type) -> (r: Option<&Type>)
    ensures
        r is Some == option_element(ty@) is Some,
        r matches Some(e) ==> option_element(ty@) == Some(e@),
{
    match ty {
        Type::Applied(name, args) => {
            proof {
                lemma_types_model(args@);
            }
            if str_eq(name.as_str(), "Option") && args.len() == 1 {
                Some(&args[0])
            } else {
                None
            }
        },
        _ => None,
    }
}

/// The success and error types of `Result[T, E]`.
pub open spec fn result_parts(t: TypeModel) -> Option<(TypeModel, TypeModel)> {
    match t {
        TypeModel::Applied(n, args) => if n == "Result"@ && args.len() == 2 { Some((args[0], args[1])) } else { None },
        _ => None,
    }
}

pub fn result_types(ty: &Type) -> (r: Option<(&Type, &Type)>)
    ensures
        r is Some == result_parts(ty@) is Some,
        r matches Some((ok, err)) ==> result_parts(ty@) == Some((ok@, err@)),
{
    match ty {
        Type::Applied(name, args) => {
            proof {
                lemma_types_model(args@);
            }
            if str_eq(name.as_str(), "Result") && args.len() == 2 {
                Some((&args[0], &args[1]))
            } else {
                None
            }
        },
        _ => None,
    }
}

/// The value type that `??` falls back from: `T` of `Option[T]` or of `Result[T, E]`.
pub open spec fn default_success(t: TypeModel) -> Option<TypeModel> {
    match option_element(t) {
        Some(e) => Some(e),
        None => match result_parts(t) {
            Some((ok, _)) => Some(ok),
            None => None,
        },
    }
}

pub fn default_success_type(ty: &Type) -> (r: Option<&Type>)
    ensures
        r is Some == default_success(ty@) is Some,
        r matches Some(e) ==> default_success(ty@) == Some(e@),
{
    match option_element_type(ty) {
        Some(e) => Some(e),
        None => match result_types(ty) {
            Some((ok, _)) => Some(ok),
            None => None,
        },
    }
}

/// Whether values of the type are held in one shell variable.
pub open spec fn scalar_backed(t: TypeModel) -> bool
    decreases t,
{
    match t {
        TypeModel::Array(_) | TypeModel::Mapping(_, _) | TypeModel::Record(_) | TypeModel::Tuple(_) => false,
        TypeModel::Applied(_, args) => all_scalar_backed(args),
        TypeModel::Union(args) => all_scalar_backed(args),
        TypeModel::Intersection(args) => all_scalar_backed(args),
        TypeModel::Brand { base, .. } => scalar_backed(*base),
        TypeModel::Generic(_) | TypeModel::Named(_) => false,
        _ => true,
    }
}

pub open spec fn all_scalar_backed(ts: Seq<TypeModel>) -> bool
    decreases ts,
{
    if ts.len() == 0 {
        true
    } else {
        all_scalar_backed(ts.drop_last()) && scalar_backed(ts.last())
    }
}

fn all_types_scalar_backed(ts: &Vec<Type>) -> (r: bool)
    ensures
        r == all_scalar_backed(types_model(ts@)),
    decreases ts,
{
    proof {
        lemma_types_model(ts@);
    }
    let ghost m = types_model(ts@);
    let mut i: usize = 0;
    while i < ts.len()
        invariant
            i <= ts.len(),
            m == types_model(ts@),
            m.len() == ts@.len(),
            forall|j: int| 0 <= j < ts@.len() ==> #[trigger] m[j] == type_model(ts@[j]),
            all_scalar_backed(m.take(i as int)),
        decreases ts.len() - i,
    {
        proof {
            assert(decreases_to!(ts => ts[i as int]));
            assert(m.take(i + 1).drop_last() =~= m.take(i as int));
        }
        if !is_scalar_backed_type(&ts[i]) {
            proof {
                lemma_all_scalar_backed_prefix(m, i as int + 1);
            }
            return false;
        }
        i += 1;
    }
    proof {
        assert(m.take(ts.len() as int) =~= m);
    }
    true
}

proof fn lemma_all_scalar_backed_prefix(ts: Seq<TypeModel>, n: int)
    requires
        0 < n <= ts.len(),
        !scalar_backed(ts[n - 1]),
    ensures
        !all_scalar_backed(ts),
    decreases ts.len(),
{
    if n < ts.len() {
        assert(ts.drop_last()[n - 1] == ts[n - 1]);
        lemma_all_scalar_backed_prefix(ts.drop_last(), n);
    } else {
        assert(ts.last() == ts[n - 1]);
    }
}

pub fn is_scalar_backed_type(ty: &Type) -> (r: bool)
    ensures
        r == scalar_backed(ty@),
    decreases ty,
{
    match ty {
        Type::Array(_) | Type::Mapping(_, _) | Type::Record(_) | Type::Tuple(_) => false,
        Type::Applied(_, args) => all_types_scalar_backed(args),
        Type::Union(args) => all_types_scalar_backed(args),
        Type::Intersection(args) => all_types_scalar_backed(args),
        Type::Brand { base, .. } => is_scalar_backed_type(base),
        Type::Generic(_) | Type::Named(_) => false,
        _ => true,
    }
}

/// `{ code: ExitCode, stderr: String }`, the error of a failed command.
pub open spec fn cmd_error_model() -> TypeModel {
    TypeModel::Record(seq![("code"@, TypeModel::ExitCode), ("stderr"@, TypeModel::String)])
}

pub fn cmd_error_type() -> (r: Type)
    ensures
        r@ == cmd_error_model(),
{
    let mut fields: Vec<(String, Type)> = Vec::new();
    fields.push((String::from_str("code"), Type::ExitCode));
    fields.push((String::from_str("stderr"), Type::String));
    proof {
        lemma_fields_model(fields@);
        assert(fields_model(fields@) =~= seq![("code"@, TypeModel::ExitCode), ("stderr"@, TypeModel::String)]);
    }
    Type::Record(fields)
}

/// `String \/ CmdError`, the result of a checked command.
pub open spec fn command_result_model() -> TypeModel {
    TypeModel::Applied("Result"@, seq![TypeModel::String, cmd_error_model()])
}

pub fn command_result_type() -> (r: Type)
    ensures
        r@ == command_result_model(),
{
    let mut args: Vec<Type> = Vec::new();
    args.push(Type::String);
    args.push(cmd_error_type());
    proof {
        lemma_types_model(args@);
        assert(types_model(args@) =~= seq![TypeModel::String, cmd_error_model()]);
    }
    Type::Applied(String::from_str("Result"), args)
}

/// The record that describes a finished command.
pub open spec fn command_output_model() -> TypeModel {
    TypeModel::Record(seq![
        ("stdout"@, TypeModel::String),
        ("stderr"@, TypeModel::String),
        ("status"@, TypeModel::ExitCode),
        ("success"@, TypeModel::Bool),
    ])
}

pub fn command_output_type() -> (r: Type)
    ensures
        r@ == command_output_model(),
{
    let mut fields: Vec<(String, Type)> = Vec::new();
    fields.push((String::from_str("stdout"), Type::String));
    fields.push((String::from_str("stderr"), Type::String));
    fields.push((String::from_str("status"), Type::ExitCode));
    fields.push((String::from_str("success"), Type::Bool));
    proof {
        lemma_fields_model(fields@);
        assert(fields_model(fields@) =~= seq![
            ("stdout"@, TypeModel::String),
            ("stderr"@, TypeModel::String),
            ("status"@, TypeModel::ExitCode),
            ("success"@, TypeModel::Bool),
        ]);
    }
    Type::Record(fields)
}

} // verus!
