//! Inference of generic type parameters from argument types.

use vstd::prelude::*;
use vstd::string::StringExecFns;

use crate::ast::{display_name, fields_model, lemma_fields_model, lemma_types_model, type_model, types_model, Expr, Type, TypeModel};
use crate::checker::relations::{assignable, byte_literal, field_type, find_field};
use crate::checker::TypeChecker;
use crate::collections::{AssocMap, Duplicate};

verus! {

pub open spec fn mismatch(expected: TypeModel, actual: TypeModel) -> Seq<char> {
    "expected "@ + display_name(expected) + ", found "@ + display_name(actual)
}

/// The bindings of generic parameters after matching `expected` against
/// `actual`, starting from `m`, or the message that rejects the match.
pub open spec fn infer(expected: TypeModel, actual: TypeModel, byte: bool, m: Map<Seq<char>, TypeModel>) -> Result<Map<Seq<char>, TypeModel>, Seq<char>>
    decreases expected, 1nat,
{
    match expected {
        TypeModel::Generic(name) => if m.dom().contains(name) {
            if assignable(m[name], actual, byte) && assignable(actual, m[name], byte) {
                Ok(m)
            } else {
                Err("generic type `"@ + name + "` expected "@ + display_name(m[name]) + ", found "@ + display_name(actual))
            }
        } else {
            Ok(m.insert(name, actual))
        },
        TypeModel::Array(e) => match actual {
            TypeModel::Array(a) => infer(*e, *a, byte, m),
            _ => Err(mismatch(*e, actual)),
        },
        TypeModel::Future(e) => match actual {
            TypeModel::Future(a) => infer(*e, *a, byte, m),
            _ => Err(mismatch(*e, actual)),
        },
        TypeModel::Mapping(ek, ev) => match actual {
            TypeModel::Mapping(ak, av) => match infer(*ek, *ak, byte, m) {
                Ok(m2) => infer(*ev, *av, byte, m2),
                Err(msg) => Err(msg),
            },
            _ => Err(mismatch(expected, actual)),
        },
        TypeModel::Tuple(es) => match actual {
            TypeModel::Tuple(acts) => if es.len() != acts.len() {
                Err(mismatch(expected, actual))
            } else {
                infer_pairs(es, acts, byte, m)
            },
            _ => Err(mismatch(expected, actual)),
        },
        TypeModel::Record(efs) => match actual {
            TypeModel::Record(afs) => infer_fields(efs, afs, byte, m),
            _ => Err(mismatch(expected, actual)),
        },
        TypeModel::Function(eps, er) => match actual {
            TypeModel::Function(aps, ar) => if eps.len() != aps.len() {
                Err(mismatch(expected, actual))
            } else {
                match infer_pairs(eps, aps, byte, m) {
                    Ok(m2) => infer(*er, *ar, byte, m2),
                    Err(msg) => Err(msg),
                }
            },
            _ => Err(mismatch(expected, actual)),
        },
        TypeModel::Union(es) => match infer_first(es, actual, byte, m) {
            Some(m2) => Ok(m2),
            None => Err(mismatch(expected, actual)),
        },
        TypeModel::Intersection(es) => infer_each(es, actual, byte, m),
        _ => if assignable(expected, actual, byte) {
            Ok(m)
        } else {
            Err(mismatch(expected, actual))
        },
    }
}

/// Matches each member of `es` against the member of `acts` at its position, in order.
pub open spec fn infer_pairs(es: Seq<TypeModel>, acts: Seq<TypeModel>, byte: bool, m: Map<Seq<char>, TypeModel>) -> Result<Map<Seq<char>, TypeModel>, Seq<char>>
    decreases es, 0nat,
{
    if es.len() == 0 || acts.len() == 0 {
        Ok(m)
    } else {
        match infer_pairs(es.drop_last(), acts.drop_last(), byte, m) {
            Ok(m2) => infer(es.last(), acts.last(), byte, m2),
            Err(msg) => Err(msg),
        }
    }
}

/// Matches each member of `es` against `actual`, in order.
pub open spec fn infer_each(es: Seq<TypeModel>, actual: TypeModel, byte: bool, m: Map<Seq<char>, TypeModel>) -> Result<Map<Seq<char>, TypeModel>, Seq<char>>
    decreases es, 0nat,
{
    if es.len() == 0 {
        Ok(m)
    } else {
        match infer_each(es.drop_last(), actual, byte, m) {
            Ok(m2) => infer(es.last(), actual, byte, m2),
            Err(msg) => Err(msg),
        }
    }
}

/// The bindings from the first member of `es` that matches `actual`.
pub open spec fn infer_first(es: Seq<TypeModel>, actual: TypeModel, byte: bool, m: Map<Seq<char>, TypeModel>) -> Option<Map<Seq<char>, TypeModel>>
    decreases es, 0nat,
{
    if es.len() == 0 {
        None
    } else {
        match infer(es[0], actual, byte, m) {
            Ok(m2) => Some(m2),
            Err(_) => infer_first(es.drop_first(), actual, byte, m),
        }
    }
}

/// Matches each expected field against the actual field of the same name.
pub open spec fn infer_fields(efs: Seq<(Seq<char>, TypeModel)>, afs: Seq<(Seq<char>, TypeModel)>, byte: bool, m: Map<Seq<char>, TypeModel>) -> Result<Map<Seq<char>, TypeModel>, Seq<char>>
    decreases efs, 0nat,
{
    if efs.len() == 0 {
        Ok(m)
    } else {
        match infer_fields(efs.drop_last(), afs, byte, m) {
            Ok(m2) => match field_type(afs, efs.last().0) {
                Some(a) => infer(efs.last().1, a, byte, m2),
                None => Err("record field `"@ + efs.last().0 + "` is missing"@),
            },
            Err(msg) => Err(msg),
        }
    }
}

fn mismatch_text(expected: &Type, actual: &Type) -> (r: String)
    ensures
        r@ == mismatch(expected@, actual@),
{
    let mut message = String::from_str("expected ");
    message.append(expected.name().as_str());
    message.append(", found ");
    message.append(actual.name().as_str());
    message
}

fn infer_pairs_exec(es: &Vec<Type>, acts: &Vec<Type>, byte: bool, inferred: &mut AssocMap<String, Type>) -> (r: Result<(), String>)
    requires
        old(inferred).wf(),
        es@.len() == acts@.len(),
    ensures
        final(inferred).wf(),
        match infer_pairs(types_model(es@), types_model(acts@), byte, old(inferred).view()) {
            Ok(m) => r is Ok && final(inferred).view() == m,
            Err(msg) => r matches Err(s) && s@ == msg,
        },
    decreases es, 0nat,
{
    proof {
        lemma_types_model(es@);
        lemma_types_model(acts@);
    }
    let ghost em = types_model(es@);
    let ghost am = types_model(acts@);
    let ghost start = inferred.view();
    let mut i: usize = 0;
    while i < es.len()
        invariant
            inferred.wf(),
            start == old(inferred).view(),
            es@.len() == acts@.len(),
            i <= es@.len(),
            em == types_model(es@),
            am == types_model(acts@),
            em.len() == es@.len(),
            am.len() == acts@.len(),
            forall|j: int| 0 <= j < es@.len() ==> #[trigger] em[j] == type_model(es@[j]),
            forall|j: int| 0 <= j < acts@.len() ==> #[trigger] am[j] == type_model(acts@[j]),
            infer_pairs(em.take(i as int), am.take(i as int), byte, start) == Ok::<Map<Seq<char>, TypeModel>, Seq<char>>(inferred.view()),
        decreases es.len() - i,
    {
        proof {
            assert(decreases_to!(es => es[i as int]));
            assert(em.take(i + 1).drop_last() =~= em.take(i as int));
            assert(am.take(i + 1).drop_last() =~= am.take(i as int));
        }
        let r = infer_types(&es[i], &acts[i], byte, inferred);
        match r {
            Ok(()) => {},
            Err(msg) => {
                proof {
                    assert(em.take(i + 1).last() == em[i as int]);
                    assert(am.take(i + 1).last() == am[i as int]);
                    assert(infer_pairs(em.take(i + 1), am.take(i + 1), byte, start) == Err::<Map<Seq<char>, TypeModel>, Seq<char>>(msg@));
                    lemma_infer_pairs_err(em, am, byte, start, i as int + 1);
                }
                return Err(msg);
            },
        }
        i += 1;
    }
    proof {
        assert(em.take(es.len() as int) =~= em);
        assert(am.take(acts.len() as int) =~= am);
    }
    Ok(())
}

proof fn lemma_infer_pairs_err(em: Seq<TypeModel>, am: Seq<TypeModel>, byte: bool, m: Map<Seq<char>, TypeModel>, n: int)
    requires
        0 < n <= em.len(),
        em.len() == am.len(),
        infer_pairs(em.take(n), am.take(n), byte, m) is Err,
    ensures
        infer_pairs(em, am, byte, m) == infer_pairs(em.take(n), am.take(n), byte, m),
    decreases em.len() - n,
{
    if n < em.len() {
        assert(em.take(n + 1).drop_last() =~= em.take(n));
        assert(am.take(n + 1).drop_last() =~= am.take(n));
        lemma_infer_pairs_err(em, am, byte, m, n + 1);
    } else {
        assert(em.take(n) =~= em);
        assert(am.take(n) =~= am);
    }
}

proof fn lemma_infer_each_err(em: Seq<TypeModel>, actual: TypeModel, byte: bool, m: Map<Seq<char>, TypeModel>, n: int)
    requires
        0 < n <= em.len(),
        infer_each(em.take(n), actual, byte, m) is Err,
    ensures
        infer_each(em, actual, byte, m) == infer_each(em.take(n), actual, byte, m),
    decreases em.len() - n,
{
    if n < em.len() {
        assert(em.take(n + 1).drop_last() =~= em.take(n));
        lemma_infer_each_err(em, actual, byte, m, n + 1);
    } else {
        assert(em.take(n) =~= em);
    }
}

proof fn lemma_infer_fields_err(em: Seq<(Seq<char>, TypeModel)>, afs: Seq<(Seq<char>, TypeModel)>, byte: bool, m: Map<Seq<char>, TypeModel>, n: int)
    requires
        0 < n <= em.len(),
        infer_fields(em.take(n), afs, byte, m) is Err,
    ensures
        infer_fields(em, afs, byte, m) == infer_fields(em.take(n), afs, byte, m),
    decreases em.len() - n,
{
    if n < em.len() {
        assert(em.take(n + 1).drop_last() =~= em.take(n));
        lemma_infer_fields_err(em, afs, byte, m, n + 1);
    } else {
        assert(em.take(n) =~= em);
    }
}

fn infer_each_exec(es: &Vec<Type>, actual: &Type, byte: bool, inferred: &mut AssocMap<String, Type>) -> (r: Result<(), String>)
    requires
        old(inferred).wf(),
    ensures
        final(inferred).wf(),
        match infer_each(types_model(es@), actual@, byte, old(inferred).view()) {
            Ok(m) => r is Ok && final(inferred).view() == m,
            Err(msg) => r matches Err(s) && s@ == msg,
        },
    decreases es, 0nat,
{
    proof {
        lemma_types_model(es@);
    }
    let ghost em = types_model(es@);
    let ghost start = inferred.view();
    let mut i: usize = 0;
    while i < es.len()
        invariant
            inferred.wf(),
            start == old(inferred).view(),
            i <= es@.len(),
            em == types_model(es@),
            em.len() == es@.len(),
            forall|j: int| 0 <= j < es@.len() ==> #[trigger] em[j] == type_model(es@[j]),
            infer_each(em.take(i as int), actual@, byte, start) == Ok::<Map<Seq<char>, TypeModel>, Seq<char>>(inferred.view()),
        decreases es.len() - i,
    {
        proof {
            assert(decreases_to!(es => es[i as int]));
            assert(em.take(i + 1).drop_last() =~= em.take(i as int));
        }
        let r = infer_types(&es[i], actual, byte, inferred);
        match r {
            Ok(()) => {},
            Err(msg) => {
                proof {
                    assert(em.take(i + 1).last() == em[i as int]);
                    assert(infer_each(em.take(i + 1), actual@, byte, start) == Err::<Map<Seq<char>, TypeModel>, Seq<char>>(msg@));
                    lemma_infer_each_err(em, actual@, byte, start, i as int + 1);
                }
                return Err(msg);
            },
        }
        i += 1;
    }
    proof {
        assert(em.take(es.len() as int) =~= em);
    }
    Ok(())
}

fn infer_first_exec(es: &Vec<Type>, actual: &Type, byte: bool, inferred: &mut AssocMap<String, Type>) -> (r: bool)
    requires
        old(inferred).wf(),
    ensures
        final(inferred).wf(),
        match infer_first(types_model(es@), actual@, byte, old(inferred).view()) {
            Some(m) => r && final(inferred).view() == m,
            None => !r && final(inferred).view() == old(inferred).view(),
        },
    decreases es, 0nat,
{
    proof {
        lemma_types_model(es@);
    }
    let ghost em = types_model(es@);
    let mut i: usize = 0;
    assert(em.skip(0) =~= em);
    while i < es.len()
        invariant
            inferred.wf(),
            inferred.view() == old(inferred).view(),
            i <= es@.len(),
            em == types_model(es@),
            em.len() == es@.len(),
            forall|j: int| 0 <= j < es@.len() ==> #[trigger] em[j] == type_model(es@[j]),
            infer_first(em, actual@, byte, old(inferred).view()) == infer_first(em.skip(i as int), actual@, byte, old(inferred).view()),
        decreases es.len() - i,
    {
        proof {
            assert(decreases_to!(es => es[i as int]));
            assert(em.skip(i as int)[0] == em[i as int]);
            assert(em.skip(i as int).drop_first() =~= em.skip(i + 1));
        }
        let mut candidate = inferred.copy();
        let r = infer_types(&es[i], actual, byte, &mut candidate);
        if r.is_ok() {
            *inferred = candidate;
            return true;
        }
        i += 1;
    }
    false
}

fn infer_fields_exec(efs: &Vec<(String, Type)>, afs: &Vec<(String, Type)>, byte: bool, inferred: &mut AssocMap<String, Type>) -> (r: Result<(), String>)
    requires
        old(inferred).wf(),
    ensures
        final(inferred).wf(),
        match infer_fields(fields_model(efs@), fields_model(afs@), byte, old(inferred).view()) {
            Ok(m) => r is Ok && final(inferred).view() == m,
            Err(msg) => r matches Err(s) && s@ == msg,
        },
    decreases efs, 0nat,
{
    proof {
        lemma_fields_model(efs@);
        lemma_fields_model(afs@);
    }
    let ghost em = fields_model(efs@);
    let ghost am = fields_model(afs@);
    let ghost start = inferred.view();
    let mut i: usize = 0;
    while i < efs.len()
        invariant
            inferred.wf(),
            start == old(inferred).view(),
            i <= efs@.len(),
            em == fields_model(efs@),
            am == fields_model(afs@),
            em.len() == efs@.len(),
            am.len() == afs@.len(),
            forall|j: int| 0 <= j < efs@.len() ==> #[trigger] em[j] == (efs@[j].0@, type_model(efs@[j].1)),
            forall|j: int| 0 <= j < afs@.len() ==> #[trigger] am[j] == (afs@[j].0@, type_model(afs@[j].1)),
            infer_fields(em.take(i as int), am, byte, start) == Ok::<Map<Seq<char>, TypeModel>, Seq<char>>(inferred.view()),
        decreases efs.len() - i,
    {
        proof {
            assert(decreases_to!(efs => efs[i as int]));
            assert(decreases_to!(efs[i as int] => efs[i as int].1));
            assert(em.take(i + 1).drop_last() =~= em.take(i as int));
        }
        let k = match find_field(afs, efs[i].0.as_str()) {
            Some(k) => k,
            None => {
                let mut message = String::from_str("record field `");
                message.append(efs[i].0.as_str());
                message.append("` is missing");
                proof {
                    assert(em.take(i + 1).last() == em[i as int]);
                    assert(infer_fields(em.take(i + 1), am, byte, start) == Err::<Map<Seq<char>, TypeModel>, Seq<char>>(message@));
                    lemma_infer_fields_err(em, am, byte, start, i as int + 1);
                }
                return Err(message);
            },
        };
        let r = infer_types(&efs[i].1, &afs[k].1, byte, inferred);
        match r {
            Ok(()) => {},
            Err(msg) => {
                proof {
                    assert(em.take(i + 1).last() == em[i as int]);
                    assert(infer_fields(em.take(i + 1), am, byte, start) == Err::<Map<Seq<char>, TypeModel>, Seq<char>>(msg@));
                    lemma_infer_fields_err(em, am, byte, start, i as int + 1);
                }
                return Err(msg);
            },
        }
        i += 1;
    }
    proof {
        assert(em.take(efs.len() as int) =~= em);
    }
    Ok(())
}

fn infer_types(expected: &Type, actual: &Type, byte: bool, inferred: &mut AssocMap<String, Type>) -> (r: Result<(), String>)
    requires
        old(inferred).wf(),
    ensures
        final(inferred).wf(),
        match infer(expected@, actual@, byte, old(inferred).view()) {
            Ok(m) => r is Ok && final(inferred).view() == m,
            Err(msg) => r matches Err(s) && s@ == msg,
        },
    decreases expected, 1nat,
{
    match expected {
        Type::Generic(name) => {
            match inferred.get(name) {
                Some(existing) => {
                    if crate::checker::relations::assignable_types_pub(existing, actual, byte)
                        && crate::checker::relations::assignable_types_pub(actual, existing, byte) {
                        Ok(())
                    } else {
                        let mut message = String::from_str("generic type `");
                        message.append(name.as_str());
                        message.append("` expected ");
                        message.append(existing.name().as_str());
                        message.append(", found ");
                        message.append(actual.name().as_str());
                        Err(message)
                    }
                },
                None => {
                    inferred.insert(name.clone(), actual.duplicate());
                    Ok(())
                },
            }
        },
        Type::Array(e) => match actual {
            Type::Array(a) => infer_types(e, a, byte, inferred),
            _ => Err(mismatch_text(e, actual)),
        },
        Type::Future(e) => match actual {
            Type::Future(a) => infer_types(e, a, byte, inferred),
            _ => Err(mismatch_text(e, actual)),
        },
        Type::Mapping(ek, ev) => match actual {
            Type::Mapping(ak, av) => {
                infer_types(ek, ak, byte, inferred)?;
                infer_types(ev, av, byte, inferred)
            },
            _ => Err(mismatch_text(expected, actual)),
        },
        Type::Tuple(es) => match actual {
            Type::Tuple(acts) => {
                proof {
                    lemma_types_model(es@);
                    lemma_types_model(acts@);
                }
                if es.len() != acts.len() {
                    Err(mismatch_text(expected, actual))
                } else {
                    infer_pairs_exec(es, acts, byte, inferred)
                }
            },
            _ => Err(mismatch_text(expected, actual)),
        },
        Type::Record(efs) => match actual {
            Type::Record(afs) => infer_fields_exec(efs, afs, byte, inferred),
            _ => Err(mismatch_text(expected, actual)),
        },
        Type::Function(eps, er) => match actual {
            Type::Function(aps, ar) => {
                proof {
                    lemma_types_model(eps@);
                    lemma_types_model(aps@);
                }
                if eps.len() != aps.len() {
                    Err(mismatch_text(expected, actual))
                } else {
                    infer_pairs_exec(eps, aps, byte, inferred)?;
                    infer_types(er, ar, byte, inferred)
                }
            },
            _ => Err(mismatch_text(expected, actual)),
        },
        Type::Union(es) => {
            if infer_first_exec(es, actual, byte, inferred) {
                Ok(())
            } else {
                Err(mismatch_text(expected, actual))
            }
        },
        Type::Intersection(es) => infer_each_exec(es, actual, byte, inferred),
        _ => {
            if crate::checker::relations::assignable_types_pub(expected, actual, byte) {
                Ok(())
            } else {
                Err(mismatch_text(expected, actual))
            }
        },
    }
}

/// `infer` on concrete types, given whether the value is a byte literal.
pub fn infer_types_pub(expected: &Type, actual: &Type, byte: bool, inferred: &mut AssocMap<String, Type>) -> (r: Result<(), String>)
    requires
        old(inferred).wf(),
    ensures
        final(inferred).wf(),
        match infer(expected@, actual@, byte, old(inferred).view()) {
            Ok(m) => r is Ok && final(inferred).view() == m,
            Err(msg) => r matches Err(s) && s@ == msg,
        },
{
    infer_types(expected, actual, byte, inferred)
}

impl TypeChecker {
    /// Binds the generic parameters of `expected` so that it matches
    /// `actual`, the type of `expr`.
    pub fn infer_generic_type(&self, expected: &Type, actual: &Type, expr: &Expr, inferred: &mut AssocMap<String, Type>) -> (r: Result<(), String>)
        requires
            old(inferred).wf(),
        ensures
            final(inferred).wf(),
            match infer(expected@, actual@, byte_literal(*expr), old(inferred).view()) {
                Ok(m) => r is Ok && final(inferred).view() == m,
                Err(msg) => r matches Err(s) && s@ == msg,
            },
    {
        let byte = match expr {
            Expr::Int(v) => 0 <= *v && *v <= 255,
            _ => false,
        };
        infer_types(expected, actual, byte, inferred)
    }
}

} // verus!
