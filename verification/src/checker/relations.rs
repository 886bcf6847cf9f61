//! Structural equality of types and the assignability relation between them.

use vstd::prelude::*;

use crate::ast::{fields_model, lemma_fields_model, lemma_types_model, type_model, types_model, Expr, Type, TypeModel};
use crate::checker::TypeChecker;
use crate::text::str_eq;
use crate::type_utils::{option_element, option_element_type, result_parts};

verus! {

fn types_seq_equal(a: &Vec<Type>, b: &Vec<Type>) -> (r: bool)
    ensures
        r == (types_model(a@) == types_model(b@)),
    decreases a,
{
    proof {
        lemma_types_model(a@);
        lemma_types_model(b@);
    }
    if a.len() != b.len() {
        return false;
    }
    let mut i: usize = 0;
    while i < a.len()
        invariant
            a.len() == b.len(),
            i <= a.len(),
            types_model(a@).len() == a@.len(),
            types_model(b@).len() == b@.len(),
            forall|j: int| 0 <= j < a@.len() ==> #[trigger] types_model(a@)[j] == type_model(a@[j]),
            forall|j: int| 0 <= j < b@.len() ==> #[trigger] types_model(b@)[j] == type_model(b@[j]),
            forall|j: int| 0 <= j < i ==> type_model(#[trigger] a@[j]) == type_model(b@[j]),
        decreases a.len() - i,
    {
        proof {
            assert(decreases_to!(a => a[i as int]));
        }
        if !types_equal(&a[i], &b[i]) {
            proof {
                assert(types_model(a@)[i as int] != types_model(b@)[i as int]);
            }
            return false;
        }
        i += 1;
    }
    assert(types_model(a@) =~= types_model(b@));
    true
}

fn fields_equal(a: &Vec<(String, Type)>, b: &Vec<(String, Type)>) -> (r: bool)
    ensures
        r == (fields_model(a@) == fields_model(b@)),
    decreases a,
{
    proof {
        lemma_fields_model(a@);
        lemma_fields_model(b@);
    }
    if a.len() != b.len() {
        return false;
    }
    let mut i: usize = 0;
    while i < a.len()
        invariant
            a.len() == b.len(),
            i <= a.len(),
            fields_model(a@).len() == a@.len(),
            fields_model(b@).len() == b@.len(),
            forall|j: int| 0 <= j < a@.len() ==> #[trigger] fields_model(a@)[j] == (a@[j].0@, type_model(a@[j].1)),
            forall|j: int| 0 <= j < b@.len() ==> #[trigger] fields_model(b@)[j] == (b@[j].0@, type_model(b@[j].1)),
            forall|j: int| 0 <= j < i ==> (#[trigger] a@[j]).0@ == b@[j].0@ && type_model(a@[j].1) == type_model(b@[j].1),
        decreases a.len() - i,
    {
        proof {
            assert(decreases_to!(a => a[i as int]));
            assert(decreases_to!(a[i as int] => a[i as int].1));
        }
        if !str_eq(a[i].0.as_str(), b[i].0.as_str()) || !types_equal(&a[i].1, &b[i].1) {
            proof {
                assert(fields_model(a@)[i as int] != fields_model(b@)[i as int]);
            }
            return false;
        }
        i += 1;
    }
    assert(fields_model(a@) =~= fields_model(b@));
    true
}

/// Whether two types are the same type.
pub fn types_equal(a: &Type, b: &Type) -> (r: bool)
    ensures
        r == (a@ == b@),
    decreases a,
{
    match (a, b) {
        (Type::Int, Type::Int) => true,
        (Type::Float, Type::Float) => true,
        (Type::Bool, Type::Bool) => true,
        (Type::String, Type::String) => true,
        (Type::Path, Type::Path) => true,
        (Type::ExitCode, Type::ExitCode) => true,
        (Type::Unit, Type::Unit) => true,
        (Type::Future(x), Type::Future(y)) => types_equal(x, y),
        (Type::Array(x), Type::Array(y)) => types_equal(x, y),
        (Type::Mapping(k1, v1), Type::Mapping(k2, v2)) => types_equal(k1, k2) && types_equal(v1, v2),
        (Type::Record(x), Type::Record(y)) => fields_equal(x, y),
        (Type::Tuple(x), Type::Tuple(y)) => types_seq_equal(x, y),
        (Type::Function(p1, r1), Type::Function(p2, r2)) => types_seq_equal(p1, p2) && types_equal(r1, r2),
        (Type::Union(x), Type::Union(y)) => types_seq_equal(x, y),
        (Type::Intersection(x), Type::Intersection(y)) => types_seq_equal(x, y),
        (Type::Generic(x), Type::Generic(y)) => str_eq(x.as_str(), y.as_str()),
        (Type::Applied(n1, a1), Type::Applied(n2, a2)) => str_eq(n1.as_str(), n2.as_str()) && types_seq_equal(a1, a2),
        (Type::Brand { name: n1, base: b1 }, Type::Brand { name: n2, base: b2 }) => str_eq(n1.as_str(), n2.as_str()) && types_equal(b1, b2),
        (Type::Named(x), Type::Named(y)) => str_eq(x.as_str(), y.as_str()),
        _ => false,
    }
}

/// Whether an expression is an integer literal from 0 to 255, which an
/// `ExitCode` accepts.
pub open spec fn byte_literal(expr: Expr) -> bool {
    match expr {
        Expr::Int(v) => 0 <= v <= 255,
        _ => false,
    }
}

/// Whether a value of type `actual` may stand where `expected` is required.
/// `byte` tells whether the value is an integer literal from 0 to 255.
pub open spec fn assignable(expected: TypeModel, actual: TypeModel, byte: bool) -> bool
    decreases expected, actual, 1nat,
{
    if expected == actual {
        true
    } else {
        match (expected, actual) {
            (TypeModel::Union(es), _) => any_expected(es, actual, byte),
            (_, TypeModel::Union(acts)) => all_actual(expected, acts, byte),
            (TypeModel::Intersection(es), _) => all_expected(es, actual, byte),
            (_, TypeModel::Intersection(acts)) => any_actual(expected, acts, byte),
            (TypeModel::Float, TypeModel::Int) => true,
            (TypeModel::Path, TypeModel::String) => true,
            (TypeModel::String, TypeModel::Path) => true,
            (TypeModel::ExitCode, TypeModel::Int) => byte,
            (TypeModel::Array(e), TypeModel::Array(a)) => if *a == TypeModel::Unit {
                !(*e is Unit)
            } else {
                assignable(*e, *a, byte)
            },
            _ => assignable_rest(expected, actual, byte),
        }
    }
}

/// The cases of `assignable` after unions, intersections, scalars and arrays.
pub open spec fn assignable_rest(expected: TypeModel, actual: TypeModel, byte: bool) -> bool
    decreases expected, actual, 0nat,
{
    match actual {
        TypeModel::Applied(n, args) if n == "Option"@ && args.len() == 1 && args[0] == TypeModel::Unit => option_element(expected) is Some,
        TypeModel::Applied(n, args) if n == "Result"@ && args.len() == 2 && args[1] == TypeModel::Unit => match result_parts(expected) {
            Some((ok, _)) => assignable(ok, args[0], byte),
            None => false,
        },
        TypeModel::Applied(n, args) if n == "Result"@ && args.len() == 2 && args[0] == TypeModel::Unit => match result_parts(expected) {
            Some((_, err)) => assignable(err, args[1], byte),
            None => false,
        },
        _ => match (expected, actual) {
            (TypeModel::Applied(en, eargs), TypeModel::Applied(an, aargs)) =>
                if en == "Option"@ && an == "Option"@ && eargs.len() == 1 && aargs.len() == 1 {
                    assignable(eargs[0], aargs[0], byte)
                } else if en == "Result"@ && an == "Result"@ && eargs.len() == 2 && aargs.len() == 2 {
                    assignable(eargs[0], aargs[0], byte) && assignable(eargs[1], aargs[1], byte)
                } else {
                    false
                },
            (TypeModel::Future(e), TypeModel::Future(a)) => assignable(*e, *a, byte),
            (TypeModel::Mapping(ek, ev), TypeModel::Mapping(ak, av)) =>
                if *ak == TypeModel::Unit && *av == TypeModel::Unit {
                    !(*ek is Unit) && !(*ev is Unit)
                } else {
                    assignable(*ek, *ak, byte) && assignable(*ev, *av, byte)
                },
            (TypeModel::Record(efs), TypeModel::Record(afs)) => efs.len() == afs.len() && fields_assignable(efs, afs, byte),
            (TypeModel::Tuple(es), TypeModel::Tuple(acts)) => es.len() == acts.len() && pairwise_assignable(es, acts, byte),
            (TypeModel::Function(eps, er), TypeModel::Function(aps, ar)) =>
                eps.len() == aps.len() && pairwise_assignable(eps, aps, byte) && assignable(*er, *ar, byte),
            (TypeModel::Brand { name: en, .. }, TypeModel::Brand { name: an, .. }) => en == an,
            _ => false,
        },
    }
}

/// Some member of `es` accepts `actual`.
pub open spec fn any_expected(es: Seq<TypeModel>, actual: TypeModel, byte: bool) -> bool
    decreases es, actual, 0nat,
{
    if es.len() == 0 {
        false
    } else {
        any_expected(es.drop_last(), actual, byte) || assignable(es.last(), actual, byte)
    }
}

/// Every member of `es` accepts `actual`.
pub open spec fn all_expected(es: Seq<TypeModel>, actual: TypeModel, byte: bool) -> bool
    decreases es, actual, 0nat,
{
    if es.len() == 0 {
        true
    } else {
        all_expected(es.drop_last(), actual, byte) && assignable(es.last(), actual, byte)
    }
}

/// `expected` accepts some member of `acts`.
pub open spec fn any_actual(expected: TypeModel, acts: Seq<TypeModel>, byte: bool) -> bool
    decreases expected, acts, 0nat,
{
    if acts.len() == 0 {
        false
    } else {
        any_actual(expected, acts.drop_last(), byte) || assignable(expected, acts.last(), byte)
    }
}

/// `expected` accepts every member of `acts`.
pub open spec fn all_actual(expected: TypeModel, acts: Seq<TypeModel>, byte: bool) -> bool
    decreases expected, acts, 0nat,
{
    if acts.len() == 0 {
        true
    } else {
        all_actual(expected, acts.drop_last(), byte) && assignable(expected, acts.last(), byte)
    }
}

/// Each member of `es` accepts the member of `acts` at the same position.
pub open spec fn pairwise_assignable(es: Seq<TypeModel>, acts: Seq<TypeModel>, byte: bool) -> bool
    decreases es, acts, 0nat,
{
    if es.len() == 0 || acts.len() == 0 {
        true
    } else {
        pairwise_assignable(es.drop_last(), acts.drop_last(), byte) && assignable(es.last(), acts.last(), byte)
    }
}

/// The type of the first field named `name`.
pub open spec fn field_type(fs: Seq<(Seq<char>, TypeModel)>, name: Seq<char>) -> Option<TypeModel>
    decreases fs.len(),
{
    if fs.len() == 0 {
        None
    } else if fs[0].0 == name {
        Some(fs[0].1)
    } else {
        field_type(fs.drop_first(), name)
    }
}

/// Each expected field is present in `afs` with a type that it accepts.
pub open spec fn fields_assignable(efs: Seq<(Seq<char>, TypeModel)>, afs: Seq<(Seq<char>, TypeModel)>, byte: bool) -> bool
    decreases efs, afs, 0nat,
{
    if efs.len() == 0 {
        true
    } else {
        fields_assignable(efs.drop_last(), afs, byte) && match field_type(afs, efs.last().0) {
            Some(a) => assignable(efs.last().1, a, byte),
            None => false,
        }
    }
}

pub proof fn lemma_field_type_skip(fs: Seq<(Seq<char>, TypeModel)>, name: Seq<char>, i: int)
    requires
        0 <= i < fs.len(),
        fs[i].0 != name,
    ensures
        field_type(fs.skip(i), name) == field_type(fs.skip(i + 1), name),
{
    assert(fs.skip(i).drop_first() =~= fs.skip(i + 1));
}

/// The position of the first field named `name`.
pub fn find_field(fs: &Vec<(String, Type)>, name: &str) -> (r: Option<usize>)
    ensures
        r matches Some(i) ==> i < fs@.len() && fs@[i as int].0@ == name@
            && field_type(fields_model(fs@), name@) == Some(type_model(fs@[i as int].1)),
        r is None ==> field_type(fields_model(fs@), name@) is None,
{
    proof {
        lemma_fields_model(fs@);
    }
    let ghost m = fields_model(fs@);
    let mut i: usize = 0;
    assert(m.skip(0) =~= m);
    while i < fs.len()
        invariant
            i <= fs@.len(),
            m == fields_model(fs@),
            m.len() == fs@.len(),
            forall|j: int| 0 <= j < fs@.len() ==> #[trigger] m[j] == (fs@[j].0@, type_model(fs@[j].1)),
            field_type(m, name@) == field_type(m.skip(i as int), name@),
        decreases fs.len() - i,
    {
        if str_eq(fs[i].0.as_str(), name) {
            assert(m.skip(i as int)[0] == m[i as int]);
            return Some(i);
        }
        proof {
            lemma_field_type_skip(m, name@, i as int);
        }
        i += 1;
    }
    assert(m.skip(i as int).len() == 0);
    None
}

fn is_byte_literal(expr: &Expr) -> (r: bool)
    ensures
        r == byte_literal(*expr),
{
    match expr {
        Expr::Int(v) => 0 <= *v && *v <= 255,
        _ => false,
    }
}

fn any_expected_exec(es: &Vec<Type>, actual: &Type, byte: bool) -> (r: bool)
    ensures
        r == any_expected(types_model(es@), actual@, byte),
    decreases es, actual, 0nat,
{
    proof {
        lemma_types_model(es@);
    }
    let ghost m = types_model(es@);
    let mut r = false;
    let mut i: usize = 0;
    while i < es.len()
        invariant
            i <= es@.len(),
            m == types_model(es@),
            m.len() == es@.len(),
            forall|j: int| 0 <= j < es@.len() ==> #[trigger] m[j] == type_model(es@[j]),
            r == any_expected(m.take(i as int), actual@, byte),
        decreases es.len() - i,
    {
        proof {
            assert(decreases_to!(es => es[i as int]));
            assert(m.take(i + 1).drop_last() =~= m.take(i as int));
        }
        let here = assignable_types(&es[i], actual, byte);
        r = r || here;
        i += 1;
    }
    assert(m.take(es.len() as int) =~= m);
    r
}

fn all_expected_exec(es: &Vec<Type>, actual: &Type, byte: bool) -> (r: bool)
    ensures
        r == all_expected(types_model(es@), actual@, byte),
    decreases es, actual, 0nat,
{
    proof {
        lemma_types_model(es@);
    }
    let ghost m = types_model(es@);
    let mut r = true;
    let mut i: usize = 0;
    while i < es.len()
        invariant
            i <= es@.len(),
            m == types_model(es@),
            m.len() == es@.len(),
            forall|j: int| 0 <= j < es@.len() ==> #[trigger] m[j] == type_model(es@[j]),
            r == all_expected(m.take(i as int), actual@, byte),
        decreases es.len() - i,
    {
        proof {
            assert(decreases_to!(es => es[i as int]));
            assert(m.take(i + 1).drop_last() =~= m.take(i as int));
        }
        let here = assignable_types(&es[i], actual, byte);
        r = r && here;
        i += 1;
    }
    assert(m.take(es.len() as int) =~= m);
    r
}

fn any_actual_exec(expected: &Type, acts: &Vec<Type>, byte: bool) -> (r: bool)
    ensures
        r == any_actual(expected@, types_model(acts@), byte),
    decreases expected, acts, 0nat,
{
    proof {
        lemma_types_model(acts@);
    }
    let ghost m = types_model(acts@);
    let mut r = false;
    let mut i: usize = 0;
    while i < acts.len()
        invariant
            i <= acts@.len(),
            m == types_model(acts@),
            m.len() == acts@.len(),
            forall|j: int| 0 <= j < acts@.len() ==> #[trigger] m[j] == type_model(acts@[j]),
            r == any_actual(expected@, m.take(i as int), byte),
        decreases acts.len() - i,
    {
        proof {
            assert(decreases_to!(acts => acts[i as int]));
            assert(m.take(i + 1).drop_last() =~= m.take(i as int));
        }
        let here = assignable_types(expected, &acts[i], byte);
        r = r || here;
        i += 1;
    }
    assert(m.take(acts.len() as int) =~= m);
    r
}

fn all_actual_exec(expected: &Type, acts: &Vec<Type>, byte: bool) -> (r: bool)
    ensures
        r == all_actual(expected@, types_model(acts@), byte),
    decreases expected, acts, 0nat,
{
    proof {
        lemma_types_model(acts@);
    }
    let ghost m = types_model(acts@);
    let mut r = true;
    let mut i: usize = 0;
    while i < acts.len()
        invariant
            i <= acts@.len(),
            m == types_model(acts@),
            m.len() == acts@.len(),
            forall|j: int| 0 <= j < acts@.len() ==> #[trigger] m[j] == type_model(acts@[j]),
            r == all_actual(expected@, m.take(i as int), byte),
        decreases acts.len() - i,
    {
        proof {
            assert(decreases_to!(acts => acts[i as int]));
            assert(m.take(i + 1).drop_last() =~= m.take(i as int));
        }
        let here = assignable_types(expected, &acts[i], byte);
        r = r && here;
        i += 1;
    }
    assert(m.take(acts.len() as int) =~= m);
    r
}

fn pairwise_exec(es: &Vec<Type>, acts: &Vec<Type>, byte: bool) -> (r: bool)
    requires
        es@.len() == acts@.len(),
    ensures
        r == pairwise_assignable(types_model(es@), types_model(acts@), byte),
    decreases es, acts, 0nat,
{
    proof {
        lemma_types_model(es@);
        lemma_types_model(acts@);
    }
    let ghost m = types_model(es@);
    let ghost n = types_model(acts@);
    let mut r = true;
    let mut i: usize = 0;
    while i < es.len()
        invariant
            es@.len() == acts@.len(),
            i <= es@.len(),
            m == types_model(es@),
            n == types_model(acts@),
            m.len() == es@.len(),
            n.len() == acts@.len(),
            forall|j: int| 0 <= j < es@.len() ==> #[trigger] m[j] == type_model(es@[j]),
            forall|j: int| 0 <= j < acts@.len() ==> #[trigger] n[j] == type_model(acts@[j]),
            r == pairwise_assignable(m.take(i as int), n.take(i as int), byte),
        decreases es.len() - i,
    {
        proof {
            assert(decreases_to!(es => es[i as int]));
            assert(m.take(i + 1).drop_last() =~= m.take(i as int));
            assert(n.take(i + 1).drop_last() =~= n.take(i as int));
        }
        let here = assignable_types(&es[i], &acts[i], byte);
        r = r && here;
        i += 1;
    }
    assert(m.take(es.len() as int) =~= m);
    assert(n.take(acts.len() as int) =~= n);
    r
}

fn fields_exec(efs: &Vec<(String, Type)>, afs: &Vec<(String, Type)>, byte: bool) -> (r: bool)
    ensures
        r == fields_assignable(fields_model(efs@), fields_model(afs@), byte),
    decreases efs, afs, 0nat,
{
    proof {
        lemma_fields_model(efs@);
    }
    let ghost m = fields_model(efs@);
    let ghost n = fields_model(afs@);
    let mut r = true;
    let mut i: usize = 0;
    while i < efs.len()
        invariant
            i <= efs@.len(),
            m == fields_model(efs@),
            n == fields_model(afs@),
            m.len() == efs@.len(),
            forall|j: int| 0 <= j < efs@.len() ==> #[trigger] m[j] == (efs@[j].0@, type_model(efs@[j].1)),
            r == fields_assignable(m.take(i as int), n, byte),
        decreases efs.len() - i,
    {
        proof {
            assert(decreases_to!(efs => efs[i as int]));
            assert(decreases_to!(efs[i as int] => efs[i as int].1));
            assert(m.take(i + 1).drop_last() =~= m.take(i as int));
        }
        let here = match find_field(afs, efs[i].0.as_str()) {
            Some(k) => assignable_types(&efs[i].1, &afs[k].1, byte),
            None => false,
        };
        r = r && here;
        i += 1;
    }
    assert(m.take(efs.len() as int) =~= m);
    r
}

fn is_unit(t: &Type) -> (r: bool)
    ensures
        r == (t@ == TypeModel::Unit),
{
    match t {
        Type::Unit => true,
        _ => false,
    }
}

fn assignable_rest_exec(expected: &Type, actual: &Type, byte: bool) -> (r: bool)
    ensures
        r == assignable_rest(expected@, actual@, byte),
    decreases expected, actual, 0nat,
{
    if let Type::Applied(n, args) = actual {
        proof {
            lemma_types_model(args@);
        }
        if str_eq(n.as_str(), "Option") && args.len() == 1 && is_unit(&args[0]) {
            return option_element_type(expected).is_some();
        }
        if str_eq(n.as_str(), "Result") && args.len() == 2 && is_unit(&args[1]) {
            return match expected {
                Type::Applied(en, eargs) => {
                    proof {
                        lemma_types_model(eargs@);
                    }
                    if str_eq(en.as_str(), "Result") && eargs.len() == 2 {
                        assignable_types(&eargs[0], &args[0], byte)
                    } else {
                        false
                    }
                },
                _ => false,
            };
        }
        if str_eq(n.as_str(), "Result") && args.len() == 2 && is_unit(&args[0]) {
            return match expected {
                Type::Applied(en, eargs) => {
                    proof {
                        lemma_types_model(eargs@);
                    }
                    if str_eq(en.as_str(), "Result") && eargs.len() == 2 {
                        assignable_types(&eargs[1], &args[1], byte)
                    } else {
                        false
                    }
                },
                _ => false,
            };
        }
    }
    match (expected, actual) {
        (Type::Applied(en, eargs), Type::Applied(an, aargs)) => {
            proof {
                lemma_types_model(eargs@);
                lemma_types_model(aargs@);
            }
            if str_eq(en.as_str(), "Option") && str_eq(an.as_str(), "Option") && eargs.len() == 1 && aargs.len() == 1 {
                assignable_types(&eargs[0], &aargs[0], byte)
            } else if str_eq(en.as_str(), "Result") && str_eq(an.as_str(), "Result") && eargs.len() == 2 && aargs.len() == 2 {
                assignable_types(&eargs[0], &aargs[0], byte) && assignable_types(&eargs[1], &aargs[1], byte)
            } else {
                false
            }
        },
        (Type::Future(e), Type::Future(a)) => assignable_types(e, a, byte),
        (Type::Mapping(ek, ev), Type::Mapping(ak, av)) => {
            if is_unit(ak) && is_unit(av) {
                !is_unit(ek) && !is_unit(ev)
            } else {
                assignable_types(ek, ak, byte) && assignable_types(ev, av, byte)
            }
        },
        (Type::Record(efs), Type::Record(afs)) => {
            proof {
                lemma_fields_model(efs@);
                lemma_fields_model(afs@);
            }
            efs.len() == afs.len() && fields_exec(efs, afs, byte)
        },
        (Type::Tuple(es), Type::Tuple(acts)) => {
            proof {
                lemma_types_model(es@);
                lemma_types_model(acts@);
            }
            es.len() == acts.len() && pairwise_exec(es, acts, byte)
        },
        (Type::Function(eps, er), Type::Function(aps, ar)) => {
            proof {
                lemma_types_model(eps@);
                lemma_types_model(aps@);
            }
            eps.len() == aps.len() && pairwise_exec(eps, aps, byte) && assignable_types(er, ar, byte)
        },
        (Type::Brand { name: en, .. }, Type::Brand { name: an, .. }) => str_eq(en.as_str(), an.as_str()),
        _ => false,
    }
}

fn assignable_types(expected: &Type, actual: &Type, byte: bool) -> (r: bool)
    ensures
        r == assignable(expected@, actual@, byte),
    decreases expected, actual, 1nat,
{
    if types_equal(expected, actual) {
        return true;
    }
    match (expected, actual) {
        (Type::Union(es), _) => any_expected_exec(es, actual, byte),
        (_, Type::Union(acts)) => all_actual_exec(expected, acts, byte),
        (Type::Intersection(es), _) => all_expected_exec(es, actual, byte),
        (_, Type::Intersection(acts)) => any_actual_exec(expected, acts, byte),
        (Type::Float, Type::Int) => true,
        (Type::Path, Type::String) => true,
        (Type::String, Type::Path) => true,
        (Type::ExitCode, Type::Int) => byte,
        (Type::Array(e), Type::Array(a)) => {
            if is_unit(a) {
                !is_unit(e)
            } else {
                assignable_types(e, a, byte)
            }
        },
        _ => assignable_rest_exec(expected, actual, byte),
    }
}

/// Whether `expected` accepts `actual`, given whether the value is a byte literal.
pub fn assignable_types_pub(expected: &Type, actual: &Type, byte: bool) -> (r: bool)
    ensures
        r == assignable(expected@, actual@, byte),
{
    assignable_types(expected, actual, byte)
}

/// A number type: `Int`, `Float` or `ExitCode`.
pub open spec fn numeric(t: TypeModel) -> bool {
    t is Int || t is Float || t is ExitCode
}

/// An integer type: `Int` or `ExitCode`.
pub open spec fn integer_numeric(t: TypeModel) -> bool {
    t is Int || t is ExitCode
}

/// `String` or `Path`.
pub open spec fn string_like(t: TypeModel) -> bool {
    t is String || t is Path
}

/// Whether `actual` may be cast to `target` with `as`.
pub open spec fn castable(target: TypeModel, actual: TypeModel, byte: bool) -> bool {
    if assignable(target, actual, byte) || assignable(actual, target, byte) {
        true
    } else {
        match (target, actual) {
            (TypeModel::Brand { base, .. }, _) => assignable(*base, actual, byte),
            (_, TypeModel::Brand { base, .. }) => assignable(target, *base, byte),
            _ => false,
        }
    }
}

/// Whether `==` and `!=` may compare values of the two types.
pub open spec fn comparable(left: TypeModel, right: TypeModel) -> bool {
    left == right || (numeric(left) && numeric(right)) || (left is String && right is Path) || (left is Path && right is String)
}

impl TypeChecker {
    /// Whether `actual`, the type of `expr`, may stand where `expected` is required.
    pub fn is_assignable(&self, expected: &Type, actual: &Type, expr: &Expr) -> (r: bool)
        ensures
            r == assignable(expected@, actual@, byte_literal(*expr)),
    {
        assignable_types(expected, actual, is_byte_literal(expr))
    }

    pub fn is_numeric(&self, ty: &Type) -> (r: bool)
        ensures
            r == numeric(ty@),
    {
        matches!(ty, Type::Int | Type::Float | Type::ExitCode)
    }

    pub fn is_integer_numeric(&self, ty: &Type) -> (r: bool)
        ensures
            r == integer_numeric(ty@),
    {
        matches!(ty, Type::Int | Type::ExitCode)
    }

    pub fn is_string_like(&self, ty: &Type) -> (r: bool)
        ensures
            r == string_like(ty@),
    {
        matches!(ty, Type::String | Type::Path)
    }

    pub fn is_castable(&self, target: &Type, actual: &Type, expr: &Expr) -> (r: bool)
        ensures
            r == castable(target@, actual@, byte_literal(*expr)),
    {
        if self.is_assignable(target, actual, expr) || self.is_assignable(actual, target, expr) {
            return true;
        }
        match (target, actual) {
            (Type::Brand { base, .. }, _) => self.is_assignable(base, actual, expr),
            (_, Type::Brand { base, .. }) => self.is_assignable(target, base, expr),
            _ => false,
        }
    }

    pub fn is_comparable_by_equality(&self, left: &Type, right: &Type) -> (r: bool)
        ensures
            r == comparable(left@, right@),
    {
        types_equal(left, right) || (self.is_numeric(left) && self.is_numeric(right))
            || matches!((left, right), (Type::String, Type::Path) | (Type::Path, Type::String))
    }
}

} // verus!
