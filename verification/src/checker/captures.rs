//! The variable suffixes under which a captured value of a given type is
//! stored: one per scalar part of records, tuples, Options and Results.

use vstd::prelude::*;
use vstd::string::StrSliceExecFns;
use vstd::string::StringExecFns;

use crate::ast::{lemma_fields_model, lemma_types_model, type_model, Type, TypeModel};
use crate::text::{decimal, decimal_string, str_eq};
use crate::type_utils::{is_scalar_backed_type, scalar_backed};
use crate::validation::string_views;

verus! {

/// `a` sorts before `b`: character by character, a proper prefix first.
pub open spec fn text_lt(a: Seq<char>, b: Seq<char>) -> bool
    decreases a.len(),
{
    if b.len() == 0 {
        false
    } else if a.len() == 0 {
        true
    } else if a[0] != b[0] {
        a[0] < b[0]
    } else {
        text_lt(a.drop_first(), b.drop_first())
    }
}

pub proof fn lemma_text_lt_irreflexive(a: Seq<char>)
    ensures
        !text_lt(a, a),
    decreases a.len(),
{
    if a.len() > 0 {
        lemma_text_lt_irreflexive(a.drop_first());
    }
}

pub proof fn lemma_text_lt_transitive(a: Seq<char>, b: Seq<char>, c: Seq<char>)
    requires
        text_lt(a, b),
        text_lt(b, c),
    ensures
        text_lt(a, c),
    decreases a.len(),
{
    if a.len() > 0 && b.len() > 0 && c.len() > 0 && a[0] == b[0] && b[0] == c[0] {
        lemma_text_lt_transitive(a.drop_first(), b.drop_first(), c.drop_first());
    }
}

pub proof fn lemma_text_lt_total(a: Seq<char>, b: Seq<char>)
    requires
        a != b,
    ensures
        text_lt(a, b) || text_lt(b, a),
    decreases a.len(),
{
    if a.len() > 0 && b.len() > 0 && a[0] == b[0] {
        if a.drop_first() == b.drop_first() {
            assert(a =~= seq![a[0]] + a.drop_first());
            assert(b =~= seq![b[0]] + b.drop_first());
        }
        lemma_text_lt_total(a.drop_first(), b.drop_first());
    } else if a.len() == 0 && b.len() == 0 {
        assert(a =~= b);
    }
}

/// Whether `a` sorts before `b`.
pub fn text_less(a: &str, b: &str) -> (r: bool)
    ensures
        r == text_lt(a@, b@),
{
    let n = a.unicode_len();
    let m = b.unicode_len();
    let mut i: usize = 0;
    assert(a@.skip(0) =~= a@);
    assert(b@.skip(0) =~= b@);
    while i < n && i < m
        invariant
            n == a@.len(),
            m == b@.len(),
            i <= n,
            i <= m,
            text_lt(a@, b@) == text_lt(a@.skip(i as int), b@.skip(i as int)),
        decreases n - i,
    {
        let ca = a.get_char(i);
        let cb = b.get_char(i);
        assert(a@.skip(i as int)[0] == ca);
        assert(b@.skip(i as int)[0] == cb);
        if ca != cb {
            return ca < cb;
        }
        assert(a@.skip(i as int).drop_first() =~= a@.skip(i + 1));
        assert(b@.skip(i as int).drop_first() =~= b@.skip(i + 1));
        i += 1;
    }
    i < m && i == n
}

/// Strictly increasing: sorted, and nothing twice.
pub open spec fn strictly_sorted(s: Seq<Seq<char>>) -> bool {
    forall|i: int, j: int| 0 <= i < j < s.len() ==> text_lt(#[trigger] s[i], #[trigger] s[j])
}

/// Adds `item` to a strictly sorted list unless it is already there.
pub fn insert_sorted(list: &mut Vec<String>, item: String)
    requires
        strictly_sorted(string_views(old(list)@)),
    ensures
        strictly_sorted(string_views(final(list)@)),
        forall|x: Seq<char>| string_views(final(list)@).contains(x) <==> (string_views(old(list)@).contains(x) || x == item@),
{
    let ghost before = string_views(list@);
    let mut k: usize = 0;
    while k < list.len() && text_less(list[k].as_str(), item.as_str())
        invariant
            k <= list@.len(),
            list@ == old(list)@,
            forall|i: int| 0 <= i < k ==> text_lt(#[trigger] list@[i]@, item@),
        decreases list.len() - k,
    {
        k += 1;
    }
    if k < list.len() && str_eq(list[k].as_str(), item.as_str()) {
        assert(string_views(list@)[k as int] == item@);
        return;
    }
    proof {
        if k < list@.len() {
            lemma_text_lt_total(list@[k as int]@, item@);
        }
    }
    list.insert(k, item);
    proof {
        let after = string_views(list@);
        assert(after.len() == before.len() + 1);
        assert forall|i: int| 0 <= i < after.len() implies #[trigger] after[i] == (if i < k { before[i] } else if i == k { item@ } else { before[i - 1] }) by {}
        assert forall|i: int, j: int| 0 <= i < j < after.len() implies text_lt(#[trigger] after[i], #[trigger] after[j]) by {
            if j < k {
                assert(before[i] == after[i] && before[j] == after[j]);
            } else if j == k {
                assert(text_lt(list@[i]@, item@));
            } else if i == k {
                if j - 1 > k {
                    assert(text_lt(before[k as int], before[j - 1]));
                    lemma_text_lt_transitive(item@, before[k as int], before[j - 1]);
                }
            } else if i < k {
                assert(text_lt(before[i], item@));
                if j - 1 == k {
                    lemma_text_lt_transitive(before[i], item@, before[k as int]);
                } else {
                    assert(text_lt(before[k as int], before[j - 1]));
                    lemma_text_lt_transitive(item@, before[k as int], before[j - 1]);
                    lemma_text_lt_transitive(before[i], item@, before[j - 1]);
                }
            } else {
                assert(text_lt(before[i - 1], before[j - 1]));
            }
        }
        assert forall|x: Seq<char>| after.contains(x) <==> (before.contains(x) || x == item@) by {
            if after.contains(x) {
                let i = choose|i: int| 0 <= i < after.len() && after[i] == x;
                if i < k {
                    assert(before[i] == x);
                } else if i > k {
                    assert(before[i - 1] == x);
                }
            }
            if before.contains(x) {
                let i = choose|i: int| 0 <= i < before.len() && before[i] == x;
                if i < k {
                    assert(after[i] == x);
                } else {
                    assert(after[i + 1] == x);
                }
            }
            if x == item@ {
                assert(after[k as int] == x);
            }
        }
    }
}

/// The suffixes for a value of type `t` stored under `prefix`, in the order
/// the parts are visited.
pub open spec fn suffix_paths(prefix: Seq<char>, t: TypeModel) -> Seq<Seq<char>>
    decreases t, 1nat,
{
    match t {
        TypeModel::Record(fs) => field_paths(prefix, fs),
        TypeModel::Tuple(es) => element_paths(prefix, es),
        TypeModel::Applied(name, args) => if name == "Option"@ || name == "Result"@ {
            seq![prefix] + payload_paths(prefix, args)
        } else {
            seq![prefix]
        },
        TypeModel::Brand { base, .. } => suffix_paths(prefix, *base),
        TypeModel::Union(ts) => member_paths(prefix, ts),
        TypeModel::Intersection(ts) => member_paths(prefix, ts),
        _ => seq![prefix],
    }
}

/// The suffixes of each field, under `<prefix>_<field>`.
pub open spec fn field_paths(prefix: Seq<char>, fs: Seq<(Seq<char>, TypeModel)>) -> Seq<Seq<char>>
    decreases fs, 0nat,
{
    if fs.len() == 0 {
        Seq::empty()
    } else {
        proof {
            assert(decreases_to!(fs => fs[fs.len() - 1]));
        }
        field_paths(prefix, fs.drop_last()) + suffix_paths(prefix + "_"@ + fs[fs.len() - 1].0, fs[fs.len() - 1].1)
    }
}

/// The suffixes of each element, under `<prefix>_<position from 1>`.
pub open spec fn element_paths(prefix: Seq<char>, es: Seq<TypeModel>) -> Seq<Seq<char>>
    decreases es, 0nat,
{
    if es.len() == 0 {
        Seq::empty()
    } else {
        proof {
            assert(decreases_to!(es => es[es.len() - 1]));
        }
        element_paths(prefix, es.drop_last()) + suffix_paths(prefix + "_"@ + decimal(es.len()), es[es.len() - 1])
    }
}

/// The suffixes of the payloads of an Option or Result that are not scalar.
pub open spec fn payload_paths(prefix: Seq<char>, args: Seq<TypeModel>) -> Seq<Seq<char>>
    decreases args, 0nat,
{
    if args.len() == 0 {
        Seq::empty()
    } else {
        proof {
            assert(decreases_to!(args => args[args.len() - 1]));
        }
        payload_paths(prefix, args.drop_last()) + if scalar_backed(args[args.len() - 1]) {
            Seq::empty()
        } else {
            suffix_paths(prefix, args[args.len() - 1])
        }
    }
}

/// The suffixes of each member of a union or intersection.
pub open spec fn member_paths(prefix: Seq<char>, ts: Seq<TypeModel>) -> Seq<Seq<char>>
    decreases ts, 0nat,
{
    if ts.len() == 0 {
        Seq::empty()
    } else {
        proof {
            assert(decreases_to!(ts => ts[ts.len() - 1]));
        }
        member_paths(prefix, ts.drop_last()) + suffix_paths(prefix, ts[ts.len() - 1])
    }
}

fn push_path(out: &mut Vec<String>, path: String)
    ensures
        string_views(final(out)@) == string_views(old(out)@).push(path@),
{
    let ghost before = string_views(out@);
    out.push(path);
    assert(string_views(out@) =~= before.push(path@));
}

fn joined_prefix(prefix: &str, part: &str) -> (r: String)
    ensures
        r@ == prefix@ + "_"@ + part@,
{
    let mut s = String::from_str(prefix);
    s.append("_");
    s.append(part);
    s
}

/// Appends the suffixes for a value of type `ty` stored under `prefix`.
fn append_suffixes(prefix: &str, ty: &Type, out: &mut Vec<String>)
    ensures
        string_views(final(out)@) == string_views(old(out)@) + suffix_paths(prefix@, ty@),
    decreases ty, 1nat,
{
    let ghost start = string_views(out@);
    match ty {
        Type::Record(fields) => {
            proof {
                lemma_fields_model(fields@);
            }
            let ghost fm = crate::ast::fields_model(fields@);
            assert(decreases_to!(*ty => *fields));
            assert(decreases_to!(*fields => fields@));
            let mut i: usize = 0;
            while i < fields.len()
                invariant
                    i <= fields@.len(),
                    decreases_to!(*ty => fields@),
                    fm == crate::ast::fields_model(fields@),
                    fm.len() == fields@.len(),
                    forall|j: int| 0 <= j < fields@.len() ==> #[trigger] fm[j] == (fields@[j].0@, type_model(fields@[j].1)),
                    string_views(out@) == start + field_paths(prefix@, fm.take(i as int)),
                decreases fields.len() - i,
            {
                assert(decreases_to!(fields@ => fields@[i as int]));
                assert(decreases_to!(fields@[i as int] => fields@[i as int].1));
                let next = joined_prefix(prefix, fields[i].0.as_str());
                append_suffixes(next.as_str(), &fields[i].1, out);
                assert(fm.take(i + 1).drop_last() =~= fm.take(i as int));
                assert(fm.take(i + 1)[i as int] == fm[i as int]);
                i += 1;
            }
            assert(fm.take(fields@.len() as int) =~= fm);
        },
        Type::Tuple(elements) => {
            proof {
                lemma_types_model(elements@);
            }
            let ghost em = crate::ast::types_model(elements@);
            assert(decreases_to!(*ty => *elements));
            assert(decreases_to!(*elements => elements@));
            let mut i: usize = 0;
            while i < elements.len()
                invariant
                    i <= elements@.len(),
                    decreases_to!(*ty => elements@),
                    em == crate::ast::types_model(elements@),
                    em.len() == elements@.len(),
                    forall|j: int| 0 <= j < elements@.len() ==> #[trigger] em[j] == type_model(elements@[j]),
                    string_views(out@) == start + element_paths(prefix@, em.take(i as int)),
                decreases elements.len() - i,
            {
                assert(decreases_to!(elements@ => elements@[i as int]));
                let next = joined_prefix(prefix, decimal_string(i + 1).as_str());
                append_suffixes(next.as_str(), &elements[i], out);
                assert(em.take(i + 1).drop_last() =~= em.take(i as int));
                assert(em.take(i + 1)[i as int] == em[i as int]);
                i += 1;
            }
            assert(em.take(elements@.len() as int) =~= em);
        },
        Type::Applied(name, args) => {
            if str_eq(name.as_str(), "Option") || str_eq(name.as_str(), "Result") {
                push_path(out, String::from_str(prefix));
                proof {
                    lemma_types_model(args@);
                }
                let ghost am = crate::ast::types_model(args@);
                let ghost head = string_views(out@);
                assert(decreases_to!(*ty => *args));
                assert(decreases_to!(*args => args@));
                let mut i: usize = 0;
                while i < args.len()
                    invariant
                        i <= args@.len(),
                        decreases_to!(*ty => args@),
                        am == crate::ast::types_model(args@),
                        am.len() == args@.len(),
                        forall|j: int| 0 <= j < args@.len() ==> #[trigger] am[j] == type_model(args@[j]),
                        string_views(out@) == head + payload_paths(prefix@, am.take(i as int)),
                    decreases args.len() - i,
                {
                    assert(decreases_to!(args@ => args@[i as int]));
                    assert(am.take(i + 1).drop_last() =~= am.take(i as int));
                    assert(am.take(i + 1)[i as int] == am[i as int]);
                    if !is_scalar_backed_type(&args[i]) {
                        append_suffixes(prefix, &args[i], out);
                    } else {
                        assert(string_views(out@) =~= head + payload_paths(prefix@, am.take(i + 1)));
                    }
                    i += 1;
                }
                assert(am.take(args@.len() as int) =~= am);
                assert(string_views(out@) =~= start + suffix_paths(prefix@, ty@));
            } else {
                push_path(out, String::from_str(prefix));
                assert(string_views(out@) =~= start + suffix_paths(prefix@, ty@));
            }
        },
        Type::Brand { base, .. } => append_suffixes(prefix, base, out),
        Type::Union(types) | Type::Intersection(types) => {
            proof {
                lemma_types_model(types@);
            }
            let ghost tm = crate::ast::types_model(types@);
            assert(decreases_to!(*ty => *types));
            assert(decreases_to!(*types => types@));
            let mut i: usize = 0;
            while i < types.len()
                invariant
                    i <= types@.len(),
                    decreases_to!(*ty => types@),
                    tm == crate::ast::types_model(types@),
                    tm.len() == types@.len(),
                    forall|j: int| 0 <= j < types@.len() ==> #[trigger] tm[j] == type_model(types@[j]),
                    string_views(out@) == start + member_paths(prefix@, tm.take(i as int)),
                decreases types.len() - i,
            {
                assert(decreases_to!(types@ => types@[i as int]));
                append_suffixes(prefix, &types[i], out);
                assert(tm.take(i + 1).drop_last() =~= tm.take(i as int));
                assert(tm.take(i + 1)[i as int] == tm[i as int]);
                i += 1;
            }
            assert(tm.take(types@.len() as int) =~= tm);
        },
        _ => {
            push_path(out, String::from_str(prefix));
            assert(string_views(out@) =~= start + suffix_paths(prefix@, ty@));
        },
    }
}

/// The suffixes under which a captured value of type `ty` is stored,
/// sorted and each once.
pub fn capture_suffixes(ty: &Type) -> (r: Vec<String>)
    ensures
        strictly_sorted(string_views(r@)),
        forall|x: Seq<char>| string_views(r@).contains(x) <==> suffix_paths(Seq::empty(), ty@).contains(x),
{
    let mut all: Vec<String> = Vec::new();
    assert(string_views(all@) =~= Seq::<Seq<char>>::empty());
    append_suffixes("", ty, &mut all);
    assert(string_views(all@) =~= suffix_paths(""@, ty@));
    proof {
        reveal_strlit("");
        assert(""@ =~= Seq::<char>::empty());
    }
    let mut sorted: Vec<String> = Vec::new();
    let mut i: usize = 0;
    while i < all.len()
        invariant
            i <= all@.len(),
            strictly_sorted(string_views(sorted@)),
            forall|x: Seq<char>| string_views(sorted@).contains(x) <==> string_views(all@).take(i as int).contains(x),
        decreases all.len() - i,
    {
        let ghost seen = string_views(all@).take(i as int);
        insert_sorted(&mut sorted, all[i].clone());
        proof {
            let next = string_views(all@).take(i + 1);
            assert(next =~= seen.push(all@[i as int]@));
            assert forall|x: Seq<char>| string_views(sorted@).contains(x) <==> next.contains(x) by {
                crate::checker::matching::lemma_push_contains(seen, all@[i as int]@, x);
            }
        }
        i += 1;
    }
    assert(string_views(all@).take(all@.len() as int) =~= string_views(all@));
    sorted
}

} // verus!
