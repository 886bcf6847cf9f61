//! Properties that hold of every input: how types accept values, how
//! generic substitution and generated names behave, and how control flow
//! summaries combine.

use vstd::prelude::*;

use crate::ast::TypeModel;
use crate::checker::relations::{any_expected, assignable};
use crate::names::{impl_method_symbol, method_call_split, sanitized, valid_name};
use crate::text::{is_ascii_alpha, is_word_char, last_index_of};
use crate::type_utils::{lemma_subst_all, lemma_subst_fields, subst, subst_all, subst_fields};
use crate::validation::{either, FlowSummary};

verus! {

/// Every type accepts a value of its own type.
pub proof fn law_every_type_accepts_itself(t: TypeModel, byte: bool)
    ensures
        assignable(t, t, byte),
{
}

/// `String` and `Path` values stand for each other.
pub proof fn law_string_and_path_interchangeable(byte: bool)
    ensures
        assignable(TypeModel::Path, TypeModel::String, byte),
        assignable(TypeModel::String, TypeModel::Path, byte),
{
}

/// A union accepts a value of any of its member types.
pub proof fn law_union_accepts_each_member(members: Seq<TypeModel>, i: int, byte: bool)
    requires
        0 <= i < members.len(),
    ensures
        assignable(TypeModel::Union(members), members[i], byte),
{
    lemma_any_expected_member(members, i, byte);
}

proof fn lemma_any_expected_member(es: Seq<TypeModel>, i: int, byte: bool)
    requires
        0 <= i < es.len(),
    ensures
        any_expected(es, es[i], byte),
    decreases es.len(),
{
    if i < es.len() - 1 {
        lemma_any_expected_member(es.drop_last(), i, byte);
        assert(es.drop_last()[i] == es[i]);
    } else {
        assert(es.last() == es[i]);
        assert(assignable(es.last(), es[i], byte));
    }
}

/// Substituting no bindings leaves a type as it is.
pub proof fn law_substitution_without_bindings_is_identity(t: TypeModel)
    ensures
        subst(t, Map::empty()) == t,
    decreases t,
{
    let m = Map::<Seq<char>, TypeModel>::empty();
    match t {
        TypeModel::Array(e) => law_substitution_without_bindings_is_identity(*e),
        TypeModel::Future(v) => law_substitution_without_bindings_is_identity(*v),
        TypeModel::Mapping(k, v) => {
            law_substitution_without_bindings_is_identity(*k);
            law_substitution_without_bindings_is_identity(*v);
        },
        TypeModel::Record(fs) => {
            lemma_fields_identity(fs);
        },
        TypeModel::Tuple(es) => lemma_all_identity(es),
        TypeModel::Function(ps, r) => {
            lemma_all_identity(ps);
            law_substitution_without_bindings_is_identity(*r);
        },
        TypeModel::Union(ts) => lemma_all_identity(ts),
        TypeModel::Intersection(ts) => lemma_all_identity(ts),
        TypeModel::Applied(_, args) => lemma_all_identity(args),
        _ => {},
    }
}

proof fn lemma_all_identity(ts: Seq<TypeModel>)
    ensures
        subst_all(ts, Map::empty()) == ts,
    decreases ts,
{
    lemma_subst_all(ts, Map::empty());
    assert forall|i: int| 0 <= i < ts.len() implies subst_all(ts, Map::empty())[i] == ts[i] by {
        law_substitution_without_bindings_is_identity(ts[i]);
    }
    assert(subst_all(ts, Map::empty()) =~= ts);
}

proof fn lemma_fields_identity(fs: Seq<(Seq<char>, TypeModel)>)
    ensures
        subst_fields(fs, Map::empty()) == fs,
    decreases fs,
{
    lemma_subst_fields(fs, Map::empty());
    assert forall|i: int| 0 <= i < fs.len() implies subst_fields(fs, Map::empty())[i] == fs[i] by {
        law_substitution_without_bindings_is_identity(fs[i].1);
    }
    assert(subst_fields(fs, Map::empty()) =~= fs);
}

/// A sanitized symbol has the length of its source and only letters,
/// digits and `_`; sanitizing it again changes nothing.
pub proof fn law_sanitized_symbols_are_words(s: Seq<char>)
    ensures
        sanitized(s).len() == s.len(),
        forall|i: int| 0 <= i < s.len() ==> is_word_char(#[trigger] sanitized(s)[i]),
        sanitized(sanitized(s)) == sanitized(s),
{
    assert forall|i: int| 0 <= i < s.len() implies is_word_char(#[trigger] sanitized(s)[i]) by {
        assert(is_word_char('_'));
    }
    assert(sanitized(sanitized(s)) =~= sanitized(s));
}

/// The Bash function generated for a trait method is always a valid name.
pub proof fn law_impl_method_symbols_are_names(trait_name: Seq<char>, for_type: Seq<char>, method: Seq<char>)
    ensures
        valid_name(impl_method_symbol(trait_name, for_type, method)),
{
    let prefix = "__nacre_trait_"@;
    let sep = "_"@;
    reveal_strlit("__nacre_trait_");
    reveal_strlit("_");
    let s = impl_method_symbol(trait_name, for_type, method);
    law_sanitized_symbols_are_words(trait_name);
    law_sanitized_symbols_are_words(for_type);
    law_sanitized_symbols_are_words(method);
    let a = sanitized(trait_name);
    let b = sanitized(for_type);
    let c = sanitized(method);
    assert(s == prefix + a + sep + b + sep + c);
    assert(s[0] == '_');
    assert forall|i: int| 1 <= i < s.len() implies #[trigger] is_word_char(s[i]) by {
        let p = prefix.len() as int;
        let la = a.len() as int;
        let lb = b.len() as int;
        if i < p {
            assert(s[i] == prefix[i]);
        } else if i < p + la {
            assert(s[i] == a[i - p]);
        } else if i < p + la + 1 {
            assert(s[i] == '_');
        } else if i < p + la + 1 + lb {
            assert(s[i] == b[i - p - la - 1]);
        } else if i < p + la + 1 + lb + 1 {
            assert(s[i] == '_');
        } else {
            assert(s[i] == c[i - p - la - 1 - lb - 1]);
        }
    }
}

/// A method call name splits at its last dot into a receiver and a method
/// that join back into the name.
pub proof fn law_method_call_split_rejoins(name: Seq<char>)
    ensures
        method_call_split(name) matches Some((receiver, method)) ==> name == receiver + "."@ + method
            && valid_name(receiver) && valid_name(method),
{
    reveal_strlit(".");
    crate::names::lemma_last_index_of(name, '.');
    match last_index_of(name, '.') {
        Some(i) => {
            assert(name =~= name.subrange(0, i) + "."@ + name.subrange(i + 1, name.len() as int));
        },
        None => {},
    }
}

/// Joining the ways control can leave two branches does not depend on
/// their order.
pub proof fn law_flow_alternatives_commute(left: FlowSummary, right: FlowSummary)
    ensures
        either(left, right) == either(right, left),
{
}


/// An `if` without an `else` may skip its branch: it can fall through, so a
/// body made of it alone does not return on every path, whatever the branch
/// does.
pub proof fn law_if_without_else_falls_through(condition: crate::ast::Expr, then_branch: crate::ast::Program, p: crate::ast::Program)
    requires
        p.statements@ == seq![crate::ast::Statement::If { condition, then_branch, else_branch: None }],
    ensures
        crate::validation::stmt_flow(crate::ast::Statement::If { condition, then_branch, else_branch: None }).falls_through,
        crate::validation::block_flow(p).falls_through,
        !crate::checker::statements::always_returns(p),
{
    let st = crate::ast::Statement::If { condition, then_branch, else_branch: None };
    assert(p.statements@.drop_last() =~= Seq::<crate::ast::Statement>::empty());
    assert(p.statements@.last() == st);
}

/// A body made of an `if` without an `else` gives a function with a
/// non-`Unit` return type neither a `return` on every path nor an implicit
/// result, so such a function is refused as one that must return.
pub proof fn law_lone_open_if_owes_a_return(ret: TypeModel, condition: crate::ast::Expr, then_branch: crate::ast::Program, p: crate::ast::Program)
    requires
        ret != TypeModel::Unit,
        p.statements@ == seq![crate::ast::Statement::If { condition, then_branch, else_branch: None }],
    ensures
        !crate::checker::statements::always_returns(p),
        crate::checker::statements::implicit_return_value(ret, p.statements@.last()) == Some(false),
{
    law_if_without_else_falls_through(condition, then_branch, p);
}

/// An Option accepts an Option exactly when its element type accepts the
/// other's element type (an element of `Unit` stands for `None`, which any
/// Option accepts).
pub proof fn law_option_accepts_by_element(e: TypeModel, a: TypeModel, byte: bool)
    requires
        a != TypeModel::Unit,
    ensures
        assignable(TypeModel::Applied("Option"@, seq![e]), TypeModel::Applied("Option"@, seq![a]), byte) == assignable(e, a, byte),
{
    law_every_type_accepts_itself(e, byte);
    reveal_strlit("Option");
    reveal_strlit("Result");
    assert("Option"@[0] != "Result"@[0]);
    assert("Option"@ != "Result"@);
    let ex = TypeModel::Applied("Option"@, seq![e]);
    let ac = TypeModel::Applied("Option"@, seq![a]);
    assert(seq![e][0] == e && seq![e].len() == 1);
    assert(seq![a][0] == a && seq![a].len() == 1);
    if ex == ac {
        assert(seq![e][0] == seq![a][0]);
    } else {
        assert(assignable(ex, ac, byte) == crate::checker::relations::assignable_rest(ex, ac, byte));
        assert(crate::checker::relations::assignable_rest(ex, ac, byte) == assignable(e, a, byte));
    }
}

/// A Result accepts a Result exactly when both its success and its error
/// types accept the other's (an element of `Unit` stands for the side that
/// a bare `Ok` or `Err` leaves open).
pub proof fn law_result_accepts_by_parts(eo: TypeModel, ee: TypeModel, ao: TypeModel, ae: TypeModel, byte: bool)
    requires
        ao != TypeModel::Unit,
        ae != TypeModel::Unit,
    ensures
        assignable(TypeModel::Applied("Result"@, seq![eo, ee]), TypeModel::Applied("Result"@, seq![ao, ae]), byte)
            == (assignable(eo, ao, byte) && assignable(ee, ae, byte)),
{
    law_every_type_accepts_itself(eo, byte);
    law_every_type_accepts_itself(ee, byte);
    reveal_strlit("Option");
    reveal_strlit("Result");
    assert("Option"@[0] != "Result"@[0]);
    let ex = TypeModel::Applied("Result"@, seq![eo, ee]);
    let ac = TypeModel::Applied("Result"@, seq![ao, ae]);
    assert(seq![eo, ee][0] == eo && seq![eo, ee][1] == ee && seq![eo, ee].len() == 2);
    assert(seq![ao, ae][0] == ao && seq![ao, ae][1] == ae && seq![ao, ae].len() == 2);
    if ex == ac {
        assert(seq![eo, ee][0] == seq![ao, ae][0]);
        assert(seq![eo, ee][1] == seq![ao, ae][1]);
    } else {
        assert(assignable(ex, ac, byte) == crate::checker::relations::assignable_rest(ex, ac, byte));
    }
}

/// An array accepts an array of a given element type exactly when its
/// element type accepts that one.
pub proof fn law_array_accepts_by_element(e: TypeModel, a: TypeModel, byte: bool)
    requires
        a != TypeModel::Unit,
    ensures
        assignable(TypeModel::Array(Box::new(e)), TypeModel::Array(Box::new(a)), byte) == assignable(e, a, byte),
{
    law_every_type_accepts_itself(e, byte);
}

/// Distinct element types make distinct Options: an `Int?` does not take a
/// `String?`, nor the other way round.
pub proof fn law_option_of_other_scalar_is_refused(byte: bool)
    ensures
        !assignable(TypeModel::Applied("Option"@, seq![TypeModel::Int]), TypeModel::Applied("Option"@, seq![TypeModel::String]), byte),
        !assignable(TypeModel::Applied("Option"@, seq![TypeModel::String]), TypeModel::Applied("Option"@, seq![TypeModel::Int]), byte),
{
    law_option_accepts_by_element(TypeModel::Int, TypeModel::String, byte);
    law_option_accepts_by_element(TypeModel::String, TypeModel::Int, byte);
    assert(!crate::checker::relations::assignable_rest(TypeModel::Int, TypeModel::String, byte));
    assert(!crate::checker::relations::assignable_rest(TypeModel::String, TypeModel::Int, byte));
    assert(!assignable(TypeModel::Int, TypeModel::String, byte));
    assert(!assignable(TypeModel::String, TypeModel::Int, byte));
}

/// A match on an Option that has no wildcard arm and no arm for `None` does
/// not cover every case, whatever its other arms.
pub proof fn law_option_match_needs_none(checker: crate::checker::TypeChecker, t: TypeModel, arms: Seq<crate::ast::MatchArm>)
    requires
        !crate::checker::matching::has_wildcard_arm(arms),
        !checker.covered(arms, "None"@),
    ensures
        crate::checker::matching::expected_cases(TypeModel::Applied("Option"@, seq![t]), checker.sum_types.view()) == Some(
            seq!["Some"@, "None"@],
        ),
        !checker.exhaustive(TypeModel::Applied("Option"@, seq![t]), arms),
{
    let cases = seq!["Some"@, "None"@];
    assert(cases[1] == "None"@);
    assert(cases.contains("None"@));
}

proof fn lemma_two_cases(checker: crate::checker::TypeChecker, arms: Seq<crate::ast::MatchArm>, a: Seq<char>, b: Seq<char>)
    ensures
        (forall|c: Seq<char>| seq![a, b].contains(c) ==> #[trigger] checker.covered(arms, c)) <==> (checker.covered(arms, a)
            && checker.covered(arms, b)),
{
    let cases = seq![a, b];
    assert(cases[0] == a && cases[1] == b);
    assert(cases.contains(a) && cases.contains(b));
    if checker.covered(arms, a) && checker.covered(arms, b) {
        assert forall|c: Seq<char>| cases.contains(c) implies #[trigger] checker.covered(arms, c) by {
            let k = choose|k: int| 0 <= k < cases.len() && cases[k] == c;
            if k == 0 {
            } else {
            }
        }
    }
}

/// Without a wildcard arm, a match on a `bool`, an Option or a Result is
/// exhaustive exactly when its arms cover both of the type's cases: `true`
/// and `false`, `Some` and `None`, `Ok` and `Err`.
pub proof fn law_match_exhaustive_iff_both_cases_covered(
    checker: crate::checker::TypeChecker,
    t: TypeModel,
    ok: TypeModel,
    err: TypeModel,
    arms: Seq<crate::ast::MatchArm>,
)
    requires
        !crate::checker::matching::has_wildcard_arm(arms),
    ensures
        checker.exhaustive(TypeModel::Bool, arms) <==> (checker.covered(arms, "true"@) && checker.covered(arms, "false"@)),
        checker.exhaustive(TypeModel::Applied("Option"@, seq![t]), arms) <==> (checker.covered(arms, "Some"@)
            && checker.covered(arms, "None"@)),
        checker.exhaustive(TypeModel::Applied("Result"@, seq![ok, err]), arms) <==> (checker.covered(arms, "Ok"@)
            && checker.covered(arms, "Err"@)),
{
    reveal_strlit("Option");
    reveal_strlit("Result");
    assert("Option"@[0] != "Result"@[0]);
    lemma_two_cases(checker, arms, "true"@, "false"@);
    lemma_two_cases(checker, arms, "Some"@, "None"@);
    lemma_two_cases(checker, arms, "Ok"@, "Err"@);
}

/// A text with no `${` in it reads no names.
pub proof fn law_no_interpolation_reads_nothing(s: Seq<char>)
    requires
        forall|i: int| 0 <= i < s.len() - 1 ==> !(s[i] == '$' && #[trigger] s[i + 1] == '{'),
    ensures
        crate::validation::interpolations_from(s, 0) == Ok::<Seq<Seq<char>>, Seq<char>>(Seq::empty()),
{
    lemma_no_open(s, 0);
}

proof fn lemma_no_open(s: Seq<char>, pos: int)
    requires
        0 <= pos,
        forall|i: int| 0 <= i < s.len() - 1 ==> !(s[i] == '$' && #[trigger] s[i + 1] == '{'),
    ensures
        crate::validation::open_from(s, pos) is None,
    decreases s.len() - pos,
{
    if pos + 1 < s.len() {
        assert(!(s[pos] == '$' && s[pos + 1] == '{'));
        lemma_no_open(s, pos + 1);
    }
}

/// A `${` with no `}` after it is an unterminated interpolation, whatever
/// comes before it.
pub proof fn law_unclosed_interpolation_is_rejected(a: Seq<char>, t: Seq<char>)
    requires
        forall|i: int| 0 <= i < a.len() - 1 ==> !(a[i] == '$' && #[trigger] a[i + 1] == '{'),
        forall|i: int| 0 <= i < t.len() ==> t[i] != '}',
    ensures
        crate::validation::interpolations_from(a + seq!['$', '{'] + t, 0) == Err::<Seq<Seq<char>>, Seq<char>>(
            "unterminated string interpolation"@,
        ),
{
    let s = a + seq!['$', '{'] + t;
    let k = a.len() as int;
    assert(s[k] == '$' && s[k + 1] == '{');
    assert forall|i: int| 0 <= i < k implies !(s[i] == '$' && #[trigger] s[i + 1] == '{') by {
        assert(s[i] == a[i]);
        if i + 1 < k {
            assert(s[i + 1] == a[i + 1]);
        }
    }
    lemma_open_before(s, 0, k);
    assert forall|j: int| k + 2 <= j < s.len() implies s[j] != '}' by {
        assert(s[j] == t[j - k - 2]);
    }
    crate::text::lemma_first_index_from(s, '}', k + 2);
}

proof fn lemma_open_before(s: Seq<char>, pos: int, k: int)
    requires
        0 <= pos <= k,
        k + 1 < s.len(),
        s[k] == '$' && s[k + 1] == '{',
        forall|i: int| 0 <= i < k ==> !(s[i] == '$' && #[trigger] s[i + 1] == '{'),
    ensures
        crate::validation::open_from(s, pos) == Some(k),
    decreases k - pos,
{
    if pos < k {
        assert(!(s[pos] == '$' && s[pos + 1] == '{'));
        lemma_open_before(s, pos + 1, k);
    }
}

/// A body whose only statement is a `return` returns on every path.
pub proof fn law_return_always_returns(value: crate::ast::Expr, p: crate::ast::Program)
    requires
        p.statements@ == seq![crate::ast::Statement::Return(value)],
    ensures
        crate::checker::statements::always_returns(p),
{
    assert(p.statements@.drop_last() =~= Seq::<crate::ast::Statement>::empty());
}

/// An `if` with an `else` returns on every path when both branches do, and
/// falls through when either branch does.
pub proof fn law_if_else_flow(condition: crate::ast::Expr, then_branch: crate::ast::Program, else_branch: crate::ast::Program, p: crate::ast::Program)
    requires
        p.statements@ == seq![crate::ast::Statement::If { condition, then_branch, else_branch: Some(else_branch) }],
    ensures
        crate::checker::statements::always_returns(then_branch) && crate::checker::statements::always_returns(else_branch)
            ==> crate::checker::statements::always_returns(p),
        crate::validation::block_flow(then_branch).falls_through || crate::validation::block_flow(else_branch).falls_through
            ==> !crate::checker::statements::always_returns(p),
{
    assert(p.statements@.drop_last() =~= Seq::<crate::ast::Statement>::empty());
}

/// Looking for `${` in a text behind a prefix finds what looking in the text
/// alone finds, moved by the prefix's length.
proof fn lemma_open_shift(p: Seq<char>, b: Seq<char>, pos: int)
    requires
        0 <= pos,
    ensures
        crate::validation::open_from(p + b, p.len() + pos) == match crate::validation::open_from(b, pos) {
            Some(i) => Some(i + p.len()),
            None => None::<int>,
        },
    decreases b.len() - pos,
{
    let s = p + b;
    if pos + 1 < b.len() {
        assert(s[p.len() + pos] == b[pos]);
        assert(s[p.len() + pos + 1] == b[pos + 1]);
        if !(b[pos] == '$' && b[pos + 1] == '{') {
            lemma_open_shift(p, b, pos + 1);
        }
    }
}

/// Looking for a character in a text behind a prefix finds what looking in
/// the text alone finds, moved by the prefix's length.
proof fn lemma_first_shift(p: Seq<char>, b: Seq<char>, c: char, pos: int)
    requires
        0 <= pos,
    ensures
        crate::text::first_index_from(p + b, c, p.len() + pos) == match crate::text::first_index_from(b, c, pos) {
            Some(i) => Some(i + p.len()),
            None => None::<int>,
        },
    decreases b.len() - pos,
{
    let s = p + b;
    if pos < b.len() {
        assert(s[p.len() + pos] == b[pos]);
        if b[pos] != c {
            lemma_first_shift(p, b, c, pos + 1);
        }
    }
}

/// Reading interpolations of a text behind a prefix, from past the prefix,
/// reads those of the text alone.
proof fn lemma_interpolations_shift(p: Seq<char>, b: Seq<char>, pos: int)
    requires
        0 <= pos,
    ensures
        crate::validation::interpolations_from(p + b, p.len() + pos) == crate::validation::interpolations_from(b, pos),
    decreases b.len() - pos,
{
    let s = p + b;
    lemma_open_shift(p, b, pos);
    if pos <= b.len() {
        match crate::validation::open_from(b, pos) {
            None => {},
            Some(start) => {
                crate::validation::lemma_open_from(b, pos);
                lemma_first_shift(p, b, '}', start + 2);
                match crate::text::first_index_from(b, '}', start + 2) {
                    None => {},
                    Some(end) => {
                        crate::text::lemma_first_index_from(b, '}', start + 2);
                        assert(s.subrange(start + p.len() + 2, end + p.len()) =~= b.subrange(start + 2, end));
                        lemma_interpolations_shift(p, b, end + 1);
                    },
                }
            },
        }
    }
}

/// Every interpolation of a string is read: `${x}` in front of a text adds
/// `x` before the names the text holds, and an error in the text is still
/// reported.
pub proof fn law_interpolation_reads_every_name(x: Seq<char>, b: Seq<char>)
    requires
        valid_name(x),
    ensures
        crate::validation::interpolations_from(seq!['$', '{'] + x + seq!['}'] + b, 0) == match crate::validation::interpolations_from(b, 0) {
            Ok(names) => Ok(seq![x] + names),
            Err(m) => Err::<Seq<Seq<char>>, Seq<char>>(m),
        },
{
    let p = seq!['$', '{'] + x + seq!['}'];
    let s = p + b;
    assert(seq!['$', '{'] + x + seq!['}'] + b =~= s);
    let k: int = x.len() as int + 2;
    assert(s[0] == '$' && s[1] == '{');
    assert(crate::validation::open_from(s, 0) == Some(0int));
    assert(s[k] == '}');
    assert forall|j: int| 2 <= j < k implies s[j] != '}' by {
        assert(s[j] == x[j - 2]);
        if j - 2 == 0 {
        } else {
            assert(is_word_char(x[j - 2]));
        }
    }
    crate::text::lemma_first_index_from(s, '}', 2);
    assert(crate::text::first_index_from(s, '}', 2) == Some(k));
    assert(s.subrange(2, k) =~= x);
    assert(crate::validation::interpolation_base(x) == Some(x));
    lemma_interpolations_shift(p, b, 0);
    assert(p.len() == k + 1);
}

/// The interpolations of `${x}` followed by a text are all in scope exactly
/// when `x` is bound and those of the text are: no interpolation after the
/// first is skipped.
pub proof fn law_interpolations_bound_one_by_one(checker: crate::checker::TypeChecker, x: Seq<char>, b: Seq<char>)
    requires
        valid_name(x),
    ensures
        checker.interpolations_bound(seq!['$', '{'] + x + seq!['}'] + b) <==> (checker.bindings.view().dom().contains(x)
            && checker.interpolations_bound(b)),
{
    law_interpolation_reads_every_name(x, b);
    let s = seq!['$', '{'] + x + seq!['}'] + b;
    match crate::validation::interpolations_from(b, 0) {
        Ok(names) => {
            let all = seq![x] + names;
            assert(crate::validation::interpolations_from(s, 0) == Ok::<Seq<Seq<char>>, Seq<char>>(all));
            assert(all[0] == x);
            assert forall|i: int| 0 <= i < names.len() implies all[i + 1] == names[i] by {}
            if checker.bindings.view().dom().contains(x) && checker.interpolations_bound(b) {
                assert forall|i: int| 0 <= i < all.len() implies #[trigger] checker.bindings.view().dom().contains(all[i]) by {
                    if i > 0 {
                        assert(all[i] == names[i - 1]);
                    }
                }
            }
            if checker.interpolations_bound(s) {
                let ns = crate::validation::interpolations_from(s, 0)->Ok_0;
                assert(ns == all);
                assert(forall|i: int| 0 <= i < ns.len() ==> #[trigger] checker.bindings.view().dom().contains(ns[i]));
                assert(checker.bindings.view().dom().contains(ns[0]));
                assert forall|i: int| 0 <= i < names.len() implies #[trigger] checker.bindings.view().dom().contains(names[i]) by {
                    assert(ns[i + 1] == names[i]);
                    assert(checker.bindings.view().dom().contains(ns[i + 1]));
                }
            }
        },
        Err(_) => {},
    }
}

} // verus!
