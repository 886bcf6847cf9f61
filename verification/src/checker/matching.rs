//! `match` expressions: patterns, the names they bind, guards, and the
//! cases that a match without a wildcard must cover.

use vstd::prelude::*;
use vstd::string::StringExecFns;

use crate::ast::{display_name, lemma_type_model_tags, lemma_types_model, type_model, types_model, Expr, MatchArm, Type, TypeModel};
use crate::checker::calls::owns_all;
use crate::checker::messages::{about, about_types, fixed};
use crate::checker::relations::{assignable_types_pub, byte_literal, find_field};
use crate::checker::TypeChecker;
use crate::collections::{refs_of, Duplicate};
use crate::error::CompileError;
use crate::text::{decimal_string, str_eq};
use crate::type_utils::{option_element, option_element_type, result_parts, result_types};
use crate::validation::{match_pattern_mismatch, string_views};

verus! {

fn pattern_type_mismatch(line: usize, expected: &Type, found: &Type) -> (e: CompileError)
    ensures
        e.line == line,
        e.message@ == "match pattern type mismatch: expected "@ + display_name(expected@) + ", found "@ + display_name(found@),
{
    about_types(line, "match pattern type mismatch: expected ", expected, ", found ", found)
}

/// Whether a pattern is the wildcard `_`.
fn is_wildcard(pattern: &Expr) -> (r: bool)
    ensures
        r == (pattern matches Expr::Ident(n) && n@ == "_"@),
{
    match pattern {
        Expr::Ident(name) => str_eq(name.as_str(), "_"),
        _ => false,
    }
}

pub(crate) fn expr_is_byte(expr: &Expr) -> (r: bool)
    ensures
        r == byte_literal(*expr),
{
    match expr {
        Expr::Int(v) => 0 <= *v && *v <= 255,
        _ => false,
    }
}

/// The cases that a match on a value of the given type must cover when it
/// has no wildcard arm: the two booleans, the two constructors of Option and
/// Result, or the variants of a sum type.
pub open spec fn expected_cases(t: TypeModel, sum_types: Map<Seq<char>, Seq<String>>) -> Option<Seq<Seq<char>>> {
    match t {
        TypeModel::Bool => Some(seq!["true"@, "false"@]),
        TypeModel::Applied(name, args) => if name == "Option"@ && args.len() == 1 {
            Some(seq!["Some"@, "None"@])
        } else if name == "Result"@ && args.len() == 2 {
            Some(seq!["Ok"@, "Err"@])
        } else {
            None
        },
        TypeModel::Named(name) => if sum_types.dom().contains(name) {
            Some(string_views(sum_types[name]))
        } else {
            None
        },
        _ => None,
    }
}

/// What a sequence holds after a push.
pub proof fn lemma_push_contains(s: Seq<Seq<char>>, x: Seq<char>, c: Seq<char>)
    ensures
        s.push(x).contains(c) <==> (s.contains(c) || c == x),
{
    let t = s.push(x);
    if t.contains(c) {
        let k = choose|k: int| 0 <= k < t.len() && t[k] == c;
        if k < s.len() {
            assert(s[k] == c);
        }
    }
    if s.contains(c) {
        let k = choose|k: int| 0 <= k < s.len() && s[k] == c;
        assert(t[k] == c);
    }
    if c == x {
        assert(t[s.len() as int] == c);
    }
}

impl TypeChecker {
    /// Whether a pattern matches the named case.
    pub open spec fn covers(&self, pattern: Expr, case: Seq<char>) -> bool {
        match pattern {
            Expr::Bool(b) => case == (if b { "true"@ } else { "false"@ }),
            Expr::OptionSome(_) => case == "Some"@,
            Expr::OptionNone => case == "None"@,
            Expr::ResultOk(_) => case == "Ok"@,
            Expr::ResultErr(_) => case == "Err"@,
            Expr::Call { name, .. } | Expr::Variant { name, .. } | Expr::NewtypeCtor { name, .. } => name@ == case,
            Expr::Ident(name) => self.variants.view().dom().contains(name@)
                && self.variants.view()[name@].1.len() == 0 && name@ == case,
            _ => false,
        }
    }

    /// Whether an arm without a guard has a pattern that matches the case.
    pub open spec fn arm_covers(&self, arm: MatchArm, case: Seq<char>) -> bool {
        arm.guard is None && match arm.pattern {
            Some(p) => self.covers(p, case),
            None => false,
        }
    }

    /// Whether some arm covers the case.
    pub open spec fn covered(&self, arms: Seq<MatchArm>, case: Seq<char>) -> bool {
        exists|i: int| 0 <= i < arms.len() && self.arm_covers(#[trigger] arms[i], case)
    }

    /// Whether `pattern` matches the named case.
    pub fn pattern_covers_case(&self, pattern: &Expr, case: &str) -> (r: bool)
        requires
            self.wf(),
        ensures
            r == self.covers(*pattern, case@),
    {
        match pattern {
            Expr::Bool(b) => if *b { str_eq(case, "true") } else { str_eq(case, "false") },
            Expr::OptionSome(_) => str_eq(case, "Some"),
            Expr::OptionNone => str_eq(case, "None"),
            Expr::ResultOk(_) => str_eq(case, "Ok"),
            Expr::ResultErr(_) => str_eq(case, "Err"),
            Expr::Call { name, .. } | Expr::Variant { name, .. } | Expr::NewtypeCtor { name, .. } => str_eq(name.as_str(), case),
            Expr::Ident(name) => match self.variants.get(name) {
                Some(variant) => variant.fields.len() == 0 && str_eq(name.as_str(), case),
                None => false,
            },
            _ => false,
        }
    }

    fn case_is_covered(&self, arms: &[MatchArm], case: &str) -> (r: bool)
        requires
            self.wf(),
        ensures
            r == self.covered(arms@, case@),
    {
        let mut i: usize = 0;
        while i < arms.len()
            invariant
                self.wf(),
                i <= arms@.len(),
                forall|j: int| 0 <= j < i ==> !self.arm_covers(#[trigger] arms@[j], case@),
            decreases arms.len() - i,
        {
            if arms[i].guard.is_none() {
                if let Some(p) = &arms[i].pattern {
                    if self.pattern_covers_case(p, case) {
                        return true;
                    }
                }
            }
            i += 1;
        }
        false
    }

    /// The cases of the value's type that no unguarded arm covers, or `None`
    /// when the type has no finite set of cases.
    pub fn missing_match_cases(&self, value_ty: &Type, arms: &[MatchArm]) -> (r: Option<Vec<String>>)
        requires
            self.wf(),
        ensures
            r is None <==> expected_cases(value_ty@, self.sum_types.view()) is None,
            r matches Some(missing) ==> (forall|c: Seq<char>|
                string_views(missing@).contains(c) <==> (expected_cases(value_ty@, self.sum_types.view())->0.contains(c) && !self.covered(arms@, c))),
    {
        proof {
            lemma_type_model_tags(*value_ty);
        }
        let expected: Vec<String> = match value_ty {
            Type::Bool => vec![String::from_str("true"), String::from_str("false")],
            Type::Applied(name, args) => {
                proof {
                    lemma_types_model(args@);
                }
                if str_eq(name.as_str(), "Option") && args.len() == 1 {
                    vec![String::from_str("Some"), String::from_str("None")]
                } else if str_eq(name.as_str(), "Result") && args.len() == 2 {
                    vec![String::from_str("Ok"), String::from_str("Err")]
                } else {
                    return None;
                }
            },
            Type::Named(name) => match self.sum_types.get(name) {
                Some(cases) => cases.duplicate(),
                None => return None,
            },
            _ => return None,
        };
        let ghost cases = expected_cases(value_ty@, self.sum_types.view())->0;
        assert(string_views(expected@) =~= cases);
        let mut missing: Vec<String> = Vec::new();
        let mut i: usize = 0;
        assert(string_views(missing@) =~= Seq::<Seq<char>>::empty());
        assert(cases.take(0) =~= Seq::<Seq<char>>::empty());
        while i < expected.len()
            invariant
                self.wf(),
                i <= expected@.len(),
                string_views(expected@) == cases,
                forall|c: Seq<char>| #[trigger] string_views(missing@).contains(c) <==>
                    (cases.take(i as int).contains(c) && !self.covered(arms@, c)),
            decreases expected.len() - i,
        {
            let ghost before = string_views(missing@);
            let ghost e = cases[i as int];
            assert(cases.take(i + 1) =~= cases.take(i as int).push(e));
            let covered = self.case_is_covered(arms, expected[i].as_str());
            if !covered {
                missing.push(expected[i].clone());
                assert(string_views(missing@) =~= before.push(e));
            } else {
                assert(string_views(missing@) =~= before);
            }
            proof {
                assert forall|c: Seq<char>| #[trigger] string_views(missing@).contains(c) <==>
                    (cases.take(i + 1).contains(c) && !self.covered(arms@, c)) by {
                    lemma_push_contains(before, e, c);
                    lemma_push_contains(cases.take(i as int), e, c);
                }
            }
            i += 1;
        }
        assert(cases.take(i as int) =~= cases);
        Some(missing)
    }
}


impl TypeChecker {
    /// `p` of `Some(p)`, `Ok(p)` or `Err(p)` in a pattern: a name binds the
    /// payload, `_` binds nothing, and any other payload must match its type.
    pub fn check_match_constructor_payload(&self, payload: &Expr, expected_ty: &Type, line: usize) -> (r: Result<Vec<(String, Type)>, CompileError>)
        requires
            self.wf(),
        ensures
            r matches Err(e) ==> e.line == line,
            payload matches Expr::Ident(n) ==> (r matches Ok(b) && (n@ == "_"@ ==> b@.len() == 0)
                && (n@ != "_"@ ==> b@.len() == 1 && b@[0].0@ == n@ && b@[0].1@ == expected_ty@)),
        decreases payload, 9nat,
    {
        if let Expr::Ident(name) = payload {
            if str_eq(name.as_str(), "_") {
                return Ok(Vec::new());
            }
            let mut bindings: Vec<(String, Type)> = Vec::new();
            bindings.push((name.clone(), expected_ty.duplicate()));
            return Ok(bindings);
        }
        if matches!(payload, Expr::Tuple(_) | Expr::RecordPattern(_)) {
            return self.check_match_pattern(payload, expected_ty, line);
        }
        let payload_ty = self.check_expr(payload, line)?;
        if self.is_comparable_by_equality(expected_ty, &payload_ty) || self.is_assignable(expected_ty, &payload_ty, payload) {
            Ok(Vec::new())
        } else {
            Err(pattern_type_mismatch(line, expected_ty, &payload_ty))
        }
    }

    /// A variant pattern `V(p, ...)`: the value must be of the variant's sum
    /// type, with one sub-pattern per field.
    pub(crate) fn check_variant_pattern(&self, name: &str, args: &[&Expr], value_ty: &Type, line: usize, Ghost(owner): Ghost<Expr>) -> (r: Result<Vec<(String, Type)>, CompileError>)
        requires
            self.wf(),
            owns_all(owner, args@),
        ensures
            r matches Err(e) ==> e.line == line,
            !self.variants.view().dom().contains(name@) ==> (r matches Err(e) && e.message@ == "undefined variant `"@ + name@ + "`"@),
        decreases owner, 7nat,
    {
        let variant = match self.variants.get(&String::from_str(name)) {
            Some(v) => v,
            None => return Err(about(line, "undefined variant `", name, "`")),
        };
        let sum_ty = Type::Named(variant.sum_type.clone());
        if !crate::checker::relations::types_equal(value_ty, &sum_ty) {
            let mut message = String::from_str("match variant `");
            message.append(name);
            message.append("` belongs to ");
            message.append(variant.sum_type.as_str());
            message.append(", found ");
            message.append(value_ty.name().as_str());
            return Err(CompileError::new(line, message));
        }
        if args.len() != variant.fields.len() {
            let mut message = String::from_str("variant pattern `");
            message.append(name);
            message.append("` expects ");
            message.append(decimal_string(variant.fields.len()).as_str());
            message.append(" arguments, found ");
            message.append(decimal_string(args.len()).as_str());
            return Err(CompileError::new(line, message));
        }
        let mut bindings: Vec<(String, Type)> = Vec::new();
        let mut i: usize = 0;
        while i < args.len()
            invariant
                self.wf(),
                owns_all(owner, args@),
                args@.len() == variant.fields@.len(),
                i <= args@.len(),
                self.variants.view().dom().contains(name@),
            decreases args.len() - i,
        {
            let pattern = args[i];
            let expected = &variant.fields[i];
            if is_wildcard(pattern) {
            } else if let Expr::Ident(binding) = pattern {
                bindings.push((binding.clone(), expected.duplicate()));
            } else {
                let actual = self.check_expr(pattern, line)?;
                if !self.is_comparable_by_equality(expected, &actual) && !self.is_assignable(expected, &actual, pattern) {
                    return Err(pattern_type_mismatch(line, expected, &actual));
                }
            }
            i += 1;
        }
        Ok(bindings)
    }

    /// The names that a match pattern binds, with their types, when the
    /// pattern can match a value of type `value_ty`.
    pub fn check_match_pattern(&self, pattern: &Expr, value_ty: &Type, line: usize) -> (r: Result<Vec<(String, Type)>, CompileError>)
        requires
            self.wf(),
        ensures
            r matches Err(e) ==> e.line == line,
            pattern is OptionNone ==> (r is Ok <==> option_element(value_ty@) is Some),
            pattern is OptionNone ==> (r matches Ok(b) ==> b@.len() == 0),
            pattern is OptionSome && option_element(value_ty@) is None ==> r is Err,
            (pattern is ResultOk || pattern is ResultErr) && result_parts(value_ty@) is None ==> r is Err,
            pattern is Tuple && !(value_ty@ is Tuple) ==> r is Err,
            pattern is RecordPattern && !(value_ty@ is Record) ==> r is Err,
            pattern matches Expr::Tuple(ps) ==> (r matches Ok(bs) ==> (value_ty@ matches TypeModel::Tuple(es)
                && crate::checker::views_of(bs@) == tuple_pattern_bindings(ps@, es))),
            (pattern is Int || pattern is Bool || pattern is Float) ==> ({
                let pt = crate::checker::exprs::form_type(*pattern)->0;
                if crate::checker::relations::comparable(value_ty@, pt) {
                    r matches Ok(b) && b@.len() == 0
                } else {
                    r matches Err(e) && e.message@ == "match pattern type mismatch: expected "@ + display_name(value_ty@) + ", found "@
                        + display_name(pt)
                }
            }),
        decreases pattern, 8nat,
    {
        match pattern {
            Expr::Call { name, args } | Expr::Variant { name, args, .. } => {
                if self.variants.contains_key(name) {
                    let refs = refs_of(args);
                    proof {
                        crate::checker::calls::lemma_refs_owned(*pattern, *args, refs@);
                    }
                    return self.check_variant_pattern(name.as_str(), refs.as_slice(), value_ty, line, Ghost(*pattern));
                }
            },
            Expr::Ident(name) => {
                match self.variants.get(name) {
                    Some(variant) => {
                        if variant.fields.len() == 0 {
                            let refs: Vec<&Expr> = Vec::new();
                            return self.check_variant_pattern(name.as_str(), refs.as_slice(), value_ty, line, Ghost(*pattern));
                        }
                    },
                    None => {},
                }
            },
            Expr::NewtypeCtor { name, value } => {
                if self.variants.contains_key(name) {
                    let refs: Vec<&Expr> = vec![&**value];
                    proof {
                        crate::checker::forms::lemma_parts_owned(*pattern, seq![**value], refs@);
                    }
                    return self.check_variant_pattern(name.as_str(), refs.as_slice(), value_ty, line, Ghost(*pattern));
                }
            },
            Expr::OptionSome(inner) => {
                return match option_element_type(value_ty) {
                    Some(element) => self.check_match_constructor_payload(inner, element, line),
                    None => Err(match_pattern_mismatch(line, value_ty, pattern)),
                };
            },
            Expr::OptionNone => {
                return if option_element_type(value_ty).is_some() {
                    Ok(Vec::new())
                } else {
                    Err(match_pattern_mismatch(line, value_ty, pattern))
                };
            },
            Expr::ResultOk(inner) => {
                return match result_types(value_ty) {
                    Some((ok, _)) => self.check_match_constructor_payload(inner, ok, line),
                    None => Err(match_pattern_mismatch(line, value_ty, pattern)),
                };
            },
            Expr::ResultErr(inner) => {
                return match result_types(value_ty) {
                    Some((_, err)) => self.check_match_constructor_payload(inner, err, line),
                    None => Err(match_pattern_mismatch(line, value_ty, pattern)),
                };
            },
            Expr::Tuple(patterns) => {
                return match value_ty {
                    Type::Tuple(elements) => {
                        proof {
                            lemma_types_model(elements@);
                            assert(crate::checker::views_of(elements@) =~= types_model(elements@));
                        }
                        self.check_tuple_pattern(patterns, elements, value_ty, line, Ghost(*pattern))
                    },
                    _ => Err(match_pattern_mismatch(line, value_ty, pattern)),
                };
            },
            Expr::RecordPattern(patterns) => {
                let fields = match value_ty {
                    Type::Record(fields) => fields,
                    _ => return Err(match_pattern_mismatch(line, value_ty, pattern)),
                };
                assert(decreases_to!(*pattern => *patterns));
                assert(decreases_to!(*patterns => patterns@));
                let mut bindings: Vec<(String, Type)> = Vec::new();
                let mut i: usize = 0;
                while i < patterns.len()
                    invariant
                        self.wf(),
                        i <= patterns@.len(),
                        decreases_to!(*pattern => patterns@),
                        pattern is RecordPattern,
                    decreases patterns.len() - i,
                {
                    let field = &patterns[i].0;
                    let expected_ty = match find_field(fields, field.as_str()) {
                        Some(k) => &fields[k].1,
                        None => return Err(about(line, "match record pattern field `", field.as_str(), "` is missing")),
                    };
                    match &patterns[i].1 {
                        None => bindings.push((field.clone(), expected_ty.duplicate())),
                        Some(sub) => {
                            assert(decreases_to!(patterns@ => patterns@[i as int]));
                            assert(decreases_to!(patterns@[i as int] => patterns@[i as int].1));
                            if is_wildcard(sub) {
                            } else if let Expr::Ident(name) = sub {
                                bindings.push((name.clone(), expected_ty.duplicate()));
                            } else {
                                let pattern_ty = self.check_expr(sub, line)?;
                                if !self.is_comparable_by_equality(expected_ty, &pattern_ty) && !self.is_assignable(expected_ty, &pattern_ty, sub) {
                                    return Err(pattern_type_mismatch(line, expected_ty, &pattern_ty));
                                }
                            }
                        },
                    }
                    i += 1;
                }
                return Ok(bindings);
            },
            _ => {},
        }
        let pattern_ty = self.check_expr(pattern, line)?;
        if self.is_comparable_by_equality(value_ty, &pattern_ty) {
            Ok(Vec::new())
        } else {
            Err(pattern_type_mismatch(line, value_ty, &pattern_ty))
        }
    }

    /// A tuple pattern `(p, ...)`: one sub-pattern per element of a tuple value.
    fn check_tuple_pattern(&self, patterns: &Vec<Expr>, elements: &Vec<Type>, value_ty: &Type, line: usize, Ghost(owner): Ghost<Expr>) -> (r: Result<Vec<(String, Type)>, CompileError>)
        requires
            self.wf(),
            decreases_to!(owner => *patterns),
        ensures
            r matches Err(e) ==> e.line == line,
            patterns@.len() != elements@.len() ==> r is Err,
            r matches Ok(bs) ==> crate::checker::views_of(bs@) == tuple_pattern_bindings(
                patterns@,
                crate::checker::views_of(elements@),
            ),
            patterns@.len() == elements@.len() && (forall|i: int| 0 <= i < patterns@.len() ==> #[trigger] patterns@[i] is Ident)
                ==> r is Ok,
        decreases owner, 7nat,
    {
        proof {
            crate::checker::forms::lemma_vec_owned(owner, *patterns);
        }
        if patterns.len() != elements.len() {
            let mut found: Vec<Type> = Vec::new();
            let mut k: usize = 0;
            while k < patterns.len()
                invariant
                    self.wf(),
                    k <= patterns@.len(),
                    decreases_to!(owner => patterns@),
                decreases patterns.len() - k,
            {
                assert(decreases_to!(patterns@ => patterns@[k as int]));
                let t = match self.check_expr(&patterns[k], line) {
                    Ok(t) => t,
                    Err(_) => Type::Unit,
                };
                found.push(t);
                k += 1;
            }
            return Err(about_types(line, "match pattern type mismatch: expected ", value_ty, ", found ", &Type::Tuple(found)));
        }
        let mut bindings: Vec<(String, Type)> = Vec::new();
        let ghost element_views = crate::checker::views_of(elements@);
        let mut i: usize = 0;
        while i < patterns.len()
            invariant
                self.wf(),
                i <= patterns@.len(),
                patterns@.len() == elements@.len(),
                decreases_to!(owner => patterns@),
                element_views == crate::checker::views_of(elements@),
                crate::checker::views_of(bindings@) == tuple_pattern_bindings(patterns@.take(i as int), element_views),
            decreases patterns.len() - i,
        {
            assert(decreases_to!(patterns@ => patterns@[i as int]));
            proof {
                assert(patterns@.take(i + 1).drop_last() =~= patterns@.take(i as int));
                assert(patterns@.take(i + 1)[i as int] == patterns@[i as int]);
            }
            let sub = &patterns[i];
            let expected_ty = &elements[i];
            if is_wildcard(sub) {
            } else if let Expr::Ident(name) = sub {
                let ghost before = bindings@;
                bindings.push((name.clone(), expected_ty.duplicate()));
                proof {
                    assert(crate::checker::views_of(bindings@) =~= crate::checker::views_of(before).push((name@, elements@[i as int]@)));
                }
            } else {
                let pattern_ty = self.check_expr(sub, line)?;
                if !self.is_comparable_by_equality(expected_ty, &pattern_ty) && !self.is_assignable(expected_ty, &pattern_ty, sub) {
                    return Err(pattern_type_mismatch(line, expected_ty, &pattern_ty));
                }
            }
            i += 1;
        }
        assert(patterns@.take(patterns@.len() as int) =~= patterns@);
        Ok(bindings)
    }
}

/// The names that the sub-patterns of a tuple pattern bind, each with the
/// type of its element: a name other than `_` binds; `_` and literal
/// patterns bind nothing.
pub open spec fn tuple_pattern_bindings(patterns: Seq<Expr>, elements: Seq<TypeModel>) -> Seq<(Seq<char>, TypeModel)>
    decreases patterns.len(),
{
    if patterns.len() == 0 {
        Seq::empty()
    } else {
        let rest = tuple_pattern_bindings(patterns.drop_last(), elements);
        match patterns.last() {
            Expr::Ident(n) => if n@ == "_"@ {
                rest
            } else {
                rest.push((n@, elements[patterns.len() - 1]))
            },
            _ => rest,
        }
    }
}


/// Whether some arm has neither a pattern nor a guard: the wildcard arm.
impl TypeChecker {
    /// The arms leave no case of a value of type `t` unmatched: some arm is a
    /// bare wildcard, or the type has a known set of cases and each of them
    /// is matched by an unguarded arm.
    pub open spec fn exhaustive(&self, t: TypeModel, arms: Seq<MatchArm>) -> bool {
        ||| has_wildcard_arm(arms)
        ||| (expected_cases(t, self.sum_types.view()) matches Some(cases) && forall|c: Seq<char>|
            cases.contains(c) ==> #[trigger] self.covered(arms, c))
    }
}

pub open spec fn has_wildcard_arm(arms: Seq<MatchArm>) -> bool {
    exists|i: int| 0 <= i < arms.len() && (#[trigger] arms[i]).pattern is None && arms[i].guard is None
}

fn wildcard_arm_exists(arms: &[MatchArm]) -> (r: bool)
    ensures
        r == has_wildcard_arm(arms@),
{
    let mut i: usize = 0;
    while i < arms.len()
        invariant
            i <= arms@.len(),
            forall|j: int| 0 <= j < i ==> !((#[trigger] arms@[j]).pattern is None && arms@[j].guard is None),
        decreases arms.len() - i,
    {
        if arms[i].pattern.is_none() && arms[i].guard.is_none() {
            return true;
        }
        i += 1;
    }
    false
}

fn join_cases(cases: &Vec<String>) -> (r: String)
    ensures
        r@ == crate::emitter::joined(cases@, ", "@),
{
    let mut out = String::new();
    let mut i: usize = 0;
    while i < cases.len()
        invariant
            i <= cases@.len(),
            out@ == crate::emitter::joined(cases@.take(i as int), ", "@),
        decreases cases.len() - i,
    {
        proof {
            assert(cases@.take(i + 1).drop_last() =~= cases@.take(i as int));
            assert(cases@.take(i + 1).last() == cases@[i as int]);
            if i == 0 {
                assert(cases@.take(1)[0] == cases@[0]);
                assert(crate::emitter::joined(cases@.take(0), ", "@) =~= Seq::<char>::empty());
            }
        }
        if i > 0 {
            out.append(", ");
        }
        out.append(cases[i].as_str());
        i += 1;
    }
    assert(cases@.take(cases@.len() as int) =~= cases@);
    out
}

impl TypeChecker {
    /// The arms of a match on a value of type `value_ty`: each arm's pattern
    /// binds names for its guard and body, every body has one type, a match
    /// without a wildcard arm covers every case, and propagating guards join
    /// their errors into a Result.
    pub fn check_match_arms(&self, value_byte: bool, value_ty: &Type, arms: &[MatchArm], line: usize) -> (r: Result<Type, CompileError>)
        requires
            self.wf(),
            arms@.len() > 0,
        ensures
            r matches Err(e) ==> e.line == line,
            r is Ok ==> self.exhaustive(value_ty@, arms@),
            crate::checker::inspected::any_arm_denied(self.policy.model(), arms@) ==> r is Err,
            crate::checker::outcomes::arms_outcome(self.decls(), self.bindings.view(), value_ty@, arms@, 0, None) matches Some(o)
                ==> match o {
                Err(m) => r matches Err(e) && e.message@ == m,
                Ok(first) => (has_wildcard_arm(arms@) ==> (first matches Some(t) ==> (r matches Ok(x) && x@ == t))) && (
                !has_wildcard_arm(arms@) && expected_cases(value_ty@, self.sum_types.view()) is None ==> (r matches Err(e)
                    && e.message@ == "match expression requires wildcard `_` arm"@)),
            },
        decreases arms@, 7nat,
    {
        let mut first_ty: Option<Type> = None;
        let mut guard_error: Option<Type> = None;
        let mut i: usize = 0;
        while i < arms.len()
            invariant
                self.wf(),
                i <= arms@.len(),
                i > 0 ==> first_ty is Some,
                forall|j: int| 0 <= j < i ==> !crate::checker::inspected::arm_denied(self.policy.model(), #[trigger] arms@[j]),
                crate::checker::outcomes::arms_outcome(self.decls(), self.bindings.view(), value_ty@, arms@, 0, None) is Some ==> (
                guard_error is None && crate::checker::outcomes::arms_outcome(
                    self.decls(),
                    self.bindings.view(),
                    value_ty@,
                    arms@,
                    i as int,
                    crate::checker::outcomes::annotation_model(first_ty),
                ) == crate::checker::outcomes::arms_outcome(self.decls(), self.bindings.view(), value_ty@, arms@, 0, None)),
            decreases arms.len() - i,
        {
            assert(decreases_to!(arms@ => arms@[i as int]));
            let arm = &arms[i];
            let mut arm_checker = self.scope();
            if let Some(pattern) = &arm.pattern {
                let bindings = self.check_match_pattern(pattern, value_ty, line)?;
                let mut k: usize = 0;
                while k < bindings.len()
                    invariant
                        arm_checker.wf(),
                        arm_checker.policy.model() == self.policy.model(),
                        arm_checker.decls() == self.decls(),
                        k == 0 ==> arm_checker.bindings.view() == self.bindings.view(),
                        crate::checker::outcomes::arms_outcome(self.decls(), self.bindings.view(), value_ty@, arms@, 0, None) is Some
                            ==> bindings@.len() == 0,
                        k <= bindings@.len(),
                    decreases bindings.len() - k,
                {
                    arm_checker.define(bindings[k].0.as_str(), bindings[k].1.duplicate(), false, line)?;
                    k += 1;
                }
            }
            if let Some(guard) = &arm.guard {
                arm_checker.check_condition(guard, line)?;
                if let Expr::MatchGuardResult(guard_value) = guard {
                    let ty = arm_checker.check_expr(guard_value, line)?;
                    let error = match result_types(&ty) {
                        Some((_, error)) => error,
                        None => return Err(crate::checker::messages::about_type(line, "match guard propagation expects Result, found ", &ty, "")),
                    };
                    let byte = expr_is_byte(guard_value);
                    let next = match guard_error {
                        None => error.duplicate(),
                        Some(existing) => {
                            if matches!(existing, Type::Unit) {
                                error.duplicate()
                            } else if matches!(error, Type::Unit) {
                                existing
                            } else if assignable_types_pub(&existing, error, byte) && assignable_types_pub(error, &existing, byte) {
                                existing
                            } else {
                                return Err(about_types(line, "match guard error types must match, found ", &existing, " and ", error));
                            }
                        },
                    };
                    guard_error = Some(next);
                }
            }
            let arm_ty = arm_checker.check_expr(&arm.expr, line)?;
            let next_first = match first_ty {
                Some(expected) => {
                    if self.is_assignable(&expected, &arm_ty, &arm.expr) {
                        expected
                    } else if self.is_assignable(&arm_ty, &expected, &arm.expr) {
                        arm_ty
                    } else {
                        return Err(about_types(line, "match arms must have matching types, found ", &expected, " and ", &arm_ty));
                    }
                },
                None => arm_ty,
            };
            first_ty = Some(next_first);
            i += 1;
        }
        proof {
            crate::checker::inspected::lemma_any_arm_denied(self.policy.model(), arms@);
        }
        if !wildcard_arm_exists(arms) {
            match self.missing_match_cases(value_ty, arms) {
                Some(missing) => {
                    if missing.len() > 0 {
                        let mut message = String::from_str("non-exhaustive match; missing cases: ");
                        message.append(join_cases(&missing).as_str());
                        return Err(CompileError::new(line, message));
                    }
                },
                None => return Err(fixed(line, "match expression requires wildcard `_` arm")),
            }
        }
        let first_ty = match first_ty {
            Some(t) => t,
            None => return Err(fixed(line, "match expression requires at least one arm")),
        };
        match guard_error {
            Some(guard_error) => {
                let (ok, error) = match result_types(&first_ty) {
                    Some(parts) => parts,
                    None => return Err(crate::checker::messages::about_type(line, "match with a propagating guard requires Result arms, found ", &first_ty, "")),
                };
                if !matches!(error, Type::Unit) && !matches!(guard_error, Type::Unit) && !assignable_types_pub(error, &guard_error, value_byte) {
                    return Err(about_types(line, "match guard error ", &guard_error, " is not assignable to arm error ", error));
                }
                let joined = if matches!(error, Type::Unit) { guard_error } else { error.duplicate() };
                Ok(crate::checker::exprs::result_of(ok.duplicate(), joined))
            },
            None => Ok(first_ty),
        }
    }

    /// The type of the value a match inspects: a command stands for its result.
    pub fn match_value_type(&self, value: &Expr, line: usize) -> (r: Result<Type, CompileError>)
        requires
            self.wf(),
        ensures
            r matches Err(e) ==> e.line == line,
            crate::checker::exprs::form_type(*value) matches Some(ty) ==> (r matches Ok(t) ==> t@ == ty),
            self.forbids(*value) ==> r is Err,
            crate::checker::exprs::rejected_form(*value) matches Some(m) ==> (r matches Err(e) && e.message@ == m),
            crate::checker::outcomes::expr_outcome(self.decls(), self.bindings.view(), *value) matches Some(o)
                ==> crate::checker::outcomes::agrees(r, o),
        decreases value, 6nat,
    {
        self.check_expr(value, line)
    }

    /// `match value { arms }`: at least one arm is required.
    pub fn check_match(&self, value: &Expr, arms: &[MatchArm], line: usize) -> (r: Result<Type, CompileError>)
        requires
            self.wf(),
        ensures
            r matches Err(e) ==> e.line == line,
            arms@.len() == 0 ==> (r matches Err(e) && e.message@ == "match expression requires at least one arm"@),
            crate::checker::exprs::form_type(*value) matches Some(t) ==> (r is Ok ==> self.exhaustive(t, arms@)),
            self.forbids(*value) ==> r is Err,
            crate::checker::inspected::any_arm_denied(self.policy.model(), arms@) ==> r is Err,
    {
        if arms.len() == 0 {
            return Err(fixed(line, "match expression requires at least one arm"));
        }
        let value_ty = self.match_value_type(value, line)?;
        self.check_match_arms(expr_is_byte(value), &value_ty, arms, line)
    }
}

} // verus!
