//! Calls: declared functions, generic functions, function values, sum-type
//! variants and trait methods.

use vstd::prelude::*;
use vstd::string::StringExecFns;

use crate::ast::{display_name, lemma_type_model_tags, lemma_types_model, type_model, types_model, Expr, Type, TypeModel};
use crate::checker::messages::{about, about_name_types, fixed, undefined_variable};
use crate::checker::relations::{assignable, assignable_types_pub, byte_literal};
use crate::checker::{views_of, FunctionSig, ParamSig, TypeChecker, VariantSig};
use crate::collections::{refs_of, AssocMap, Duplicate};
use crate::error::CompileError;
use crate::names::{is_valid_name, method_call_parts};
use crate::text::{decimal, decimal_string, rfind_char, str_eq};
use crate::type_utils::substitute_generics;
use vstd::string::StrSliceExecFns;

verus! {

/// Every argument is a strict part of `owner`, so checking an argument
/// recurses on something smaller than the expression being checked.
pub open spec fn owns_all(owner: Expr, args: Seq<&Expr>) -> bool {
    forall|j: int| 0 <= j < args.len() ==> decreases_to!(owner => *#[trigger] args[j])
}

/// References to the elements of a vector that `owner` holds are owned by it.
pub proof fn lemma_refs_owned(owner: Expr, v: Vec<Expr>, refs: Seq<&Expr>)
    requires
        decreases_to!(owner => v),
        refs.len() == v@.len(),
        forall|i: int| 0 <= i < v@.len() ==> *#[trigger] refs[i] == v@[i],
    ensures
        owns_all(owner, refs),
{
    assert forall|j: int| 0 <= j < refs.len() implies decreases_to!(owner => *#[trigger] refs[j]) by {
        assert(decreases_to!(v => v@));
        assert(decreases_to!(v@ => v@[j]));
        assert(*refs[j] == v@[j]);
    }
}

/// An array literal holds each of its elements.
pub proof fn lemma_list_owns(v: Vec<Expr>, refs: Seq<&Expr>)
    requires
        refs.len() == v@.len(),
        forall|i: int| 0 <= i < v@.len() ==> *#[trigger] refs[i] == v@[i],
    ensures
        owns_all(Expr::Array(v), refs),
{
    let owner = Expr::Array(v);
    assert(decreases_to!(owner => owner->Array_0));
    lemma_refs_owned(owner, v, refs);
}

/// The number of arguments a call passes: the receiver of a method call counts.
pub open spec fn arg_count(receiver: Option<&str>, args: Seq<&Expr>) -> int {
    args.len() + if receiver is Some { 1int } else { 0int }
}

/// The `i`-th argument of a call, counting the receiver of a method call
/// first; the receiver is a name, not an expression.
pub open spec fn arg_expr(receiver: Option<&str>, args: Seq<&Expr>, i: int) -> Option<Expr> {
    match receiver {
        Some(_) => if i == 0 {
            None
        } else {
            Some(*args[i - 1])
        },
        None => Some(*args[i]),
    }
}

impl TypeChecker {
    /// The `i`-th argument holds nothing that the policy forbids outright.
    pub open spec fn arg_passes(&self, receiver: Option<&str>, args: Seq<&Expr>, i: int) -> bool {
        arg_expr(receiver, args, i) matches Some(e) ==> !self.forbids(e)
    }

    /// No argument holds anything that the policy forbids outright.
    pub open spec fn args_pass(&self, args: Seq<&Expr>) -> bool {
        forall|k: int| 0 <= k < args.len() ==> !self.forbids(*#[trigger] args[k])
    }

    /// When references to the elements of a vector all pass, so do the elements.
    pub proof fn lemma_refs_pass(&self, v: Vec<Expr>, refs: Seq<&Expr>)
        requires
            refs.len() == v@.len(),
            forall|i: int| 0 <= i < v@.len() ==> *#[trigger] refs[i] == v@[i],
            self.args_pass(refs),
        ensures
            forall|k: int| 0 <= k < v@.len() ==> !self.forbids(#[trigger] v@[k]),
    {
        assert forall|k: int| 0 <= k < v@.len() implies !self.forbids(#[trigger] v@[k]) by {
            assert(*refs[k] == v@[k]);
        }
    }

    /// Arguments that each pass, counted with the receiver, all pass.
    pub proof fn lemma_args_pass(&self, receiver: Option<&str>, args: Seq<&Expr>)
        requires
            forall|i: int| 0 <= i < arg_count(receiver, args) ==> #[trigger] self.arg_passes(receiver, args, i),
        ensures
            self.args_pass(args),
    {
        assert forall|k: int| 0 <= k < args.len() implies !self.forbids(*#[trigger] args[k]) by {
            let i = if receiver is Some { k + 1 } else { k };
            assert(self.arg_passes(receiver, args, i));
        }
    }
}

/// Whether the `i`-th argument is a literal from 0 to 255.
pub open spec fn arg_byte(receiver: Option<&str>, args: Seq<&Expr>, i: int) -> bool {
    match receiver {
        Some(_) => i > 0 && byte_literal(*args[i - 1]),
        None => byte_literal(*args[i]),
    }
}

/// How many of the parameters must be given: those with neither a default
/// nor a rest marker.
pub open spec fn required_params(params: Seq<(Seq<char>, TypeModel, bool, bool)>) -> nat
    decreases params.len(),
{
    if params.len() == 0 {
        0
    } else {
        required_params(params.drop_last()) + if !params.last().2 && !params.last().3 { 1nat } else { 0nat }
    }
}

/// Whether a call with `count` arguments fits the parameters: at least the
/// required ones, and no more than all of them unless the last is a rest
/// parameter.
pub open spec fn arity_accepts(params: Seq<(Seq<char>, TypeModel, bool, bool)>, count: int) -> bool {
    &&& required_params(params) <= count
    &&& (params.len() > 0 && params.last().3) || count <= params.len()
}

/// The traits of the implementations of a method for one type.
pub open spec fn candidate_traits(cs: Seq<(String, String)>) -> Seq<String> {
    cs.map_values(|c: (String, String)| c.0)
}

/// How many arguments the parameters take, as an arity error names it:
/// `min..` with a rest parameter, `min..max` without.
pub open spec fn arity_expected(params: Seq<(Seq<char>, TypeModel, bool, bool)>) -> Seq<char> {
    if params.len() > 0 && params.last().3 {
        count_range(required_params(params), None)
    } else {
        count_range(required_params(params), Some(params.len() as usize))
    }
}

/// How many arguments a generic function takes, as its arity error names
/// it: all but a final rest parameter and `..`, or all of them.
pub open spec fn generic_arity_expected(params: Seq<(Seq<char>, TypeModel, bool, bool)>) -> Seq<char> {
    if params.len() > 0 && params.last().3 {
        decimal((params.len() - 1) as nat) + ".."@
    } else {
        decimal(params.len())
    }
}

/// Whether a call of a generic function with `count` arguments fits its
/// parameters: all of them, or at least all but a final rest parameter.
pub open spec fn generic_arity_accepts(params: Seq<(Seq<char>, TypeModel, bool, bool)>, count: int) -> bool {
    if params.len() > 0 && params.last().3 {
        count >= params.len() - 1
    } else {
        count == params.len()
    }
}

fn arg_is_byte(receiver: Option<&str>, args: &[&Expr], i: usize) -> (r: bool)
    requires
        i < arg_count(receiver, args@),
    ensures
        r == arg_byte(receiver, args@, i as int),
{
    let arg = match receiver {
        Some(_) => {
            if i == 0 {
                return false;
            }
            args[i - 1]
        },
        None => args[i],
    };
    match arg {
        Expr::Int(v) => 0 <= *v && *v <= 255,
        _ => false,
    }
}

/// `min..max`, or `min..` without an upper bound.
pub open spec fn count_range(min: nat, max: Option<usize>) -> Seq<char> {
    decimal(min) + ".."@ + match max {
        Some(m) => decimal(m as nat),
        None => Seq::empty(),
    }
}

fn count_text(min: usize, max: Option<usize>) -> (r: String)
    ensures
        r@ == count_range(min as nat, max),
{
    let mut text = decimal_string(min);
    text.append("..");
    match max {
        Some(m) => text.append(decimal_string(m).as_str()),
        None => {},
    }
    assert(text@ =~= count_range(min as nat, max));
    text
}

fn arguments_error(line: usize, kind: &str, name: &str, expected: &str, found: usize) -> (e: CompileError)
    ensures
        e.line == line,
        e.message@ == kind@ + " `"@ + name@ + "` expects "@ + expected@ + " arguments, found "@ + decimal(found as nat),
{
    let mut message = String::from_str(kind);
    message.append(" `");
    message.append(name);
    message.append("` expects ");
    message.append(expected);
    message.append(" arguments, found ");
    message.append(decimal_string(found).as_str());
    CompileError::new(line, message)
}

impl TypeChecker {
    /// The type of the `i`-th argument of a call, checked against the
    /// parameter type when one is given.
    fn check_arg(&self, receiver: Option<&str>, args: &[&Expr], i: usize, expected: Option<&Type>, line: usize, Ghost(owner): Ghost<Expr>) -> (r: Result<Type, CompileError>)
        requires
            self.wf(),
            i < arg_count(receiver, args@),
            owns_all(owner, args@),
        ensures
            r matches Err(e) ==> e.line == line,
            r is Ok ==> self.arg_passes(receiver, args@, i as int),
        decreases owner, 0nat,
    {
        let arg = match receiver {
            Some(name) => {
                if i == 0 {
                    return self.check_ident(name, line);
                }
                args[i - 1]
            },
            None => args[i],
        };
        match expected {
            Some(t) => self.check_expr_expected(arg, t, line),
            None => self.check_expr(arg, line),
        }
    }

    /// The message that rejects applying the variant `name` to `count`
    /// arguments before any argument is looked at.
    pub open spec fn variant_outcome(&self, name: Seq<char>, count: nat) -> Option<Seq<char>> {
        if !self.variants.view().dom().contains(name) {
            Some("undefined variant `"@ + name + "`"@)
        } else if count != self.variants.view()[name].1.len() {
            Some("variant `"@ + name + "` expects "@ + decimal(self.variants.view()[name].1.len())
                + " arguments, found "@ + decimal(count))
        } else {
            None
        }
    }

    /// What applying the variant `name` to `count` arguments is known to
    /// give: the rejection that the count alone decides, and otherwise the
    /// variant's sum type.
    pub open spec fn variant_facts(&self, name: Seq<char>, count: nat, r: Result<Type, CompileError>) -> bool {
        &&& self.variant_outcome(name, count) matches Some(m) ==> (r matches Err(e) && e.message@ == m)
        &&& r matches Ok(t) ==> self.variant_outcome(name, count) is None
            && t@ == TypeModel::Named(self.variants.view()[name].0)
    }

    /// `receiver.method` on a receiver whose type is named `receiver_type`
    /// resolves to `target`: the one trait implementation of the method for
    /// that type, or, where no trait implements it, a declared function of
    /// the method's name.
    pub open spec fn method_resolves(&self, method: Seq<char>, receiver_type: Seq<char>, target: Seq<char>) -> bool {
        let key = (method, receiver_type);
        if self.method_impls.view().dom().contains(key) {
            self.method_impls.view()[key].len() == 1 && self.method_impls.view()[key][0].1@ == target
        } else {
            self.functions.view().dom().contains(method) && target == method
        }
    }

    /// Why `receiver.method` does not resolve: several trait implementations
    /// for the type, or no function of that name.
    pub open spec fn unresolved_message(&self, method: Seq<char>, receiver_type: Seq<char>) -> Seq<char> {
        let key = (method, receiver_type);
        if self.method_impls.view().dom().contains(key) {
            "ambiguous method `"@ + method + "` for "@ + receiver_type + "; use one of: "@ + crate::emitter::joined(
                candidate_traits(self.method_impls.view()[key]),
                ", "@,
            )
        } else {
            "undefined function `"@ + method + "`"@
        }
    }

    /// What `Trait.method(receiver, ...)` resolves to for a receiver of the
    /// given type: the function of the trait's implementation, or the
    /// message that the type does not implement it.
    pub open spec fn scoped_outcome(&self, trait_name: Seq<char>, method: Seq<char>, receiver_type: Seq<char>) -> Result<Seq<char>, Seq<char>> {
        let key = (method, receiver_type);
        if self.method_impls.view().dom().contains(key) {
            match scoped_target(self.method_impls.view()[key], trait_name) {
                Some(t) => Ok(t),
                None => Err(not_implemented_message(receiver_type, trait_name, method)),
            }
        } else {
            Err(not_implemented_message(receiver_type, trait_name, method))
        }
    }

    /// Some target resolves `receiver.method` for that type.
    pub open spec fn method_resolvable(&self, method: Seq<char>, receiver_type: Seq<char>) -> bool {
        let key = (method, receiver_type);
        if self.method_impls.view().dom().contains(key) {
            self.method_impls.view()[key].len() == 1
        } else {
            self.functions.view().dom().contains(method)
        }
    }

    /// Some type implements `method` of the trait `trait_name` by the
    /// function `target`.
    pub open spec fn implements_method(&self, trait_name: Seq<char>, method: Seq<char>, target: Seq<char>) -> bool {
        exists|receiver_type: Seq<char>, i: int|
            self.method_impls.view().dom().contains((method, receiver_type)) && 0 <= i < self.method_impls.view()[(
                method,
                receiver_type,
            )].len() && #[trigger] self.method_impls.view()[(method, receiver_type)][i].0@ == trait_name
                && self.method_impls.view()[(method, receiver_type)][i].1@ == target
    }

    /// The message that rejects calling the variable `name` with `count`
    /// arguments before any argument is looked at.
    pub open spec fn function_value_outcome(&self, name: Seq<char>, count: int) -> Option<Seq<char>> {
        match self.lookup(name) {
            None => Some("undefined function `"@ + name + "`"@),
            Some((TypeModel::Function(params, _), _)) => if count != params.len() {
                Some("function value `"@ + name + "` expects "@ + decimal(params.len()) + " arguments, found "@
                    + decimal(count as nat))
            } else {
                None
            },
            Some(_) => Some("`"@ + name + "` is not callable"@),
        }
    }

    /// What a call of `name` with `count` arguments is known to give, for a
    /// name that no method resolution rewrites: a declared function without
    /// type parameters accepts exactly the argument counts its parameters
    /// allow and has its return type; an undeclared name is called as a
    /// variable that holds a function.
    pub open spec fn plain_call_facts(&self, name: Seq<char>, count: int, r: Result<Type, CompileError>) -> bool {
        if self.functions.view().dom().contains(name) {
            let sig = self.functions.view()[name];
            &&& sig.0.len() == 0 ==> {
                &&& !arity_accepts(sig.1, count) ==> (r matches Err(e) && e.message@ == "function"@ + " `"@ + name + "` expects "@
                    + arity_expected(sig.1) + " arguments, found "@ + decimal(count as nat))
                &&& r matches Ok(t) ==> arity_accepts(sig.1, count) && t@ == sig.2
            }
            &&& sig.0.len() > 0 ==> (r is Ok ==> generic_arity_accepts(sig.1, count))
            &&& sig.0.len() > 0 ==> (!generic_arity_accepts(sig.1, count) ==> (r matches Err(e) && e.message@ == "generic function"@
                + " `"@ + name + "` expects "@ + generic_arity_expected(sig.1) + " arguments, found "@ + decimal(count as nat)))
        } else {
            &&& self.function_value_outcome(name, count) matches Some(m) ==> (r matches Err(e) && e.message@ == m)
            &&& r matches Ok(t) ==> self.function_value_outcome(name, count) is None
                && (self.lookup(name) matches Some((TypeModel::Function(_, ret), _)) && t@ == *ret)
        }
    }

    /// A call of a variable that holds a function.
    pub fn check_function_value_call(&self, name: &str, args: &Vec<Expr>, line: usize) -> (r: Result<Type, CompileError>)
        requires
            self.wf(),
        ensures
            r is Ok ==> forall|k: int| 0 <= k < args@.len() ==> !self.forbids(#[trigger] args@[k]),
            r matches Err(e) ==> e.line == line,
            self.function_value_outcome(name@, args@.len() as int) matches Some(m) ==> (r matches Err(e) && e.message@ == m),
            r matches Ok(t) ==> self.function_value_outcome(name@, args@.len() as int) is None
                && (self.lookup(name@) matches Some((TypeModel::Function(_, ret), _)) && t@ == *ret),
    {
        let refs = refs_of(args);
        proof {
            lemma_list_owns(*args, refs@);
        }
        let r = self.function_value_call(name, None, refs.as_slice(), line, Ghost(Expr::Array(*args)));
        proof {
            if r is Ok {
                self.lemma_refs_pass(*args, refs@);
            }
        }
        r
    }

    fn function_value_call(&self, name: &str, receiver: Option<&str>, args: &[&Expr], line: usize, Ghost(owner): Ghost<Expr>) -> (r: Result<Type, CompileError>)
        requires
            self.wf(),
            receiver is Some ==> args@.len() < usize::MAX,
            owns_all(owner, args@),
        ensures
            r matches Err(e) ==> e.line == line,
            self.function_value_outcome(name@, arg_count(receiver, args@)) matches Some(m) ==> (r matches Err(e) && e.message@ == m),
            r matches Ok(t) ==> self.function_value_outcome(name@, arg_count(receiver, args@)) is None
                && (self.lookup(name@) matches Some((TypeModel::Function(_, ret), _)) && t@ == *ret),
            r is Ok ==> self.args_pass(args@),
        decreases owner, 1nat,
    {
        let binding = match self.lookup_binding(name) {
            Some(b) => b,
            None => return Err(about(line, "undefined function `", name, "`")),
        };
        let (params, return_type) = match &binding.ty {
            Type::Function(params, return_type) => (params, return_type),
            _ => {
                proof {
                    lemma_type_model_tags(binding.ty);
                }
                return Err(about(line, "`", name, "` is not callable"));
            },
        };
        proof {
            lemma_types_model(params@);
        }
        let total = args.len() + if receiver.is_some() { 1 } else { 0 };
        if total != params.len() {
            let mut message = String::from_str("function value `");
            message.append(name);
            message.append("` expects ");
            message.append(decimal_string(params.len()).as_str());
            message.append(" arguments, found ");
            message.append(decimal_string(total).as_str());
            return Err(CompileError::new(line, message));
        }
        let mut i: usize = 0;
        while i < total
            invariant
                self.wf(),
                owns_all(owner, args@),
                total == arg_count(receiver, args@),
                total == params@.len(),
                i <= total,
                self.function_value_outcome(name@, arg_count(receiver, args@)) is None,
                self.lookup(name@) matches Some((TypeModel::Function(_, ret), _)) && *ret == return_type@,
                forall|k: int| 0 <= k < i ==> #[trigger] self.arg_passes(receiver, args@, k),
            decreases total - i,
        {
            let actual = self.check_arg(receiver, args, i, Some(&params[i]), line, Ghost(owner))?;
            if !assignable_types_pub(&params[i], &actual, arg_is_byte(receiver, args, i)) {
                let mut message = String::from_str("argument ");
                message.append(decimal_string(i + 1).as_str());
                message.append(" for function value `");
                message.append(name);
                message.append("`: expected ");
                message.append(params[i].name().as_str());
                message.append(", found ");
                message.append(actual.name().as_str());
                return Err(CompileError::new(line, message));
            }
            i += 1;
        }
        proof {
            self.lemma_args_pass(receiver, args@);
        }
        Ok(return_type.duplicate())
    }

    /// A call of a generic function: each generic parameter is inferred from
    /// the arguments and must satisfy its trait bounds.
    pub fn check_generic_call(&self, name: &str, sig: &FunctionSig, args: &Vec<Expr>, line: usize) -> (r: Result<Type, CompileError>)
        requires
            self.wf(),
        ensures
            r is Ok ==> forall|k: int| 0 <= k < args@.len() ==> !self.forbids(#[trigger] args@[k]),
            r matches Err(e) ==> e.line == line,
            r is Ok ==> generic_arity_accepts(views_of(sig.params@), args@.len() as int),
    {
        let refs = refs_of(args);
        proof {
            lemma_list_owns(*args, refs@);
        }
        let r = self.generic_call(name, sig, None, refs.as_slice(), line, Ghost(Expr::Array(*args)));
        proof {
            if r is Ok {
                self.lemma_refs_pass(*args, refs@);
            }
        }
        r
    }

    fn generic_call(&self, name: &str, sig: &FunctionSig, receiver: Option<&str>, args: &[&Expr], line: usize, Ghost(owner): Ghost<Expr>) -> (r: Result<Type, CompileError>)
        requires
            self.wf(),
            receiver is Some ==> args@.len() < usize::MAX,
            owns_all(owner, args@),
        ensures
            r matches Err(e) ==> e.line == line,
            r is Ok ==> generic_arity_accepts(views_of(sig.params@), arg_count(receiver, args@)),
            r is Ok ==> self.args_pass(args@),
            !generic_arity_accepts(views_of(sig.params@), arg_count(receiver, args@)) ==> (r matches Err(e) && e.message@
                == "generic function"@ + " `"@ + name@ + "` expects "@ + generic_arity_expected(views_of(sig.params@))
                + " arguments, found "@ + decimal(arg_count(receiver, args@) as nat)),
        decreases owner, 1nat,
    {
        let n = sig.params.len();
        let has_rest = n > 0 && sig.params[n - 1].variadic;
        let fixed_len = if has_rest { n - 1 } else { n };
        let total = args.len() + if receiver.is_some() { 1 } else { 0 };
        if (!has_rest && total != n) || (has_rest && total < fixed_len) {
            let expected = if has_rest {
                let mut t = decimal_string(fixed_len);
                t.append("..");
                t
            } else {
                decimal_string(n)
            };
            proof {
                if n > 0 {
                    assert(views_of(sig.params@).last() == sig.params@[n - 1]@);
                }
                assert(expected@ =~= generic_arity_expected(views_of(sig.params@)));
            }
            return Err(arguments_error(line, "generic function", name, expected.as_str(), total));
        }
        proof {
            if n > 0 {
                assert(views_of(sig.params@).last() == sig.params@[n - 1]@);
            }
        }
        assert(generic_arity_accepts(views_of(sig.params@), total as int));
        let mut inferred: AssocMap<String, Type> = AssocMap::new();
        let mut i: usize = 0;
        while i < fixed_len && i < total
            invariant
                self.wf(),
                owns_all(owner, args@),
                inferred.wf(),
                total == arg_count(receiver, args@),
                generic_arity_accepts(views_of(sig.params@), total as int),
                fixed_len <= n,
                n == sig.params@.len(),
                i <= fixed_len,
                fixed_len <= total,
                !has_rest ==> total == n && fixed_len == n,
                forall|k: int| 0 <= k < i ==> #[trigger] self.arg_passes(receiver, args@, k),
            decreases fixed_len - i,
        {
            let actual = self.check_arg(receiver, args, i, None, line, Ghost(owner))?;
            let param = &sig.params[i];
            let byte_arg = arg_is_byte(receiver, args, i);
            let outcome = self.infer_with_byte(&param.ty, &actual, byte_arg, &mut inferred);
            match outcome {
                Ok(()) => {},
                Err(message) => {
                    let mut text = String::from_str("argument `");
                    text.append(param.name.as_str());
                    text.append("` for function `");
                    text.append(name);
                    text.append("`: ");
                    text.append(message.as_str());
                    return Err(CompileError::new(line, text));
                },
            }
            i += 1;
        }
        if has_rest {
            let rest = &sig.params[n - 1];
            let element = match &rest.ty {
                Type::Array(element) => element,
                _ => return Err(about(line, "rest parameter `", rest.name.as_str(), "` must have Array type")),
            };
            let mut j = fixed_len;
            while j < total
                invariant
                    self.wf(),
                    owns_all(owner, args@),
                    inferred.wf(),
                    total == arg_count(receiver, args@),
                generic_arity_accepts(views_of(sig.params@), total as int),
                    fixed_len <= j,
                    forall|k: int| 0 <= k < j ==> #[trigger] self.arg_passes(receiver, args@, k),
                decreases total - j,
            {
                let actual = self.check_arg(receiver, args, j, None, line, Ghost(owner))?;
                let outcome = self.infer_with_byte(element, &actual, arg_is_byte(receiver, args, j), &mut inferred);
                match outcome {
                    Ok(()) => {},
                    Err(message) => {
                        let mut text = String::from_str("rest argument for function `");
                        text.append(name);
                        text.append("` parameter `");
                        text.append(rest.name.as_str());
                        text.append("`: ");
                        text.append(message.as_str());
                        return Err(CompileError::new(line, text));
                    },
                }
                j += 1;
            }
        }
        let mut k: usize = 0;
        while k < sig.type_params.len()
            invariant
                self.wf(),
                owns_all(owner, args@),
                inferred.wf(),
                forall|x: int| 0 <= x < total ==> #[trigger] self.arg_passes(receiver, args@, x),
                total == arg_count(receiver, args@),
                generic_arity_accepts(views_of(sig.params@), total as int),
            decreases sig.type_params.len() - k,
        {
            let type_param = &sig.type_params[k];
            let inferred_ty = match inferred.get(&type_param.name) {
                Some(t) => t,
                None => {
                    let mut message = String::from_str("could not infer generic type `");
                    message.append(type_param.name.as_str());
                    message.append("` for function `");
                    message.append(name);
                    message.append("`");
                    return Err(CompileError::new(line, message));
                },
            };
            let mut b: usize = 0;
            while b < type_param.bounds.len()
                invariant
                    self.wf(),
                    owns_all(owner, args@),
                    forall|x: int| 0 <= x < total ==> #[trigger] self.arg_passes(receiver, args@, x),
                    total == arg_count(receiver, args@),
                generic_arity_accepts(views_of(sig.params@), total as int),
                decreases type_param.bounds.len() - b,
            {
                let key = (type_param.bounds[b].clone(), inferred_ty.name());
                if !self.trait_impls.contains_key(&key) {
                    let mut message = String::from_str("type ");
                    message.append(inferred_ty.name().as_str());
                    message.append(" does not implement trait `");
                    message.append(type_param.bounds[b].as_str());
                    message.append("`");
                    return Err(CompileError::new(line, message));
                }
                b += 1;
            }
            k += 1;
        }
        proof {
            self.lemma_args_pass(receiver, args@);
        }
        Ok(substitute_generics(&sig.return_type, &inferred))
    }

    /// `infer_generic_type` for a value whose literal-ness is already known.
    fn infer_with_byte(&self, expected: &Type, actual: &Type, byte: bool, inferred: &mut AssocMap<String, Type>) -> (r: Result<(), String>)
        requires
            old(inferred).wf(),
        ensures
            final(inferred).wf(),
            match crate::checker::infer::infer(expected@, actual@, byte, old(inferred).view()) {
                Ok(m) => r is Ok && final(inferred).view() == m,
                Err(msg) => r matches Err(s) && s@ == msg,
            },
    {
        crate::checker::infer::infer_types_pub(expected, actual, byte, inferred)
    }

    /// A call of a declared function, after method names are resolved.
    fn named_call(&self, name: &str, receiver: Option<&str>, args: &[&Expr], line: usize, Ghost(owner): Ghost<Expr>) -> (r: Result<Type, CompileError>)
        requires
            self.wf(),
            receiver is Some ==> args@.len() < usize::MAX,
            owns_all(owner, args@),
        ensures
            r matches Err(e) ==> e.line == line,
            self.plain_call_facts(name@, arg_count(receiver, args@), r),
            r is Ok ==> self.args_pass(args@),
        decreases owner, 2nat,
    {
        let key = String::from_str(name);
        let sig = match self.functions.get(&key) {
            Some(sig) => sig,
            None => return self.function_value_call(name, receiver, args, line, Ghost(owner)),
        };
        if sig.type_params.len() > 0 {
            return self.generic_call(name, sig, receiver, args, line, Ghost(owner));
        }
        let n = sig.params.len();
        let ghost params = views_of(sig.params@);
        let mut min_args: usize = 0;
        let mut p: usize = 0;
        while p < n
            invariant
                n == sig.params@.len(),
                params == views_of(sig.params@),
                p <= n,
                min_args <= p,
                min_args == required_params(params.take(p as int)),
            decreases n - p,
        {
            proof {
                assert(params.take(p + 1).drop_last() =~= params.take(p as int));
            }
            if !sig.params[p].variadic && !sig.params[p].has_default {
                min_args += 1;
            }
            p += 1;
        }
        proof {
            assert(params.take(n as int) =~= params);
        }
        let has_rest = n > 0 && sig.params[n - 1].variadic;
        let total = args.len() + if receiver.is_some() { 1 } else { 0 };
        if total < min_args || (!has_rest && total > n) {
            let expected = if has_rest {
                count_text(min_args, None)
            } else {
                count_text(min_args, Some(n))
            };
            proof {
                if n > 0 {
                    assert(params.last() == sig.params@[n - 1]@);
                }
                assert(expected@ == arity_expected(params));
            }
            return Err(arguments_error(line, "function", name, expected.as_str(), total));
        }
        let mut i: usize = 0;
        let mut q: usize = 0;
        while i < total && q < n
            invariant
                self.wf(),
                owns_all(owner, args@),
                total == arg_count(receiver, args@),
                n == sig.params@.len(),
                i <= total,
                q <= n,
                sig@ == self.functions.view()[name@],
                sig.type_params@.len() == 0,
                self.functions.view().dom().contains(name@),
                arity_accepts(views_of(sig.params@), total as int),
                has_rest == (n > 0 && sig.params@[n - 1].variadic),
                i == q || (has_rest && q == n && i == n - 1),
                forall|k: int| 0 <= k < i ==> #[trigger] self.arg_passes(receiver, args@, k),
            decreases n - q,
        {
            if sig.params[q].variadic {
                proof {
                    assert(crate::checker::rest_last(self.functions.view()[name@].1));
                    assert(views_of(sig.params@)[q as int].3);
                }
                q += 1;
                continue;
            }
            let param = &sig.params[q];
            let actual = self.check_arg(receiver, args, i, Some(&param.ty), line, Ghost(owner))?;
            if !assignable_types_pub(&param.ty, &actual, arg_is_byte(receiver, args, i)) {
                let mut message = String::from_str("argument `");
                message.append(param.name.as_str());
                message.append("` for function `");
                message.append(name);
                message.append("`: expected ");
                message.append(param.ty.name().as_str());
                message.append(", found ");
                message.append(actual.name().as_str());
                return Err(CompileError::new(line, message));
            }
            i += 1;
            q += 1;
        }
        if has_rest {
            let rest = &sig.params[n - 1];
            let element = match &rest.ty {
                Type::Array(element) => element,
                _ => return Err(about(line, "rest parameter `", rest.name.as_str(), "` must have Array type")),
            };
            let mut j = n - 1;
            while j < total
                invariant
                    self.wf(),
                    owns_all(owner, args@),
                    total == arg_count(receiver, args@),
                    sig@ == self.functions.view()[name@],
                sig.type_params@.len() == 0,
                    self.functions.view().dom().contains(name@),
                    arity_accepts(views_of(sig.params@), total as int),
                    forall|k: int| 0 <= k < j && k < total ==> #[trigger] self.arg_passes(receiver, args@, k),
                decreases total - j,
            {
                let actual = self.check_arg(receiver, args, j, None, line, Ghost(owner))?;
                if !assignable_types_pub(element, &actual, arg_is_byte(receiver, args, j)) {
                    let mut message = String::from_str("rest argument for function `");
                    message.append(name);
                    message.append("`: expected ");
                    message.append(element.name().as_str());
                    message.append(", found ");
                    message.append(actual.name().as_str());
                    return Err(CompileError::new(line, message));
                }
                j += 1;
            }
        }
        proof {
            self.lemma_args_pass(receiver, args@);
        }
        Ok(sig.return_type.duplicate())
    }

    /// `Trait.method` when `Trait` is a declared trait and `method` a name.
    pub fn scoped_trait_method_parts<'a>(&self, name: &'a str) -> (r: Option<(&'a str, &'a str)>)
        requires
            self.wf(),
        ensures
            r matches Some((t, m)) ==> self.traits.view().dom().contains(t@) && crate::names::valid_name(m@),
            r is Some ==> crate::text::last_index_of(name@, '.') is Some,
            r matches Some((t, m)) ==> (crate::text::last_index_of(name@, '.') matches Some(d) && t@ == name@.subrange(0, d)
                && m@ == name@.subrange(d + 1, name@.len() as int)),
            r is None <==> !(crate::text::last_index_of(name@, '.') matches Some(d) && self.traits.view().dom().contains(
                name@.subrange(0, d),
            ) && crate::names::valid_name(name@.subrange(d + 1, name@.len() as int))),
    {
        let dot = match rfind_char(name, '.') {
            Some(i) => i,
            None => return None,
        };
        proof {
            crate::names::lemma_last_index_of(name@, '.');
        }
        let n = name.unicode_len();
        let trait_name = name.substring_char(0, dot);
        let method = name.substring_char(dot + 1, n);
        if self.traits.contains_key(&String::from_str(trait_name)) && is_valid_name(method) {
            Some((trait_name, method))
        } else {
            None
        }
    }

    /// The function that implements `receiver.method`: the single trait
    /// implementation for the receiver's type, or a function named `method`.
    pub fn resolve_method_name(&self, receiver: &str, method: &str, line: usize) -> (r: Result<String, CompileError>)
        requires
            self.wf(),
        ensures
            r matches Err(e) ==> e.line == line,
            self.ident_result(receiver@) matches Err(m) ==> (r matches Err(e) && e.message@ == m),
            r matches Ok(s) ==> (self.ident_result(receiver@) matches Ok(ty) && self.method_resolves(
                method@,
                display_name(ty),
                s@,
            )),
            self.ident_result(receiver@) matches Ok(ty) ==> (r is Err <==> !self.method_resolvable(method@, display_name(ty))),
            self.ident_result(receiver@) matches Ok(ty) ==> (r matches Err(e) ==> e.message@ == self.unresolved_message(
                method@,
                display_name(ty),
            )),
    {
        let receiver_ty = self.check_ident(receiver, line)?;
        let key = (String::from_str(method), receiver_ty.name());
        match self.method_impls.get(&key) {
            Some(candidates) => {
                if candidates.len() == 1 {
                    return Ok(candidates[0].1.clone());
                }
                let mut traits = String::new();
                let ghost names = candidate_traits(candidates@);
                let mut i: usize = 0;
                while i < candidates.len()
                    invariant
                        i <= candidates@.len(),
                        names == candidate_traits(candidates@),
                        traits@ == crate::emitter::joined(names.take(i as int), ", "@),
                    decreases candidates.len() - i,
                {
                    proof {
                        assert(names.take(i + 1).drop_last() =~= names.take(i as int));
                        assert(names.take(i + 1).last() == candidates@[i as int].0);
                        if i == 0 {
                            assert(names.take(1)[0] == candidates@[0].0);
                            assert(crate::emitter::joined(names.take(0), ", "@) =~= Seq::<char>::empty());
                        }
                    }
                    if i > 0 {
                        traits.append(", ");
                    }
                    traits.append(candidates[i].0.as_str());
                    i += 1;
                }
                assert(names.take(candidates@.len() as int) =~= names);
                let mut message = String::from_str("ambiguous method `");
                message.append(method);
                message.append("` for ");
                message.append(receiver_ty.name().as_str());
                message.append("; use one of: ");
                message.append(traits.as_str());
                return Err(CompileError::new(line, message));
            },
            None => {},
        }
        if self.functions.contains_key(&String::from_str(method)) {
            return Ok(String::from_str(method));
        }
        Err(about(line, "undefined function `", method, "`"))
    }

    /// The function that implements `trait_name.method` for the type of the
    /// first argument.
    pub fn resolve_scoped_method_name(&self, trait_name: &str, method: &str, args: &Vec<Expr>, line: usize) -> (r: Result<String, CompileError>)
        requires
            self.wf(),
        ensures
            r matches Err(e) ==> e.line == line,
            args@.len() == 0 ==> (r matches Err(e) && e.message@ == "trait method `"@ + trait_name@ + "."@ + method@
                + "` requires a receiver argument"@),
            r matches Ok(s) ==> self.implements_method(trait_name@, method@, s@),
            args@.len() > 0 ==> (crate::checker::outcomes::expr_outcome(self.decls(), self.bindings.view(), args@[0]) matches Some(o)
                ==> match o {
                Err(m) => r matches Err(e) && e.message@ == m,
                Ok(t) => match self.scoped_outcome(trait_name@, method@, display_name(t)) {
                    Ok(target) => r matches Ok(s) && s@ == target,
                    Err(m) => r matches Err(e) && e.message@ == m,
                },
            }),
    {
        let refs = refs_of(args);
        proof {
            lemma_list_owns(*args, refs@);
        }
        self.scoped_method_name(trait_name, method, refs.as_slice(), line, Ghost(Expr::Array(*args)))
    }

    fn scoped_method_name(&self, trait_name: &str, method: &str, args: &[&Expr], line: usize, Ghost(owner): Ghost<Expr>) -> (r: Result<String, CompileError>)
        requires
            self.wf(),
            owns_all(owner, args@),
        ensures
            r matches Err(e) ==> e.line == line,
            args@.len() == 0 ==> (r matches Err(e) && e.message@ == "trait method `"@ + trait_name@ + "."@ + method@
                + "` requires a receiver argument"@),
            r matches Ok(s) ==> self.implements_method(trait_name@, method@, s@),
            args@.len() > 0 ==> (crate::checker::outcomes::expr_outcome(self.decls(), self.bindings.view(), *args@[0]) matches Some(o)
                ==> match o {
                Err(m) => r matches Err(e) && e.message@ == m,
                Ok(t) => match self.scoped_outcome(trait_name@, method@, display_name(t)) {
                    Ok(target) => r matches Ok(s) && s@ == target,
                    Err(m) => r matches Err(e) && e.message@ == m,
                },
            }),
        decreases owner, 2nat,
    {
        if args.len() == 0 {
            let mut message = String::from_str("trait method `");
            message.append(trait_name);
            message.append(".");
            message.append(method);
            message.append("` requires a receiver argument");
            return Err(CompileError::new(line, message));
        }
        let receiver_ty = self.check_expr(args[0], line)?;
        let key = (String::from_str(method), receiver_ty.name());
        let candidates = match self.method_impls.get(&key) {
            Some(c) => c,
            None => return Err(not_implemented(line, &receiver_ty, trait_name, method)),
        };
        let ghost key = (method@, display_name(receiver_ty@));
        assert(candidates@.subrange(0, candidates@.len() as int) =~= candidates@);
        let mut i: usize = 0;
        while i < candidates.len()
            invariant
                self.wf(),
                args@.len() > 0,
                key == (method@, display_name(receiver_ty@)),
                self.method_impls.view().dom().contains(key),
                candidates@ == self.method_impls.view()[key],
                i <= candidates@.len(),
                crate::checker::outcomes::expr_outcome(self.decls(), self.bindings.view(), *args@[0]) matches Some(o) ==> o
                    == Ok::<TypeModel, Seq<char>>(receiver_ty@),
                scoped_target(candidates@, trait_name@) == scoped_target(candidates@.subrange(i as int, candidates@.len() as int), trait_name@),
            decreases candidates.len() - i,
        {
            proof {
                let rest = candidates@.subrange(i as int, candidates@.len() as int);
                assert(rest.drop_first() =~= candidates@.subrange(i + 1, candidates@.len() as int));
                assert(rest[0] == candidates@[i as int]);
            }
            if str_eq(candidates[i].0.as_str(), trait_name) {
                let target = candidates[i].1.clone();
                assert(self.method_impls.view()[(method@, display_name(receiver_ty@))][i as int].0@ == trait_name@);
                return Ok(target);
            }
            i += 1;
        }
        proof {
            assert(candidates@.subrange(i as int, candidates@.len() as int) =~= Seq::<(String, String)>::empty());
        }
        Err(not_implemented(line, &receiver_ty, trait_name, method))
    }

    /// Whether `receiver.method` names a function declared under that
    /// qualified name rather than a method of a variable.
    pub fn is_qualified_function_call(&self, receiver: &str, method: &str) -> (r: bool)
        requires
            self.wf(),
        ensures
            r == (self.lookup(receiver@) is None && self.functions.view().dom().contains(receiver@ + "."@ + method@)),
    {
        if self.lookup_binding(receiver).is_some() {
            return false;
        }
        let mut qualified = String::from_str(receiver);
        qualified.append(".");
        qualified.append(method);
        self.functions.contains_key(&qualified)
    }

    /// The type of a call `name(args)`.
    pub fn check_call(&self, name: &str, args: &Vec<Expr>, line: usize) -> (r: Result<Type, CompileError>)
        requires
            self.wf(),
        ensures
            r is Ok ==> forall|k: int| 0 <= k < args@.len() ==> !self.forbids(#[trigger] args@[k]),
            r matches Err(e) ==> e.line == line,
            crate::text::last_index_of(name@, '.') is None ==> self.plain_call_facts(name@, args@.len() as int, r),
    {
        let refs = refs_of(args);
        proof {
            lemma_list_owns(*args, refs@);
        }
        let r = self.call_in(name, refs.as_slice(), line, Ghost(Expr::Array(*args)));
        proof {
            if r is Ok {
                self.lemma_refs_pass(*args, refs@);
            }
        }
        r
    }

    /// `check_call` on arguments that `owner` holds.
    pub(crate) fn call_in(&self, name: &str, args: &[&Expr], line: usize, Ghost(owner): Ghost<Expr>) -> (r: Result<Type, CompileError>)
        requires
            self.wf(),
            owns_all(owner, args@),
        ensures
            r matches Err(e) ==> e.line == line,
            crate::text::last_index_of(name@, '.') is None ==> self.plain_call_facts(name@, args@.len() as int, r),
            r is Ok ==> self.args_pass(args@),
        decreases owner, 3nat,
    {
        match self.scoped_trait_method_parts(name) {
            Some((trait_name, method)) => {
                let lowered = self.scoped_method_name(trait_name, method, args, line, Ghost(owner))?;
                return self.named_call(lowered.as_str(), None, args, line, Ghost(owner));
            },
            None => {},
        }
        match method_call_parts(name) {
            Some((receiver, method)) => {
                if !self.functions.contains_key(&String::from_str(name)) {
                    if args.len() == usize::MAX {
                        return Err(about(line, "call of `", name, "` has more arguments than a program can hold"));
                    }
                    let lowered = self.resolve_method_name(receiver, method, line)?;
                    return self.named_call(lowered.as_str(), Some(receiver), args, line, Ghost(owner));
                }
            },
            None => {},
        }
        self.named_call(name, None, args, line, Ghost(owner))
    }

    /// The type of a sum-type variant applied to arguments.
    pub fn check_variant(&self, name: &str, args: &Vec<Expr>, line: usize) -> (r: Result<Type, CompileError>)
        requires
            self.wf(),
        ensures
            r is Ok ==> forall|k: int| 0 <= k < args@.len() ==> !self.forbids(#[trigger] args@[k]),
            r matches Err(e) ==> e.line == line,
            self.variant_facts(name@, args@.len(), r),
    {
        let refs = refs_of(args);
        proof {
            lemma_list_owns(*args, refs@);
        }
        let r = self.variant_in(name, refs.as_slice(), line, Ghost(Expr::Array(*args)));
        proof {
            if r is Ok {
                self.lemma_refs_pass(*args, refs@);
            }
        }
        r
    }

    /// `check_variant` on arguments that `owner` holds.
    pub(crate) fn variant_in(&self, name: &str, args: &[&Expr], line: usize, Ghost(owner): Ghost<Expr>) -> (r: Result<Type, CompileError>)
        requires
            self.wf(),
            owns_all(owner, args@),
        ensures
            r matches Err(e) ==> e.line == line,
            self.variant_facts(name@, args@.len(), r),
            r is Ok ==> self.args_pass(args@),
        decreases owner, 2nat,
    {
        let variant = match self.variants.get(&String::from_str(name)) {
            Some(v) => v,
            None => return Err(about(line, "undefined variant `", name, "`")),
        };
        proof {
            assert(views_of(variant.fields@).len() == variant.fields@.len());
        }
        if args.len() != variant.fields.len() {
            let mut message = String::from_str("variant `");
            message.append(name);
            message.append("` expects ");
            message.append(decimal_string(variant.fields.len()).as_str());
            message.append(" arguments, found ");
            message.append(decimal_string(args.len()).as_str());
            return Err(CompileError::new(line, message));
        }
        let mut i: usize = 0;
        while i < args.len()
            invariant
                self.wf(),
                owns_all(owner, args@),
                args@.len() == variant.fields@.len(),
                i <= args@.len(),
                self.variant_outcome(name@, args@.len()) is None,
                variant@ == self.variants.view()[name@],
                forall|k: int| 0 <= k < i ==> !self.forbids(*#[trigger] args@[k]),
            decreases args.len() - i,
        {
            let actual = self.check_expr_expected(args[i], &variant.fields[i], line)?;
            if !self.is_assignable(&variant.fields[i], &actual, args[i]) {
                let mut message = String::from_str("argument ");
                message.append(decimal_string(i + 1).as_str());
                message.append(" for variant `");
                message.append(name);
                message.append("`: expected ");
                message.append(variant.fields[i].name().as_str());
                message.append(", found ");
                message.append(actual.name().as_str());
                return Err(CompileError::new(line, message));
            }
            i += 1;
        }
        Ok(Type::Named(variant.sum_type.clone()))
    }
}

/// `type T does not implement trait `Tr` method `m``.
pub open spec fn not_implemented_message(receiver_type: Seq<char>, trait_name: Seq<char>, method: Seq<char>) -> Seq<char> {
    "type "@ + receiver_type + " does not implement trait `"@ + trait_name + "` method `"@ + method + "`"@
}

/// The function of the first implementation, among those of a method for
/// one type, that belongs to the trait.
pub open spec fn scoped_target(cs: Seq<(String, String)>, trait_name: Seq<char>) -> Option<Seq<char>>
    decreases cs.len(),
{
    if cs.len() == 0 {
        None
    } else if cs[0].0@ == trait_name {
        Some(cs[0].1@)
    } else {
        scoped_target(cs.drop_first(), trait_name)
    }
}

fn not_implemented(line: usize, receiver_ty: &Type, trait_name: &str, method: &str) -> (e: CompileError)
    ensures
        e.line == line,
        e.message@ == not_implemented_message(display_name(receiver_ty@), trait_name@, method@),
{
    let mut message = String::from_str("type ");
    message.append(receiver_ty.name().as_str());
    message.append(" does not implement trait `");
    message.append(trait_name);
    message.append("` method `");
    message.append(method);
    message.append("`");
    CompileError::new(line, message)
}

} // verus!
