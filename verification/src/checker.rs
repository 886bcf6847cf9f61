//! The type checker: scopes, declaration tables and the checks on
//! statements and expressions.

pub mod relations;
pub mod resolve;
pub mod messages;
pub mod scope;
pub mod exprs;
pub mod infer;
pub mod calls;
pub mod values;
pub mod forms;
pub mod methods;
pub mod mappers;
pub mod sequencing;
pub mod inspected;
pub mod matching;
pub mod declarations;
pub mod statements;
pub mod captures;
pub mod outcomes;

pub use statements::{type_check, type_check_with_policy};

use vstd::prelude::*;
use vstd::string::StringExecFns;

use crate::ast::{Program, Statement, Type, TypeModel, TypeParam};
use crate::collections::{AssocMap, Duplicate};
use crate::error::CompileError;
use crate::policy::ExecutionPolicy;
use crate::type_utils::cmd_error_type;

verus! {

/// A variable in scope: its type and whether it may be reassigned.
pub struct Binding {
    pub ty: Type,
    pub mutable: bool,
}

impl View for Binding {
    type V = (TypeModel, bool);

    open spec fn view(&self) -> (TypeModel, bool) {
        (self.ty@, self.mutable)
    }
}

impl Duplicate for Binding {
    fn duplicate(&self) -> (r: Binding) {
        Binding { ty: self.ty.duplicate(), mutable: self.mutable }
    }
}

/// A resolved parameter of a function signature.
pub struct ParamSig {
    pub name: String,
    pub ty: Type,
    pub has_default: bool,
    pub variadic: bool,
}

impl View for ParamSig {
    type V = (Seq<char>, TypeModel, bool, bool);

    open spec fn view(&self) -> (Seq<char>, TypeModel, bool, bool) {
        (self.name@, self.ty@, self.has_default, self.variadic)
    }
}

impl Duplicate for ParamSig {
    fn duplicate(&self) -> (r: ParamSig) {
        ParamSig { name: self.name.clone(), ty: self.ty.duplicate(), has_default: self.has_default, variadic: self.variadic }
    }
}

impl View for TypeParam {
    type V = (Seq<char>, Seq<String>);

    open spec fn view(&self) -> (Seq<char>, Seq<String>) {
        (self.name@, self.bounds@)
    }
}

impl Duplicate for TypeParam {
    fn duplicate(&self) -> (r: TypeParam) {
        TypeParam { name: self.name.clone(), bounds: self.bounds.duplicate() }
    }
}

pub open spec fn views_of<T: View>(s: Seq<T>) -> Seq<T::V> {
    s.map_values(|x: T| x@)
}

pub fn duplicate_all<T: Duplicate>(v: &[T]) -> (r: Vec<T>)
    ensures
        views_of(r@) == views_of(v@),
{
    let mut out: Vec<T> = Vec::new();
    let mut i: usize = 0;
    while i < v.len()
        invariant
            i <= v@.len(),
            out@.len() == i,
            forall|j: int| 0 <= j < i ==> (#[trigger] out@[j])@ == v@[j]@,
        decreases v.len() - i,
    {
        out.push(v[i].duplicate());
        i += 1;
    }
    assert(views_of(out@) =~= views_of(v@));
    out
}

/// The signature of a declared function.
pub struct FunctionSig {
    pub type_params: Vec<TypeParam>,
    pub params: Vec<ParamSig>,
    pub return_type: Type,
}

impl View for FunctionSig {
    type V = (Seq<(Seq<char>, Seq<String>)>, Seq<(Seq<char>, TypeModel, bool, bool)>, TypeModel);

    open spec fn view(&self) -> Self::V {
        (views_of(self.type_params@), views_of(self.params@), self.return_type@)
    }
}

impl Duplicate for FunctionSig {
    fn duplicate(&self) -> (r: FunctionSig) {
        FunctionSig {
            type_params: duplicate_all(&self.type_params),
            params: duplicate_all(&self.params),
            return_type: self.return_type.duplicate(),
        }
    }
}

/// A method that a trait declares, with its parameters resolved.
pub struct MethodSig {
    pub name: String,
    pub params: Vec<ParamSig>,
    pub return_type: Type,
}

impl View for MethodSig {
    type V = (Seq<char>, Seq<(Seq<char>, TypeModel, bool, bool)>, TypeModel);

    open spec fn view(&self) -> Self::V {
        (self.name@, views_of(self.params@), self.return_type@)
    }
}

impl Duplicate for MethodSig {
    fn duplicate(&self) -> (r: MethodSig) {
        MethodSig { name: self.name.clone(), params: duplicate_all(&self.params), return_type: self.return_type.duplicate() }
    }
}

/// A declared trait: the name of its type parameter and its methods.
pub struct TraitSig {
    pub type_param: String,
    pub methods: Vec<MethodSig>,
}

impl View for TraitSig {
    type V = (Seq<char>, Seq<(Seq<char>, Seq<(Seq<char>, TypeModel, bool, bool)>, TypeModel)>);

    open spec fn view(&self) -> Self::V {
        (self.type_param@, views_of(self.methods@))
    }
}

impl Duplicate for TraitSig {
    fn duplicate(&self) -> (r: TraitSig) {
        TraitSig { type_param: self.type_param.clone(), methods: duplicate_all(&self.methods) }
    }
}

/// A variant of a sum type and the types of its fields.
pub struct VariantSig {
    pub sum_type: String,
    pub fields: Vec<Type>,
}

impl View for VariantSig {
    type V = (Seq<char>, Seq<TypeModel>);

    open spec fn view(&self) -> Self::V {
        (self.sum_type@, views_of(self.fields@))
    }
}

impl Duplicate for VariantSig {
    fn duplicate(&self) -> (r: VariantSig) {
        VariantSig { sum_type: self.sum_type.clone(), fields: duplicate_all(&self.fields) }
    }
}

/// A generic type alias: its parameters and its body.
pub struct GenericType {
    pub params: Vec<String>,
    pub body: Type,
}

impl View for GenericType {
    type V = (Seq<String>, TypeModel);

    open spec fn view(&self) -> Self::V {
        (self.params@, self.body@)
    }
}

impl Duplicate for GenericType {
    fn duplicate(&self) -> (r: GenericType) {
        GenericType { params: self.params.duplicate(), body: self.body.duplicate() }
    }
}

impl Duplicate for () {
    fn duplicate(&self) -> (r: ()) {
    }
}

/// The checker's state: the variables in scope and the declared types,
/// traits, functions and variants.
pub struct TypeChecker {
    pub policy: ExecutionPolicy,
    pub bindings: AssocMap<String, Binding>,
    pub types: AssocMap<String, Type>,
    pub generic_types: AssocMap<String, GenericType>,
    pub traits: AssocMap<String, TraitSig>,
    pub trait_impls: AssocMap<(String, String), ()>,
    pub method_impls: AssocMap<(String, String), Vec<(String, String)>>,
    pub functions: AssocMap<String, FunctionSig>,
    pub sum_types: AssocMap<String, Vec<String>>,
    pub variants: AssocMap<String, VariantSig>,
    pub constructor_overrides: AssocMap<String, ()>,
    pub expected_return: Option<Type>,
    /// Whether a `?` nested inside the expression being checked stands for
    /// a value bound just before its statement, so that it propagates the
    /// error of the enclosing function.
    pub binds_nested_tries: bool,
}

/// Only the last parameter of a signature may collect the remaining arguments.
pub open spec fn rest_last(params: Seq<(Seq<char>, TypeModel, bool, bool)>) -> bool {
    forall|i: int| 0 <= i < params.len() - 1 ==> !(#[trigger] params[i]).3
}

impl TypeChecker {
    pub open spec fn wf(&self) -> bool {
        &&& self.bindings.wf()
        &&& self.types.wf()
        &&& self.generic_types.wf()
        &&& self.traits.wf()
        &&& self.trait_impls.wf()
        &&& self.method_impls.wf()
        &&& self.functions.wf()
        &&& self.sum_types.wf()
        &&& self.variants.wf()
        &&& self.constructor_overrides.wf()
        &&& forall|k: Seq<char>| #[trigger] self.functions.view().dom().contains(k) ==> rest_last(self.functions.view()[k].1)
    }

    /// Two checkers that hold the same scopes and declarations.
    pub open spec fn same_state(&self, other: &TypeChecker) -> bool {
        &&& self.policy.model() == other.policy.model()
        &&& self.bindings.view() == other.bindings.view()
        &&& self.types.view() == other.types.view()
        &&& self.generic_types.view() == other.generic_types.view()
        &&& self.traits.view() == other.traits.view()
        &&& self.trait_impls.view() == other.trait_impls.view()
        &&& self.method_impls.view() == other.method_impls.view()
        &&& self.functions.view() == other.functions.view()
        &&& self.sum_types.view() == other.sum_types.view()
        &&& self.variants.view() == other.variants.view()
        &&& self.constructor_overrides.view() == other.constructor_overrides.view()
        &&& match (self.expected_return, other.expected_return) {
            (Some(a), Some(b)) => a@ == b@,
            (None, None) => true,
            _ => false,
        }
    }

    /// A checker for a new policy: no variables, and only the built-in
    /// type `CmdError` declared.
    pub fn with_policy(policy: ExecutionPolicy) -> (r: TypeChecker)
        ensures
            r.wf(),
            r.policy.model() == policy.model(),
            r.bindings.view() == Map::<Seq<char>, (TypeModel, bool)>::empty(),
            r.types.view() == Map::<Seq<char>, TypeModel>::empty().insert("CmdError"@, crate::type_utils::cmd_error_model()),
            r.functions.view() == Map::<Seq<char>, <FunctionSig as View>::V>::empty(),
            r.traits.view() == Map::<Seq<char>, <TraitSig as View>::V>::empty(),
            r.variants.view() == Map::<Seq<char>, <VariantSig as View>::V>::empty(),
            r.generic_types.view() == Map::<Seq<char>, <GenericType as View>::V>::empty(),
            r.sum_types.view() == Map::<Seq<char>, Seq<String>>::empty(),
            r.expected_return is None,
            !r.binds_nested_tries,
    {
        let mut types: AssocMap<String, Type> = AssocMap::new();
        types.insert(String::from_str("CmdError"), cmd_error_type());
        TypeChecker {
            policy,
            bindings: AssocMap::new(),
            types,
            generic_types: AssocMap::new(),
            traits: AssocMap::new(),
            trait_impls: AssocMap::new(),
            method_impls: AssocMap::new(),
            functions: AssocMap::new(),
            sum_types: AssocMap::new(),
            variants: AssocMap::new(),
            constructor_overrides: AssocMap::new(),
            expected_return: None,
            binds_nested_tries: false,
        }
    }

    /// A checker under the policy that allows nothing.
    pub fn default() -> (r: TypeChecker)
        ensures
            r.wf(),
            r.bindings.view() == Map::<Seq<char>, (TypeModel, bool)>::empty(),
            r.types.view() == Map::<Seq<char>, TypeModel>::empty().insert("CmdError"@, crate::type_utils::cmd_error_model()),
            r.functions.view() == Map::<Seq<char>, <FunctionSig as View>::V>::empty(),
            r.expected_return is None,
            r.policy.model() == crate::policy::deny_all_model(),
    {
        let policy = ExecutionPolicy::deny_all();
        assert(policy.model() =~= crate::policy::deny_all_model());
        TypeChecker::with_policy(policy)
    }

    /// A copy for checking a nested scope, whose declarations are dropped
    /// when the scope ends.
    pub fn scope(&self) -> (r: TypeChecker)
        requires
            self.wf(),
        ensures
            r.wf(),
            r.same_state(self),
            r.binds_nested_tries == self.binds_nested_tries,
    {
        TypeChecker {
            policy: self.policy.duplicate(),
            bindings: self.bindings.copy(),
            types: self.types.copy(),
            generic_types: self.generic_types.copy(),
            traits: self.traits.copy(),
            trait_impls: self.trait_impls.copy(),
            method_impls: self.method_impls.copy(),
            functions: self.functions.copy(),
            sum_types: self.sum_types.copy(),
            variants: self.variants.copy(),
            constructor_overrides: self.constructor_overrides.copy(),
            expected_return: match &self.expected_return {
                Some(t) => Some(t.duplicate()),
                None => None,
            },
            binds_nested_tries: self.binds_nested_tries,
        }
    }

    /// A copy in which a nested `?` is not bound before the statement: the
    /// parts of an expression that are checked on their own.
    pub fn without_nested_tries(&self) -> (r: TypeChecker)
        requires
            self.wf(),
        ensures
            r.wf(),
            r.same_state(self),
            !r.binds_nested_tries,
    {
        let mut r = self.scope();
        r.binds_nested_tries = false;
        r
    }
}

} // verus!
