//! Declarations: newtypes, sum types, type aliases, traits, trait method
//! signatures and external functions.

use vstd::prelude::*;
use vstd::string::StringExecFns;

use crate::ast::{display_name, lemma_type_model_tags, Param, TraitMethod, Type, TypeModel, TypeParam, VariantDecl, ImplMethod};
use crate::checker::messages::{about, about_types, fixed};
use crate::checker::relations::types_equal;
use crate::checker::{duplicate_all, FunctionSig, GenericType, MethodSig, ParamSig, TraitSig, TypeChecker, VariantSig};
use crate::collections::{AssocMap, Duplicate};
use crate::error::CompileError;
use crate::text::{decimal_string, str_eq};
use crate::type_utils::substitute_generics;

verus! {

/// `type `<name>` is already defined`.
pub open spec fn type_defined_message(name: Seq<char>) -> Seq<char> {
    "type `"@ + name + "` is already defined"@
}

fn type_defined(line: usize, name: &str) -> (e: CompileError)
    ensures
        e.line == line,
        e.message@ == type_defined_message(name@),
{
    about(line, "type `", name, "` is already defined")
}

/// The names of type parameters, as a set of generic names.
pub fn generic_name_set(names: &[String]) -> (r: AssocMap<String, ()>)
    ensures
        r.wf(),
        forall|n: Seq<char>| r.view().dom().contains(n) <==> exists|i: int| 0 <= i < names@.len() && (#[trigger] names@[i])@ == n,
{
    let mut set: AssocMap<String, ()> = AssocMap::new();
    let mut i: usize = 0;
    while i < names.len()
        invariant
            set.wf(),
            i <= names@.len(),
            forall|n: Seq<char>| set.view().dom().contains(n) <==> exists|j: int| 0 <= j < i && (#[trigger] names@[j])@ == n,
        decreases names.len() - i,
    {
        set.insert(names[i].clone(), ());
        proof {
            assert forall|n: Seq<char>| set.view().dom().contains(n) <==> exists|j: int| 0 <= j < i + 1 && (#[trigger] names@[j])@ == n by {
                if n == names@[i as int]@ {
                    assert(names@[i as int]@ == n);
                }
            }
        }
        i += 1;
    }
    set
}

/// The names of a function's type parameters.
pub fn type_param_names(params: &[TypeParam]) -> (r: Vec<String>)
    ensures
        r@.len() == params@.len(),
        forall|i: int| 0 <= i < params@.len() ==> (#[trigger] r@[i])@ == params@[i].name@,
{
    let mut out: Vec<String> = Vec::new();
    let mut i: usize = 0;
    while i < params.len()
        invariant
            i <= params@.len(),
            out@.len() == i,
            forall|j: int| 0 <= j < i ==> (#[trigger] out@[j])@ == params@[j].name@,
        decreases params.len() - i,
    {
        out.push(params[i].name.clone());
        i += 1;
    }
    out
}

impl TypeChecker {
    /// Every one of the variants is declared as a variant of `sum_type`.
    pub open spec fn declares_variants(&self, variants: Seq<VariantDecl>, sum_type: Seq<char>) -> bool {
        forall|i: int| 0 <= i < variants.len() ==> #[trigger] self.variants.view().dom().contains(variants[i].name@)
            && self.variants.view()[variants[i].name@].0 == sum_type
    }

    /// `newtype Name = Base`: a branded type over the resolved base.
    pub fn define_newtype(&mut self, name: &str, base: &Type, line: usize) -> (r: Result<(), CompileError>)
        requires
            old(self).wf(),
        ensures
            final(self).wf(),
            final(self).policy == old(self).policy,
            r matches Err(e) ==> e.line == line,
            r is Err ==> final(self).types.view() == old(self).types.view(),
            r is Ok ==> !old(self).types.view().dom().contains(name@) && !old(self).generic_types.view().dom().contains(name@)
                && (final(self).types.view()[name@] matches TypeModel::Brand { name: n, .. } && n == name@)
                && final(self).types.view().dom() == old(self).types.view().dom().insert(name@),
            old(self).types.view().dom().contains(name@) ==> r is Err,
            final(self).bindings.view() == old(self).bindings.view(),
            final(self).functions.view() == old(self).functions.view(),
            final(self).variants.view() == old(self).variants.view(),
            final(self).traits.view() == old(self).traits.view(),
    {
        let resolved_base = self.resolve_type(base, line)?;
        let key = String::from_str(name);
        if self.types.contains_key(&key) || self.generic_types.contains_key(&key) {
            return Err(type_defined(line, name));
        }
        self.types.insert(key, Type::Brand { name: String::from_str(name), base: Box::new(resolved_base) });
        Ok(())
    }

    /// A sum type and its variants: at least one variant, no name twice,
    /// and no variant that clashes with a declared name.
    #[verifier::loop_isolation(false)]
    pub fn define_sum_type(&mut self, name: &str, variants: &[VariantDecl], line: usize) -> (r: Result<(), CompileError>)
        requires
            old(self).wf(),
        ensures
            final(self).wf(),
            final(self).policy == old(self).policy,
            r matches Err(e) ==> e.line == line,
            r is Err ==> final(self).types.view() == old(self).types.view() && final(self).variants.view() == old(self).variants.view(),
            r is Ok ==> final(self).types.view() == old(self).types.view().insert(name@, TypeModel::Named(name@)),
            r is Ok ==> final(self).declares_variants(variants@, name@),
            variants@.len() == 0 ==> r is Err,
            final(self).bindings.view() == old(self).bindings.view(),
            final(self).functions.view() == old(self).functions.view(),
            final(self).traits.view() == old(self).traits.view(),
    {
        let key = String::from_str(name);
        if self.types.contains_key(&key) || self.generic_types.contains_key(&key) {
            return Err(type_defined(line, name));
        }
        if variants.len() == 0 {
            return Err(about(line, "sum type `", name, "` requires at least one variant"));
        }
        let mut names: Vec<String> = Vec::new();
        let mut resolved: Vec<Vec<Type>> = Vec::new();
        let mut i: usize = 0;
        while i < variants.len()
            invariant
                self.wf(),
                self.policy == old(self).policy,
                i <= variants@.len(),
                names@.len() == i,
                resolved@.len() == i,
                forall|j: int| 0 <= j < i ==> (#[trigger] names@[j])@ == variants@[j].name@,
            decreases variants.len() - i,
        {
            let variant_name = &variants[i].name;
            let mut k: usize = 0;
            while k < names.len()
                invariant
                    k <= names@.len(),
                    i < variants@.len(),
                decreases names.len() - k,
            {
                if str_eq(names[k].as_str(), variant_name.as_str()) {
                    return Err(about(line, "variant `", variant_name.as_str(), "` is already defined"));
                }
                k += 1;
            }
            if self.variants.contains_key(variant_name) || self.functions.contains_key(variant_name) || self.bindings.contains_key(variant_name) {
                return Err(about(line, "variant `", variant_name.as_str(), "` conflicts with an existing declaration"));
            }
            let mut fields: Vec<Type> = Vec::new();
            let mut f: usize = 0;
            while f < variants[i].fields.len()
                invariant
                    self.wf(),
                    i < variants@.len(),
                    f <= variants@[i as int].fields@.len(),
                decreases variants[i as int].fields@.len() - f,
            {
                let t = self.resolve_type(&variants[i].fields[f], line)?;
                fields.push(t);
                f += 1;
            }
            names.push(variant_name.clone());
            resolved.push(fields);
            i += 1;
        }
        self.types.insert(key, Type::Named(String::from_str(name)));
        self.sum_types.insert(String::from_str(name), names.duplicate());
        let ghost types_after = self.types.view();
        let mut v: usize = 0;
        while v < variants.len()
            invariant
                self.wf(),
                self.policy == old(self).policy,
                v <= variants@.len(),
                names@.len() == variants@.len(),
                resolved@.len() == variants@.len(),
                forall|j: int| 0 <= j < variants@.len() ==> (#[trigger] names@[j])@ == variants@[j].name@,
                forall|j: int| 0 <= j < v ==> #[trigger] self.variants.view().dom().contains(variants@[j].name@)
                    && self.variants.view()[variants@[j].name@].0 == name@,
                self.types.view() == types_after,
                self.bindings.view() == old(self).bindings.view(),
                self.functions.view() == old(self).functions.view(),
                self.traits.view() == old(self).traits.view(),
            decreases variants.len() - v,
        {
            let sig = VariantSig { sum_type: String::from_str(name), fields: duplicate_all(&resolved[v]) };
            let ghost before = self.variants.view();
            self.variants.insert(names[v].clone(), sig);
            proof {
                assert forall|j: int| 0 <= j < v + 1 implies #[trigger] self.variants.view().dom().contains(variants@[j].name@)
                    && self.variants.view()[variants@[j].name@].0 == name@ by {
                    if j < v {
                        assert(before.dom().contains(variants@[j].name@));
                    }
                }
            }
            v += 1;
        }
        assert(self.types.view() == old(self).types.view().insert(name@, TypeModel::Named(name@)));
        assert(self.declares_variants(variants@, name@));
        Ok(())
    }

    /// `type Name[T, ...] = ty`: a plain alias, or a generic one when it has
    /// type parameters.
    #[verifier::loop_isolation(false)]
    pub fn define_type_alias(&mut self, name: &str, type_params: &[String], ty: &Type, line: usize) -> (r: Result<(), CompileError>)
        requires
            old(self).wf(),
        ensures
            final(self).wf(),
            final(self).policy == old(self).policy,
            r matches Err(e) ==> e.line == line,
            r is Ok && type_params@.len() == 0 ==> final(self).types.view().dom() == old(self).types.view().dom().insert(name@),
            r is Ok && type_params@.len() > 0 ==> final(self).generic_types.view().dom() == old(self).generic_types.view().dom().insert(name@)
                && final(self).types.view() == old(self).types.view(),
            old(self).types.view().dom().contains(name@) ==> r is Err,
            r is Err ==> final(self).types.view() == old(self).types.view(),
            final(self).bindings.view() == old(self).bindings.view(),
            final(self).functions.view() == old(self).functions.view(),
            final(self).variants.view() == old(self).variants.view(),
            final(self).traits.view() == old(self).traits.view(),
    {
        let generics = generic_name_set(type_params);
        let resolved_ty = self.resolve_type_with_generics(ty, &generics, line)?;
        let key = String::from_str(name);
        if self.types.contains_key(&key) {
            return Err(type_defined(line, name));
        }
        if self.generic_types.contains_key(&key) {
            return Err(type_defined(line, name));
        }
        if type_params.len() == 0 {
            self.types.insert(key, resolved_ty);
        } else {
            let mut params: Vec<String> = Vec::new();
            let mut i: usize = 0;
            while i < type_params.len()
                invariant
                    i <= type_params@.len(),
                decreases type_params.len() - i,
            {
                params.push(type_params[i].clone());
                i += 1;
            }
            self.generic_types.insert(key, GenericType { params, body: resolved_ty });
        }
        Ok(())
    }

    /// A trait: each method names a receiver of the trait's type parameter
    /// first, has no default parameters, and its rest parameter comes last.
    #[verifier::loop_isolation(false)]
    pub fn define_trait(&mut self, name: &str, type_param: &str, methods: &[TraitMethod], line: usize) -> (r: Result<(), CompileError>)
        requires
            old(self).wf(),
        ensures
            final(self).wf(),
            final(self).policy == old(self).policy,
            r matches Err(e) ==> e.line == line,
            old(self).traits.view().dom().contains(name@) ==> (r matches Err(e) && e.message@ == "trait `"@ + name@
                + "` is already defined"@),
            r is Ok ==> final(self).traits.view().dom() == old(self).traits.view().dom().insert(name@),
            r is Ok ==> forall|j: int| 0 <= j < methods@.len() ==> (#[trigger] methods@[j]).params@.len() > 0 && forall|q: int|
                0 <= q < methods@[j].params@.len() ==> (#[trigger] methods@[j].params@[q]).default is None,
            r is Ok ==> forall|a: int, b: int| 0 <= a < b < methods@.len() ==> (#[trigger] methods@[a]).name@ != (
            #[trigger] methods@[b]).name@,
            r is Ok ==> final(self).traits.view()[name@].0 == type_param@ && final(self).traits.view()[name@].1.len()
                == methods@.len() && forall|j: int| 0 <= j < methods@.len() ==> #[trigger] final(self).traits.view()[name@].1[j].0
                == methods@[j].name@,
            r is Err ==> final(self).traits.view() == old(self).traits.view(),
            final(self).bindings.view() == old(self).bindings.view(),
            final(self).functions.view() == old(self).functions.view(),
            final(self).types.view() == old(self).types.view(),
            final(self).variants.view() == old(self).variants.view(),
    {
        let key = String::from_str(name);
        if self.traits.contains_key(&key) {
            return Err(about(line, "trait `", name, "` is already defined"));
        }
        let mut generics: AssocMap<String, ()> = AssocMap::new();
        generics.insert(String::from_str(type_param), ());
        let mut resolved_methods: Vec<MethodSig> = Vec::new();
        let mut i: usize = 0;
        while i < methods.len()
            invariant
                self.wf(),
                generics.wf(),
                i <= methods@.len(),
                resolved_methods@.len() == i,
                forall|j: int| 0 <= j < i ==> (#[trigger] resolved_methods@[j]).name@ == methods@[j].name@,
                forall|j: int| 0 <= j < i ==> (#[trigger] methods@[j]).params@.len() > 0 && forall|q: int|
                    0 <= q < methods@[j].params@.len() ==> (#[trigger] methods@[j].params@[q]).default is None,
                forall|a: int, b: int| 0 <= a < b < i ==> (#[trigger] methods@[a]).name@ != (#[trigger] methods@[b]).name@,
            decreases methods.len() - i,
        {
            let method = &methods[i];
            let mut k: usize = 0;
            while k < resolved_methods.len()
                invariant
                    k <= resolved_methods@.len(),
                    i < methods@.len(),
                    resolved_methods@.len() == i,
                    forall|j: int| 0 <= j < i ==> (#[trigger] resolved_methods@[j]).name@ == methods@[j].name@,
                    forall|kk: int| 0 <= kk < k ==> resolved_methods@[kk].name@ != methods@[i as int].name@,
                decreases resolved_methods.len() - k,
            {
                if str_eq(resolved_methods[k].name.as_str(), method.name.as_str()) {
                    return Err(about(line, "trait method `", method.name.as_str(), "` is already defined"));
                }
                k += 1;
            }
            assert forall|a: int| 0 <= a < i implies methods@[a].name@ != methods@[i as int].name@ by {
                assert(resolved_methods@[a].name@ == methods@[a].name@);
            }
            if method.params.len() == 0 {
                return Err(about(line, "trait method `", method.name.as_str(), "` requires a receiver parameter"));
            }
            let receiver_ty = self.resolve_type_with_generics(&method.params[0].ty, &generics, line)?;
            if !types_equal(&receiver_ty, &Type::Generic(String::from_str(type_param))) {
                let mut message = String::from_str("trait method `");
                message.append(method.name.as_str());
                message.append("` receiver must be `");
                message.append(type_param);
                message.append("`");
                return Err(CompileError::new(line, message));
            }
            let n = method.params.len();
            let mut params: Vec<ParamSig> = Vec::new();
            let mut p: usize = 0;
            while p < n
                invariant
                    self.wf(),
                    generics.wf(),
                    i < methods@.len(),
                    n == methods@[i as int].params@.len(),
                    p <= n,
                    forall|q: int| 0 <= q < p ==> (#[trigger] methods@[i as int].params@[q]).default is None,
                decreases n - p,
            {
                let param = &method.params[p];
                if param.variadic && !str_eq(param.name.as_str(), method.params[n - 1].name.as_str()) {
                    return Err(about(line, "trait method `", method.name.as_str(), "` rest parameter must be last"));
                }
                if param.default.is_some() {
                    return Err(about(line, "trait method `", method.name.as_str(), "` cannot use default parameters"));
                }
                let ty = self.resolve_type_with_generics(&param.ty, &generics, line)?;
                params.push(ParamSig { name: param.name.clone(), ty, has_default: false, variadic: param.variadic });
                p += 1;
            }
            let return_type = self.resolve_type_with_generics(&method.return_type, &generics, line)?;
            resolved_methods.push(MethodSig { name: method.name.clone(), params, return_type });
            i += 1;
        }
        let ghost resolved_view = resolved_methods@;
        self.traits.insert(key, TraitSig { type_param: String::from_str(type_param), methods: resolved_methods });
        proof {
            assert forall|j: int| 0 <= j < methods@.len() implies #[trigger] self.traits.view()[name@].1[j].0 == methods@[j].name@ by {
                assert(self.traits.view()[name@].1[j] == resolved_view[j]@);
            }
        }
        Ok(())
    }

    /// An implementation's method must match the trait's declaration with the
    /// trait's type parameter replaced by the implementing type.
    #[verifier::loop_isolation(false)]
    pub fn check_impl_method_signature(&self, expected: &MethodSig, actual: &ImplMethod, type_param: &str, for_type: &Type, line: usize) -> (r: Result<(), CompileError>)
        requires
            self.wf(),
        ensures
            r matches Err(e) ==> e.line == line,
            expected.params@.len() != actual.params@.len() ==> r is Err,
    {
        if expected.params.len() != actual.params.len() {
            let mut message = String::from_str("impl method `");
            message.append(actual.name.as_str());
            message.append("` parameter count mismatch: expected ");
            message.append(decimal_string(expected.params.len()).as_str());
            message.append(", found ");
            message.append(decimal_string(actual.params.len()).as_str());
            return Err(CompileError::new(line, message));
        }
        let mut inferred: AssocMap<String, Type> = AssocMap::new();
        inferred.insert(String::from_str(type_param), for_type.duplicate());
        let mut i: usize = 0;
        while i < actual.params.len()
            invariant
                self.wf(),
                inferred.wf(),
                i <= actual.params@.len(),
                expected.params@.len() == actual.params@.len(),
            decreases actual.params.len() - i,
        {
            let param = &actual.params[i];
            if expected.params[i].variadic != param.variadic {
                let mut message = String::from_str("impl method `");
                message.append(actual.name.as_str());
                message.append("` parameter `");
                message.append(param.name.as_str());
                message.append("` rest modifier mismatch");
                return Err(CompileError::new(line, message));
            }
            let expected_ty = substitute_generics(&expected.params[i].ty, &inferred);
            let actual_ty = self.resolve_type(&param.ty, line)?;
            if !types_equal(&expected_ty, &actual_ty) {
                let mut message = String::from_str("impl method `");
                message.append(actual.name.as_str());
                message.append("` parameter `");
                message.append(param.name.as_str());
                message.append("` type mismatch: expected ");
                message.append(expected_ty.name().as_str());
                message.append(", found ");
                message.append(actual_ty.name().as_str());
                return Err(CompileError::new(line, message));
            }
            i += 1;
        }
        let expected_return = substitute_generics(&expected.return_type, &inferred);
        let actual_return = self.resolve_type(&actual.return_type, line)?;
        if !types_equal(&expected_return, &actual_return) {
            let mut message = String::from_str("impl method `");
            message.append(actual.name.as_str());
            message.append("` return type mismatch: expected ");
            message.append(expected_return.name().as_str());
            message.append(", found ");
            message.append(actual_return.name().as_str());
            return Err(CompileError::new(line, message));
        }
        Ok(())
    }

    /// `extern fn`: a signature without a body, with no type parameters and
    /// no defaults.
    #[verifier::loop_isolation(false)]
    pub fn define_external_function(&mut self, name: &str, type_params: &[TypeParam], params: &[Param], return_type: &Type, line: usize) -> (r: Result<(), CompileError>)
        requires
            old(self).wf(),
        ensures
            final(self).wf(),
            final(self).policy == old(self).policy,
            r matches Err(e) ==> e.line == line,
            old(self).functions.view().dom().contains(name@) ==> r is Err,
            r is Ok ==> final(self).functions.view().dom() == old(self).functions.view().dom().insert(name@),
            r is Err ==> final(self).functions.view() == old(self).functions.view(),
            final(self).bindings.view() == old(self).bindings.view(),
            final(self).types.view() == old(self).types.view(),
            final(self).variants.view() == old(self).variants.view(),
            final(self).traits.view() == old(self).traits.view(),
    {
        let key = String::from_str(name);
        if self.functions.contains_key(&key) {
            return Err(about(line, "function `", name, "` is already defined"));
        }
        if self.bindings.contains_key(&key) {
            return Err(about(line, "function `", name, "` conflicts with existing variable"));
        }
        if type_params.len() > 0 {
            return Err(fixed(line, "external functions cannot declare type parameters"));
        }
        let mut resolved: Vec<ParamSig> = Vec::new();
        let mut i: usize = 0;
        while i < params.len()
            invariant
                self.wf(),
                i <= params@.len(),
                resolved@.len() == i,
                forall|k: int| 0 <= k < i ==> (#[trigger] resolved@[k]).variadic ==> k == params@.len() - 1,
            decreases params.len() - i,
        {
            if params[i].variadic && i + 1 != params.len() {
                return Err(fixed(line, "rest parameter must be last"));
            }
            if params[i].default.is_some() {
                return Err(about(line, "external function parameter `", params[i].name.as_str(), "` cannot have a default"));
            }
            let ty = self.resolve_type(&params[i].ty, line)?;
            resolved.push(ParamSig { name: params[i].name.clone(), ty, has_default: false, variadic: params[i].variadic });
            i += 1;
        }
        let resolved_return = self.resolve_type(return_type, line)?;
        let sig = FunctionSig { type_params: Vec::new(), params: resolved, return_type: resolved_return };
        assert(crate::checker::rest_last(sig@.1));
        self.functions.insert(key, sig);
        Ok(())
    }

    /// `fn!` may only replace the constructor of a declared newtype, and
    /// takes no type parameters.
    pub fn check_constructor_override(&self, name: &str, type_params: &[TypeParam], line: usize) -> (r: Result<(), CompileError>)
        requires
            self.wf(),
        ensures
            r is Ok <==> (type_params@.len() == 0 && self.types.view().dom().contains(name@)
                && self.types.view()[name@] is Brand),
            r matches Err(e) ==> e.line == line,
    {
        if type_params.len() > 0 {
            return Err(fixed(line, "newtype constructor overrides cannot declare type parameters"));
        }
        let ty = match self.types.get(&String::from_str(name)) {
            Some(t) => t,
            None => return Err(about(line, "fn! `", name, "` can only override an existing newtype constructor")),
        };
        proof {
            lemma_type_model_tags(*ty);
        }
        if !matches!(ty, Type::Brand { .. }) {
            return Err(about(line, "fn! `", name, "` can only override a newtype constructor"));
        }
        Ok(())
    }
}

} // verus!
