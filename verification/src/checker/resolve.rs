//! Resolution of written types against the declared type names.

use vstd::prelude::*;
use vstd::string::StringExecFns;

use crate::ast::{fields_model, lemma_fields_model, lemma_types_model, type_model, types_model, Type, TypeModel};
use crate::checker::{GenericType, TypeChecker};
use crate::collections::{AssocMap, Duplicate};
use crate::error::CompileError;
use crate::text::{decimal, decimal_string, str_eq};
use crate::type_utils::{subst, substitute_generics};

verus! {

/// The declared names that resolution consults.
pub struct TypeEnv {
    pub types: Map<Seq<char>, TypeModel>,
    pub generic_types: Map<Seq<char>, (Seq<String>, TypeModel)>,
}

pub open spec fn unknown_type_message(name: Seq<char>) -> Seq<char> {
    "unknown type `"@ + name + "`"@
}

pub open spec fn arity_message(name: Seq<char>, expected: nat, found: nat) -> Seq<char> {
    "type `"@ + name + "` expects "@ + decimal(expected) + " type arguments, found "@ + decimal(found)
}

/// The map from each type parameter to the argument at its position; a later
/// parameter of the same name wins.
pub open spec fn bind_params(params: Seq<String>, args: Seq<TypeModel>) -> Map<Seq<char>, TypeModel>
    decreases params.len(),
{
    if params.len() == 0 || args.len() == 0 {
        Map::empty()
    } else {
        bind_params(params.drop_last(), args.drop_last()).insert(params.last()@, args.last())
    }
}

/// `t` with declared names replaced by their definitions and generic
/// parameters marked, or the message of the first unknown name.
pub open spec fn resolved(env: TypeEnv, generics: Set<Seq<char>>, t: TypeModel) -> Result<TypeModel, Seq<char>>
    decreases t,
{
    match t {
        TypeModel::Named(name) => if generics.contains(name) {
            Ok(TypeModel::Generic(name))
        } else if env.types.dom().contains(name) {
            Ok(env.types[name])
        } else {
            Err(unknown_type_message(name))
        },
        TypeModel::Applied(name, args) => if name == "Option"@ && args.len() == 1 {
            match resolved(env, generics, args[0]) {
                Ok(a) => Ok(TypeModel::Applied(name, seq![a])),
                Err(e) => Err(e),
            }
        } else if name == "Result"@ && args.len() == 2 {
            match resolved(env, generics, args[0]) {
                Ok(a) => match resolved(env, generics, args[1]) {
                    Ok(b) => Ok(TypeModel::Applied(name, seq![a, b])),
                    Err(e) => Err(e),
                },
                Err(e) => Err(e),
            }
        } else if !env.generic_types.dom().contains(name) {
            Err(unknown_type_message(name))
        } else if args.len() != env.generic_types[name].0.len() {
            Err(arity_message(name, env.generic_types[name].0.len(), args.len()))
        } else {
            match resolved_all(env, generics, args) {
                Ok(rs) => Ok(subst(env.generic_types[name].1, bind_params(env.generic_types[name].0, rs))),
                Err(e) => Err(e),
            }
        },
        TypeModel::Array(e) => match resolved(env, generics, *e) {
            Ok(r) => Ok(TypeModel::Array(Box::new(r))),
            Err(m) => Err(m),
        },
        TypeModel::Future(e) => match resolved(env, generics, *e) {
            Ok(r) => Ok(TypeModel::Future(Box::new(r))),
            Err(m) => Err(m),
        },
        TypeModel::Mapping(k, v) => match resolved(env, generics, *k) {
            Ok(rk) => match resolved(env, generics, *v) {
                Ok(rv) => Ok(TypeModel::Mapping(Box::new(rk), Box::new(rv))),
                Err(m) => Err(m),
            },
            Err(m) => Err(m),
        },
        TypeModel::Record(fs) => match resolved_fields(env, generics, fs) {
            Ok(r) => Ok(TypeModel::Record(r)),
            Err(m) => Err(m),
        },
        TypeModel::Tuple(es) => match resolved_all(env, generics, es) {
            Ok(r) => Ok(TypeModel::Tuple(r)),
            Err(m) => Err(m),
        },
        TypeModel::Function(ps, ret) => match resolved_all(env, generics, ps) {
            Ok(rps) => match resolved(env, generics, *ret) {
                Ok(rr) => Ok(TypeModel::Function(rps, Box::new(rr))),
                Err(m) => Err(m),
            },
            Err(m) => Err(m),
        },
        TypeModel::Union(es) => match resolved_all(env, generics, es) {
            Ok(r) => Ok(TypeModel::Union(r)),
            Err(m) => Err(m),
        },
        TypeModel::Intersection(es) => match resolved_all(env, generics, es) {
            Ok(r) => Ok(TypeModel::Intersection(r)),
            Err(m) => Err(m),
        },
        _ => Ok(t),
    }
}

pub open spec fn resolved_all(env: TypeEnv, generics: Set<Seq<char>>, ts: Seq<TypeModel>) -> Result<Seq<TypeModel>, Seq<char>>
    decreases ts,
{
    if ts.len() == 0 {
        Ok(Seq::empty())
    } else {
        match resolved_all(env, generics, ts.drop_last()) {
            Ok(prefix) => match resolved(env, generics, ts.last()) {
                Ok(r) => Ok(prefix.push(r)),
                Err(m) => Err(m),
            },
            Err(m) => Err(m),
        }
    }
}

pub open spec fn resolved_fields(env: TypeEnv, generics: Set<Seq<char>>, fs: Seq<(Seq<char>, TypeModel)>) -> Result<Seq<(Seq<char>, TypeModel)>, Seq<char>>
    decreases fs,
{
    if fs.len() == 0 {
        Ok(Seq::empty())
    } else {
        match resolved_fields(env, generics, fs.drop_last()) {
            Ok(prefix) => match resolved(env, generics, fs.last().1) {
                Ok(r) => Ok(prefix.push((fs.last().0, r))),
                Err(m) => Err(m),
            },
            Err(m) => Err(m),
        }
    }
}

impl TypeChecker {
    pub open spec fn type_env(&self) -> TypeEnv {
        TypeEnv { types: self.types.view(), generic_types: self.generic_types.view() }
    }

    fn resolve_all(&self, ts: &Vec<Type>, generics: &AssocMap<String, ()>, line: usize) -> (r: Result<Vec<Type>, CompileError>)
        requires
            self.wf(),
            generics.wf(),
        ensures
            r matches Ok(v) ==> v@.len() == ts@.len() && resolved_all(self.type_env(), generics.view().dom(), types_model(ts@)) == Ok::<Seq<TypeModel>, Seq<char>>(types_model(v@)),
            r matches Err(e) ==> e.line == line && resolved_all(self.type_env(), generics.view().dom(), types_model(ts@)) == Err::<Seq<TypeModel>, Seq<char>>(e.message@),
        decreases ts,
    {
        proof {
            lemma_types_model(ts@);
        }
        let ghost m = types_model(ts@);
        let ghost env = self.type_env();
        let ghost g = generics.view().dom();
        let mut out: Vec<Type> = Vec::new();
        let mut i: usize = 0;
        while i < ts.len()
            invariant
                self.wf(),
                generics.wf(),
                env == self.type_env(),
                g == generics.view().dom(),
                i <= ts@.len(),
                m == types_model(ts@),
                m.len() == ts@.len(),
                forall|j: int| 0 <= j < ts@.len() ==> #[trigger] m[j] == type_model(ts@[j]),
                out@.len() == i,
                resolved_all(env, g, m.take(i as int)) == Ok::<Seq<TypeModel>, Seq<char>>(types_model(out@)),
            decreases ts.len() - i,
        {
            proof {
                assert(decreases_to!(ts => ts[i as int]));
                assert(m.take(i + 1).drop_last() =~= m.take(i as int));
                lemma_types_model(out@);
            }
            let r = self.resolve_type_with_generics(&ts[i], generics, line);
            match r {
                Ok(t) => {
                    let ghost before = out@;
                    out.push(t);
                    proof {
                        lemma_types_model(out@);
                        lemma_types_model(before);
                        assert(types_model(out@) =~= types_model(before).push(type_model(out@[i as int])));
                    }
                },
                Err(e) => {
                    proof {
                        lemma_resolved_all_err(env, g, m, i as int + 1);
                    }
                    return Err(e);
                },
            }
            i += 1;
        }
        assert(m.take(ts.len() as int) =~= m);
        Ok(out)
    }

    fn resolve_fields(&self, fs: &Vec<(String, Type)>, generics: &AssocMap<String, ()>, line: usize) -> (r: Result<Vec<(String, Type)>, CompileError>)
        requires
            self.wf(),
            generics.wf(),
        ensures
            r matches Ok(v) ==> resolved_fields(self.type_env(), generics.view().dom(), fields_model(fs@)) == Ok::<Seq<(Seq<char>, TypeModel)>, Seq<char>>(fields_model(v@)),
            r matches Err(e) ==> e.line == line && resolved_fields(self.type_env(), generics.view().dom(), fields_model(fs@)) == Err::<Seq<(Seq<char>, TypeModel)>, Seq<char>>(e.message@),
        decreases fs,
    {
        proof {
            lemma_fields_model(fs@);
        }
        let ghost m = fields_model(fs@);
        let ghost env = self.type_env();
        let ghost g = generics.view().dom();
        let mut out: Vec<(String, Type)> = Vec::new();
        let mut i: usize = 0;
        while i < fs.len()
            invariant
                self.wf(),
                generics.wf(),
                env == self.type_env(),
                g == generics.view().dom(),
                i <= fs@.len(),
                m == fields_model(fs@),
                m.len() == fs@.len(),
                forall|j: int| 0 <= j < fs@.len() ==> #[trigger] m[j] == (fs@[j].0@, type_model(fs@[j].1)),
                out@.len() == i,
                resolved_fields(env, g, m.take(i as int)) == Ok::<Seq<(Seq<char>, TypeModel)>, Seq<char>>(fields_model(out@)),
            decreases fs.len() - i,
        {
            proof {
                assert(decreases_to!(fs => fs[i as int]));
                assert(decreases_to!(fs[i as int] => fs[i as int].1));
                assert(m.take(i + 1).drop_last() =~= m.take(i as int));
            }
            let r = self.resolve_type_with_generics(&fs[i].1, generics, line);
            match r {
                Ok(t) => {
                    let ghost before = out@;
                    out.push((fs[i].0.clone(), t));
                    proof {
                        lemma_fields_model(out@);
                        lemma_fields_model(before);
                        assert(fields_model(out@) =~= fields_model(before).push((fs@[i as int].0@, type_model(out@[i as int].1))));
                    }
                },
                Err(e) => {
                    proof {
                        lemma_resolved_fields_err(env, g, m, i as int + 1);
                    }
                    return Err(e);
                },
            }
            i += 1;
        }
        assert(m.take(fs.len() as int) =~= m);
        Ok(out)
    }

    /// `ty` with declared names replaced by their definitions; the names in
    /// `generics` become generic parameters.
    pub fn resolve_type_with_generics(&self, ty: &Type, generics: &AssocMap<String, ()>, line: usize) -> (r: Result<Type, CompileError>)
        requires
            self.wf(),
            generics.wf(),
        ensures
            r matches Ok(t) ==> resolved(self.type_env(), generics.view().dom(), ty@) == Ok::<TypeModel, Seq<char>>(t@),
            r matches Err(e) ==> e.line == line && resolved(self.type_env(), generics.view().dom(), ty@) == Err::<TypeModel, Seq<char>>(e.message@),
        decreases ty,
    {
        match ty {
            Type::Named(name) => {
                if generics.contains_key(name) {
                    return Ok(Type::Generic(name.clone()));
                }
                match self.types.get(name) {
                    Some(t) => Ok(t.duplicate()),
                    None => Err(CompileError::new(line, unknown_type(name.as_str()))),
                }
            },
            Type::Applied(name, args) => {
                proof {
                    lemma_types_model(args@);
                }
                if str_eq(name.as_str(), "Option") && args.len() == 1 {
                    let a = self.resolve_type_with_generics(&args[0], generics, line)?;
                    let mut v: Vec<Type> = Vec::new();
                    v.push(a);
                    proof {
                        lemma_types_model(v@);
                        assert(types_model(v@) =~= seq![type_model(v@[0])]);
                    }
                    return Ok(Type::Applied(name.clone(), v));
                }
                if str_eq(name.as_str(), "Result") && args.len() == 2 {
                    let a = self.resolve_type_with_generics(&args[0], generics, line)?;
                    let b = self.resolve_type_with_generics(&args[1], generics, line)?;
                    let mut v: Vec<Type> = Vec::new();
                    v.push(a);
                    v.push(b);
                    proof {
                        lemma_types_model(v@);
                        assert(types_model(v@) =~= seq![type_model(v@[0]), type_model(v@[1])]);
                    }
                    return Ok(Type::Applied(name.clone(), v));
                }
                let generic = match self.generic_types.get(name) {
                    Some(g) => g,
                    None => return Err(CompileError::new(line, unknown_type(name.as_str()))),
                };
                if args.len() != generic.params.len() {
                    let mut message = String::from_str("type `");
                    message.append(name.as_str());
                    message.append("` expects ");
                    message.append(decimal_string(generic.params.len()).as_str());
                    message.append(" type arguments, found ");
                    message.append(decimal_string(args.len()).as_str());
                    return Err(CompileError::new(line, message));
                }
                let resolved_args = self.resolve_all(args, generics, line)?;
                proof {
                    lemma_types_model(resolved_args@);
                }
                let mut inferred: AssocMap<String, Type> = AssocMap::new();
                let mut i: usize = 0;
                while i < args.len()
                    invariant
                        i <= args@.len(),
                        args@.len() == generic.params@.len(),
                        resolved_args@.len() == args@.len(),
                        inferred.wf(),
                        types_model(resolved_args@).len() == resolved_args@.len(),
                        forall|j: int| 0 <= j < resolved_args@.len() ==> #[trigger] types_model(resolved_args@)[j] == type_model(resolved_args@[j]),
                        inferred.view() == bind_params(generic.params@.take(i as int), types_model(resolved_args@).take(i as int)),
                    decreases args.len() - i,
                {
                    proof {
                        assert(generic.params@.take(i + 1).drop_last() =~= generic.params@.take(i as int));
                        assert(types_model(resolved_args@).take(i + 1).drop_last() =~= types_model(resolved_args@).take(i as int));
                    }
                    inferred.insert(generic.params[i].clone(), resolved_args[i].duplicate());
                    i += 1;
                }
                proof {
                    assert(generic.params@.take(args@.len() as int) =~= generic.params@);
                    assert(types_model(resolved_args@).take(args@.len() as int) =~= types_model(resolved_args@));
                }
                Ok(substitute_generics(&generic.body, &inferred))
            },
            Type::Array(element) => {
                let e = self.resolve_type_with_generics(element, generics, line)?;
                Ok(Type::Array(Box::new(e)))
            },
            Type::Future(value) => {
                let e = self.resolve_type_with_generics(value, generics, line)?;
                Ok(Type::Future(Box::new(e)))
            },
            Type::Mapping(key, value) => {
                let k = self.resolve_type_with_generics(key, generics, line)?;
                let v = self.resolve_type_with_generics(value, generics, line)?;
                Ok(Type::Mapping(Box::new(k), Box::new(v)))
            },
            Type::Record(fields) => {
                let r = self.resolve_fields(fields, generics, line)?;
                Ok(Type::Record(r))
            },
            Type::Tuple(elements) => {
                let r = self.resolve_all(elements, generics, line)?;
                Ok(Type::Tuple(r))
            },
            Type::Function(params, return_type) => {
                let ps = self.resolve_all(params, generics, line)?;
                let r = self.resolve_type_with_generics(return_type, generics, line)?;
                Ok(Type::Function(ps, Box::new(r)))
            },
            Type::Union(types) => {
                let r = self.resolve_all(types, generics, line)?;
                Ok(Type::Union(r))
            },
            Type::Intersection(types) => {
                let r = self.resolve_all(types, generics, line)?;
                Ok(Type::Intersection(r))
            },
            _ => Ok(ty.duplicate()),
        }
    }

    /// `ty` with declared names replaced by their definitions.
    pub fn resolve_type(&self, ty: &Type, line: usize) -> (r: Result<Type, CompileError>)
        requires
            self.wf(),
        ensures
            r matches Ok(t) ==> resolved(self.type_env(), Set::empty(), ty@) == Ok::<TypeModel, Seq<char>>(t@),
            r matches Err(e) ==> e.line == line && resolved(self.type_env(), Set::empty(), ty@) == Err::<TypeModel, Seq<char>>(e.message@),
    {
        let none: AssocMap<String, ()> = AssocMap::new();
        assert(none.view().dom() =~= Set::<Seq<char>>::empty());
        self.resolve_type_with_generics(ty, &none, line)
    }
}

fn unknown_type(name: &str) -> (r: String)
    ensures
        r@ == unknown_type_message(name@),
{
    let mut message = String::from_str("unknown type `");
    message.append(name);
    message.append("`");
    message
}

proof fn lemma_resolved_all_err(env: TypeEnv, g: Set<Seq<char>>, m: Seq<TypeModel>, n: int)
    requires
        0 < n <= m.len(),
        resolved_all(env, g, m.take(n)) is Err,
    ensures
        resolved_all(env, g, m) == resolved_all(env, g, m.take(n)),
    decreases m.len() - n,
{
    if n < m.len() {
        assert(m.take(n + 1).drop_last() =~= m.take(n));
        lemma_resolved_all_err(env, g, m, n + 1);
    } else {
        assert(m.take(n) =~= m);
    }
}

proof fn lemma_resolved_fields_err(env: TypeEnv, g: Set<Seq<char>>, m: Seq<(Seq<char>, TypeModel)>, n: int)
    requires
        0 < n <= m.len(),
        resolved_fields(env, g, m.take(n)) is Err,
    ensures
        resolved_fields(env, g, m) == resolved_fields(env, g, m.take(n)),
    decreases m.len() - n,
{
    if n < m.len() {
        assert(m.take(n + 1).drop_last() =~= m.take(n));
        lemma_resolved_fields_err(env, g, m, n + 1);
    } else {
        assert(m.take(n) =~= m);
    }
}

} // verus!
