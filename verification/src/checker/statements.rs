//! Statements and programs: declarations take effect in order, nested
//! blocks get their own scope, and every error names a statement's line.

use vstd::prelude::*;
use vstd::string::StringExecFns;

use crate::ast::{display_name, lemma_type_model_tags, AssignTarget, BindingPattern, Expr, ForBinding, ImplMethod, Param, Program, Statement, Type, TypeModel, TypeParam};
use crate::checker::declarations::{generic_name_set, type_param_names};
use crate::checker::messages::{about, about_type, about_types, fixed};
use crate::checker::relations::{assignable, byte_literal, find_field};
use crate::checker::{duplicate_all, views_of, FunctionSig, ParamSig, TraitSig, TypeChecker};
use crate::collections::{AssocMap, Duplicate};
use crate::error::CompileError;
use crate::names::{backend_function_name, impl_method_name};
use crate::checker::exprs::denied_by;
use crate::checker::inspected::contains_denied;
use crate::policy::{ExecutionPolicy, PolicyModel};
use crate::text::{decimal_string, str_eq};
use crate::type_utils::result_types;
use crate::validation::{program_flow, unsafe_execution_error};

verus! {

/// The source lines of a program's statements and of every statement
/// nested in them.
pub open spec fn program_lines(p: Program) -> Set<usize>
    decreases p, 3nat,
{
    proof {
        assert(decreases_to!(p => p.statements));
        assert(decreases_to!(p.statements => p.statements@));
    }
    p.lines@.to_set().union(statements_lines(p.statements@))
}

/// The lines nested in a sequence of statements.
pub open spec fn statements_lines(s: Seq<Statement>) -> Set<usize>
    decreases s, 2nat,
{
    if s.len() == 0 {
        Set::empty()
    } else {
        proof {
            assert(decreases_to!(s => s[s.len() - 1]));
        }
        statements_lines(s.drop_last()).union(statement_lines(s[s.len() - 1]))
    }
}

/// The lines nested in one statement: those of its blocks and bodies.
pub open spec fn statement_lines(st: Statement) -> Set<usize>
    decreases st, 1nat,
{
    match st {
        Statement::Block { body } => program_lines(body),
        Statement::While { body, .. } => program_lines(body),
        Statement::For { body, .. } => program_lines(body),
        Statement::Function { body, .. } => program_lines(body),
        Statement::If { then_branch, else_branch, .. } => program_lines(then_branch).union(
            match else_branch {
                Some(e) => program_lines(e),
                None => Set::empty(),
            },
        ),
        Statement::Impl { methods, .. } => {
            proof {
                assert(decreases_to!(methods => methods@));
            }
            methods_lines(methods@)
        },
        Statement::Export(inner) => statement_lines(*inner),
        Statement::Defer(inner) => statement_lines(*inner),
        _ => Set::empty(),
    }
}

/// The lines of the bodies of trait implementation methods.
pub open spec fn methods_lines(ms: Seq<ImplMethod>) -> Set<usize>
    decreases ms, 2nat,
{
    if ms.len() == 0 {
        Set::empty()
    } else {
        proof {
            assert(decreases_to!(ms => ms[ms.len() - 1]));
        }
        methods_lines(ms.drop_last()).union(program_lines(ms[ms.len() - 1].body))
    }
}

/// Each statement's nested lines are among those of the sequence.
pub proof fn lemma_statement_lines_in(s: Seq<Statement>, i: int)
    requires
        0 <= i < s.len(),
    ensures
        statement_lines(s[i]).subset_of(statements_lines(s)),
    decreases s.len(),
{
    if i < s.len() - 1 {
        lemma_statement_lines_in(s.drop_last(), i);
        assert(s.drop_last()[i] == s[i]);
    }
}

/// Each method body's lines are among those of the methods.
pub proof fn lemma_method_lines_in(ms: Seq<ImplMethod>, i: int)
    requires
        0 <= i < ms.len(),
    ensures
        program_lines(ms[i].body).subset_of(methods_lines(ms)),
    decreases ms.len(),
{
    if i < ms.len() - 1 {
        lemma_method_lines_in(ms.drop_last(), i);
        assert(ms.drop_last()[i] == ms[i]);
    }
}

fn is_unit(t: &Type) -> (r: bool)
    ensures
        r == (t@ == TypeModel::Unit),
{
    proof {
        lemma_type_model_tags(*t);
    }
    matches!(t, Type::Unit)
}

/// A trait method: its name, its parameters and its return type.
pub type MethodModel = (Seq<char>, Seq<(Seq<char>, TypeModel, bool, bool)>, TypeModel);

/// Some method of the trait has the name.
pub open spec fn declared_by(trait_methods: Seq<MethodModel>, name: Seq<char>) -> bool {
    exists|m: int| 0 <= m < trait_methods.len() && #[trigger] trait_methods[m].0 == name
}

/// Some method of the impl has the name.
pub open spec fn implemented_in(methods: Seq<ImplMethod>, name: Seq<char>) -> bool {
    exists|i: int| 0 <= i < methods.len() && #[trigger] methods[i].name@ == name
}

/// An impl defines each method of its trait exactly once, and nothing else.
pub open spec fn implements_exactly(trait_methods: Seq<MethodModel>, methods: Seq<ImplMethod>) -> bool {
    &&& forall|a: int, b: int| 0 <= a < b < methods.len() ==> #[trigger] methods[a].name@ != #[trigger] methods[b].name@
    &&& forall|a: int| 0 <= a < methods.len() ==> declared_by(trait_methods, #[trigger] methods[a].name@)
    &&& forall|b: int| 0 <= b < trait_methods.len() ==> implemented_in(methods, #[trigger] trait_methods[b].0)
}

/// A statement that runs shell code, whatever the policy.
pub open spec fn shell_statement(st: Statement) -> bool {
    st is Command || st is TryCommand || st is TryCommandResult || st is TryPipeline || st is TryPipelineResult
        || st is Redirect || st is Require || st is RequireOneOf || st is Raw
}

/// A statement that the policy forbids outright: shell code, or a statement
/// whose expression holds a part the policy forbids (with `checked`, an
/// `expr?` statement too, which is then checked).
pub open spec fn statement_denied(policy: PolicyModel, st: Statement, checked: bool) -> bool {
    ||| shell_statement(st)
    ||| st matches Statement::TryResult(e) && checked && contains_denied(policy, e)
    ||| st matches Statement::Expr(e) && contains_denied(policy, e)
    ||| st matches Statement::Const { expr, .. } && contains_denied(policy, expr)
    ||| st matches Statement::Let { expr, .. } && contains_denied(policy, expr)
    ||| st matches Statement::Return(e) && contains_denied(policy, e)
    ||| st matches Statement::Destructure { expr, .. } && contains_denied(policy, expr)
    ||| st matches Statement::Assign { expr, .. } && contains_denied(policy, expr)
    ||| st matches Statement::If { condition, .. } && contains_denied(policy, condition)
    ||| st matches Statement::While { condition, .. } && contains_denied(policy, condition)
    ||| st matches Statement::For { iterable, .. } && contains_denied(policy, iterable)
}

/// How many statements of a program are checked: those that have a line.
pub open spec fn checked_len(program: Program) -> int {
    if program.statements@.len() < program.lines@.len() {
        program.statements@.len() as int
    } else {
        program.lines@.len() as int
    }
}

/// Some statement of the program that has a line is, or holds at any depth,
/// one that the policy forbids outright.
pub open spec fn program_denied(policy: PolicyModel, p: Program, checked: bool) -> bool
    decreases p, 3nat,
{
    proof {
        assert(decreases_to!(p => p.statements));
        assert(decreases_to!(p.statements => p.statements@));
    }
    statements_denied(policy, p.statements@, checked_len(p), checked)
}

/// Among the first `n` statements, one is or holds a forbidden statement.
pub open spec fn statements_denied(policy: PolicyModel, s: Seq<Statement>, n: int, checked: bool) -> bool
    decreases s, 2nat,
{
    if s.len() == 0 {
        false
    } else {
        proof {
            assert(decreases_to!(s => s[s.len() - 1]));
        }
        statements_denied(policy, s.drop_last(), n, checked) || (s.len() - 1 < n && statement_denied_deep(policy, s[s.len() - 1], checked))
    }
}

/// The statement, or one in its blocks and bodies, is forbidden outright.
pub open spec fn statement_denied_deep(policy: PolicyModel, st: Statement, checked: bool) -> bool
    decreases st, 1nat,
{
    statement_denied(policy, st, checked) || match st {
        Statement::Block { body } => program_denied(policy, body, checked),
        Statement::While { body, .. } => program_denied(policy, body, checked),
        Statement::For { body, .. } => program_denied(policy, body, checked),
        Statement::Function { body, .. } => program_denied(policy, body, checked),
        Statement::If { then_branch, else_branch, .. } => program_denied(policy, then_branch, checked) || match else_branch {
            Some(e) => program_denied(policy, e, checked),
            None => false,
        },
        Statement::Impl { methods, .. } => {
            proof {
                assert(decreases_to!(methods => methods@));
            }
            methods_denied(policy, methods@, checked)
        },
        Statement::Export(inner) => statement_denied_deep(policy, *inner, checked),
        Statement::Defer(inner) => statement_denied_deep(policy, *inner, checked),
        _ => false,
    }
}

/// The body of one of the methods holds a forbidden statement.
pub open spec fn methods_denied(policy: PolicyModel, ms: Seq<ImplMethod>, checked: bool) -> bool
    decreases ms, 2nat,
{
    if ms.len() == 0 {
        false
    } else {
        proof {
            assert(decreases_to!(ms => ms[ms.len() - 1]));
        }
        methods_denied(policy, ms.drop_last(), checked) || program_denied(policy, ms[ms.len() - 1].body, checked)
    }
}

/// `statements_denied` names one statement.
pub proof fn lemma_statements_denied(policy: PolicyModel, s: Seq<Statement>, n: int, checked: bool)
    ensures
        statements_denied(policy, s, n, checked) <==> exists|j: int| 0 <= j < s.len() && j < n && statement_denied_deep(
            policy,
            #[trigger] s[j],
            checked,
        ),
    decreases s.len(),
{
    if s.len() > 0 {
        lemma_statements_denied(policy, s.drop_last(), n, checked);
        if statements_denied(policy, s.drop_last(), n, checked) {
            let j = choose|j: int| 0 <= j < s.drop_last().len() && j < n && statement_denied_deep(policy, #[trigger] s.drop_last()[j], checked);
            assert(s[j] == s.drop_last()[j]);
        }
        if exists|j: int| 0 <= j < s.len() && j < n && statement_denied_deep(policy, #[trigger] s[j], checked) {
            let j = choose|j: int| 0 <= j < s.len() && j < n && statement_denied_deep(policy, #[trigger] s[j], checked);
            if j < s.len() - 1 {
                assert(s.drop_last()[j] == s[j]);
            }
        }
    }
}

/// `methods_denied` names one method.
pub proof fn lemma_methods_denied(policy: PolicyModel, ms: Seq<ImplMethod>, checked: bool)
    ensures
        methods_denied(policy, ms, checked) <==> exists|j: int| 0 <= j < ms.len() && program_denied(policy, #[trigger] ms[j].body, checked),
    decreases ms.len(),
{
    if ms.len() > 0 {
        lemma_methods_denied(policy, ms.drop_last(), checked);
        if methods_denied(policy, ms.drop_last(), checked) {
            let j = choose|j: int| 0 <= j < ms.drop_last().len() && program_denied(policy, #[trigger] ms.drop_last()[j].body, checked);
            assert(ms[j] == ms.drop_last()[j]);
        }
        if exists|j: int| 0 <= j < ms.len() && program_denied(policy, #[trigger] ms[j].body, checked) {
            let j = choose|j: int| 0 <= j < ms.len() && program_denied(policy, #[trigger] ms[j].body, checked);
            if j < ms.len() - 1 {
                assert(ms.drop_last()[j] == ms[j]);
            }
        }
    }
}

/// The name a `const` or `let` statement declares, unless it is `_`.
pub open spec fn declared_name(st: Statement) -> Option<Seq<char>> {
    match st {
        Statement::Const { name, .. } | Statement::Let { name, .. } => if name@ == "_"@ {
            None
        } else {
            Some(name@)
        },
        _ => None,
    }
}

/// Two `const` or `let` statements of the program, among those that have a
/// line, declare the same name.
pub open spec fn redeclares(program: Program) -> bool {
    exists|i: int, j: int|
        0 <= i < j < checked_len(program) && #[trigger] declared_name(program.statements@[i]) is Some
            && declared_name(program.statements@[i]) == #[trigger] declared_name(program.statements@[j])
}

/// A binding statement that checks declares a name that was not in scope
/// (`_` declares nothing), with the given mutability.
pub open spec fn declares(before: TypeChecker, after: TypeChecker, name: Seq<char>, mutable: bool) -> bool {
    if name == "_"@ {
        after.bindings.view() == before.bindings.view()
    } else {
        &&& !before.bindings.view().dom().contains(name)
        &&& after.bindings.view().dom() == before.bindings.view().dom().insert(name)
        &&& after.bindings.view()[name].1 == mutable
    }
}

/// `destructuring requires ...` when the source is not a literal or a name.
pub fn ensure_destructurable_source(expr: &Expr, line: usize) -> (r: Result<(), CompileError>)
    ensures
        r is Ok <==> (expr is Array || expr is Tuple || expr is Record || expr is Ident || expr is ProcessArgs),
        r matches Err(e) ==> e.line == line && e.message@ == "destructuring requires an array, tuple, or record literal or variable"@,
{
    match expr {
        Expr::Array(_) | Expr::Tuple(_) | Expr::Record(_) | Expr::Ident(_) | Expr::ProcessArgs => Ok(()),
        _ => Err(fixed(line, "destructuring requires an array, tuple, or record literal or variable")),
    }
}

impl TypeChecker {
    /// Binds the names of a destructuring pattern to the parts of a value of
    /// type `ty`; nested patterns destructure the parts in turn.
    pub fn define_destructure(&mut self, pattern: &BindingPattern, ty: &Type, mutable: bool, line: usize) -> (r: Result<(), CompileError>)
        requires
            old(self).wf(),
        ensures
            final(self).wf(),
            final(self).policy == old(self).policy,
            final(self).same_declarations(old(self)),
            old(self).bindings.view().dom().subset_of(final(self).bindings.view().dom()),
            forall|k: Seq<char>| #[trigger] old(self).bindings.view().dom().contains(k) ==> final(self).bindings.view()[k]
                == old(self).bindings.view()[k],
            r matches Err(e) ==> e.line == line,
            r is Ok ==> final(self).bindings.view().dom() == old(self).bindings.view().dom().union(bound_names(*pattern)),
            r is Ok ==> forall|n: Seq<char>| #[trigger] bound_names(*pattern).contains(n) ==> !old(self).bindings.view().dom().contains(n)
                && final(self).bindings.view()[n].1 == mutable,
            pattern matches BindingPattern::Name(n) ==> (n@ != "_"@ ==> (r is Ok <==> !old(self).bindings.view().dom().contains(n@))),
            pattern matches BindingPattern::Name(n) ==> (r is Ok && n@ != "_"@ ==> final(self).bindings.view()[n@] == (ty@, mutable)),
            pattern is Array && !(ty@ is Array) ==> r is Err,
            pattern is Tuple && !(ty@ is Tuple) ==> r is Err,
            pattern is Record && !(ty@ is Record) ==> r is Err,
            pattern matches BindingPattern::Tuple(ps) ==> (ty@ matches TypeModel::Tuple(es) && ps@.len() != es.len() ==> r is Err),
        decreases pattern,
    {
        proof {
            lemma_type_model_tags(*ty);
        }
        let ghost start = self.bindings.view();
        match pattern {
            BindingPattern::Name(name) => {
                let r = self.define(name.as_str(), ty.duplicate(), mutable, line);
                proof {
                    if name@ == "_"@ {
                        assert(bound_names(*pattern) =~= Set::<Seq<char>>::empty());
                    } else {
                        assert(bound_names(*pattern) =~= set![name@]);
                    }
                }
                r
            },
            BindingPattern::Array { patterns, rest } => {
                let element = match ty {
                    Type::Array(element) => element,
                    other => return Err(about_type(line, "array destructuring requires array value, found ", other, "")),
                };
                assert(decreases_to!(*pattern => *patterns));
                assert(decreases_to!(*patterns => patterns@));
                proof {
                    assert(patterns_names(patterns@.take(0)).remove("_"@) =~= Set::<Seq<char>>::empty());
                    assert(self.bindings.view().dom() =~= start.dom().union(Set::<Seq<char>>::empty()));
                }
                let mut i: usize = 0;
                while i < patterns.len()
                    invariant
                        self.wf(),
                        decreases_to!(*pattern => patterns@),
                        self.same_declarations(old(self)),
                        start == old(self).bindings.view(),
                        !(*pattern is Name),
                        i <= patterns@.len(),
                        forall|k: Seq<char>| #[trigger] start.dom().contains(k) ==> self.bindings.view()[k] == start[k],
                        self.bindings.view().dom() == start.dom().union(patterns_names(patterns@.take(i as int)).remove("_"@)),
                        forall|n: Seq<char>| #[trigger] patterns_names(patterns@.take(i as int)).remove("_"@).contains(n)
                            ==> !start.dom().contains(n) && self.bindings.view()[n].1 == mutable,
                    decreases patterns.len() - i,
                {
                    assert(decreases_to!(patterns@ => patterns@[i as int]));
                    let ghost mid = self.bindings.view();
                    proof {
                        assert forall|k: Seq<char>| #[trigger] start.dom().contains(k) implies mid.dom().contains(k) && mid[k] == start[k] by {}
                    }
                    self.define_destructure(&patterns[i], element, mutable, line)?;
                    proof {
                        lemma_patterns_names_step(patterns@, i as int);
                        assert(self.bindings.view().dom() =~= start.dom().union(patterns_names(patterns@.take(i + 1)).remove("_"@)));
                        assert forall|n: Seq<char>| #[trigger] patterns_names(patterns@.take(i + 1)).remove("_"@).contains(n) implies !start.dom().contains(n)
                            && self.bindings.view()[n].1 == mutable by {
                            if patterns_names(patterns@.take(i as int)).remove("_"@).contains(n) {
                                assert(mid.dom().contains(n));
                            }
                        }
                    }
                    i += 1;
                }
                proof {
                    assert(patterns@.take(patterns@.len() as int) =~= patterns@);
                }
                let ghost mid = self.bindings.view();
                let r = match rest {
                    Some(rest) => self.define(rest.as_str(), Type::Array(Box::new(element.duplicate())), mutable, line),
                    None => Ok(()),
                };
                proof {
                    let rest_set = match rest {
                        Some(r) => set![r@],
                        None => Set::<Seq<char>>::empty(),
                    };
                    assert(bound_names(*pattern) =~= patterns_names(patterns@).remove("_"@).union(rest_set.remove("_"@)));
                    if r is Ok {
                        assert(self.bindings.view().dom() =~= mid.dom().union(rest_set.remove("_"@)));
                        assert(self.bindings.view().dom() =~= start.dom().union(bound_names(*pattern)));
                    }
                }
                r
            },
            BindingPattern::Tuple(patterns) => {
                let elements = match ty {
                    Type::Tuple(elements) => elements,
                    other => return Err(about_type(line, "tuple destructuring requires tuple value, found ", other, "")),
                };
                proof {
                    crate::ast::lemma_types_model(elements@);
                }
                if patterns.len() != elements.len() {
                    let mut message = String::from_str("tuple destructuring expected ");
                    message.append(decimal_string(patterns.len()).as_str());
                    message.append(" values, found ");
                    message.append(decimal_string(elements.len()).as_str());
                    return Err(CompileError::new(line, message));
                }
                assert(decreases_to!(*pattern => *patterns));
                assert(decreases_to!(*patterns => patterns@));
                proof {
                    assert(patterns_names(patterns@.take(0)).remove("_"@) =~= Set::<Seq<char>>::empty());
                    assert(self.bindings.view().dom() =~= start.dom().union(Set::<Seq<char>>::empty()));
                }
                let mut i: usize = 0;
                while i < patterns.len()
                    invariant
                        self.wf(),
                        decreases_to!(*pattern => patterns@),
                        self.same_declarations(old(self)),
                        start == old(self).bindings.view(),
                        !(*pattern is Name),
                        i <= patterns@.len(),
                        patterns@.len() == elements@.len(),
                        forall|k: Seq<char>| #[trigger] start.dom().contains(k) ==> self.bindings.view()[k] == start[k],
                        self.bindings.view().dom() == start.dom().union(patterns_names(patterns@.take(i as int)).remove("_"@)),
                        forall|n: Seq<char>| #[trigger] patterns_names(patterns@.take(i as int)).remove("_"@).contains(n)
                            ==> !start.dom().contains(n) && self.bindings.view()[n].1 == mutable,
                    decreases patterns.len() - i,
                {
                    assert(decreases_to!(patterns@ => patterns@[i as int]));
                    let ghost mid = self.bindings.view();
                    proof {
                        assert forall|k: Seq<char>| #[trigger] start.dom().contains(k) implies mid.dom().contains(k) && mid[k] == start[k] by {}
                    }
                    self.define_destructure(&patterns[i], &elements[i], mutable, line)?;
                    proof {
                        lemma_patterns_names_step(patterns@, i as int);
                        assert(self.bindings.view().dom() =~= start.dom().union(patterns_names(patterns@.take(i + 1)).remove("_"@)));
                        assert forall|n: Seq<char>| #[trigger] patterns_names(patterns@.take(i + 1)).remove("_"@).contains(n) implies !start.dom().contains(n)
                            && self.bindings.view()[n].1 == mutable by {
                            if patterns_names(patterns@.take(i as int)).remove("_"@).contains(n) {
                                assert(mid.dom().contains(n));
                            }
                        }
                    }
                    i += 1;
                }
                proof {
                    assert(patterns@.take(patterns@.len() as int) =~= patterns@);
                }
                Ok(())
            },
            BindingPattern::Record(bindings) => {
                let fields = match ty {
                    Type::Record(fields) => fields,
                    other => return Err(about_type(line, "record destructuring requires record value, found ", other, "")),
                };
                assert(decreases_to!(*pattern => *bindings));
                assert(decreases_to!(*bindings => bindings@));
                proof {
                    assert(field_patterns_names(bindings@.take(0)).remove("_"@) =~= Set::<Seq<char>>::empty());
                    assert(self.bindings.view().dom() =~= start.dom().union(Set::<Seq<char>>::empty()));
                }
                let mut i: usize = 0;
                while i < bindings.len()
                    invariant
                        self.wf(),
                        decreases_to!(*pattern => bindings@),
                        self.same_declarations(old(self)),
                        start == old(self).bindings.view(),
                        !(*pattern is Name),
                        i <= bindings@.len(),
                        forall|k: Seq<char>| #[trigger] start.dom().contains(k) ==> self.bindings.view()[k] == start[k],
                        self.bindings.view().dom() == start.dom().union(field_patterns_names(bindings@.take(i as int)).remove("_"@)),
                        forall|n: Seq<char>| #[trigger] field_patterns_names(bindings@.take(i as int)).remove("_"@).contains(n)
                            ==> !start.dom().contains(n) && self.bindings.view()[n].1 == mutable,
                    decreases bindings.len() - i,
                {
                    let k = match find_field(fields, bindings[i].0.as_str()) {
                        Some(k) => k,
                        None => return Err(about(line, "record destructuring field `", bindings[i].0.as_str(), "` is missing")),
                    };
                    assert(decreases_to!(bindings@ => bindings@[i as int]));
                    assert(decreases_to!(bindings@[i as int] => bindings@[i as int].1));
                    let ghost mid = self.bindings.view();
                    proof {
                        assert forall|k: Seq<char>| #[trigger] start.dom().contains(k) implies mid.dom().contains(k) && mid[k] == start[k] by {}
                    }
                    self.define_destructure(&bindings[i].1, &fields[k].1, mutable, line)?;
                    proof {
                        lemma_field_patterns_names_step(bindings@, i as int);
                        assert(self.bindings.view().dom() =~= start.dom().union(field_patterns_names(bindings@.take(i + 1)).remove("_"@)));
                        assert forall|n: Seq<char>| #[trigger] field_patterns_names(bindings@.take(i + 1)).remove("_"@).contains(n) implies !start.dom().contains(n)
                            && self.bindings.view()[n].1 == mutable by {
                            if field_patterns_names(bindings@.take(i as int)).remove("_"@).contains(n) {
                                assert(mid.dom().contains(n));
                            }
                        }
                    }
                    i += 1;
                }
                proof {
                    assert(bindings@.take(bindings@.len() as int) =~= bindings@);
                }
                Ok(())
            },
        }
    }

    /// `name = expr`: the variable must be declared with `let`, and the value
    /// must fit its type; `_ = expr` only checks the value.
    pub fn check_assignment(&self, name: &str, expr: &Expr, line: usize) -> (r: Result<(), CompileError>)
        requires
            self.wf(),
        ensures
            self.forbids(*expr) ==> r is Err,
            r matches Err(e) ==> e.line == line,
            name@ != "_"@ && self.lookup(name@) is None ==> (r matches Err(e) && e.message@ == "cannot assign to undefined variable `"@ + name@ + "`"@),
            r is Ok && name@ != "_"@ ==> (self.lookup(name@) matches Some((_, mutable)) && mutable),
            crate::checker::outcomes::assign_outcome(self.decls(), self.bindings.view(), name@, *expr) matches Some(o)
                ==> crate::checker::outcomes::unit_agrees(r, o),
    {
        if str_eq(name, "_") {
            self.check_expr(expr, line)?;
            return Ok(());
        }
        let binding = match self.lookup_binding(name) {
            Some(b) => b,
            None => return Err(about(line, "cannot assign to undefined variable `", name, "`")),
        };
        let expr_ty = self.check_expr_expected(expr, &binding.ty, line)?;
        if !binding.mutable {
            return Err(about(line, "cannot assign to const `", name, "`"));
        }
        if !self.is_assignable(&binding.ty, &expr_ty, expr) {
            let mut message = String::from_str("type mismatch for `");
            message.append(name);
            message.append("`: expected ");
            message.append(binding.ty.name().as_str());
            message.append(", found ");
            message.append(expr_ty.name().as_str());
            return Err(CompileError::new(line, message));
        }
        Ok(())
    }

    /// The type of an expression in return position: a value that fits the
    /// success of the expected Result counts as the whole Result.
    pub fn return_expr_type(&self, expr: &Expr, expected: &Type, line: usize) -> (r: Result<Type, CompileError>)
        requires
            self.wf(),
        ensures
            r matches Err(e) ==> e.line == line,
            crate::checker::exprs::form_type(*expr) matches Some(ty) ==> (r matches Ok(t) ==> t@ == return_type_of(
                expected@,
                ty,
                crate::checker::relations::byte_literal(*expr),
            )),
            self.forbids(*expr) ==> r is Err,
    {
        let actual = self.check_expr(expr, line)?;
        match result_types(expected) {
            Some((ok, _)) => {
                if self.is_assignable(ok, &actual, expr) {
                    return Ok(expected.duplicate());
                }
            },
            None => {},
        }
        Ok(actual)
    }

    /// Whether a last statement returns a value of the expected type
    /// without `return`.
    pub fn statement_is_implicit_return(&self, statement: &Statement, expected: &Type, line: usize) -> (r: Result<bool, CompileError>)
        requires
            self.wf(),
        ensures
            r matches Err(e) ==> e.line == line,
            expected@ == TypeModel::Unit ==> r == Ok::<bool, CompileError>(false),
            implicit_return_owed(expected@, *statement) ==> r is Ok,
            implicit_return_value(expected@, *statement) matches Some(b) ==> (r matches Ok(x) ==> x == b),
            expected@ != TypeModel::Unit && (statement matches Statement::Expr(e) && self.forbids(*e)) ==> r is Err,
    {
        if is_unit(expected) {
            return Ok(false);
        }
        match statement {
            Statement::Command(_) => Ok(result_types(expected).is_some()),
            Statement::Expr(expr) => {
                let actual = self.return_expr_type(expr, expected, line)?;
                Ok(self.is_assignable(expected, &actual, expr))
            },
            _ => Ok(false),
        }
    }

    /// Whether a function body returns on every path, or ends with a
    /// statement that returns a value implicitly.
    pub fn program_has_return_or_implicit(&self, program: &Program, expected: &Type, line: usize) -> (r: Result<bool, CompileError>)
        requires
            self.wf(),
        ensures
            r matches Err(e) ==> e.line == line || program.lines@.contains(e.line),
            always_returns(*program) ==> r == Ok::<bool, CompileError>(true),
            !always_returns(*program) && program.statements@.len() == 0 ==> r == Ok::<bool, CompileError>(false),
            !always_returns(*program) && program.statements@.len() > 0 ==> (
                implicit_return_owed(expected@, program.statements@.last()) ==> r is Ok),
            !always_returns(*program) && program.statements@.len() > 0 ==> (implicit_return_value(
                expected@,
                program.statements@.last(),
            ) matches Some(b) ==> (r matches Ok(x) ==> x == b)),
    {
        if program_flow(program).always_returns() {
            return Ok(true);
        }
        let n = program.statements.len();
        if n == 0 {
            return Ok(false);
        }
        let statement_line = if program.lines.len() > 0 { program.lines[program.lines.len() - 1] } else { line };
        assert(program.lines.len() > 0 ==> program.lines@.contains(statement_line)) by {
            if program.lines.len() > 0 {
                assert(program.lines@[program.lines@.len() - 1] == statement_line);
            }
        }
        self.statement_is_implicit_return(&program.statements[n - 1], expected, statement_line)
    }

}

/// Every path through the program ends in `return`.
pub open spec fn always_returns(program: Program) -> bool {
    let f = crate::validation::block_flow(program);
    !f.falls_through && f.may_return && !f.breaks && !f.continues
}

/// The type a value has in return position: the whole expected Result when
/// it fits that Result's success type, its own type otherwise.
pub open spec fn return_type_of(expected: TypeModel, actual: TypeModel, byte: bool) -> TypeModel {
    match crate::type_utils::result_parts(expected) {
        Some((ok, _)) => if assignable(ok, actual, byte) { expected } else { actual },
        None => actual,
    }
}

/// Whether a last statement surely answers whether it returns a value
/// implicitly: a `Unit` function, a command, or a statement that is no
/// expression.
pub open spec fn implicit_return_owed(expected: TypeModel, st: Statement) -> bool {
    expected == TypeModel::Unit || !(st is Expr)
}

/// The answer about a last statement, where it is known from the statement
/// and the expected type alone.
pub open spec fn implicit_return_value(expected: TypeModel, st: Statement) -> Option<bool> {
    if expected == TypeModel::Unit {
        Some(false)
    } else {
        match st {
            Statement::Command(_) => Some(crate::type_utils::result_parts(expected) is Some),
            Statement::Expr(e) => match crate::checker::exprs::form_type(e) {
                Some(ty) => Some(assignable(expected, return_type_of(expected, ty, byte_literal(e)), byte_literal(e))),
                None => None,
            },
            _ => Some(false),
        }
    }
}

impl TypeChecker {
    /// A function declaration: its name is new, its type parameters' bounds
    /// are declared traits, defaults come after required parameters and fit
    /// their types, and a body that must return a value does so.
    #[verifier::loop_isolation(false)]
    pub fn check_function(&mut self, name: &str, override_constructor: bool, type_params: &[TypeParam], params: &[Param], return_type: &Type, body: &Program, line: usize, try_checked: bool) -> (r: Result<(), CompileError>)
        requires
            old(self).wf(),
        ensures
            final(self).wf(),
            final(self).policy == old(self).policy,
            r matches Err(e) ==> e.line == line || program_lines(*body).contains(e.line),
            old(self).functions.view().dom().contains(name@) ==> (r matches Err(e) && e.message@ == "function `"@ + name@ + "` is already defined"@),
            final(self).bindings.view() == old(self).bindings.view(),
            final(self).types.view() == old(self).types.view(),
            final(self).traits.view() == old(self).traits.view(),
            final(self).variants.view() == old(self).variants.view(),
            program_denied(old(self).policy.model(), *body, try_checked) ==> r is Err,
            r is Ok ==> final(self).functions.view().dom() == old(self).functions.view().dom().insert(name@),
            r is Ok ==> final(self).functions.view()[name@].1.len() == params@.len(),
            r is Ok ==> (final(self).functions.view()[name@].2 == TypeModel::Unit || always_returns(*body) || (
                body.statements@.len() > 0 && implicit_return_value(final(self).functions.view()[name@].2, body.statements@.last())
                    != Some(false))),
        decreases body, 6nat,
    {
        let key = String::from_str(name);
        if self.functions.contains_key(&key) {
            return Err(about(line, "function `", name, "` is already defined"));
        }
        let backend_name = backend_function_name(name);
        let mut f: usize = 0;
        while f < self.functions.len()
            invariant
                self.wf(),
            decreases self.functions.key_seq().len() - f,
        {
            let existing = self.functions.key_at(f);
            if str_eq(backend_function_name(existing.as_str()).as_str(), backend_name.as_str()) {
                let mut message = String::from_str("function `");
                message.append(name);
                message.append("` conflicts with `");
                message.append(existing.as_str());
                message.append("` after Bash name mangling");
                return Err(CompileError::new(line, message));
            }
            f += 1;
        }
        if self.bindings.contains_key(&key) {
            return Err(about(line, "function `", name, "` conflicts with existing variable"));
        }
        if override_constructor {
            self.check_constructor_override(name, type_params, line)?;
        } else if self.types.contains_key(&key) {
            return Err(about(line, "function `", name, "` conflicts with existing type; use `fn!` to override its constructor"));
        }
        let generics = generic_name_set(type_param_names(type_params).as_slice());
        let mut t: usize = 0;
        while t < type_params.len()
            invariant
                self.wf(),
                t <= type_params@.len(),
            decreases type_params.len() - t,
        {
            let mut b: usize = 0;
            while b < type_params[t].bounds.len()
                invariant
                    self.wf(),
                    t < type_params@.len(),
                    b <= type_params@[t as int].bounds@.len(),
                decreases type_params@[t as int].bounds@.len() - b,
            {
                if !self.traits.contains_key(&type_params[t].bounds[b]) {
                    return Err(about(line, "unknown trait `", type_params[t].bounds[b].as_str(), "` in generic bound"));
                }
                b += 1;
            }
            t += 1;
        }
        let mut resolved: Vec<ParamSig> = Vec::new();
        let mut saw_default = false;
        let mut i: usize = 0;
        while i < params.len()
            invariant
                self.wf(),
                generics.wf(),
                i <= params@.len(),
                resolved@.len() == i,
                forall|k: int| 0 <= k < i ==> (#[trigger] resolved@[k]).variadic ==> k == params@.len() - 1,
            decreases params.len() - i,
        {
            let param = &params[i];
            if param.variadic {
                if i + 1 != params.len() {
                    return Err(fixed(line, "rest parameter must be last"));
                }
                if param.default.is_some() {
                    return Err(fixed(line, "rest parameter cannot have a default"));
                }
                if saw_default {
                    return Err(fixed(line, "rest parameters cannot follow default parameters"));
                }
            }
            if param.default.is_some() {
                saw_default = true;
            } else if saw_default {
                return Err(fixed(line, "required function parameters cannot follow default parameters"));
            }
            let ty = self.resolve_type_with_generics(&param.ty, &generics, line)?;
            if let Some(default) = &param.default {
                let default_ty = self.check_expr(default, line)?;
                if !self.is_assignable(&ty, &default_ty, default) {
                    let mut message = String::from_str("default for parameter `");
                    message.append(param.name.as_str());
                    message.append("`: expected ");
                    message.append(ty.name().as_str());
                    message.append(", found ");
                    message.append(default_ty.name().as_str());
                    return Err(CompileError::new(line, message));
                }
            }
            resolved.push(ParamSig { name: param.name.clone(), ty, has_default: param.default.is_some(), variadic: param.variadic });
            i += 1;
        }
        let resolved_return = self.resolve_type_with_generics(return_type, &generics, line)?;
        let sig = FunctionSig {
            type_params: duplicate_all(type_params),
            params: duplicate_all(&resolved),
            return_type: resolved_return.duplicate(),
        };
        proof {
            assert(views_of(sig.params@).len() == resolved@.len());
            assert(crate::checker::rest_last(sig@.1));
        }
        self.functions.insert(key, sig);
        if override_constructor {
            self.constructor_overrides.insert(String::from_str(name), ());
        }
        let mut body_checker = self.scope();
        body_checker.expected_return = Some(resolved_return.duplicate());
        let mut p: usize = 0;
        while p < resolved.len()
            invariant
                body_checker.wf(),
                body_checker.policy.model() == old(self).policy.model(),
                p <= resolved@.len(),
            decreases resolved.len() - p,
        {
            body_checker.define(resolved[p].name.as_str(), resolved[p].ty.duplicate(), false, line)?;
            p += 1;
        }
        if !is_unit(&resolved_return) && !body_checker.program_has_return_or_implicit(body, &resolved_return, line)? {
            let mut message = String::from_str("function `");
            message.append(name);
            message.append("` must return ");
            message.append(resolved_return.name().as_str());
            return Err(CompileError::new(line, message));
        }
        body_checker.check_block(body, try_checked)
    }
}


impl TypeChecker {
    /// `if c { ... } else { ... }`: each branch is checked in its own scope.
    fn check_if(&self, condition: &Expr, then_branch: &Program, else_branch: Option<&Program>, line: usize, try_checked: bool, Ghost(owner): Ghost<Statement>) -> (r: Result<(), CompileError>)
        requires
            self.wf(),
            decreases_to!(owner => *then_branch),
            else_branch matches Some(e) ==> decreases_to!(owner => *e),
        ensures
            self.forbids(*condition) ==> r is Err,
            r matches Err(e) ==> e.line == line || program_lines(*then_branch).contains(e.line)
                || (else_branch matches Some(b) && program_lines(*b).contains(e.line)),
            program_denied(self.policy.model(), *then_branch, try_checked) ==> r is Err,
            crate::checker::exprs::form_type(*condition) matches Some(t) ==> (t != TypeModel::Bool ==> r is Err),
            else_branch matches Some(b) ==> (program_denied(self.policy.model(), *b, try_checked) ==> r is Err),
        decreases owner, 3nat,
    {
        self.check_condition(condition, line)?;
        let mut then_checker = self.scope();
        then_checker.check_block(then_branch, try_checked)?;
        match else_branch {
            Some(branch) => {
                let mut else_checker = self.scope();
                else_checker.check_block(branch, try_checked)
            },
            None => Ok(()),
        }
    }

    /// `while c { ... }`: the body is checked in its own scope.
    fn check_while(&self, condition: &Expr, body: &Program, line: usize, try_checked: bool) -> (r: Result<(), CompileError>)
        requires
            self.wf(),
        ensures
            self.forbids(*condition) ==> r is Err,
            r matches Err(e) ==> e.line == line || program_lines(*body).contains(e.line),
            program_denied(self.policy.model(), *body, try_checked) ==> r is Err,
            crate::checker::exprs::form_type(*condition) matches Some(t) ==> (t != TypeModel::Bool ==> r is Err),
        decreases body, 6nat,
    {
        self.check_condition(condition, line)?;
        let mut body_checker = self.scope();
        body_checker.check_block(body, try_checked)
    }

    /// `for x in xs { ... }`: the iterable must be an array, and the body
    /// sees the loop variable bound to its element type.
    fn check_for(&self, binding: &ForBinding, iterable: &Expr, body: &Program, line: usize, try_checked: bool) -> (r: Result<(), CompileError>)
        requires
            self.wf(),
        ensures
            self.forbids(*iterable) ==> r is Err,
            r matches Err(e) ==> e.line == line || program_lines(*body).contains(e.line),
            program_denied(self.policy.model(), *body, try_checked) ==> r is Err,
            crate::checker::exprs::form_type(*iterable) matches Some(t) ==> (!(t is Array) ==> r is Err),
        decreases body, 6nat,
    {
        let iterable_ty = self.check_expr(iterable, line)?;
        let element = match iterable_ty {
            Type::Array(element) => element,
            other => return Err(about_type(line, "for loop iterable must be Array, found ", &other, "")),
        };
        let mut body_checker = self.scope();
        match binding {
            ForBinding::Name(name) => body_checker.define(name.as_str(), *element, false, line)?,
            ForBinding::Pattern(pattern) => body_checker.define_destructure(pattern, &element, false, line)?,
        }
        body_checker.check_block(body, try_checked)
    }

    /// `impl Trait[T]`: the trait must be declared and not yet implemented
    /// for the type.
    pub fn define_trait_impl(&mut self, trait_name: &str, for_type: &Type, methods: &[ImplMethod], line: usize, try_checked: bool) -> (r: Result<(), CompileError>)
        requires
            old(self).wf(),
        ensures
            final(self).wf(),
            final(self).policy == old(self).policy,
            r matches Err(e) ==> e.line == line || methods_lines(methods@).contains(e.line),
            !old(self).traits.view().dom().contains(trait_name@) ==> (r matches Err(e) && e.message@ == "unknown trait `"@ + trait_name@ + "`"@),
            r is Ok ==> old(self).traits.view().dom().contains(trait_name@) && implements_exactly(old(self).traits.view()[trait_name@].1, methods@),
            methods_denied(old(self).policy.model(), methods@, try_checked) ==> r is Err,
            final(self).bindings.view() == old(self).bindings.view(),
        decreases methods@, 6nat,
    {
        let trait_sig = match self.traits.get(&String::from_str(trait_name)) {
            Some(sig) => sig.duplicate(),
            None => return Err(about(line, "unknown trait `", trait_name, "`")),
        };
        let resolved = self.resolve_type(for_type, line)?;
        let key = (String::from_str(trait_name), resolved.name());
        if self.trait_impls.contains_key(&key) {
            let mut message = String::from_str("trait `");
            message.append(trait_name);
            message.append("` is already implemented for ");
            message.append(resolved.name().as_str());
            return Err(CompileError::new(line, message));
        }
        self.trait_impls.insert(key, ());
        self.check_impl_methods(trait_name, &trait_sig, &resolved, methods, line, try_checked)
    }

    /// The methods of an implementation: each is declared by the trait with
    /// a matching signature, none is missing, and each body is checked as a
    /// function under its generated name.
    #[verifier::loop_isolation(false)]
    pub fn check_impl_methods(&mut self, trait_name: &str, trait_sig: &TraitSig, for_type: &Type, methods: &[ImplMethod], line: usize, try_checked: bool) -> (r: Result<(), CompileError>)
        requires
            old(self).wf(),
        ensures
            final(self).wf(),
            final(self).policy == old(self).policy,
            r matches Err(e) ==> e.line == line || methods_lines(methods@).contains(e.line),
            r is Ok ==> implements_exactly(trait_sig@.1, methods@),
            methods_denied(old(self).policy.model(), methods@, try_checked) ==> r is Err,
            final(self).bindings.view() == old(self).bindings.view(),
            final(self).traits.view() == old(self).traits.view(),
            final(self).types.view() == old(self).types.view(),
            final(self).variants.view() == old(self).variants.view(),
        decreases methods@, 5nat,
    {
        let mut i: usize = 0;
        while i < methods.len()
            invariant
                self.wf(),
                i <= methods@.len(),
                forall|a: int, b: int| 0 <= a < b < i ==> #[trigger] methods@[a].name@ != #[trigger] methods@[b].name@,
                forall|a: int| 0 <= a < i ==> declared_by(trait_sig@.1, #[trigger] methods@[a].name@),
            decreases methods.len() - i,
        {
            let method = &methods[i];
            let mut k: usize = 0;
            while k < i
                invariant
                    k <= i,
                    i < methods@.len(),
                    forall|a: int| 0 <= a < k ==> #[trigger] methods@[a].name@ != methods@[i as int].name@,
                decreases i - k,
            {
                if str_eq(methods[k].name.as_str(), method.name.as_str()) {
                    return Err(about(line, "impl method `", method.name.as_str(), "` is already defined"));
                }
                k += 1;
            }
            let mut found: Option<usize> = None;
            let mut m: usize = 0;
            while m < trait_sig.methods.len()
                invariant
                    m <= trait_sig.methods@.len(),
                    found matches Some(x) ==> x < trait_sig.methods@.len() && trait_sig.methods@[x as int].name@ == method.name@,
                    found is None ==> forall|b: int| 0 <= b < m ==> #[trigger] trait_sig.methods@[b].name@ != method.name@,
                decreases trait_sig.methods.len() - m,
            {
                if found.is_none() && str_eq(trait_sig.methods[m].name.as_str(), method.name.as_str()) {
                    found = Some(m);
                }
                m += 1;
            }
            let expected = match found {
                Some(x) => {
                    assert(trait_sig@.1[x as int].0 == methods@[i as int].name@);
                    &trait_sig.methods[x]
                },
                None => {
                    let mut message = String::from_str("impl method `");
                    message.append(method.name.as_str());
                    message.append("` is not declared by trait `");
                    message.append(trait_name);
                    message.append("`");
                    return Err(CompileError::new(line, message));
                },
            };
            self.check_impl_method_signature(expected, method, trait_sig.type_param.as_str(), for_type, line)?;
            i += 1;
        }
        assert(forall|a: int| 0 <= a < methods@.len() ==> declared_by(trait_sig@.1, #[trigger] methods@[a].name@));
        let mut e: usize = 0;
        while e < trait_sig.methods.len()
            invariant
                self.wf(),
                e <= trait_sig.methods@.len(),
                forall|b: int| 0 <= b < e ==> implemented_in(methods@, #[trigger] trait_sig@.1[b].0),
            decreases trait_sig.methods.len() - e,
        {
            let mut present = false;
            let mut k: usize = 0;
            while k < methods.len()
                invariant
                    k <= methods@.len(),
                    e < trait_sig.methods@.len(),
                    present ==> implemented_in(methods@, trait_sig@.1[e as int].0),
                decreases methods.len() - k,
            {
                if str_eq(methods[k].name.as_str(), trait_sig.methods[e].name.as_str()) {
                    present = true;
                }
                k += 1;
            }
            if !present {
                let mut message = String::from_str("impl for trait `");
                message.append(trait_name);
                message.append("` is missing method `");
                message.append(trait_sig.methods[e].name.as_str());
                message.append("`");
                return Err(CompileError::new(line, message));
            }
            e += 1;
        }
        let mut j: usize = 0;
        while j < methods.len()
            invariant
                self.wf(),
                self.policy == old(self).policy,
                self.bindings.view() == old(self).bindings.view(),
                self.traits.view() == old(self).traits.view(),
                self.types.view() == old(self).types.view(),
                self.variants.view() == old(self).variants.view(),
                j <= methods@.len(),
                forall|k: int| 0 <= k < j ==> !program_denied(old(self).policy.model(), #[trigger] methods@[k].body, try_checked),
            decreases methods.len() - j,
        {
            let method = &methods[j];
            let lowered = impl_method_name(trait_name, for_type, method.name.as_str());
            let key = (method.name.clone(), for_type.name());
            let mut entries: Vec<(String, String)> = match self.method_impls.get(&key) {
                Some(existing) => existing.duplicate(),
                None => Vec::new(),
            };
            entries.push((String::from_str(trait_name), lowered.clone()));
            self.method_impls.insert(key, entries);
            assert(decreases_to!(methods@ => methods@[j as int]));
            assert(decreases_to!(methods@[j as int] => methods@[j as int].body));
            let no_type_params: Vec<TypeParam> = Vec::new();
            match self.check_function(lowered.as_str(), false, no_type_params.as_slice(), method.params.as_slice(), &method.return_type, &method.body, line, try_checked) {
                Ok(()) => {},
                Err(err) => {
                    proof {
                        lemma_method_lines_in(methods@, j as int);
                    }
                    return Err(err);
                },
            }
            j += 1;
        }
        proof {
            lemma_methods_denied(old(self).policy.model(), methods@, try_checked);
        }
        Ok(())
    }

    /// `const` and `let`: a lambda needs an annotation; the value's type
    /// must fit the annotation, which becomes the variable's type.
    fn check_binding(&mut self, name: &str, annotation: Option<&Type>, expr: &Expr, mutable: bool, line: usize) -> (r: Result<(), CompileError>)
        requires
            old(self).wf(),
        ensures
            old(self).forbids(*expr) ==> r is Err,
            final(self).wf(),
            final(self).same_declarations(old(self)),
            r matches Err(e) ==> e.line == line,
            r is Ok ==> final(self).bindings.view().dom() == old(self).bindings.view().dom().insert(name@)
                || (name@ == "_"@ && final(self).bindings.view() == old(self).bindings.view()),
            r is Ok && name@ != "_"@ ==> final(self).bindings.view()[name@].1 == mutable,
            r is Ok ==> !old(self).bindings.view().dom().contains(name@) || name@ == "_"@,
            r is Ok ==> declares(*old(self), *final(self), name@, mutable),
            denied_by(old(self).policy.model(), *expr) ==> r is Err,
            old(self).bindings.view().dom().subset_of(final(self).bindings.view().dom()),
            crate::checker::outcomes::binding_outcome(old(self).decls(), old(self).bindings.view(), name@, match annotation {
                Some(a) => Some(a@),
                None => None,
            }, *expr, mutable) matches Some((o, nb)) ==> crate::checker::outcomes::unit_agrees(r, o) && (r is Ok
                ==> final(self).bindings.view() == nb),
    {
        let expected = match annotation {
            Some(t) => Some(self.resolve_type(t, line)?),
            None => None,
        };
        let ty = if matches!(expr, Expr::Lambda { .. }) {
            match &expected {
                Some(e) => self.check_expr_expected(expr, e, line)?,
                None => return Err(fixed(line, "lambda type cannot be inferred; provide a function type annotation or pass it to a typed function parameter")),
            }
        } else {
            self.binding_expr_type(annotation, expr, line)?
        };
        let binding_ty = self.check_annotation(annotation, ty, expr, line)?;
        self.define(name, binding_ty, mutable, line)
    }

    /// A statement used as an expression: `push`, `pop`, `set` and `remove`
    /// change a variable; anything else is checked as an expression.
    fn check_expr_statement(&self, expr: &Expr, line: usize) -> (r: Result<(), CompileError>)
        requires
            self.wf(),
        ensures
            self.forbids(*expr) ==> r is Err,
            !(expr is ArrayPush || expr is ArrayPop || expr is MapSet || expr is MapRemove) ==> (
            crate::checker::outcomes::expr_outcome(self.decls(), self.bindings.view(), *expr) matches Some(o) ==> match o {
                Ok(_) => r is Ok,
                Err(m) => r matches Err(e) && e.message@ == m,
            }),
            r matches Err(e) ==> e.line == line,
            denied_by(self.policy.model(), *expr) ==> r is Err,
    {
        match expr {
            Expr::ArrayPush { name, value } => {
                self.check_array_push(name.as_str(), value, line)?;
                Ok(())
            },
            Expr::ArrayPop { name } => {
                self.check_array_pop(name.as_str(), line)?;
                Ok(())
            },
            Expr::MapSet { name, key, value } => {
                if !self.is_qualified_function_call(name.as_str(), "set") {
                    self.check_map_set(name.as_str(), key, value, line, Ghost(*expr))?;
                } else {
                    self.check_expr(expr, line)?;
                }
                Ok(())
            },
            Expr::MapRemove { name, key } => {
                if !self.is_qualified_function_call(name.as_str(), "remove") {
                    self.check_map_remove(name.as_str(), key, line)?;
                } else {
                    self.check_expr(expr, line)?;
                }
                Ok(())
            },
            _ => {
                self.check_expr(expr, line)?;
                Ok(())
            },
        }
    }

    /// One statement at the given line.
    pub fn check_statement(&mut self, statement: &Statement, line: usize, try_checked: bool) -> (r: Result<(), CompileError>)
        requires
            old(self).wf(),
        ensures
            final(self).wf(),
            final(self).policy == old(self).policy,
            r matches Err(e) ==> e.line == line || statement_lines(*statement).contains(e.line),
            (statement is Command || statement is TryCommand || statement is TryCommandResult || statement is TryPipeline
                || statement is TryPipelineResult || statement is Redirect || statement is Require || statement is RequireOneOf
                || statement is Raw) ==> (r matches Err(e) && e.message@ == crate::validation::unsafe_execution_message()),
            (statement is Use || statement is Break || statement is Continue) ==> r is Ok,
            statement is InherentImpl ==> (r matches Err(e) && e.message@ == "inherent impl blocks are not supported by the checker"@),
            statement matches Statement::Assign { target, .. } ==> (!(target is Name) ==> (r matches Err(e)
                && e.message@ == "assignment target is not supported by the checker"@)),
            statement matches Statement::Assign { target: AssignTarget::Name(n), .. } ==> (r is Ok && n@ != "_"@
                ==> (old(self).lookup(n@) matches Some((_, mutable)) && mutable)),
            statement matches Statement::Impl { trait_name, methods, .. } ==> (r is Ok ==> old(self).traits.view().dom().contains(
                trait_name@,
            ) && implements_exactly(old(self).traits.view()[trait_name@].1, methods@)),
            statement_denied_deep(old(self).policy.model(), *statement, try_checked) ==> r is Err,
            old(self).bindings.view().dom().subset_of(final(self).bindings.view().dom()),
            statement matches Statement::If { condition, .. } ==> (crate::checker::exprs::form_type(*condition) matches Some(t) ==> (t
                != TypeModel::Bool ==> r is Err)),
            statement matches Statement::While { condition, .. } ==> (crate::checker::exprs::form_type(*condition) matches Some(t) ==> (t
                != TypeModel::Bool ==> r is Err)),
            statement matches Statement::For { iterable, .. } ==> (crate::checker::exprs::form_type(*iterable) matches Some(t) ==> (
            !(t is Array) ==> r is Err)),
            !(statement is Const || statement is Let || statement is Destructure || statement is Export || statement is Defer)
                ==> final(self).bindings.view() == old(self).bindings.view(),
            statement matches Statement::Function { name, params, .. } ==> (r is Ok ==> final(self).functions.view().dom()
                == old(self).functions.view().dom().insert(name@) && final(self).functions.view()[name@].1.len()
                == params@.len()),
            statement matches Statement::Function { name, .. } ==> (old(self).functions.view().dom().contains(name@)
                ==> (r matches Err(e) && e.message@ == "function `"@ + name@ + "` is already defined"@)),
            statement matches Statement::Const { name, .. } ==> (r is Ok ==> declares(*old(self), *final(self), name@, false)),
            statement matches Statement::Let { name, .. } ==> (r is Ok ==> declares(*old(self), *final(self), name@, true)),
            crate::checker::outcomes::stmt_outcome(old(self).decls(), old(self).bindings.view(), *statement) matches Some((o, nb)) ==> (
            crate::checker::outcomes::unit_agrees(r, o) && (r matches Err(e) ==> e.line == line) && (r is Ok
                ==> final(self).bindings.view() == nb) && final(self).decls() == old(self).decls()),
        decreases statement, 4nat,
    {
        let saved = self.binds_nested_tries;
        self.binds_nested_tries = try_checked && matches!(
            statement,
            Statement::Const { .. } | Statement::Let { .. } | Statement::Return(_) | Statement::Destructure { .. }
                | Statement::Assign { .. } | Statement::Expr(_) | Statement::If { .. } | Statement::For { .. }
        );
        let r = match statement {
            Statement::Use { .. } => Ok(()),
            Statement::Export(inner) => self.check_statement(inner, line, try_checked),
            Statement::Defer(inner) => self.check_statement(inner, line, try_checked),
            Statement::Trait { name, type_param, methods } =>
                self.define_trait(name.as_str(), type_param.as_str(), methods.as_slice(), line),
            Statement::Impl { trait_name, for_type, methods } => {
                assert(decreases_to!(*statement => *methods));
                assert(decreases_to!(*methods => methods@));
                self.define_trait_impl(trait_name.as_str(), for_type, methods.as_slice(), line, try_checked)
            },
            Statement::InherentImpl { .. } => Err(fixed(line, "inherent impl blocks are not supported by the checker")),
            Statement::TypeAlias { name, type_params, ty } =>
                self.define_type_alias(name.as_str(), type_params.as_slice(), ty, line),
            Statement::SumType { name, variants, .. } => self.define_sum_type(name.as_str(), variants.as_slice(), line),
            Statement::Newtype { name, base, .. } => self.define_newtype(name.as_str(), base, line),
            Statement::Function { name, override_constructor, type_params, params, return_type, body } =>
                self.check_function(name.as_str(), *override_constructor, type_params.as_slice(), params.as_slice(), return_type, body, line, try_checked),
            Statement::ExternalFunction { name, type_params, params, return_type } =>
                self.define_external_function(name.as_str(), type_params.as_slice(), params.as_slice(), return_type, line),
            Statement::Const { name, annotation, expr } => self.check_binding(name.as_str(), annotation.as_ref(), expr, false, line),
            Statement::Let { name, annotation, expr } => self.check_binding(name.as_str(), annotation.as_ref(), expr, true, line),
            Statement::Destructure { mutable, pattern, expr } => match self.check_expr(expr, line) {
                Ok(ty) => match self.define_destructure(pattern, &ty, *mutable, line) {
                    Ok(()) => ensure_destructurable_source(expr, line),
                    Err(e) => Err(e),
                },
                Err(e) => Err(e),
            },
            Statement::Assign { target, expr } => match target {
                AssignTarget::Name(name) => self.check_assignment(name.as_str(), expr, line),
                _ => Err(fixed(line, "assignment target is not supported by the checker")),
            },
            Statement::Expr(expr) => self.check_expr_statement(expr, line),
            Statement::TryResult(expr) => {
                if try_checked {
                    self.check_try_result(expr, line)?;
                }
                Ok(())
            },
            Statement::TryCommand(_)
            | Statement::TryCommandResult(_)
            | Statement::TryPipeline { .. }
            | Statement::TryPipelineResult { .. }
            | Statement::Command(_)
            | Statement::Redirect { .. }
            | Statement::Require { .. }
            | Statement::RequireOneOf { .. }
            | Statement::Raw(_) => Err(unsafe_execution_error(line)),
            Statement::Break | Statement::Continue => Ok(()),
            Statement::Return(expr) => self.check_return(expr, line),
            Statement::Block { body } => {
                let mut body_checker = self.scope();
                body_checker.check_block(body, try_checked)
            },
            Statement::If { condition, then_branch, else_branch } =>
                self.check_if(condition, then_branch, else_branch.as_ref(), line, try_checked, Ghost(*statement)),
            Statement::While { condition, body } => self.check_while(condition, body, line, try_checked),
            Statement::For { binding, iterable, body } => self.check_for(binding, iterable, body, line, try_checked),
        };
        self.binds_nested_tries = saved;
        r
    }

    /// The statements of a program in order, each at its line; the first
    /// error stops the check. `expr?` statements are not checked here.
    pub fn check_program(&mut self, program: &Program) -> (r: Result<(), CompileError>)
        requires
            old(self).wf(),
        ensures
            final(self).wf(),
            final(self).policy == old(self).policy,
            r matches Err(e) ==> program_lines(*program).contains(e.line),
            program.statements@.len() == 0 ==> r is Ok,
            program_denied(old(self).policy.model(), *program, false) ==> r is Err,
            redeclares(*program) ==> r is Err,
            crate::checker::outcomes::block_from(old(self).decls(), old(self).bindings.view(), program.statements@, program.lines@, 0,
                checked_len(*program)) matches Some(o) ==> crate::checker::outcomes::block_agrees(r, o),
    {
        self.check_block(program, false)
    }

    /// The statements of a program in order; with `try_checked`, each
    /// `expr?` statement must also sit in a function that returns a Result
    /// with a compatible error, as the lowering pass of `type_check` demands.
    pub fn check_block(&mut self, program: &Program, try_checked: bool) -> (r: Result<(), CompileError>)
        requires
            old(self).wf(),
        ensures
            final(self).wf(),
            final(self).policy == old(self).policy,
            r matches Err(e) ==> program_lines(*program).contains(e.line),
            program.statements@.len() == 0 ==> r is Ok,
            program_denied(old(self).policy.model(), *program, try_checked) ==> r is Err,
            redeclares(*program) ==> r is Err,
            crate::checker::outcomes::block_from(old(self).decls(), old(self).bindings.view(), program.statements@, program.lines@, 0,
                checked_len(*program)) matches Some(o) ==> crate::checker::outcomes::block_agrees(r, o),
        decreases program, 5nat,
    {
        let n = if program.statements.len() < program.lines.len() { program.statements.len() } else { program.lines.len() };
        let mut i: usize = 0;
        while i < n
            invariant
                self.wf(),
                self.policy == old(self).policy,
                i <= n,
                n <= program.statements@.len(),
                n <= program.lines@.len(),
                n == checked_len(*program),
                forall|j: int| 0 <= j < i ==> !statement_denied_deep(old(self).policy.model(), #[trigger] program.statements@[j], try_checked),
                forall|j: int| 0 <= j < i ==> (#[trigger] declared_name(program.statements@[j]) matches Some(n)
                    ==> self.bindings.view().dom().contains(n)),
                forall|a: int, b: int| 0 <= a < b < i ==> !(#[trigger] declared_name(program.statements@[a]) is Some
                    && declared_name(program.statements@[a]) == #[trigger] declared_name(program.statements@[b])),
                crate::checker::outcomes::block_from(old(self).decls(), old(self).bindings.view(), program.statements@, program.lines@, 0,
                    n as int) is Some ==> (self.decls() == old(self).decls() && crate::checker::outcomes::block_from(
                    old(self).decls(),
                    self.bindings.view(),
                    program.statements@,
                    program.lines@,
                    i as int,
                    n as int,
                ) == crate::checker::outcomes::block_from(old(self).decls(), old(self).bindings.view(), program.statements@, program.lines@, 0,
                    n as int)),
            decreases n - i,
        {
            assert(decreases_to!(*program => program.statements));
            assert(decreases_to!(program.statements => program.statements@));
            assert(decreases_to!(program.statements@ => program.statements@[i as int]));
            let line = program.lines[i];
            match self.check_statement(&program.statements[i], line, try_checked) {
                Ok(()) => {},
                Err(err) => {
                    proof {
                        lemma_statement_lines_in(program.statements@, i as int);
                        assert(program.lines@[i as int] == line);
                        assert(program.lines@.to_set().contains(line));
                    }
                    return Err(err);
                },
            }
            i += 1;
        }
        proof {
            lemma_statements_denied(old(self).policy.model(), program.statements@, checked_len(*program), try_checked);
        }
        Ok(())
    }
}

/// Checks a program under the policy that allows nothing.
pub fn type_check(program: &Program) -> (r: Result<(), CompileError>)
    ensures
        r matches Err(e) ==> program_lines(*program).contains(e.line),
        program.statements@.len() == 0 ==> r is Ok,
        program_denied(crate::policy::deny_all_model(), *program, true) ==> r is Err,
        redeclares(*program) ==> r is Err,
        crate::checker::outcomes::block_from(crate::checker::outcomes::initial_decls(), Map::empty(), program.statements@,
            program.lines@, 0, checked_len(*program)) matches Some(o) ==> crate::checker::outcomes::block_agrees(r, o),
{
    let policy = ExecutionPolicy::deny_all();
    assert(policy.model() =~= crate::policy::deny_all_model());
    type_check_with_policy(program, &policy)
}

/// Checks a program under the given execution policy. On a program of plain
/// statements the outcome does not depend on the policy.
pub fn type_check_with_policy(program: &Program, policy: &ExecutionPolicy) -> (r: Result<(), CompileError>)
    ensures
        r matches Err(e) ==> program_lines(*program).contains(e.line),
        program.statements@.len() == 0 ==> r is Ok,
        program_denied(policy.model(), *program, true) ==> r is Err,
        redeclares(*program) ==> r is Err,
        crate::checker::outcomes::block_from(crate::checker::outcomes::initial_decls(), Map::empty(), program.statements@,
            program.lines@, 0, checked_len(*program)) matches Some(o) ==> crate::checker::outcomes::block_agrees(r, o),
{
    let mut checker = TypeChecker::with_policy(policy.duplicate());
    assert(checker.decls() == crate::checker::outcomes::initial_decls()) by {
        assert(checker.type_env() =~= crate::checker::outcomes::initial_decls().env);
    }
    checker.check_block(program, true)
}


/// The names of one more sub-pattern join those of the ones before it.
pub proof fn lemma_patterns_names_step(ps: Seq<BindingPattern>, i: int)
    requires
        0 <= i < ps.len(),
    ensures
        patterns_names(ps.take(i + 1)).remove("_"@) == patterns_names(ps.take(i)).remove("_"@).union(bound_names(ps[i])),
{
    assert(ps.take(i + 1).drop_last() =~= ps.take(i));
    assert(ps.take(i + 1)[i] == ps[i]);
    assert(patterns_names(ps.take(i + 1)).remove("_"@) =~= patterns_names(ps.take(i)).remove("_"@).union(bound_names(ps[i])));
}

/// The names of one more field pattern join those of the ones before it.
pub proof fn lemma_field_patterns_names_step(fs: Seq<(String, BindingPattern)>, i: int)
    requires
        0 <= i < fs.len(),
    ensures
        field_patterns_names(fs.take(i + 1)).remove("_"@) == field_patterns_names(fs.take(i)).remove("_"@).union(bound_names(fs[i].1)),
{
    assert(fs.take(i + 1).drop_last() =~= fs.take(i));
    assert(fs.take(i + 1)[i] == fs[i]);
    assert(field_patterns_names(fs.take(i + 1)).remove("_"@) =~= field_patterns_names(fs.take(i)).remove("_"@).union(bound_names(fs[i].1)));
}

/// The names that a destructuring pattern binds; `_` binds nothing.
pub open spec fn bound_names(p: BindingPattern) -> Set<Seq<char>> {
    pattern_names(p).remove("_"@)
}

/// The names that a destructuring pattern binds.
pub open spec fn pattern_names(p: BindingPattern) -> Set<Seq<char>>
    decreases p, 0nat,
{
    match p {
        BindingPattern::Name(n) => set![n@],
        BindingPattern::Tuple(ps) => {
            proof {
                assert(decreases_to!(ps => ps@));
            }
            patterns_names(ps@)
        },
        BindingPattern::Array { patterns, rest } => {
            proof {
                assert(decreases_to!(patterns => patterns@));
            }
            patterns_names(patterns@).union(match rest {
                Some(r) => set![r@],
                None => Set::empty(),
            })
        },
        BindingPattern::Record(fields) => {
            proof {
                assert(decreases_to!(fields => fields@));
            }
            field_patterns_names(fields@)
        },
    }
}

pub open spec fn patterns_names(ps: Seq<BindingPattern>) -> Set<Seq<char>>
    decreases ps, 1nat,
{
    if ps.len() == 0 {
        Set::empty()
    } else {
        proof {
            assert(decreases_to!(ps => ps[ps.len() - 1]));
        }
        patterns_names(ps.drop_last()).union(pattern_names(ps[ps.len() - 1]))
    }
}

pub open spec fn field_patterns_names(fs: Seq<(String, BindingPattern)>) -> Set<Seq<char>>
    decreases fs, 1nat,
{
    if fs.len() == 0 {
        Set::empty()
    } else {
        proof {
            assert(decreases_to!(fs => fs[fs.len() - 1]));
        }
        field_patterns_names(fs.drop_last()).union(pattern_names(fs[fs.len() - 1].1))
    }
}

/// The names of parameters.
pub open spec fn param_names(ps: Seq<Param>) -> Set<Seq<char>> {
    Set::new(|n: Seq<char>| exists|i: int| 0 <= i < ps.len() && (#[trigger] ps[i]).name@ == n)
}

/// Every name a program declares: functions and their parameters, trait
/// methods and theirs, constants, variables and destructured names, at any
/// depth of nesting.
pub open spec fn declared_names(p: Program) -> Set<Seq<char>>
    decreases p, 4nat,
{
    proof {
        assert(decreases_to!(p => p.statements));
        assert(decreases_to!(p.statements => p.statements@));
    }
    statements_declared(p.statements@)
}

pub open spec fn statements_declared(s: Seq<Statement>) -> Set<Seq<char>>
    decreases s, 3nat,
{
    if s.len() == 0 {
        Set::empty()
    } else {
        proof {
            assert(decreases_to!(s => s[s.len() - 1]));
        }
        statements_declared(s.drop_last()).union(statement_declared(s[s.len() - 1]))
    }
}

pub open spec fn statement_declared(st: Statement) -> Set<Seq<char>>
    decreases st, 2nat,
{
    match st {
        Statement::Function { name, params, body, .. } => set![name@].union(param_names(params@)).union(declared_names(body)),
        Statement::ExternalFunction { name, params, .. } => set![name@].union(param_names(params@)),
        Statement::Impl { methods, .. } => {
            proof {
                assert(decreases_to!(methods => methods@));
            }
            methods_declared(methods@)
        },
        Statement::Const { name, .. } | Statement::Let { name, .. } => set![name@],
        Statement::Destructure { pattern, .. } => pattern_names(pattern),
        Statement::Block { body } | Statement::While { body, .. } => declared_names(body),
        Statement::If { then_branch, else_branch, .. } => declared_names(then_branch).union(match else_branch {
            Some(e) => declared_names(e),
            None => Set::empty(),
        }),
        Statement::For { binding, body, .. } => match binding {
            ForBinding::Name(n) => set![n@].union(declared_names(body)),
            ForBinding::Pattern(p) => pattern_names(p).union(declared_names(body)),
        },
        _ => Set::empty(),
    }
}

pub open spec fn methods_declared(ms: Seq<ImplMethod>) -> Set<Seq<char>>
    decreases ms, 3nat,
{
    if ms.len() == 0 {
        Set::empty()
    } else {
        proof {
            assert(decreases_to!(ms => ms[ms.len() - 1]));
        }
        let m = ms[ms.len() - 1];
        methods_declared(ms.drop_last()).union(set![m.name@]).union(param_names(m.params@)).union(declared_names(m.body))
    }
}

fn add_name(names: &mut AssocMap<String, ()>, name: &String)
    requires
        old(names).wf(),
    ensures
        final(names).wf(),
        final(names).view().dom() == old(names).view().dom().insert(name@),
{
    names.insert(name.clone(), ());
}

fn add_param_names(names: &mut AssocMap<String, ()>, params: &Vec<Param>)
    requires
        old(names).wf(),
    ensures
        final(names).wf(),
        final(names).view().dom() == old(names).view().dom().union(param_names(params@)),
{
    let mut i: usize = 0;
    while i < params.len()
        invariant
            names.wf(),
            i <= params@.len(),
            names.view().dom() == old(names).view().dom().union(param_names(params@.take(i as int))),
        decreases params.len() - i,
    {
        add_name(names, &params[i].name);
        proof {
            assert(param_names(params@.take(i + 1)) =~= param_names(params@.take(i as int)).insert(params@[i as int].name@)) by {
                assert forall|n: Seq<char>| param_names(params@.take(i + 1)).contains(n) <==> param_names(params@.take(i as int)).insert(params@[i as int].name@).contains(n) by {
                    if param_names(params@.take(i + 1)).contains(n) {
                        let j = choose|j: int| 0 <= j < i + 1 && (#[trigger] params@.take(i + 1)[j]).name@ == n;
                        if j < i {
                            assert(params@.take(i as int)[j] == params@.take(i + 1)[j]);
                        }
                    }
                    if param_names(params@.take(i as int)).contains(n) {
                        let j = choose|j: int| 0 <= j < i && (#[trigger] params@.take(i as int)[j]).name@ == n;
                        assert(params@.take(i + 1)[j] == params@.take(i as int)[j]);
                    }
                    if n == params@[i as int].name@ {
                        assert(params@.take(i + 1)[i as int] == params@[i as int]);
                    }
                }
            }
        }
        i += 1;
    }
    assert(params@.take(params@.len() as int) =~= params@);
}

/// Adds the names a destructuring pattern binds.
fn add_pattern_names(names: &mut AssocMap<String, ()>, pattern: &BindingPattern)
    requires
        old(names).wf(),
    ensures
        final(names).wf(),
        final(names).view().dom() == old(names).view().dom().union(pattern_names(*pattern)),
    decreases pattern, 1nat,
{
    match pattern {
        BindingPattern::Name(n) => {
            add_name(names, n);
            assert(old(names).view().dom().insert(n@) =~= old(names).view().dom().union(set![n@]));
        },
        BindingPattern::Tuple(ps) => {
            assert(decreases_to!(*pattern => *ps));
            assert(decreases_to!(*ps => ps@));
            add_patterns_names(names, ps.as_slice(), Ghost(*pattern));
        },
        BindingPattern::Array { patterns, rest } => {
            assert(decreases_to!(*pattern => *patterns));
            assert(decreases_to!(*patterns => patterns@));
            add_patterns_names(names, patterns.as_slice(), Ghost(*pattern));
            let ghost mid = names.view().dom();
            match rest {
                Some(r) => {
                    add_name(names, r);
                    assert(mid.insert(r@) =~= mid.union(set![r@]));
                },
                None => {
                    assert(mid =~= mid.union(Set::empty()));
                },
            }
            assert(names.view().dom() =~= old(names).view().dom().union(pattern_names(*pattern)));
        },
        BindingPattern::Record(fields) => {
            assert(decreases_to!(*pattern => *fields));
            assert(decreases_to!(*fields => fields@));
            let mut i: usize = 0;
            while i < fields.len()
                invariant
                    names.wf(),
                    i <= fields@.len(),
                    decreases_to!(*pattern => fields@),
                    names.view().dom() == old(names).view().dom().union(field_patterns_names(fields@.take(i as int))),
                decreases fields.len() - i,
            {
                assert(decreases_to!(fields@ => fields@[i as int]));
                assert(decreases_to!(fields@[i as int] => fields@[i as int].1));
                let ghost before = names.view().dom();
                add_pattern_names(names, &fields[i].1);
                assert(fields@.take(i + 1).drop_last() =~= fields@.take(i as int));
                assert(field_patterns_names(fields@.take(i + 1)) == field_patterns_names(fields@.take(i as int)).union(pattern_names(fields@[i as int].1)));
                assert(names.view().dom() =~= old(names).view().dom().union(field_patterns_names(fields@.take(i + 1))));
                i += 1;
            }
            assert(fields@.take(fields@.len() as int) =~= fields@);
        },
    }
}

fn add_patterns_names(names: &mut AssocMap<String, ()>, patterns: &[BindingPattern], Ghost(owner): Ghost<BindingPattern>)
    requires
        old(names).wf(),
        decreases_to!(owner => patterns@),
    ensures
        final(names).wf(),
        final(names).view().dom() == old(names).view().dom().union(patterns_names(patterns@)),
    decreases owner, 0nat,
{
    let mut i: usize = 0;
    while i < patterns.len()
        invariant
            names.wf(),
            i <= patterns@.len(),
            decreases_to!(owner => patterns@),
            names.view().dom() == old(names).view().dom().union(patterns_names(patterns@.take(i as int))),
        decreases patterns.len() - i,
    {
        assert(decreases_to!(patterns@ => patterns@[i as int]));
        add_pattern_names(names, &patterns[i]);
        assert(patterns@.take(i + 1).drop_last() =~= patterns@.take(i as int));
        assert(patterns_names(patterns@.take(i + 1)) == patterns_names(patterns@.take(i as int)).union(pattern_names(patterns@[i as int])));
        assert(names.view().dom() =~= old(names).view().dom().union(patterns_names(patterns@.take(i + 1))));
        i += 1;
    }
    assert(patterns@.take(patterns@.len() as int) =~= patterns@);
}

/// Adds every name that the program declares, at any depth.
pub fn collect_declared_names(program: &Program, names: &mut AssocMap<String, ()>)
    requires
        old(names).wf(),
    ensures
        final(names).wf(),
        final(names).view().dom() == old(names).view().dom().union(declared_names(*program)),
    decreases program, 2nat,
{
    assert(decreases_to!(*program => program.statements));
    assert(decreases_to!(program.statements => program.statements@));
    let mut i: usize = 0;
    while i < program.statements.len()
        invariant
            names.wf(),
            i <= program.statements@.len(),
            decreases_to!(*program => program.statements@),
            names.view().dom() == old(names).view().dom().union(statements_declared(program.statements@.take(i as int))),
        decreases program.statements.len() - i,
    {
        assert(decreases_to!(program.statements@ => program.statements@[i as int]));
        add_statement_names(names, &program.statements[i]);
        assert(program.statements@.take(i + 1).drop_last() =~= program.statements@.take(i as int));
        assert(statements_declared(program.statements@.take(i + 1)) == statements_declared(program.statements@.take(i as int)).union(statement_declared(program.statements@[i as int])));
        assert(names.view().dom() =~= old(names).view().dom().union(statements_declared(program.statements@.take(i + 1))));
        i += 1;
    }
    assert(program.statements@.take(program.statements@.len() as int) =~= program.statements@);
}

fn add_statement_names(names: &mut AssocMap<String, ()>, statement: &Statement)
    requires
        old(names).wf(),
    ensures
        final(names).wf(),
        final(names).view().dom() == old(names).view().dom().union(statement_declared(*statement)),
    decreases statement, 1nat,
{
    let ghost start = names.view().dom();
    match statement {
        Statement::Function { name, params, body, .. } => {
            add_name(names, name);
            add_param_names(names, params);
            collect_declared_names(body, names);
            assert(names.view().dom() =~= start.union(statement_declared(*statement)));
        },
        Statement::ExternalFunction { name, params, .. } => {
            add_name(names, name);
            add_param_names(names, params);
            assert(names.view().dom() =~= start.union(statement_declared(*statement)));
        },
        Statement::Impl { methods, .. } => {
            assert(decreases_to!(*statement => *methods));
            assert(decreases_to!(*methods => methods@));
            let mut i: usize = 0;
            while i < methods.len()
                invariant
                    names.wf(),
                    i <= methods@.len(),
                    decreases_to!(*statement => methods@),
                    names.view().dom() == start.union(methods_declared(methods@.take(i as int))),
                decreases methods.len() - i,
            {
                assert(decreases_to!(methods@ => methods@[i as int]));
                assert(decreases_to!(methods@[i as int] => methods@[i as int].body));
                let ghost before = names.view().dom();
                add_name(names, &methods[i].name);
                add_param_names(names, &methods[i].params);
                collect_declared_names(&methods[i].body, names);
                assert(methods@.take(i + 1).drop_last() =~= methods@.take(i as int));
                assert(methods@.take(i + 1)[i as int] == methods@[i as int]);
                assert(names.view().dom() =~= start.union(methods_declared(methods@.take(i + 1))));
                i += 1;
            }
            assert(methods@.take(methods@.len() as int) =~= methods@);
        },
        Statement::Const { name, .. } | Statement::Let { name, .. } => {
            add_name(names, name);
            assert(names.view().dom() =~= start.union(statement_declared(*statement)));
        },
        Statement::Destructure { pattern, .. } => add_pattern_names(names, pattern),
        Statement::Block { body } | Statement::While { body, .. } => collect_declared_names(body, names),
        Statement::If { then_branch, else_branch, .. } => {
            collect_declared_names(then_branch, names);
            match else_branch {
                Some(e) => collect_declared_names(e, names),
                None => {},
            }
            assert(names.view().dom() =~= start.union(statement_declared(*statement)));
        },
        Statement::For { binding, body, .. } => {
            match binding {
                ForBinding::Name(n) => add_name(names, n),
                ForBinding::Pattern(p) => add_pattern_names(names, p),
            }
            collect_declared_names(body, names);
            assert(names.view().dom() =~= start.union(statement_declared(*statement)));
        },
        _ => {
            assert(names.view().dom() =~= start.union(statement_declared(*statement)));
        },
    }
}

} // verus!
