//! Control-flow summaries of statements and the checks on string
//! interpolation and match patterns.

use vstd::prelude::*;
use vstd::string::StrSliceExecFns;
use vstd::string::StringExecFns;

use crate::ast::{display_name, Expr, Program, Statement, Type};
use crate::error::CompileError;
use crate::names::{is_valid_name, valid_name};
use crate::text::{char_is_ascii_digit, find_char, first_index_from, is_ascii_digit, lemma_first_index_from};

verus! {

/// How control can leave a statement or a block.
#[derive(Debug, Clone, Copy, PartialEq, Eq)]
pub struct FlowSummary {
    pub falls_through: bool,
    pub may_return: bool,
    pub breaks: bool,
    pub continues: bool,
}

pub open spec fn flow(falls_through: bool, may_return: bool, breaks: bool, continues: bool) -> FlowSummary {
    FlowSummary { falls_through, may_return, breaks, continues }
}

impl FlowSummary {
    pub fn falls_through() -> (r: FlowSummary)
        ensures
            r == flow(true, false, false, false),
    {
        FlowSummary { falls_through: true, may_return: false, breaks: false, continues: false }
    }

    pub fn returned() -> (r: FlowSummary)
        ensures
            r == flow(false, true, false, false),
    {
        FlowSummary { falls_through: false, may_return: true, breaks: false, continues: false }
    }

    pub fn broke() -> (r: FlowSummary)
        ensures
            r == flow(false, false, true, false),
    {
        FlowSummary { falls_through: false, may_return: false, breaks: true, continues: false }
    }

    pub fn continued() -> (r: FlowSummary)
        ensures
            r == flow(false, false, false, true),
    {
        FlowSummary { falls_through: false, may_return: false, breaks: false, continues: true }
    }

    pub fn try_result() -> (r: FlowSummary)
        ensures
            r == flow(true, true, false, false),
    {
        FlowSummary { falls_through: true, may_return: true, breaks: false, continues: false }
    }

    /// Either of two branches may run.
    pub fn alternatives(left: FlowSummary, right: FlowSummary) -> (r: FlowSummary)
        ensures
            r == either(left, right),
    {
        FlowSummary {
            falls_through: left.falls_through || right.falls_through,
            may_return: left.may_return || right.may_return,
            breaks: left.breaks || right.breaks,
            continues: left.continues || right.continues,
        }
    }

    /// Every path leaves by `return`.
    pub fn always_returns(self) -> (r: bool)
        ensures
            r == (!self.falls_through && self.may_return && !self.breaks && !self.continues),
    {
        !self.falls_through && self.may_return && !self.breaks && !self.continues
    }
}

pub open spec fn either(left: FlowSummary, right: FlowSummary) -> FlowSummary {
    flow(
        left.falls_through || right.falls_through,
        left.may_return || right.may_return,
        left.breaks || right.breaks,
        left.continues || right.continues,
    )
}

/// `flow` followed by a statement that leaves as `next` does.
pub open spec fn then_flow(f: FlowSummary, next: FlowSummary) -> FlowSummary {
    flow(next.falls_through, f.may_return || next.may_return, f.breaks || next.breaks, f.continues || next.continues)
}

/// How control leaves a block: statements after one that cannot fall through are not reached.
pub open spec fn block_flow(p: Program) -> FlowSummary
    decreases p,
{
    seq_flow(p.statements@)
}

pub open spec fn seq_flow(s: Seq<Statement>) -> FlowSummary
    decreases s,
{
    if s.len() == 0 {
        flow(true, false, false, false)
    } else {
        let f = seq_flow(s.drop_last());
        if !f.falls_through {
            f
        } else {
            then_flow(f, stmt_flow(s.last()))
        }
    }
}

pub open spec fn stmt_flow(st: Statement) -> FlowSummary
    decreases st,
{
    match st {
        Statement::Return(_) => flow(false, true, false, false),
        Statement::Break => flow(false, false, true, false),
        Statement::Continue => flow(false, false, false, true),
        Statement::TryResult(_) => flow(true, true, false, false),
        Statement::Block { body } => block_flow(body),
        Statement::If { then_branch, else_branch, .. } => either(
            block_flow(then_branch),
            match else_branch {
                Some(e) => block_flow(e),
                None => flow(true, false, false, false),
            },
        ),
        Statement::While { body, .. } => flow(true, block_flow(body).may_return, false, false),
        Statement::For { body, .. } => flow(true, block_flow(body).may_return, false, false),
        _ => flow(true, false, false, false),
    }
}

pub fn program_flow(program: &Program) -> (r: FlowSummary)
    ensures
        r == block_flow(*program),
    decreases program,
{
    let stmts = &program.statements;
    let mut f = FlowSummary::falls_through();
    let mut i: usize = 0;
    while i < stmts.len()
        invariant
            stmts == &program.statements,
            i <= stmts.len(),
            f == seq_flow(stmts@.take(i as int)),
        decreases stmts.len() - i,
    {
        proof {
            assert(stmts@.take(i + 1).drop_last() =~= stmts@.take(i as int));
        }
        if !f.falls_through {
            proof {
                lemma_seq_flow_stops(stmts@, i as int);
            }
            return f;
        }
        proof {
            assert(decreases_to!(program => program.statements));
            assert(decreases_to!(program.statements => program.statements@));
            assert(decreases_to!(program.statements@ => program.statements@[i as int]));
        }
        let next = statement_flow(&stmts[i]);
        f = FlowSummary {
            falls_through: next.falls_through,
            may_return: f.may_return || next.may_return,
            breaks: f.breaks || next.breaks,
            continues: f.continues || next.continues,
        };
        i += 1;
    }
    proof {
        assert(stmts@.take(stmts@.len() as int) =~= stmts@);
    }
    f
}

proof fn lemma_seq_flow_stops(s: Seq<Statement>, i: int)
    requires
        0 <= i <= s.len(),
        !seq_flow(s.take(i)).falls_through,
    ensures
        seq_flow(s) == seq_flow(s.take(i)),
    decreases s.len() - i,
{
    if i < s.len() {
        assert(s.take(i + 1).drop_last() =~= s.take(i));
        lemma_seq_flow_stops(s, i + 1);
    } else {
        assert(s.take(i) =~= s);
    }
}

pub fn statement_flow(statement: &Statement) -> (r: FlowSummary)
    ensures
        r == stmt_flow(*statement),
    decreases statement,
{
    match statement {
        Statement::Return(_) => FlowSummary::returned(),
        Statement::Break => FlowSummary::broke(),
        Statement::Continue => FlowSummary::continued(),
        Statement::TryResult(_) => FlowSummary::try_result(),
        Statement::Defer(_) => FlowSummary::falls_through(),
        Statement::Block { body } => program_flow(body),
        Statement::If { then_branch, else_branch, .. } => {
            let then_flow = program_flow(then_branch);
            let else_flow = match else_branch {
                Some(e) => program_flow(e),
                None => FlowSummary::falls_through(),
            };
            FlowSummary::alternatives(then_flow, else_flow)
        },
        Statement::While { body, .. } => {
            let body = program_flow(body);
            FlowSummary { falls_through: true, may_return: body.may_return, breaks: false, continues: false }
        },
        Statement::For { body, .. } => {
            let body = program_flow(body);
            FlowSummary { falls_through: true, may_return: body.may_return, breaks: false, continues: false }
        },
        _ => FlowSummary::falls_through(),
    }
}

/// `_` followed by one or more digits, as in `pair._1`.
pub open spec fn tuple_field_text(s: Seq<char>) -> bool {
    &&& s.len() > 1
    &&& s[0] == '_'
    &&& forall|i: int| 1 <= i < s.len() ==> #[trigger] is_ascii_digit(s[i])
}

pub fn tuple_field_name(value: &str) -> (r: bool)
    ensures
        r == tuple_field_text(value@),
{
    let n = value.unicode_len();
    if n < 2 || value.get_char(0) != '_' {
        return false;
    }
    let mut i: usize = 1;
    while i < n
        invariant
            n == value@.len(),
            1 <= i <= n,
            forall|j: int| 1 <= j < i ==> #[trigger] is_ascii_digit(value@[j]),
        decreases n - i,
    {
        if !char_is_ascii_digit(value.get_char(i)) {
            return false;
        }
        i += 1;
    }
    true
}

/// The variable that an interpolation `${...}` reads: `name`, `name[index]`,
/// `name.field` or `name._1`.
pub open spec fn interpolation_base(v: Seq<char>) -> Option<Seq<char>> {
    if valid_name(v) {
        Some(v)
    } else if bracket_base(v) is Some {
        bracket_base(v)
    } else {
        match first_index_from(v, '.', 0) {
            Some(k) => {
                let base = v.subrange(0, k);
                let field = v.subrange(k + 1, v.len() as int);
                if valid_name(base) && (valid_name(field) || tuple_field_text(field)) {
                    Some(base)
                } else {
                    None
                }
            },
            None => None,
        }
    }
}

/// `name[index]` with a non-empty index.
pub open spec fn bracket_base(v: Seq<char>) -> Option<Seq<char>> {
    if v.len() > 0 && v.last() == ']' {
        let w = v.drop_last();
        match first_index_from(w, '[', 0) {
            Some(k) => {
                let base = w.subrange(0, k);
                let index = w.subrange(k + 1, w.len() as int);
                if valid_name(base) && index.len() > 0 {
                    Some(base)
                } else {
                    None
                }
            },
            None => None,
        }
    } else {
        None
    }
}

fn bracket_base_name(value: &str) -> (r: Option<&str>)
    ensures
        r is Some == bracket_base(value@) is Some,
        r matches Some(b) ==> bracket_base(value@) == Some(b@),
{
    let n = value.unicode_len();
    if n == 0 || value.get_char(n - 1) != ']' {
        return None;
    }
    let w = value.substring_char(0, n - 1);
    assert(w@ =~= value@.drop_last());
    match find_char(w, '[', 0) {
        Some(k) => {
            proof {
                lemma_first_index_from(w@, '[', 0);
            }
            let base = w.substring_char(0, k);
            if is_valid_name(base) && k + 1 < n - 1 {
                Some(base)
            } else {
                None
            }
        },
        None => None,
    }
}

pub fn interpolation_base_name(value: &str) -> (r: Option<&str>)
    ensures
        r is Some == interpolation_base(value@) is Some,
        r matches Some(b) ==> interpolation_base(value@) == Some(b@),
{
    if is_valid_name(value) {
        return Some(value);
    }
    match bracket_base_name(value) {
        Some(b) => return Some(b),
        None => {},
    }
    match find_char(value, '.', 0) {
        Some(k) => {
            proof {
                lemma_first_index_from(value@, '.', 0);
            }
            let n = value.unicode_len();
            let base = value.substring_char(0, k);
            let field = value.substring_char(k + 1, n);
            if is_valid_name(base) && (is_valid_name(field) || tuple_field_name(field)) {
                Some(base)
            } else {
                None
            }
        },
        None => None,
    }
}

/// The first `${` at or after `from`.
pub open spec fn open_from(s: Seq<char>, from: int) -> Option<int>
    decreases s.len() - from,
{
    if from < 0 || from + 1 >= s.len() {
        None
    } else if s[from] == '$' && s[from + 1] == '{' {
        Some(from)
    } else {
        open_from(s, from + 1)
    }
}

pub proof fn lemma_open_from(s: Seq<char>, from: int)
    requires
        0 <= from,
    ensures
        open_from(s, from) matches Some(i) ==> from <= i && i + 1 < s.len(),
    decreases s.len() - from,
{
    if from + 1 < s.len() && !(s[from] == '$' && s[from + 1] == '{') {
        lemma_open_from(s, from + 1);
    }
}

fn find_open(s: &str, from: usize) -> (r: Option<usize>)
    requires
        from <= s@.len(),
    ensures
        r matches Some(i) ==> open_from(s@, from as int) == Some(i as int),
        r is None ==> open_from(s@, from as int) is None,
{
    let n = s.unicode_len();
    let mut i = from;
    while i < n && n - i > 1
        invariant
            n == s@.len(),
            from <= i <= n,
            open_from(s@, from as int) == open_from(s@, i as int),
        decreases n - i,
    {
        if s.get_char(i) == '$' && s.get_char(i + 1) == '{' {
            return Some(i);
        }
        i += 1;
    }
    None
}

/// The names that the interpolations of `s` from position `pos` on read,
/// or the message of the first malformed one.
pub open spec fn interpolations_from(s: Seq<char>, pos: int) -> Result<Seq<Seq<char>>, Seq<char>>
    decreases s.len() - pos,
{
    if pos < 0 || pos > s.len() {
        Ok(Seq::empty())
    } else {
        match open_from(s, pos) {
            None => Ok(Seq::empty()),
            Some(start) => match first_index_from(s, '}', start + 2) {
                None => Err("unterminated string interpolation"@),
                Some(end) => {
                    let inner = s.subrange(start + 2, end);
                    match interpolation_base(inner) {
                        None => Err("invalid interpolation name `"@ + inner + "`"@),
                        Some(name) => {
                            proof {
                                lemma_open_from(s, pos);
                                lemma_first_index_from(s, '}', start + 2);
                            }
                            match interpolations_from(s, end + 1) {
                                Ok(rest) => Ok(seq![name] + rest),
                                Err(e) => Err(e),
                            }
                        },
                    }
                },
            },
        }
    }
}

pub open spec fn prefixed(names: Seq<Seq<char>>, r: Result<Seq<Seq<char>>, Seq<char>>) -> Result<Seq<Seq<char>>, Seq<char>> {
    match r {
        Ok(rest) => Ok(names + rest),
        Err(e) => Err(e),
    }
}

pub open spec fn string_views(v: Seq<String>) -> Seq<Seq<char>> {
    v.map_values(|x: String| x@)
}

/// The variables that the `${...}` interpolations of `value` read.
pub fn interpolation_names(value: &str, line: usize) -> (r: Result<Vec<String>, CompileError>)
    ensures
        r matches Ok(names) ==> interpolations_from(value@, 0) == Ok::<Seq<Seq<char>>, Seq<char>>(string_views(names@)),
        r matches Err(e) ==> e.line == line && interpolations_from(value@, 0) == Err::<Seq<Seq<char>>, Seq<char>>(e.message@),
{
    let n = value.unicode_len();
    let mut names: Vec<String> = Vec::new();
    let mut pos: usize = 0;
    assert(string_views(names@) =~= Seq::<Seq<char>>::empty());
    assert(Seq::<Seq<char>>::empty() + Seq::<Seq<char>>::empty() =~= Seq::<Seq<char>>::empty());
    loop
        invariant
            n == value@.len(),
            pos <= n,
            interpolations_from(value@, 0) == prefixed(string_views(names@), interpolations_from(value@, pos as int)),
        decreases n - pos,
    {
        let start = match find_open(value, pos) {
            Some(start) => start,
            None => {
                assert(string_views(names@) + Seq::<Seq<char>>::empty() =~= string_views(names@));
                return Ok(names);
            },
        };
        proof {
            lemma_open_from(value@, pos as int);
        }
        let end = match find_char(value, '}', start + 2) {
            Some(end) => end,
            None => {
                return Err(CompileError::new(line, String::from_str("unterminated string interpolation")));
            },
        };
        proof {
            lemma_first_index_from(value@, '}', start + 2);
        }
        let inner = value.substring_char(start + 2, end);
        let name = match interpolation_base_name(inner) {
            Some(name) => name,
            None => {
                let mut message = String::from_str("invalid interpolation name `");
                message.append(inner);
                message.append("`");
                return Err(CompileError::new(line, message));
            },
        };
        let ghost before = string_views(names@);
        names.push(String::from_str(name));
        proof {
            assert(string_views(names@) =~= before.push(name@));
            match interpolations_from(value@, end + 1) {
                Ok(rest) => {
                    assert(before + (seq![name@] + rest) =~= before.push(name@) + rest);
                },
                Err(_) => {},
            }
        }
        pos = end + 1;
    }
}

/// What a constructor pattern matches: `Option`, `Result`, or any other pattern.
pub open spec fn pattern_kind(pattern: Expr) -> Seq<char> {
    match pattern {
        Expr::OptionSome(_) | Expr::OptionNone => "Option"@,
        Expr::ResultOk(_) | Expr::ResultErr(_) => "Result"@,
        _ => "pattern"@,
    }
}

pub fn constructor_pattern_name(pattern: &Expr) -> (r: &'static str)
    ensures
        r@ == pattern_kind(*pattern),
{
    match pattern {
        Expr::OptionSome(_) | Expr::OptionNone => "Option",
        Expr::ResultOk(_) | Expr::ResultErr(_) => "Result",
        _ => "pattern",
    }
}

pub fn match_pattern_mismatch(line: usize, value_ty: &Type, pattern: &Expr) -> (e: CompileError)
    ensures
        e.line == line,
        e.message@ == "match pattern type mismatch: expected "@ + display_name(value_ty@) + ", found "@ + pattern_kind(*pattern),
{
    let mut message = String::from_str("match pattern type mismatch: expected ");
    message.append(value_ty.name().as_str());
    message.append(", found ");
    message.append(constructor_pattern_name(pattern));
    CompileError::new(line, message)
}

pub open spec fn unsafe_execution_message() -> Seq<char> {
    "unsafe shell execution is disabled; use a policy-approved `run.<group>.<command>(...)` call"@
}

pub fn unsafe_execution_error(line: usize) -> (e: CompileError)
    ensures
        e.line == line,
        e.message@ == unsafe_execution_message(),
{
    CompileError::new(
        line,
        String::from_str("unsafe shell execution is disabled; use a policy-approved `run.<group>.<command>(...)` call"),
    )
}

} // verus!
