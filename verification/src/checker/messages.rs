//! Builders for the checker's diagnostics.

use vstd::prelude::*;
use vstd::string::StringExecFns;

use crate::ast::{display_name, Type};
use crate::error::CompileError;

verus! {

/// An error with a fixed message.
pub fn fixed(line: usize, text: &str) -> (e: CompileError)
    ensures
        e.line == line,
        e.message@ == text@,
{
    CompileError::new(line, String::from_str(text))
}

/// An error whose message puts `name` between two texts.
pub fn about(line: usize, before: &str, name: &str, after: &str) -> (e: CompileError)
    ensures
        e.line == line,
        e.message@ == before@ + name@ + after@,
{
    let mut message = String::from_str(before);
    message.append(name);
    message.append(after);
    CompileError::new(line, message)
}

/// An error whose message puts the name of `ty` between two texts.
pub fn about_type(line: usize, before: &str, ty: &Type, after: &str) -> (e: CompileError)
    ensures
        e.line == line,
        e.message@ == before@ + display_name(ty@) + after@,
{
    let mut message = String::from_str(before);
    message.append(ty.name().as_str());
    message.append(after);
    CompileError::new(line, message)
}

/// An error that names two types: `before first middle second`.
pub fn about_types(line: usize, before: &str, first: &Type, middle: &str, second: &Type) -> (e: CompileError)
    ensures
        e.line == line,
        e.message@ == before@ + display_name(first@) + middle@ + display_name(second@),
{
    let mut message = String::from_str(before);
    message.append(first.name().as_str());
    message.append(middle);
    message.append(second.name().as_str());
    CompileError::new(line, message)
}

/// An error that names a thing and two types: `a name b first c second`.
pub fn about_name_types(line: usize, a: &str, name: &str, b: &str, first: &Type, c: &str, second: &Type) -> (e: CompileError)
    ensures
        e.line == line,
        e.message@ == a@ + name@ + b@ + display_name(first@) + c@ + display_name(second@),
{
    let mut message = String::from_str(a);
    message.append(name);
    message.append(b);
    message.append(first.name().as_str());
    message.append(c);
    message.append(second.name().as_str());
    CompileError::new(line, message)
}

pub open spec fn undefined_variable_message(name: Seq<char>) -> Seq<char> {
    "undefined variable `"@ + name + "`"@
}

pub fn undefined_variable(line: usize, name: &str) -> (e: CompileError)
    ensures
        e.line == line,
        e.message@ == undefined_variable_message(name@),
{
    about(line, "undefined variable `", name, "`")
}

pub open spec fn no_method_message(ty: Seq<char>, method: Seq<char>) -> Seq<char> {
    "type "@ + ty + " has no "@ + method + " method"@
}

/// `type T has no <method> method`.
pub fn no_method(line: usize, ty: &Type, method: &str) -> (e: CompileError)
    ensures
        e.line == line,
        e.message@ == no_method_message(display_name(ty@), method@),
{
    let mut message = String::from_str("type ");
    message.append(ty.name().as_str());
    message.append(" has no ");
    message.append(method);
    message.append(" method");
    CompileError::new(line, message)
}

} // verus!
