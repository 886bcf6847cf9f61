//! Diagnostics reported by the checker.

use vstd::prelude::*;

verus! {

/// A compile error: the source line it was found on and a message.
#[derive(Debug, PartialEq, Eq)]
pub struct CompileError {
    pub line: usize,
    pub message: String,
}

impl CompileError {
    pub fn new(line: usize, message: String) -> (e: CompileError)
        ensures
            e.line == line,
            e.message@ == message@,
    {
        CompileError { line, message }
    }

    pub fn line(&self) -> (r: usize)
        ensures
            r == self.line,
    {
        self.line
    }

    pub fn message(&self) -> (r: &str)
        ensures
            r@ == self.message@,
    {
        self.message.as_str()
    }
}

} // verus!
