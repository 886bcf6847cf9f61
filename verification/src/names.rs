//! Name validation and the symbol names that declarations are given in Bash.

use vstd::prelude::*;
use vstd::string::StrSliceExecFns;
use vstd::string::StringExecFns;

use crate::ast::{display_name, Type};
use crate::text::{
    char_is_ascii_alpha, char_is_word, is_ascii_alpha, is_word_char, last_index_of, push_char,
    rfind_char, str_eq,
};

verus! {

/// A name: a letter or `_`, then letters, digits and `_`.
pub open spec fn valid_name(s: Seq<char>) -> bool {
    &&& s.len() > 0
    &&& (s[0] == '_' || is_ascii_alpha(s[0]))
    &&& forall|i: int| 1 <= i < s.len() ==> #[trigger] is_word_char(s[i])
}

pub fn is_valid_name(input: &str) -> (r: bool)
    ensures
        r == valid_name(input@),
{
    let n = input.unicode_len();
    if n == 0 {
        return false;
    }
    let first = input.get_char(0);
    if !(first == '_' || char_is_ascii_alpha(first)) {
        return false;
    }
    let mut i: usize = 1;
    while i < n
        invariant
            n == input@.len(),
            1 <= i <= n,
            forall|j: int| 1 <= j < i ==> #[trigger] is_word_char(input@[j]),
        decreases n - i,
    {
        if !char_is_word(input.get_char(i)) {
            return false;
        }
        i += 1;
    }
    true
}

/// `receiver.method` split at its last dot, when both sides are names.
pub open spec fn method_call_split(s: Seq<char>) -> Option<(Seq<char>, Seq<char>)> {
    match last_index_of(s, '.') {
        Some(i) => {
            let receiver = s.subrange(0, i);
            let method = s.subrange(i + 1, s.len() as int);
            if valid_name(receiver) && valid_name(method) {
                Some((receiver, method))
            } else {
                None
            }
        },
        None => None,
    }
}

pub proof fn lemma_last_index_of(s: Seq<char>, c: char)
    ensures
        last_index_of(s, c) matches Some(i) ==> 0 <= i < s.len() && s[i] == c,
    decreases s.len(),
{
    if s.len() > 0 && s.last() != c {
        lemma_last_index_of(s.drop_last(), c);
    }
}

pub fn method_call_parts(name: &str) -> (r: Option<(&str, &str)>)
    ensures
        r is Some == method_call_split(name@) is Some,
        r matches Some((receiver, method)) ==> method_call_split(name@) == Some((receiver@, method@)),
{
    let dot = match rfind_char(name, '.') {
        Some(i) => i,
        None => return None,
    };
    proof {
        lemma_last_index_of(name@, '.');
    }
    let n = name.unicode_len();
    let receiver = name.substring_char(0, dot);
    let method = name.substring_char(dot + 1, n);
    if is_valid_name(receiver) && is_valid_name(method) {
        Some((receiver, method))
    } else {
        None
    }
}

/// Every character that is not a letter, digit or `_` becomes `_`.
pub open spec fn sanitized(s: Seq<char>) -> Seq<char> {
    Seq::new(s.len(), |i: int| if is_word_char(s[i]) { s[i] } else { '_' })
}

pub fn sanitize_symbol(value: &str) -> (r: String)
    ensures
        r@ == sanitized(value@),
{
    let n = value.unicode_len();
    let mut out = String::new();
    let mut i: usize = 0;
    while i < n
        invariant
            n == value@.len(),
            i <= n,
            out@ =~= sanitized(value@).take(i as int),
        decreases n - i,
    {
        let ch = value.get_char(i);
        if char_is_word(ch) {
            push_char(&mut out, ch);
        } else {
            push_char(&mut out, '_');
        }
        i += 1;
    }
    assert(sanitized(value@).take(n as int) =~= sanitized(value@));
    out
}

/// The Bash function that implements `method` of `trait_name` for `for_type`.
pub open spec fn impl_method_symbol(trait_name: Seq<char>, for_type: Seq<char>, method: Seq<char>) -> Seq<char> {
    "__nacre_trait_"@ + sanitized(trait_name) + "_"@ + sanitized(for_type) + "_"@ + sanitized(method)
}

pub fn impl_method_name(trait_name: &str, for_type: &Type, method: &str) -> (r: String)
    ensures
        r@ == impl_method_symbol(trait_name@, display_name(for_type@), method@),
{
    let mut out = String::from_str("__nacre_trait_");
    out.append(sanitize_symbol(trait_name).as_str());
    out.append("_");
    out.append(sanitize_symbol(for_type.name().as_str()).as_str());
    out.append("_");
    out.append(sanitize_symbol(method).as_str());
    out
}

/// The words that Bash reserves and that a function therefore cannot be named.
pub open spec fn shell_keyword(s: Seq<char>) -> bool {
    s == "if"@ || s == "then"@ || s == "else"@ || s == "elif"@ || s == "fi"@ || s == "case"@
        || s == "esac"@ || s == "for"@ || s == "select"@ || s == "while"@ || s == "until"@
        || s == "do"@ || s == "done"@ || s == "in"@ || s == "function"@ || s == "time"@
        || s == "coproc"@
}

pub fn is_shell_keyword(name: &str) -> (r: bool)
    ensures
        r == shell_keyword(name@),
{
    str_eq(name, "if") || str_eq(name, "then") || str_eq(name, "else") || str_eq(name, "elif")
        || str_eq(name, "fi") || str_eq(name, "case") || str_eq(name, "esac") || str_eq(name, "for")
        || str_eq(name, "select") || str_eq(name, "while") || str_eq(name, "until") || str_eq(name, "do")
        || str_eq(name, "done") || str_eq(name, "in") || str_eq(name, "function") || str_eq(name, "time")
        || str_eq(name, "coproc")
}

/// The name a function is given in the generated Bash.
pub open spec fn backend_symbol(name: Seq<char>) -> Seq<char> {
    if shell_keyword(name) {
        "__nacre_keyword_"@ + name
    } else {
        name
    }
}

pub fn backend_function_name(name: &str) -> (r: String)
    ensures
        r@ == backend_symbol(name@),
{
    if is_shell_keyword(name) {
        let mut out = String::from_str("__nacre_keyword_");
        out.append(name);
        out
    } else {
        String::from_str(name)
    }
}

} // verus!
