//! Pieces of the Bash backend that depend on nothing but the syntax tree:
//! the names functions and temporaries get, and what a destructuring reads.

use vstd::prelude::*;
use vstd::string::StringExecFns;

use crate::ast::Expr;
use crate::names::{backend_function_name, backend_symbol, is_shell_keyword, is_valid_name, shell_keyword, valid_name};
use crate::text::{decimal, decimal_string, str_eq};

verus! {

/// Where a statement is emitted: at the top of the script or inside a
/// function body.
#[derive(Debug, Copy, Clone, PartialEq, Eq)]
pub enum EmitScope {
    TopLevel,
    Function,
}

impl EmitScope {
    pub fn is_function(self) -> (r: bool)
        ensures
            r == (self is Function),
    {
        matches!(self, EmitScope::Function)
    }
}

/// Whether Bash reserves the word, so that a function cannot take it as a name.
pub fn is_bash_reserved_word(name: &str) -> (r: bool)
    ensures
        r == shell_keyword(name@),
{
    is_shell_keyword(name)
}

/// The name a function is given in the script: a reserved word gets a prefix.
pub fn shell_function_name(name: &str) -> (r: String)
    ensures
        r@ == backend_symbol(name@),
{
    backend_function_name(name)
}

/// Whether the name may stand as a Bash variable name.
pub fn is_shell_name(name: &str) -> (r: bool)
    ensures
        r == valid_name(name@),
{
    is_valid_name(name)
}

/// The parts joined with a separator between each two.
pub open spec fn joined(parts: Seq<String>, separator: Seq<char>) -> Seq<char>
    decreases parts.len(),
{
    if parts.len() == 0 {
        Seq::empty()
    } else if parts.len() == 1 {
        parts[0]@
    } else {
        joined(parts.drop_last(), separator) + separator + parts.last()@
    }
}

/// `use a.b` sources the script of the module from the directory of the
/// running script.
pub fn emit_use(out: &mut String, path: &[String])
    ensures
        final(out)@ == old(out)@ + "source \"$(dirname \"$0\")/"@ + joined(path@, "/"@) + ".sh\"\n"@,
{
    out.append("source \"$(dirname \"$0\")/");
    let mut i: usize = 0;
    let ghost start = out@;
    while i < path.len()
        invariant
            i <= path@.len(),
            out@ == start + joined(path@.take(i as int), "/"@),
        decreases path.len() - i,
    {
        proof {
            assert(path@.take(i + 1).drop_last() =~= path@.take(i as int));
        }
        if i > 0 {
            out.append("/");
        }
        out.append(path[i].as_str());
        proof {
            assert(path@.take(i + 1).last() == path@[i as int]);
            if i == 0 {
                assert(path@.take(1)[0] == path@[0]);
                assert(joined(path@.take(0), "/"@) =~= Seq::<char>::empty());
            }
        }
        i += 1;
    }
    assert(path@.take(path@.len() as int) =~= path@);
    out.append(".sh\"\n");
}

/// The variable a destructuring source names, or the empty name when it
/// names none.
pub open spec fn destructure_source(expr: Expr) -> Seq<char> {
    match expr {
        Expr::ProcessArgs => "args"@,
        Expr::Ident(name) | Expr::Value(name) | Expr::Len(name) | Expr::IsEmpty(name) | Expr::ArrayFirst(name)
        | Expr::ArrayLast(name) | Expr::ArrayReverse(name) | Expr::ArraySort(name) | Expr::ArrayUnique(name)
        | Expr::ArrayMap { name, .. } | Expr::ArrayTake { name, .. } | Expr::ArrayDrop { name, .. } | Expr::Join { name, .. }
        | Expr::ArrayPush { name, .. } | Expr::ArrayPop { name } | Expr::MapSet { name, .. } | Expr::MapRemove { name, .. }
        | Expr::ArrayContains { name, .. } | Expr::ArrayIndexOf { name, .. } | Expr::Slice { name, .. } | Expr::MapKeys(name)
        | Expr::MapValues(name) | Expr::MapHas { name, .. } | Expr::StringContains { name, .. } | Expr::StringIndexOf { name, .. }
        | Expr::StringStartsWith { name, .. } | Expr::StringEndsWith { name, .. } | Expr::StringLen(name)
        | Expr::StringIsEmpty(name) | Expr::StringSlice { name, .. } | Expr::StringTrim(name) | Expr::StringTrimStart(name)
        | Expr::StringTrimEnd(name) | Expr::StringToUpper(name) | Expr::StringToLower(name) | Expr::StringRepeat { name, .. }
        | Expr::StringSplit { name, .. } | Expr::StringReplace { name, .. } | Expr::PathBasename(name) | Expr::PathDirname(name)
        | Expr::PathStem(name) | Expr::PathExtname(name) | Expr::PathIsAbsolute(name) | Expr::Await(name) => name@,
        _ => Seq::empty(),
    }
}

pub fn destructure_source_name(expr: &Expr) -> (r: String)
    ensures
        r@ == destructure_source(*expr),
{
    match expr {
        Expr::ProcessArgs => String::from_str("args"),
        Expr::Ident(name) | Expr::Value(name) | Expr::Len(name) | Expr::IsEmpty(name) | Expr::ArrayFirst(name)
        | Expr::ArrayLast(name) | Expr::ArrayReverse(name) | Expr::ArraySort(name) | Expr::ArrayUnique(name)
        | Expr::ArrayMap { name, .. } | Expr::ArrayTake { name, .. } | Expr::ArrayDrop { name, .. } | Expr::Join { name, .. }
        | Expr::ArrayPush { name, .. } | Expr::ArrayPop { name } | Expr::MapSet { name, .. } | Expr::MapRemove { name, .. }
        | Expr::ArrayContains { name, .. } | Expr::ArrayIndexOf { name, .. } | Expr::Slice { name, .. } | Expr::MapKeys(name)
        | Expr::MapValues(name) | Expr::MapHas { name, .. } | Expr::StringContains { name, .. } | Expr::StringIndexOf { name, .. }
        | Expr::StringStartsWith { name, .. } | Expr::StringEndsWith { name, .. } | Expr::StringLen(name)
        | Expr::StringIsEmpty(name) | Expr::StringSlice { name, .. } | Expr::StringTrim(name) | Expr::StringTrimStart(name)
        | Expr::StringTrimEnd(name) | Expr::StringToUpper(name) | Expr::StringToLower(name) | Expr::StringRepeat { name, .. }
        | Expr::StringSplit { name, .. } | Expr::StringReplace { name, .. } | Expr::PathBasename(name) | Expr::PathDirname(name)
        | Expr::PathStem(name) | Expr::PathExtname(name) | Expr::PathIsAbsolute(name) | Expr::Await(name) => name.clone(),
        _ => String::new(),
    }
}

/// The record fields of `Some({...})`, `Ok({...})` or `Err({...})`, with the
/// tag `1` for a success and `0` for an error.
pub fn constructor_record_fields(expr: &Expr) -> (r: Option<(char, &[(String, Expr)])>)
    ensures
        r matches Some((tag, fields)) ==> (
            (expr matches Expr::OptionSome(v) && (**v matches Expr::Record(fs) && fs@ == fields@) && tag == '1')
            || (expr matches Expr::ResultOk(v) && (**v matches Expr::Record(fs) && fs@ == fields@) && tag == '1')
            || (expr matches Expr::ResultErr(v) && (**v matches Expr::Record(fs) && fs@ == fields@) && tag == '0')),
        r is None ==> !(expr matches Expr::OptionSome(v) && **v is Record) && !(expr matches Expr::ResultOk(v) && **v is Record)
            && !(expr matches Expr::ResultErr(v) && **v is Record),
{
    match expr {
        Expr::OptionSome(value) | Expr::ResultOk(value) => match &**value {
            Expr::Record(fields) => Some(('1', fields.as_slice())),
            _ => None,
        },
        Expr::ResultErr(value) => match &**value {
            Expr::Record(fields) => Some(('0', fields.as_slice())),
            _ => None,
        },
        _ => None,
    }
}

/// The tuple elements of `Some((...))`, `Ok((...))` or `Err((...))`, with
/// the tag `1` for a success and `0` for an error.
pub fn constructor_tuple_values(expr: &Expr) -> (r: Option<(char, &[Expr])>)
    ensures
        r matches Some((tag, values)) ==> (
            (expr matches Expr::OptionSome(v) && (**v matches Expr::Tuple(vs) && vs@ == values@) && tag == '1')
            || (expr matches Expr::ResultOk(v) && (**v matches Expr::Tuple(vs) && vs@ == values@) && tag == '1')
            || (expr matches Expr::ResultErr(v) && (**v matches Expr::Tuple(vs) && vs@ == values@) && tag == '0')),
        r is None ==> !(expr matches Expr::OptionSome(v) && **v is Tuple) && !(expr matches Expr::ResultOk(v) && **v is Tuple)
            && !(expr matches Expr::ResultErr(v) && **v is Tuple),
{
    match expr {
        Expr::OptionSome(value) | Expr::ResultOk(value) => match &**value {
            Expr::Tuple(values) => Some(('1', values.as_slice())),
            _ => None,
        },
        Expr::ResultErr(value) => match &**value {
            Expr::Tuple(values) => Some(('0', values.as_slice())),
            _ => None,
        },
        _ => None,
    }
}

/// Whether a split separator is a literal newline.
pub fn is_newline_separator(separator: &Expr) -> (r: bool)
    ensures
        r == ((separator matches Expr::String(v) && v@ == "\n"@) || (separator matches Expr::RawString(v) && v@ == "\n"@)),
{
    match separator {
        Expr::String(value) | Expr::RawString(value) => str_eq(value.as_str(), "\n"),
        _ => false,
    }
}

/// The string methods that trim or change case.
#[derive(Debug, Copy, Clone, PartialEq, Eq)]
pub enum StringTransform {
    Trim,
    TrimStart,
    TrimEnd,
    ToUpper,
    ToLower,
}

/// The temporary variable that holds the value a transform applies to.
pub open spec fn transform_temp(transform: StringTransform) -> Seq<char> {
    match transform {
        StringTransform::Trim => "__nacre_trim_value"@,
        StringTransform::TrimStart => "__nacre_trim_start_value"@,
        StringTransform::TrimEnd => "__nacre_trim_end_value"@,
        StringTransform::ToUpper => "__nacre_upper_value"@,
        StringTransform::ToLower => "__nacre_lower_value"@,
    }
}

pub fn string_transform_temp_name(transform: StringTransform) -> (r: &'static str)
    ensures
        r@ == transform_temp(transform),
{
    match transform {
        StringTransform::Trim => "__nacre_trim_value",
        StringTransform::TrimStart => "__nacre_trim_start_value",
        StringTransform::TrimEnd => "__nacre_trim_end_value",
        StringTransform::ToUpper => "__nacre_upper_value",
        StringTransform::ToLower => "__nacre_lower_value",
    }
}


/// `"$name"`: a quoted variable reference.
pub fn emit_variable_ref(out: &mut String, name: &str)
    ensures
        final(out)@ == old(out)@ + "\"$"@ + name@ + "\""@,
{
    out.append("\"$");
    out.append(name);
    out.append("\"");
}

/// `"$name_<field>"`: a field of a record stored as separate variables.
pub fn emit_field(out: &mut String, name: &str, field: &str)
    ensures
        final(out)@ == old(out)@ + "\"$"@ + name@ + "_"@ + field@ + "\""@,
{
    out.append("\"$");
    out.append(name);
    out.append("_");
    out.append(field);
    out.append("\"");
}

/// `"$name_<n>"`: an element of a tuple stored as separate variables.
pub fn emit_tuple_field(out: &mut String, name: &str, field: usize)
    ensures
        final(out)@ == old(out)@ + "\"$"@ + name@ + "_"@ + decimal(field as nat) + "\""@,
{
    out.append("\"$");
    out.append(name);
    out.append("_");
    out.append(decimal_string(field).as_str());
    out.append("\"");
}

/// The value of a background job: wait for it, read its output, and stop
/// the script with its status when it failed.
pub fn emit_await_binding(out: &mut String, name: &str, future: &str, readonly: bool, local: bool)
    ensures
        final(out)@ == old(out)@
            + (if local { "local "@ + name@ + "\n"@ } else { Seq::empty() })
            + "if wait \"$"@ + future@ + "_pid\"; then\n"@ + name@ + "=\"$(cat \"$"@ + future@ + "_out\")\"\n"@
            + "rm -f \"$"@ + future@ + "_out\"\n"@
            + "else\n__nacre_status=$?\nrm -f \"$"@ + future@ + "_out\"\nexit $__nacre_status\nfi\n"@
            + (if readonly && !local { "readonly "@ + name@ + "\n"@ } else { Seq::empty() }),
{
    let ghost start = out@;
    if local {
        out.append("local ");
        out.append(name);
        out.append("\n");
    }
    let ghost head = out@;
    assert(head == start + (if local { "local "@ + name@ + "\n"@ } else { Seq::<char>::empty() }));
    out.append("if wait \"$");
    out.append(future);
    out.append("_pid\"; then\n");
    out.append(name);
    out.append("=\"$(cat \"$");
    out.append(future);
    out.append("_out\")\"\n");
    out.append("rm -f \"$");
    out.append(future);
    out.append("_out\"\n");
    out.append("else\n__nacre_status=$?\nrm -f \"$");
    out.append(future);
    out.append("_out\"\nexit $__nacre_status\nfi\n");
    let ghost body = out@;
    if readonly && !local {
        out.append("readonly ");
        out.append(name);
        out.append("\n");
    }
    assert(out@ == body + (if readonly && !local { "readonly "@ + name@ + "\n"@ } else { Seq::<char>::empty() }));
}

/// Waits for a background job whose value is not used.
pub fn emit_discard_await(out: &mut String, future: &str)
    ensures
        final(out)@ == old(out)@ + "if wait \"$"@ + future@ + "_pid\"; then\nrm -f \"$"@ + future@
            + "_out\"\nelse\n__nacre_status=$?\nrm -f \"$"@ + future@ + "_out\"\nexit $__nacre_status\nfi\n"@,
{
    out.append("if wait \"$");
    out.append(future);
    out.append("_pid\"; then\nrm -f \"$");
    out.append(future);
    out.append("_out\"\nelse\n__nacre_status=$?\nrm -f \"$");
    out.append(future);
    out.append("_out\"\nexit $__nacre_status\nfi\n");
}

/// The declaration keyword of an array binding: `local -a` inside a
/// function, `readonly -a` for a constant, nothing otherwise.
pub open spec fn array_declaration(readonly: bool, local: bool) -> Seq<char> {
    if local {
        "local -a "@
    } else if readonly {
        "readonly -a "@
    } else {
        Seq::empty()
    }
}

/// `binding=("<expansion>")`.
pub fn emit_array_expansion_binding(out: &mut String, binding: &str, expansion: &str, readonly: bool, local: bool)
    ensures
        final(out)@ == old(out)@ + array_declaration(readonly, local) + binding@ + "=(\""@ + expansion@ + "\")\n"@,
{
    let ghost start = out@;
    if local {
        out.append("local -a ");
    } else if readonly {
        out.append("readonly -a ");
    }
    assert(out@ == start + array_declaration(readonly, local));
    out.append(binding);
    out.append("=(\"");
    out.append(expansion);
    out.append("\")\n");
}

/// The script's arguments bound as an array.
pub fn emit_process_args_binding(out: &mut String, binding: &str, readonly: bool, local: bool)
    ensures
        final(out)@ == old(out)@ + array_declaration(readonly, local) + binding@ + "=(\""@ + "${args[@]}"@ + "\")\n"@,
{
    emit_array_expansion_binding(out, binding, "${args[@]}", readonly, local);
}

/// `local -a binding` before an array is filled inside a function.
pub open spec fn local_array(binding: Seq<char>, local: bool) -> Seq<char> {
    if local { "local -a "@ + binding + "\n"@ } else { Seq::empty() }
}

/// `readonly -a binding` after a constant array is filled at the top level.
pub open spec fn readonly_array(binding: Seq<char>, readonly: bool, local: bool) -> Seq<char> {
    if readonly && !local { "readonly -a "@ + binding + "\n"@ } else { Seq::empty() }
}

fn emit_local_array(out: &mut String, binding: &str, local: bool)
    ensures
        final(out)@ == old(out)@ + local_array(binding@, local),
{
    let ghost start = out@;
    if local {
        out.append("local -a ");
        out.append(binding);
        out.append("\n");
    } else {
        assert(out@ =~= start + local_array(binding@, local));
    }
}

fn emit_readonly_array(out: &mut String, binding: &str, readonly: bool, local: bool)
    ensures
        final(out)@ == old(out)@ + readonly_array(binding@, readonly, local),
{
    let ghost start = out@;
    if readonly && !local {
        out.append("readonly -a ");
        out.append(binding);
        out.append("\n");
    } else {
        assert(out@ =~= start + readonly_array(binding@, readonly, local));
    }
}

/// `binding` gets the elements of `source` in reverse order.
pub fn emit_array_reverse_binding(out: &mut String, binding: &str, source: &str, readonly: bool, local: bool)
    ensures
        final(out)@ == old(out)@ + local_array(binding@, local) + binding@ + "=()\n"@
            + "for ((__nacre_i=${#"@ + source@ + "[@]} - 1; __nacre_i >= 0; __nacre_i--)); do\n"@
            + binding@ + "+=(\"${"@ + source@ + "[$__nacre_i]}\")\n"@ + "done\n"@
            + readonly_array(binding@, readonly, local),
{
    emit_local_array(out, binding, local);
    out.append(binding);
    out.append("=()\n");
    out.append("for ((__nacre_i=${#");
    out.append(source);
    out.append("[@]} - 1; __nacre_i >= 0; __nacre_i--)); do\n");
    out.append(binding);
    out.append("+=(\"${");
    out.append(source);
    out.append("[$__nacre_i]}\")\n");
    out.append("done\n");
    emit_readonly_array(out, binding, readonly, local);
}

/// `binding` gets the elements of `source`, sorted by `sort`.
pub fn emit_array_sort_binding(out: &mut String, binding: &str, source: &str, readonly: bool, local: bool)
    ensures
        final(out)@ == old(out)@ + local_array(binding@, local) + binding@ + "=()\n"@
            + "if [ \"${#"@ + source@ + "[@]}\" -gt 0 ]; then\n"@
            + "mapfile -t "@ + binding@ + " < <(printf '%s\\n' \"${"@ + source@ + "[@]}\" | sort)\n"@ + "fi\n"@
            + readonly_array(binding@, readonly, local),
{
    emit_local_array(out, binding, local);
    out.append(binding);
    out.append("=()\n");
    out.append("if [ \"${#");
    out.append(source);
    out.append("[@]}\" -gt 0 ]; then\n");
    out.append("mapfile -t ");
    out.append(binding);
    out.append(" < <(printf '%s\\n' \"${");
    out.append(source);
    out.append("[@]}\" | sort)\n");
    out.append("fi\n");
    emit_readonly_array(out, binding, readonly, local);
}

/// The loop that fills `binding` with the elements of `source`, each once,
/// in the order they first occur.
pub open spec fn unique_loop(binding: Seq<char>, source: Seq<char>) -> Seq<char> {
    binding + "=()\n"@ + "for __nacre_item in \"${"@ + source + "[@]}\"; do\n"@ + "__nacre_seen=false\n"@
        + "for __nacre_existing in \"${"@ + binding + "[@]}\"; do\n"@
        + "if [ \"$__nacre_existing\" = \"$__nacre_item\" ]; then __nacre_seen=true; break; fi\n"@
        + "done\n"@ + "if [ \"$__nacre_seen\" = false ]; then "@ + binding + "+=(\"$__nacre_item\"); fi\n"@ + "done\n"@
}

pub fn emit_array_unique_to(out: &mut String, binding: &str, source: &str)
    ensures
        final(out)@ == old(out)@ + unique_loop(binding@, source@),
{
    let ghost start = out@;
    out.append(binding);
    out.append("=()\n");
    out.append("for __nacre_item in \"${");
    out.append(source);
    out.append("[@]}\"; do\n");
    out.append("__nacre_seen=false\n");
    out.append("for __nacre_existing in \"${");
    out.append(binding);
    out.append("[@]}\"; do\n");
    out.append("if [ \"$__nacre_existing\" = \"$__nacre_item\" ]; then __nacre_seen=true; break; fi\n");
    out.append("done\n");
    out.append("if [ \"$__nacre_seen\" = false ]; then ");
    out.append(binding);
    out.append("+=(\"$__nacre_item\"); fi\n");
    out.append("done\n");
    assert(out@ =~= start + unique_loop(binding@, source@));
}

/// `binding` gets the elements of `source`, each once.
pub fn emit_array_unique_binding(out: &mut String, binding: &str, source: &str, readonly: bool, local: bool)
    ensures
        final(out)@ == old(out)@ + local_array(binding@, local) + unique_loop(binding@, source@)
            + readonly_array(binding@, readonly, local),
{
    emit_local_array(out, binding, local);
    emit_array_unique_to(out, binding, source);
    emit_readonly_array(out, binding, readonly, local);
}

/// Whether an array variable is empty, as `true` or `false`.
pub fn emit_is_empty(out: &mut String, name: &str)
    ensures
        final(out)@ == old(out)@ + "$(if [ \"${#"@ + name@ + "[@]}\" -eq 0 ]; then printf true; else printf false; fi)"@,
{
    out.append("$(if [ \"${#");
    out.append(name);
    out.append("[@]}\" -eq 0 ]; then printf true; else printf false; fi)");
}

/// The length of an array literal, known when the script is generated.
pub fn emit_array_len_value(out: &mut String, value: &Expr)
    ensures
        final(out)@ == old(out)@ + match *value {
            Expr::Array(values) => decimal(values@.len()),
            _ => "0"@,
        },
{
    match value {
        Expr::Array(values) => out.append(decimal_string(values.len()).as_str()),
        _ => out.append("0"),
    }
}

/// Whether an array literal is empty, known when the script is generated.
pub fn emit_array_is_empty_value(out: &mut String, value: &Expr)
    ensures
        final(out)@ == old(out)@ + if (value matches Expr::Array(values) && values@.len() == 0) { "true"@ } else { "false"@ },
{
    let empty = match value {
        Expr::Array(values) => values.len() == 0,
        _ => false,
    };
    if empty {
        out.append("true");
    } else {
        out.append("false");
    }
}

/// `"${name[0]}"`.
pub fn emit_array_first(out: &mut String, name: &str)
    ensures
        final(out)@ == old(out)@ + "\"${"@ + name@ + "[0]}\""@,
{
    out.append("\"${");
    out.append(name);
    out.append("[0]}\"");
}

/// The last element of an array variable, or nothing when it is empty.
pub fn emit_array_last(out: &mut String, name: &str)
    ensures
        final(out)@ == old(out)@ + "$(if [ \"${#"@ + name@ + "[@]}\" -gt 0 ]; then printf '%s' \"${"@ + name@
            + "[$((${#"@ + name@ + "[@]} - 1))]}\"; fi)"@,
{
    out.append("$(if [ \"${#");
    out.append(name);
    out.append("[@]}\" -gt 0 ]; then printf '%s' \"${");
    out.append(name);
    out.append("[$((${#");
    out.append(name);
    out.append("[@]} - 1))]}\"; fi)");
}

/// The elements of an array variable in reverse order, one per line.
pub fn emit_array_reverse_value(out: &mut String, name: &str)
    ensures
        final(out)@ == old(out)@ + "$(__nacre_reverse=(); for ((__nacre_i=${#"@ + name@
            + "[@]} - 1; __nacre_i >= 0; __nacre_i--)); do __nacre_reverse+=(\"${"@ + name@
            + "[$__nacre_i]}\"); done; printf '%s\\n' \"${__nacre_reverse[@]}\")"@,
{
    out.append("$(__nacre_reverse=(); for ((__nacre_i=${#");
    out.append(name);
    out.append("[@]} - 1; __nacre_i >= 0; __nacre_i--)); do __nacre_reverse+=(\"${");
    out.append(name);
    out.append("[$__nacre_i]}\"); done; printf '%s\\n' \"${__nacre_reverse[@]}\")");
}

/// The elements of an array variable sorted, one per line.
pub fn emit_array_sort_value(out: &mut String, name: &str)
    ensures
        final(out)@ == old(out)@ + "$(if [ \"${#"@ + name@ + "[@]}\" -gt 0 ]; then printf '%s\\n' \"${"@ + name@
            + "[@]}\" | sort; fi)"@,
{
    out.append("$(if [ \"${#");
    out.append(name);
    out.append("[@]}\" -gt 0 ]; then printf '%s\\n' \"${");
    out.append(name);
    out.append("[@]}\" | sort; fi)");
}

/// The elements of an array variable, each once, one per line.
pub fn emit_array_unique_value(out: &mut String, name: &str)
    ensures
        final(out)@ == old(out)@ + "$(__nacre_unique=(); for __nacre_item in \"${"@ + name@
            + "[@]}\"; do __nacre_seen=false; for __nacre_existing in \"${__nacre_unique[@]}\"; do if [ \"$__nacre_existing\" = \"$__nacre_item\" ]; then __nacre_seen=true; break; fi; done; if [ \"$__nacre_seen\" = false ]; then __nacre_unique+=(\"$__nacre_item\"); fi; done; if [ \"${#__nacre_unique[@]}\" -gt 0 ]; then printf '%s\\n' \"${__nacre_unique[@]}\"; fi)"@,
{
    out.append("$(__nacre_unique=(); for __nacre_item in \"${");
    out.append(name);
    out.append("[@]}\"; do __nacre_seen=false; for __nacre_existing in \"${__nacre_unique[@]}\"; do if [ \"$__nacre_existing\" = \"$__nacre_item\" ]; then __nacre_seen=true; break; fi; done; if [ \"$__nacre_seen\" = false ]; then __nacre_unique+=(\"$__nacre_item\"); fi; done; if [ \"${#__nacre_unique[@]}\" -gt 0 ]; then printf '%s\\n' \"${__nacre_unique[@]}\"; fi)");
}

/// `"${!name[@]}"`: the keys of an associative array.
pub fn emit_map_keys_value(out: &mut String, name: &str)
    ensures
        final(out)@ == old(out)@ + "\"${!"@ + name@ + "[@]}\""@,
{
    out.append("\"${!");
    out.append(name);
    out.append("[@]}\"");
}

/// `"${name[@]}"`: the values of an associative array.
pub fn emit_map_values_value(out: &mut String, name: &str)
    ensures
        final(out)@ == old(out)@ + "\"${"@ + name@ + "[@]}\""@,
{
    out.append("\"${");
    out.append(name);
    out.append("[@]}\"");
}

/// `"${#name}"`: the length of a string variable.
pub fn emit_string_len(out: &mut String, name: &str)
    ensures
        final(out)@ == old(out)@ + "\"${#"@ + name@ + "}\""@,
{
    out.append("\"${#");
    out.append(name);
    out.append("}\"");
}

/// Whether a string variable is empty, as `true` or `false`.
pub fn emit_string_is_empty(out: &mut String, name: &str)
    ensures
        final(out)@ == old(out)@ + "$(if [ -z \"$"@ + name@ + "\" ]; then printf true; else printf false; fi)"@,
{
    out.append("$(if [ -z \"$");
    out.append(name);
    out.append("\" ]; then printf true; else printf false; fi)");
}

/// The questions about a string variable answered from its value alone.
#[derive(Debug, Copy, Clone, PartialEq, Eq)]
pub enum StringUnary {
    Len,
    IsEmpty,
}

pub fn emit_string_unary_name(out: &mut String, name: &str, op: StringUnary)
    ensures
        final(out)@ == old(out)@ + match op {
            StringUnary::Len => "\"${#"@ + name@ + "}\""@,
            StringUnary::IsEmpty => "$(if [ -z \"$"@ + name@ + "\" ]; then printf true; else printf false; fi)"@,
        },
{
    match op {
        StringUnary::Len => emit_string_len(out, name),
        StringUnary::IsEmpty => emit_string_is_empty(out, name),
    }
}

/// The path methods.
#[derive(Debug, Copy, Clone, PartialEq, Eq)]
pub enum PathMethod {
    Basename,
    Dirname,
    Stem,
    Extname,
    IsAbsolute,
}

pub open spec fn basename_text(name: Seq<char>) -> Seq<char> {
    "\"$(basename \"$"@ + name + "\")\""@
}

pub open spec fn dirname_text(name: Seq<char>) -> Seq<char> {
    "\"$(dirname \"$"@ + name + "\")\""@
}

/// The file name without its last extension; a leading dot does not start one.
pub open spec fn stem_text(name: Seq<char>) -> Seq<char> {
    "\"$("@ + "__nacre_path_base=$(basename \"$"@ + name + "\"); "@
        + "case \"$__nacre_path_base\" in .*.*) printf '%s' \"${__nacre_path_base%.*}\" ;; "@
        + ".*) printf '%s' \"$__nacre_path_base\" ;; "@ + "*.*) printf '%s' \"${__nacre_path_base%.*}\" ;; "@
        + "*) printf '%s' \"$__nacre_path_base\" ;; esac)\""@
}

/// The last extension with its dot; a leading dot does not start one.
pub open spec fn extname_text(name: Seq<char>) -> Seq<char> {
    "\"$("@ + "__nacre_path_base=$(basename \"$"@ + name + "\"); "@
        + "case \"$__nacre_path_base\" in .*.*) printf '%s' \".${__nacre_path_base##*.}\" ;; "@
        + ".*) printf '' ;; *.*) printf '%s' \".${__nacre_path_base##*.}\" ;; "@ + "*) printf '' ;; esac)\""@
}

pub open spec fn is_absolute_text(name: Seq<char>) -> Seq<char> {
    "$(case \"$"@ + name + "\" in /*) printf true ;; *) printf false ;; esac)"@
}

pub fn emit_path_basename(out: &mut String, name: &str)
    ensures
        final(out)@ == old(out)@ + basename_text(name@),
{
    let ghost start = out@;
    out.append("\"$(basename \"$");
    out.append(name);
    out.append("\")\"");
    assert(out@ =~= start + basename_text(name@));
}

pub fn emit_path_dirname(out: &mut String, name: &str)
    ensures
        final(out)@ == old(out)@ + dirname_text(name@),
{
    let ghost start = out@;
    out.append("\"$(dirname \"$");
    out.append(name);
    out.append("\")\"");
    assert(out@ =~= start + dirname_text(name@));
}

pub fn emit_path_stem(out: &mut String, name: &str)
    ensures
        final(out)@ == old(out)@ + stem_text(name@),
{
    let ghost start = out@;
    out.append("\"$(");
    out.append("__nacre_path_base=$(basename \"$");
    out.append(name);
    out.append("\"); ");
    out.append("case \"$__nacre_path_base\" in .*.*) printf '%s' \"${__nacre_path_base%.*}\" ;; ");
    out.append(".*) printf '%s' \"$__nacre_path_base\" ;; ");
    out.append("*.*) printf '%s' \"${__nacre_path_base%.*}\" ;; ");
    out.append("*) printf '%s' \"$__nacre_path_base\" ;; esac)\"");
    assert(out@ =~= start + stem_text(name@));
}

pub fn emit_path_extname(out: &mut String, name: &str)
    ensures
        final(out)@ == old(out)@ + extname_text(name@),
{
    let ghost start = out@;
    out.append("\"$(");
    out.append("__nacre_path_base=$(basename \"$");
    out.append(name);
    out.append("\"); ");
    out.append("case \"$__nacre_path_base\" in .*.*) printf '%s' \".${__nacre_path_base##*.}\" ;; ");
    out.append(".*) printf '' ;; *.*) printf '%s' \".${__nacre_path_base##*.}\" ;; ");
    out.append("*) printf '' ;; esac)\"");
    assert(out@ =~= start + extname_text(name@));
}

pub fn emit_path_is_absolute(out: &mut String, name: &str)
    ensures
        final(out)@ == old(out)@ + is_absolute_text(name@),
{
    let ghost start = out@;
    out.append("$(case \"$");
    out.append(name);
    out.append("\" in /*) printf true ;; *) printf false ;; esac)");
    assert(out@ =~= start + is_absolute_text(name@));
}

pub fn emit_path_method_name(out: &mut String, name: &str, method: PathMethod)
    ensures
        final(out)@ == old(out)@ + match method {
            PathMethod::Basename => basename_text(name@),
            PathMethod::Dirname => dirname_text(name@),
            PathMethod::Stem => stem_text(name@),
            PathMethod::Extname => extname_text(name@),
            PathMethod::IsAbsolute => is_absolute_text(name@),
        },
{
    match method {
        PathMethod::Basename => emit_path_basename(out, name),
        PathMethod::Dirname => emit_path_dirname(out, name),
        PathMethod::Stem => emit_path_stem(out, name),
        PathMethod::Extname => emit_path_extname(out, name),
        PathMethod::IsAbsolute => emit_path_is_absolute(out, name),
    }
}

/// Removes the last element of an array variable when it has one.
pub fn emit_array_pop(out: &mut String, name: &str)
    ensures
        final(out)@ == old(out)@ + "if [ \"${#"@ + name@ + "[@]}\" -gt 0 ]; then unset \""@ + name@ + "[$((${#"@ + name@
            + "[@]} - 1))]\"; "@ + name@ + "=(\"${"@ + name@ + "[@]}\"); fi\n"@,
{
    out.append("if [ \"${#");
    out.append(name);
    out.append("[@]}\" -gt 0 ]; then unset \"");
    out.append(name);
    out.append("[$((${#");
    out.append(name);
    out.append("[@]} - 1))]\"; ");
    out.append(name);
    out.append("=(\"${");
    out.append(name);
    out.append("[@]}\"); fi\n");
}

/// The head of a call: a name that may hold a function value goes through
/// the closure runtime; any other name is called directly.
pub fn emit_call_head(out: &mut String, name: &str)
    ensures
        final(out)@ == old(out)@ + if valid_name(name@) { "__nacre_call \"$"@ + name@ + "\""@ } else { name@ },
{
    if is_shell_name(name) {
        out.append("__nacre_call \"$");
        out.append(name);
        out.append("\"");
    } else {
        out.append(name);
    }
}

/// The declaration of the associative array that the parsed options fill:
/// `local -A` inside a function, `declare -A` otherwise.
pub open spec fn cli_declaration(binding: Seq<char>, local: bool) -> Seq<char> {
    (if local { "local -A "@ } else { "declare -A "@ }) + binding + "\n"@
}

/// The loop that reads `--key=value`, `--key value` and `--flag` from the
/// script's arguments into `binding`.
pub open spec fn cli_parse_loop(binding: Seq<char>, local: bool) -> Seq<char> {
    (if local { "local "@ } else { Seq::empty() })
        + "__nacre_cli_pending=''\nfor __nacre_cli_arg in \"${args[@]}\"; do\n"@
        + "if [[ \"$__nacre_cli_arg\" == --*=* ]]; then\n"@
        + "__nacre_cli_key=\"${__nacre_cli_arg%%=*}\"\n"@
        + "__nacre_cli_key=\"${__nacre_cli_key#--}\"\n"@
        + binding + "[\"$__nacre_cli_key\"]=\"${__nacre_cli_arg#*=}\"\n"@
        + "__nacre_cli_pending=''\n"@
        + "elif [[ \"$__nacre_cli_arg\" == --* ]]; then\n"@
        + "__nacre_cli_key=\"${__nacre_cli_arg#--}\"\n"@
        + binding + "[\"$__nacre_cli_key\"]=true\n"@
        + "__nacre_cli_pending=\"$__nacre_cli_key\"\n"@
        + "elif [ -n \"$__nacre_cli_pending\" ]; then\n"@
        + binding + "[\"$__nacre_cli_pending\"]=\"$__nacre_cli_arg\"\n"@
        + "__nacre_cli_pending=''\n"@
        + "fi\ndone\nunset __nacre_cli_pending __nacre_cli_arg __nacre_cli_key\n"@
}

/// `readonly -A binding` after a constant option table is filled at the top
/// level.
pub open spec fn readonly_table(binding: Seq<char>, readonly: bool, local: bool) -> Seq<char> {
    if readonly && !local { "readonly -A "@ + binding + "\n"@ } else { Seq::empty() }
}

/// The command-line options of the script parsed into an associative array.
pub fn emit_cli_parse_binding(out: &mut String, binding: &str, readonly: bool, local: bool)
    ensures
        final(out)@ == old(out)@ + cli_declaration(binding@, local) + cli_parse_loop(binding@, local)
            + readonly_table(binding@, readonly, local),
{
    let ghost start = out@;
    if local {
        out.append("local -A ");
    } else {
        out.append("declare -A ");
    }
    out.append(binding);
    out.append("\n");
    assert(out@ =~= start + cli_declaration(binding@, local));
    let ghost declared = out@;
    if local {
        out.append("local ");
    }
    assert(out@ =~= declared + (if local { "local "@ } else { Seq::<char>::empty() }));
    out.append("__nacre_cli_pending=''\nfor __nacre_cli_arg in \"${args[@]}\"; do\n");
    out.append("if [[ \"$__nacre_cli_arg\" == --*=* ]]; then\n");
    out.append("__nacre_cli_key=\"${__nacre_cli_arg%%=*}\"\n");
    out.append("__nacre_cli_key=\"${__nacre_cli_key#--}\"\n");
    out.append(binding);
    out.append("[\"$__nacre_cli_key\"]=\"${__nacre_cli_arg#*=}\"\n");
    out.append("__nacre_cli_pending=''\n");
    out.append("elif [[ \"$__nacre_cli_arg\" == --* ]]; then\n");
    out.append("__nacre_cli_key=\"${__nacre_cli_arg#--}\"\n");
    out.append(binding);
    out.append("[\"$__nacre_cli_key\"]=true\n");
    out.append("__nacre_cli_pending=\"$__nacre_cli_key\"\n");
    out.append("elif [ -n \"$__nacre_cli_pending\" ]; then\n");
    out.append(binding);
    out.append("[\"$__nacre_cli_pending\"]=\"$__nacre_cli_arg\"\n");
    out.append("__nacre_cli_pending=''\n");
    out.append("fi\ndone\nunset __nacre_cli_pending __nacre_cli_arg __nacre_cli_key\n");
    assert(out@ =~= declared + cli_parse_loop(binding@, local));
    let ghost parsed = out@;
    if readonly && !local {
        out.append("readonly -A ");
        out.append(binding);
        out.append("\n");
    }
    assert(out@ =~= parsed + readonly_table(binding@, readonly, local));
}

} // verus!
