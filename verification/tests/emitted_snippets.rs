use nacre::ast::Expr;
use nacre::emitter::{
    constructor_record_fields, emit_array_is_empty_value, emit_array_reverse_binding, emit_array_reverse_value,
    emit_array_sort_binding, emit_array_sort_value, emit_array_unique_binding, emit_array_unique_value,
    emit_await_binding, emit_discard_await, emit_map_keys_value, emit_map_values_value, emit_path_method_name,
    emit_process_args_binding, emit_string_unary_name, EmitScope, PathMethod, StringUnary,
};

fn emitted(f: impl FnOnce(&mut String)) -> String {
    let mut out = String::new();
    f(&mut out);
    out
}

#[test]
fn awaiting_a_future_reads_its_output() {
    assert_eq!(
        emitted(|out| emit_await_binding(out, "x", "job", true, false)),
        "if wait \"$job_pid\"; then\nx=\"$(cat \"$job_out\")\"\nrm -f \"$job_out\"\n\
else\n__nacre_status=$?\nrm -f \"$job_out\"\nexit $__nacre_status\nfi\nreadonly x\n"
    );
    assert_eq!(
        emitted(|out| emit_await_binding(out, "x", "job", true, true)),
        "local x\nif wait \"$job_pid\"; then\nx=\"$(cat \"$job_out\")\"\nrm -f \"$job_out\"\n\
else\n__nacre_status=$?\nrm -f \"$job_out\"\nexit $__nacre_status\nfi\n"
    );
    assert_eq!(
        emitted(|out| emit_discard_await(out, "job")),
        "if wait \"$job_pid\"; then\nrm -f \"$job_out\"\nelse\n__nacre_status=$?\nrm -f \"$job_out\"\n\
exit $__nacre_status\nfi\n"
    );
}

#[test]
fn array_bindings_copy_their_source() {
    assert_eq!(
        emitted(|out| emit_process_args_binding(out, "argv", true, false)),
        "readonly -a argv=(\"${args[@]}\")\n"
    );
    assert_eq!(
        emitted(|out| emit_array_reverse_binding(out, "ys", "xs", true, false)),
        "ys=()\nfor ((__nacre_i=${#xs[@]} - 1; __nacre_i >= 0; __nacre_i--)); do\nys+=(\"${xs[$__nacre_i]}\")\ndone\n\
readonly -a ys\n"
    );
    assert_eq!(
        emitted(|out| emit_array_sort_binding(out, "ys", "xs", false, true)),
        "local -a ys\nys=()\nif [ \"${#xs[@]}\" -gt 0 ]; then\nmapfile -t ys < <(printf '%s\\n' \"${xs[@]}\" | sort)\nfi\n"
    );
    assert_eq!(
        emitted(|out| emit_array_unique_binding(out, "ys", "xs", false, false)),
        "ys=()\nfor __nacre_item in \"${xs[@]}\"; do\n__nacre_seen=false\nfor __nacre_existing in \"${ys[@]}\"; do\n\
if [ \"$__nacre_existing\" = \"$__nacre_item\" ]; then __nacre_seen=true; break; fi\ndone\n\
if [ \"$__nacre_seen\" = false ]; then ys+=(\"$__nacre_item\"); fi\ndone\n"
    );
}

#[test]
fn array_and_map_values_expand_in_place() {
    assert_eq!(emitted(|out| emit_array_is_empty_value(out, &Expr::Array(Vec::new()))), "true");
    assert_eq!(emitted(|out| emit_array_is_empty_value(out, &Expr::Array(vec![Expr::Int(1)]))), "false");
    assert_eq!(emitted(|out| emit_array_is_empty_value(out, &Expr::Int(1))), "false");
    assert_eq!(
        emitted(|out| emit_array_reverse_value(out, "xs")),
        "$(__nacre_reverse=(); for ((__nacre_i=${#xs[@]} - 1; __nacre_i >= 0; __nacre_i--)); do \
__nacre_reverse+=(\"${xs[$__nacre_i]}\"); done; printf '%s\\n' \"${__nacre_reverse[@]}\")"
    );
    assert_eq!(
        emitted(|out| emit_array_sort_value(out, "xs")),
        "$(if [ \"${#xs[@]}\" -gt 0 ]; then printf '%s\\n' \"${xs[@]}\" | sort; fi)"
    );
    assert_eq!(
        emitted(|out| emit_array_unique_value(out, "xs")),
        "$(__nacre_unique=(); for __nacre_item in \"${xs[@]}\"; do __nacre_seen=false; for __nacre_existing in \
\"${__nacre_unique[@]}\"; do if [ \"$__nacre_existing\" = \"$__nacre_item\" ]; then __nacre_seen=true; break; fi; \
done; if [ \"$__nacre_seen\" = false ]; then __nacre_unique+=(\"$__nacre_item\"); fi; done; if [ \
\"${#__nacre_unique[@]}\" -gt 0 ]; then printf '%s\\n' \"${__nacre_unique[@]}\"; fi)"
    );
    assert_eq!(emitted(|out| emit_map_keys_value(out, "m")), "\"${!m[@]}\"");
    assert_eq!(emitted(|out| emit_map_values_value(out, "m")), "\"${m[@]}\"");
}

#[test]
fn string_and_path_queries_by_name() {
    assert_eq!(emitted(|out| emit_string_unary_name(out, "s", StringUnary::Len)), "\"${#s}\"");
    assert_eq!(
        emitted(|out| emit_string_unary_name(out, "s", StringUnary::IsEmpty)),
        "$(if [ -z \"$s\" ]; then printf true; else printf false; fi)"
    );
    assert_eq!(emitted(|out| emit_path_method_name(out, "p", PathMethod::Dirname)), "\"$(dirname \"$p\")\"");
    assert_eq!(
        emitted(|out| emit_path_method_name(out, "p", PathMethod::Stem)),
        "\"$(__nacre_path_base=$(basename \"$p\"); case \"$__nacre_path_base\" in .*.*) printf '%s' \
\"${__nacre_path_base%.*}\" ;; .*) printf '%s' \"$__nacre_path_base\" ;; *.*) printf '%s' \
\"${__nacre_path_base%.*}\" ;; *) printf '%s' \"$__nacre_path_base\" ;; esac)\""
    );
}

#[test]
fn record_constructors_and_scopes() {
    let ctor = Expr::ResultErr(Box::new(Expr::Record(vec![("x".to_string(), Expr::Int(1))])));
    let (tag, fields) = constructor_record_fields(&ctor).unwrap();
    assert_eq!(tag, '0');
    assert_eq!(fields.len(), 1);
    assert_eq!(fields[0].0, "x");
    assert!(constructor_record_fields(&Expr::Int(1)).is_none());
    assert!(EmitScope::Function.is_function());
    assert!(!EmitScope::TopLevel.is_function());
}
