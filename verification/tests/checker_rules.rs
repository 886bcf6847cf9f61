use nacre::ast::{
    AssignTarget, BinaryOp, BindingPattern, DoStep, Expr, ForBinding, ImplMethod, MatchArm, Param, Program, Statement,
    TraitMethod, Type, VariantDecl,
};
use nacre::checker::captures::capture_suffixes;
use nacre::checker::statements::collect_declared_names;
use nacre::checker::{type_check, type_check_with_policy, TypeChecker};
use nacre::collections::AssocMap;
use nacre::emitter::{
    constructor_tuple_values, destructure_source_name, emit_array_first, emit_cli_parse_binding, emit_array_last, emit_array_len_value,
    emit_array_pop, emit_call_head, emit_field, emit_is_empty, emit_path_basename, emit_tuple_field, emit_use,
    emit_variable_ref, is_bash_reserved_word, is_newline_separator, is_shell_name, shell_function_name,
    string_transform_temp_name, StringTransform,
};
use nacre::names::{impl_method_name, is_valid_name, method_call_parts};
use nacre::policy::{CommandPolicy, ExecutionPolicy};
use nacre::validation::program_flow;

fn constant(name: &str, expr: Expr) -> Statement {
    Statement::Const {
        name: name.to_string(),
        annotation: None,
        expr,
    }
}

fn typed_constant(name: &str, ty: Type, expr: Expr) -> Statement {
    Statement::Const {
        name: name.to_string(),
        annotation: Some(ty),
        expr,
    }
}

fn ident(name: &str) -> Expr {
    Expr::Ident(name.to_string())
}

fn text(value: &str) -> Expr {
    Expr::String(value.to_string())
}

fn param(name: &str, ty: Type) -> Param {
    Param {
        name: name.to_string(),
        ty,
        default: None,
        variadic: false,
        capture_name: None,
    }
}

fn lines_of(n: usize) -> Vec<usize> {
    (1..=n).collect()
}

fn error_of(statements: Vec<Statement>) -> (usize, String) {
    let n = statements.len();
    let program = Program::new(statements, lines_of(n));
    let error = type_check(&program).unwrap_err();
    (error.line(), error.message().to_string())
}

fn checks(statements: Vec<Statement>) -> bool {
    let n = statements.len();
    type_check(&Program::new(statements, lines_of(n))).is_ok()
}

#[test]
fn errors_name_the_line_of_the_failing_statement() {
    let program = Program::new(
        vec![constant("x", Expr::Int(1)), constant("y", ident("missing"))],
        vec![3, 7],
    );
    let error = type_check(&program).unwrap_err();
    assert_eq!(error.line(), 7);
    assert_eq!(error.message(), "undefined variable `missing`");
}

#[test]
fn errors_in_nested_blocks_name_the_nested_line() {
    let program = Program::new(
        vec![Statement::If {
            condition: Expr::Bool(true),
            then_branch: Program::new(vec![constant("a", ident("missing"))], vec![5]),
            else_branch: None,
        }],
        vec![2],
    );
    assert_eq!(type_check(&program).unwrap_err().line(), 5);
}

#[test]
fn empty_program_checks() {
    assert!(type_check(&Program::new(Vec::new(), Vec::new())).is_ok());
}

#[test]
fn shell_commands_are_rejected() {
    let (line, message) = error_of(vec![Statement::Command("ls".to_string())]);
    assert_eq!(line, 1);
    assert!(message.starts_with("unsafe shell execution is disabled"));
    let (_, message) = error_of(vec![constant(
        "x",
        Expr::Command {
            command: "ls".to_string(),
            checked: true,
        },
    )]);
    assert!(message.starts_with("unsafe shell execution is disabled"));
}

#[test]
fn filesystem_reads_need_a_read_root() {
    let statements = || {
        vec![constant(
            "exists",
            Expr::FsIsFile {
                path: Box::new(text("/tmp/a")),
            },
        )]
    };
    let (_, message) = error_of(statements());
    assert_eq!(
        message,
        "filesystem read requires at least one allowed filesystem read root"
    );
    let policy = ExecutionPolicy {
        commands: Vec::new(),
        read_roots: vec!["/tmp".to_string()],
        write_roots: Vec::new(),
    };
    assert!(type_check_with_policy(&Program::new(statements(), vec![1]), &policy).is_ok());
}

#[test]
fn filesystem_writes_need_a_write_root() {
    let (_, message) = error_of(vec![Statement::Expr(Expr::FsWriteLines {
        path: Box::new(text("/tmp/a")),
        lines: Box::new(Expr::Array(vec![text("x")])),
    })]);
    assert_eq!(
        message,
        "fs.writeLines requires at least one allowed filesystem write root"
    );
}

#[test]
fn commands_must_be_allowed_by_the_policy() {
    let call = || {
        vec![constant(
            "status",
            Expr::AllowedCommand {
                group: "git".to_string(),
                command: "status".to_string(),
                args: vec![text("--short")],
                result: false,
                program: None,
                read_args: Vec::new(),
                write_args: Vec::new(),
            },
        )]
    };
    let (_, message) = error_of(call());
    assert_eq!(
        message,
        "command `git.status` is not allowed by the execution policy"
    );
    let policy = ExecutionPolicy {
        commands: vec![CommandPolicy {
            group: "git".to_string(),
            command: "status".to_string(),
            program: "git".to_string(),
            read_args: Vec::new(),
            write_args: Vec::new(),
        }],
        read_roots: Vec::new(),
        write_roots: Vec::new(),
    };
    assert!(type_check_with_policy(&Program::new(call(), vec![1]), &policy).is_ok());
}

#[test]
fn bindings_follow_const_and_let_rules() {
    let (_, message) = error_of(vec![
        constant("x", Expr::Int(1)),
        Statement::Assign {
            target: AssignTarget::Name("x".to_string()),
            expr: Expr::Int(2),
        },
    ]);
    assert_eq!(message, "cannot assign to const `x`");
    let (_, message) = error_of(vec![Statement::Assign {
        target: AssignTarget::Name("x".to_string()),
        expr: Expr::Int(1),
    }]);
    assert_eq!(message, "cannot assign to undefined variable `x`");
    let (line, message) = error_of(vec![constant("x", Expr::Int(1)), constant("x", Expr::Int(2))]);
    assert_eq!(line, 2);
    assert_eq!(message, "variable `x` is already defined");
    let (_, message) = error_of(vec![
        Statement::Let {
            name: "x".to_string(),
            annotation: None,
            expr: Expr::Int(1),
        },
        Statement::Assign {
            target: AssignTarget::Name("x".to_string()),
            expr: Expr::Bool(true),
        },
    ]);
    assert_eq!(message, "type mismatch for `x`: expected Int, found Bool");
    assert!(checks(vec![Statement::Assign {
        target: AssignTarget::Name("_".to_string()),
        expr: Expr::Int(1),
    }]));
}

#[test]
fn annotations_must_accept_the_value() {
    let (_, message) = error_of(vec![typed_constant("x", Type::Bool, Expr::Int(1))]);
    assert_eq!(message, "type annotation mismatch: expected Bool, found Int");
    assert!(checks(vec![typed_constant("code", Type::ExitCode, Expr::Int(0))]));
    let (_, message) = error_of(vec![typed_constant("code", Type::ExitCode, Expr::Int(256))]);
    assert_eq!(message, "type annotation mismatch: expected ExitCode, found Int");
    assert!(checks(vec![typed_constant("bin", Type::Path, text("/usr/bin"))]));
}

#[test]
fn operators_check_their_operands() {
    let binary = |left: Expr, op: BinaryOp, right: Expr| Expr::Binary {
        left: Box::new(left),
        op,
        right: Box::new(right),
    };
    let (_, message) = error_of(vec![constant("x", binary(Expr::Bool(true), BinaryOp::And, Expr::Int(1)))]);
    assert_eq!(message, "operator `&&` requires Bool operands, found Bool and Int");
    let (_, message) = error_of(vec![constant("x", binary(text("a"), BinaryOp::Concat, Expr::Int(1)))]);
    assert_eq!(
        message,
        "operator `++` requires String or Path operands, found String and Int"
    );
    let (_, message) = error_of(vec![constant("x", Expr::Not(Box::new(Expr::Int(1))))]);
    assert_eq!(message, "operator `!` requires Bool operand, found Int");
    let (_, message) = error_of(vec![constant("x", Expr::BitNot(Box::new(Expr::Bool(true))))]);
    assert!(message.contains("requires Int operands"));
    let (_, message) = error_of(vec![constant(
        "x",
        Expr::Cast {
            expr: Box::new(text("1")),
            ty: Type::Int,
        },
    )]);
    assert_eq!(message, "cannot cast String to Int");
    assert!(checks(vec![constant("x", binary(Expr::Int(1), BinaryOp::Add, Expr::Int(2)))]));
}

#[test]
fn literals_and_interpolations() {
    let (_, message) = error_of(vec![constant("x", Expr::Array(vec![Expr::Int(1), Expr::Bool(true)]))]);
    assert_eq!(message, "array elements must have matching types, found Int and Bool");
    let (_, message) = error_of(vec![typed_constant(
        "x",
        Type::Array(Box::new(Type::Bool)),
        Expr::Array(vec![Expr::Bool(true), Expr::Int(1)]),
    )]);
    assert!(message.contains("array elements"));
    let (_, message) = error_of(vec![constant("x", text("hello ${missing}"))]);
    assert_eq!(message, "undefined variable `missing` in string interpolation");
    let (_, message) = error_of(vec![constant("x", text("hello ${bad-name}"))]);
    assert!(message.contains("invalid interpolation name"));
    let (_, message) = error_of(vec![constant("x", text("hello ${missing"))]);
    assert!(message.contains("unterminated string interpolation"));
    let (_, message) = error_of(vec![constant("x", Expr::Tuple(vec![Expr::Int(1)]))]);
    assert_eq!(message, "tuple literal requires at least two elements");
    assert!(checks(vec![
        constant("name", text("Ada")),
        constant("greeting", text("Hello, ${name}")),
    ]));
}

#[test]
fn calls_check_arguments_and_returns() {
    let greet = Statement::Function {
        name: "greet".to_string(),
        override_constructor: false,
        type_params: Vec::new(),
        params: vec![param("name", Type::String)],
        return_type: Type::String,
        body: Program::new(vec![Statement::Return(ident("name"))], vec![2]),
    };
    let (_, message) = error_of(vec![
        greet,
        constant(
            "x",
            Expr::Call {
                name: "greet".to_string(),
                args: vec![Expr::Int(1)],
            },
        ),
    ]);
    assert_eq!(
        message,
        "argument `name` for function `greet`: expected String, found Int"
    );
    let (_, message) = error_of(vec![Statement::Function {
        name: "f".to_string(),
        override_constructor: false,
        type_params: Vec::new(),
        params: Vec::new(),
        return_type: Type::Int,
        body: Program::new(vec![constant("a", Expr::Int(1))], vec![2]),
    }]);
    assert_eq!(message, "function `f` must return Int");
    let (_, message) = error_of(vec![Statement::Function {
        name: "apply".to_string(),
        override_constructor: false,
        type_params: Vec::new(),
        params: vec![param(
            "f",
            Type::Function(vec![Type::String], Box::new(Type::String)),
        )],
        return_type: Type::String,
        body: Program::new(
            vec![Statement::Return(Expr::Call {
                name: "f".to_string(),
                args: vec![Expr::Int(1)],
            })],
            vec![2],
        ),
    }]);
    assert!(message.contains("argument 1"));
}

#[test]
fn matches_cover_every_case() {
    let color = Statement::SumType {
        name: "Color".to_string(),
        type_params: Vec::new(),
        variants: vec![
            VariantDecl {
                name: "Red".to_string(),
                fields: Vec::new(),
            },
            VariantDecl {
                name: "Green".to_string(),
                fields: Vec::new(),
            },
        ],
    };
    let arm = |pattern: Option<Expr>, value: Expr| MatchArm {
        pattern,
        guard: None,
        expr: value,
    };
    let (_, message) = error_of(vec![
        color,
        constant("c", ident("Red")),
        constant(
            "n",
            Expr::Match {
                value: Box::new(ident("c")),
                arms: vec![arm(Some(ident("Red")), Expr::Int(1))],
            },
        ),
    ]);
    assert_eq!(message, "non-exhaustive match; missing cases: Green");
    let (_, message) = error_of(vec![constant(
        "n",
        Expr::Match {
            value: Box::new(Expr::Bool(true)),
            arms: vec![arm(Some(Expr::Bool(true)), Expr::Int(1))],
        },
    )]);
    assert_eq!(message, "non-exhaustive match; missing cases: false");
    let (_, message) = error_of(vec![constant(
        "n",
        Expr::Match {
            value: Box::new(Expr::Int(3)),
            arms: vec![arm(Some(Expr::Int(1)), Expr::Int(1))],
        },
    )]);
    assert_eq!(message, "match expression requires wildcard `_` arm");
    assert!(checks(vec![constant(
        "label",
        Expr::Match {
            value: Box::new(Expr::Int(3)),
            arms: vec![arm(Some(Expr::Int(1)), text("one")), arm(None, text("other"))],
        },
    )]));
}

#[test]
fn traits_need_every_method() {
    let show = Statement::Trait {
        name: "Show".to_string(),
        type_param: "T".to_string(),
        methods: vec![TraitMethod {
            name: "show".to_string(),
            params: vec![param("value", Type::Named("T".to_string()))],
            return_type: Type::String,
        }],
    };
    let (_, message) = error_of(vec![
        show,
        Statement::Impl {
            trait_name: "Show".to_string(),
            for_type: Type::Int,
            methods: Vec::new(),
        },
    ]);
    assert_eq!(message, "impl for trait `Show` is missing method `show`");
    let (_, message) = error_of(vec![Statement::Impl {
        trait_name: "Missing".to_string(),
        for_type: Type::Int,
        methods: vec![ImplMethod {
            name: "show".to_string(),
            params: Vec::new(),
            return_type: Type::String,
            body: Program::new(Vec::new(), Vec::new()),
        }],
    }]);
    assert_eq!(message, "unknown trait `Missing`");
}

#[test]
fn newtypes_wrap_their_base() {
    let user_id = Statement::Newtype {
        name: "UserId".to_string(),
        type_params: Vec::new(),
        base: Type::Int,
    };
    let (_, message) = error_of(vec![
        user_id,
        constant(
            "id",
            Expr::NewtypeCtor {
                name: "UserId".to_string(),
                value: Box::new(text("x")),
            },
        ),
    ]);
    assert_eq!(message, "newtype constructor `UserId` expected Int, found String");
}

#[test]
fn destructuring_binds_each_part() {
    assert!(checks(vec![
        constant("pair", Expr::Tuple(vec![text("localhost"), Expr::Int(8080)])),
        Statement::Destructure {
            mutable: false,
            pattern: BindingPattern::Tuple(vec![
                BindingPattern::Name("host".to_string()),
                BindingPattern::Name("port".to_string()),
            ]),
            expr: ident("pair"),
        },
        constant("copy", ident("port")),
    ]));
    let (_, message) = error_of(vec![
        constant("n", Expr::Int(1)),
        Statement::Destructure {
            mutable: false,
            pattern: BindingPattern::Tuple(vec![BindingPattern::Name("a".to_string())]),
            expr: ident("n"),
        },
    ]);
    assert_eq!(message, "tuple destructuring requires tuple value, found Int");
    assert!(checks(vec![
        constant("names", Expr::Array(vec![text("a"), text("b")])),
        Statement::For {
            binding: ForBinding::Name("name".to_string()),
            iterable: ident("names"),
            body: Program::new(vec![constant("copy", ident("name"))], vec![3]),
        },
    ]));
}

#[test]
fn option_methods_take_lambdas() {
    assert!(checks(vec![
        constant("maybe", Expr::OptionSome(Box::new(Expr::Int(1)))),
        constant(
            "next",
            Expr::OptionMap {
                name: "maybe".to_string(),
                mapper: Box::new(Expr::Lambda {
                    params: vec!["x".to_string()],
                    body: Box::new(Expr::Binary {
                        left: Box::new(ident("x")),
                        op: BinaryOp::Add,
                        right: Box::new(Expr::Int(1)),
                    }),
                }),
            },
        ),
        constant(
            "value",
            Expr::Default {
                value: Box::new(ident("next")),
                fallback: Box::new(Expr::Int(0)),
            },
        ),
        typed_constant("again", Type::Int, ident("value")),
    ]));
    let (_, message) = error_of(vec![constant(
        "x",
        Expr::Default {
            value: Box::new(Expr::Int(1)),
            fallback: Box::new(Expr::Int(0)),
        },
    )]);
    assert_eq!(message, "operator `??` requires Option or Result value, found Int");
}

#[test]
fn values_of_tuples_and_json() {
    let checker = TypeChecker::default();
    let pair = Expr::Tuple(vec![Expr::Int(1), text("a")]);
    assert_eq!(checker.check_tuple_field_value(&pair, 2, 1).unwrap(), Type::String);
    assert!(checker.check_tuple_field_value(&pair, 0, 1).is_err());
    assert_eq!(
        checker.check_tuple_field_value(&pair, 3, 1).unwrap_err().message(),
        "tuple value has no field _3; it has 2 fields"
    );
    assert_eq!(
        checker.check_json_stringify_value(&Expr::Int(1), 1).unwrap_err().message(),
        "json.stringify value must be a map literal or json.parse result"
    );
}

#[test]
fn type_relations_on_concrete_types() {
    let checker = TypeChecker::default();
    let complex = Type::Function(
        vec![Type::Record(vec![("item".to_string(), Type::Array(Box::new(Type::Path)))])],
        Box::new(Type::Applied("Option".to_string(), vec![Type::Int])),
    );
    assert!(checker.is_assignable(&complex, &complex, &Expr::Unit));
    let union = Type::Union(vec![Type::String, Type::Int]);
    assert!(checker.is_assignable(&union, &Type::Int, &Expr::Int(1)));
    assert!(!checker.is_assignable(&union, &Type::Bool, &Expr::Bool(true)));
    assert!(checker.is_assignable(&Type::String, &Type::Path, &ident("p")));
    assert!(checker.is_assignable(&Type::Float, &Type::Int, &Expr::Int(1)));
    assert!(!checker.is_assignable(&Type::Int, &Type::Float, &Expr::Unit));
}

#[test]
fn define_then_lookup() {
    let mut checker = TypeChecker::default();
    checker.define("v", Type::Int, true, 1).unwrap();
    let binding = checker.lookup_binding("v").unwrap();
    assert_eq!(binding.ty, Type::Int);
    assert!(binding.mutable);
    assert_eq!(checker.lookup_binding("args").unwrap().ty, Type::Array(Box::new(Type::String)));
    assert!(checker.lookup_binding("w").is_none());
    assert!(checker.define("_", Type::Int, false, 1).is_ok());
}

#[test]
fn generated_names_are_valid() {
    let name = impl_method_name("a.b", &Type::Int, "x-y");
    assert_eq!(name, "__nacre_trait_a_b_Int_x_y");
    assert!(is_valid_name(&name));
    assert_eq!(method_call_parts("user.name"), Some(("user", "name")));
    assert_eq!(method_call_parts("a.b.c"), None);
    assert!(is_bash_reserved_word("done"));
    assert!(!is_bash_reserved_word("ls"));
    assert_eq!(shell_function_name("if"), "__nacre_keyword_if");
    assert_eq!(shell_function_name("greet"), "greet");
    assert!(is_shell_name("_x1"));
    assert!(!is_shell_name("1x"));
}

#[test]
fn emitter_helpers() {
    let mut out = String::from("# ");
    emit_use(&mut out, &["lib".to_string(), "util".to_string()]);
    assert_eq!(out, "# source \"$(dirname \"$0\")/lib/util.sh\"\n");
    assert_eq!(destructure_source_name(&ident("xs")), "xs");
    assert_eq!(destructure_source_name(&Expr::ProcessArgs), "args");
    assert_eq!(destructure_source_name(&Expr::Int(1)), "");
    assert!(is_newline_separator(&text("\n")));
    assert!(!is_newline_separator(&text(",")));
    assert_eq!(string_transform_temp_name(StringTransform::ToUpper), "__nacre_upper_value");
    let err = Expr::ResultErr(Box::new(Expr::Tuple(vec![Expr::Int(1), Expr::Int(2)])));
    let (tag, values) = constructor_tuple_values(&err).unwrap();
    assert_eq!(tag, '0');
    assert_eq!(values.len(), 2);
}

#[test]
fn flow_summaries_of_blocks() {
    let returns = Program::new(vec![Statement::Return(Expr::Int(1))], vec![1]);
    assert!(program_flow(&returns).always_returns());
    let breaks = Program::new(vec![Statement::Break], vec![1]);
    assert!(!program_flow(&breaks).always_returns());
    let both = Program::new(
        vec![Statement::If {
            condition: Expr::Bool(true),
            then_branch: Program::new(vec![Statement::Return(Expr::Int(1))], vec![2]),
            else_branch: Some(Program::new(vec![Statement::Return(Expr::Int(2))], vec![3])),
        }],
        vec![1],
    );
    assert!(program_flow(&both).always_returns());
}


#[test]
fn capture_suffixes_are_sorted_and_unique() {
    let record = Type::Record(vec![
        ("name".to_string(), Type::String),
        ("age".to_string(), Type::Int),
    ]);
    assert_eq!(capture_suffixes(&record), vec!["_age".to_string(), "_name".to_string()]);
    let option = Type::Applied("Option".to_string(), vec![record]);
    assert_eq!(
        capture_suffixes(&option),
        vec!["".to_string(), "_age".to_string(), "_name".to_string()]
    );
    let tuple = Type::Tuple(vec![Type::String, Type::Tuple(vec![Type::Int, Type::Bool])]);
    assert_eq!(
        capture_suffixes(&tuple),
        vec!["_1".to_string(), "_2_1".to_string(), "_2_2".to_string()]
    );
    let union = Type::Union(vec![Type::String, Type::Int]);
    assert_eq!(capture_suffixes(&union), vec!["".to_string()]);
    assert_eq!(capture_suffixes(&Type::Int), vec!["".to_string()]);
}

#[test]
fn declared_names_reach_nested_bodies() {
    let program = Program::new(
        vec![
            Statement::Function {
                name: "greet".to_string(),
                override_constructor: false,
                type_params: Vec::new(),
                params: vec![param("who", Type::String)],
                return_type: Type::Unit,
                body: Program::new(vec![constant("inner", Expr::Int(1))], vec![2]),
            },
            constant("top", Expr::Int(1)),
            Statement::Destructure {
                mutable: false,
                pattern: BindingPattern::Tuple(vec![
                    BindingPattern::Name("a".to_string()),
                    BindingPattern::Name("b".to_string()),
                ]),
                expr: ident("pair"),
            },
            Statement::For {
                binding: ForBinding::Name("item".to_string()),
                iterable: ident("items"),
                body: Program::new(vec![constant("copy", ident("item"))], vec![6]),
            },
        ],
        vec![1, 4, 5, 6],
    );
    let mut names = AssocMap::new();
    collect_declared_names(&program, &mut names);
    for name in ["greet", "who", "inner", "top", "a", "b", "item", "copy"] {
        assert!(names.contains_key(&name.to_string()), "{name}");
    }
    assert_eq!(names.len(), 8);
}

#[test]
fn operators_and_casts_program_checks() {
    let binary = |left: Expr, op: BinaryOp, right: Expr| Expr::Binary {
        left: Box::new(left),
        op,
        right: Box::new(right),
    };
    let statements = vec![
        constant("answer", Expr::Int(42)),
        constant("yes", Expr::Bool(true)),
        constant("text", text("hello")),
        constant(
            "home",
            Expr::EnvDefault {
                name: "HOME".to_string(),
                default: "/tmp".to_string(),
            },
        ),
        typed_constant("path", Type::Path, text("/tmp")),
        constant("copied", ident("answer")),
        Statement::Let {
            name: "count".to_string(),
            annotation: None,
            expr: binary(ident("answer"), BinaryOp::Add, Expr::Int(1)),
        },
        Statement::Assign {
            target: AssignTarget::Name("count".to_string()),
            expr: binary(ident("count"), BinaryOp::Div, Expr::Int(2)),
        },
        constant("sameInt", binary(ident("count"), BinaryOp::Eq, Expr::Int(21))),
        constant("sameBool", binary(ident("yes"), BinaryOp::Ne, Expr::Bool(false))),
        constant("sameString", binary(ident("text"), BinaryOp::Eq, ident("home"))),
        constant("ordered", binary(ident("count"), BinaryOp::Ge, Expr::Int(0))),
        constant("both", binary(ident("sameBool"), BinaryOp::And, ident("ordered"))),
        constant("either", binary(ident("both"), BinaryOp::Or, Expr::Bool(false))),
        constant("inverted", Expr::Not(Box::new(ident("either")))),
        constant("joined", binary(ident("text"), BinaryOp::Concat, ident("home"))),
        constant("pathJoined", binary(ident("path"), BinaryOp::Concat, text("/file"))),
        constant("bitMask", binary(Expr::Int(6), BinaryOp::BitAnd, Expr::Int(3))),
        constant("bitAny", binary(ident("bitMask"), BinaryOp::BitOr, Expr::Int(8))),
        constant("bitFlip", binary(ident("bitAny"), BinaryOp::BitXor, Expr::Int(1))),
        constant("shifted", binary(ident("bitFlip"), BinaryOp::Shl, Expr::Int(1))),
        constant("unshifted", binary(ident("shifted"), BinaryOp::Shr, Expr::Int(1))),
        constant("invertedBits", Expr::BitNot(Box::new(ident("unshifted")))),
        constant("bitCheck", binary(ident("bitMask"), BinaryOp::Eq, Expr::Int(2))),
        Statement::Newtype {
            name: "CastId".to_string(),
            type_params: Vec::new(),
            base: Type::Int,
        },
        constant("castRaw", Expr::Int(7)),
        typed_constant(
            "castId",
            Type::Named("CastId".to_string()),
            Expr::Cast {
                expr: Box::new(ident("castRaw")),
                ty: Type::Named("CastId".to_string()),
            },
        ),
        typed_constant(
            "castBack",
            Type::Int,
            Expr::Cast {
                expr: Box::new(ident("castId")),
                ty: Type::Int,
            },
        ),
        typed_constant(
            "pathText",
            Type::String,
            Expr::Cast {
                expr: Box::new(ident("path")),
                ty: Type::String,
            },
        ),
        constant("_", text("discarded")),
    ];
    let n = statements.len();
    type_check(&Program::new(statements, lines_of(n))).unwrap();
}

#[test]
fn call_counts_are_checked_before_arguments() {
    let greet = Statement::Function {
        name: "greet".to_string(),
        override_constructor: false,
        type_params: Vec::new(),
        params: vec![param("name", Type::String)],
        return_type: Type::String,
        body: Program::new(vec![Statement::Return(ident("name"))], vec![2]),
    };
    let (_, message) = error_of(vec![
        greet,
        constant(
            "x",
            Expr::Call {
                name: "greet".to_string(),
                args: vec![text("a"), text("b")],
            },
        ),
    ]);
    assert_eq!(message, "function `greet` expects 1..1 arguments, found 2");
    let (_, message) = error_of(vec![constant(
        "x",
        Expr::Call {
            name: "nothing".to_string(),
            args: Vec::new(),
        },
    )]);
    assert_eq!(message, "undefined function `nothing`");
    let (_, message) = error_of(vec![
        constant("n", Expr::Int(1)),
        constant(
            "x",
            Expr::Call {
                name: "n".to_string(),
                args: Vec::new(),
            },
        ),
    ]);
    assert_eq!(message, "`n` is not callable");
    let (_, message) = error_of(vec![Statement::Function {
        name: "apply".to_string(),
        override_constructor: false,
        type_params: Vec::new(),
        params: vec![param(
            "f",
            Type::Function(vec![Type::String], Box::new(Type::String)),
        )],
        return_type: Type::String,
        body: Program::new(
            vec![Statement::Return(Expr::Call {
                name: "f".to_string(),
                args: vec![text("a"), text("b")],
            })],
            vec![2],
        ),
    }]);
    assert_eq!(message, "function value `f` expects 1 arguments, found 2");
    let shape = Statement::SumType {
        name: "Shape".to_string(),
        type_params: Vec::new(),
        variants: vec![VariantDecl {
            name: "Circle".to_string(),
            fields: vec![Type::Int],
        }],
    };
    let (_, message) = error_of(vec![
        shape,
        constant(
            "x",
            Expr::Call {
                name: "Circle".to_string(),
                args: Vec::new(),
            },
        ),
    ]);
    assert_eq!(message, "variant `Circle` expects 1 arguments, found 0");
}

#[test]
fn impls_define_exactly_the_trait_methods() {
    let show = || Statement::Trait {
        name: "Show".to_string(),
        type_param: "T".to_string(),
        methods: vec![TraitMethod {
            name: "show".to_string(),
            params: vec![param("value", Type::Named("T".to_string()))],
            return_type: Type::String,
        }],
    };
    let method = |name: &str| ImplMethod {
        name: name.to_string(),
        params: vec![param("value", Type::Int)],
        return_type: Type::String,
        body: Program::new(vec![Statement::Return(text("n"))], vec![5]),
    };
    let (_, message) = error_of(vec![
        show(),
        Statement::Impl {
            trait_name: "Show".to_string(),
            for_type: Type::Int,
            methods: vec![method("show"), method("size")],
        },
    ]);
    assert_eq!(message, "impl method `size` is not declared by trait `Show`");
    let (_, message) = error_of(vec![
        show(),
        Statement::Impl {
            trait_name: "Show".to_string(),
            for_type: Type::Int,
            methods: vec![method("show"), method("show")],
        },
    ]);
    assert_eq!(message, "impl method `show` is already defined");
    assert!(checks(vec![
        show(),
        Statement::Impl {
            trait_name: "Show".to_string(),
            for_type: Type::Int,
            methods: vec![method("show")],
        },
    ]));
}

#[test]
fn shell_code_in_nested_bodies_is_rejected() {
    let body = Program::new(vec![Statement::Raw("echo hi".to_string())], vec![4]);
    let (line, message) = error_of(vec![Statement::Function {
        name: "run".to_string(),
        override_constructor: false,
        type_params: Vec::new(),
        params: Vec::new(),
        return_type: Type::Unit,
        body: Program::new(
            vec![Statement::While {
                condition: Expr::Bool(true),
                body,
            }],
            vec![3],
        ),
    }]);
    assert_eq!(line, 4);
    assert!(message.starts_with("unsafe shell execution is disabled"));
    let read = Statement::Expr(Expr::FsReadLines {
        path: Box::new(text("/tmp/a")),
    });
    let (line, message) = error_of(vec![Statement::Block {
        body: Program::new(vec![read], vec![6]),
    }]);
    assert_eq!(line, 6);
    assert_eq!(
        message,
        "fs.readLines requires at least one allowed filesystem read root"
    );
}

fn pure(args: Vec<Expr>) -> Expr {
    Expr::Call {
        name: "pure".to_string(),
        args,
    }
}

fn bind(name: &str, expr: Expr) -> DoStep {
    DoStep::Bind {
        name: name.to_string(),
        expr,
    }
}

#[test]
fn do_chains_bind_options_and_results() {
    let option_int = Type::Applied("Option".to_string(), vec![Type::Int]);
    let chain = Expr::Do {
        steps: vec![
            bind("x", Expr::OptionSome(Box::new(Expr::Int(1)))),
            DoStep::Let {
                name: "y".to_string(),
                annotation: None,
                expr: Expr::Binary {
                    left: Box::new(ident("x")),
                    op: BinaryOp::Add,
                    right: Box::new(Expr::Int(1)),
                },
            },
        ],
        result: Box::new(pure(vec![ident("y")])),
    };
    assert!(checks(vec![typed_constant("z", option_int, chain)]));
    let result_chain = Expr::Do {
        steps: vec![bind("x", Expr::ResultOk(Box::new(Expr::Int(1))))],
        result: Box::new(pure(vec![ident("x")])),
    };
    assert!(checks(vec![constant("r", result_chain)]));
    let (_, message) = error_of(vec![constant(
        "z",
        Expr::Do {
            steps: vec![bind("x", Expr::Int(1))],
            result: Box::new(pure(vec![ident("x")])),
        },
    )]);
    assert_eq!(message, "do binding expects Option or Result, found Int");
    let (_, message) = error_of(vec![constant(
        "z",
        Expr::Do {
            steps: Vec::new(),
            result: Box::new(pure(vec![Expr::Int(1)])),
        },
    )]);
    assert_eq!(
        message,
        "pure in do expression requires an Option or Result binding"
    );
    let (_, message) = error_of(vec![constant(
        "z",
        Expr::Do {
            steps: vec![bind("x", Expr::OptionSome(Box::new(Expr::Int(1))))],
            result: Box::new(pure(vec![Expr::Int(1), Expr::Int(2)])),
        },
    )]);
    assert_eq!(message, "pure expects 1 argument, found 2");
    let (_, message) = error_of(vec![constant(
        "z",
        Expr::Do {
            steps: Vec::new(),
            result: Box::new(Expr::Int(3)),
        },
    )]);
    assert_eq!(message, "do expression result must be Option or Result, found Int");
}

#[test]
fn emitted_references_and_array_reads() {
    let mut out = String::new();
    emit_variable_ref(&mut out, "name");
    assert_eq!(out, "\"$name\"");
    let mut out = String::new();
    emit_field(&mut out, "user", "id");
    assert_eq!(out, "\"$user_id\"");
    let mut out = String::new();
    emit_tuple_field(&mut out, "pair", 12);
    assert_eq!(out, "\"$pair_12\"");
    let mut out = String::new();
    emit_is_empty(&mut out, "xs");
    assert_eq!(
        out,
        "$(if [ \"${#xs[@]}\" -eq 0 ]; then printf true; else printf false; fi)"
    );
    let mut out = String::new();
    emit_array_len_value(&mut out, &Expr::Array(vec![Expr::Int(1), Expr::Int(2), Expr::Int(3)]));
    assert_eq!(out, "3");
    let mut out = String::new();
    emit_array_first(&mut out, "xs");
    assert_eq!(out, "\"${xs[0]}\"");
    let mut out = String::new();
    emit_array_last(&mut out, "xs");
    assert_eq!(
        out,
        "$(if [ \"${#xs[@]}\" -gt 0 ]; then printf '%s' \"${xs[$((${#xs[@]} - 1))]}\"; fi)"
    );
    let mut out = String::new();
    emit_array_pop(&mut out, "xs");
    assert_eq!(
        out,
        "if [ \"${#xs[@]}\" -gt 0 ]; then unset \"xs[$((${#xs[@]} - 1))]\"; xs=(\"${xs[@]}\"); fi\n"
    );
    let mut out = String::new();
    emit_path_basename(&mut out, "file");
    assert_eq!(out, "\"$(basename \"$file\")\"");
    let mut out = String::new();
    emit_call_head(&mut out, "greet");
    assert_eq!(out, "__nacre_call \"$greet\"");
    let mut out = String::new();
    emit_call_head(&mut out, "ns.greet");
    assert_eq!(out, "ns.greet");
}

#[test]
fn block_bindings_end_with_the_block() {
    let block = || Statement::Block {
        body: Program::new(vec![constant("y", Expr::Int(1))], vec![2]),
    };
    let (line, message) = error_of(vec![block(), constant("z", ident("y"))]);
    assert_eq!(line, 2);
    assert_eq!(message, "undefined variable `y`");
    assert!(checks(vec![block(), constant("y", Expr::Int(2))]));
    let (line, message) = error_of(vec![
        Statement::Let {
            name: "y".to_string(),
            annotation: None,
            expr: Expr::Int(1),
        },
        block(),
    ]);
    assert_eq!(line, 2);
    assert_eq!(message, "variable `y` is already defined");
}

#[test]
fn command_line_options_fill_an_associative_array() {
    let loop_text = "__nacre_cli_pending=''\nfor __nacre_cli_arg in \"${args[@]}\"; do\n\
if [[ \"$__nacre_cli_arg\" == --*=* ]]; then\n\
__nacre_cli_key=\"${__nacre_cli_arg%%=*}\"\n\
__nacre_cli_key=\"${__nacre_cli_key#--}\"\n\
opts[\"$__nacre_cli_key\"]=\"${__nacre_cli_arg#*=}\"\n\
__nacre_cli_pending=''\n\
elif [[ \"$__nacre_cli_arg\" == --* ]]; then\n\
__nacre_cli_key=\"${__nacre_cli_arg#--}\"\n\
opts[\"$__nacre_cli_key\"]=true\n\
__nacre_cli_pending=\"$__nacre_cli_key\"\n\
elif [ -n \"$__nacre_cli_pending\" ]; then\n\
opts[\"$__nacre_cli_pending\"]=\"$__nacre_cli_arg\"\n\
__nacre_cli_pending=''\n\
fi\ndone\nunset __nacre_cli_pending __nacre_cli_arg __nacre_cli_key\n";
    let mut out = String::new();
    emit_cli_parse_binding(&mut out, "opts", true, false);
    assert_eq!(out, format!("declare -A opts\n{}readonly -A opts\n", loop_text));
    let mut out = String::new();
    emit_cli_parse_binding(&mut out, "opts", true, true);
    assert_eq!(out, format!("local -A opts\nlocal {}", loop_text));
    let mut out = String::new();
    emit_cli_parse_binding(&mut out, "opts", false, false);
    assert_eq!(out, format!("declare -A opts\n{}", loop_text));
}

fn result_of_int() -> Type {
    Type::Applied("Result".to_string(), vec![Type::Int, Type::String])
}

fn function(name: &str, return_type: Type, body: Vec<Statement>) -> Statement {
    let n = body.len();
    Statement::Function {
        name: name.to_string(),
        override_constructor: false,
        type_params: Vec::new(),
        params: Vec::new(),
        return_type,
        body: Program::new(body, (2..2 + n).collect()),
    }
}

fn call(name: &str) -> Expr {
    Expr::Call {
        name: name.to_string(),
        args: Vec::new(),
    }
}

fn try_of(expr: Expr) -> Expr {
    Expr::TryResult(Box::new(expr))
}

fn plus_one(expr: Expr) -> Expr {
    Expr::Binary {
        left: Box::new(expr),
        op: BinaryOp::Add,
        right: Box::new(Expr::Int(1)),
    }
}

#[test]
fn nested_try_propagates_from_result_functions() {
    let load = || function("load", result_of_int(), vec![Statement::Return(Expr::ResultOk(Box::new(Expr::Int(1))))]);
    assert!(checks(vec![
        load(),
        function(
            "total",
            result_of_int(),
            vec![
                constant("x", plus_one(try_of(call("load")))),
                Statement::Return(Expr::ResultOk(Box::new(ident("x")))),
            ],
        ),
    ]));
    assert!(checks(vec![
        load(),
        function(
            "pair",
            result_of_int(),
            vec![Statement::Return(Expr::ResultOk(Box::new(plus_one(try_of(call("load"))))))],
        ),
    ]));
    let (line, message) = error_of(vec![
        load(),
        function(
            "plain",
            Type::Int,
            vec![Statement::Return(plus_one(try_of(call("load"))))],
        ),
    ]);
    assert_eq!(line, 2);
    assert_eq!(message, "try result is only valid inside a Result-returning function");
    let (line, message) = error_of(vec![load(), constant("y", plus_one(try_of(call("load"))))]);
    assert_eq!(line, 2);
    assert_eq!(message, "try result is only valid inside a Result-returning function");
    let (_, message) = error_of(vec![
        load(),
        function(
            "looping",
            result_of_int(),
            vec![
                Statement::While {
                    condition: Expr::Binary {
                        left: Box::new(try_of(call("load"))),
                        op: BinaryOp::Gt,
                        right: Box::new(Expr::Int(0)),
                    },
                    body: Program::new(Vec::new(), Vec::new()),
                },
                Statement::Return(Expr::ResultOk(Box::new(Expr::Int(0)))),
            ],
        ),
    ]);
    assert_eq!(message, "try propagation requires a Result-returning function or lambda");
    let checker = TypeChecker::default();
    let error = checker.check_expr(&plus_one(try_of(call("load"))), 7).unwrap_err();
    assert_eq!(error.message(), "try propagation requires a Result-returning function or lambda");
}

fn read_lines() -> Expr {
    Expr::FsReadLines {
        path: Box::new(text("/tmp/a")),
    }
}

#[test]
fn reads_in_arms_lambdas_and_chains_need_a_read_root() {
    let denied = "fs.readLines requires at least one allowed filesystem read root";
    let in_arm = Expr::Match {
        value: Box::new(Expr::Int(1)),
        arms: vec![MatchArm {
            pattern: None,
            guard: None,
            expr: read_lines(),
        }],
    };
    let (_, message) = error_of(vec![constant("x", in_arm)]);
    assert_eq!(message, denied);
    let in_let = Expr::LetIn {
        name: "y".to_string(),
        annotation: None,
        value: Box::new(Expr::Int(1)),
        body: Box::new(read_lines()),
    };
    let (_, message) = error_of(vec![constant("x", in_let)]);
    assert_eq!(message, denied);
    let in_chain = Expr::Do {
        steps: vec![bind("x", Expr::OptionSome(Box::new(read_lines())))],
        result: Box::new(pure(vec![ident("x")])),
    };
    let (_, message) = error_of(vec![constant("z", in_chain)]);
    assert_eq!(message, denied);
    let in_lambda = Expr::OptionMap {
        name: "o".to_string(),
        mapper: Box::new(Expr::Lambda {
            params: vec!["v".to_string()],
            body: Box::new(read_lines()),
        }),
    };
    let (_, message) = error_of(vec![
        typed_constant(
            "o",
            Type::Applied("Option".to_string(), vec![Type::Int]),
            Expr::OptionSome(Box::new(Expr::Int(1))),
        ),
        constant("m", in_lambda),
    ]);
    assert_eq!(message, denied);
}

#[test]
fn commands_read_as_results_still_need_a_policy() {
    let cmd_result = Type::Applied(
        "Result".to_string(),
        vec![Type::String, Type::Named("CmdError".to_string())],
    );
    let (line, message) = error_of(vec![typed_constant(
        "x",
        cmd_result,
        Expr::Command {
            command: "ls".to_string(),
            checked: false,
        },
    )]);
    assert_eq!(line, 1);
    assert!(message.starts_with("unsafe shell execution is disabled"));
}

#[test]
fn plain_statements_stop_at_the_first_error() {
    assert!(checks(vec![Statement::Assign {
        target: AssignTarget::Name("_".to_string()),
        expr: Expr::Binary {
            left: Box::new(Expr::Int(1)),
            op: BinaryOp::Add,
            right: Box::new(Expr::Float("2.0".to_string())),
        },
    }]));
    let (line, message) = error_of(vec![
        constant("x", Expr::Int(1)),
        Statement::Return(Expr::Int(1)),
        constant("x", Expr::Int(2)),
    ]);
    assert_eq!(line, 2);
    assert_eq!(message, "return is only valid inside a function");
    let greet = Statement::Function {
        name: "greet".to_string(),
        override_constructor: false,
        type_params: Vec::new(),
        params: Vec::new(),
        return_type: Type::String,
        body: Program::new(vec![Statement::Return(text("a"))], vec![2]),
    };
    let (_, message) = error_of(vec![
        greet,
        constant(
            "x",
            Expr::Call {
                name: "greet".to_string(),
                args: vec![Expr::Int(1)],
            },
        ),
    ]);
    assert_eq!(message, "function `greet` expects 0..0 arguments, found 1");
}

#[test]
fn matches_on_open_types_need_a_wildcard() {
    let (line, message) = error_of(vec![constant(
        "x",
        Expr::Match {
            value: Box::new(Expr::Int(1)),
            arms: vec![MatchArm {
                pattern: Some(Expr::Int(1)),
                guard: None,
                expr: text("one"),
            }],
        },
    )]);
    assert_eq!(line, 1);
    assert_eq!(message, "match expression requires wildcard `_` arm");
    assert!(checks(vec![constant(
        "x",
        Expr::Match {
            value: Box::new(Expr::Int(1)),
            arms: vec![
                MatchArm {
                    pattern: Some(Expr::Int(1)),
                    guard: None,
                    expr: text("one"),
                },
                MatchArm {
                    pattern: None,
                    guard: None,
                    expr: text("other"),
                },
            ],
        },
    )]));
}
