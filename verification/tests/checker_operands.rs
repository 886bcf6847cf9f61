use nacre::ast::{
    AssignTarget, BinaryOp, BindingPattern, Expr, ForBinding, ImplMethod, MatchArm, Param, Program, Statement,
    TypeParam, Type,
};
use nacre::checker::type_check;

fn number(value: i64) -> Expr {
    Expr::Int(value)
}

fn text(value: &str) -> Expr {
    Expr::String(value.to_string())
}

fn id(name: &str) -> Expr {
    Expr::Ident(name.to_string())
}

fn yes() -> Expr {
    Expr::Bool(true)
}

fn bin(left: Expr, op: BinaryOp, right: Expr) -> Expr {
    Expr::Binary {
        left: Box::new(left),
        op,
        right: Box::new(right),
    }
}

fn call(name: &str, args: Vec<Expr>) -> Expr {
    Expr::Call {
        name: name.to_string(),
        args,
    }
}

fn named(name: &str) -> Type {
    Type::Named(name.to_string())
}

fn array_of(element: Type) -> Type {
    Type::Array(Box::new(element))
}

fn c(name: &str, expr: Expr) -> Statement {
    Statement::Const {
        name: name.to_string(),
        annotation: None,
        expr,
    }
}

fn ct(name: &str, ty: Type, expr: Expr) -> Statement {
    Statement::Const {
        name: name.to_string(),
        annotation: Some(ty),
        expr,
    }
}

fn l(name: &str, expr: Expr) -> Statement {
    Statement::Let {
        name: name.to_string(),
        annotation: None,
        expr,
    }
}

fn assign(name: &str, expr: Expr) -> Statement {
    Statement::Assign {
        target: AssignTarget::Name(name.to_string()),
        expr,
    }
}

fn param(name: &str, ty: Type) -> Param {
    Param {
        name: name.to_string(),
        ty,
        default: None,
        variadic: false,
        capture_name: None,
    }
}

fn param_default(name: &str, ty: Type, default: Expr) -> Param {
    Param {
        name: name.to_string(),
        ty,
        default: Some(default),
        variadic: false,
        capture_name: None,
    }
}

fn generic(name: &str, bounds: &[&str]) -> TypeParam {
    TypeParam {
        name: name.to_string(),
        bounds: bounds.iter().map(|b| b.to_string()).collect(),
    }
}

fn block(statements: Vec<Statement>, lines: Vec<usize>) -> Program {
    Program::new(statements, lines)
}

fn func(name: &str, type_params: Vec<TypeParam>, params: Vec<Param>, return_type: Type, body: Program) -> Statement {
    Statement::Function {
        name: name.to_string(),
        override_constructor: false,
        type_params,
        params,
        return_type,
        body,
    }
}

fn returning(expr: Expr, line: usize) -> Program {
    block(vec![Statement::Return(expr)], vec![line])
}

fn trait_show() -> Statement {
    Statement::Trait {
        name: "Show".to_string(),
        type_param: "T".to_string(),
        methods: Vec::new(),
    }
}

fn impl_show_int() -> Statement {
    Statement::Impl {
        trait_name: "Show".to_string(),
        for_type: Type::Int,
        methods: Vec::<ImplMethod>::new(),
    }
}

fn newtype(name: &str, base: Type) -> Statement {
    Statement::Newtype {
        name: name.to_string(),
        type_params: Vec::new(),
        base,
    }
}

fn alias(name: &str, type_params: &[&str], ty: Type) -> Statement {
    Statement::TypeAlias {
        name: name.to_string(),
        type_params: type_params.iter().map(|p| p.to_string()).collect(),
        ty,
    }
}

fn record(fields: Vec<(&str, Expr)>) -> Expr {
    Expr::Record(fields.into_iter().map(|(n, e)| (n.to_string(), e)).collect())
}

fn record_type(fields: Vec<(&str, Type)>) -> Type {
    Type::Record(fields.into_iter().map(|(n, t)| (n.to_string(), t)).collect())
}

fn arm(pattern: Option<Expr>, expr: Expr) -> MatchArm {
    MatchArm {
        pattern,
        guard: None,
        expr,
    }
}

fn matching(value: Expr, arms: Vec<MatchArm>) -> Expr {
    Expr::Match {
        value: Box::new(value),
        arms,
    }
}

fn if_else(condition: Expr, then_expr: Expr, else_expr: Expr) -> Expr {
    Expr::IfElse {
        condition: Box::new(condition),
        then_expr: Box::new(then_expr),
        else_expr: Box::new(else_expr),
    }
}

fn program(statements: Vec<Statement>, lines: Vec<usize>) -> Program {
    Program::new(statements, lines)
}

fn first_program() -> Program {
    let statements = vec![
        c("answer", number(42)),
        ct("hex", Type::Int, number(0xFF)),
        ct("pi", Type::Float, Expr::Float("3.14".to_string())),
        c("yes", yes()),
        c("text", text("hello")),
        c(
            "home",
            Expr::EnvDefault {
                name: "HOME".to_string(),
                default: "/tmp".to_string(),
            },
        ),
        ct("bin", Type::Path, text("/usr/bin")),
        ct("okCode", Type::ExitCode, number(0)),
        ct("unit", Type::Unit, Expr::Unit),
        c("copied", id("answer")),
        c("greeting", text("Hello, ${text}")),
        c("rawGreeting", Expr::RawString("Hello, ${missing}".to_string())),
        c("hasGit", Expr::HasCommand("git".to_string())),
        ct("names", array_of(Type::String), Expr::Array(vec![text("alice"), text("bob")])),
        Statement::Destructure {
            mutable: false,
            pattern: BindingPattern::Array {
                patterns: vec![BindingPattern::Name("firstUser".to_string())],
                rest: Some("remainingUsers".to_string()),
            },
            expr: id("names"),
        },
        c("nums", Expr::Array(vec![number(1), number(2), number(3)])),
        ct("emptyNames", array_of(Type::String), Expr::Array(Vec::new())),
        func(
            "greet",
            Vec::new(),
            vec![param("name", Type::String), param_default("prefix", Type::String, text("Hello"))],
            Type::String,
            returning(text("${prefix}, ${name}"), 20),
        ),
        c("message", call("greet", vec![text("Nacre")])),
        c("custom", call("greet", vec![text("Nacre"), text("Hi")])),
        c(
            "label",
            if_else(bin(id("answer"), BinaryOp::Gt, number(0)), text("positive"), text("zero")),
        ),
        c(
            "matched",
            matching(
                id("label"),
                vec![arm(Some(text("positive")), text("yes")), arm(None, text("no"))],
            ),
        ),
        ct(
            "envs",
            Type::Mapping(Box::new(Type::String), Box::new(Type::String)),
            Expr::MapLiteral(vec![
                (text("PORT"), text("8080")),
                (text("HOST"), text("localhost")),
            ]),
        ),
        ct(
            "emptyEnv",
            Type::Mapping(Box::new(Type::String), Box::new(Type::String)),
            Expr::MapLiteral(Vec::new()),
        ),
        c(
            "port",
            Expr::Index {
                name: "envs".to_string(),
                index: Box::new(text("PORT")),
            },
        ),
        c(
            "firstName",
            Expr::Index {
                name: "names".to_string(),
                index: Box::new(number(0)),
            },
        ),
        c("namesLen", Expr::Len("names".to_string())),
        ct(
            "pair",
            Type::Tuple(vec![Type::String, Type::Int]),
            Expr::Tuple(vec![text("localhost"), number(8080)]),
        ),
        c(
            "hostName",
            Expr::TupleField {
                name: "pair".to_string(),
                field: 1,
            },
        ),
        c(
            "portNumber",
            Expr::TupleField {
                name: "pair".to_string(),
                field: 2,
            },
        ),
        Statement::Destructure {
            mutable: false,
            pattern: BindingPattern::Tuple(vec![
                BindingPattern::Name("destructuredHost".to_string()),
                BindingPattern::Name("destructuredPort".to_string()),
            ]),
            expr: id("pair"),
        },
        ct(
            "user",
            record_type(vec![("name", Type::String), ("age", Type::Int)]),
            record(vec![("name", text("Ada")), ("age", number(36))]),
        ),
        c(
            "userName",
            Expr::Field {
                name: "user".to_string(),
                field: "name".to_string(),
            },
        ),
        c(
            "userAge",
            Expr::Field {
                name: "user".to_string(),
                field: "age".to_string(),
            },
        ),
        Statement::Destructure {
            mutable: true,
            pattern: BindingPattern::Record(vec![(
                "age".to_string(),
                BindingPattern::Name("age".to_string()),
            )]),
            expr: id("user"),
        },
        alias("Account", &[], record_type(vec![("id", Type::Int), ("name", Type::String)])),
        ct(
            "account",
            named("Account"),
            record(vec![("id", number(1)), ("name", text("core"))]),
        ),
        c(
            "accountName",
            Expr::Field {
                name: "account".to_string(),
                field: "name".to_string(),
            },
        ),
        alias(
            "Unary",
            &[],
            Type::Function(vec![Type::String], Box::new(Type::String)),
        ),
        func(
            "exclaim",
            Vec::new(),
            vec![param("value", Type::String)],
            Type::String,
            returning(text("${value}!"), 44),
        ),
        func(
            "applyString",
            Vec::new(),
            vec![param("f", named("Unary")), param("value", Type::String)],
            Type::String,
            returning(call("f", vec![id("value")]), 47),
        ),
        c("applied", call("applyString", vec![id("exclaim"), text("Hi")])),
        func(
            "identity",
            vec![generic("T", &[])],
            vec![param("value", named("T"))],
            named("T"),
            returning(id("value"), 51),
        ),
        c("genericText", call("identity", vec![text("generic")])),
        c("genericInt", call("identity", vec![number(7)])),
        trait_show(),
        impl_show_int(),
        func(
            "boundIdentity",
            vec![generic("T", &["Show"])],
            vec![param("value", named("T"))],
            named("T"),
            returning(id("value"), 60),
        ),
        c("boundedInt", call("boundIdentity", vec![number(7)])),
        alias("Box", &["T"], record_type(vec![("item", named("T"))])),
        ct(
            "boxed",
            Type::Applied("Box".to_string(), vec![Type::Int]),
            record(vec![("item", number(7))]),
        ),
        c(
            "boxedValue",
            Expr::Field {
                name: "boxed".to_string(),
                field: "item".to_string(),
            },
        ),
        newtype("UserId", Type::Int),
        newtype("GroupId", Type::Int),
        ct(
            "uid",
            named("UserId"),
            Expr::NewtypeCtor {
                name: "UserId".to_string(),
                value: Box::new(number(42)),
            },
        ),
        ct(
            "gid",
            named("GroupId"),
            Expr::NewtypeCtor {
                name: "GroupId".to_string(),
                value: Box::new(number(42)),
            },
        ),
        ct("rawUid", Type::Int, Expr::Value("uid".to_string())),
        Statement::If {
            condition: bin(id("answer"), BinaryOp::Gt, number(0)),
            then_branch: block(vec![c("inside", text("ok"))], vec![72]),
            else_branch: Some(block(vec![c("inside", text("zero"))], vec![74])),
        },
        Statement::While {
            condition: bin(id("answer"), BinaryOp::Gt, number(0)),
            body: block(vec![Statement::Break], vec![77]),
        },
        Statement::For {
            binding: ForBinding::Name("item".to_string()),
            iterable: id("names"),
            body: block(vec![c("echoed", id("item"))], vec![80]),
        },
        l("count", bin(id("answer"), BinaryOp::Add, number(1))),
        assign("count", bin(id("count"), BinaryOp::Div, number(2))),
        Statement::Let {
            name: "ratio".to_string(),
            annotation: Some(Type::Float),
            expr: id("count"),
        },
        c("sameInt", bin(id("count"), BinaryOp::Eq, number(21))),
        c("sameFloat", bin(id("pi"), BinaryOp::Gt, number(3))),
        c("sameBool", bin(id("yes"), BinaryOp::Ne, Expr::Bool(false))),
        c("sameString", bin(id("text"), BinaryOp::Eq, id("home"))),
        c("ordered", bin(id("count"), BinaryOp::Ge, number(0))),
        c("_", id("missing_ok")),
    ];
    let lines = vec![
        2, 3, 4, 5, 6, 7, 8, 9, 10, 11, 12, 13, 14, 15, 16, 17, 18, 19, 22, 23, 24, 25, 26, 27, 28, 29, 30, 31, 32,
        33, 34, 35, 36, 37, 38, 39, 40, 41, 42, 43, 46, 49, 50, 53, 54, 55, 57, 59, 62, 63, 64, 65, 66, 67, 68, 69,
        70, 71, 76, 79, 82, 83, 84, 85, 86, 87, 88, 89, 90,
    ];
    assert_eq!(statements.len(), lines.len());
    program(statements, lines)
}

fn second_program() -> Program {
    let statements = vec![
        c("answer", number(42)),
        c("yes", yes()),
        c("text", text("hello")),
        c(
            "home",
            Expr::EnvDefault {
                name: "HOME".to_string(),
                default: "/tmp".to_string(),
            },
        ),
        ct("path", Type::Path, text("/tmp")),
        c("copied", id("answer")),
        l("count", bin(id("answer"), BinaryOp::Add, number(1))),
        assign("count", bin(id("count"), BinaryOp::Div, number(2))),
        c("sameInt", bin(id("count"), BinaryOp::Eq, number(21))),
        c("sameBool", bin(id("yes"), BinaryOp::Ne, Expr::Bool(false))),
        c("sameString", bin(id("text"), BinaryOp::Eq, id("home"))),
        c("ordered", bin(id("count"), BinaryOp::Ge, number(0))),
        c("both", bin(id("sameBool"), BinaryOp::And, id("ordered"))),
        c("either", bin(id("both"), BinaryOp::Or, Expr::Bool(false))),
        c("inverted", Expr::Not(Box::new(id("either")))),
        c("joined", bin(id("text"), BinaryOp::Concat, id("home"))),
        c("pathJoined", bin(id("path"), BinaryOp::Concat, text("/file"))),
        c("bitMask", bin(number(6), BinaryOp::BitAnd, number(3))),
        c("bitAny", bin(id("bitMask"), BinaryOp::BitOr, number(8))),
        c("bitFlip", bin(id("bitAny"), BinaryOp::BitXor, number(1))),
        c("shifted", bin(id("bitFlip"), BinaryOp::Shl, number(1))),
        c("unshifted", bin(id("shifted"), BinaryOp::Shr, number(1))),
        c("invertedBits", Expr::BitNot(Box::new(id("unshifted")))),
        c("bitCheck", bin(id("bitMask"), BinaryOp::Eq, number(2))),
        newtype("CastId", Type::Int),
        c("castRaw", number(7)),
        ct(
            "castId",
            named("CastId"),
            Expr::Cast {
                expr: Box::new(id("castRaw")),
                ty: named("CastId"),
            },
        ),
        ct(
            "castBack",
            Type::Int,
            Expr::Cast {
                expr: Box::new(id("castId")),
                ty: Type::Int,
            },
        ),
        ct(
            "pathText",
            Type::String,
            Expr::Cast {
                expr: Box::new(id("path")),
                ty: Type::String,
            },
        ),
        c("_", text("discarded")),
    ];
    let lines: Vec<usize> = (2..2 + statements.len()).collect();
    program(statements, lines)
}

fn expect_error(source: &str, statements: Vec<Statement>, lines: Vec<usize>, line: usize, message: &str) {
    let error = match type_check(&program(statements, lines)) {
        Err(error) => error,
        Ok(()) => panic!("expected type error for `{source}`"),
    };
    assert_eq!(error.line(), line, "{source}");
    assert!(error.message().contains(message), "{source}: {}", error.message());
}

fn greet_returning(body: Expr, body_line: usize) -> Statement {
    func(
        "greet",
        Vec::new(),
        vec![param("name", Type::String)],
        Type::String,
        returning(body, body_line),
    )
}

fn first_generic(bounds: &[&str], params: Vec<Param>, body: Expr) -> Statement {
    func("first", vec![generic("T", bounds)], params, named("T"), returning(body, 2))
}

#[test]
fn type_checks_bindings_and_operator_operands() {
    assert!(type_check(&first_program()).is_err());
    type_check(&second_program()).unwrap();
    type_check(&program(vec![assign("_", number(1))], vec![1])).unwrap();
    assert_eq!(Type::Unit.name(), "Unit");

    expect_error("const x = missing", vec![c("x", id("missing"))], vec![1], 1, "undefined variable");
    expect_error("const x = 1\nconst x = 2", vec![c("x", number(1)), c("x", number(2))], vec![1, 2], 2, "already defined");
    expect_error("const x = 1\nx = 2", vec![c("x", number(1)), assign("x", number(2))], vec![1, 2], 2, "cannot assign to const");
    expect_error("x = 1", vec![assign("x", number(1))], vec![1], 1, "cannot assign to undefined variable");
    expect_error("let x = 1\nx = true", vec![l("x", number(1)), assign("x", yes())], vec![1, 2], 2, "type mismatch");
    expect_error("const x: Bool = 1", vec![ct("x", Type::Bool, number(1))], vec![1], 1, "type annotation mismatch");
    expect_error("const x: ExitCode = 256", vec![ct("x", Type::ExitCode, number(256))], vec![1], 1, "type annotation mismatch");
    expect_error("const x = true && 1", vec![c("x", bin(yes(), BinaryOp::And, number(1)))], vec![1], 1, "requires Bool operands");
    expect_error("const x = !1", vec![c("x", Expr::Not(Box::new(number(1))))], vec![1], 1, "requires Bool operand");
    expect_error(
        "const x = \"a\" ++ 1",
        vec![c("x", bin(text("a"), BinaryOp::Concat, number(1)))],
        vec![1],
        1,
        "requires String or Path operands",
    );
    expect_error("const x = 1 & true", vec![c("x", bin(number(1), BinaryOp::BitAnd, yes()))], vec![1], 1, "requires Int operands");
    expect_error("const x = ~true", vec![c("x", Expr::BitNot(Box::new(yes())))], vec![1], 1, "requires Int operands");
    expect_error(
        "const x = \"1\" as Int",
        vec![c(
            "x",
            Expr::Cast {
                expr: Box::new(text("1")),
                ty: Type::Int,
            },
        )],
        vec![1],
        1,
        "cannot cast String to Int",
    );
    expect_error(
        "const x = \"hello ${missing}\"",
        vec![c("x", text("hello ${missing}"))],
        vec![1],
        1,
        "undefined variable `missing` in string interpolation",
    );
    expect_error(
        "const x = \"hello ${bad-name}\"",
        vec![c("x", text("hello ${bad-name}"))],
        vec![1],
        1,
        "invalid interpolation name",
    );
    expect_error(
        "const x = \"hello ${missing\"",
        vec![c("x", text("hello ${missing"))],
        vec![1],
        1,
        "unterminated string interpolation",
    );
    expect_error("const x = [1, true]", vec![c("x", Expr::Array(vec![number(1), yes()]))], vec![1], 1, "array elements");
    expect_error(
        "const x: [Bool] = [true, 1]",
        vec![ct("x", array_of(Type::Bool), Expr::Array(vec![yes(), number(1)]))],
        vec![1],
        1,
        "array elements",
    );
    expect_error(
        "const x: [String] = [1]",
        vec![ct("x", array_of(Type::String), Expr::Array(vec![number(1)]))],
        vec![1],
        1,
        "type annotation mismatch",
    );
    expect_error(
        "fn greet(name: String): String {\nreturn name\n}\nconst x = greet(1)",
        vec![greet_returning(id("name"), 2), c("x", call("greet", vec![number(1)]))],
        vec![1, 4],
        4,
        "argument `name`",
    );
    expect_error(
        "fn exclaim(value: String): String {\nreturn value\n}\nconst x: Int => String = exclaim",
        vec![
            func(
                "exclaim",
                Vec::new(),
                vec![param("value", Type::String)],
                Type::String,
                returning(id("value"), 2),
            ),
            ct("x", Type::Function(vec![Type::Int], Box::new(Type::String)), id("exclaim")),
        ],
        vec![1, 4],
        4,
        "type annotation mismatch",
    );
    expect_error(
        "fn apply(f: String => String): String {\nreturn f(1)\n}",
        vec![func(
            "apply",
            Vec::new(),
            vec![param("f", Type::Function(vec![Type::String], Box::new(Type::String)))],
            Type::String,
            returning(call("f", vec![number(1)]), 1),
        )],
        vec![1],
        1,
        "argument 1",
    );
    expect_error(
        "fn first[T](a: T, b: T): T {\nreturn a\n}\nconst x = first(1, true)",
        vec![
            first_generic(&[], vec![param("a", named("T")), param("b", named("T"))], id("a")),
            c("x", call("first", vec![number(1), yes()])),
        ],
        vec![1, 4],
        4,
        "generic type `T`",
    );
    expect_error(
        "fn first[T: Show](value: T): T {\nreturn value\n}",
        vec![first_generic(&["Show"], vec![param("value", named("T"))], id("value"))],
        vec![1],
        1,
        "unknown trait `Show` in generic bound",
    );
    expect_error(
        "trait Show[T] {\n}\nfn first[T: Show](value: T): T {\nreturn value\n}\nconst x = first(1)",
        vec![
            trait_show(),
            first_generic(&["Show"], vec![param("value", named("T"))], id("value")),
            c("x", call("first", vec![number(1)])),
        ],
        vec![1, 3, 6],
        6,
        "does not implement trait `Show`",
    );
    expect_error("trait Show[T] {\n}\ntrait Show[T] {\n}", vec![trait_show(), trait_show()], vec![1, 3], 3, "already defined");
    expect_error("impl Show[Int] {\n}", vec![impl_show_int()], vec![1], 1, "unknown trait `Show`");
    expect_error(
        "trait Show[T] {\n}\nimpl Show[Int] {\n}\nimpl Show[Int] {\n}",
        vec![trait_show(), impl_show_int(), impl_show_int()],
        vec![1, 3, 5],
        5,
        "already implemented",
    );
    expect_error(
        "type Box[T] = { item: T }\nconst x: Box = { value: 1 }",
        vec![
            alias("Box", &["T"], record_type(vec![("item", named("T"))])),
            ct("x", named("Box"), record(vec![("value", number(1))])),
        ],
        vec![1, 2],
        2,
        "unknown type",
    );
    expect_error(
        "type Box[T] = { item: T }\nconst x: Box[Int, String] = { value: 1 }",
        vec![
            alias("Box", &["T"], record_type(vec![("item", named("T"))])),
            ct(
                "x",
                Type::Applied("Box".to_string(), vec![Type::Int, Type::String]),
                record(vec![("value", number(1))]),
            ),
        ],
        vec![1, 2],
        2,
        "expects 1 type arguments",
    );
    expect_error(
        "const [a] = 1",
        vec![Statement::Destructure {
            mutable: false,
            pattern: BindingPattern::Array {
                patterns: vec![BindingPattern::Name("a".to_string())],
                rest: None,
            },
            expr: number(1),
        }],
        vec![1],
        1,
        "array destructuring requires array value",
    );
    let pair_pattern = || {
        BindingPattern::Tuple(vec![
            BindingPattern::Name("a".to_string()),
            BindingPattern::Name("b".to_string()),
        ])
    };
    expect_error(
        "const (a, b) = 1",
        vec![Statement::Destructure {
            mutable: false,
            pattern: pair_pattern(),
            expr: number(1),
        }],
        vec![1],
        1,
        "tuple destructuring requires tuple value",
    );
    expect_error(
        "const (a, b) = (1, 2, 3)",
        vec![Statement::Destructure {
            mutable: false,
            pattern: pair_pattern(),
            expr: Expr::Tuple(vec![number(1), number(2), number(3)]),
        }],
        vec![1],
        1,
        "tuple destructuring expected 2 values",
    );
    expect_error(
        "const { missing } = { name: \"Ada\" }",
        vec![Statement::Destructure {
            mutable: false,
            pattern: BindingPattern::Record(vec![(
                "missing".to_string(),
                BindingPattern::Name("missing".to_string()),
            )]),
            expr: record(vec![("name", text("Ada"))]),
        }],
        vec![1],
        1,
        "record destructuring field `missing` is missing",
    );
    expect_error("const x = await missing", vec![c("x", Expr::Await("missing".to_string()))], vec![1], 1, "undefined future");
    expect_error(
        "const x = 1\nconst y = await x",
        vec![c("x", number(1)), c("y", Expr::Await("x".to_string()))],
        vec![1, 2],
        2,
        "await expects Future",
    );
    expect_error("const x = 1\nconst y = x()", vec![c("x", number(1)), c("y", call("x", Vec::new()))], vec![1, 2], 2, "not callable");
    expect_error("const x = missingFn()", vec![c("x", call("missingFn", Vec::new()))], vec![1], 1, "undefined function");
    expect_error(
        "fn greet(name: String): String {\nconst value = name\n}",
        vec![func(
            "greet",
            Vec::new(),
            vec![param("name", Type::String)],
            Type::String,
            block(vec![c("value", id("name"))], vec![1]),
        )],
        vec![1],
        1,
        "must return String",
    );
    expect_error("return 1", vec![Statement::Return(number(1))], vec![1], 1, "return is only valid inside a function");
    expect_error(
        "fn greet(prefix: String = \"Hello\", name: String): String {\nreturn name\n}",
        vec![func(
            "greet",
            Vec::new(),
            vec![param_default("prefix", Type::String, text("Hello")), param("name", Type::String)],
            Type::String,
            returning(id("name"), 1),
        )],
        vec![1],
        1,
        "required function parameters",
    );
    expect_error(
        "fn greet(name: String = 1): String {\nreturn name\n}",
        vec![func(
            "greet",
            Vec::new(),
            vec![param_default("name", Type::String, number(1))],
            Type::String,
            returning(id("name"), 1),
        )],
        vec![1],
        1,
        "default for parameter",
    );
    expect_error(
        "fn greet(name: String): Int {\nreturn name\n}",
        vec![func(
            "greet",
            Vec::new(),
            vec![param("name", Type::String)],
            Type::Int,
            returning(id("name"), 1),
        )],
        vec![1],
        1,
        "return type mismatch",
    );
    let greet_a = |value: &str| func("greet", Vec::new(), Vec::new(), Type::String, returning(text(value), 1));
    expect_error(
        "fn greet(): String {\nreturn \"a\"\n}\nfn greet(): String {\nreturn \"b\"\n}",
        vec![greet_a("a"), greet_a("b")],
        vec![1, 4],
        4,
        "already defined",
    );
    expect_error(
        "fn greet(): String {\nreturn \"a\"\n}\nconst x = greet(1)",
        vec![greet_a("a"), c("x", call("greet", vec![number(1)]))],
        vec![1, 4],
        4,
        "expects 0..0 arguments",
    );
    expect_error(
        "const x = if 1 { \"a\" } else { \"b\" }",
        vec![c("x", if_else(number(1), text("a"), text("b")))],
        vec![1],
        1,
        "condition must be Bool",
    );
    expect_error(
        "const x = if true { 1 } else { \"b\" }",
        vec![c("x", if_else(yes(), number(1), text("b")))],
        vec![1],
        1,
        "if expression branches",
    );
    expect_error(
        "const x = match 1 { 1 => \"one\" }",
        vec![c("x", matching(number(1), vec![arm(Some(number(1)), text("one"))]))],
        vec![1],
        1,
        "wildcard `_` arm",
    );
    expect_error(
        "const x = match 1 { \"one\" => 1, _ => 0 }",
        vec![c("x", matching(number(1), vec![arm(Some(text("one")), number(1)), arm(None, number(0))]))],
        vec![1],
        1,
        "match pattern type mismatch",
    );
    expect_error(
        "const x = match 1 { 1 => 1, _ => \"zero\" }",
        vec![c("x", matching(number(1), vec![arm(Some(number(1)), number(1)), arm(None, text("zero"))]))],
        vec![1],
        1,
        "match arms",
    );
    let index = |name: &str, index: Expr| Expr::Index {
        name: name.to_string(),
        index: Box::new(index),
    };
    expect_error("const x = missing[0]", vec![c("x", index("missing", number(0)))], vec![1], 1, "undefined variable");
    expect_error(
        "const xs = [1]\nconst x = xs[true]",
        vec![c("xs", Expr::Array(vec![number(1)])), c("x", index("xs", yes()))],
        vec![1, 2],
        2,
        "array index must be Int",
    );
    expect_error("const x = 1\nconst y = x[0]", vec![c("x", number(1)), c("y", index("x", number(0)))], vec![1, 2], 2, "cannot index");
    expect_error(
        "const m = { \"a\": 1 }\nconst x = m[1]",
        vec![c("m", Expr::MapLiteral(vec![(text("a"), number(1))])), c("x", index("m", number(1)))],
        vec![1, 2],
        2,
        "map key must be String",
    );
    expect_error(
        "const x = { \"a\": 1, 2: 2 }",
        vec![c("x", Expr::MapLiteral(vec![(text("a"), number(1)), (number(2), number(2))]))],
        vec![1],
        1,
        "map keys",
    );
    expect_error(
        "const x = { \"a\": 1, \"b\": true }",
        vec![c("x", Expr::MapLiteral(vec![(text("a"), number(1)), (text("b"), yes())]))],
        vec![1],
        1,
        "map values",
    );
    expect_error(
        "const x: Map[String, String] = { \"a\": 1 }",
        vec![ct(
            "x",
            Type::Mapping(Box::new(Type::String), Box::new(Type::String)),
            Expr::MapLiteral(vec![(text("a"), number(1))]),
        )],
        vec![1],
        1,
        "type annotation mismatch",
    );
    expect_error(
        "const x = { name: \"Ada\", name: \"Grace\" }",
        vec![c("x", record(vec![("name", text("Ada")), ("name", text("Grace"))]))],
        vec![1],
        1,
        "record field `name`",
    );
    expect_error(
        "const x: { name: String, age: Int } = { name: \"Ada\" }",
        vec![ct(
            "x",
            record_type(vec![("name", Type::String), ("age", Type::Int)]),
            record(vec![("name", text("Ada"))]),
        )],
        vec![1],
        1,
        "type annotation mismatch",
    );
    let field = |name: &str, field: &str| Expr::Field {
        name: name.to_string(),
        field: field.to_string(),
    };
    expect_error(
        "const x = { name: \"Ada\" }\nconst y = x.age",
        vec![c("x", record(vec![("name", text("Ada"))])), c("y", field("x", "age"))],
        vec![1, 2],
        2,
        "has no field `age`",
    );
    expect_error(
        "const x = 1\nconst y = x.name",
        vec![c("x", number(1)), c("y", field("x", "name"))],
        vec![1, 2],
        2,
        "cannot access field `name`",
    );
    let user_alias = || alias("User", &[], record_type(vec![("name", Type::String)]));
    expect_error(
        "type User = { name: String }\ntype User = { name: String }",
        vec![user_alias(), user_alias()],
        vec![1, 2],
        2,
        "already defined",
    );
    expect_error("type User = Missing", vec![alias("User", &[], named("Missing"))], vec![1], 1, "unknown type");
    expect_error(
        "const x = 1\nconst y = x.len()",
        vec![c("x", number(1)), c("y", Expr::Len("x".to_string()))],
        vec![1, 2],
        2,
        "has no len method",
    );
    expect_error(
        "const x: (String, Int) = (1, 2)",
        vec![ct("x", Type::Tuple(vec![Type::String, Type::Int]), Expr::Tuple(vec![number(1), number(2)]))],
        vec![1],
        1,
        "type annotation mismatch",
    );
    let tuple_field = |name: &str, field: usize| Expr::TupleField {
        name: name.to_string(),
        field,
    };
    expect_error(
        "const x = (1, true)\nconst y = x._3",
        vec![c("x", Expr::Tuple(vec![number(1), yes()])), c("y", tuple_field("x", 3))],
        vec![1, 2],
        2,
        "has no field _3",
    );
    expect_error(
        "const x = 1\nconst y = x._1",
        vec![c("x", number(1)), c("y", tuple_field("x", 1))],
        vec![1, 2],
        2,
        "cannot access tuple field",
    );
    expect_error("const x: Missing = 1", vec![ct("x", named("Missing"), number(1))], vec![1], 1, "unknown type");
    expect_error(
        "newtype UserId = Int\nnewtype UserId = Int",
        vec![newtype("UserId", Type::Int), newtype("UserId", Type::Int)],
        vec![1, 2],
        2,
        "already defined",
    );
    expect_error(
        "newtype UserId = Int\nconst x: UserId = 1",
        vec![newtype("UserId", Type::Int), ct("x", named("UserId"), number(1))],
        vec![1, 2],
        2,
        "type annotation mismatch",
    );
    let ctor = |name: &str, value: Expr| Expr::NewtypeCtor {
        name: name.to_string(),
        value: Box::new(value),
    };
    expect_error(
        "newtype UserId = Int\nconst x = UserId(true)",
        vec![newtype("UserId", Type::Int), c("x", ctor("UserId", yes()))],
        vec![1, 2],
        2,
        "newtype constructor",
    );
    expect_error("const x = Missing(1)", vec![c("x", ctor("Missing", number(1)))], vec![1], 1, "unknown type");
    expect_error(
        "const x = 1\nconst y = x.value",
        vec![c("x", number(1)), c("y", Expr::Value("x".to_string()))],
        vec![1, 2],
        2,
        "cannot access `.value`",
    );
    expect_error(
        "if 1 {\nconst value = 1\n}",
        vec![Statement::If {
            condition: number(1),
            then_branch: block(vec![c("value", number(1))], vec![2]),
            else_branch: None,
        }],
        vec![1],
        1,
        "condition must be Bool",
    );
    expect_error(
        "while 1 {\nbreak\n}",
        vec![Statement::While {
            condition: number(1),
            body: block(vec![Statement::Break], vec![2]),
        }],
        vec![1],
        1,
        "condition must be Bool",
    );
    expect_error(
        "const x = 1\nfor item in x {\nconst value = item\n}",
        vec![
            c("x", number(1)),
            Statement::For {
                binding: ForBinding::Name("item".to_string()),
                iterable: id("x"),
                body: block(vec![c("value", id("item"))], vec![3]),
            },
        ],
        vec![1, 2],
        2,
        "for loop iterable must be Array",
    );
    expect_error("const x = \"1\" + 2", vec![c("x", bin(text("1"), BinaryOp::Add, number(2)))], vec![1], 1, "requires numeric operands");
    expect_error("const x = 1 == true", vec![c("x", bin(number(1), BinaryOp::Eq, yes()))], vec![1], 1, "matching operand types");
    expect_error("const x = true % 2", vec![c("x", bin(yes(), BinaryOp::Mod, number(2)))], vec![1], 1, "requires Int operands");
    expect_error(
        "const x = \"a\" < \"b\"",
        vec![c("x", bin(text("a"), BinaryOp::Lt, text("b")))],
        vec![1],
        1,
        "requires numeric operands",
    );
}
