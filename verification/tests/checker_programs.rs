use nacre::ast::{
    AssignTarget, Expr, ForBinding, ImplMethod, MatchArm, Param, Program, Statement, TraitMethod, Type,
    TypeParam,
};
use nacre::checker::{FunctionSig, TypeChecker};
use nacre::collections::AssocMap;
use nacre::names::{impl_method_name, is_valid_name, method_call_parts};
use nacre::type_utils::substitute_generics;

fn param(name: &str, ty: Type) -> Param {
    Param {
        name: name.to_string(),
        ty,
        default: None,
        variadic: false,
        capture_name: None,
    }
}

fn program(statements: Vec<Statement>, lines: Vec<usize>) -> Program {
    Program::new(statements, lines)
}

fn constant(name: &str, expr: Expr) -> Statement {
    Statement::Const {
        name: name.to_string(),
        annotation: None,
        expr,
    }
}

#[test]
fn check_program_covers_direct_statement_paths() {
    let statements = vec![
        Statement::Use {
            path: vec!["std".to_string(), "fs".to_string()],
            alias: None,
            items: Vec::new(),
            re_export: false,
        },
        Statement::Trait {
            name: "Show".to_string(),
            type_param: "T".to_string(),
            methods: vec![TraitMethod {
                name: "show".to_string(),
                params: vec![param("value", Type::Named("T".to_string()))],
                return_type: Type::String,
            }],
        },
        Statement::Impl {
            trait_name: "Show".to_string(),
            for_type: Type::Int,
            methods: vec![ImplMethod {
                name: "show".to_string(),
                params: vec![param("value", Type::Int)],
                return_type: Type::String,
                body: program(vec![Statement::Return(Expr::String("int".to_string()))], vec![8]),
            }],
        },
        Statement::TypeAlias {
            name: "User".to_string(),
            type_params: Vec::new(),
            ty: Type::Record(vec![("name".to_string(), Type::String)]),
        },
        Statement::Newtype {
            name: "UserId".to_string(),
            type_params: Vec::new(),
            base: Type::Int,
        },
        Statement::Function {
            name: "greet".to_string(),
            override_constructor: false,
            type_params: Vec::new(),
            params: vec![param("name", Type::String)],
            return_type: Type::String,
            body: program(vec![Statement::Return(Expr::Ident("name".to_string()))], vec![14]),
        },
        constant("names", Expr::Array(vec![Expr::String("Ada".to_string())])),
        Statement::Const {
            name: "user".to_string(),
            annotation: Some(Type::Named("User".to_string())),
            expr: Expr::Record(vec![("name".to_string(), Expr::String("Ada".to_string()))]),
        },
        constant(
            "id",
            Expr::NewtypeCtor {
                name: "UserId".to_string(),
                value: Box::new(Expr::Int(1)),
            },
        ),
        Statement::Let {
            name: "count".to_string(),
            annotation: None,
            expr: Expr::Int(1),
        },
        Statement::Assign {
            target: AssignTarget::Name("count".to_string()),
            expr: Expr::Int(2),
        },
        Statement::Expr(Expr::Call {
            name: "greet".to_string(),
            args: vec![Expr::String("Ada".to_string())],
        }),
        Statement::If {
            condition: Expr::Bool(true),
            then_branch: program(vec![constant("inside", Expr::Ident("count".to_string()))], vec![23]),
            else_branch: Some(program(vec![constant("inside", Expr::Int(0))], vec![25])),
        },
        Statement::While {
            condition: Expr::Bool(true),
            body: program(vec![Statement::Break], vec![28]),
        },
        Statement::For {
            binding: ForBinding::Name("name".to_string()),
            iterable: Expr::Ident("names".to_string()),
            body: program(
                vec![constant("copy", Expr::Ident("name".to_string())), Statement::Continue],
                vec![31, 32],
            ),
        },
    ];
    let lines = vec![2, 3, 6, 11, 12, 13, 16, 17, 18, 19, 20, 21, 22, 27, 30];
    let program = Program::new(statements, lines);

    TypeChecker::default().check_program(&program).unwrap();
}

#[test]
fn checker_helpers_cover_generic_substitution_shapes() {
    let mut inferred = AssocMap::new();
    inferred.insert("T".to_string(), Type::String);

    assert_eq!(
        impl_method_name(
            "pkg.Show",
            &Type::Applied("Box".to_string(), vec![Type::Int]),
            "show-value"
        ),
        "__nacre_trait_pkg_Show_Box_Int__show_value"
    );
    assert_eq!(
        substitute_generics(&Type::Generic("T".to_string()), &inferred),
        Type::String
    );
    assert_eq!(
        substitute_generics(
            &Type::Future(Box::new(Type::Generic("T".to_string()))),
            &inferred
        ),
        Type::Future(Box::new(Type::String))
    );
    assert_eq!(
        substitute_generics(
            &Type::Mapping(
                Box::new(Type::Generic("T".to_string())),
                Box::new(Type::Array(Box::new(Type::Generic("T".to_string())))),
            ),
            &inferred,
        ),
        Type::Mapping(
            Box::new(Type::String),
            Box::new(Type::Array(Box::new(Type::String))),
        )
    );
    assert_eq!(
        substitute_generics(
            &Type::Record(vec![("item".to_string(), Type::Generic("T".to_string()))]),
            &inferred,
        ),
        Type::Record(vec![("item".to_string(), Type::String)])
    );
    assert_eq!(
        substitute_generics(
            &Type::Tuple(vec![Type::Generic("T".to_string()), Type::Int]),
            &inferred,
        ),
        Type::Tuple(vec![Type::String, Type::Int])
    );
    assert_eq!(
        substitute_generics(
            &Type::Function(
                vec![Type::Generic("T".to_string())],
                Box::new(Type::Applied(
                    "Box".to_string(),
                    vec![Type::Generic("T".to_string())]
                )),
            ),
            &inferred,
        ),
        Type::Function(
            vec![Type::String],
            Box::new(Type::Applied("Box".to_string(), vec![Type::String])),
        )
    );

    let trait_program = Program::new(
        vec![Statement::Trait {
            name: "Show".to_string(),
            type_param: "T".to_string(),
            methods: vec![TraitMethod {
                name: "show".to_string(),
                params: vec![Param {
                    name: "value".to_string(),
                    ty: Type::Generic("T".to_string()),
                    default: Some(Expr::String("x".to_string())),
                    variadic: false,
                    capture_name: None,
                }],
                return_type: Type::String,
            }],
        }],
        vec![1],
    );
    let error = TypeChecker::default()
        .check_program(&trait_program)
        .unwrap_err();
    assert!(error.message().contains("cannot use default parameters"));

    let for_error = Program::new(
        vec![
            constant("x", Expr::Int(1)),
            Statement::For {
                binding: ForBinding::Name("item".to_string()),
                iterable: Expr::Ident("x".to_string()),
                body: program(vec![constant("copy", Expr::Ident("item".to_string()))], vec![3]),
            },
        ],
        vec![1, 2],
    );
    let error = TypeChecker::default()
        .check_program(&for_error)
        .unwrap_err();
    assert!(error.message().contains("for loop iterable must be Array"));

    let mut checker = TypeChecker::default();
    checker.define("value", Type::Int, false, 1).unwrap();
    checker.method_impls.insert(
        ("show".to_string(), "Int".to_string()),
        vec![
            ("Display".to_string(), "display_show".to_string()),
            ("Debug".to_string(), "debug_show".to_string()),
        ],
    );
    let error = checker.resolve_method_name("value", "show", 1).unwrap_err();
    assert!(error.message().contains("ambiguous method"));
    assert_eq!(
        checker
            .resolve_scoped_method_name("Display", "show", &vec![Expr::Ident("value".to_string())], 1)
            .unwrap(),
        "display_show"
    );
    let error = checker
        .resolve_scoped_method_name("Clone", "show", &vec![Expr::Ident("value".to_string())], 1)
        .unwrap_err();
    assert!(error.message().contains("does not implement trait `Clone`"));
    let error = checker
        .resolve_scoped_method_name("Display", "missing", &vec![Expr::Ident("value".to_string())], 1)
        .unwrap_err();
    assert!(error
        .message()
        .contains("does not implement trait `Display`"));
    let error = checker
        .resolve_scoped_method_name("Display", "show", &Vec::new(), 1)
        .unwrap_err();
    assert!(error.message().contains("requires a receiver argument"));
    checker.functions.insert(
        "fallback".to_string(),
        FunctionSig {
            type_params: Vec::new(),
            params: Vec::new(),
            return_type: Type::Unit,
        },
    );
    assert_eq!(
        checker.resolve_method_name("value", "fallback", 1).unwrap(),
        "fallback"
    );
    assert!(!is_valid_name(""));
    assert_eq!(method_call_parts("value."), None);

    assert!(checker
        .check_tuple(&[Expr::Int(1)], 1)
        .unwrap_err()
        .message()
        .contains("tuple literal"));
    assert!(checker
        .check_len("missing", 1)
        .unwrap_err()
        .message()
        .contains("undefined variable"));
    assert!(checker
        .check_tuple_field("missing", 1, 1)
        .unwrap_err()
        .message()
        .contains("undefined variable"));
    assert!(checker
        .check_field("missing", "field", 1)
        .unwrap_err()
        .message()
        .contains("undefined variable"));
    checker.types.insert("Alias".to_string(), Type::Int);
    assert!(checker
        .check_newtype_ctor("Alias", &Expr::Int(1), 1)
        .unwrap_err()
        .message()
        .contains("not a newtype"));

    let generic_sig = FunctionSig {
        type_params: vec![TypeParam {
            name: "T".to_string(),
            bounds: Vec::new(),
        }],
        params: Vec::new(),
        return_type: Type::Generic("T".to_string()),
    };
    let error = checker
        .check_generic_call("identity", &generic_sig, &Vec::new(), 1)
        .unwrap_err();
    assert!(error.message().contains("could not infer generic type"));
    let error = checker
        .check_generic_call("identity", &generic_sig, &vec![Expr::Int(1)], 1)
        .unwrap_err();
    assert!(error.message().contains("expects 0 arguments"));

    let mut inferred = AssocMap::new();
    assert!(checker
        .infer_generic_type(
            &Type::Future(Box::new(Type::Generic("T".to_string()))),
            &Type::Future(Box::new(Type::String)),
            &Expr::Await("job".to_string()),
            &mut AssocMap::new(),
        )
        .is_ok());
    assert!(checker
        .infer_generic_type(
            &Type::Future(Box::new(Type::Generic("T".to_string()))),
            &Type::Int,
            &Expr::Int(1),
            &mut AssocMap::new(),
        )
        .unwrap_err()
        .contains("expected T"));
    assert!(checker
        .infer_generic_type(
            &Type::Mapping(
                Box::new(Type::String),
                Box::new(Type::Generic("T".to_string()))
            ),
            &Type::Int,
            &Expr::Int(1),
            &mut inferred,
        )
        .unwrap_err()
        .contains("expected Map"));
    assert!(checker
        .infer_generic_type(
            &Type::Tuple(vec![Type::String, Type::Generic("T".to_string())]),
            &Type::Int,
            &Expr::Int(1),
            &mut AssocMap::new(),
        )
        .unwrap_err()
        .contains("expected (String, T)"));
    assert!(checker
        .infer_generic_type(
            &Type::Tuple(vec![Type::String, Type::Generic("T".to_string())]),
            &Type::Tuple(vec![Type::String]),
            &Expr::Tuple(vec![Expr::String("x".to_string()), Expr::Int(1)]),
            &mut inferred,
        )
        .unwrap_err()
        .contains("expected (String, T)"));
    assert!(checker
        .infer_generic_type(
            &Type::Record(vec![("item".to_string(), Type::Generic("T".to_string()))]),
            &Type::Int,
            &Expr::Int(1),
            &mut AssocMap::new(),
        )
        .unwrap_err()
        .contains("expected { item: T }"));
    assert!(checker
        .infer_generic_type(
            &Type::Record(vec![("item".to_string(), Type::Generic("T".to_string()))]),
            &Type::Record(Vec::new()),
            &Expr::Record(Vec::new()),
            &mut inferred,
        )
        .unwrap_err()
        .contains("record field `item` is missing"));
    assert!(checker
        .infer_generic_type(
            &Type::Function(
                vec![Type::Generic("T".to_string())],
                Box::new(Type::Generic("T".to_string()))
            ),
            &Type::Function(Vec::new(), Box::new(Type::String)),
            &Expr::Ident("f".to_string()),
            &mut AssocMap::new(),
        )
        .unwrap_err()
        .contains("expected T => T"));
    assert!(checker
        .infer_generic_type(
            &Type::Function(
                vec![Type::Generic("T".to_string())],
                Box::new(Type::Generic("T".to_string()))
            ),
            &Type::Int,
            &Expr::Int(1),
            &mut inferred,
        )
        .unwrap_err()
        .contains("expected T => T"));
    checker
        .define(
            "callable",
            Type::Function(vec![Type::String], Box::new(Type::Bool)),
            false,
            1,
        )
        .unwrap();
    let error = checker
        .check_function_value_call("callable", &Vec::new(), 1)
        .unwrap_err();
    assert!(error
        .message()
        .contains("function value `callable` expects 1 arguments"));
    let error = checker
        .resolve_type_with_generics(
            &Type::Applied("Missing".to_string(), Vec::new()),
            &AssocMap::new(),
            1,
        )
        .unwrap_err();
    assert!(error.message().contains("unknown type `Missing`"));
    assert_eq!(
        checker
            .resolve_type_with_generics(
                &Type::Future(Box::new(Type::String)),
                &AssocMap::new(),
                1
            )
            .unwrap(),
        Type::Future(Box::new(Type::String))
    );
    let no_arms: Vec<MatchArm> = Vec::new();
    assert!(checker
        .check_match(&Expr::Int(1), &no_arms, 1)
        .unwrap_err()
        .message()
        .contains("requires at least one arm"));
    assert!(checker
        .check_value_access("missing", 1)
        .unwrap_err()
        .message()
        .contains("undefined variable"));
    assert!(checker.is_assignable(
        &Type::Path,
        &Type::String,
        &Expr::String("/tmp".to_string())
    ));
    assert!(checker.is_assignable(
        &Type::Future(Box::new(Type::Path)),
        &Type::Future(Box::new(Type::String)),
        &Expr::Await("job".to_string())
    ));
    assert!(checker.is_assignable(
        &Type::Function(vec![Type::Path], Box::new(Type::Path)),
        &Type::Function(vec![Type::String], Box::new(Type::String)),
        &Expr::Ident("f".to_string())
    ));
    assert!(checker.is_assignable(
        &Type::Record(vec![("name".to_string(), Type::String)]),
        &Type::Record(vec![("name".to_string(), Type::Path)]),
        &Expr::Record(Vec::new())
    ));
    assert!(checker.is_assignable(
        &Type::Brand {
            name: "UserId".to_string(),
            base: Box::new(Type::Int),
        },
        &Type::Brand {
            name: "UserId".to_string(),
            base: Box::new(Type::String),
        },
        &Expr::Int(1)
    ));
}
