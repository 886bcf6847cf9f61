use nacre::ast::Type;

#[test]
fn names_cover_all_composite_type_shapes() {
    let cases = vec![
        (Type::Float, "Float"),
        (Type::String, "String"),
        (Type::Path, "Path"),
        (Type::Unit, "Unit"),
        (Type::Future(Box::new(Type::Int)), "Future[Int]"),
        (
            Type::Record(vec![
                ("name".to_string(), Type::String),
                ("age".to_string(), Type::Int),
            ]),
            "{ name: String, age: Int }",
        ),
        (
            Type::Function(vec![Type::String, Type::Int], Box::new(Type::Bool)),
            "(String, Int) => Bool",
        ),
        (
            Type::Union(vec![Type::String, Type::Int, Type::Bool]),
            "String | Int | Bool",
        ),
        (
            Type::Intersection(vec![Type::String, Type::Path]),
            "String & Path",
        ),
        (Type::Generic("T".to_string()), "T"),
        (
            Type::Applied("Box".to_string(), vec![Type::String, Type::Int]),
            "Box[String, Int]",
        ),
        (
            Type::Applied("Option".to_string(), vec![Type::String]),
            "String?",
        ),
        (
            Type::Applied("Result".to_string(), vec![Type::String, Type::Int]),
            "String \\/ Int",
        ),
    ];

    for (ty, expected) in cases {
        assert_eq!(ty.name(), expected);
    }
}

#[test]
fn names_of_maps_brands_and_named_types() {
    assert_eq!(
        Type::Mapping(Box::new(Type::String), Box::new(Type::Int)).name(),
        "Map[String, Int]"
    );
    assert_eq!(Type::Named("User".to_string()).name(), "User");
    assert_eq!(
        Type::Brand {
            name: "UserId".to_string(),
            base: Box::new(Type::Int)
        }
        .name(),
        "UserId"
    );
    assert_eq!(Type::Tuple(vec![Type::String, Type::Int]).name(), "(String, Int)");
    assert_eq!(Type::Array(Box::new(Type::Path)).name(), "[Path]");
}

#[test]
fn duplicate_keeps_the_type() {
    let ty = Type::Function(
        vec![Type::Record(vec![("item".to_string(), Type::Generic("T".to_string()))])],
        Box::new(Type::Applied("Option".to_string(), vec![Type::Path])),
    );
    assert_eq!(ty.duplicate(), ty);
}
