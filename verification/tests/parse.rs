use ruggle::parse::{parse_function_decl, parse_query, parse_type, ParseError};
use ruggle::query::{
    Argument, FnDecl, FnRetTy, Function, GenericArg, GenericArgs, PrimitiveType, Qualifier,
    QualifierSet, Query, QueryKind, Type,
};

fn path(name: &str, args: Option<Vec<Option<Type>>>) -> Type {
    Type::UnresolvedPath {
        name: name.to_string(),
        args: args.map(|a| {
            Box::new(GenericArgs::AngleBracketed {
                args: a.into_iter().map(|t| t.map(GenericArg::Type)).collect(),
            })
        }),
    }
}

fn shared(t: Type) -> Type {
    Type::BorrowedRef { mutable: false, type_: Box::new(t) }
}

#[test]
fn test_parse_complex_type1() {
    let input = "&mut [Option<i32>]";
    let (_, ty) = parse_type(input).unwrap();
    assert_eq!(
        ty,
        Type::BorrowedRef {
            mutable: true,
            type_: Box::new(Type::Slice(Some(Box::new(Type::UnresolvedPath {
                name: "Option".to_string(),
                args: Some(Box::new(GenericArgs::AngleBracketed {
                    args: vec![Some(GenericArg::Type(Type::Primitive(PrimitiveType::I32)))]
                }))
            }))))
        }
    );
}

#[test]
fn test_parse_complex_type2() {
    let input = "*const (i32, &str, T)";
    let (_, ty) = parse_type(input).unwrap();
    assert_eq!(
        ty,
        Type::RawPointer {
            mutable: false,
            type_: Box::new(Type::Tuple(vec![
                Some(Type::Primitive(PrimitiveType::I32)),
                Some(Type::BorrowedRef {
                    mutable: false,
                    type_: Box::new(Type::Primitive(PrimitiveType::Str)),
                }),
                Some(Type::Generic("T".to_string())),
            ]))
        }
    );
}

#[test]
fn test_parse_complex_type3() {
    let input = "Result<_, E>";
    let (_, ty) = parse_type(input).unwrap();
    assert_eq!(
        ty,
        Type::UnresolvedPath {
            name: "Result".to_string(),
            args: Some(Box::new(GenericArgs::AngleBracketed {
                args: vec![None, Some(GenericArg::Type(Type::Generic("E".to_string()))),]
            }))
        }
    );
}

#[test]
fn test_parse_function_decl() {
    let input = "(x: i32, y: &str) -> bool";
    let (_, decl) = parse_function_decl(input).unwrap();
    assert_eq!(
        decl,
        FnDecl {
            inputs: Some(vec![
                Argument {
                    name: Some("x".to_string()),
                    ty: Some(Type::Primitive(PrimitiveType::I32)),
                },
                Argument {
                    name: Some("y".to_string()),
                    ty: Some(Type::BorrowedRef {
                        mutable: false,
                        type_: Box::new(Type::Primitive(PrimitiveType::Str)),
                    }),
                },
            ]),
            output: Some(FnRetTy::Return(Type::Primitive(PrimitiveType::Bool))),
        }
    );
}

#[test]
fn test_parse_function_decl_with_underscore() {
    let input = "(_, y: &str) -> ()";
    let (_, decl) = parse_function_decl(input).unwrap();
    assert_eq!(
        decl,
        FnDecl {
            inputs: Some(vec![
                Argument { name: None, ty: None },
                Argument {
                    name: Some("y".to_string()),
                    ty: Some(Type::BorrowedRef {
                        mutable: false,
                        type_: Box::new(Type::Primitive(PrimitiveType::Str)),
                    }),
                },
            ]),
            output: Some(FnRetTy::DefaultReturn),
        }
    );
}

#[test]
fn test_parse_complex_output_type() {
    let input = "(x: i32) -> (i32, &str, T)";
    let (_, decl) = parse_function_decl(input).unwrap();
    assert_eq!(
        decl,
        FnDecl {
            inputs: Some(vec![Argument {
                name: Some("x".to_string()),
                ty: Some(Type::Primitive(PrimitiveType::I32)),
            },]),
            output: Some(FnRetTy::Return(Type::Tuple(vec![
                Some(Type::Primitive(PrimitiveType::I32)),
                Some(Type::BorrowedRef {
                    mutable: false,
                    type_: Box::new(Type::Primitive(PrimitiveType::Str)),
                }),
                Some(Type::Generic("T".to_string())),
            ]))),
        }
    );
}

#[test]
fn test_parse_complex_output_type2() {
    let input = "fn abc() -> Result<Vec<i32>>";
    let (_, decl) = parse_query(input).unwrap();
    assert_eq!(
        decl,
        Query {
            name: Some("abc".to_string()),
            kind: Some(QueryKind::FunctionQuery(Function {
                decl: FnDecl {
                    inputs: Some(vec![]),
                    output: Some(FnRetTy::Return(Type::UnresolvedPath {
                        name: "Result".to_string(),
                        args: Some(Box::new(GenericArgs::AngleBracketed {
                            args: vec![Some(GenericArg::Type(Type::UnresolvedPath {
                                name: "Vec".to_string(),
                                args: Some(Box::new(GenericArgs::AngleBracketed {
                                    args: vec![Some(GenericArg::Type(Type::Primitive(
                                        PrimitiveType::I32
                                    )))]
                                }))
                            }))]
                        }))
                    })),
                },
                qualifiers: QualifierSet::new(),
            })),
        }
    );
}

#[test]
fn test_parse_qualified_function() {
    let input = "pub async fn foo(bar: i32, _: &str) -> bool";
    let (_, query) = parse_query(input).unwrap();
    assert_eq!(
        query,
        Query {
            name: Some("foo".to_string()),
            kind: Some(QueryKind::FunctionQuery(Function {
                decl: FnDecl {
                    inputs: Some(vec![
                        Argument {
                            name: Some("bar".to_string()),
                            ty: Some(Type::Primitive(PrimitiveType::I32)),
                        },
                        Argument {
                            name: None,
                            ty: Some(Type::BorrowedRef {
                                mutable: false,
                                type_: Box::new(Type::Primitive(PrimitiveType::Str)),
                            }),
                        },
                    ]),
                    output: Some(FnRetTy::Return(Type::Primitive(PrimitiveType::Bool))),
                },
                qualifiers: QualifierSet::from_list(&[Qualifier::Async]),
            })),
        }
    );
}

#[test]
fn every_text_gives_a_query() {
    for text in ["", "   ", "fn foo(", "))((", "fn foo(x: ", "-> i32", "é ü", "fn (..) ->"] {
        assert!(parse_query(text).is_ok(), "{:?}", text);
    }
    let (rest, query) = parse_query("fn foo(").unwrap();
    assert_eq!(rest, "(");
    assert_eq!(query, Query { name: Some("foo".to_string()), kind: None });
}

#[test]
fn a_name_needs_a_space_before_it() {
    let (rest, query) = parse_query("foo").unwrap();
    assert_eq!(rest, "foo");
    assert_eq!(query, Query { name: None, kind: None });
    let (rest, query) = parse_query("fn foo").unwrap();
    assert_eq!(rest, "");
    assert_eq!(query, Query { name: Some("foo".to_string()), kind: None });
}

#[test]
fn qualifiers_count_only_with_a_declaration() {
    let (_, query) = parse_query("const unsafe extern fn f()").unwrap();
    match query.kind {
        Some(QueryKind::FunctionQuery(f)) => {
            assert_eq!(
                f.qualifiers,
                QualifierSet { is_async: false, is_unsafe: true, is_const: true }
            );
        }
        _ => panic!("no declaration"),
    }
    let (_, query) = parse_query("async fn f").unwrap();
    assert_eq!(query.kind, None);
}

#[test]
fn any_parameters_and_any_return() {
    let (rest, decl) = parse_function_decl("(..) x").unwrap();
    assert_eq!(decl, FnDecl { inputs: None, output: None });
    assert_eq!(rest, " x");
    let (rest, decl) = parse_function_decl("()").unwrap();
    assert_eq!(decl, FnDecl { inputs: Some(vec![]), output: Some(FnRetTy::DefaultReturn) });
    assert_eq!(rest, "");
    let (_, decl) = parse_function_decl("()   ").unwrap();
    assert_eq!(decl.output, Some(FnRetTy::DefaultReturn));
    let (_, decl) = parse_function_decl("() ->  ()").unwrap();
    assert_eq!(decl.output, Some(FnRetTy::DefaultReturn));
    let (_, decl) = parse_function_decl("() -> (i32)").unwrap();
    assert_eq!(
        decl.output,
        Some(FnRetTy::Return(Type::Tuple(vec![Some(Type::Primitive(PrimitiveType::I32))])))
    );
}

#[test]
fn a_bare_name_is_a_type() {
    let (_, decl) = parse_function_decl("(foo, _, x: _, : i32, y:)").unwrap();
    assert_eq!(
        decl.inputs,
        Some(vec![
            Argument { name: None, ty: Some(path("foo", None)) },
            Argument { name: None, ty: None },
            Argument { name: Some("x".to_string()), ty: None },
            Argument { name: None, ty: Some(Type::Primitive(PrimitiveType::I32)) },
            Argument { name: Some("y".to_string()), ty: None },
        ])
    );
}

#[test]
fn words_are_matched_as_prefixes() {
    assert_eq!(
        parse_type("string").unwrap(),
        ("ing".to_string(), Type::Primitive(PrimitiveType::Str))
    );
    assert_eq!(
        parse_type("isize8").unwrap(),
        ("8".to_string(), Type::Primitive(PrimitiveType::Isize))
    );
    assert_eq!(
        parse_type("&mutex").unwrap(),
        (
            "".to_string(),
            Type::BorrowedRef { mutable: true, type_: Box::new(path("ex", None)) }
        )
    );
    assert_eq!(parse_type("&mu").unwrap(), ("".to_string(), shared(path("mu", None))));
    assert_eq!(
        parse_type("*mut T").unwrap(),
        (
            "".to_string(),
            Type::RawPointer { mutable: true, type_: Box::new(Type::Generic("T".to_string())) }
        )
    );
}

#[test]
fn generics_are_upper_case_runs() {
    assert_eq!(parse_type("T").unwrap().1, Type::Generic("T".to_string()));
    assert_eq!(parse_type("HTTP").unwrap().1, Type::Generic("HTTP".to_string()));
    assert_eq!(parse_type("Vec").unwrap().1, path("Vec", None));
    assert_eq!(
        parse_type("IO<T>").unwrap(),
        ("<T>".to_string(), Type::Generic("IO".to_string()))
    );
    assert_eq!(parse_type("T1").unwrap(), ("1".to_string(), Type::Generic("T".to_string())));
    assert_eq!(parse_type("_x9").unwrap().1, path("_x9", None));
}

#[test]
fn generic_arguments() {
    assert_eq!(parse_type("Vec<>").unwrap().1, path("Vec", Some(vec![None])));
    assert_eq!(parse_type("Vec<,>").unwrap().1, path("Vec", Some(vec![None, None])));
    assert_eq!(
        parse_type("Vec<i32,>").unwrap().1,
        path("Vec", Some(vec![Some(Type::Primitive(PrimitiveType::I32)), None]))
    );
    assert_eq!(parse_type("Vec< >").unwrap().1, path("Vec", Some(vec![None])));
    assert_eq!(
        parse_type("Vec<i32").unwrap(),
        ("<i32".to_string(), path("Vec", None))
    );
}

#[test]
fn tuples_and_slices() {
    assert_eq!(parse_type("()").unwrap().1, Type::Tuple(vec![]));
    assert_eq!(
        parse_type("( _, i8)").unwrap().1,
        Type::Tuple(vec![None, Some(Type::Primitive(PrimitiveType::I8))])
    );
    assert_eq!(parse_type("( _ ,i8)"), Err(ParseError { position: 0 }));
    assert_eq!(parse_type("[_]").unwrap().1, Type::Slice(None));
    assert_eq!(
        parse_type("[ _]").unwrap().1,
        Type::Slice(Some(Box::new(path("_", None))))
    );
    assert_eq!(parse_type("!").unwrap().1, Type::Never);
}

#[test]
fn where_the_parser_gives_up() {
    assert_eq!(parse_type(""), Err(ParseError { position: 0 }));
    assert_eq!(parse_type("  ?"), Err(ParseError { position: 2 }));
    assert_eq!(parse_type("(i32 )"), Err(ParseError { position: 0 }));
    assert_eq!(parse_type(" [i32"), Err(ParseError { position: 1 }));
    assert_eq!(parse_type("& &mut  9"), Err(ParseError { position: 8 }));
    assert_eq!(parse_type("*mut 9"), Err(ParseError { position: 0 }));
    assert_eq!(parse_function_decl("x").unwrap_err(), ParseError { position: 0 });
    assert_eq!(parse_function_decl("(i32,").unwrap_err(), ParseError { position: 4 });
    assert_eq!(parse_function_decl("(a: i32 ]").unwrap_err(), ParseError { position: 7 });
}

#[test]
fn a_failure_leaves_no_trace() {
    let before = parse_type("Option<T>").unwrap();
    assert!(parse_type("???").is_err());
    assert_eq!(parse_type("Option<T>").unwrap(), before);
    assert!(parse_function_decl("Option<T>").is_err());
    assert_eq!(parse_type("Option<T>").unwrap(), before);
}

#[test]
fn the_unit_return_in_both_spellings() {
    let (_, written) = parse_query("fn f(i32) -> ()").unwrap();
    let (_, left_out) = parse_query("fn f(i32)").unwrap();
    assert_eq!(written, left_out);
}
