use ruggle::parse::{parse_query, parse_type};
use ruggle::search::SearchError;
use ruggle::store::{crate_files, CrateFile};
use ruggle::types::{
    AssocItemConstraint, AssocItemConstraintKind, Constant, CrateMetadata, Function,
    FunctionHeader, FunctionSignature, GenericArg, GenericArgs, GenericBound, GenericParamDef,
    GenericParamDefKind, Generics, Id, Item, ItemEnum, Module, Path, PreciseCapturingArg, Struct,
    StructKind, Term, TraitBoundModifier, Type, Visibility, WherePredicate,
};
use std::collections::HashMap;

fn prim(name: &str) -> Type {
    Type::Primitive(name.to_string())
}

fn generic(name: &str) -> Type {
    Type::Generic(name.to_string())
}

fn path(name: &str, args: Option<GenericArgs>) -> Path {
    Path { path: name.to_string(), id: Id(1), args: args.map(Box::new) }
}

fn trait_bound(name: &str, modifier: TraitBoundModifier) -> GenericBound {
    GenericBound::TraitBound { trait_: path(name, None), generic_params: vec![], modifier }
}

fn lifetime_param(name: &str, outlives: &[&str]) -> GenericParamDef {
    GenericParamDef {
        name: name.to_string(),
        kind: GenericParamDefKind::Lifetime {
            outlives: outlives.iter().map(|s| s.to_string()).collect(),
        },
    }
}

fn type_param(name: &str, bounds: Vec<GenericBound>, default: Option<Type>, is_synthetic: bool) -> GenericParamDef {
    GenericParamDef {
        name: name.to_string(),
        kind: GenericParamDefKind::Type { bounds, default, is_synthetic },
    }
}

fn item(id: u32, name: Option<&str>, inner: ItemEnum) -> Item {
    Item {
        id: Id(id),
        crate_id: 0,
        name: name.map(|n| n.to_string()),
        span: None,
        visibility: Visibility::Public,
        docs: None,
        links: HashMap::default(),
        attrs: vec![],
        deprecation: None,
        inner,
    }
}

#[test]
fn candidate_types_in_a_line() {
    assert_eq!(Type::ResolvedPath(path("std::vec::Vec", None)).display(), "std::vec::Vec");
    assert_eq!(generic("T").display(), "T");
    assert_eq!(prim("u8").display(), "u8");
    assert_eq!(Type::Tuple(vec![]).display(), "()");
    assert_eq!(Type::Tuple(vec![prim("u8"), generic("T")]).display(), "(u8, T)");
    assert_eq!(Type::Slice(Box::new(prim("u8"))).display(), "[u8]");
    assert_eq!(Type::Array { type_: Box::new(prim("u8")), len: "4".into() }.display(), "[u8; 4]");
    assert_eq!(Type::Infer.display(), "_");
    assert_eq!(Type::ImplTrait(vec![]).display(), "impl <trait bounds>");
    assert_eq!(Type::Pat { type_: Box::new(prim("u8")), pat: "0..".into() }.display(), "<pattern type>");
    assert_eq!(Type::RawPointer { is_mutable: true, type_: Box::new(prim("u8")) }.display(), "*mut ...");
    assert_eq!(Type::RawPointer { is_mutable: false, type_: Box::new(prim("u8")) }.display(), "*const ...");
    let reference = |lifetime: Option<&str>, is_mutable: bool| Type::BorrowedRef {
        lifetime: lifetime.map(|l| l.to_string()),
        is_mutable,
        type_: Box::new(prim("str")),
    };
    assert_eq!(reference(None, false).display(), "&_ str");
    assert_eq!(reference(Some("'a"), false).display(), "&'a str");
    assert_eq!(reference(None, true).display(), "&mut str");
    assert_eq!(reference(Some("'a"), true).display(), "&mut'a str");
    assert_eq!(
        Type::QualifiedPath { name: "Item".into(), args: None, self_type: Box::new(generic("I")), trait_: None }.display(),
        "<qualified path>::Item"
    );
}

#[test]
fn paths_and_generic_arguments_in_a_line() {
    assert_eq!(path("Vec", None).display(), "Vec<>");
    let args = GenericArgs::AngleBracketed {
        args: vec![
            GenericArg::Lifetime("'a".into()),
            GenericArg::Type(prim("u8")),
            GenericArg::Const(Constant { expr: "N + 1".into(), value: Some("3".into()), is_literal: false }),
            GenericArg::Infer,
        ],
        constraints: vec![
            AssocItemConstraint {
                name: "Item".into(),
                args: None,
                binding: AssocItemConstraintKind::Equality(Term::Type(prim("u32"))),
            },
            AssocItemConstraint {
                name: "IntoIter".into(),
                args: None,
                binding: AssocItemConstraintKind::Constraint(vec![
                    trait_bound("Clone", TraitBoundModifier::Unmodified),
                    GenericBound::Outlives("'static".into()),
                ]),
            },
        ],
    };
    assert_eq!(args.display(), "<'a, u8, N + 1, _, Item = u32, IntoIter : Clone<> + 'static>");
    assert_eq!(
        GenericArgs::AngleBracketed { args: vec![], constraints: vec![] }.display(),
        "<>"
    );
    assert_eq!(
        GenericArgs::Parenthesized { inputs: vec![prim("u8"), generic("T")], output: Some(prim("bool")) }.display(),
        "(u8, T) -> bool"
    );
    assert_eq!(GenericArgs::Parenthesized { inputs: vec![], output: None }.display(), "()");
    assert_eq!(GenericArgs::ReturnTypeNotation.display(), "...");
    assert_eq!(
        path("Vec", Some(GenericArgs::AngleBracketed { args: vec![GenericArg::Type(generic("T"))], constraints: vec![] })).display(),
        "Vec<<T>>"
    );
    assert_eq!(Term::Constant(Constant { expr: "1".into(), value: None, is_literal: true }).display(), "1");
}

#[test]
fn bounds_and_parameters_in_a_line() {
    assert_eq!(trait_bound("Sized", TraitBoundModifier::Maybe).display(), "Sized<>?");
    assert_eq!(trait_bound("Drop", TraitBoundModifier::MaybeConst).display(), "Drop<> + const");
    let higher = GenericBound::TraitBound {
        trait_: path("Fn", None),
        generic_params: vec![lifetime_param("'a", &[]), lifetime_param("'b", &["'a", "'static"])],
        modifier: TraitBoundModifier::Unmodified,
    };
    assert_eq!(higher.display(), "for<'a, 'b: 'a + 'static> Fn<>");
    assert_eq!(GenericBound::Outlives("'a".into()).display(), "'a");
    assert_eq!(
        GenericBound::Use(vec![PreciseCapturingArg::Lifetime("'a".into()), PreciseCapturingArg::Param("T".into())]).display(),
        "use<'a, T>"
    );
    assert_eq!(GenericBound::Use(vec![]).display(), "use<>");
    assert_eq!(type_param("T", vec![], None, false).display(), "T");
    assert_eq!(
        type_param("T", vec![trait_bound("A", TraitBoundModifier::Unmodified), trait_bound("B", TraitBoundModifier::Unmodified)], Some(prim("u8")), false).display(),
        "T: A<> + B<> = u8"
    );
    assert_eq!(
        type_param("impl A", vec![trait_bound("A", TraitBoundModifier::Unmodified)], None, true).display(),
        "impl A<>"
    );
    let constant = |default: Option<&str>| GenericParamDef {
        name: "N".into(),
        kind: GenericParamDefKind::Const { type_: prim("usize"), default: default.map(|d| d.to_string()) },
    };
    assert_eq!(constant(None).display(), "const N: usize");
    assert_eq!(constant(Some("4")).display(), "const N: usize = 4");
}

#[test]
fn generics_and_functions_in_a_line() {
    let generics = Generics {
        params: vec![lifetime_param("'a", &[]), type_param("T", vec![], None, false)],
        where_predicates: vec![
            WherePredicate::BoundPredicate {
                type_: generic("T"),
                bounds: vec![trait_bound("Clone", TraitBoundModifier::Unmodified)],
                generic_params: vec![lifetime_param("'b", &[])],
            },
            WherePredicate::LifetimePredicate { lifetime: "'a".into(), outlives: vec!["'b".into(), "'c".into()] },
            WherePredicate::EqPredicate { lhs: generic("Self"), rhs: Term::Type(prim("u8")) },
        ],
    };
    assert_eq!(generics.display(), "<'a, T> where for<'b> T: Clone<>, 'a: 'b + 'c, Self = u8");
    assert_eq!(Generics::default().display(), "");
    let sig = FunctionSignature {
        inputs: vec![("a".into(), prim("u8")), ("".into(), generic("T"))],
        output: Some(prim("bool")),
        is_c_variadic: true,
    };
    assert_eq!(sig.display(), "fn(a: u8, : T, ...) -> bool");
    let bare = FunctionSignature { inputs: vec![], output: None, is_c_variadic: true };
    assert_eq!(bare.display(), "fn(...)");
    let header = FunctionHeader { is_const: true, is_unsafe: true, is_async: true, ..Default::default() };
    assert_eq!(header.display(), " const unsafe async");
    assert_eq!(FunctionHeader::default().display(), "");
    let function = Function {
        sig: FunctionSignature { inputs: vec![], output: None, is_c_variadic: false },
        generics: Generics::default(),
        header: FunctionHeader { is_async: true, ..Default::default() },
        has_body: true,
    };
    assert_eq!(function.display(), " async  fn()");
    assert_eq!(item(1, Some("f"), ItemEnum::Function(function)).display(), "f  async  fn()");
    let module = ItemEnum::Module(Module { is_crate: true, items: vec![], is_stripped: false });
    assert_eq!(item(0, None, module).display(), "module");
    assert_eq!(item(0, Some("x"), ItemEnum::ExternType).display(), "x extern type");
    assert_eq!(ItemEnum::Macro("m".into()).display(), "macro");
}

#[test]
fn queries_in_a_line() {
    for (text, shown) in [
        ("fn f(a: u8, _: &mut T, _, x: _) -> (i8, _)", "fn f(a: u8, &mut T, _, x: _) -> (i8, _)"),
        ("fn (..)", "fn(..)"),
        ("fn f() -> ()", "fn f()"),
        ("fn f", "fn f"),
        ("", "fn"),
        ("fn ([_], [u8], *const !, *mut str)", "fn([_], [u8], *const !, *mut str)"),
    ] {
        let (_, query) = parse_query(text).unwrap();
        assert_eq!(query.display(), shown);
        if let Some(kind) = &query.kind {
            assert!(shown.ends_with(&kind.display()));
        }
    }
    let (_, plain) = parse_type("Vec").unwrap();
    assert_eq!(plain.display(), "Vec");
    let (_, with_args) = parse_type("Vec<u8, _>").unwrap();
    assert_eq!(with_args.display(), "Vec<AngleBracketed { args: [Some(Type(Primitive(U8))), None] }>");
}

#[test]
fn arguments_for_parameters() {
    assert_eq!(lifetime_param("'a", &[]).to_generic_arg(), GenericArg::Lifetime("'a".into()));
    assert_eq!(lifetime_param("a", &[]).to_generic_arg(), GenericArg::Lifetime("'a".into()));
    assert_eq!(lifetime_param("", &[]).to_generic_arg(), GenericArg::Lifetime("'".into()));
    assert_eq!(type_param("T", vec![], None, false).to_generic_arg(), GenericArg::Type(generic("T")));
    assert_eq!(
        type_param("T", vec![], Some(prim("u8")), false).to_generic_arg(),
        GenericArg::Type(prim("u8"))
    );
    let constant = GenericParamDef {
        name: "N".into(),
        kind: GenericParamDefKind::Const { type_: prim("usize"), default: Some("4".into()) },
    };
    assert_eq!(
        constant.to_generic_arg(),
        GenericArg::Const(Constant { expr: "N".into(), value: None, is_literal: false })
    );
}

#[test]
fn the_type_of_an_item() {
    let structure = |name: Option<&str>| {
        item(
            5,
            name,
            ItemEnum::Struct(Struct {
                kind: StructKind::Unit,
                generics: Generics {
                    params: vec![lifetime_param("a", &[]), type_param("T", vec![], None, false), type_param("A", vec![], Some(path_type("Global")), false)],
                    where_predicates: vec![],
                },
                impls: vec![],
            }),
        )
    };
    let expected = |name: &str| {
        Type::ResolvedPath(Path {
            path: name.into(),
            id: Id(5),
            args: Some(Box::new(GenericArgs::AngleBracketed {
                args: vec![
                    GenericArg::Lifetime("'a".into()),
                    GenericArg::Type(generic("T")),
                    GenericArg::Type(path_type("Global")),
                ],
                constraints: vec![],
            })),
        })
    };
    assert_eq!(Type::from_item(structure(Some("Vec"))), expected("Vec"));
    assert_eq!(Type::from_item(structure(None)), expected(""));
    assert_eq!(Type::from_item(item(1, Some("x"), ItemEnum::ExternType)), Type::Infer);
}

fn path_type(name: &str) -> Type {
    Type::ResolvedPath(path(name, None))
}

#[test]
fn ids_from_numbers_and_texts() {
    assert_eq!(Id::from_number(0), Some(Id(0)));
    assert_eq!(Id::from_number(4_294_967_295), Some(Id(u32::MAX)));
    assert_eq!(Id::from_number(4_294_967_296), None);
    assert_eq!(Id::from_number(u64::MAX), None);
    for (text, id) in [
        ("0", Some(0)),
        ("42", Some(42)),
        ("  42\n", Some(42)),
        ("\u{a0}7\u{3000}", Some(7)),
        ("1_000", Some(1000)),
        ("_1__0_", Some(10)),
        ("+5", Some(5)),
        ("+_5", Some(5)),
        ("_+5", Some(5)),
        ("0007", Some(7)),
        ("4294967295", Some(u32::MAX)),
        ("4294967296", None),
        ("99999999999999999999999999", None),
        ("", None),
        ("   ", None),
        ("_", None),
        ("+", None),
        ("++5", None),
        ("-5", None),
        ("5+", None),
        ("1 2", None),
        ("12a", None),
        ("0x10", None),
        ("１２", None),
    ] {
        assert_eq!(Id::from_text(text), id.map(Id), "{:?}", text);
        let reference = text.trim().replace('_', "").parse::<u32>().ok().map(Id);
        assert_eq!(Id::from_text(text), reference, "{:?}", text);
    }
}

#[test]
fn what_is_told_of_errors() {
    let key = CrateMetadata { name: "serde".into(), version: "1.0".into() };
    assert_eq!(
        SearchError::CrateNotFound(key.clone()).message(),
        "crate `serde:1.0` is not present in the index"
    );
    assert_eq!(
        SearchError::ItemNotFound(0, key.clone()).message(),
        "item with id `0` is not present in crate `serde:1.0`"
    );
    assert_eq!(
        SearchError::ItemNotFound(4_294_967_295, key.clone()).message(),
        "item with id `4294967295` is not present in crate `serde:1.0`"
    );
    assert_eq!(
        SearchError::ItemNotFound(1070, key.clone()).message(),
        "item with id `1070` is not present in crate `serde:1.0`"
    );
    assert_eq!(SearchError::UnknownSet("libstd".into()).message(), "set `libstd` not found");
    assert_eq!(SearchError::UnknownCrate(key.clone()).message(), "crate `serde:1.0` not found");
    assert_eq!(SearchError::ScopeParse("x".into()).message(), "parsing scope `x` failed");
    assert_eq!(SearchError::QueryParse("fn (".into(), 4).message(), "parsing query `fn (` failed");
    assert_eq!(key.parents_file(), "serde:1.0.parents.bin");
}

#[test]
fn the_files_of_an_index() {
    let names: Vec<String> = [
        "serde.json",
        "serde.bin",
        "serde.parents.bin",
        "tokio.json",
        "std.bin",
        "notes.txt",
        "README",
        ".json",
        ".hidden.json",
        "a.b.json",
        "a.b.bin",
        "c.JSON",
        "d.json.bak",
        "e.",
        "set",
        "x.parents.bin.json",
        "y.parents.json",
        "y.parents.bin",
        ".parents.bin",
    ]
    .iter()
    .map(|s| s.to_string())
    .collect();
    let file = |file: &str, name: &str, binary: bool| CrateFile {
        file: file.to_string(),
        name: name.to_string(),
        binary,
    };
    assert_eq!(
        crate_files(&names),
        vec![
            file("serde.bin", "serde", true),
            file("tokio.json", "tokio", false),
            file("std.bin", "std", true),
            file(".hidden.json", ".hidden", false),
            file("a.b.bin", "a.b", true),
            file("x.parents.bin.json", "x.parents.bin", false),
        ]
    );
    assert_eq!(crate_files(&vec![]), vec![]);
}
