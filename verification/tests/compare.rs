use ruggle::compare::{
    compare_primitive, compare_symbol, DiscreteSimilarity, Similarities, Similarity, Substitution,
    SCORE_ONE, SCORE_QUARTER,
};
use ruggle::parse::{parse_query, parse_type};
use ruggle::query::{
    Argument, FnDecl, FnRetTy, Function, PrimitiveType, Qualifier, QualifierSet, Query, QueryKind,
    Type,
};
use std::cmp::Ordering;
use ruggle::types;
use std::collections::HashMap;

fn item(name: String, inner: types::ItemEnum) -> types::Item {
    types::Item {
        id: types::Id(0),
        crate_id: 0,
        name: Some(name),
        span: None,
        visibility: types::Visibility::Public,
        docs: None,
        links: HashMap::default(),
        attrs: vec![],
        deprecation: None,
        inner,
    }
}

fn function(inputs: Vec<(&str, types::Type)>, output: Option<types::Type>) -> types::Function {
    types::Function {
        generics: types::Generics { params: vec![], where_predicates: vec![] },
        header: types::FunctionHeader::default(),
        sig: types::FunctionSignature {
            inputs: inputs.into_iter().map(|(n, t)| (n.to_string(), t)).collect(),
            output,
            is_c_variadic: false,
        },
        has_body: false,
    }
}

/// A function which is written `fn foo() -> ()`.
fn foo() -> types::Function {
    function(vec![], None)
}

fn discrete(kind: DiscreteSimilarity, reason: &str) -> Similarity {
    Similarity::Discrete { kind, reason: reason.to_string() }
}

fn equivalent(reason: &str) -> Similarity {
    discrete(DiscreteSimilarity::Equivalent, reason)
}

fn subequal(reason: &str) -> Similarity {
    discrete(DiscreteSimilarity::Subequal, reason)
}

fn different(reason: &str) -> Similarity {
    discrete(DiscreteSimilarity::Different, reason)
}

fn name_atom(distance: usize, length: usize) -> Similarity {
    Similarity::Continuous { distance, length, reason: "symbol name distance".to_string() }
}

fn prim(name: &str) -> types::Type {
    types::Type::Primitive(name.to_string())
}

fn generic(name: &str) -> types::Type {
    types::Type::Generic(name.to_string())
}

fn reference(is_mutable: bool, t: types::Type) -> types::Type {
    types::Type::BorrowedRef { lifetime: None, is_mutable, type_: Box::new(t) }
}

fn pointer(is_mutable: bool, t: types::Type) -> types::Type {
    types::Type::RawPointer { is_mutable, type_: Box::new(t) }
}

fn resolved(path: &str, args: Option<Vec<types::GenericArg>>) -> types::Type {
    types::Type::ResolvedPath(types::Path {
        path: path.to_string(),
        id: types::Id(9),
        args: args.map(|args| {
            Box::new(types::GenericArgs::AngleBracketed { args, constraints: vec![] })
        }),
    })
}

fn query_type(text: &str) -> Type {
    let (rest, t) = parse_type(text).unwrap();
    assert_eq!(rest, "");
    t
}

fn atoms(q: &str, c: &types::Type) -> Vec<Similarity> {
    let q = query_type(q);
    let mut substs = Substitution::new();
    q.compare(c, None, &mut substs)
}

#[test]
fn search_compare_symbol() {
    let query = Query { name: Some("foo".to_owned()), kind: None };
    let item = item("foo".to_owned(), types::ItemEnum::Function(foo()));
    let mut substs = Substitution::new();
    let sims = query.compare(&item, None, &mut substs);
    assert_eq!(sims, vec![name_atom(0, 3)]);
    assert_eq!(sims[0].score(), 0);
    assert_eq!(Similarities(sims).score(), 0);
}

#[test]
fn search_compare_function() {
    let q = Function {
        decl: FnDecl { inputs: Some(vec![]), output: Some(FnRetTy::DefaultReturn) },
        qualifiers: QualifierSet::new(),
    };
    let i = foo();
    let mut substs = Substitution::new();
    let sims = q.compare(&i, None, &mut substs);
    assert_eq!(sims, vec![equivalent("no arguments"), equivalent("unit return")]);
    assert!(sims.iter().all(|s| s.score() == 0));
}

#[test]
fn empty_parameter_list_without_return_clause() {
    let (_, query) = parse_query("fn ()").unwrap();
    let item = item("foo".to_owned(), types::ItemEnum::Function(foo()));
    let mut substs = Substitution::new();
    let sims = query.compare(&item, None, &mut substs);
    assert_eq!(sims, vec![equivalent("no arguments"), equivalent("unit return")]);
    assert_eq!(Similarities(sims).score(), 0);
}

#[test]
fn scores_of_the_atoms() {
    assert_eq!(equivalent("").score(), 0);
    assert_eq!(subequal("").score(), SCORE_QUARTER);
    assert_eq!(different("").score(), SCORE_ONE);
    assert_eq!(name_atom(0, 0).score(), 0);
    assert_eq!(name_atom(1, 3).score(), 333_333);
    assert_eq!(name_atom(2, 3).score(), 666_666);
    assert_eq!(name_atom(3, 3).score(), SCORE_ONE);
    assert_eq!(name_atom(7, 3).score(), SCORE_ONE);
    assert_eq!(name_atom(1, usize::MAX).score(), 0);
    assert_eq!(name_atom(usize::MAX - 1, usize::MAX).score(), 999_999);
}

#[test]
fn score_is_the_mean() {
    let sims = Similarities(vec![subequal("a"), subequal("b"), different("c")]);
    assert_eq!(sims.score(), 500_000);
    let sims = Similarities(vec![equivalent("a"), equivalent("b"), different("c")]);
    assert_eq!(sims.score(), 333_333);
    let sims = Similarities(vec![different("a"); 1000]);
    assert_eq!(sims.score(), SCORE_ONE);
    let sims = Similarities(vec![name_atom(1, 3), subequal("")]);
    assert_eq!(sims.score(), (333_333 + 250_000) / 2);
}

#[test]
fn name_distance() {
    assert_eq!(compare_symbol("kitten", "sitting"), name_atom(3, 7));
    assert_eq!(compare_symbol("flaw", "lawn"), name_atom(2, 4));
    assert_eq!(compare_symbol("", "abc"), name_atom(3, 3));
    assert_eq!(compare_symbol("abc", ""), name_atom(3, 3));
    assert_eq!(compare_symbol("", ""), name_atom(0, 0));
    assert_eq!(compare_symbol("push", "push"), name_atom(0, 4));
}

#[test]
fn name_distance_takes_the_last_segment() {
    assert_eq!(compare_symbol("Vec", "alloc::vec::Vec"), name_atom(0, 3));
    assert_eq!(compare_symbol("vec", "alloc::vec::Vec"), name_atom(1, 3));
    assert_eq!(compare_symbol("b", "a:::b"), name_atom(1, 2));
    assert_eq!(compare_symbol("", "a::"), name_atom(0, 0));
    assert_eq!(compare_symbol("a", "a:b"), name_atom(2, 3));
    assert_eq!(compare_symbol("x", "::::x"), name_atom(0, 1));
}

#[test]
fn name_length_is_counted_in_bytes() {
    assert_eq!(compare_symbol("é", "e"), name_atom(1, 2));
    assert_eq!(compare_symbol("日本", "日本語"), name_atom(1, 9));
}

#[test]
fn primitive_identity() {
    let all = [
        PrimitiveType::Isize,
        PrimitiveType::I8,
        PrimitiveType::I16,
        PrimitiveType::I32,
        PrimitiveType::I64,
        PrimitiveType::I128,
        PrimitiveType::Usize,
        PrimitiveType::U8,
        PrimitiveType::U16,
        PrimitiveType::U32,
        PrimitiveType::U64,
        PrimitiveType::U128,
        PrimitiveType::F32,
        PrimitiveType::F64,
        PrimitiveType::Char,
        PrimitiveType::Bool,
        PrimitiveType::Str,
        PrimitiveType::Unit,
        PrimitiveType::Never,
    ];
    for p in all {
        for q in all {
            let expected = if p == q {
                equivalent("primitive matches")
            } else {
                different("primitive differs")
            };
            assert_eq!(compare_primitive(p, q.as_str()), expected);
            let mut substs = Substitution::new();
            let sims = Type::Primitive(p).compare(&prim(q.as_str()), None, &mut substs);
            assert_eq!(sims, vec![expected]);
        }
    }
    assert_eq!(PrimitiveType::Unit.as_str(), "unit");
    assert_eq!(PrimitiveType::Never.as_str(), "never");
    assert_eq!(PrimitiveType::I128.as_str(), "i128");
}

#[test]
fn different_primitives_in_a_signature() {
    let (_, query) = parse_query("fn (i32) -> bool").unwrap();
    let candidate = function(vec![("x", prim("u32"))], Some(prim("bool")));
    let item = item("f".to_owned(), types::ItemEnum::Function(candidate));
    let mut substs = Substitution::new();
    let sims = query.compare(&item, None, &mut substs);
    assert_eq!(sims, vec![different("primitive differs"), equivalent("primitive matches")]);
    assert_eq!(Similarities(sims).score(), 500_000);
}

#[test]
fn substitution_idempotence() {
    let t = generic("T");
    let a = query_type("Vec<i32>");
    let same = query_type("Vec<i32>");
    let other = query_type("Vec<u32>");
    let mut substs = Substitution::new();
    assert_eq!(a.compare(&t, None, &mut substs), vec![subequal("generic substituted")]);
    assert_eq!(
        same.compare(&t, None, &mut substs),
        vec![equivalent("generic matches substitution")]
    );
    assert_eq!(
        other.compare(&t, None, &mut substs),
        vec![different("generic differs from substitution")]
    );
    assert_eq!(
        same.compare(&t, None, &mut substs),
        vec![equivalent("generic matches substitution")]
    );
    let u = generic("U");
    assert_eq!(other.compare(&u, None, &mut substs), vec![subequal("generic substituted")]);
    assert!(substs.get("T").unwrap().same(&a));
    assert!(substs.get("U").unwrap().same(&other));
    assert!(substs.get("V").is_none());
}

#[test]
fn reference_transparency() {
    for q in ["i32", "T", "Vec<i32>", "(i32, u8)", "[u8]", "!"] {
        for inner in [prim("i32"), generic("X"), resolved("Vec", None), prim("u8")] {
            let plain = atoms(q, &inner);
            for is_mutable in [false, true] {
                for wrapped in [
                    reference(is_mutable, clone_type(&inner)),
                    pointer(is_mutable, clone_type(&inner)),
                ] {
                    let mut expected = plain.clone();
                    expected.push(subequal("pointer/reference wrapper"));
                    assert_eq!(atoms(q, &wrapped), expected, "{} against {:?}", q, wrapped);
                }
            }
        }
    }
}

fn clone_type(t: &types::Type) -> types::Type {
    match t {
        types::Type::Primitive(p) => prim(p),
        types::Type::Generic(g) => generic(g),
        types::Type::ResolvedPath(p) => resolved(&p.path, None),
        _ => unreachable!(),
    }
}

#[test]
fn wrappers_on_both_sides() {
    assert_eq!(
        atoms("&i32", &reference(false, prim("i32"))),
        vec![equivalent("primitive matches")]
    );
    assert_eq!(
        atoms("&mut i32", &reference(false, prim("i32"))),
        vec![equivalent("primitive matches"), subequal("mutability differs")]
    );
    assert_eq!(
        atoms("*const i32", &reference(false, prim("i32"))),
        vec![equivalent("primitive matches")]
    );
    assert_eq!(
        atoms("*mut i32", &reference(false, prim("i32"))),
        vec![equivalent("primitive matches"), subequal("mutability differs")]
    );
    assert_eq!(
        atoms("&i32", &prim("i32")),
        vec![equivalent("primitive matches"), subequal("pointer/reference wrapper")]
    );
    assert_eq!(
        atoms("&&i32", &reference(false, prim("i32"))),
        vec![equivalent("primitive matches"), subequal("pointer/reference wrapper")]
    );
}

#[test]
fn tuples() {
    let c = types::Type::Tuple(vec![prim("i32"), prim("u8"), prim("str")]);
    assert_eq!(
        atoms("(i32, _, bool)", &c),
        vec![
            equivalent("primitive matches"),
            different("primitive differs"),
            equivalent("tuple shape"),
        ]
    );
    assert_eq!(
        atoms("(i32)", &c),
        vec![
            equivalent("primitive matches"),
            equivalent("tuple shape"),
            different("tuple length differs"),
            different("tuple length differs"),
        ]
    );
    assert_eq!(
        atoms("(i32, u8, str, u8, u8)", &c),
        vec![
            equivalent("primitive matches"),
            equivalent("primitive matches"),
            equivalent("primitive matches"),
            equivalent("tuple shape"),
            different("tuple length differs"),
            different("tuple length differs"),
        ]
    );
    assert_eq!(atoms("()", &types::Type::Tuple(vec![])), vec![equivalent("tuple shape")]);
    assert_eq!(atoms("(i32)", &prim("i32")), vec![different("type mismatch")]);
}

#[test]
fn slices() {
    let c = types::Type::Slice(Box::new(generic("T")));
    assert_eq!(atoms("[_]", &c), vec![equivalent("slice type")]);
    assert_eq!(
        atoms("[u8]", &c),
        vec![equivalent("slice type"), subequal("generic substituted")]
    );
    assert_eq!(
        atoms("&[u8]", &reference(true, types::Type::Slice(Box::new(prim("u8"))))),
        vec![
            equivalent("slice type"),
            equivalent("primitive matches"),
            subequal("mutability differs"),
        ]
    );
    assert_eq!(
        atoms("[u8]", &types::Type::Array { type_: Box::new(prim("u8")), len: "4".into() }),
        vec![different("type mismatch")]
    );
}

#[test]
fn paths_and_their_arguments() {
    let vec_of_t = resolved("alloc::vec::Vec", Some(vec![types::GenericArg::Type(generic("T"))]));
    assert_eq!(atoms("Vec", &vec_of_t), vec![name_atom(0, 3)]);
    assert_eq!(
        atoms("Vec<i32>", &vec_of_t),
        vec![name_atom(0, 3), subequal("generic substituted")]
    );
    assert_eq!(atoms("Vec<_>", &vec_of_t), vec![name_atom(0, 3)]);
    assert_eq!(
        atoms("Vec<i32, u8>", &vec_of_t),
        vec![name_atom(0, 3), subequal("generic substituted")]
    );
    assert_eq!(
        atoms("Vec<i32, _, u8>", &resolved("Vec", None)),
        vec![
            name_atom(0, 3),
            different("missing generic args"),
            different("missing generic args"),
            different("missing generic args"),
        ]
    );
    let with_lifetime = resolved(
        "Cow",
        Some(vec![
            types::GenericArg::Lifetime("'a".into()),
            types::GenericArg::Type(prim("str")),
            types::GenericArg::Infer,
        ]),
    );
    assert_eq!(
        atoms("Cow<T, str, _>", &with_lifetime),
        vec![name_atom(0, 3), different("missing generic arg"), equivalent("primitive matches")]
    );
    let parenthesized = types::Type::ResolvedPath(types::Path {
        path: "Fn".into(),
        id: types::Id(1),
        args: Some(Box::new(types::GenericArgs::Parenthesized {
            inputs: vec![prim("u8")],
            output: None,
        })),
    });
    assert_eq!(atoms("Fn<u8>", &parenthesized), vec![name_atom(0, 2)]);
    assert_eq!(atoms("String", &resolved("Vec", None)), vec![name_atom(6, 6)]);
    assert_eq!(atoms("T", &resolved("T", None)), vec![different("type mismatch")]);
}

fn self_bound(to: types::Type) -> types::Impl {
    types::Impl {
        is_unsafe: false,
        generics: types::Generics { params: vec![], where_predicates: vec![] },
        provided_trait_methods: vec![],
        trait_: None,
        for_: to,
        items: vec![],
        is_negative: false,
        is_synthetic: false,
        blanket_impl: None,
    }
}

#[test]
fn the_generic_self() {
    let q = query_type("Vec<i32>");
    let this = generic("Self");
    let behind = reference(true, generic("Self"));
    let receiver = resolved("Vec", Some(vec![types::GenericArg::Type(generic("T"))]));
    let mut substs = Substitution::new();
    assert_eq!(
        q.compare(&this, None, &mut substs),
        vec![subequal("unbound Self in where-predicate")]
    );
    assert_eq!(
        q.compare(&this, Some(&receiver), &mut substs),
        vec![name_atom(0, 3), subequal("generic substituted")]
    );
    assert_eq!(
        q.compare(&behind, Some(&receiver), &mut substs),
        vec![
            name_atom(0, 3),
            equivalent("generic matches substitution"),
            subequal("pointer/reference wrapper"),
        ]
    );
    assert!(substs.get("Self").is_none());
}

#[test]
fn a_self_that_leads_back_to_itself() {
    let q = query_type("i32");
    let this = generic("Self");
    let bounds = [
        generic("Self"),
        reference(false, generic("Self")),
        pointer(true, reference(true, generic("Self"))),
    ];
    for bound in &bounds {
        let mut substs = Substitution::new();
        assert_eq!(
            q.compare(&this, Some(bound), &mut substs),
            vec![subequal("unbound Self in where-predicate")]
        );
    }
    let nested = resolved("Box", Some(vec![types::GenericArg::Type(generic("Self"))]));
    let q = query_type("Box<Box<i32>>");
    let mut substs = Substitution::new();
    assert_eq!(
        q.compare(&this, Some(&nested), &mut substs),
        vec![name_atom(0, 3), name_atom(0, 3), different("type mismatch")]
    );
}

#[test]
fn self_from_where_predicates() {
    let eq = |name: &str, to: types::Term| types::WherePredicate::EqPredicate {
        lhs: generic(name),
        rhs: to,
    };
    let constant = types::Term::Constant(types::Constant {
        expr: "1".into(),
        value: None,
        is_literal: true,
    });
    let mut candidate = function(vec![("self", generic("Self"))], None);
    candidate.generics.where_predicates = vec![
        types::WherePredicate::LifetimePredicate { lifetime: "'a".into(), outlives: vec![] },
        eq("T", types::Term::Type(prim("u8"))),
        eq("Self", constant),
        eq("Self", types::Term::Type(prim("i64"))),
        eq("Self", types::Term::Type(prim("i32"))),
    ];
    let q = Function {
        decl: FnDecl {
            inputs: Some(vec![Argument { ty: Some(query_type("i64")), name: None }]),
            output: None,
        },
        qualifiers: QualifierSet::new(),
    };
    let mut substs = Substitution::new();
    assert_eq!(q.compare(&candidate, None, &mut substs), vec![equivalent("primitive matches")]);
    let mut substs = Substitution::new();
    let mut inside = self_bound(prim("i32"));
    assert_eq!(
        q.compare(&candidate, Some(&inside), &mut substs),
        vec![different("primitive differs")]
    );
    inside.generics.where_predicates = vec![eq("Self", types::Term::Type(prim("i64")))];
    let mut substs = Substitution::new();
    assert_eq!(
        q.compare(&candidate, Some(&inside), &mut substs),
        vec![equivalent("primitive matches")]
    );
}

#[test]
fn qualifiers() {
    let mut candidate = foo();
    candidate.header.is_async = true;
    candidate.header.is_unsafe = true;
    let q = Function {
        decl: FnDecl { inputs: None, output: None },
        qualifiers: QualifierSet::from_list(&[Qualifier::Async, Qualifier::Const]),
    };
    let mut substs = Substitution::new();
    assert_eq!(
        q.compare(&candidate, None, &mut substs),
        vec![different("missing qualifier"), different("extra qualifier")]
    );
    assert_eq!(
        candidate.header.qualifiers(),
        QualifierSet { is_async: true, is_unsafe: true, is_const: false }
    );
    let q = Function {
        decl: FnDecl { inputs: None, output: None },
        qualifiers: QualifierSet::from_list(&[Qualifier::Async, Qualifier::Unsafe, Qualifier::Async]),
    };
    assert_eq!(q.compare(&candidate, None, &mut substs), vec![]);
}

#[test]
fn parameter_counts() {
    let candidate = function(vec![("a", prim("u8")), ("b", prim("u8")), ("c", prim("u8"))], None);
    let compare = |text: &str| {
        let (_, query) = parse_query(text).unwrap();
        let item = item("f".to_owned(), types::ItemEnum::Function(function(
            vec![("a", prim("u8")), ("b", prim("u8")), ("c", prim("u8"))],
            None,
        )));
        let mut substs = Substitution::new();
        query.compare(&item, None, &mut substs)
    };
    assert_eq!(candidate.sig.inputs.len(), 3);
    assert_eq!(
        compare("fn (u8) -> ()"),
        vec![
            equivalent("primitive matches"),
            different("argument count differs"),
            different("argument count differs"),
            equivalent("unit return"),
        ]
    );
    assert_eq!(
        compare("fn (a: _, x: u8, _, u8, u8) -> u8"),
        vec![
            name_atom(0, 1),
            name_atom(1, 1),
            equivalent("primitive matches"),
            different("argument count differs"),
            different("argument count differs"),
            different("return type differs"),
        ]
    );
    assert_eq!(compare("fn (..)"), vec![equivalent("unit return")]);
    assert_eq!(compare("fn (..) x"), vec![]);
}

#[test]
fn return_clauses() {
    let returning = |output: Option<types::Type>, query: FnRetTy| {
        let mut substs = Substitution::new();
        query.compare(&output, None, &mut substs)
    };
    assert_eq!(returning(None, FnRetTy::DefaultReturn), vec![equivalent("unit return")]);
    assert_eq!(
        returning(Some(types::Type::Tuple(vec![])), FnRetTy::DefaultReturn),
        vec![different("return type differs")]
    );
    assert_eq!(
        returning(None, FnRetTy::Return(query_type("()"))),
        vec![different("return type differs")]
    );
    assert_eq!(
        returning(Some(prim("bool")), FnRetTy::Return(query_type("bool"))),
        vec![equivalent("primitive matches")]
    );
}

#[test]
fn unit_return_in_both_spellings() {
    let item = item("f".to_owned(), types::ItemEnum::Function(function(vec![("x", prim("u8"))], None)));
    let (_, written) = parse_query("fn f(u8) -> ()").unwrap();
    let (_, left_out) = parse_query("fn f(u8)").unwrap();
    let mut substs = Substitution::new();
    let a = written.compare(&item, None, &mut substs);
    let mut substs = Substitution::new();
    let b = left_out.compare(&item, None, &mut substs);
    assert_eq!(a, b);
    assert_eq!(a.last(), Some(&equivalent("unit return")));
}

#[test]
fn items_that_are_no_functions() {
    let (_, query) = parse_query("fn new()").unwrap();
    let module = types::ItemEnum::Module(types::Module {
        is_crate: false,
        items: vec![],
        is_stripped: false,
    });
    let mut it = item("new".to_owned(), module);
    {
        let mut substs = Substitution::new();
        assert_eq!(
            query.compare(&it, None, &mut substs),
            vec![name_atom(0, 3), different("query expects function")]
        );
    }
    it.name = None;
    let mut substs = Substitution::new();
    assert_eq!(
        query.compare(&it, None, &mut substs),
        vec![different("missing item name"), different("query expects function")]
    );
    let nameless = Query { name: None, kind: None };
    assert_eq!(nameless.compare(&it, None, &mut substs), vec![]);
}

#[test]
fn query_helpers() {
    let (_, query) = parse_query("fn f(x: &&mut *const u8, _)").unwrap();
    let args = query.args().unwrap();
    assert_eq!(args.len(), 2);
    assert_eq!(
        args[0].ty.as_ref().unwrap().inner_type(),
        &Type::Primitive(PrimitiveType::U8)
    );
    assert_eq!(args[1], Argument { ty: None, name: None });
    assert_eq!(Type::Never.inner_type(), &Type::Never);
    let (_, any) = parse_query("fn f(..)").unwrap();
    assert_eq!(any.args(), None);
    assert_eq!(Query { name: None, kind: None }.args(), None);
    assert_eq!(query.clone(), query);
    assert!(query_type("(A, [_], Vec<_, &u8>)").same(&query_type("(A, [_], Vec<_, &u8>)")));
    assert!(!query_type("(A, [_], Vec<_, &u8>)").same(&query_type("(A, [_], Vec<_, &mut u8>)")));
    assert!(!query_type("(A)").same(&query_type("(A, _)")));
}

#[test]
fn qualifier_against_qualifier() {
    assert_eq!(Qualifier::Async.compare(&Qualifier::Async), vec![equivalent("qualifier matched")]);
    assert_eq!(Qualifier::Const.compare(&Qualifier::Const), vec![equivalent("qualifier matched")]);
    assert_eq!(
        Qualifier::Async.compare(&Qualifier::Unsafe),
        vec![different("qualifier different")]
    );
    assert_eq!(
        Qualifier::Unsafe.compare(&Qualifier::Const),
        vec![different("qualifier different")]
    );
}

#[test]
fn primitive_against_a_name() {
    assert_eq!(PrimitiveType::Usize.compare("usize"), vec![equivalent("primitive matches")]);
    assert_eq!(PrimitiveType::Usize.compare("isize"), vec![different("primitive differs")]);
    assert_eq!(PrimitiveType::Never.compare("never"), vec![equivalent("primitive matches")]);
    assert_eq!(PrimitiveType::Str.compare(""), vec![different("primitive differs")]);
}

#[test]
fn what_a_query_asks_for_against_what_an_item_is() {
    let (_, query) = parse_query("fn (u8) -> bool").unwrap();
    let kind: QueryKind = query.kind.unwrap();
    let found = types::ItemEnum::Function(function(vec![("n", prim("u8"))], Some(prim("bool"))));
    let mut substs = Substitution::new();
    assert_eq!(
        kind.compare(&found, None, &mut substs),
        vec![equivalent("primitive matches"), equivalent("primitive matches")]
    );
    let module = types::ItemEnum::Module(types::Module {
        is_crate: false,
        items: vec![],
        is_stripped: false,
    });
    let mut substs = Substitution::new();
    assert_eq!(kind.compare(&module, None, &mut substs), vec![different("query expects function")]);
}

#[test]
fn outcomes_in_the_order_of_their_scores() {
    let good = Similarities(vec![equivalent("a"), equivalent("b")]);
    let fair = Similarities(vec![equivalent("a"), different("b")]);
    let also_fair = Similarities(vec![different("a"), equivalent("b")]);
    let bad = Similarities(vec![different("a")]);
    let none = Similarities(vec![]);
    assert_eq!(good.partial_cmp(&fair), Some(Ordering::Less));
    assert_eq!(fair.partial_cmp(&good), Some(Ordering::Greater));
    assert_eq!(fair.partial_cmp(&also_fair), Some(Ordering::Equal));
    assert_eq!(bad.partial_cmp(&fair), Some(Ordering::Greater));
    assert!(good < bad);
    assert!(fair <= also_fair);
    assert!(bad > fair);
    assert_eq!(none.partial_cmp(&good), None);
    assert_eq!(good.partial_cmp(&none), None);
    assert_eq!(none.partial_cmp(&none), None);
    assert!(!(none < good) && !(none >= good));
}
