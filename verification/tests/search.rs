use ruggle::compare::{DiscreteSimilarity, Similarity};
use ruggle::index::{build_parent_index, reconstruct_path_for_local, Index, Parent};
use ruggle::inspect::{
    concrete_type, doc_of, edges_of, find_item, functions_of, keys_in_order, kind_name,
    link_of_type, nodes_of, outcome_name, pick_crate, similarity_of, types_of, Doc, Edge, Missing,
    Node, TypeEntry,
};
use ruggle::parse::parse_query;
use ruggle::scope::{perform_search, CrateSet, Scope, Scopes, DEFAULT_LIMIT, DEFAULT_THRESHOLD};
use ruggle::search::{
    crate_not_found, format_fn_signature, item_not_found, render_type, Hit, SearchError,
};
use ruggle::types::{
    Crate, CrateMetadata, Enum, Function, FunctionHeader, FunctionSignature, GenericArg,
    GenericArgs, Generics, Id, Impl, Item, ItemEnum, Module, Path, Primitive, Struct, StructKind,
    Target, Trait, Type, TypeAlias, Union, Visibility,
};
use std::collections::HashMap;

fn item(id: u32, name: Option<&str>, inner: ItemEnum) -> Item {
    Item {
        id: Id(id),
        crate_id: 0,
        name: name.map(|n| n.to_string()),
        span: None,
        visibility: Visibility::Public,
        docs: None,
        links: HashMap::default(),
        attrs: vec![],
        deprecation: None,
        inner,
    }
}

fn krate(name: &str, items: Vec<Item>) -> Crate {
    Crate {
        name: Some(name.to_string()),
        root: Id(0),
        crate_version: "0.1.0".to_string(),
        includes_private: false,
        index: items.into_iter().map(|i| (i.id.0, i)).collect(),
        paths: HashMap::default(),
        external_crates: HashMap::default(),
        target: Target::default(),
        format_version: 0,
    }
}

fn module(id: u32, name: &str, is_crate: bool, items: &[u32]) -> Item {
    item(
        id,
        Some(name),
        ItemEnum::Module(Module {
            is_crate,
            items: items.iter().map(|i| Id(*i)).collect(),
            is_stripped: false,
        }),
    )
}

fn no_generics() -> Generics {
    Generics { params: vec![], where_predicates: vec![] }
}

fn function(id: u32, name: &str, inputs: Vec<(&str, Type)>, output: Option<Type>) -> Item {
    item(
        id,
        Some(name),
        ItemEnum::Function(Function {
            sig: FunctionSignature {
                inputs: inputs.into_iter().map(|(n, t)| (n.to_string(), t)).collect(),
                output,
                is_c_variadic: false,
            },
            generics: no_generics(),
            header: FunctionHeader::default(),
            has_body: true,
        }),
    )
}

fn structure(id: u32, name: &str, impls: &[u32]) -> Item {
    item(
        id,
        Some(name),
        ItemEnum::Struct(Struct {
            kind: StructKind::Unit,
            generics: no_generics(),
            impls: impls.iter().map(|i| Id(*i)).collect(),
        }),
    )
}

fn implementation(id: u32, for_: Type, trait_: Option<&str>, items: &[u32]) -> Item {
    item(
        id,
        None,
        ItemEnum::Impl(Impl {
            is_unsafe: false,
            generics: no_generics(),
            provided_trait_methods: vec![],
            trait_: trait_.map(|t| Path { path: t.to_string(), id: Id(999), args: None }),
            for_,
            items: items.iter().map(|i| Id(*i)).collect(),
            is_negative: false,
            is_synthetic: false,
            blanket_impl: None,
        }),
    )
}

fn prim(name: &str) -> Type {
    Type::Primitive(name.to_string())
}

fn generic(name: &str) -> Type {
    Type::Generic(name.to_string())
}

fn shared(t: Type) -> Type {
    Type::BorrowedRef { lifetime: None, is_mutable: false, type_: Box::new(t) }
}

fn exclusive(t: Type) -> Type {
    Type::BorrowedRef { lifetime: None, is_mutable: true, type_: Box::new(t) }
}

fn resolved(path: &str, args: Vec<Type>) -> Type {
    Type::ResolvedPath(Path {
        path: path.to_string(),
        id: Id(77),
        args: if args.is_empty() {
            None
        } else {
            Some(Box::new(GenericArgs::AngleBracketed {
                args: args.into_iter().map(GenericArg::Type).collect(),
                constraints: vec![],
            }))
        },
    })
}

fn meta(name: &str, version: &str) -> CrateMetadata {
    CrateMetadata { name: name.to_string(), version: version.to_string() }
}

fn index_of(krates: Vec<(CrateMetadata, Crate)>) -> Index {
    let mut index = Index::new();
    for (key, krate) in krates {
        index.add(key, krate);
    }
    index
}

/// A crate of words: a root module, a module `text` in it, a few functions,
/// and a struct with an inherent and a trait impl.
fn words() -> Crate {
    krate(
        "test",
        vec![
            module(0, "test", true, &[1, 5, 20]),
            module(1, "text", false, &[2, 3, 4]),
            function(2, "split_words", vec![("input", shared(prim("str")))], Some(resolved("Vec", vec![resolved("String", vec![])]))),
            function(3, "join_words", vec![("words", shared(Type::Slice(Box::new(resolved("String", vec![]))))), ("sep", shared(prim("str")))], Some(resolved("String", vec![]))),
            function(4, "first", vec![("xs", shared(Type::Slice(Box::new(generic("T")))))], Some(resolved("Option", vec![generic("T")]))),
            structure(5, "Vec", &[6, 9]),
            implementation(6, resolved("Vec", vec![generic("T")]), None, &[7, 8]),
            function(7, "push", vec![("self", exclusive(generic("Self"))), ("value", generic("T"))], None),
            function(8, "len", vec![("self", shared(generic("Self")))], Some(prim("usize"))),
            implementation(9, resolved("Vec", vec![generic("T")]), Some("Clone"), &[10]),
            function(10, "clone", vec![("self", shared(generic("Self")))], Some(generic("Self"))),
            function(20, "is_empty", vec![("s", shared(prim("str")))], Some(prim("bool"))),
        ],
    )
}

fn search(index: &Index, text: &str, krates: &[CrateMetadata], threshold: u64) -> Vec<Hit> {
    let (rest, query) = parse_query(text).unwrap();
    assert_eq!(rest, "");
    index.search(&query, krates, threshold).unwrap()
}

fn names(hits: &[Hit]) -> Vec<&str> {
    hits.iter().map(|h| h.name.as_str()).collect()
}

fn assert_sorted(hits: &[Hit]) {
    for pair in hits.windows(2) {
        assert!(pair[0].score() <= pair[1].score());
    }
}

#[test]
fn finds_a_function_by_its_signature() {
    let key = meta("test", "0.1.0");
    let index = index_of(vec![(key.clone(), words())]);
    let hits = search(&index, "fn split_words(&str) -> Vec<String>", &[key], 400_000);
    assert_eq!(hits[0].name, "split_words");
    assert!(hits[0].score() < 400_000);
    assert_eq!(hits[0].score(), 0);
    assert_eq!(hits[0].id, Id(2));
    assert_eq!(hits[0].path, vec!["test", "text", "split_words"]);
    assert_eq!(hits[0].link, "https://docs.rs/test/latest/test/text/fn.split_words.html");
    assert_eq!(hits[0].signature, "fn split_words(input: &str) -> Vec<String>");
    assert_eq!(hits[0].docs, None);
    assert_sorted(&hits);
}

#[test]
fn finds_a_function_by_its_types_alone() {
    let key = meta("test", "0.1.0");
    let index = index_of(vec![(key.clone(), words())]);
    let hits = search(&index, "fn (&[T]) -> Option<T>", &[key], DEFAULT_THRESHOLD);
    assert!(names(&hits[..3.min(hits.len())]).contains(&"first"));
    let first = hits.iter().find(|h| h.name == "first").unwrap();
    assert!(first.score() < 300_000);
    assert_eq!(
        first.similarities().0,
        vec![
            Similarity::Discrete { kind: DiscreteSimilarity::Equivalent, reason: "slice type".into() },
            Similarity::Discrete { kind: DiscreteSimilarity::Subequal, reason: "generic substituted".into() },
            Similarity::Continuous { distance: 0, length: 6, reason: "symbol name distance".into() },
            Similarity::Discrete { kind: DiscreteSimilarity::Equivalent, reason: "generic matches substitution".into() },
        ]
    );
    assert_eq!(first.score(), 62_500);
    assert_sorted(&hits);
}

#[test]
fn finds_a_method_of_an_inherent_impl() {
    let key = meta("test", "0.1.0");
    let index = index_of(vec![(key.clone(), words())]);
    let hits = search(&index, "fn push(Vec<T>, T)", &[key], DEFAULT_THRESHOLD);
    let push = hits.iter().find(|h| h.name == "push").unwrap();
    assert_eq!(push.path, vec!["test", "Vec", "push"]);
    assert_eq!(push.link, "https://docs.rs/test/latest/test/struct.Vec.html#method.push.html");
    assert_eq!(push.signature, "fn push(self: &mut Self, value: T)");
    assert_eq!(
        push.similarities().0,
        vec![
            Similarity::Continuous { distance: 0, length: 4, reason: "symbol name distance".into() },
            Similarity::Continuous { distance: 0, length: 3, reason: "symbol name distance".into() },
            Similarity::Discrete { kind: DiscreteSimilarity::Subequal, reason: "generic substituted".into() },
            Similarity::Discrete { kind: DiscreteSimilarity::Subequal, reason: "pointer/reference wrapper".into() },
            Similarity::Discrete { kind: DiscreteSimilarity::Equivalent, reason: "generic matches substitution".into() },
            Similarity::Discrete { kind: DiscreteSimilarity::Equivalent, reason: "unit return".into() },
        ]
    );
    assert_eq!(push.score(), 500_000 / 6);
    assert_eq!(hits[0].name, "push");
}

#[test]
fn methods_are_found_by_themselves_and_through_inherent_impls() {
    let key = meta("test", "0.1.0");
    let index = index_of(vec![(key.clone(), words())]);
    let hits = search(&index, "fn clone", &[key], 1_000_001);
    let mut found = names(&hits);
    found.sort();
    assert_eq!(
        found,
        vec!["clone", "first", "is_empty", "join_words", "len", "len", "push", "push", "split_words"]
    );
    assert_eq!(hits[0].name, "clone");
    assert_sorted(&hits);
}

#[test]
fn the_threshold_is_a_strict_bound() {
    let key = meta("test", "0.1.0");
    let index = index_of(vec![(key.clone(), words())]);
    let all = search(&index, "fn len", &[key.clone()], 1_000_001);
    assert_eq!(all.len(), 9);
    assert_eq!(all[0].name, "len");
    assert_eq!(all[0].score(), 0);
    assert!(search(&index, "fn len", &[key.clone()], 0).is_empty());
    assert_eq!(names(&search(&index, "fn len", &[key.clone()], 1)), vec!["len", "len"]);
    let next = all[2].score();
    assert!(next > 0);
    assert_eq!(search(&index, "fn len", &[key.clone()], next).len(), 2);
    assert!(search(&index, "fn len", &[key], next + 1).len() >= 3);
}

#[test]
fn a_query_without_atoms_has_no_hits() {
    let key = meta("test", "0.1.0");
    let index = index_of(vec![(key.clone(), words())]);
    assert!(search(&index, "", &[key.clone()], 1_000_001).is_empty());
    let (_, query) = parse_query("len").unwrap();
    assert!(index.search(&query, &[key], 1_000_001).unwrap().is_empty());
}

#[test]
fn crates_are_searched_as_often_as_they_are_named() {
    let key = meta("test", "0.1.0");
    let other = meta("other", "latest");
    let small = krate("other", vec![module(0, "other", true, &[1]), function(1, "len", vec![], None)]);
    let index = index_of(vec![(key.clone(), words()), (other.clone(), small)]);
    let hits = search(&index, "fn len", &[other.clone(), key.clone(), other.clone()], 1);
    assert_eq!(names(&hits), vec!["len", "len", "len", "len"]);
    let mut links: Vec<&str> = hits.iter().map(|h| h.link.as_str()).collect();
    links.sort();
    assert_eq!(
        links,
        vec![
            "https://docs.rs/other/latest/other/fn.len.html",
            "https://docs.rs/other/latest/other/fn.len.html",
            "https://docs.rs/test/latest/test/struct.Vec.html#method.len.html",
            "https://docs.rs/test/latest/test/struct.Vec.html#method.len.html",
        ]
    );
    assert!(search(&index, "fn len", &[], 1_000_001).is_empty());
}

#[test]
fn a_crate_that_is_not_in_the_index() {
    let key = meta("test", "0.1.0");
    let index = index_of(vec![(key.clone(), words())]);
    let (_, query) = parse_query("fn len").unwrap();
    let missing = meta("test", "latest");
    assert_eq!(
        index.search(&query, &[key.clone(), missing.clone()], 400_000),
        Err(SearchError::CrateNotFound(missing.clone()))
    );
    assert_eq!(crate_not_found(&missing), SearchError::CrateNotFound(missing.clone()));
    assert_eq!(item_not_found(3, &missing), SearchError::ItemNotFound(3, missing));
}

#[test]
fn a_member_that_is_not_in_the_crate() {
    let key = meta("broken", "1");
    let broken = krate(
        "broken",
        vec![
            module(0, "broken", true, &[1]),
            structure(1, "S", &[2]),
            implementation(2, resolved("S", vec![]), None, &[3, 4]),
            function(3, "f", vec![], None),
        ],
    );
    let index = index_of(vec![(key.clone(), broken)]);
    let (_, query) = parse_query("fn f").unwrap();
    assert_eq!(
        index.search(&query, &[key.clone()], 400_000),
        Err(SearchError::ItemNotFound(4, key))
    );
}

#[test]
fn a_parent_that_is_not_in_the_crate() {
    let key = meta("broken", "1");
    let broken = krate("broken", vec![function(3, "f", vec![], None)]);
    let mut parents = HashMap::new();
    parents.insert(3, Parent::Module(Id(0)));
    let mut index = Index::new();
    index.insert(key.clone(), broken, parents);
    let (_, query) = parse_query("fn f").unwrap();
    assert_eq!(
        index.search(&query, &[key], 400_000),
        Err(SearchError::ItemNotFound(3, meta("broken", "0.1.0")))
    );
}

#[test]
fn parents_in_a_circle() {
    let key = meta("round", "1");
    let round = krate(
        "round",
        vec![module(1, "a", false, &[2]), module(2, "b", false, &[1, 3]), function(3, "f", vec![], None)],
    );
    let parents = build_parent_index(&round);
    assert_eq!(parents.get(&1), Some(&Parent::Module(Id(2))));
    assert!(reconstruct_path_for_local(&round, &Id(3), &parents).is_none());
    let index = index_of(vec![(key.clone(), round)]);
    let (_, query) = parse_query("fn f").unwrap();
    assert_eq!(
        index.search(&query, &[key], 400_000),
        Err(SearchError::ItemNotFound(3, meta("round", "0.1.0")))
    );
}

#[test]
fn the_parent_index() {
    let mut krate = words();
    krate.index.insert(
        30,
        item(30, Some("Named"), ItemEnum::Trait(Trait {
            is_auto: false,
            is_unsafe: false,
            is_dyn_compatible: true,
            items: vec![Id(31)],
            generics: no_generics(),
            bounds: vec![],
            implementations: vec![Id(9)],
        })),
    );
    krate.index.insert(
        40,
        item(40, Some("str"), ItemEnum::Primitive(Primitive { name: "str".into(), impls: vec![Id(41)] })),
    );
    let parents = build_parent_index(&krate);
    let mut expected = HashMap::new();
    expected.insert(1, Parent::Module(Id(0)));
    expected.insert(5, Parent::Module(Id(0)));
    expected.insert(20, Parent::Module(Id(0)));
    expected.insert(2, Parent::Module(Id(1)));
    expected.insert(3, Parent::Module(Id(1)));
    expected.insert(4, Parent::Module(Id(1)));
    expected.insert(6, Parent::Struct(Id(5)));
    expected.insert(9, Parent::Struct(Id(5)));
    expected.insert(7, Parent::Impl(Id(6)));
    expected.insert(8, Parent::Impl(Id(6)));
    expected.insert(10, Parent::Impl(Id(9)));
    expected.insert(31, Parent::Trait(Id(30)));
    expected.insert(41, Parent::Module(Id(40)));
    assert_eq!(parents, expected);
    for (child, _) in &parents {
        if *child != 31 && *child != 41 {
            assert!(krate.index.contains_key(child));
        }
    }
}

#[test]
fn the_path_of_an_item() {
    let krate = words();
    let parents = build_parent_index(&krate);
    let path = reconstruct_path_for_local(&krate, &Id(2), &parents).unwrap();
    assert_eq!(path.name, "test");
    assert_eq!(path.modules.iter().map(|m| m.id.0).collect::<Vec<_>>(), vec![0, 1]);
    assert!(path.owner.is_none());
    assert_eq!(path.item.id, Id(2));
    assert_eq!(path.pathify(), vec!["test", "text", "split_words"]);
    assert_eq!(path.display(), "test::text::split_words");
    assert_eq!(path.link(), "https://docs.rs/test/latest/test/text/fn.split_words.html");

    let path = reconstruct_path_for_local(&krate, &Id(10), &parents).unwrap();
    assert_eq!(path.owner.unwrap().id, Id(5));
    assert_eq!(path.pathify(), vec!["test", "Vec", "clone"]);
    assert_eq!(path.display(), "test::Vec::clone");

    let path = reconstruct_path_for_local(&krate, &Id(0), &parents).unwrap();
    assert!(path.modules.is_empty());
    assert_eq!(path.pathify(), vec!["test"]);
    assert_eq!(path.link(), "https://docs.rs/test/latest/fn.test.html");

    assert!(reconstruct_path_for_local(&krate, &Id(99), &parents).is_none());
}

#[test]
fn links_into_the_standard_library() {
    for name in ["std", "core", "alloc"] {
        let krate = krate(
            name,
            vec![
                module(0, name, true, &[1]),
                module(1, "vec", false, &[2]),
                structure(2, "Vec", &[3]),
                implementation(3, resolved("Vec", vec![]), None, &[4]),
                function(4, "push", vec![], None),
            ],
        );
        let parents = build_parent_index(&krate);
        let path = reconstruct_path_for_local(&krate, &Id(4), &parents).unwrap();
        assert_eq!(
            path.link(),
            format!("https://doc.rust-lang.org/{}/vec/struct.Vec.html#method.push.html", name)
        );
    }
    let krate = krate("stdx", vec![module(0, "stdx", true, &[1]), function(1, "f", vec![], None)]);
    let parents = build_parent_index(&krate);
    let path = reconstruct_path_for_local(&krate, &Id(1), &parents).unwrap();
    assert_eq!(path.link(), "https://docs.rs/stdx/latest/stdx/fn.f.html");
}

#[test]
fn owners_of_each_kind_and_modules_without_a_name() {
    let mut krate = krate(
        "k",
        vec![
            module(0, "k", true, &[1]),
            item(1, None, ItemEnum::Module(Module { is_crate: false, items: vec![Id(2), Id(5)], is_stripped: false })),
            item(2, Some("Shape"), ItemEnum::Trait(Trait {
                is_auto: false,
                is_unsafe: false,
                is_dyn_compatible: true,
                items: vec![Id(3)],
                generics: no_generics(),
                bounds: vec![],
                implementations: vec![],
            })),
            function(3, "area", vec![], None),
            implementation(5, prim("u8"), None, &[6]),
            function(6, "twice", vec![], None),
        ],
    );
    krate.name = None;
    let parents = build_parent_index(&krate);
    let path = reconstruct_path_for_local(&krate, &Id(3), &parents).unwrap();
    assert_eq!(path.name, "");
    assert_eq!(path.pathify(), vec!["k", "Shape", "area"]);
    assert_eq!(path.link(), "https://docs.rs//latest/k/trait.Shape.html#method.area.html");
    let path = reconstruct_path_for_local(&krate, &Id(6), &parents).unwrap();
    assert_eq!(path.pathify(), vec!["k", "twice"]);
    assert_eq!(path.display(), "k::twice");
    assert_eq!(path.link(), "https://docs.rs//latest/k/impl..html#method.twice.html");
}

#[test]
fn crates_and_parents_go_together() {
    let mut index = Index::new();
    assert_eq!(index.len(), 0);
    let a = meta("a", "1");
    let b = meta("b", "1");
    index.add(a.clone(), words());
    index.add(b.clone(), krate("b", vec![]));
    index.insert(a.clone(), krate("a", vec![function(1, "f", vec![], None)]), HashMap::new());
    assert_eq!(index.len(), 2);
    for key in [&a, &b] {
        assert!(index.crate_of(key).is_some());
        assert!(index.parents_of(key).is_some());
    }
    assert_eq!(index.crate_of(&a).unwrap().name.as_deref(), Some("a"));
    assert!(index.parents_of(&a).unwrap().is_empty());
    let missing = meta("a", "2");
    assert!(index.crate_of(&missing).is_none());
    assert!(index.parents_of(&missing).is_none());
    assert_eq!(index.metadata(0), &a);
    assert_eq!(index.metadata(1), &b);
}

#[test]
fn types_as_they_are_shown() {
    assert_eq!(render_type(&prim("i32")), "i32");
    assert_eq!(render_type(&generic("T")), "T");
    assert_eq!(render_type(&Type::Tuple(vec![])), "()");
    assert_eq!(render_type(&Type::Tuple(vec![prim("u8")])), "(u8)");
    assert_eq!(render_type(&Type::Tuple(vec![prim("u8"), generic("T")])), "(u8, T)");
    assert_eq!(render_type(&Type::Slice(Box::new(prim("u8")))), "[u8]");
    assert_eq!(render_type(&Type::Array { type_: Box::new(prim("u8")), len: "4".into() }), "[u8]");
    assert_eq!(render_type(&shared(prim("str"))), "&str");
    assert_eq!(render_type(&exclusive(prim("str"))), "&mut str");
    assert_eq!(render_type(&Type::RawPointer { is_mutable: true, type_: Box::new(prim("u8")) }), "*mut u8");
    assert_eq!(render_type(&Type::RawPointer { is_mutable: false, type_: Box::new(prim("u8")) }), "*const u8");
    assert_eq!(render_type(&resolved("Vec", vec![])), "Vec");
    assert_eq!(render_type(&resolved("Map", vec![prim("u8"), resolved("Vec", vec![generic("T")])])), "Map<u8, Vec<T>>");
    let mixed = Type::ResolvedPath(Path {
        path: "Cow".into(),
        id: Id(1),
        args: Some(Box::new(GenericArgs::AngleBracketed {
            args: vec![GenericArg::Lifetime("'a".into()), GenericArg::Type(prim("str")), GenericArg::Infer],
            constraints: vec![],
        })),
    });
    assert_eq!(render_type(&mixed), "Cow<str>");
    let only_lifetimes = Type::ResolvedPath(Path {
        path: "Iter".into(),
        id: Id(1),
        args: Some(Box::new(GenericArgs::AngleBracketed {
            args: vec![GenericArg::Lifetime("'a".into())],
            constraints: vec![],
        })),
    });
    assert_eq!(render_type(&only_lifetimes), "Iter");
    assert_eq!(
        render_type(&Type::QualifiedPath {
            name: "Item".into(),
            args: None,
            self_type: Box::new(generic("I")),
            trait_: None,
        }),
        "Item"
    );
    assert_eq!(render_type(&Type::Infer), "_");
    assert_eq!(render_type(&Type::ImplTrait(vec![])), "_");
}

#[test]
fn signatures_as_they_are_shown() {
    let sig = |inputs: Vec<(&str, Type)>, output: Option<Type>| FunctionSignature {
        inputs: inputs.into_iter().map(|(n, t)| (n.to_string(), t)).collect(),
        output,
        is_c_variadic: false,
    };
    assert_eq!(format_fn_signature("f", &sig(vec![], None)), "fn f()");
    assert_eq!(format_fn_signature("", &sig(vec![], Some(prim("u8")))), "fn () -> u8");
    assert_eq!(
        format_fn_signature("g", &sig(vec![("a", prim("u8")), ("", generic("T")), ("c", shared(prim("str")))], Some(Type::Tuple(vec![])))),
        "fn g(a: u8, T, c: &str) -> ()"
    );
}

#[test]
fn scopes() {
    assert!(matches!(Scope::parse("set:libstd"), Ok(Scope::CrateSet(s)) if s == "libstd"));
    assert!(matches!(Scope::parse("crate:std"), Ok(Scope::Crate(k)) if k == meta("std", "*")));
    assert!(matches!(Scope::parse("crate:serde:1.0.2"), Ok(Scope::Crate(k)) if k == meta("serde", "1.0.2")));
    assert!(matches!(Scope::parse("set:"), Ok(Scope::CrateSet(s)) if s.is_empty()));
    assert!(matches!(Scope::parse("crate::"), Ok(Scope::Crate(k)) if k == meta("", "")));
    for text in ["", "set", "crate", "set:a:b", "crate:a:b:c", "Set:a", " crate:a", "crates:a", ":"] {
        assert!(
            matches!(Scope::parse(text), Err(SearchError::ScopeParse(t)) if t == text),
            "{:?}",
            text
        );
    }
    assert_eq!(
        Scope::Crate(meta("serde", "1.0")).url(),
        "https://raw.githubusercontent.com/alpaylan/ruggle-index/main/crate/serde:1.0.bin"
    );
    assert_eq!(
        Scope::CrateSet("libstd".into()).url(),
        "https://raw.githubusercontent.com/alpaylan/ruggle-index/main/set/libstd.json"
    );
    assert_eq!(meta("a", "b").display(), "a:b");
    assert_eq!(CrateMetadata::new("serde".into()), meta("serde", "latest"));
}

fn known() -> Scopes {
    Scopes {
        sets: vec![
            CrateSet::new("libstd".into(), vec![meta("std", "latest"), meta("core", "latest")]),
            CrateSet::new("none".into(), vec![]),
            CrateSet::new("libstd".into(), vec![meta("alloc", "latest")]),
        ],
        krates: vec![meta("test", "0.1.0"), meta("std", "latest")],
    }
}

#[test]
fn what_a_scope_covers() {
    let scopes = known();
    assert_eq!(
        scopes.get(&Scope::CrateSet("libstd".into())),
        Ok(vec![meta("std", "latest"), meta("core", "latest")])
    );
    assert_eq!(scopes.get(&Scope::CrateSet("none".into())), Ok(vec![]));
    assert_eq!(
        scopes.get(&Scope::CrateSet("libcore".into())),
        Err(SearchError::UnknownSet("libcore".into()))
    );
    assert_eq!(scopes.get(&Scope::Crate(meta("std", "latest"))), Ok(vec![meta("std", "latest")]));
    assert_eq!(
        Scope::Crate(meta("std", "*")).expand(&scopes),
        Err(SearchError::UnknownCrate(meta("std", "*")))
    );
}

#[test]
fn a_search_from_texts() {
    let index = index_of(vec![(meta("test", "0.1.0"), words())]);
    let scopes = known();
    let hits = perform_search(&index, &scopes, "fn len", "crate:test:0.1.0", None, None).unwrap();
    assert_eq!(names(&hits), vec!["len", "len"]);
    let hits = perform_search(&index, &scopes, "fn len", "crate:test:0.1.0", Some(4), Some(1_000_001)).unwrap();
    assert_eq!(hits.len(), 4);
    assert_eq!(hits[0].name, "len");
    assert_sorted(&hits);
    let hits = perform_search(&index, &scopes, "fn len", "crate:test:0.1.0", Some(0), Some(1_000_001)).unwrap();
    assert!(hits.is_empty());
    assert_eq!(
        perform_search(&index, &scopes, "fn len", "test", None, None),
        Err(SearchError::ScopeParse("test".into()))
    );
    assert_eq!(
        perform_search(&index, &scopes, "fn len", "set:nothing", None, None),
        Err(SearchError::UnknownSet("nothing".into()))
    );
    assert_eq!(
        perform_search(&index, &scopes, "fn len", "set:libstd", None, None),
        Err(SearchError::CrateNotFound(meta("std", "latest")))
    );
    assert_eq!(perform_search(&index, &scopes, "fn len", "set:none", None, None), Ok(vec![]));
    assert_eq!(DEFAULT_LIMIT, 30);
    assert_eq!(DEFAULT_THRESHOLD, 400_000);
}

#[test]
fn many_hits_come_in_the_order_of_their_scores() {
    let mut items = vec![module(0, "big", true, &(1..200).collect::<Vec<u32>>())];
    for i in 1..200u32 {
        let name = "x".repeat((i % 17) as usize + 1);
        items.push(function(i, &name, vec![], None));
    }
    let key = meta("big", "1");
    let index = index_of(vec![(key.clone(), krate("big", items))]);
    let hits = search(&index, "fn xxxxxxxx", &[key], 1_000_001);
    assert_eq!(hits.len(), 199);
    assert_sorted(&hits);
    assert_eq!(hits[0].name, "xxxxxxxx");
    let mut ids: Vec<u32> = hits.iter().map(|h| h.id.0).collect();
    ids.sort();
    assert_eq!(ids, (1..200).collect::<Vec<u32>>());
}

#[test]
fn hits_of_a_crate_named_twice_stay_in_order() {
    let count: u32 = 60;
    let mut items = vec![module(0, "many", true, &(1..=count).collect::<Vec<u32>>())];
    for n in 1..=count {
        // Names of falling likeness to the word that is asked for, in no order.
        let name = format!("w{}", "x".repeat(((n * 37) % 23) as usize));
        items.push(function(n, &name, vec![("a", prim("u8"))], Some(prim("u8"))));
    }
    let key = meta("many", "1.0.0");
    let index = index_of(vec![(key.clone(), krate("many", items))]);
    let hits = search(&index, "fn w(u8) -> u8", &[key.clone()], 1_000_000);
    assert_eq!(hits.len(), count as usize);
    assert_sorted(&hits);
    assert_eq!(hits[0].name, "w");
    assert_eq!(hits[0].score(), 0);
    let mut found: Vec<String> = hits.iter().map(|h| h.name.clone()).collect();
    found.sort();
    let mut asked: Vec<String> =
        (1..=count).map(|n| format!("w{}", "x".repeat(((n * 37) % 23) as usize))).collect();
    asked.sort();
    assert_eq!(found, asked);
    let again = search(&index, "fn w(u8) -> u8", &[key.clone(), key], 1_000_000);
    assert_eq!(again.len(), 2 * count as usize);
    assert_sorted(&again);
}

#[test]
fn hits_in_the_order_of_their_scores() {
    let key = meta("test", "0.1.0");
    let index = index_of(vec![(key.clone(), words())]);
    let hits = search(&index, "fn is_empty(&str) -> bool", &[key], 1_000_000);
    assert!(hits.len() > 2);
    for pair in hits.windows(2) {
        assert!(pair[0] <= pair[1]);
        assert!(!(pair[0] > pair[1]));
        assert_eq!(
            pair[0].partial_cmp(&pair[1]),
            pair[0].score().partial_cmp(&pair[1].score())
        );
    }
    assert!(hits[0] < hits[hits.len() - 1]);
    assert_eq!(hits[0].partial_cmp(&hits[0]), Some(std::cmp::Ordering::Equal));
}

/// A crate of types: an enum in a module, a union, an alias and a
/// built-in at the root, and a function beside them.
fn shapes(name: &str) -> Crate {
    krate(
        name,
        vec![
            module(0, name, true, &[1, 3, 4, 5, 6]),
            module(1, "plane", false, &[2]),
            item(
                2,
                Some("Shape"),
                ItemEnum::Enum(Enum {
                    generics: no_generics(),
                    has_stripped_variants: false,
                    variants: vec![],
                    impls: vec![],
                }),
            ),
            item(
                3,
                Some("Bits"),
                ItemEnum::Union(Union {
                    generics: no_generics(),
                    has_stripped_fields: false,
                    fields: vec![],
                    impls: vec![],
                }),
            ),
            item(
                4,
                Some("Side"),
                ItemEnum::TypeAlias(TypeAlias { type_: prim("u8"), generics: no_generics() }),
            ),
            item(5, Some("u8"), ItemEnum::Primitive(Primitive { name: "u8".into(), impls: vec![] })),
            function(6, "area", vec![("s", resolved("Shape", vec![]))], Some(prim("u8"))),
        ],
    )
}

#[test]
fn the_keys_of_a_map_each_once() {
    let krate = words();
    let mut keys = keys_in_order(&krate.index);
    assert_eq!(keys.len(), krate.index.len());
    keys.sort();
    assert_eq!(keys, vec![0, 1, 2, 3, 4, 5, 6, 7, 8, 9, 10, 20]);
    assert_eq!(keys_in_order(&HashMap::<u32, Item>::new()), Vec::<u32>::new());
}

#[test]
fn words_for_what_an_item_is() {
    let krate = shapes("shapes");
    assert_eq!(kind_name(&krate.index[&0].inner), "module");
    assert_eq!(kind_name(&krate.index[&2].inner), "enum");
    assert_eq!(kind_name(&krate.index[&3].inner), "union");
    assert_eq!(kind_name(&krate.index[&4].inner), "type_alias");
    assert_eq!(kind_name(&krate.index[&5].inner), "primitive");
    assert_eq!(kind_name(&krate.index[&6].inner), "function");
    let words = words();
    assert_eq!(kind_name(&words.index[&5].inner), "struct");
    assert_eq!(kind_name(&words.index[&6].inner), "impl");
    assert_eq!(kind_name(&ItemEnum::ExternType), "extern_type");
    assert_eq!(kind_name(&ItemEnum::Macro("m".into())), "macro");
    assert_eq!(kind_name(&ItemEnum::StructField(prim("u8"))), "struct_field");
    assert_eq!(
        kind_name(&ItemEnum::ExternCrate { name: "x".into(), rename: None }),
        "extern_crate"
    );
    assert_eq!(
        kind_name(&ItemEnum::AssocConst { type_: prim("u8"), value: None }),
        "assoc_const"
    );
    assert!(concrete_type(&krate.index[&2].inner));
    assert!(concrete_type(&krate.index[&3].inner));
    assert!(concrete_type(&krate.index[&4].inner));
    assert!(concrete_type(&krate.index[&5].inner));
    assert!(concrete_type(&words.index[&5].inner));
    assert!(!concrete_type(&krate.index[&0].inner));
    assert!(!concrete_type(&krate.index[&6].inner));
    assert!(!concrete_type(&words.index[&6].inner));
    assert_eq!(outcome_name(DiscreteSimilarity::Equivalent), "equivalent");
    assert_eq!(outcome_name(DiscreteSimilarity::Subequal), "subequal");
    assert_eq!(outcome_name(DiscreteSimilarity::Different), "different");
}

#[test]
fn the_functions_of_a_scope() {
    let one = meta("test", "0.1.0");
    let two = meta("shapes", "1.0.0");
    let index = index_of(vec![(one.clone(), words()), (two.clone(), shapes("shapes"))]);
    let found = functions_of(&index, &[one.clone(), two.clone()]).unwrap();
    let names: Vec<&str> = found.iter().map(|i| i.name.as_deref().unwrap()).collect();
    assert_eq!(names.len(), 8);
    assert_eq!(names[7], "area");
    let mut first: Vec<&str> = names[..7].to_vec();
    first.sort();
    assert_eq!(first, vec!["clone", "first", "is_empty", "join_words", "len", "push", "split_words"]);
    assert!(found.iter().all(|i| matches!(i.inner, ItemEnum::Function(_))));

    let twice = functions_of(&index, &[two.clone(), two.clone()]).unwrap();
    assert_eq!(twice.len(), 2);
    assert_eq!(functions_of(&index, &[]).unwrap().len(), 0);

    let missing = meta("none", "1.0.0");
    let other = meta("also-none", "1.0.0");
    assert_eq!(
        functions_of(&index, &[one, missing.clone(), other]).err(),
        Some(SearchError::CrateNotFound(missing))
    );
}

#[test]
fn the_types_of_a_scope() {
    let one = meta("test", "0.1.0");
    let two = meta("shapes", "1.0.0");
    let index = index_of(vec![(one.clone(), words()), (two.clone(), shapes("shapes"))]);
    let of_words = types_of(&index, &[one.clone()]).unwrap();
    assert_eq!(
        of_words,
        vec![TypeEntry {
            name: "Vec".to_string(),
            kind: "struct",
            path: vec!["test".to_string(), "Vec".to_string()],
            link: "https://docs.rs/test/latest/test/struct.Vec.html".to_string(),
        }]
    );
    let mut of_shapes = types_of(&index, &[two.clone()]).unwrap();
    of_shapes.sort_by(|a, b| a.name.cmp(&b.name));
    assert_eq!(
        of_shapes,
        vec![
            TypeEntry {
                name: "Bits".to_string(),
                kind: "union",
                path: vec!["shapes".to_string(), "Bits".to_string()],
                link: "https://docs.rs/shapes/latest/shapes/union.Bits.html".to_string(),
            },
            TypeEntry {
                name: "Shape".to_string(),
                kind: "enum",
                path: vec!["shapes".to_string(), "plane".to_string(), "Shape".to_string()],
                link: "https://docs.rs/shapes/latest/shapes/plane/enum.Shape.html".to_string(),
            },
            TypeEntry {
                name: "Side".to_string(),
                kind: "type_alias",
                path: vec!["shapes".to_string(), "Side".to_string()],
                link: "https://docs.rs/shapes/latest/shapes/type.Side.html".to_string(),
            },
            TypeEntry {
                name: "u8".to_string(),
                kind: "primitive",
                path: vec!["shapes".to_string(), "u8".to_string()],
                link: "https://docs.rs/shapes/latest/shapes/primitive.u8.html".to_string(),
            },
        ]
    );
    let both = types_of(&index, &[two.clone(), one.clone()]).unwrap();
    assert_eq!(both.len(), 5);
    assert_eq!(both[4].name, "Vec");
    let missing = meta("none", "1.0.0");
    assert_eq!(
        types_of(&index, &[missing.clone(), one]).err(),
        Some(SearchError::CrateNotFound(missing))
    );
}

#[test]
fn types_of_the_standard_library() {
    let key = meta("core", "1.0.0");
    let index = index_of(vec![(key.clone(), shapes("core"))]);
    let mut found = types_of(&index, &[key]).unwrap();
    found.sort_by(|a, b| a.name.cmp(&b.name));
    assert_eq!(found[1].link, "https://doc.rust-lang.org/core/plane/enum.Shape.html");
    assert_eq!(found[3].link, "https://doc.rust-lang.org/core/primitive.u8.html");

    let krate = shapes("alloc");
    let parents = build_parent_index(&krate);
    let path = reconstruct_path_for_local(&krate, &Id(6), &parents).unwrap();
    assert_eq!(link_of_type(&path), "https://doc.rust-lang.org/alloc/area.html");
    let alone = reconstruct_path_for_local(&krate, &Id(0), &parents).unwrap();
    assert_eq!(link_of_type(&alone), "https://doc.rust-lang.org/alloc.html");
}

#[test]
fn an_item_is_found_in_the_first_crate_that_holds_it() {
    let one = meta("test", "0.1.0");
    let two = meta("shapes", "1.0.0");
    let missing = meta("none", "1.0.0");
    let index = index_of(vec![(one.clone(), words()), (two.clone(), shapes("shapes"))]);
    let scope = [missing.clone(), two.clone(), one.clone()];
    let (place, found) = find_item(&index, &scope, 2).unwrap();
    assert_eq!((place, found.name.as_deref()), (1, Some("Shape")));
    let (place, found) = find_item(&index, &scope, 20).unwrap();
    assert_eq!((place, found.name.as_deref()), (2, Some("is_empty")));
    let (place, found) = find_item(&index, &[one.clone(), two.clone()], 2).unwrap();
    assert_eq!((place, found.name.as_deref()), (0, Some("split_words")));
    assert!(find_item(&index, &scope, 1000).is_none());
    assert!(find_item(&index, &[missing], 2).is_none());
    assert!(find_item(&index, &[], 2).is_none());
}

#[test]
fn where_an_item_stands() {
    let one = meta("test", "0.1.0");
    let two = meta("shapes", "1.0.0");
    let mut index = index_of(vec![(one.clone(), words()), (two.clone(), shapes("shapes"))]);
    assert_eq!(
        doc_of(&index, &[one.clone()], 2),
        Ok(Doc {
            link: "https://docs.rs/test/latest/test/text/fn.split_words.html".to_string(),
            path: vec!["test".to_string(), "text".to_string(), "split_words".to_string()],
        })
    );
    let pushed = doc_of(&index, &[two.clone(), one.clone()], 7).unwrap();
    assert_eq!(pushed.path.last().map(|s| s.as_str()), Some("push"));
    assert!(pushed.link.ends_with("#method.push.html"));
    assert_eq!(doc_of(&index, &[two.clone()], 7), Err(Missing::Item));
    assert_eq!(doc_of(&index, &[], 2), Err(Missing::Item));

    let mut astray = HashMap::new();
    astray.insert(6, Parent::Module(Id(99)));
    let lost = meta("lost", "1.0.0");
    index.insert(lost.clone(), shapes("lost"), astray);
    assert_eq!(doc_of(&index, &[lost.clone()], 6), Err(Missing::Path));
    assert_eq!(
        doc_of(&index, &[lost.clone()], 2),
        Ok(Doc {
            link: "https://docs.rs/lost/latest/fn.Shape.html".to_string(),
            path: vec!["Shape".to_string()],
        })
    );
    assert_eq!(types_of(&index, &[lost]).unwrap().len(), 4);
}

#[test]
fn how_a_query_fares_against_one_item() {
    let one = meta("test", "0.1.0");
    let two = meta("shapes", "1.0.0");
    let index = index_of(vec![(one.clone(), words()), (two.clone(), shapes("shapes"))]);
    let (_, query) = parse_query("fn is_empty(&str) -> bool").unwrap();
    let sims = similarity_of(&index, &[two.clone(), one.clone()], &query, 20).unwrap();
    assert!(sims.0.len() >= 3);
    assert_eq!(sims.score(), 0);
    let krate = words();
    assert_eq!(sims, index.compare(&query, &krate.index[&20], &krate, None));
    let sims = similarity_of(&index, &[one.clone()], &query, 5).unwrap();
    assert_eq!(
        sims.0.last(),
        Some(&Similarity::Discrete {
            kind: DiscreteSimilarity::Different,
            reason: "query expects function".to_string()
        })
    );
    assert!(similarity_of(&index, &[two], &query, 20).is_none());
}

#[test]
fn a_crate_is_picked_by_name_and_version() {
    let index = index_of(vec![
        (meta("a", "1"), shapes("a")),
        (meta("b", "1"), shapes("b")),
        (meta("a", "2"), shapes("a")),
        (meta("c:d", "1"), shapes("c")),
    ]);
    assert_eq!(pick_crate(&index, "a"), Some(0));
    assert_eq!(pick_crate(&index, "b"), Some(1));
    assert_eq!(pick_crate(&index, "a:1"), Some(0));
    assert_eq!(pick_crate(&index, "a:2"), Some(2));
    assert_eq!(pick_crate(&index, "b:1"), Some(1));
    assert_eq!(pick_crate(&index, "b:2"), None);
    assert_eq!(pick_crate(&index, "a:"), None);
    assert_eq!(pick_crate(&index, ":1"), None);
    assert_eq!(pick_crate(&index, "a:2:3"), None);
    assert_eq!(pick_crate(&index, "c:d"), None);
    assert_eq!(pick_crate(&index, "c:d:1"), None);
    assert_eq!(pick_crate(&index, "c"), None);
    assert_eq!(pick_crate(&index, ""), None);
    assert_eq!(pick_crate(&Index::new(), "a"), None);
}

#[test]
fn a_picture_of_a_crate() {
    let krate = words();
    let parents = build_parent_index(&krate);
    let mut nodes = nodes_of(&krate);
    nodes.sort_by_key(|n| n.id);
    assert_eq!(nodes.len(), 12);
    assert_eq!(nodes[0], Node { id: 0, name: Some("test".to_string()), kind: "module" });
    assert_eq!(nodes[2], Node { id: 2, name: Some("split_words".to_string()), kind: "function" });
    assert_eq!(nodes[5], Node { id: 5, name: Some("Vec".to_string()), kind: "struct" });
    assert_eq!(nodes[6], Node { id: 6, name: None, kind: "impl" });
    let mut edges = edges_of(&parents);
    edges.sort_by_key(|e| e.to);
    assert_eq!(
        edges,
        vec![
            Edge { from: 0, to: 1, relation: "module" },
            Edge { from: 1, to: 2, relation: "module" },
            Edge { from: 1, to: 3, relation: "module" },
            Edge { from: 1, to: 4, relation: "module" },
            Edge { from: 0, to: 5, relation: "module" },
            Edge { from: 5, to: 6, relation: "struct" },
            Edge { from: 6, to: 7, relation: "impl" },
            Edge { from: 6, to: 8, relation: "impl" },
            Edge { from: 5, to: 9, relation: "struct" },
            Edge { from: 9, to: 10, relation: "impl" },
            Edge { from: 0, to: 20, relation: "module" },
        ]
    );
    let mut one = HashMap::new();
    one.insert(4, Parent::Trait(Id(3)));
    assert_eq!(edges_of(&one), vec![Edge { from: 3, to: 4, relation: "trait" }]);
    assert_eq!(edges_of(&HashMap::new()), vec![]);
}
