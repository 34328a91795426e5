//! The search over an index: every function and every method of an
//! inherent impl is compared with the query, and those that score below
//! the threshold are the hits, the best first.

use crate::compare::{
    atoms_of, mean_score, query_atoms, Atom, Similarities, Similarity, Substitution, SCORE_ONE,
};
use crate::index::{
    crate_name, name_or_empty, reconstruct_path_for_local, route_of, CrateKey, Index, Parent,
    Path, Route,
};
use crate::query::{Query, QueryView};
use crate::text::{join, join_texts, same_text, texts};
use crate::types;
use crate::types::{Crate, CrateMetadata, Id, Item, ItemEnum};
use std::collections::HashMap;
use vstd::prelude::*;

verus! {

broadcast use vstd::std_specs::hash::group_hash_axioms;

/// A candidate type as it is shown in a signature.
///
/// A built-in and a generic show their name, a tuple its elements in round
/// brackets, a slice and an array their element in square brackets, a
/// pointer `*mut` or `*const` and a reference `&` or `&mut` before the
/// pointee, a path its name and, in angle brackets, those of its generic
/// arguments that are types. Every other type shows as `_`.
pub open spec fn render_type_text(t: types::Type) -> Seq<char>
    decreases t, 0nat,
{
    match t {
        types::Type::Primitive(p) => p@,
        types::Type::Generic(g) => g@,
        types::Type::Tuple(ts) => "("@ + join(type_texts(ts@), ", "@) + ")"@,
        types::Type::Slice(inner) => "["@ + render_type_text(*inner) + "]"@,
        types::Type::Array { type_, .. } => "["@ + render_type_text(*type_) + "]"@,
        types::Type::RawPointer { is_mutable, type_ } => "*"@ + (if is_mutable {
            "mut"@
        } else {
            "const"@
        }) + " "@ + render_type_text(*type_),
        types::Type::BorrowedRef { is_mutable, type_, .. } => "&"@ + (if is_mutable {
            "mut "@
        } else {
            ""@
        }) + render_type_text(*type_),
        types::Type::ResolvedPath(path) => path.path@ + (match path.args {
            Some(boxed) => match *boxed {
                types::GenericArgs::AngleBracketed { args, .. } => {
                    let inner = join(type_arg_texts(args@, 0), ", "@);
                    if inner.len() > 0 {
                        "<"@ + inner + ">"@
                    } else {
                        Seq::empty()
                    }
                },
                _ => Seq::empty(),
            },
            None => Seq::empty(),
        }),
        types::Type::QualifiedPath { name, .. } => name@,
        _ => "_"@,
    }
}

/// The types of a list as they are shown.
pub open spec fn type_texts(ts: Seq<types::Type>) -> Seq<Seq<char>>
    decreases ts, 0nat,
{
    Seq::new(
        ts.len(),
        |i: int|
            if 0 <= i < ts.len() {
                render_type_text(ts[i])
            } else {
                Seq::empty()
            },
    )
}

/// The generic arguments from position `i` on that are types, as they are
/// shown.
pub open spec fn type_arg_texts(args: Seq<types::GenericArg>, i: int) -> Seq<Seq<char>>
    decreases args, args.len() - i,
{
    if 0 <= i < args.len() {
        (match args[i] {
            types::GenericArg::Type(t) => seq![render_type_text(t)],
            _ => Seq::empty(),
        }) + type_arg_texts(args, i + 1)
    } else {
        Seq::empty()
    }
}

/// Shows a candidate type.
pub fn render_type(t: &types::Type) -> (r: String)
    ensures
        r@ == render_type_text(*t),
    decreases t,
{
    match t {
        types::Type::Primitive(p) => p.clone(),
        types::Type::Generic(g) => g.clone(),
        types::Type::Tuple(ts) => {
            let mut parts: Vec<String> = Vec::new();
            let mut i: usize = 0;
            while i < ts.len()
                invariant
                    i <= ts.len(),
                    decreases_to!(t => ts),
                    parts.len() == i,
                    forall|j: int|
                        0 <= j < i ==> (#[trigger] parts@[j])@ == render_type_text(ts@[j]),
                decreases ts.len() - i,
            {
                parts.push(render_type(&ts[i]));
                i = i + 1;
            }
            assert(texts(parts@) =~= type_texts(ts@));
            let mut out = "(".to_string();
            out.push_str(join_texts(&parts, ", ").as_str());
            out.push_str(")");
            out
        },
        types::Type::Slice(inner) => {
            let mut out = "[".to_string();
            out.push_str(render_type(inner).as_str());
            out.push_str("]");
            out
        },
        types::Type::Array { type_, .. } => {
            let mut out = "[".to_string();
            out.push_str(render_type(type_).as_str());
            out.push_str("]");
            out
        },
        types::Type::RawPointer { is_mutable, type_ } => {
            let mut out = "*".to_string();
            out.push_str(
                if *is_mutable {
                    "mut"
                } else {
                    "const"
                },
            );
            out.push_str(" ");
            out.push_str(render_type(type_).as_str());
            out
        },
        types::Type::BorrowedRef { is_mutable, type_, .. } => {
            let mut out = "&".to_string();
            out.push_str(
                if *is_mutable {
                    "mut "
                } else {
                    ""
                },
            );
            out.push_str(render_type(type_).as_str());
            out
        },
        types::Type::ResolvedPath(path) => {
            let mut out = path.path.clone();
            if let Some(boxed) = &path.args {
                if let types::GenericArgs::AngleBracketed { args, .. } = &**boxed {
                    let mut parts: Vec<String> = Vec::new();
                    let mut i: usize = 0;
                    while i < args.len()
                        invariant
                            i <= args.len(),
                            decreases_to!(t => args),
                            texts(parts@) + type_arg_texts(args@, i as int) == type_arg_texts(
                                args@,
                                0,
                            ),
                        decreases args.len() - i,
                    {
                        if let types::GenericArg::Type(inner) = &args[i] {
                            parts.push(render_type(inner));
                        }
                        i = i + 1;
                    }
                    let inner = join_texts(&parts, ", ");
                    if !inner.as_str().is_empty() {
                        out.push_str("<");
                        out.push_str(inner.as_str());
                        out.push_str(">");
                    }
                }
            }
            out
        },
        types::Type::QualifiedPath { name, .. } => name.clone(),
        _ => "_".to_string(),
    }
}

/// The parameters of a signature as they are shown: the type alone where
/// the name is empty, else the name, a colon and the type.
pub open spec fn input_texts(inputs: Seq<(String, types::Type)>) -> Seq<Seq<char>> {
    Seq::new(
        inputs.len(),
        |i: int|
            if inputs[i].0@.len() == 0 {
                render_type_text(inputs[i].1)
            } else {
                inputs[i].0@ + ": "@ + render_type_text(inputs[i].1)
            },
    )
}

/// A signature as it is shown: `fn NAME(name: TYPE, ..) -> TYPE`, without
/// the arrow where the function states no return type.
pub open spec fn signature_text(name: Seq<char>, decl: &types::FunctionSignature) -> Seq<char> {
    "fn "@ + name + "("@ + join(input_texts(decl.inputs@), ", "@) + ")"@ + (match decl.output {
        Some(t) => " -> "@ + render_type_text(t),
        None => Seq::empty(),
    })
}

/// Shows the signature of a function.
pub fn format_fn_signature(name: &str, decl: &types::FunctionSignature) -> (r: String)
    ensures
        r@ == signature_text(name@, decl),
{
    let mut parts: Vec<String> = Vec::new();
    let mut i: usize = 0;
    while i < decl.inputs.len()
        invariant
            i <= decl.inputs.len(),
            parts.len() == i,
            forall|j: int| 0 <= j < i ==> (#[trigger] parts@[j])@ == input_texts(decl.inputs@)[j],
        decreases decl.inputs.len() - i,
    {
        let input = &decl.inputs[i];
        let shown = render_type(&input.1);
        if input.0.as_str().is_empty() {
            parts.push(shown);
        } else {
            let mut part = input.0.clone();
            part.push_str(": ");
            part.push_str(shown.as_str());
            parts.push(part);
        }
        i = i + 1;
    }
    assert(texts(parts@) =~= input_texts(decl.inputs@));
    let mut out = "fn ".to_string();
    out.push_str(name);
    out.push_str("(");
    out.push_str(join_texts(&parts, ", ").as_str());
    out.push_str(")");
    if let Some(t) = &decl.output {
        out.push_str(" -> ");
        out.push_str(render_type(t).as_str());
    }
    out
}

/// A candidate that scored below the threshold.
#[derive(Debug, Clone, PartialEq)]
pub struct Hit {
    pub id: Id,
    pub name: String,
    /// The segments of the path of the item.
    pub path: Vec<String>,
    /// The address of its documentation.
    pub link: String,
    pub docs: Option<String>,
    pub signature: String,
    /// The outcome of the comparison that made the hit.
    pub similarities: Similarities,
}

/// A [`Hit`] as a mathematical value.
pub struct HitView {
    pub id: Id,
    pub name: Seq<char>,
    pub path: Seq<Seq<char>>,
    pub link: Seq<char>,
    pub docs: Option<Seq<char>>,
    pub signature: Seq<char>,
    pub atoms: Seq<Atom>,
}

impl View for Hit {
    type V = HitView;

    open spec fn view(&self) -> HitView {
        HitView {
            id: self.id,
            name: self.name@,
            path: texts(self.path@),
            link: self.link@,
            docs: match self.docs {
                Some(d) => Some(d@),
                None => None,
            },
            signature: self.signature@,
            atoms: self.similarities@,
        }
    }
}

/// The views of a list of hits.
pub open spec fn hit_views(hits: Seq<Hit>) -> Seq<HitView> {
    hits.map_values(|h: Hit| h@)
}

impl Hit {
    /// The outcome of the comparison that made the hit.
    pub fn similarities(&self) -> (r: &Similarities)
        ensures
            r@ == self@.atoms,
    {
        &self.similarities
    }

    /// The score of the hit, in millionths.
    pub fn score(&self) -> (r: u64)
        ensures
            r == self@.score(),
            r <= SCORE_ONE,
    {
        if self.similarities.0.len() > 0 {
            self.similarities.score()
        } else {
            0
        }
    }
}

/// Why a search or the reading of a scope did not succeed.
#[derive(Debug, Clone, PartialEq)]
pub enum SearchError {
    /// A crate to be searched is not in the index.
    CrateNotFound(CrateMetadata),
    /// An item that the crate refers to is not in the crate's index.
    ItemNotFound(u32, CrateMetadata),
    /// A scope names a set that is not known.
    UnknownSet(String),
    /// A scope names a crate that is not known.
    UnknownCrate(CrateMetadata),
    /// The text is no scope.
    ScopeParse(String),
    /// The text is no query; the number is the place where it goes wrong.
    QueryParse(String, usize),
}

/// A [`SearchError`] as a mathematical value.
pub enum Failure {
    CrateNotFound(CrateKey),
    ItemNotFound(u32, CrateKey),
    UnknownSet(Seq<char>),
    UnknownCrate(CrateKey),
    ScopeParse(Seq<char>),
    QueryParse(Seq<char>, nat),
}

impl View for SearchError {
    type V = Failure;

    open spec fn view(&self) -> Failure {
        match self {
            SearchError::CrateNotFound(k) => Failure::CrateNotFound(k@),
            SearchError::ItemNotFound(id, k) => Failure::ItemNotFound(*id, k@),
            SearchError::UnknownSet(s) => Failure::UnknownSet(s@),
            SearchError::UnknownCrate(k) => Failure::UnknownCrate(k@),
            SearchError::ScopeParse(s) => Failure::ScopeParse(s@),
            SearchError::QueryParse(s, at) => Failure::QueryParse(s@, *at as nat),
        }
    }
}

impl Failure {
    /// What is told of the failure.
    pub open spec fn message(self) -> Seq<char> {
        match self {
            Failure::CrateNotFound(k) => "crate `"@ + (k.0 + ":"@ + k.1)
                + "` is not present in the index"@,
            Failure::ItemNotFound(id, k) => "item with id `"@ + crate::text::decimal(id as nat)
                + "` is not present in crate `"@ + (k.0 + ":"@ + k.1) + "`"@,
            Failure::UnknownSet(s) => "set `"@ + s + "` not found"@,
            Failure::UnknownCrate(k) => "crate `"@ + (k.0 + ":"@ + k.1) + "` not found"@,
            Failure::ScopeParse(s) => "parsing scope `"@ + s + "` failed"@,
            Failure::QueryParse(s, _) => "parsing query `"@ + s + "` failed"@,
        }
    }
}

impl SearchError {
    /// What is told of the error.
    pub fn message(&self) -> (r: String)
        ensures
            r@ == self@.message(),
    {
        match self {
            SearchError::CrateNotFound(k) => {
                let mut out = "crate `".to_string();
                out.push_str(k.display().as_str());
                out.push_str("` is not present in the index");
                out
            },
            SearchError::ItemNotFound(id, k) => {
                let mut out = "item with id `".to_string();
                crate::text::push_decimal(&mut out, *id as u64);
                out.push_str("` is not present in crate `");
                out.push_str(k.display().as_str());
                out.push_str("`");
                out
            },
            SearchError::UnknownSet(s) => {
                let mut out = "set `".to_string();
                out.push_str(s.as_str());
                out.push_str("` not found");
                out
            },
            SearchError::UnknownCrate(k) => {
                let mut out = "crate `".to_string();
                out.push_str(k.display().as_str());
                out.push_str("` not found");
                out
            },
            SearchError::ScopeParse(s) => {
                let mut out = "parsing scope `".to_string();
                out.push_str(s.as_str());
                out.push_str("` failed");
                out
            },
            SearchError::QueryParse(s, _) => {
                let mut out = "parsing query `".to_string();
                out.push_str(s.as_str());
                out.push_str("` failed");
                out
            },
        }
    }
}

/// The error for a crate that is not in the index.
pub fn crate_not_found(krate: &CrateMetadata) -> (r: SearchError)
    ensures
        r@ == Failure::CrateNotFound(krate@),
{
    SearchError::CrateNotFound(krate.duplicate())
}

/// The error for an item that is not in the index of its crate.
pub fn item_not_found(id: u32, krate: &CrateMetadata) -> (r: SearchError)
    ensures
        r@ == Failure::ItemNotFound(id, krate@),
{
    SearchError::ItemNotFound(id, krate.duplicate())
}

/// Name and version of a crate as the crate itself states them; the name
/// is empty where it has none.
pub open spec fn own_key(krate: &Crate) -> CrateKey {
    (crate_name(krate), krate.crate_version@)
}

/// The hit that a function item makes, given its path and its atoms.
pub open spec fn hit_for(item: Item, route: Route, atoms: Seq<Atom>) -> HitView {
    HitView {
        id: item.id,
        name: name_or_empty(item),
        path: route.segments(),
        link: route.link_text(),
        docs: match item.docs {
            Some(d) => Some(d@),
            None => None,
        },
        signature: match item.inner {
            ItemEnum::Function(f) => signature_text(name_or_empty(item), &f.sig),
            _ => Seq::empty(),
        },
        atoms,
    }
}

/// True if a candidate with the atoms `atoms` is a hit: it has atoms, and
/// its score is below the threshold.
pub open spec fn is_hit(atoms: Seq<Atom>, threshold: nat) -> bool {
    atoms.len() > 0 && mean_score(atoms) < threshold
}

/// What one function item contributes to a search: the error that its
/// path cannot be rebuilt, or else its hit, if it is one. `impl_` is the
/// impl that the function belongs to, if any.
pub open spec fn candidate_outcome(
    krate: &Crate,
    parents: Map<u32, Parent>,
    query: QueryView,
    threshold: nat,
    item: Item,
    impl_: Option<&types::Impl>,
) -> Result<Seq<HitView>, Failure> {
    match route_of(krate, item.id.0, parents) {
        None => Err(Failure::ItemNotFound(item.id.0, own_key(krate))),
        Some(route) => {
            let atoms = query_atoms(query, &item, impl_, Map::empty()).0;
            if is_hit(atoms, threshold) {
                Ok(seq![hit_for(item, route, atoms)])
            } else {
                Ok(Seq::empty())
            }
        },
    }
}

/// The first of `members` from position `i` on that is not in the index
/// of the crate.
pub open spec fn first_missing(krate: &Crate, members: Seq<Id>, i: int) -> Option<u32>
    decreases members.len() - i,
{
    if 0 <= i < members.len() {
        if krate.index@.contains_key(members[i].0) {
            first_missing(krate, members, i + 1)
        } else {
            Some(members[i].0)
        }
    } else {
        None
    }
}

/// What the members of an impl from position `i` on contribute: those
/// that are functions, one after the other, up to the first error.
pub open spec fn members_from(
    krate: &Crate,
    parents: Map<u32, Parent>,
    query: QueryView,
    threshold: nat,
    impl_: &types::Impl,
    i: int,
) -> Result<Seq<HitView>, Failure>
    decreases impl_.items@.len() - i,
{
    if 0 <= i < impl_.items@.len() {
        let member = krate.index@[impl_.items@[i].0];
        let first = if member.inner is Function {
            candidate_outcome(krate, parents, query, threshold, member, Some(impl_))
        } else {
            Ok(Seq::empty())
        };
        match first {
            Err(e) => Err(e),
            Ok(hits) => match members_from(krate, parents, query, threshold, impl_, i + 1) {
                Err(e) => Err(e),
                Ok(rest) => Ok(hits + rest),
            },
        }
    } else {
        Ok(Seq::empty())
    }
}

/// What the item under `key` contributes to a search of the crate that
/// the scope names `scope`: a function its own outcome, an inherent impl
/// that of its members, any other item nothing. An impl with a member that
/// is not in the index gives the error for the first such member.
pub open spec fn item_outcome(
    krate: &Crate,
    parents: Map<u32, Parent>,
    scope: CrateKey,
    query: QueryView,
    threshold: nat,
    key: u32,
) -> Result<Seq<HitView>, Failure> {
    let item = krate.index@[key];
    match item.inner {
        ItemEnum::Function(_) => candidate_outcome(krate, parents, query, threshold, item, None),
        ItemEnum::Impl(i) => if i.trait_ is None {
            match first_missing(krate, i.items@, 0) {
                Some(id) => Err(Failure::ItemNotFound(id, scope)),
                None => members_from(krate, parents, query, threshold, &i, 0),
            }
        } else {
            Ok(Seq::empty())
        },
        _ => Ok(Seq::empty()),
    }
}

/// The hits of the items of a crate in the order `order`, where none of
/// them gives an error.
pub open spec fn crate_hits(
    krate: &Crate,
    parents: Map<u32, Parent>,
    scope: CrateKey,
    query: QueryView,
    threshold: nat,
    order: Seq<u32>,
) -> Seq<HitView>
    decreases order.len(),
{
    if order.len() == 0 {
        Seq::empty()
    } else {
        crate_hits(krate, parents, scope, query, threshold, order.drop_last()) + (match item_outcome(
            krate,
            parents,
            scope,
            query,
            threshold,
            order.last(),
        ) {
            Ok(hits) => hits,
            Err(_) => Seq::empty(),
        })
    }
}

/// True if `order` names each key of `keys` once, and nothing else.
pub open spec fn is_enumeration(order: Seq<u32>, keys: Set<u32>) -> bool {
    &&& order.no_duplicates()
    &&& forall|k: u32| order.contains(k) <==> keys.contains(k)
}

impl Index {
    /// True if the crate `key` is in the index and none of its items gives
    /// an error in a search.
    pub open spec fn searchable(&self, query: QueryView, threshold: nat, key: CrateKey) -> bool {
        &&& self.crates().contains_key(key)
        &&& forall|k: u32| #[trigger]
            self.crates()[key].index@.contains_key(k) ==> item_outcome(
                &self.crates()[key],
                self.parents()[key],
                key,
                query,
                threshold,
                k,
            ) is Ok
    }

    /// True if `failure` is an error that the crate `key` gives in a
    /// search: that it is not in the index, or the error of one of its
    /// items.
    pub open spec fn fails_with(
        &self,
        query: QueryView,
        threshold: nat,
        key: CrateKey,
        failure: Failure,
    ) -> bool {
        if self.crates().contains_key(key) {
            exists|k: u32| #[trigger]
                self.crates()[key].index@.contains_key(k) && item_outcome(
                    &self.crates()[key],
                    self.parents()[key],
                    key,
                    query,
                    threshold,
                    k,
                ) == Err::<Seq<HitView>, Failure>(failure)
        } else {
            failure == Failure::CrateNotFound(key)
        }
    }

    /// True if `outcome` is an outcome of the search for `query` in the
    /// crates `keys`.
    ///
    /// The search succeeds if and only if each of the crates is in the
    /// index and none of its items gives an error. The hits are then those
    /// of all the crates, in the order of their scores; the items of each
    /// crate are taken in some order that names each once. Where the
    /// search does not succeed, the error is one of the first crate that
    /// gives one.
    pub open spec fn is_search_outcome(
        &self,
        query: QueryView,
        threshold: nat,
        keys: Seq<CrateKey>,
        outcome: Result<Seq<HitView>, Failure>,
    ) -> bool {
        &&& outcome is Ok <==> forall|c: int|
            0 <= c < keys.len() ==> self.searchable(query, threshold, #[trigger] keys[c])
        &&& outcome matches Err(e) ==> exists|c: int|
            0 <= c < keys.len() && self.fails_with(query, threshold, #[trigger] keys[c], e)
                && forall|b: int|
                0 <= b < c ==> self.searchable(query, threshold, #[trigger] keys[b])
        &&& outcome matches Ok(hits) ==> sorted_by_score(hits) && exists|orders: Seq<Seq<u32>>|
            {
                &&& orders.len() == keys.len()
                &&& forall|c: int|
                    0 <= c < keys.len() ==> is_enumeration(
                        #[trigger] orders[c],
                        self.crates()[keys[c]].index@.dom(),
                    )
                &&& hits.to_multiset() == self.hits_through(
                    query,
                    threshold,
                    keys,
                    orders,
                    keys.len() as int,
                ).to_multiset()
            }
    }

    /// The hits of the first `n` of the crates `keys`, the items of each
    /// crate taken in the order that `orders` gives for it.
    pub open spec fn hits_through(
        &self,
        query: QueryView,
        threshold: nat,
        keys: Seq<CrateKey>,
        orders: Seq<Seq<u32>>,
        n: int,
    ) -> Seq<HitView>
        decreases n,
    {
        if n <= 0 {
            Seq::empty()
        } else {
            self.hits_through(query, threshold, keys, orders, n - 1) + crate_hits(
                &self.crates()[keys[n - 1]],
                self.parents()[keys[n - 1]],
                keys[n - 1],
                query,
                threshold,
                orders[n - 1],
            )
        }
    }
}

/// The result of a search as a mathematical value.
pub open spec fn outcome_view(r: Result<Vec<Hit>, SearchError>) -> Result<Seq<HitView>, Failure> {
    match r {
        Ok(hits) => Ok(hit_views(hits@)),
        Err(e) => Err(e@),
    }
}

/// The names and versions of a list of crates.
pub open spec fn keys_of(krates: Seq<CrateMetadata>) -> Seq<CrateKey> {
    krates.map_values(|m: CrateMetadata| m@)
}

impl HitView {
    /// The score of the hit. A hit of a search has atoms; one without
    /// counts as zero.
    pub open spec fn score(self) -> nat {
        if self.atoms.len() > 0 {
            mean_score(self.atoms)
        } else {
            0
        }
    }
}

/// True if the hits stand in the order of their scores, the lowest first.
pub open spec fn sorted_by_score(hits: Seq<HitView>) -> bool {
    forall|i: int, j: int| 0 <= i < j < hits.len() ==> hits[i].score() <= hits[j].score()
}

/// True if the hits stand in the order of their scores, the highest first.
spec fn falling(hits: Seq<HitView>) -> bool {
    forall|i: int, j: int| 0 <= i < j < hits.len() ==> hits[i].score() >= hits[j].score()
}

/// The hits in the opposite order.
fn turned_round(hits: Vec<Hit>) -> (r: Vec<Hit>)
    ensures
        r@ == hits@.reverse(),
{
    let mut hits = hits;
    let ghost all = hits@;
    let mut out: Vec<Hit> = Vec::new();
    while hits.len() > 0
        invariant
            out@.len() + hits@.len() == all.len(),
            forall|i: int| 0 <= i < hits@.len() ==> hits@[i] == all[i],
            forall|i: int| 0 <= i < out@.len() ==> out@[i] == all[all.len() - 1 - i],
        decreases hits.len(),
    {
        match hits.pop() {
            Some(hit) => {
                out.push(hit);
            },
            None => {},
        }
    }
    out
}

/// Two lists of hits, each in the order of its scores, as one list in
/// that order.
fn merged(left: Vec<Hit>, right: Vec<Hit>) -> (r: Vec<Hit>)
    requires
        sorted_by_score(hit_views(left@)),
        sorted_by_score(hit_views(right@)),
    ensures
        sorted_by_score(hit_views(r@)),
        hit_views(r@).to_multiset() == hit_views(left@).to_multiset().add(
            hit_views(right@).to_multiset(),
        ),
{
    broadcast use vstd::seq_lib::group_to_multiset_ensures;

    let mut left = left;
    let mut right = right;
    let ghost all = hit_views(left@).to_multiset().add(hit_views(right@).to_multiset());
    let mut out: Vec<Hit> = Vec::new();
    while left.len() > 0 || right.len() > 0
        invariant
            sorted_by_score(hit_views(left@)),
            sorted_by_score(hit_views(right@)),
            falling(hit_views(out@)),
            forall|i: int, j: int|
                0 <= i < left@.len() && 0 <= j < out@.len() ==> (#[trigger] hit_views(
                    left@,
                )[i]).score() <= (#[trigger] hit_views(out@)[j]).score(),
            forall|i: int, j: int|
                0 <= i < right@.len() && 0 <= j < out@.len() ==> (#[trigger] hit_views(
                    right@,
                )[i]).score() <= (#[trigger] hit_views(out@)[j]).score(),
            hit_views(out@).to_multiset().add(hit_views(left@).to_multiset()).add(
                hit_views(right@).to_multiset(),
            ) == all,
        decreases left@.len() + right@.len(),
    {
        let from_left = if right.len() == 0 {
            true
        } else if left.len() == 0 {
            false
        } else {
            left[left.len() - 1].score() > right[right.len() - 1].score()
        };
        let ghost left_before = left@;
        let ghost right_before = right@;
        let ghost out_before = out@;
        let taken = if from_left {
            left.pop()
        } else {
            right.pop()
        };
        match taken {
            Some(hit) => {
                proof {
                    let l = hit_views(left_before);
                    let r = hit_views(right_before);
                    let o = hit_views(out_before);
                    if from_left {
                        assert(l =~= hit_views(left@).push(hit@));
                        vstd::seq_lib::to_multiset_build(hit_views(left@), hit@);
                        assert(forall|i: int|
                            0 <= i < right@.len() ==> (#[trigger] r[i]).score() <= hit@.score()) by {
                            if right@.len() > 0 {
                                assert(forall|i: int|
                                    0 <= i < right@.len() ==> (#[trigger] r[i]).score() <= r[right@.len()
                                        - 1].score());
                            }
                        }
                        assert forall|i: int| 0 <= i < left@.len() implies (#[trigger] hit_views(
                            left@,
                        )[i]).score() <= hit@.score() by {
                            assert(hit_views(left@)[i] == l[i]);
                            assert(l[left@.len() as int] == hit@);
                        }
                    } else {
                        assert(r =~= hit_views(right@).push(hit@));
                        vstd::seq_lib::to_multiset_build(hit_views(right@), hit@);
                        assert(forall|i: int|
                            0 <= i < left@.len() ==> (#[trigger] l[i]).score() <= hit@.score()) by {
                            if left@.len() > 0 {
                                assert(forall|i: int|
                                    0 <= i < left@.len() ==> (#[trigger] l[i]).score() <= l[left@.len()
                                        - 1].score());
                            }
                        }
                        assert forall|i: int| 0 <= i < right@.len() implies (#[trigger] hit_views(
                            right@,
                        )[i]).score() <= hit@.score() by {
                            assert(hit_views(right@)[i] == r[i]);
                            assert(r[right@.len() as int] == hit@);
                        }
                    }
                    assert(forall|j: int|
                        0 <= j < o.len() ==> hit@.score() <= (#[trigger] o[j]).score()) by {
                        if from_left {
                            assert(l[left@.len() as int] == hit@);
                        } else {
                            assert(r[right@.len() as int] == hit@);
                        }
                    }
                    vstd::seq_lib::to_multiset_build(o, hit@);
                }
                out.push(hit);
                proof {
                    let o = hit_views(out_before);
                    assert(hit_views(out@) =~= o.push(hit@));
                    assert forall|i: int, j: int| 0 <= i < j < left@.len() implies hit_views(
                        left@,
                    )[i].score() <= hit_views(left@)[j].score() by {
                        assert(hit_views(left@)[i] == hit_views(left_before)[i]);
                        assert(hit_views(left@)[j] == hit_views(left_before)[j]);
                    }
                    assert forall|i: int, j: int| 0 <= i < j < right@.len() implies hit_views(
                        right@,
                    )[i].score() <= hit_views(right@)[j].score() by {
                        assert(hit_views(right@)[i] == hit_views(right_before)[i]);
                        assert(hit_views(right@)[j] == hit_views(right_before)[j]);
                    }
                }
            },
            None => {},
        }
    }
    let ghost fallen = hit_views(out@);
    let r = turned_round(out);
    proof {
        assert(hit_views(r@) =~= fallen.reverse());
        fallen.lemma_reverse_to_multiset();
    }
    r
}

/// Puts the hits in the order of their scores.
fn sort_hits(hits: Vec<Hit>) -> (r: Vec<Hit>)
    ensures
        sorted_by_score(hit_views(r@)),
        hit_views(r@).to_multiset() == hit_views(hits@).to_multiset(),
    decreases hits@.len(),
{
    broadcast use vstd::seq_lib::group_to_multiset_ensures;

    if hits.len() <= 1 {
        return hits;
    }
    let mut left = hits;
    let ghost all = left@;
    let half = left.len() / 2;
    let right = left.split_off(half);
    proof {
        assert(hit_views(all) =~= hit_views(left@) + hit_views(right@));
        vstd::seq_lib::lemma_multiset_commutative(hit_views(left@), hit_views(right@));
    }
    let left = sort_hits(left);
    let right = sort_hits(right);
    merged(left, right)
}

proof fn lemma_hits_through_ignores_later(
    index: &Index,
    query: QueryView,
    threshold: nat,
    keys: Seq<CrateKey>,
    orders: Seq<Seq<u32>>,
    more: Seq<u32>,
    n: int,
)
    requires
        n <= orders.len(),
    ensures
        index.hits_through(query, threshold, keys, orders.push(more), n) == index.hits_through(
            query,
            threshold,
            keys,
            orders,
            n,
        ),
    decreases n,
{
    if n > 0 {
        lemma_hits_through_ignores_later(index, query, threshold, keys, orders, more, n - 1);
    }
}

/// A copy of an optional string.
fn copy_of(text: &Option<String>) -> (r: Option<String>)
    ensures
        match (r, *text) {
            (Some(a), Some(b)) => a@ == b@,
            (None, None) => true,
            _ => false,
        },
{
    match text {
        Some(t) => Some(t.clone()),
        None => None,
    }
}

impl Index {
    /// Compares the query with one item, which stands in the impl `impl_`
    /// if there is one. The substitution starts empty.
    pub fn compare(
        &self,
        query: &Query,
        item: &Item,
        krate: &Crate,
        impl_: Option<&types::Impl>,
    ) -> (r: Similarities)
        ensures
            r@ == query_atoms(query@, item, impl_, Map::empty()).0,
    {
        let mut substs = Substitution::new();
        Similarities(query.compare(item, impl_, &mut substs))
    }

    /// The path of a function item, rebuilt from the child-to-parent
    /// relation of its crate.
    pub fn path_and_link<'a>(
        krate: &'a Crate,
        item: &Item,
        impl_: Option<&types::Impl>,
        parents: &HashMap<u32, Parent>,
    ) -> (r: Result<Path<'a>, SearchError>)
        requires
            item.inner is Function,
        ensures
            match route_of(krate, item.id.0, parents@) {
                Some(route) => r matches Ok(p) && p@ == route,
                None => r matches Err(e) && e@ == Failure::ItemNotFound(item.id.0, own_key(krate)),
            },
    {
        match reconstruct_path_for_local(krate, &item.id, parents) {
            Some(path) => Ok(path),
            None => {
                let name = match &krate.name {
                    Some(n) => n.clone(),
                    None => String::new(),
                };
                Err(
                    SearchError::ItemNotFound(
                        item.id.0,
                        CrateMetadata { name, version: krate.crate_version.clone() },
                    ),
                )
            },
        }
    }

    /// Adds the hit of one function item to `hits`, if it is one.
    fn candidate(
        &self,
        krate: &Crate,
        parents: &HashMap<u32, Parent>,
        query: &Query,
        threshold: u64,
        item: &Item,
        impl_: Option<&types::Impl>,
        hits: &mut Vec<Hit>,
    ) -> (r: Result<(), SearchError>)
        requires
            item.inner is Function,
        ensures
            match candidate_outcome(krate, parents@, query@, threshold as nat, *item, impl_) {
                Ok(found) => r is Ok && hit_views(final(hits)@) == hit_views(old(hits)@) + found,
                Err(e) => r matches Err(x) && x@ == e,
            },
    {
        let path = match Self::path_and_link(krate, item, impl_, parents) {
            Ok(p) => p,
            Err(e) => {
                return Err(e);
            },
        };
        let sims = self.compare(query, item, krate, impl_);
        if sims.0.len() > 0 && sims.score() < threshold {
            let name = match &item.name {
                Some(n) => n.clone(),
                None => String::new(),
            };
            let signature = match &item.inner {
                ItemEnum::Function(f) => format_fn_signature(name.as_str(), &f.sig),
                _ => String::new(),
            };
            let hit = Hit {
                id: item.id,
                name,
                path: path.pathify(),
                link: path.link(),
                docs: copy_of(&item.docs),
                signature,
                similarities: sims,
            };
            hits.push(hit);
        }
        Ok(())
    }

    /// Adds the hits of the members of an inherent impl to `hits`.
    fn members(
        &self,
        krate: &Crate,
        parents: &HashMap<u32, Parent>,
        scope: &CrateMetadata,
        query: &Query,
        threshold: u64,
        impl_: &types::Impl,
        hits: &mut Vec<Hit>,
    ) -> (r: Result<(), SearchError>)
        ensures
            match first_missing(krate, impl_.items@, 0) {
                Some(id) => r matches Err(x) && x@ == Failure::ItemNotFound(id, scope@),
                None => match members_from(krate, parents@, query@, threshold as nat, impl_, 0) {
                    Ok(found) => r is Ok && hit_views(final(hits)@) == hit_views(old(hits)@)
                        + found,
                    Err(e) => r matches Err(x) && x@ == e,
                },
            },
    {
        let mut i: usize = 0;
        while i < impl_.items.len()
            invariant
                i <= impl_.items.len(),
                first_missing(krate, impl_.items@, 0) == first_missing(
                    krate,
                    impl_.items@,
                    i as int,
                ),
                forall|j: int| 0 <= j < i ==> krate.index@.contains_key(impl_.items@[j].0),
            decreases impl_.items.len() - i,
        {
            if krate.index.get(&impl_.items[i].0).is_none() {
                return Err(item_not_found(impl_.items[i].0, scope));
            }
            i = i + 1;
        }
        let ghost before = hit_views(hits@);
        let ghost whole = members_from(krate, parents@, query@, threshold as nat, impl_, 0);
        let mut i: usize = 0;
        while i < impl_.items.len()
            invariant
                i <= impl_.items.len(),
                forall|j: int|
                    0 <= j < impl_.items.len() ==> krate.index@.contains_key(impl_.items@[j].0),
                whole == members_from(krate, parents@, query@, threshold as nat, impl_, 0),
                first_missing(krate, impl_.items@, 0) is None,
                match members_from(krate, parents@, query@, threshold as nat, impl_, i as int) {
                    Ok(rest) => whole matches Ok(all) && hit_views(hits@) + rest == before + all,
                    Err(e) => whole == Err::<Seq<HitView>, Failure>(e),
                },
            decreases impl_.items.len() - i,
        {
            let member = match krate.index.get(&impl_.items[i].0) {
                Some(m) => m,
                None => {
                    return Ok(());
                },
            };
            if let ItemEnum::Function(_) = &member.inner {
                match self.candidate(krate, parents, query, threshold, member, Some(impl_), hits) {
                    Ok(()) => {},
                    Err(e) => {
                        return Err(e);
                    },
                }
            }
            proof {
                match members_from(krate, parents@, query@, threshold as nat, impl_, i + 1) {
                    Ok(rest) => {
                    },
                    Err(_) => {},
                }
            }
            i = i + 1;
        }
        Ok(())
    }

    /// Adds the hits of the items of one crate to `hits`, and tells the
    /// order in which it took the items.
    fn crate_search(
        &self,
        krate: &Crate,
        parents: &HashMap<u32, Parent>,
        scope: &CrateMetadata,
        query: &Query,
        threshold: u64,
        hits: &mut Vec<Hit>,
    ) -> (r: Result<Ghost<Seq<u32>>, SearchError>)
        ensures
            match r {
                Ok(order) => {
                    &&& is_enumeration(order@, krate.index@.dom())
                    &&& forall|k: u32| #[trigger]
                        krate.index@.contains_key(k) ==> item_outcome(
                            krate,
                            parents@,
                            scope@,
                            query@,
                            threshold as nat,
                            k,
                        ) is Ok
                    &&& hit_views(final(hits)@) == hit_views(old(hits)@) + crate_hits(
                        krate,
                        parents@,
                        scope@,
                        query@,
                        threshold as nat,
                        order@,
                    )
                },
                Err(e) => exists|k: u32| #[trigger]
                    krate.index@.contains_key(k) && item_outcome(
                        krate,
                        parents@,
                        scope@,
                        query@,
                        threshold as nat,
                        k,
                    ) == Err::<Seq<HitView>, Failure>(e@),
            },
    {
        let ghost before = hit_views(hits@);
        let ghost mut seen: Seq<u32> = Seq::empty();
        for entry in it: krate.index.iter()
            invariant
                seen.len() == it.index(),
                it.seq().no_duplicates(),
                forall|j: int| 0 <= j < seen.len() ==> #[trigger] seen[j] == *it.seq()[j].0,
                forall|j: int|
                    0 <= j < it.seq().len() ==> krate.index@.contains_key(
                        *(#[trigger] it.seq()[j]).0,
                    ) && krate.index@[*it.seq()[j].0] == *it.seq()[j].1,
                forall|k: u32| #[trigger]
                    krate.index@.contains_key(k) ==> seen.contains(k) || exists|j: int|
                        it.index() <= j < it.seq().len() && *(#[trigger] it.seq()[j]).0 == k,
                forall|j: int|
                    0 <= j < seen.len() ==> item_outcome(
                        krate,
                        parents@,
                        scope@,
                        query@,
                        threshold as nat,
                        #[trigger] seen[j],
                    ) is Ok,
                seen.no_duplicates(),
                hit_views(hits@) == before + crate_hits(
                    krate,
                    parents@,
                    scope@,
                    query@,
                    threshold as nat,
                    seen,
                ),
        {
            let (key, item) = entry;
            let ghost done = it.index();
            let ghost earlier = seen;
            match self.item_hits(krate, parents, scope, query, threshold, *key, item, hits) {
                Ok(()) => {},
                Err(e) => {
                    return Err(e);
                },
            }
            proof {
                seen = seen.push(*key);
                assert(seen.drop_last() == earlier);
                assert forall|k: u32| #[trigger] krate.index@.contains_key(k) implies seen.contains(
                    k,
                ) || exists|j: int|
                    done + 1 <= j < it.seq().len() && *(#[trigger] it.seq()[j]).0 == k by {
                    if earlier.contains(k) {
                        let j = choose|j: int| 0 <= j < earlier.len() && earlier[j] == k;
                    } else {
                        let j = choose|j: int|
                            done <= j < it.seq().len() && *(#[trigger] it.seq()[j]).0 == k;
                        if j == done {
                            assert(seen[done] == k);
                        }
                    }
                }
            }
        }
        Ok(Ghost(seen))
    }

    /// Searches the crates `krates` of the index for the query.
    ///
    /// The search succeeds if and only if each of the crates is in the
    /// index and none of its items gives an error. The hits are then those
    /// of all the crates, each hit with a score below `threshold`, in the
    /// order of their scores. Within a crate the items are taken in an
    /// order that is not fixed. Where the search does not succeed, the
    /// error is one of the first crate that gives one.
    pub fn search(&self, query: &Query, krates: &[CrateMetadata], threshold: u64) -> (r: Result<
        Vec<Hit>,
        SearchError,
    >)
        requires
            self.wf(),
        ensures
            self.is_search_outcome(
                query@,
                threshold as nat,
                keys_of(krates@),
                outcome_view(r),
            ),
    {
        let mut hits: Vec<Hit> = Vec::new();
        let ghost mut orders: Seq<Seq<u32>> = Seq::empty();
        let ghost keys = keys_of(krates@);
        let mut c: usize = 0;
        while c < krates.len()
            invariant
                self.wf(),
                c <= krates.len(),
                keys == keys_of(krates@),
                orders.len() == c,
                forall|b: int|
                    0 <= b < c ==> self.searchable(query@, threshold as nat, #[trigger] keys[b]),
                forall|b: int|
                    0 <= b < c ==> is_enumeration(
                        #[trigger] orders[b],
                        self.crates()[keys[b]].index@.dom(),
                    ),
                hit_views(hits@) == self.hits_through(
                    query@,
                    threshold as nat,
                    keys,
                    orders,
                    c as int,
                ),
            decreases krates.len() - c,
        {
            let scope = &krates[c];
            let krate = match self.crate_of(scope) {
                Some(k) => k,
                None => {
                    let e = crate_not_found(scope);
                    assert(!self.searchable(query@, threshold as nat, keys[c as int]));
                    return Err(e);
                },
            };
            let parents = match self.parents_of(scope) {
                Some(p) => p,
                None => {
                    proof {
                        self.lockstep();
                    }
                    return Err(crate_not_found(scope));
                },
            };
            let ghost earlier = orders;
            match self.crate_search(krate, parents, scope, query, threshold, &mut hits) {
                Err(e) => {
                    assert(!self.searchable(query@, threshold as nat, keys[c as int]));
                    return Err(e);
                },
                Ok(order) => {
                    proof {
                        orders = orders.push(order@);
                        lemma_hits_through_ignores_later(
                            self,
                            query@,
                            threshold as nat,
                            keys,
                            earlier,
                            order@,
                            c as int,
                        );
                    }
                },
            }
            c = c + 1;
        }
        let sorted = sort_hits(hits);
        Ok(sorted)
    }

    /// Adds the hits of the item under `key` to `hits`.
    fn item_hits(
        &self,
        krate: &Crate,
        parents: &HashMap<u32, Parent>,
        scope: &CrateMetadata,
        query: &Query,
        threshold: u64,
        key: u32,
        item: &Item,
        hits: &mut Vec<Hit>,
    ) -> (r: Result<(), SearchError>)
        requires
            krate.index@.contains_key(key),
            krate.index@[key] == *item,
        ensures
            match item_outcome(krate, parents@, scope@, query@, threshold as nat, key) {
                Ok(found) => r is Ok && hit_views(final(hits)@) == hit_views(old(hits)@) + found,
                Err(e) => r matches Err(x) && x@ == e,
            },
    {
        match &item.inner {
            ItemEnum::Function(_) => self.candidate(
                krate,
                parents,
                query,
                threshold,
                item,
                None,
                hits,
            ),
            ItemEnum::Impl(i) => {
                if i.trait_.is_none() {
                    self.members(krate, parents, scope, query, threshold, i, hits)
                } else {
                    Ok(())
                }
            },
            _ => {
                Ok(())
            },
        }
    }
}

} // verus!
