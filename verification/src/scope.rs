//! Scopes: what a search is to cover, as the user names it.

use crate::index::{CrateKey, Index};
use crate::parse::{parse_query, query_p};
use crate::search::{hit_views, keys_of, outcome_view, Failure, Hit, HitView, SearchError};
use crate::text::{chars_of, same_text, text_of};
use crate::types::CrateMetadata;
use vstd::prelude::*;

verus! {

/// A named list of crates.
#[derive(Debug, Clone)]
pub struct CrateSet {
    pub name: String,
    pub crates: Vec<CrateMetadata>,
}

impl CrateSet {
    /// The set `name` of the crates `crates`.
    pub fn new(name: String, crates: Vec<CrateMetadata>) -> (r: Self)
        ensures
            r.name == name,
            r.crates == crates,
    {
        CrateSet { name, crates }
    }
}

/// What a search is to cover.
#[derive(Debug, Clone)]
pub enum Scope {
    /// One crate.
    Crate(CrateMetadata),
    /// The crates of the set of this name.
    CrateSet(String),
}

/// A [`Scope`] as a mathematical value.
pub enum ScopeView {
    Crate(Seq<char>, Seq<char>),
    CrateSet(Seq<char>),
}

impl View for Scope {
    type V = ScopeView;

    open spec fn view(&self) -> ScopeView {
        match self {
            Scope::Crate(k) => ScopeView::Crate(k.name@, k.version@),
            Scope::CrateSet(s) => ScopeView::CrateSet(s@),
        }
    }
}

/// The pieces of `s` between its colons, from the piece that begins at
/// `start`; the text before `i` is read.
pub open spec fn pieces_from(s: Seq<char>, start: int, i: int) -> Seq<Seq<char>>
    decreases s.len() - i,
{
    if 0 <= start <= i < s.len() {
        if s[i] == ':' {
            seq![s.subrange(start, i)] + pieces_from(s, i + 1, i + 1)
        } else {
            pieces_from(s, start, i + 1)
        }
    } else if 0 <= start <= s.len() {
        seq![s.subrange(start, s.len() as int)]
    } else {
        Seq::empty()
    }
}

/// What a scope text means: `set:NAME`, `crate:NAME:VERSION`, or
/// `crate:NAME` for any version, which is written `*`. Any other text is
/// no scope.
pub open spec fn scope_of(text: Seq<char>) -> Option<ScopeView> {
    let pieces = pieces_from(text, 0, 0);
    if pieces.len() == 2 && pieces[0] == "set"@ {
        Some(ScopeView::CrateSet(pieces[1]))
    } else if pieces.len() == 3 && pieces[0] == "crate"@ {
        Some(ScopeView::Crate(pieces[1], pieces[2]))
    } else if pieces.len() == 2 && pieces[0] == "crate"@ {
        Some(ScopeView::Crate(pieces[1], "*"@))
    } else {
        None
    }
}

/// The text of the address under which the remote index keeps what the
/// scope names.
pub open spec fn scope_url(scope: ScopeView) -> Seq<char> {
    match scope {
        ScopeView::Crate(name, version) =>
            "https://raw.githubusercontent.com/alpaylan/ruggle-index/main/crate/"@ + (name + ":"@
                + version) + ".bin"@,
        ScopeView::CrateSet(set) => "https://raw.githubusercontent.com/alpaylan/ruggle-index/main/set/"@
            + set + ".json"@,
    }
}

impl Scope {
    /// Reads a scope.
    pub fn parse(text: &str) -> (r: Result<Scope, SearchError>)
        ensures
            match scope_of(text@) {
                Some(scope) => r matches Ok(s) && s@ == scope,
                None => r matches Err(e) && e@ == Failure::ScopeParse(text@),
            },
    {
        let chars = chars_of(text);
        let n = chars.len();
        let mut pieces: Vec<String> = Vec::new();
        let mut start: usize = 0;
        let mut i: usize = 0;
        while i < n
            invariant
                n == chars@.len(),
                chars@ == text@,
                0 <= start <= i <= n,
                crate::text::texts(pieces@) + pieces_from(text@, start as int, i as int)
                    == pieces_from(text@, 0, 0),
            decreases n - i,
        {
            if chars[i] == ':' {
                let piece = text_of(chars.as_slice(), start, i);
                pieces.push(piece);
                start = i + 1;
            }
            i = i + 1;
        }
        pieces.push(text_of(chars.as_slice(), start, n));
        if pieces.len() == 2 && same_text(pieces[0].as_str(), "set") {
            Ok(Scope::CrateSet(pieces[1].clone()))
        } else if pieces.len() == 3 && same_text(pieces[0].as_str(), "crate") {
            Ok(
                Scope::Crate(
                    CrateMetadata { name: pieces[1].clone(), version: pieces[2].clone() },
                ),
            )
        } else if pieces.len() == 2 && same_text(pieces[0].as_str(), "crate") {
            Ok(Scope::Crate(CrateMetadata { name: pieces[1].clone(), version: "*".to_string() }))
        } else {
            Err(SearchError::ScopeParse(text.to_string()))
        }
    }

    /// The address under which the remote index keeps what the scope
    /// names.
    pub fn url(&self) -> (r: String)
        ensures
            r@ == scope_url(self@),
    {
        match self {
            Scope::Crate(krate) => {
                let mut out =
                    "https://raw.githubusercontent.com/alpaylan/ruggle-index/main/crate/".to_string();
                out.push_str(krate.display().as_str());
                out.push_str(".bin");
                out
            },
            Scope::CrateSet(set) => {
                let mut out =
                    "https://raw.githubusercontent.com/alpaylan/ruggle-index/main/set/".to_string();
                out.push_str(set.as_str());
                out.push_str(".json");
                out
            },
        }
    }

    /// The crates that the scope covers.
    pub fn expand(&self, scopes: &Scopes) -> (r: Result<Vec<CrateMetadata>, SearchError>)
        ensures
            match scopes.expansion(self@) {
                Ok(keys) => r matches Ok(v) && keys_of(v@) == keys,
                Err(f) => r matches Err(e) && e@ == f,
            },
    {
        scopes.get(self)
    }
}

/// The sets and the crates that a scope can name.
pub struct Scopes {
    pub sets: Vec<CrateSet>,
    pub krates: Vec<CrateMetadata>,
}

/// The position of the first set from `i` on with the name `name`.
pub open spec fn set_position(sets: Seq<CrateSet>, name: Seq<char>, i: int) -> Option<int>
    decreases sets.len() - i,
{
    if 0 <= i < sets.len() {
        if sets[i].name@ == name {
            Some(i)
        } else {
            set_position(sets, name, i + 1)
        }
    } else {
        None
    }
}

proof fn lemma_first_set(sets: Seq<CrateSet>, name: Seq<char>, at: int, i: int)
    requires
        0 <= i <= at < sets.len(),
        sets[at].name@ == name,
        forall|j: int| 0 <= j < at ==> (#[trigger] sets[j]).name@ != name,
    ensures
        set_position(sets, name, i) == Some(at),
    decreases at - i,
{
    if i < at {
        lemma_first_set(sets, name, at, i + 1);
    }
}

proof fn lemma_other_sets(before: Seq<CrateSet>, after: Seq<CrateSet>, name: Seq<char>, i: int)
    requires
        0 <= i,
        before.len() == after.len(),
        forall|j: int|
            0 <= j < before.len() ==> #[trigger] before[j] == after[j] || (before[j].name@ != name
                && after[j].name@ != name),
    ensures
        set_position(before, name, i) == set_position(after, name, i),
        set_position(after, name, i) matches Some(at) ==> 0 <= at < after.len() && before[at]
            == after[at],
    decreases before.len() - i,
{
    if i < before.len() {
        if before[i].name@ != name {
            lemma_other_sets(before, after, name, i + 1);
        }
    }
}

proof fn lemma_pushed_set(before: Seq<CrateSet>, put: CrateSet, name: Seq<char>, i: int)
    requires
        0 <= i,
        put.name@ != name,
    ensures
        set_position(before, name, i) == set_position(before.push(put), name, i),
        set_position(before, name, i) matches Some(at) ==> 0 <= at < before.len(),
    decreases before.len() + 1 - i,
{
    if i < before.len() {
        if before[i].name@ != name {
            lemma_pushed_set(before, put, name, i + 1);
        }
    } else if i == before.len() {
        lemma_pushed_set(before, put, name, i + 1);
    }
}

impl Scopes {
    /// True if the crate of this name and version is known.
    pub open spec fn knows(self, name: Seq<char>, version: Seq<char>) -> bool {
        exists|i: int| 0 <= i < self.krates@.len() && #[trigger] self.krates@[i]@ == (name, version)
    }

    /// The crates that the scope covers: those of the first set of that
    /// name, or the one crate if it is known; else the error that the set
    /// or the crate is not known.
    pub open spec fn expansion(self, scope: ScopeView) -> Result<Seq<CrateKey>, Failure> {
        match scope {
            ScopeView::CrateSet(name) => match set_position(self.sets@, name, 0) {
                Some(i) => Ok(keys_of(self.sets@[i].crates@)),
                None => Err(Failure::UnknownSet(name)),
            },
            ScopeView::Crate(name, version) => if self.knows(name, version) {
                Ok(seq![(name, version)])
            } else {
                Err(Failure::UnknownCrate((name, version)))
            },
        }
    }

    /// No sets and no crates.
    pub fn new() -> (r: Self)
        ensures
            r.sets@.len() == 0,
            r.krates@.len() == 0,
    {
        Scopes { sets: Vec::new(), krates: Vec::new() }
    }

    /// Makes the crate known, if it is not yet.
    pub fn add_crate(&mut self, krate: CrateMetadata)
        ensures
            final(self).sets == old(self).sets,
            forall|name: Seq<char>, version: Seq<char>|
                final(self).knows(name, version) <==> old(self).knows(name, version) || (
                name,
                version,
            ) == krate@,
            old(self).knows(krate.name@, krate.version@) ==> final(self).krates == old(
                self,
            ).krates,
    {
        let mut i: usize = 0;
        while i < self.krates.len()
            invariant
                i <= self.krates.len(),
                *self == *old(self),
                forall|j: int| 0 <= j < i ==> (#[trigger] self.krates@[j])@ != krate@,
            decreases self.krates.len() - i,
        {
            if self.krates[i].same(&krate) {
                return ;
            }
            i = i + 1;
        }
        let ghost added = krate@;
        self.krates.push(krate);
        proof {
            let n = old(self).krates@.len() as int;
            assert forall|name: Seq<char>, version: Seq<char>|
                self.knows(name, version) <==> old(self).knows(name, version) || (name, version)
                    == added by {
                if self.knows(name, version) {
                    let j = choose|j: int|
                        0 <= j < self.krates@.len() && #[trigger] self.krates@[j]@ == (
                            name,
                            version,
                        );
                }
                if old(self).knows(name, version) {
                    let j = choose|j: int|
                        0 <= j < old(self).krates@.len() && #[trigger] old(self).krates@[j]@ == (
                            name,
                            version,
                        );
                    assert(self.krates@[j]@ == (name, version));
                }
                if (name, version) == added {
                    assert(self.krates@[n]@ == (name, version));
                }
            }
        }
    }

    /// Puts a set among the sets. A set of the same name gives way to it.
    pub fn put_set(&mut self, set: CrateSet)
        ensures
            final(self).krates == old(self).krates,
            final(self).expansion(ScopeView::CrateSet(set.name@)) == Ok::<Seq<CrateKey>, Failure>(
                keys_of(set.crates@),
            ),
            forall|name: Seq<char>|
                name != set.name@ ==> #[trigger] final(self).expansion(ScopeView::CrateSet(name))
                    == old(self).expansion(ScopeView::CrateSet(name)),
    {
        let ghost put = set;
        let mut i: usize = 0;
        while i < self.sets.len()
            invariant
                i <= self.sets.len(),
                *self == *old(self),
                put == set,
                forall|j: int| 0 <= j < i ==> (#[trigger] self.sets@[j]).name@ != set.name@,
            decreases self.sets.len() - i,
        {
            if same_text(self.sets[i].name.as_str(), set.name.as_str()) {
                self.sets[i] = set;
                proof {
                    lemma_first_set(self.sets@, put.name@, i as int, 0);
                    assert forall|name: Seq<char>| name != put.name@ implies #[trigger] self.expansion(
                        ScopeView::CrateSet(name),
                    ) == old(self).expansion(ScopeView::CrateSet(name)) by {
                        lemma_other_sets(old(self).sets@, self.sets@, name, 0);
                    }
                }
                return ;
            }
            i = i + 1;
        }
        self.sets.push(set);
        proof {
            let n = old(self).sets@.len() as int;
            lemma_first_set(self.sets@, put.name@, n, 0);
            assert forall|name: Seq<char>| name != put.name@ implies #[trigger] self.expansion(
                ScopeView::CrateSet(name),
            ) == old(self).expansion(ScopeView::CrateSet(name)) by {
                lemma_pushed_set(old(self).sets@, put, name, 0);
            }
        }
    }

    /// The crates that a scope covers.
    #[verifier::loop_isolation(false)]
    pub fn get(&self, scope: &Scope) -> (r: Result<Vec<CrateMetadata>, SearchError>)
        ensures
            match self.expansion(scope@) {
                Ok(keys) => r matches Ok(v) && keys_of(v@) == keys,
                Err(f) => r matches Err(e) && e@ == f,
            },
    {
        match scope {
            Scope::CrateSet(name) => {
                let mut i: usize = 0;
                while i < self.sets.len()
                    invariant
                        i <= self.sets.len(),
                        set_position(self.sets@, name@, 0) == set_position(
                            self.sets@,
                            name@,
                            i as int,
                        ),
                    decreases self.sets.len() - i,
                {
                    if same_text(self.sets[i].name.as_str(), name.as_str()) {
                        let crates = &self.sets[i].crates;
                        let mut out: Vec<CrateMetadata> = Vec::new();
                        let mut j: usize = 0;
                        while j < crates.len()
                            invariant
                                j <= crates.len(),
                                out.len() == j,
                                forall|k: int| 0 <= k < j ==> (#[trigger] out@[k])@ == crates@[k]@,
                            decreases crates.len() - j,
                        {
                            out.push(crates[j].duplicate());
                            j = j + 1;
                        }
                        return Ok(out);
                    }
                    i = i + 1;
                }
                Err(SearchError::UnknownSet(name.clone()))
            },
            Scope::Crate(wanted) => {
                let mut i: usize = 0;
                while i < self.krates.len()
                    invariant
                        i <= self.krates.len(),
                        forall|j: int| 0 <= j < i ==> (#[trigger] self.krates@[j])@ != wanted@,
                    decreases self.krates.len() - i,
                {
                    if self.krates[i].same(wanted) {
                        let mut out: Vec<CrateMetadata> = Vec::new();
                        out.push(self.krates[i].duplicate());
                        return Ok(out);
                    }
                    i = i + 1;
                }
                Err(SearchError::UnknownCrate(wanted.duplicate()))
            },
        }
    }
}

/// The number of hits that a search gives where none is asked for.
pub const DEFAULT_LIMIT: usize = 30;

/// The threshold of a search where none is asked for, in millionths.
pub const DEFAULT_THRESHOLD: u64 = 400_000;

/// The threshold that was asked for, or else the default.
pub open spec fn threshold_or_default(threshold: Option<u64>) -> nat {
    match threshold {
        Some(t) => t as nat,
        None => DEFAULT_THRESHOLD as nat,
    }
}

/// The limit that was asked for, or else the default.
pub open spec fn limit_or_default(limit: Option<usize>) -> nat {
    match limit {
        Some(l) => l as nat,
        None => DEFAULT_LIMIT as nat,
    }
}

/// The first `limit` of the hits.
pub open spec fn first_hits(hits: Seq<HitView>, limit: nat) -> Seq<HitView> {
    if limit < hits.len() {
        hits.take(limit as int)
    } else {
        hits
    }
}

/// Searches for the query `query_str` in the scope `scope_str`, and gives
/// the best `limit` hits that score below `threshold`.
///
/// The scope is read first; a text that is no scope is the error. Then
/// the query is read, and the scope is looked up.
pub fn perform_search(
    index: &Index,
    scopes: &Scopes,
    query_str: &str,
    scope_str: &str,
    limit: Option<usize>,
    threshold: Option<u64>,
) -> (r: Result<Vec<Hit>, SearchError>)
    requires
        index.wf(),
    ensures
        match scope_of(scope_str@) {
            None => r matches Err(e) && e@ == Failure::ScopeParse(scope_str@),
            Some(scope) => match scopes.expansion(scope) {
                Err(f) => r matches Err(e) && e@ == f,
                Ok(keys) => exists|all: Result<Seq<HitView>, Failure>|
                    {
                        &&& #[trigger] index.is_search_outcome(
                            query_p(query_str@).0,
                            threshold_or_default(threshold),
                            keys,
                            all,
                        )
                        &&& match all {
                            Err(f) => r matches Err(e) && e@ == f,
                            Ok(hits) => r matches Ok(out) && hit_views(out@) == first_hits(
                                hits,
                                limit_or_default(limit),
                            ),
                        }
                    },
            },
        },
{
    let scope = match Scope::parse(scope_str) {
        Ok(s) => s,
        Err(e) => {
            return Err(e);
        },
    };
    let query = match parse_query(query_str) {
        Ok((_, q)) => q,
        Err(e) => {
            return Err(SearchError::QueryParse(query_str.to_string(), e.position));
        },
    };
    let ghost threshold_in = threshold;
    let limit = match limit {
        Some(l) => l,
        None => DEFAULT_LIMIT,
    };
    let threshold = match threshold {
        Some(t) => t,
        None => DEFAULT_THRESHOLD,
    };
    let krates = match scopes.get(&scope) {
        Ok(k) => k,
        Err(e) => {
            return Err(e);
        },
    };
    let found = index.search(&query, krates.as_slice(), threshold);
    let ghost all = outcome_view(found);
    let ghost keys = keys_of(krates@);
    assert(index.is_search_outcome(
        query_p(query_str@).0,
        threshold_or_default(threshold_in),
        keys,
        all,
    ));
    match found {
        Err(e) => Err(e),
        Ok(mut hits) => {
            hits.truncate(limit);
            Ok(hits)
        },
    }
}

} // verus!
