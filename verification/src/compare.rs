//! The comparison of a query with a candidate, atom by atom, and the score
//! that the atoms add up to.

use crate::query::{
    Argument, ArgumentView, FnDecl, FnDeclView, FnRetTy, FnRetTyView, Function, FunctionView,
    GenericArg, GenericArgs, PrimitiveType, Qualifier, QualifierSet, Query, QueryKind, QueryView,
    Type, TypeView,
};
use crate::text::{byte_count, byte_len, chars_of, same_text, text_of};
use crate::types;
use vstd::prelude::*;

verus! {

/// The score of a perfect mismatch. Scores are counted in millionths.
pub const SCORE_ONE: u64 = 1_000_000;

/// The score of a partial match.
pub const SCORE_QUARTER: u64 = 250_000;

/// How alike two things are, where there are only three answers.
#[derive(Debug, Clone, Copy, PartialEq, Eq, PartialOrd, Ord, Structural)]
pub enum DiscreteSimilarity {
    /// The same: `i32` and `i32`.
    Equivalent,
    /// Partly the same: an unbound generic `T` and `i32`.
    Subequal,
    /// Not alike: `i32` and `Option<bool>`.
    Different,
}

/// One outcome of a comparison, with a short reason.
#[derive(Debug, Clone, PartialEq)]
pub enum Similarity {
    Discrete { kind: DiscreteSimilarity, reason: String },
    /// Two names that are `distance` edits apart, the longer of them `length`
    /// bytes long. Its value is the quotient of the two.
    Continuous { distance: usize, length: usize, reason: String },
}

/// A [`Similarity`] as a mathematical value.
pub enum Atom {
    Discrete { kind: DiscreteSimilarity, reason: Seq<char> },
    Continuous { distance: nat, length: nat, reason: Seq<char> },
}

impl View for Similarity {
    type V = Atom;

    open spec fn view(&self) -> Atom {
        match self {
            Similarity::Discrete { kind, reason } => Atom::Discrete { kind: *kind, reason: reason@ },
            Similarity::Continuous { distance, length, reason } => Atom::Continuous {
                distance: *distance as nat,
                length: *length as nat,
                reason: reason@,
            },
        }
    }
}

/// The atoms of a list of similarities.
pub open spec fn atoms_of(sims: Seq<Similarity>) -> Seq<Atom> {
    sims.map_values(|s: Similarity| s@)
}

impl Atom {
    /// The score of one atom in millionths: 0 for equivalent, a quarter for
    /// subequal, one for different, and for two names the distance divided
    /// by the length, rounded down and never above one. Two empty names are
    /// no distance apart.
    pub open spec fn score(self) -> nat {
        match self {
            Atom::Discrete { kind: DiscreteSimilarity::Equivalent, .. } => 0,
            Atom::Discrete { kind: DiscreteSimilarity::Subequal, .. } => SCORE_QUARTER as nat,
            Atom::Discrete { kind: DiscreteSimilarity::Different, .. } => SCORE_ONE as nat,
            Atom::Continuous { distance, length, .. } => if distance == 0 {
                0
            } else if distance >= length {
                SCORE_ONE as nat
            } else {
                ((distance * SCORE_ONE) / (length as int)) as nat
            },
        }
    }
}

/// The sum of the scores of `atoms`.
pub open spec fn total_score(atoms: Seq<Atom>) -> nat
    decreases atoms.len(),
{
    if atoms.len() == 0 {
        0
    } else {
        total_score(atoms.drop_last()) + atoms.last().score()
    }
}

/// The score of a list of atoms: the mean of their scores, rounded down.
pub open spec fn mean_score(atoms: Seq<Atom>) -> nat
    recommends
        atoms.len() > 0,
{
    (total_score(atoms) as int / atoms.len() as int) as nat
}

proof fn lemma_atom_score_bound(a: Atom)
    ensures
        a.score() <= SCORE_ONE,
{
    match a {
        Atom::Continuous { distance, length, .. } => {
            if distance != 0 && distance < length {
                assert((distance * 1_000_000) / length <= 1_000_000) by (nonlinear_arith)
                    requires
                        0 < distance < length,
                ;
            }
        },
        _ => {},
    }
}

proof fn lemma_total_score_bound(atoms: Seq<Atom>)
    ensures
        total_score(atoms) <= atoms.len() * SCORE_ONE,
    decreases atoms.len(),
{
    if atoms.len() > 0 {
        lemma_total_score_bound(atoms.drop_last());
        lemma_atom_score_bound(atoms.last());
        assert(atoms.len() * SCORE_ONE == atoms.drop_last().len() * SCORE_ONE + SCORE_ONE)
            by (nonlinear_arith)
            requires
                atoms.drop_last().len() == atoms.len() - 1,
        ;
    }
}

/// The score of a list of atoms that is not empty lies between zero and
/// one, and is the sum of the atoms' scores divided by their number.
pub proof fn score_bounds(atoms: Seq<Atom>)
    requires
        atoms.len() > 0,
    ensures
        0 <= mean_score(atoms) <= SCORE_ONE,
        mean_score(atoms) == total_score(atoms) as int / atoms.len() as int,
{
    lemma_total_score_bound(atoms);
    let t = total_score(atoms) as int;
    let n = atoms.len() as int;
    assert(t / n <= 1_000_000) by (nonlinear_arith)
        requires
            0 <= t <= n * 1_000_000,
            n > 0,
    ;
}

impl Similarity {
    /// The score of the atom, in millionths.
    pub fn score(&self) -> (r: u64)
        ensures
            r == self@.score(),
            r <= SCORE_ONE,
    {
        proof {
            lemma_atom_score_bound(self@);
        }
        match self {
            Similarity::Discrete { kind: DiscreteSimilarity::Equivalent, .. } => 0,
            Similarity::Discrete { kind: DiscreteSimilarity::Subequal, .. } => SCORE_QUARTER,
            Similarity::Discrete { kind: DiscreteSimilarity::Different, .. } => SCORE_ONE,
            Similarity::Continuous { distance, length, .. } => {
                if *distance == 0 {
                    0
                } else if *distance >= *length {
                    SCORE_ONE
                } else {
                    let d: u128 = *distance as u128;
                    let l: u128 = *length as u128;
                    assert(d * 1_000_000 <= 0xffff_ffff_ffff_ffff * 1_000_000) by (nonlinear_arith)
                        requires
                            d <= 0xffff_ffff_ffff_ffff,
                    ;
                    let q: u128 = (d * 1_000_000) / l;
                    q as u64
                }
            },
        }
    }
}

/// The least number of single-character insertions, deletions and
/// replacements that turn `a` into `b`.
pub open spec fn edit_distance(a: Seq<char>, b: Seq<char>) -> nat
    decreases a.len() + b.len(),
{
    if a.len() == 0 {
        b.len()
    } else if b.len() == 0 {
        a.len()
    } else {
        let delete = edit_distance(a.drop_last(), b) + 1;
        let insert = edit_distance(a, b.drop_last()) + 1;
        let replace = edit_distance(a.drop_last(), b.drop_last()) + if a.last() == b.last() {
            0nat
        } else {
            1nat
        };
        if delete <= insert && delete <= replace {
            delete
        } else if insert <= replace {
            insert
        } else {
            replace
        }
    }
}

/// A text is no edit away from itself.
pub proof fn edit_distance_of_equal(a: Seq<char>)
    ensures
        edit_distance(a, a) == 0,
    decreases a.len(),
{
    if a.len() > 0 {
        edit_distance_of_equal(a.drop_last());
    }
}

/// Two texts are never further apart than the longer of them is long.
pub proof fn edit_distance_bound(a: Seq<char>, b: Seq<char>)
    ensures
        edit_distance(a, b) <= if a.len() >= b.len() {
            a.len()
        } else {
            b.len()
        },
    decreases a.len() + b.len(),
{
    if a.len() > 0 && b.len() > 0 {
        edit_distance_bound(a.drop_last(), b.drop_last());
    }
}

/// `levenshtein::levenshtein` of the crate `levenshtein`. Taken on trust:
/// that what it returns is the edit distance of the two strings, counted
/// in characters.
#[verifier::external_body]
fn levenshtein_distance(a: &str, b: &str) -> (d: usize)
    ensures
        d == edit_distance(a@, b@),
{
    levenshtein::levenshtein(a, b)
}

/// Where the last segment of `s` begins, given that the segment in hand
/// begins at `start` and the text before `i` is read. Segments are parted
/// by `::`, found from left to right.
pub open spec fn segment_start(s: Seq<char>, i: int, start: int) -> int
    decreases s.len() - i,
{
    if 0 <= i && i + 1 < s.len() {
        if s[i] == ':' && s[i + 1] == ':' {
            segment_start(s, i + 2, i + 2)
        } else {
            segment_start(s, i + 1, start)
        }
    } else {
        start
    }
}

/// What follows the last `::` of `s`; all of `s` where it holds none.
pub open spec fn last_segment(s: Seq<char>) -> Seq<char> {
    s.subrange(segment_start(s, 0, 0), s.len() as int)
}

/// The atom for a name of the query against a name of the candidate: the
/// edit distance to the candidate's last segment, over the byte length of
/// the longer of the two.
pub open spec fn symbol_atom(name: Seq<char>, symbol: Seq<char>) -> Atom {
    let segment = last_segment(symbol);
    Atom::Continuous {
        distance: edit_distance(name, segment),
        length: if byte_len(name) >= byte_len(segment) {
            byte_len(name)
        } else {
            byte_len(segment)
        },
        reason: "symbol name distance"@,
    }
}

/// Compares a name of the query with a name of the candidate.
pub fn compare_symbol(name: &str, symbol: &str) -> (r: Similarity)
    ensures
        r@ == symbol_atom(name@, symbol@),
{
    let chars = chars_of(symbol);
    let n = chars.len();
    let mut start: usize = 0;
    let mut i: usize = 0;
    while i < n && i + 1 < n
        invariant
            n == chars@.len(),
            chars@ == symbol@,
            0 <= start <= n,
            i <= n,
            segment_start(symbol@, 0, 0) == segment_start(symbol@, i as int, start as int),
        decreases n - i,
    {
        if chars[i] == ':' && chars[i + 1] == ':' {
            i = i + 2;
            start = i;
        } else {
            i = i + 1;
        }
    }
    let segment = text_of(chars.as_slice(), start, n);
    let distance = levenshtein_distance(name, segment.as_str());
    let a = byte_count(name);
    let b = byte_count(segment.as_str());
    let reason = "symbol name distance".to_string();
    Similarity::Continuous {
        distance,
        length: if a >= b {
            a
        } else {
            b
        },
        reason,
    }
}

/// What the generics of a candidate stand for: the name of each generic
/// met so far, and the query type that was put in its place.
pub type Bindings = Map<Seq<char>, TypeView>;

/// The bindings that a list of entries makes; a later entry overrides.
pub open spec fn bindings_of(entries: Seq<(&String, &Type)>) -> Bindings
    decreases entries.len(),
{
    if entries.len() == 0 {
        Map::empty()
    } else {
        bindings_of(entries.drop_last()).insert(entries.last().0@, entries.last().1@)
    }
}

/// The substitution of one candidate comparison. It starts empty for each
/// candidate.
pub struct Substitution<'a> {
    entries: Vec<(&'a String, &'a Type)>,
}

impl<'a> View for Substitution<'a> {
    type V = Bindings;

    closed spec fn view(&self) -> Bindings {
        bindings_of(self.entries@)
    }
}

impl<'a> Substitution<'a> {
    /// A substitution without bindings.
    pub fn new() -> (r: Self)
        ensures
            r@ == Map::<Seq<char>, TypeView>::empty(),
    {
        Substitution { entries: Vec::new() }
    }

    /// The query type bound to `name`, if any.
    pub fn get(&self, name: &str) -> (r: Option<&'a Type>)
        ensures
            match r {
                Some(t) => self@.contains_key(name@) && self@[name@] == t@,
                None => !self@.contains_key(name@),
            },
    {
        let mut i: usize = self.entries.len();
        assert(self.entries@.take(i as int) == self.entries@);
        while i > 0
            invariant
                i <= self.entries.len(),
                self@.contains_key(name@) <==> bindings_of(
                    self.entries@.take(i as int),
                ).contains_key(name@),
                self@.contains_key(name@) ==> self@[name@] == bindings_of(
                    self.entries@.take(i as int),
                )[name@],
            decreases i,
        {
            i = i - 1;
            assert(self.entries@.take(i + 1).drop_last() == self.entries@.take(i as int));
            let e = &self.entries[i];
            if same_text(e.0.as_str(), name) {
                return Some(e.1);
            }
        }
        None
    }

    /// Binds `name` to `ty`.
    pub fn insert(&mut self, name: &'a String, ty: &'a Type)
        ensures
            final(self)@ == old(self)@.insert(name@, ty@),
    {
        self.entries.push((name, ty));
        assert(self.entries@.drop_last() == old(self).entries@);
    }
}

/// A discrete atom.
pub open spec fn discrete(kind: DiscreteSimilarity, reason: Seq<char>) -> Atom {
    Atom::Discrete { kind, reason }
}

/// `n` times the atom `a`.
pub open spec fn repeated(a: Atom, n: nat) -> Seq<Atom> {
    Seq::new(n, |i: int| a)
}

/// True of the candidate generic `Self`.
pub open spec fn is_self(c: types::Type) -> bool {
    c matches types::Type::Generic(n) && n@ == "Self"@
}

/// True of a pointer or reference on the candidate side.
pub open spec fn wraps(c: types::Type) -> bool {
    c is RawPointer || c is BorrowedRef
}

/// What a candidate pointer or reference points to.
pub open spec fn wrapped(c: types::Type) -> types::Type {
    match c {
        types::Type::RawPointer { type_, .. } => *type_,
        types::Type::BorrowedRef { type_, .. } => *type_,
        _ => c,
    }
}

/// Whether a candidate pointer or reference is mutable.
pub open spec fn wrapped_mutably(c: types::Type) -> bool {
    match c {
        types::Type::RawPointer { is_mutable, .. } => is_mutable,
        types::Type::BorrowedRef { is_mutable, .. } => is_mutable,
        _ => false,
    }
}

/// The candidate type behind all pointers and references.
pub open spec fn candidate_pointee(c: types::Type) -> types::Type
    decreases c,
{
    match c {
        types::Type::RawPointer { type_, .. } => candidate_pointee(*type_),
        types::Type::BorrowedRef { type_, .. } => candidate_pointee(*type_),
        _ => c,
    }
}

/// True of a pointer or reference on the query side.
pub open spec fn query_wraps(q: TypeView) -> bool {
    q is RawPointer || q is BorrowedRef
}

/// What a query pointer or reference points to.
pub open spec fn query_wrapped(q: TypeView) -> TypeView {
    match q {
        TypeView::RawPointer { type_, .. } => *type_,
        TypeView::BorrowedRef { type_, .. } => *type_,
        _ => q,
    }
}

/// Whether a query pointer or reference is mutable.
pub open spec fn query_wrapped_mutably(q: TypeView) -> bool {
    match q {
        TypeView::RawPointer { mutable, .. } => mutable,
        TypeView::BorrowedRef { mutable, .. } => mutable,
        _ => false,
    }
}

/// The type that `Self` stands for in a comparison, where there is one
/// that can be used: a type bound to `Self` that is itself `Self` behind
/// pointers and references would be unfolded without end, and counts as
/// none.
pub open spec fn usable_self(this: Option<types::Type>) -> Option<types::Type> {
    match this {
        Some(t) => if is_self(candidate_pointee(t)) {
            None
        } else {
            Some(t)
        },
        None => None,
    }
}

/// The value behind an optional reference.
pub open spec fn owned(t: Option<&types::Type>) -> Option<types::Type> {
    match t {
        Some(r) => Some(*r),
        None => None,
    }
}

/// One, as long as the candidate may still be unfolded to what `Self`
/// stands for without the query getting smaller; zero after that.
pub open spec fn unfoldings_left(c: types::Type, this: Option<types::Type>) -> nat {
    if is_self(candidate_pointee(c)) && usable_self(this) is Some {
        1
    } else {
        0
    }
}

/// The atoms of the query type `q` against the candidate type `c`, and the
/// bindings after it. `this` is what `Self` is bound to around the
/// candidate, `s` the bindings before.
pub open spec fn type_atoms(
    q: TypeView,
    c: types::Type,
    this: Option<types::Type>,
    s: Bindings,
) -> (Seq<Atom>, Bindings)
    decreases q, unfoldings_left(c, this), c,
{
    if is_self(c) {
        match usable_self(this) {
            Some(t) => type_atoms(q, t, this, s),
            None => (
                seq![discrete(DiscreteSimilarity::Subequal, "unbound Self in where-predicate"@)],
                s,
            ),
        }
    } else if c is Generic {
        let name = c->Generic_0@;
        if s.contains_key(name) {
            if s[name] == q {
                (
                    seq![
                        discrete(DiscreteSimilarity::Equivalent, "generic matches substitution"@),
                    ],
                    s,
                )
            } else {
                (
                    seq![
                        discrete(
                            DiscreteSimilarity::Different,
                            "generic differs from substitution"@,
                        ),
                    ],
                    s,
                )
            }
        } else {
            (
                seq![discrete(DiscreteSimilarity::Subequal, "generic substituted"@)],
                s.insert(name, q),
            )
        }
    } else if q is Tuple && c is Tuple {
        let qs = q->Tuple_0;
        let cs = c->Tuple_0@;
        let (atoms, bindings_then) = tuple_atoms(qs, cs, 0, this, s);
        let missing = if qs.len() >= cs.len() {
            qs.len() - cs.len()
        } else {
            cs.len() - qs.len()
        };
        (
            atoms + seq![discrete(DiscreteSimilarity::Equivalent, "tuple shape"@)] + repeated(
                discrete(DiscreteSimilarity::Different, "tuple length differs"@),
                missing as nat,
            ),
            bindings_then,
        )
    } else if q is Slice && c is Slice {
        let head = seq![discrete(DiscreteSimilarity::Equivalent, "slice type"@)];
        match q->Slice_0 {
            Some(element) => {
                let (atoms, bindings_then) = type_atoms(*element, *c->Slice_0, this, s);
                (head + atoms, bindings_then)
            },
            None => (head, s),
        }
    } else if query_wraps(q) && wraps(c) {
        let (atoms, bindings_then) = type_atoms(query_wrapped(q), wrapped(c), this, s);
        if query_wrapped_mutably(q) == wrapped_mutably(c) {
            (atoms, bindings_then)
        } else {
            (atoms + seq![discrete(DiscreteSimilarity::Subequal, "mutability differs"@)], bindings_then)
        }
    } else if wraps(c) {
        let (atoms, bindings_then) = type_atoms(q, wrapped(c), this, s);
        (atoms + seq![discrete(DiscreteSimilarity::Subequal, "pointer/reference wrapper"@)], bindings_then)
    } else if query_wraps(q) {
        let (atoms, bindings_then) = type_atoms(query_wrapped(q), c, this, s);
        (atoms + seq![discrete(DiscreteSimilarity::Subequal, "pointer/reference wrapper"@)], bindings_then)
    } else if q is UnresolvedPath && c is ResolvedPath {
        let head = seq![symbol_atom(q->UnresolvedPath_name, c->ResolvedPath_0.path@)];
        match (q->UnresolvedPath_args, c->ResolvedPath_0.args) {
            (Some(qs), Some(boxed)) => match *boxed {
                types::GenericArgs::AngleBracketed { args, .. } => {
                    let (atoms, bindings_then) = args_atoms(qs, args@, 0, this, s);
                    (head + atoms, bindings_then)
                },
                _ => (head, s),
            },
            (Some(qs), None) => (
                head + repeated(
                    discrete(DiscreteSimilarity::Different, "missing generic args"@),
                    qs.len(),
                ),
                s,
            ),
            (None, _) => (head, s),
        }
    } else if q is Primitive && c is Primitive {
        if q->Primitive_0.spelling() == c->Primitive_0@ {
            (seq![discrete(DiscreteSimilarity::Equivalent, "primitive matches"@)], s)
        } else {
            (seq![discrete(DiscreteSimilarity::Different, "primitive differs"@)], s)
        }
    } else {
        (seq![discrete(DiscreteSimilarity::Different, "type mismatch"@)], s)
    }
}

/// The atoms of the elements of two tuples from position `i` on, pair by
/// pair as far as both reach. A wildcard on the query side gives none.
pub open spec fn tuple_atoms(
    qs: Seq<Option<TypeView>>,
    cs: Seq<types::Type>,
    i: int,
    this: Option<types::Type>,
    s: Bindings,
) -> (Seq<Atom>, Bindings)
    decreases qs, qs.len() - i, cs,
{
    if 0 <= i < qs.len() && i < cs.len() {
        let (atoms, bindings_then) = match qs[i] {
            Some(q) => type_atoms(q, cs[i], this, s),
            None => (Seq::<Atom>::empty(), s),
        };
        let (rest, bindings_after) = tuple_atoms(qs, cs, i + 1, this, bindings_then);
        (atoms + rest, bindings_after)
    } else {
        (Seq::<Atom>::empty(), s)
    }
}

/// The atoms of two lists of generic arguments from position `i` on, pair
/// by pair as far as both reach. A candidate argument that is no type
/// counts as missing; a wildcard on the query side gives no atom.
pub open spec fn args_atoms(
    qs: Seq<Option<TypeView>>,
    cs: Seq<types::GenericArg>,
    i: int,
    this: Option<types::Type>,
    s: Bindings,
) -> (Seq<Atom>, Bindings)
    decreases qs, qs.len() - i, cs,
{
    if 0 <= i < qs.len() && i < cs.len() {
        let (atoms, bindings_then) = match (qs[i], cs[i]) {
            (Some(q), types::GenericArg::Type(t)) => type_atoms(q, t, this, s),
            (Some(_), _) => (
                seq![discrete(DiscreteSimilarity::Different, "missing generic arg"@)],
                s,
            ),
            (None, _) => (Seq::<Atom>::empty(), s),
        };
        let (rest, bindings_after) = args_atoms(qs, cs, i + 1, this, bindings_then);
        (atoms + rest, bindings_after)
    } else {
        (Seq::<Atom>::empty(), s)
    }
}

/// Appends `s` to `sims`.
fn push_atom(sims: &mut Vec<Similarity>, s: Similarity)
    ensures
        atoms_of(final(sims)@) == atoms_of(old(sims)@).push(s@),
{
    sims.push(s);
}

/// Appends a discrete atom to `sims`.
fn push_discrete(sims: &mut Vec<Similarity>, kind: DiscreteSimilarity, reason: &str)
    ensures
        atoms_of(final(sims)@) == atoms_of(old(sims)@).push(discrete(kind, reason@)),
{
    push_atom(sims, Similarity::Discrete { kind, reason: reason.to_string() });
}

/// Appends `n` times the same discrete atom to `sims`.
fn push_repeated(sims: &mut Vec<Similarity>, kind: DiscreteSimilarity, reason: &str, n: usize)
    ensures
        atoms_of(final(sims)@) == atoms_of(old(sims)@) + repeated(discrete(kind, reason@), n as nat),
{
    let mut i: usize = 0;
    while i < n
        invariant
            i <= n,
            atoms_of(sims@) == atoms_of(old(sims)@) + repeated(discrete(kind, reason@), i as nat),
        decreases n - i,
    {
        push_discrete(sims, kind, reason);
        i = i + 1;
    }
}

/// True if `t` is the generic `Self` behind any pointers and references.
fn leads_to_self(t: &types::Type) -> (r: bool)
    ensures
        r == is_self(candidate_pointee(*t)),
    decreases t,
{
    match t {
        types::Type::RawPointer { type_, .. } => leads_to_self(type_),
        types::Type::BorrowedRef { type_, .. } => leads_to_self(type_),
        types::Type::Generic(name) => same_text(name.as_str(), "Self"),
        _ => false,
    }
}

/// Compares a built-in of the query with the name of a built-in of the
/// candidate.
pub fn compare_primitive(p: PrimitiveType, name: &str) -> (r: Similarity)
    ensures
        r@ == if p.spelling() == name@ {
            discrete(DiscreteSimilarity::Equivalent, "primitive matches"@)
        } else {
            discrete(DiscreteSimilarity::Different, "primitive differs"@)
        },
{
    if same_text(p.as_str(), name) {
        Similarity::Discrete {
            kind: DiscreteSimilarity::Equivalent,
            reason: "primitive matches".to_string(),
        }
    } else {
        Similarity::Discrete {
            kind: DiscreteSimilarity::Different,
            reason: "primitive differs".to_string(),
        }
    }
}

/// Compares the query type `q` with the candidate type `c` and appends the
/// atoms to `sims`. `this` is what `Self` is bound to around the candidate.
pub fn compare_type_into<'a>(
    q: &'a Type,
    c: &'a types::Type,
    this: Option<&'a types::Type>,
    substs: &mut Substitution<'a>,
    sims: &mut Vec<Similarity>,
)
    ensures
        atoms_of(final(sims)@) == atoms_of(old(sims)@) + type_atoms(
            q@,
            *c,
            owned(this),
            old(substs)@,
        ).0,
        final(substs)@ == type_atoms(q@, *c, owned(this), old(substs)@).1,
    decreases q, unfoldings_left(*c, owned(this)), c,
{
    let ghost before = atoms_of(sims@);
    let ghost bindings_at_start = substs@;
    if let types::Type::Generic(name) = c {
        if same_text(name.as_str(), "Self") {
            let usable = match this {
                Some(t) => if leads_to_self(t) {
                    None
                } else {
                    Some(t)
                },
                None => None,
            };
            match usable {
                Some(t) => {
                    compare_type_into(q, t, this, substs, sims);
                },
                None => {
                    push_discrete(
                        sims,
                        DiscreteSimilarity::Subequal,
                        "unbound Self in where-predicate",
                    );
                },
            }
        } else {
            match substs.get(name.as_str()) {
                Some(bound) => {
                    if q.same(bound) {
                        push_discrete(
                            sims,
                            DiscreteSimilarity::Equivalent,
                            "generic matches substitution",
                        );
                    } else {
                        push_discrete(
                            sims,
                            DiscreteSimilarity::Different,
                            "generic differs from substitution",
                        );
                    }
                },
                None => {
                    substs.insert(name, q);
                    push_discrete(sims, DiscreteSimilarity::Subequal, "generic substituted");
                },
            }
        }
        return ;
    }
    if let (Type::Tuple(qs), types::Type::Tuple(cs)) = (q, c) {
        let ghost qv = q@->Tuple_0;
        let mut i: usize = 0;
        while i < qs.len() && i < cs.len()
            invariant
                i <= qs.len(),
                i <= cs.len(),
                *q == Type::Tuple(*qs),
                *c == types::Type::Tuple(*cs),
                qv == q@->Tuple_0,
                qv.len() == qs.len(),
                atoms_of(sims@) + tuple_atoms(qv, cs@, i as int, owned(this), substs@).0 == before
                    + tuple_atoms(qv, cs@, 0, owned(this), bindings_at_start).0,
                tuple_atoms(qv, cs@, i as int, owned(this), substs@).1 == tuple_atoms(
                    qv,
                    cs@,
                    0,
                    owned(this),
                    bindings_at_start,
                ).1,
            decreases qs.len() - i,
        {
            if let Some(element) = &qs[i] {
                compare_type_into(element, &cs[i], this, substs, sims);
            }
            i = i + 1;
        }
        push_discrete(sims, DiscreteSimilarity::Equivalent, "tuple shape");
        let missing = if qs.len() >= cs.len() {
            qs.len() - cs.len()
        } else {
            cs.len() - qs.len()
        };
        push_repeated(sims, DiscreteSimilarity::Different, "tuple length differs", missing);
        return ;
    }
    if let (Type::Slice(qe), types::Type::Slice(ce)) = (q, c) {
        push_discrete(sims, DiscreteSimilarity::Equivalent, "slice type");
        if let Some(element) = qe {
            compare_type_into(element, ce, this, substs, sims);
        }
        return ;
    }
    let q_inner: Option<(bool, &'a Type)> = match q {
        Type::RawPointer { mutable, type_ } => Some((*mutable, type_)),
        Type::BorrowedRef { mutable, type_ } => Some((*mutable, type_)),
        _ => None,
    };
    let c_inner: Option<(bool, &'a types::Type)> = match c {
        types::Type::RawPointer { is_mutable, type_ } => Some((*is_mutable, type_)),
        types::Type::BorrowedRef { is_mutable, type_, .. } => Some((*is_mutable, type_)),
        _ => None,
    };
    match (q_inner, c_inner) {
        (Some((q_mutable, q_pointee)), Some((c_mutable, c_pointee))) => {
            compare_type_into(q_pointee, c_pointee, this, substs, sims);
            if q_mutable != c_mutable {
                push_discrete(sims, DiscreteSimilarity::Subequal, "mutability differs");
            }
        },
        (None, Some((_, c_pointee))) => {
            compare_type_into(q, c_pointee, this, substs, sims);
            push_discrete(sims, DiscreteSimilarity::Subequal, "pointer/reference wrapper");
        },
        (Some((_, q_pointee)), None) => {
            compare_type_into(q_pointee, c, this, substs, sims);
            push_discrete(sims, DiscreteSimilarity::Subequal, "pointer/reference wrapper");
        },
        (None, None) => {
            compare_plain_into(q, c, this, substs, sims);
        },
    }
}

/// The part of [`compare_type_into`] for a query type and a candidate type
/// that are neither generics of the candidate, nor pointers or references,
/// nor two tuples or two slices.
fn compare_plain_into<'a>(
    q: &'a Type,
    c: &'a types::Type,
    this: Option<&'a types::Type>,
    substs: &mut Substitution<'a>,
    sims: &mut Vec<Similarity>,
)
    requires
        !(c is Generic),
        !(q is Tuple && c is Tuple),
        !(q is Slice && c is Slice),
        !wraps(*c),
        !query_wraps(q@),
    ensures
        atoms_of(final(sims)@) == atoms_of(old(sims)@) + type_atoms(
            q@,
            *c,
            owned(this),
            old(substs)@,
        ).0,
        final(substs)@ == type_atoms(q@, *c, owned(this), old(substs)@).1,
    decreases q, unfoldings_left(*c, owned(this)), c, 0nat,
{
    let ghost before = atoms_of(sims@);
    let ghost bindings_at_start = substs@;
    match (q, c) {
        (Type::UnresolvedPath { name, args }, types::Type::ResolvedPath(path)) => {
            push_atom(sims, compare_symbol(name.as_str(), path.path.as_str()));
            let ghost head = seq![symbol_atom(name@, path.path@)];
            match (args, &path.args) {
                (Some(q_args), Some(c_args)) => {
                    let GenericArgs::AngleBracketed { args: qs } = &**q_args;
                    if let types::GenericArgs::AngleBracketed { args: cs, .. } = &**c_args {
                        let ghost qv = q_args@;
                        let mut i: usize = 0;
                        while i < qs.len() && i < cs.len()
                            invariant
                                i <= qs.len(),
                                i <= cs.len(),
                                decreases_to!(q => qs),
                                qv == q_args@,
                                qv.len() == qs.len(),
                                forall|j: int|
                                    0 <= j < qs.len() ==> #[trigger] qv[j] == (match qs@[j] {
                                        Some(GenericArg::Type(t)) => Some(t@),
                                        None => None,
                                    }),
                                atoms_of(sims@) + args_atoms(
                                    qv,
                                    cs@,
                                    i as int,
                                    owned(this),
                                    substs@,
                                ).0 == before + head + args_atoms(qv, cs@, 0, owned(this), bindings_at_start).0,
                                args_atoms(qv, cs@, i as int, owned(this), substs@).1 == args_atoms(
                                    qv,
                                    cs@,
                                    0,
                                    owned(this),
                                    bindings_at_start,
                                ).1,
                            decreases qs.len() - i,
                        {
                            match (&qs[i], &cs[i]) {
                                (Some(q_arg), types::GenericArg::Type(t)) => {
                                    match q_arg {
                                        GenericArg::Type(e) => {
                                            compare_type_into(e, t, this, substs, sims);
                                        },
                                    }
                                },
                                (Some(_), _) => {
                                    push_discrete(
                                        sims,
                                        DiscreteSimilarity::Different,
                                        "missing generic arg",
                                    );
                                },
                                (None, _) => {},
                            }
                            i = i + 1;
                        }
                    } else {
                        assert(atoms_of(sims@) == before + type_atoms(q@, *c, owned(this), bindings_at_start).0);
                    }
                },
                (Some(q_args), None) => {
                    let GenericArgs::AngleBracketed { args: qs } = &**q_args;
                    push_repeated(
                        sims,
                        DiscreteSimilarity::Different,
                        "missing generic args",
                        qs.len(),
                    );
                    assert(q_args@.len() == qs.len());
                },
                (None, _) => {
                },
            }
        },
        (Type::Primitive(p), types::Type::Primitive(name)) => {
            push_atom(sims, compare_primitive(*p, name.as_str()));
        },
        _ => {
            push_discrete(sims, DiscreteSimilarity::Different, "type mismatch");
        },
    }
}

impl Type {
    /// The atoms of this query type against the candidate type `c`.
    pub fn compare<'a>(
        &'a self,
        c: &'a types::Type,
        this: Option<&'a types::Type>,
        substs: &mut Substitution<'a>,
    ) -> (r: Vec<Similarity>)
        ensures
            atoms_of(r@) == type_atoms(self@, *c, owned(this), old(substs)@).0,
            final(substs)@ == type_atoms(self@, *c, owned(this), old(substs)@).1,
    {
        let mut sims: Vec<Similarity> = Vec::new();
        compare_type_into(self, c, this, substs, &mut sims);
        sims
    }
}

/// The first type that a where-predicate from position `i` on equates
/// `Self` with.
pub open spec fn first_self_binding(preds: Seq<types::WherePredicate>, i: int) -> Option<
    types::Type,
>
    decreases preds.len() - i,
{
    if 0 <= i < preds.len() {
        match preds[i] {
            types::WherePredicate::EqPredicate {
                lhs: types::Type::Generic(name),
                rhs: types::Term::Type(t),
            } => if name@ == "Self"@ {
                Some(t)
            } else {
                first_self_binding(preds, i + 1)
            },
            _ => first_self_binding(preds, i + 1),
        }
    } else {
        None
    }
}

/// What `Self` is bound to for a candidate function with the generics
/// `own`, inside the impl `impl_` if there is one: the first binding among
/// the where-predicates of the impl, then the type that receives the impl,
/// then the first binding among the function's own where-predicates.
pub open spec fn bound_self(impl_: Option<&types::Impl>, own: &types::Generics) -> Option<
    types::Type,
> {
    match impl_ {
        Some(i) => match first_self_binding(i.generics.where_predicates@, 0) {
            Some(t) => Some(t),
            None => Some(i.for_),
        },
        None => first_self_binding(own.where_predicates@, 0),
    }
}

/// The number of qualifiers in `a` that are not in `b`.
pub open spec fn count_beyond(a: Set<Qualifier>, b: Set<Qualifier>) -> nat {
    let of = |q: Qualifier|
        if a.contains(q) && !b.contains(q) {
            1nat
        } else {
            0nat
        };
    of(Qualifier::Async) + of(Qualifier::Unsafe) + of(Qualifier::Const)
}

/// The atoms of a return clause against the return type of a candidate.
pub open spec fn ret_atoms(
    o: FnRetTyView,
    output: Option<types::Type>,
    this: Option<types::Type>,
    s: Bindings,
) -> (Seq<Atom>, Bindings) {
    match (o, output) {
        (FnRetTyView::Return(q), Some(c)) => type_atoms(q, c, this, s),
        (FnRetTyView::DefaultReturn, None) => (
            seq![discrete(DiscreteSimilarity::Equivalent, "unit return"@)],
            s,
        ),
        _ => (seq![discrete(DiscreteSimilarity::Different, "return type differs"@)], s),
    }
}

/// The atoms of one parameter of the query against one of the candidate:
/// the name, where the query gives one, then the type, where it gives one.
pub open spec fn arg_atoms(
    a: ArgumentView,
    c: (String, types::Type),
    this: Option<types::Type>,
    s: Bindings,
) -> (Seq<Atom>, Bindings) {
    let head = match a.name {
        Some(n) => seq![symbol_atom(n, c.0@)],
        None => Seq::<Atom>::empty(),
    };
    match a.ty {
        Some(t) => {
            let (atoms, bindings_then) = type_atoms(t, c.1, this, s);
            (head + atoms, bindings_then)
        },
        None => (head, s),
    }
}

/// The atoms of the parameters from position `i` on, pair by pair as far
/// as both lists reach.
pub open spec fn inputs_atoms(
    qs: Seq<ArgumentView>,
    cs: Seq<(String, types::Type)>,
    i: int,
    this: Option<types::Type>,
    s: Bindings,
) -> (Seq<Atom>, Bindings)
    decreases qs.len() - i,
{
    if 0 <= i < qs.len() && i < cs.len() {
        let (atoms, bindings_then) = arg_atoms(qs[i], cs[i], this, s);
        let (rest, bindings_after) = inputs_atoms(qs, cs, i + 1, this, bindings_then);
        (atoms + rest, bindings_after)
    } else {
        (Seq::<Atom>::empty(), s)
    }
}

/// The atoms that close a comparison of two parameter lists of the lengths
/// `n` and `m`.
pub open spec fn arity_atoms(n: nat, m: nat) -> Seq<Atom> {
    if n != m {
        repeated(
            discrete(DiscreteSimilarity::Different, "argument count differs"@),
            (if n >= m {
                n - m
            } else {
                m - n
            }) as nat,
        )
    } else if n == 0 {
        seq![discrete(DiscreteSimilarity::Equivalent, "no arguments"@)]
    } else {
        Seq::<Atom>::empty()
    }
}

/// The atoms of a query's parameters and return clause against the
/// signature of a candidate.
pub open spec fn decl_atoms(
    d: FnDeclView,
    sig: &types::FunctionSignature,
    this: Option<types::Type>,
    s: Bindings,
) -> (Seq<Atom>, Bindings) {
    let (first, bindings_then) = match d.inputs {
        Some(qs) => {
            let (atoms, bindings_then) = inputs_atoms(qs, sig.inputs@, 0, this, s);
            (atoms + arity_atoms(qs.len(), sig.inputs@.len()), bindings_then)
        },
        None => (Seq::<Atom>::empty(), s),
    };
    match d.output {
        Some(o) => {
            let (atoms, bindings_after) = ret_atoms(o, sig.output, this, bindings_then);
            (first + atoms, bindings_after)
        },
        None => (first, bindings_then),
    }
}

/// The atoms of the function part of a query against a candidate function:
/// one for each qualifier that the query has and the candidate lacks, one
/// for each that the candidate has and the query lacks, then those of the
/// declaration.
pub open spec fn function_atoms(
    f: FunctionView,
    c: &types::Function,
    impl_: Option<&types::Impl>,
    s: Bindings,
) -> (Seq<Atom>, Bindings) {
    let head = repeated(
        discrete(DiscreteSimilarity::Different, "missing qualifier"@),
        count_beyond(f.qualifiers, c.header.qualifier_set()),
    ) + repeated(
        discrete(DiscreteSimilarity::Different, "extra qualifier"@),
        count_beyond(c.header.qualifier_set(), f.qualifiers),
    );
    let (atoms, bindings_then) = decl_atoms(f.decl, &c.sig, bound_self(impl_, &c.generics), s);
    (head + atoms, bindings_then)
}

/// The atoms of the name of a query, if it has one, against the name of
/// an item.
pub open spec fn name_atoms(name: Option<Seq<char>>, item: &types::Item) -> Seq<Atom> {
    match (name, item.name) {
        (Some(n), Some(i)) => seq![symbol_atom(n, i@)],
        (Some(_), None) => seq![discrete(DiscreteSimilarity::Different, "missing item name"@)],
        _ => Seq::<Atom>::empty(),
    }
}

/// The atoms of the function part of a query against what an item is: a
/// query for a function finds functions only.
pub open spec fn kind_atoms(
    f: FunctionView,
    inner: &types::ItemEnum,
    impl_: Option<&types::Impl>,
    s: Bindings,
) -> (Seq<Atom>, Bindings) {
    match *inner {
        types::ItemEnum::Function(c) => function_atoms(f, &c, impl_, s),
        _ => (seq![discrete(DiscreteSimilarity::Different, "query expects function"@)], s),
    }
}

/// The atoms of a query against an item: the name, where the query gives
/// one, then the function part, where it gives one.
pub open spec fn query_atoms(
    q: QueryView,
    item: &types::Item,
    impl_: Option<&types::Impl>,
    s: Bindings,
) -> (Seq<Atom>, Bindings) {
    let head = name_atoms(q.name, item);
    match q.kind {
        Some(f) => {
            let (atoms, bindings_then) = kind_atoms(f, &item.inner, impl_, s);
            (head + atoms, bindings_then)
        },
        None => (head, s),
    }
}

/// The first type that a where-predicate of `preds` equates `Self` with.
fn find_self_binding<'a>(preds: &'a Vec<types::WherePredicate>) -> (r: Option<&'a types::Type>)
    ensures
        owned(r) == first_self_binding(preds@, 0),
{
    let mut i: usize = 0;
    while i < preds.len()
        invariant
            i <= preds.len(),
            first_self_binding(preds@, 0) == first_self_binding(preds@, i as int),
        decreases preds.len() - i,
    {
        if let types::WherePredicate::EqPredicate {
            lhs: types::Type::Generic(name),
            rhs: types::Term::Type(t),
        } = &preds[i] {
            if same_text(name.as_str(), "Self") {
                return Some(t);
            }
        }
        i = i + 1;
    }
    None
}

/// What `Self` is bound to for a candidate function.
pub fn self_binding<'a>(impl_: Option<&'a types::Impl>, own: &'a types::Generics) -> (r: Option<
    &'a types::Type,
>)
    ensures
        owned(r) == bound_self(impl_, own),
{
    match impl_ {
        Some(i) => match find_self_binding(&i.generics.where_predicates) {
            Some(t) => Some(t),
            None => Some(&i.for_),
        },
        None => find_self_binding(&own.where_predicates),
    }
}

impl FnRetTy {
    /// Compares the return clause with the return type of a candidate.
    pub fn compare<'a>(
        &'a self,
        output: &'a Option<types::Type>,
        this: Option<&'a types::Type>,
        substs: &mut Substitution<'a>,
    ) -> (r: Vec<Similarity>)
        ensures
            atoms_of(r@) == ret_atoms(self@, *output, owned(this), old(substs)@).0,
            final(substs)@ == ret_atoms(self@, *output, owned(this), old(substs)@).1,
    {
        let mut sims: Vec<Similarity> = Vec::new();
        self.compare_into(output, this, substs, &mut sims);
        sims
    }

    fn compare_into<'a>(
        &'a self,
        output: &'a Option<types::Type>,
        this: Option<&'a types::Type>,
        substs: &mut Substitution<'a>,
        sims: &mut Vec<Similarity>,
    )
        ensures
            atoms_of(final(sims)@) == atoms_of(old(sims)@) + ret_atoms(
                self@,
                *output,
                owned(this),
                old(substs)@,
            ).0,
            final(substs)@ == ret_atoms(self@, *output, owned(this), old(substs)@).1,
    {
        match (self, output) {
            (FnRetTy::Return(q), Some(c)) => {
                compare_type_into(q, c, this, substs, sims);
            },
            (FnRetTy::DefaultReturn, None) => {
                push_discrete(sims, DiscreteSimilarity::Equivalent, "unit return");
            },
            _ => {
                push_discrete(sims, DiscreteSimilarity::Different, "return type differs");
            },
        }
    }
}

impl Argument {
    /// Compares the parameter with a parameter of a candidate.
    pub fn compare<'a>(
        &'a self,
        c: &'a (String, types::Type),
        this: Option<&'a types::Type>,
        substs: &mut Substitution<'a>,
    ) -> (r: Vec<Similarity>)
        ensures
            atoms_of(r@) == arg_atoms(self@, *c, owned(this), old(substs)@).0,
            final(substs)@ == arg_atoms(self@, *c, owned(this), old(substs)@).1,
    {
        let mut sims: Vec<Similarity> = Vec::new();
        self.compare_into(c, this, substs, &mut sims);
        sims
    }

    fn compare_into<'a>(
        &'a self,
        c: &'a (String, types::Type),
        this: Option<&'a types::Type>,
        substs: &mut Substitution<'a>,
        sims: &mut Vec<Similarity>,
    )
        ensures
            atoms_of(final(sims)@) == atoms_of(old(sims)@) + arg_atoms(
                self@,
                *c,
                owned(this),
                old(substs)@,
            ).0,
            final(substs)@ == arg_atoms(self@, *c, owned(this), old(substs)@).1,
    {
        if let Some(name) = &self.name {
            push_atom(sims, compare_symbol(name.as_str(), c.0.as_str()));
        }
        if let Some(ty) = &self.ty {
            compare_type_into(ty, &c.1, this, substs, sims);
        }
    }
}

impl FnDecl {
    /// Compares the declaration with the signature of a candidate.
    pub fn compare<'a>(
        &'a self,
        sig: &'a types::FunctionSignature,
        this: Option<&'a types::Type>,
        substs: &mut Substitution<'a>,
    ) -> (r: Vec<Similarity>)
        ensures
            atoms_of(r@) == decl_atoms(self@, sig, owned(this), old(substs)@).0,
            final(substs)@ == decl_atoms(self@, sig, owned(this), old(substs)@).1,
    {
        let mut sims: Vec<Similarity> = Vec::new();
        self.compare_into(sig, this, substs, &mut sims);
        sims
    }

    fn compare_into<'a>(
        &'a self,
        sig: &'a types::FunctionSignature,
        this: Option<&'a types::Type>,
        substs: &mut Substitution<'a>,
        sims: &mut Vec<Similarity>,
    )
        ensures
            atoms_of(final(sims)@) == atoms_of(old(sims)@) + decl_atoms(
                self@,
                sig,
                owned(this),
                old(substs)@,
            ).0,
            final(substs)@ == decl_atoms(self@, sig, owned(this), old(substs)@).1,
    {
        let ghost before = atoms_of(sims@);
        let ghost bindings_at_start = substs@;
        if let Some(inputs) = &self.inputs {
            let ghost qv = inputs@.map_values(|a: Argument| a@);
            let cs = &sig.inputs;
            let mut i: usize = 0;
            while i < inputs.len() && i < cs.len()
                invariant
                    i <= inputs.len(),
                    i <= cs.len(),
                    qv == inputs@.map_values(|a: Argument| a@),
                    atoms_of(sims@) + inputs_atoms(qv, cs@, i as int, owned(this), substs@).0 == before
                        + inputs_atoms(qv, cs@, 0, owned(this), bindings_at_start).0,
                    inputs_atoms(qv, cs@, i as int, owned(this), substs@).1 == inputs_atoms(
                        qv,
                        cs@,
                        0,
                        owned(this),
                        bindings_at_start,
                    ).1,
                decreases inputs.len() - i,
            {
                inputs[i].compare_into(&cs[i], this, substs, sims);
                i = i + 1;
            }
            if inputs.len() != cs.len() {
                let missing = if inputs.len() >= cs.len() {
                    inputs.len() - cs.len()
                } else {
                    cs.len() - inputs.len()
                };
                push_repeated(
                    sims,
                    DiscreteSimilarity::Different,
                    "argument count differs",
                    missing,
                );
            } else if inputs.len() == 0 {
                push_discrete(sims, DiscreteSimilarity::Equivalent, "no arguments");
            }
        }
        if let Some(output) = &self.output {
            output.compare_into(&sig.output, this, substs, sims);
        }
    }
}

impl Function {
    /// Compares the function part of a query with a candidate function
    /// that stands in the impl `impl_`, if there is one.
    pub fn compare<'a>(
        &'a self,
        c: &'a types::Function,
        impl_: Option<&'a types::Impl>,
        substs: &mut Substitution<'a>,
    ) -> (r: Vec<Similarity>)
        ensures
            atoms_of(r@) == function_atoms(self@, c, impl_, old(substs)@).0,
            final(substs)@ == function_atoms(self@, c, impl_, old(substs)@).1,
    {
        let mut sims: Vec<Similarity> = Vec::new();
        self.compare_into(c, impl_, substs, &mut sims);
        sims
    }

    fn compare_into<'a>(
        &'a self,
        c: &'a types::Function,
        impl_: Option<&'a types::Impl>,
        substs: &mut Substitution<'a>,
        sims: &mut Vec<Similarity>,
    )
        ensures
            atoms_of(final(sims)@) == atoms_of(old(sims)@) + function_atoms(
                self@,
                c,
                impl_,
                old(substs)@,
            ).0,
            final(substs)@ == function_atoms(self@, c, impl_, old(substs)@).1,
    {
        let theirs = c.header.qualifiers();
        let missing = count_qualifiers_beyond(&self.qualifiers, &theirs);
        let extra = count_qualifiers_beyond(&theirs, &self.qualifiers);
        push_repeated(sims, DiscreteSimilarity::Different, "missing qualifier", missing);
        push_repeated(sims, DiscreteSimilarity::Different, "extra qualifier", extra);
        let this = self_binding(impl_, &c.generics);
        self.decl.compare_into(&c.sig, this, substs, sims);
    }
}

/// The number of qualifiers in `a` that are not in `b`.
fn count_qualifiers_beyond(a: &QualifierSet, b: &QualifierSet) -> (n: usize)
    ensures
        n == count_beyond(a@, b@),
{
    let mut n: usize = 0;
    if a.has_beyond(b, Qualifier::Async) {
        n = n + 1;
    }
    if a.has_beyond(b, Qualifier::Unsafe) {
        n = n + 1;
    }
    if a.has_beyond(b, Qualifier::Const) {
        n = n + 1;
    }
    n
}

impl QueryKind {
    /// Compares what the query asks for with what an item is; the item
    /// stands in the impl `impl_`, if there is one.
    pub fn compare<'a>(
        &'a self,
        inner: &'a types::ItemEnum,
        impl_: Option<&'a types::Impl>,
        substs: &mut Substitution<'a>,
    ) -> (r: Vec<Similarity>)
        ensures
            atoms_of(r@) == kind_atoms(self@, inner, impl_, old(substs)@).0,
            final(substs)@ == kind_atoms(self@, inner, impl_, old(substs)@).1,
    {
        let mut sims: Vec<Similarity> = Vec::new();
        self.compare_into(inner, impl_, substs, &mut sims);
        sims
    }

    fn compare_into<'a>(
        &'a self,
        inner: &'a types::ItemEnum,
        impl_: Option<&'a types::Impl>,
        substs: &mut Substitution<'a>,
        sims: &mut Vec<Similarity>,
    )
        ensures
            atoms_of(final(sims)@) == atoms_of(old(sims)@) + kind_atoms(
                self@,
                inner,
                impl_,
                old(substs)@,
            ).0,
            final(substs)@ == kind_atoms(self@, inner, impl_, old(substs)@).1,
    {
        match self {
            QueryKind::FunctionQuery(f) => match inner {
                types::ItemEnum::Function(c) => {
                    f.compare_into(c, impl_, substs, sims);
                },
                _ => {
                    push_discrete(sims, DiscreteSimilarity::Different, "query expects function");
                },
            },
        }
    }
}

impl Qualifier {
    /// Compares two qualifiers: they match or they are different.
    pub fn compare(&self, other: &Qualifier) -> (r: Vec<Similarity>)
        ensures
            atoms_of(r@) == seq![
                if *self == *other {
                    discrete(DiscreteSimilarity::Equivalent, "qualifier matched"@)
                } else {
                    discrete(DiscreteSimilarity::Different, "qualifier different"@)
                },
            ],
    {
        let mut sims: Vec<Similarity> = Vec::new();
        if *self == *other {
            push_discrete(&mut sims, DiscreteSimilarity::Equivalent, "qualifier matched");
        } else {
            push_discrete(&mut sims, DiscreteSimilarity::Different, "qualifier different");
        }
        sims
    }
}

impl PrimitiveType {
    /// Compares the built-in with the name of a built-in of a candidate.
    pub fn compare(&self, name: &str) -> (r: Vec<Similarity>)
        ensures
            atoms_of(r@) == seq![
                if self.spelling() == name@ {
                    discrete(DiscreteSimilarity::Equivalent, "primitive matches"@)
                } else {
                    discrete(DiscreteSimilarity::Different, "primitive differs"@)
                },
            ],
    {
        let mut sims: Vec<Similarity> = Vec::new();
        push_atom(&mut sims, compare_primitive(*self, name));
        sims
    }
}

impl Query {
    /// Compares the query with an item that stands in the impl `impl_`, if
    /// there is one.
    pub fn compare<'a>(
        &'a self,
        item: &'a types::Item,
        impl_: Option<&'a types::Impl>,
        substs: &mut Substitution<'a>,
    ) -> (r: Vec<Similarity>)
        ensures
            atoms_of(r@) == query_atoms(self@, item, impl_, old(substs)@).0,
            final(substs)@ == query_atoms(self@, item, impl_, old(substs)@).1,
    {
        let mut sims: Vec<Similarity> = Vec::new();
        match (&self.name, &item.name) {
            (Some(n), Some(i)) => {
                push_atom(&mut sims, compare_symbol(n.as_str(), i.as_str()));
            },
            (Some(_), None) => {
                push_discrete(&mut sims, DiscreteSimilarity::Different, "missing item name");
            },
            _ => {},
        }
        if let Some(kind) = &self.kind {
            kind.compare_into(&item.inner, impl_, substs, &mut sims);
        }
        sims
    }
}

/// A built-in of the query against a built-in of the candidate gives one
/// atom and no more: equivalent where the spellings agree, different where
/// they do not.
pub proof fn primitive_identity(
    p: PrimitiveType,
    c: types::Type,
    this: Option<types::Type>,
    s: Bindings,
)
    requires
        c is Primitive,
    ensures
        type_atoms(TypeView::Primitive(p), c, this, s).1 == s,
        p.spelling() == c->Primitive_0@ ==> type_atoms(TypeView::Primitive(p), c, this, s).0
            == seq![discrete(DiscreteSimilarity::Equivalent, "primitive matches"@)],
        p.spelling() != c->Primitive_0@ ==> type_atoms(TypeView::Primitive(p), c, this, s).0
            == seq![discrete(DiscreteSimilarity::Different, "primitive differs"@)],
{
}

/// Where a generic of the candidate is met for the first time, it is bound
/// to the query type at that place; where it is met again, the atom is
/// equivalent if and only if the query type there is equal to the first,
/// and different otherwise. The bindings stay as the first meeting left
/// them.
pub proof fn substitution_idempotence(
    first: TypeView,
    second: TypeView,
    c: types::Type,
    this: Option<types::Type>,
    s: Bindings,
)
    requires
        c is Generic,
        !is_self(c),
        !s.contains_key(c->Generic_0@),
    ensures
        ({
            let once = type_atoms(first, c, this, s);
            let again = type_atoms(second, c, this, once.1);
            &&& once.0 == seq![discrete(DiscreteSimilarity::Subequal, "generic substituted"@)]
            &&& once.1 == s.insert(c->Generic_0@, first)
            &&& again.1 == once.1
            &&& first == second ==> again.0 == seq![
                discrete(DiscreteSimilarity::Equivalent, "generic matches substitution"@),
            ]
            &&& first != second ==> again.0 == seq![
                discrete(DiscreteSimilarity::Different, "generic differs from substitution"@),
            ]
        }),
{
}

/// A query type that is no pointer or reference, against a pointer or
/// reference of either mutability, gives what it gives against the pointee,
/// and one subequal atom for the wrapper after that.
pub proof fn reference_transparency(
    q: TypeView,
    c: types::Type,
    this: Option<types::Type>,
    s: Bindings,
)
    requires
        !query_wraps(q),
        wraps(c),
    ensures
        type_atoms(q, c, this, s).0 == type_atoms(q, wrapped(c), this, s).0 + seq![
            discrete(DiscreteSimilarity::Subequal, "pointer/reference wrapper"@),
        ],
        type_atoms(q, c, this, s).1 == type_atoms(q, wrapped(c), this, s).1,
{
}

/// A query that asks for the unit return, against a candidate that states
/// no return type, gives the one atom for the unit return.
pub proof fn unit_return_equivalence(this: Option<types::Type>, s: Bindings)
    ensures
        ret_atoms(FnRetTyView::DefaultReturn, None, this, s) == (
            seq![discrete(DiscreteSimilarity::Equivalent, "unit return"@)],
            s,
        ),
{
}

/// The outcome of comparing a query with one candidate.
#[derive(Debug, Clone, PartialEq, Default)]
pub struct Similarities(pub Vec<Similarity>);

impl View for Similarities {
    type V = Seq<Atom>;

    open spec fn view(&self) -> Seq<Atom> {
        atoms_of(self.0@)
    }
}

impl Similarities {
    /// The score by which hits are ordered, in millionths. Lower is more
    /// alike.
    pub fn score(&self) -> (r: u64)
        requires
            self@.len() > 0,
        ensures
            r == mean_score(self@),
            r <= SCORE_ONE,
    {
        let n = self.0.len();
        let mut sum: u128 = 0;
        let mut i: usize = 0;
        while i < n
            invariant
                i <= n,
                n == self.0.len(),
                sum == total_score(self@.take(i as int)),
                sum <= i * SCORE_ONE,
            decreases n - i,
        {
            let s = self.0[i].score();
            proof {
                let t = self@.take(i + 1);
                assert(t.drop_last() == self@.take(i as int));
                assert((i + 1) * SCORE_ONE == i * SCORE_ONE + SCORE_ONE) by (nonlinear_arith);
                assert(i * SCORE_ONE <= 0xffff_ffff_ffff_ffff * 1_000_000) by (nonlinear_arith)
                    requires
                        i <= 0xffff_ffff_ffff_ffff,
                ;
            }
            sum = sum + s as u128;
            i = i + 1;
        }
        proof {
            assert(self@.take(n as int) == self@);
            score_bounds(self@);
        }
        (sum / (n as u128)) as u64
    }
}

} // verus!
