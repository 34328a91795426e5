//! The index of documented crates, the child-to-parent relation of each
//! crate, and the path of an item that is rebuilt from it.

use crate::text::{same_text, texts};
use crate::types::{Crate, CrateMetadata, Id, Item, ItemEnum};
use std::collections::HashMap;
use vstd::prelude::*;

verus! {

broadcast use vstd::std_specs::hash::group_hash_axioms;

/// The item that holds another.
#[derive(Clone, Copy, Debug, PartialEq, Eq, Structural)]
pub enum Parent {
    Module(Id),
    Struct(Id),
    Trait(Id),
    Impl(Id),
}

/// The items that `item` holds, as far as the parent relation counts
/// them: the items of a module, a trait or an impl, the impls of a struct
/// or a primitive. Other items hold none.
pub open spec fn held_by(item: Item) -> Seq<Id> {
    match item.inner {
        ItemEnum::Primitive(p) => p.impls@,
        ItemEnum::Module(m) => m.items@,
        ItemEnum::Struct(s) => s.impls@,
        ItemEnum::Trait(t) => t.items@,
        ItemEnum::Impl(i) => i.items@,
        _ => Seq::<Id>::empty(),
    }
}

/// What the item under the key `key` is to the items it holds. A primitive
/// stands for a module.
pub open spec fn parent_from(item: Item, key: u32) -> Parent {
    match item.inner {
        ItemEnum::Struct(_) => Parent::Struct(Id(key)),
        ItemEnum::Trait(_) => Parent::Trait(Id(key)),
        ItemEnum::Impl(_) => Parent::Impl(Id(key)),
        _ => Parent::Module(Id(key)),
    }
}

/// True if the crate has an item under `key` that holds `child` and is the
/// parent `p` to it.
pub open spec fn holds(krate: &Crate, key: u32, child: u32, p: Parent) -> bool {
    &&& krate.index@.contains_key(key)
    &&& held_by(krate.index@[key]).contains(Id(child))
    &&& p == parent_from(krate.index@[key], key)
}

/// True if some item of the crate holds `child` and is the parent `p` to
/// it.
pub open spec fn has_parent(krate: &Crate, child: u32, p: Parent) -> bool {
    exists|key: u32| holds(krate, key, child, p)
}

/// Makes `p` the parent of each of `children`.
fn adopt(parents: &mut HashMap<u32, Parent>, children: &Vec<Id>, p: Parent)
    ensures
        forall|c: u32|
            final(parents)@.contains_key(c) <==> old(parents)@.contains_key(c)
                || children@.contains(Id(c)),
        forall|c: u32|
            children@.contains(Id(c)) ==> #[trigger] final(parents)@[c] == p,
        forall|c: u32|
            old(parents)@.contains_key(c) && !children@.contains(Id(c))
                ==> #[trigger] final(parents)@[c] == old(parents)@[c],
{
    let mut i: usize = 0;
    while i < children.len()
        invariant
            i <= children.len(),
            forall|c: u32|
                parents@.contains_key(c) <==> old(parents)@.contains_key(c)
                    || children@.take(i as int).contains(Id(c)),
            forall|c: u32|
                children@.take(i as int).contains(Id(c)) ==> #[trigger] parents@[c] == p,
            forall|c: u32|
                old(parents)@.contains_key(c) && !children@.take(i as int).contains(Id(c))
                    ==> #[trigger] parents@[c] == old(parents)@[c],
        decreases children.len() - i,
    {
        let child = children[i];
        let ghost before = children@.take(i as int);
        let ghost after = children@.take(i + 1);
        proof {
            assert forall|c: u32| after.contains(Id(c)) <==> before.contains(Id(c)) || c
                == child.0 by {
                if c == child.0 {
                    assert(after[i as int] == Id(c));
                }
            }
        }
        parents.insert(child.0, p);
        i = i + 1;
    }
    assert(children@.take(children@.len() as int) == children@);
}

/// True if `parents` is a child-to-parent relation of the crate: it has an
/// entry for each item that some item of the crate holds, and no other,
/// and each entry names a holder of the item, as the parent that this
/// holder is.
pub open spec fn is_parent_index(krate: &Crate, parents: Map<u32, Parent>) -> bool {
    &&& forall|child: u32|
        parents.contains_key(child) <==> exists|p: Parent| has_parent(krate, child, p)
    &&& forall|child: u32|
        parents.contains_key(child) ==> has_parent(krate, child, #[trigger] parents[child])
}

/// True if every item that an item of the crate holds is itself in the
/// crate's index.
pub open spec fn holds_only_indexed_items(krate: &Crate) -> bool {
    forall|key: u32, child: u32|
        krate.index@.contains_key(key) && #[trigger] held_by(krate.index@[key]).contains(
            Id(child),
        ) ==> krate.index@.contains_key(child)
}

/// In a crate whose items hold only items of its index, every item that
/// has an entry in the child-to-parent relation is in the index.
pub proof fn parent_closure(krate: &Crate, parents: Map<u32, Parent>)
    requires
        is_parent_index(krate, parents),
        holds_only_indexed_items(krate),
    ensures
        forall|child: u32| parents.contains_key(child) ==> krate.index@.contains_key(child),
{
}

/// Builds the child-to-parent relation of a crate. Where several items
/// hold the same item, the entry names one of them.
pub fn build_parent_index(krate: &Crate) -> (parents: HashMap<u32, Parent>)
    ensures
        is_parent_index(krate, parents@),
{
    let mut parents: HashMap<u32, Parent> = HashMap::new();
    let ghost mut seen: Seq<u32> = Seq::empty();
    for entry in it: krate.index.iter()
        invariant
            seen.len() == it.index(),
            forall|j: int| 0 <= j < seen.len() ==> #[trigger] seen[j] == *it.seq()[j].0,
            forall|j: int|
                0 <= j < it.seq().len() ==> krate.index@.contains_key(*(#[trigger] it.seq()[j]).0)
                    && krate.index@[*it.seq()[j].0] == *it.seq()[j].1,
            forall|k: u32| #[trigger]
                krate.index@.contains_key(k) ==> seen.contains(k) || exists|j: int|
                    it.index() <= j < it.seq().len() && *(#[trigger] it.seq()[j]).0 == k,
            forall|child: u32|
                parents@.contains_key(child) ==> has_parent(
                    krate,
                    child,
                    #[trigger] parents@[child],
                ),
            forall|j: int, child: u32|
                0 <= j < seen.len() && #[trigger] held_by(krate.index@[seen[j]]).contains(
                    Id(child),
                ) ==> parents@.contains_key(child),
    {
        let (key, item) = entry;
        let ghost done = it.index();
        let ghost earlier = seen;
        match &item.inner {
            ItemEnum::Primitive(p) => {
                adopt(&mut parents, &p.impls, Parent::Module(Id(*key)));
            },
            ItemEnum::Module(m) => {
                adopt(&mut parents, &m.items, Parent::Module(Id(*key)));
            },
            ItemEnum::Struct(s) => {
                adopt(&mut parents, &s.impls, Parent::Struct(Id(*key)));
            },
            ItemEnum::Trait(t) => {
                adopt(&mut parents, &t.items, Parent::Trait(Id(*key)));
            },
            ItemEnum::Impl(i) => {
                adopt(&mut parents, &i.items, Parent::Impl(Id(*key)));
            },
            _ => {},
        }
        proof {
            seen = seen.push(*key);
            assert forall|child: u32| parents@.contains_key(child) implies has_parent(
                krate,
                child,
                #[trigger] parents@[child],
            ) by {
                if held_by(*item).contains(Id(child)) {
                    assert(holds(krate, *key, child, parents@[child]));
                }
            }
            assert forall|k: u32| #[trigger] krate.index@.contains_key(k) implies seen.contains(k)
                || exists|j: int|
                done + 1 <= j < it.seq().len() && *(#[trigger] it.seq()[j]).0 == k by {
                if earlier.contains(k) {
                    let j = choose|j: int| 0 <= j < earlier.len() && earlier[j] == k;
                    assert(seen[j] == k);
                } else {
                    let j = choose|j: int|
                        done <= j < it.seq().len() && *(#[trigger] it.seq()[j]).0 == k;
                    if j == done {
                        assert(seen[done] == k);
                    }
                }
            }
        }
    }
    proof {
        assert forall|child: u32| parents@.contains_key(child) implies exists|p: Parent|
            has_parent(krate, child, p) by {
            assert(has_parent(krate, child, parents@[child]));
        }
    }
    parents
}

/// Name and version of a crate, as a mathematical value.
pub type CrateKey = (Seq<char>, Seq<char>);

/// The crates that can be searched, each with its child-to-parent
/// relation.
pub struct Index {
    crates: Vec<(CrateMetadata, Crate)>,
    parents: Vec<(CrateMetadata, HashMap<u32, Parent>)>,
}

impl Index {
    /// True if the two lists go together entry by entry, and no crate is
    /// entered twice.
    pub closed spec fn wf(&self) -> bool {
        &&& self.crates@.len() == self.parents@.len()
        &&& forall|i: int|
            0 <= i < self.crates@.len() ==> (#[trigger] self.crates@[i]).0@ == self.parents@[i].0@
        &&& forall|i: int, j: int|
            0 <= i < j < self.crates@.len() ==> (#[trigger] self.crates@[i]).0@ != (
            #[trigger] self.crates@[j]).0@
    }

    /// True if the crate `key` is entered at position `i`.
    spec fn at(&self, key: CrateKey, i: int) -> bool {
        0 <= i < self.crates@.len() && self.crates@[i].0@ == key
    }

    /// The crates of the index, by name and version.
    pub closed spec fn crates(&self) -> Map<CrateKey, Crate> {
        Map::new(
            |key: CrateKey| exists|i: int| self.at(key, i),
            |key: CrateKey| self.crates@[choose|i: int| self.at(key, i)].1,
        )
    }

    /// The child-to-parent relation of each crate of the index.
    pub closed spec fn parents(&self) -> Map<CrateKey, Map<u32, Parent>> {
        Map::new(
            |key: CrateKey| exists|i: int| self.at(key, i),
            |key: CrateKey| self.parents@[choose|i: int| self.at(key, i)].1@,
        )
    }

    proof fn lemma_entry(&self, i: int)
        requires
            self.wf(),
            0 <= i < self.crates@.len(),
        ensures
            self.crates().contains_key(self.crates@[i].0@),
            self.crates()[self.crates@[i].0@] == self.crates@[i].1,
            self.parents().contains_key(self.crates@[i].0@),
            self.parents()[self.crates@[i].0@] == self.parents@[i].1@,
    {
        let key = self.crates@[i].0@;
        assert(self.at(key, i));
        let j = choose|j: int| self.at(key, j);
        assert(j == i);
    }

    /// An index without crates.
    pub fn new() -> (r: Self)
        ensures
            r.wf(),
            r.crates() == Map::<CrateKey, Crate>::empty(),
            r.parents() == Map::<CrateKey, Map<u32, Parent>>::empty(),
    {
        let r = Index { crates: Vec::new(), parents: Vec::new() };
        r
    }

    /// The number of crates.
    pub fn len(&self) -> (n: usize)
        ensures
            n == self.count(),
    {
        self.crates.len()
    }

    /// The number of crates.
    pub closed spec fn count(&self) -> nat {
        self.crates@.len()
    }

    /// Name and version of the crate at position `i`, in the order of
    /// entry.
    pub closed spec fn key_at(&self, i: int) -> CrateKey {
        self.crates@[i].0@
    }

    /// Name and version of the crate at position `i`.
    pub fn metadata(&self, i: usize) -> (r: &CrateMetadata)
        requires
            i < self.count(),
        ensures
            r@ == self.key_at(i as int),
    {
        &self.crates[i].0
    }

    /// Each crate of the index stands at one position, and each position
    /// holds a crate of the index.
    pub proof fn positions(&self)
        requires
            self.wf(),
        ensures
            forall|i: int| 0 <= i < self.count() ==> self.crates().contains_key(self.key_at(i)),
            forall|key: CrateKey|
                self.crates().contains_key(key) ==> exists|i: int|
                    0 <= i < self.count() && self.key_at(i) == key,
            forall|i: int, j: int|
                0 <= i < j < self.count() ==> self.key_at(i) != self.key_at(j),
    {
        assert forall|i: int| 0 <= i < self.count() implies self.crates().contains_key(
            self.key_at(i),
        ) by {
            self.lemma_entry(i);
        }
        assert forall|key: CrateKey| self.crates().contains_key(key) implies exists|i: int|
            0 <= i < self.count() && self.key_at(i) == key by {
            let i = choose|i: int| self.at(key, i);
            assert(self.key_at(i) == key);
        }
    }

    /// The position of the crate `key`, if it is in the index.
    fn position(&self, key: &CrateMetadata) -> (r: Option<usize>)
        ensures
            match r {
                Some(i) => self.at(key@, i as int),
                None => forall|i: int| !self.at(key@, i),
            },
    {
        let mut i: usize = 0;
        while i < self.crates.len()
            invariant
                i <= self.crates.len(),
                forall|j: int| 0 <= j < i ==> !self.at(key@, j),
            decreases self.crates.len() - i,
        {
            if self.crates[i].0.same(key) {
                return Some(i);
            }
            i = i + 1;
        }
        None
    }

    /// The crate `key`, if it is in the index.
    pub fn crate_of(&self, key: &CrateMetadata) -> (r: Option<&Crate>)
        requires
            self.wf(),
        ensures
            match r {
                Some(c) => self.crates().contains_key(key@) && *c == self.crates()[key@],
                None => !self.crates().contains_key(key@),
            },
    {
        match self.position(key) {
            Some(i) => {
                Some(&self.crates[i].1)
            },
            None => None,
        }
    }

    /// The child-to-parent relation of the crate `key`, if it is in the
    /// index.
    pub fn parents_of(&self, key: &CrateMetadata) -> (r: Option<&HashMap<u32, Parent>>)
        requires
            self.wf(),
        ensures
            match r {
                Some(p) => self.parents().contains_key(key@) && p@ == self.parents()[key@],
                None => !self.parents().contains_key(key@),
            },
    {
        match self.position(key) {
            Some(i) => {
                Some(&self.parents[i].1)
            },
            None => None,
        }
    }

    /// Enters a crate with its child-to-parent relation. A crate of the
    /// same name and version gives way to it.
    pub fn insert(&mut self, key: CrateMetadata, krate: Crate, parents: HashMap<u32, Parent>)
        requires
            old(self).wf(),
        ensures
            final(self).wf(),
            final(self).crates() == old(self).crates().insert(key@, krate),
            final(self).parents() == old(self).parents().insert(key@, parents@),
    {
        let ghost k = key@;
        let ghost pv = parents@;
        match self.position(&key) {
            Some(i) => {
                let twin = key.duplicate();
                self.crates[i] = (key, krate);
                self.parents[i] = (twin, parents);
                proof {
                    assert forall|q: CrateKey| #[trigger]
                        self.crates().contains_key(q) <==> old(self).crates().insert(
                            k,
                            krate,
                        ).contains_key(q) by {
                        if self.crates().contains_key(q) {
                            let j = choose|j: int| self.at(q, j);
                            assert(old(self).at(q, j));
                        }
                        if old(self).crates().contains_key(q) {
                            let j = choose|j: int| old(self).at(q, j);
                            assert(self.at(q, j));
                        }
                    }
                    assert(self.crates() =~= old(self).crates().insert(k, krate));
                }
            },
            None => {
                let twin = key.duplicate();
                self.crates.push((key, krate));
                self.parents.push((twin, parents));
                proof {
                    let n = old(self).crates@.len() as int;
                    assert(self.wf()) by {
                        assert forall|a: int, b: int|
                            0 <= a < b < self.crates@.len() implies (#[trigger] self.crates@[a]).0@
                            != (#[trigger] self.crates@[b]).0@ by {
                            if b == n {
                                assert(!old(self).at(k, a));
                            }
                        }
                    }
                    assert forall|q: CrateKey| #[trigger]
                        self.crates().contains_key(q) <==> old(self).crates().insert(
                            k,
                            krate,
                        ).contains_key(q) by {
                        if self.crates().contains_key(q) {
                            let j = choose|j: int| self.at(q, j);
                            if j < n {
                                assert(old(self).at(q, j));
                            }
                        }
                        if old(self).crates().contains_key(q) {
                            let j = choose|j: int| old(self).at(q, j);
                            assert(self.at(q, j));
                        }
                        if q == k {
                            assert(self.at(q, n));
                        }
                    }
                    assert forall|q: CrateKey| #[trigger]
                        self.crates().contains_key(q) implies self.crates()[q] == old(self).crates().insert(k, krate)[q] && self.parents()[q] == old(self).parents().insert(k, pv)[q] by {
                        let j = choose|j: int| self.at(q, j);
                        if j < n {
                            old(self).lemma_entry(j);
                        }
                    }
                    assert(self.crates() =~= old(self).crates().insert(k, krate));
                }
            },
        }
    }

    /// Enters a crate, with the child-to-parent relation that is built
    /// from it.
    pub fn add(&mut self, key: CrateMetadata, krate: Crate)
        requires
            old(self).wf(),
        ensures
            final(self).wf(),
            final(self).crates() == old(self).crates().insert(key@, krate),
            final(self).parents().dom() == old(self).parents().dom().insert(key@),
            is_parent_index(&krate, final(self).parents()[key@]),
            forall|other: CrateKey|
                other != key@ && old(self).parents().contains_key(other) ==> final(self).parents()[other] == old(self).parents()[other],
    {
        let parents = build_parent_index(&krate);
        self.insert(key, krate, parents);
    }

    /// In every index, the crates and the child-to-parent relations are
    /// those of the same names and versions.
    pub proof fn lockstep(&self)
        requires
            self.wf(),
        ensures
            self.crates().dom() == self.parents().dom(),
    {
    }
}

/// The way from an item up to the root of its crate.
#[derive(Debug)]
pub struct Path<'a> {
    /// The name of the crate; empty where the crate has none.
    pub name: String,
    /// The modules around the item, the outermost first.
    pub modules: Vec<&'a Item>,
    /// The struct, trait or impl that the item belongs to, if any.
    pub owner: Option<&'a Item>,
    pub item: &'a Item,
}

/// A [`Path`] as a mathematical value.
pub struct Route {
    pub name: Seq<char>,
    pub modules: Seq<Item>,
    pub owner: Option<Item>,
    pub item: Item,
}

impl<'a> View for Path<'a> {
    type V = Route;

    open spec fn view(&self) -> Route {
        Route {
            name: self.name@,
            modules: self.modules@.map_values(|m: &Item| *m),
            owner: match self.owner {
                Some(o) => Some(*o),
                None => None,
            },
            item: *self.item,
        }
    }
}

/// True of the root module of a crate.
pub open spec fn is_root_module(item: Item) -> bool {
    item.inner matches ItemEnum::Module(m) && m.is_crate
}

/// The climb from the item `here` towards the root, in at most `fuel`
/// steps: the modules met, the innermost first, and the last owner met.
/// `modules` and `owner` are what was met before `here`.
///
/// The climb ends where an item has no parent, or with the root module. A
/// module without a name is passed over. It fails where a parent is not in
/// the crate's index, and where the steps run out.
pub open spec fn climb(
    krate: &Crate,
    parents: Map<u32, Parent>,
    here: u32,
    fuel: nat,
    modules: Seq<u32>,
    owner: Option<u32>,
) -> Option<(Seq<u32>, Option<u32>)>
    decreases fuel,
{
    if !parents.contains_key(here) {
        Some((modules, owner))
    } else if fuel == 0 {
        None
    } else {
        match parents[here] {
            Parent::Module(m) => if !krate.index@.contains_key(m.0) {
                None
            } else if is_root_module(krate.index@[m.0]) {
                Some((modules.push(m.0), owner))
            } else if krate.index@[m.0].name is Some {
                climb(krate, parents, m.0, (fuel - 1) as nat, modules.push(m.0), owner)
            } else {
                climb(krate, parents, m.0, (fuel - 1) as nat, modules, owner)
            },
            Parent::Struct(t) | Parent::Trait(t) | Parent::Impl(t) => if !krate.index@.contains_key(
                t.0,
            ) {
                None
            } else {
                climb(krate, parents, t.0, (fuel - 1) as nat, modules, Some(t.0))
            },
        }
    }
}

/// The modules around the item `id`, the innermost first, and its owner.
/// The climb may take as many steps as the crate has items: a relation
/// that leads in a circle gives none.
pub open spec fn path_ids(krate: &Crate, id: u32, parents: Map<u32, Parent>) -> Option<
    (Seq<u32>, Option<u32>),
> {
    if krate.index@.contains_key(id) {
        climb(krate, parents, id, krate.index@.dom().len(), Seq::empty(), None)
    } else {
        None
    }
}

/// The name of a crate, empty where it has none.
pub open spec fn crate_name(krate: &Crate) -> Seq<char> {
    match krate.name {
        Some(n) => n@,
        None => Seq::empty(),
    }
}

/// The path of the item `id` of `krate`: the name of the crate, the
/// modules around the item from the outermost in, its owner and the item
/// itself. None where the climb fails or `id` is not in the index.
pub open spec fn route_of(krate: &Crate, id: u32, parents: Map<u32, Parent>) -> Option<Route> {
    match path_ids(krate, id, parents) {
        Some((modules, owner)) => Some(
            Route {
                name: crate_name(krate),
                modules: Seq::new(
                    modules.len(),
                    |j: int| krate.index@[modules[modules.len() - 1 - j]],
                ),
                owner: match owner {
                    Some(o) => Some(krate.index@[o]),
                    None => None,
                },
                item: krate.index@[id],
            },
        ),
        None => None,
    }
}

/// The names of the items from position `i` on that have one.
pub open spec fn names_from(items: Seq<Item>, i: int) -> Seq<Seq<char>>
    decreases items.len() - i,
{
    if 0 <= i < items.len() {
        (match items[i].name {
            Some(n) => seq![n@],
            None => Seq::empty(),
        }) + names_from(items, i + 1)
    } else {
        Seq::empty()
    }
}

/// The names of the items from position `i` on that have one, each with
/// `mark` after it, in one text.
pub open spec fn marked_names_from(items: Seq<Item>, i: int, mark: Seq<char>) -> Seq<char>
    decreases items.len() - i,
{
    if 0 <= i < items.len() {
        (match items[i].name {
            Some(n) => n@ + mark,
            None => Seq::empty(),
        }) + marked_names_from(items, i + 1, mark)
    } else {
        Seq::empty()
    }
}

/// The name of an item, empty where it has none.
pub open spec fn name_or_empty(item: Item) -> Seq<char> {
    match item.name {
        Some(n) => n@,
        None => Seq::empty(),
    }
}

/// The word for the kind of an owner in a link.
pub open spec fn owner_kind(item: Item) -> Seq<char> {
    match item.inner {
        ItemEnum::Struct(_) => "struct."@,
        ItemEnum::Trait(_) => "trait."@,
        ItemEnum::Impl(_) => "impl."@,
        _ => Seq::empty(),
    }
}

impl Route {
    /// The segments of the path: the names of the modules, of the owner and
    /// of the item, as far as they have one.
    pub open spec fn segments(self) -> Seq<Seq<char>> {
        names_from(self.modules, 0) + (match self.owner {
            Some(o) => match o.name {
                Some(n) => seq![n@],
                None => Seq::empty(),
            },
            None => Seq::empty(),
        }) + (match self.item.name {
            Some(n) => seq![n@],
            None => Seq::empty(),
        })
    }

    /// The path as it is written in source text, with `::` between the
    /// segments.
    pub open spec fn text(self) -> Seq<char> {
        marked_names_from(self.modules, 0, "::"@) + (match self.owner {
            Some(o) => match o.name {
                Some(n) => n@ + "::"@,
                None => Seq::empty(),
            },
            None => Seq::empty(),
        }) + name_or_empty(self.item)
    }

    /// Where the documentation of the crate is found.
    pub open spec fn link_base(self) -> Seq<char> {
        if self.name == "std"@ || self.name == "core"@ || self.name == "alloc"@ {
            "https://doc.rust-lang.org/"@
        } else {
            "https://docs.rs/"@ + self.name + "/latest/"@
        }
    }

    /// The address of the documentation of the item: the base, a directory
    /// for each named module, then the page of the owner with the method
    /// as its fragment, or the page of the function where there is no
    /// owner.
    pub open spec fn link_text(self) -> Seq<char> {
        self.link_base() + marked_names_from(self.modules, 0, "/"@) + (match self.owner {
            Some(o) => owner_kind(o) + name_or_empty(o) + ".html#"@ + "method."@ + name_or_empty(
                self.item,
            ) + ".html"@,
            None => "fn."@ + name_or_empty(self.item) + ".html"@,
        })
    }

}

impl<'a> Path<'a> {
    /// The segments of the path.
    pub fn pathify(&self) -> (r: Vec<String>)
        ensures
            texts(r@) == self@.segments(),
    {
        let ghost modules = self@.modules;
        let mut path: Vec<String> = Vec::new();
        let mut i: usize = 0;
        while i < self.modules.len()
            invariant
                i <= self.modules.len(),
                modules == self@.modules,
                texts(path@) + names_from(modules, i as int) == names_from(modules, 0),
            decreases self.modules.len() - i,
        {
            if let Some(name) = &self.modules[i].name {
                path.push(name.clone());
            }
            i = i + 1;
        }
        if let Some(owner) = self.owner {
            if let Some(name) = &owner.name {
                path.push(name.clone());
            }
        }
        if let Some(name) = &self.item.name {
            path.push(name.clone());
        }
        path
    }

    /// Appends the names of the modules to `out`, each with `mark` after
    /// it.
    fn push_modules(&self, out: &mut String, mark: &str)
        ensures
            final(out)@ == old(out)@ + marked_names_from(self@.modules, 0, mark@),
    {
        let ghost modules = self@.modules;
        let mut i: usize = 0;
        while i < self.modules.len()
            invariant
                i <= self.modules.len(),
                modules == self@.modules,
                out@ + marked_names_from(modules, i as int, mark@) == old(out)@
                    + marked_names_from(modules, 0, mark@),
            decreases self.modules.len() - i,
        {
            if let Some(name) = &self.modules[i].name {
                out.push_str(name.as_str());
                out.push_str(mark);
            }
            i = i + 1;
        }
    }

    /// The path as it is written in source text.
    pub fn display(&self) -> (r: String)
        ensures
            r@ == self@.text(),
    {
        let mut out = String::new();
        self.push_modules(&mut out, "::");
        if let Some(owner) = self.owner {
            if let Some(name) = &owner.name {
                out.push_str(name.as_str());
                out.push_str("::");
            }
        }
        if let Some(name) = &self.item.name {
            out.push_str(name.as_str());
        }
        out
    }

    /// The address of the documentation of the item.
    pub fn link(&self) -> (r: String)
        ensures
            r@ == self@.link_text(),
    {
        let mut link = String::new();
        if same_text(self.name.as_str(), "std") || same_text(self.name.as_str(), "core")
            || same_text(self.name.as_str(), "alloc") {
            link.push_str("https://doc.rust-lang.org/");
        } else {
            link.push_str("https://docs.rs/");
            link.push_str(self.name.as_str());
            link.push_str("/latest/");
        }
        self.push_modules(&mut link, "/");
        let ghost mid = link@;
        match self.owner {
            Some(owner) => {
                match &owner.inner {
                    ItemEnum::Struct(_) => {
                        link.push_str("struct.");
                    },
                    ItemEnum::Trait(_) => {
                        link.push_str("trait.");
                    },
                    ItemEnum::Impl(_) => {
                        link.push_str("impl.");
                    },
                    _ => {},
                }
                assert(link@ =~= mid + owner_kind(*owner));
                if let Some(name) = &owner.name {
                    link.push_str(name.as_str());
                }
                link.push_str(".html#");
                link.push_str("method.");
                if let Some(name) = &self.item.name {
                    link.push_str(name.as_str());
                }
                link.push_str(".html");
            },
            None => {
                link.push_str("fn.");
                if let Some(name) = &self.item.name {
                    link.push_str(name.as_str());
                }
                link.push_str(".html");
            },
        }
        link
    }
}

/// Rebuilds the path of the item `id` from the child-to-parent relation.
///
/// Gives none where `id` is not in the crate's index, where the climb
/// meets a parent that is not in the index, and where it does not end
/// within as many steps as the crate has items.
pub fn reconstruct_path_for_local<'a>(
    krate: &'a Crate,
    id: &Id,
    parents: &HashMap<u32, Parent>,
) -> (r: Option<Path<'a>>)
    ensures
        match route_of(krate, id.0, parents@) {
            Some(route) => r is Some && r->0@ == route,
            None => r is None,
        },
{
    let item = match krate.index.get(&id.0) {
        Some(item) => item,
        None => {
            return None;
        },
    };
    let mut inner_first: Vec<&'a Item> = Vec::new();
    let mut owner: Option<&'a Item> = None;
    let ghost mut modules: Seq<u32> = Seq::empty();
    let ghost mut owner_id: Option<u32> = None;
    let mut here: u32 = id.0;
    let mut fuel: usize = krate.index.len();
    let mut done = false;
    let mut failed = false;
    while !done
        invariant
            !failed || done,
            path_ids(krate, id.0, parents@) == if failed {
                None
            } else if done {
                Some((modules, owner_id))
            } else {
                climb(krate, parents@, here, fuel as nat, modules, owner_id)
            },
            inner_first@.len() == modules.len(),
            forall|j: int|
                0 <= j < modules.len() ==> *(#[trigger] inner_first@[j]) == krate.index@[modules[j]],
            match owner_id {
                Some(o) => owner is Some && *owner->0 == krate.index@[o],
                None => owner is None,
            },
        decreases
                if done {
                    0int
                } else {
                    fuel + 1
                },
    {
        match parents.get(&here) {
            None => {
                done = true;
            },
            Some(parent) => {
                if fuel == 0 {
                    done = true;
                    failed = true;
                } else {
                    fuel = fuel - 1;
                    let (next, is_module) = match parent {
                        Parent::Module(m) => (m.0, true),
                        Parent::Struct(t) => (t.0, false),
                        Parent::Trait(t) => (t.0, false),
                        Parent::Impl(t) => (t.0, false),
                    };
                    match krate.index.get(&next) {
                        None => {
                            done = true;
                            failed = true;
                        },
                        Some(found) => {
                            if is_module {
                                let is_root = match &found.inner {
                                    ItemEnum::Module(m) => m.is_crate,
                                    _ => false,
                                };
                                if is_root {
                                    inner_first.push(found);
                                    proof {
                                        modules = modules.push(next);
                                    }
                                    done = true;
                                } else if found.name.is_some() {
                                    inner_first.push(found);
                                    proof {
                                        modules = modules.push(next);
                                    }
                                }
                            } else {
                                owner = Some(found);
                                proof {
                                    owner_id = Some(next);
                                }
                            }
                            here = next;
                        },
                    }
                }
            },
        }
    }
    if failed {
        return None;
    }
    let mut outer_first: Vec<&'a Item> = Vec::new();
    let mut j: usize = inner_first.len();
    while j > 0
        invariant
            j <= inner_first.len(),
            outer_first@.len() == inner_first.len() - j,
            forall|k: int|
                0 <= k < outer_first@.len() ==> #[trigger] outer_first@[k] == inner_first@[
                    inner_first.len() - 1 - k
                ],
        decreases j,
    {
        j = j - 1;
        outer_first.push(inner_first[j]);
    }
    let name = match &krate.name {
        Some(n) => n.clone(),
        None => String::new(),
    };
    let path = Path { name, modules: outer_first, owner, item };
    assert(path@.modules =~= route_of(krate, id.0, parents@)->0.modules);
    Some(path)
}

} // verus!
