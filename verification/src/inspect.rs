//! Looking into the index: what the crates of a scope hold, where an item
//! stands, and how a query fares against one item.

use crate::compare::{query_atoms, DiscreteSimilarity, Similarities};
use crate::query::Query;
use crate::index::{
    name_or_empty, reconstruct_path_for_local, route_of, CrateKey, Index, Parent, Path, Route,
};
use crate::search::{crate_not_found, is_enumeration, keys_of, Failure, SearchError};
use crate::text::{chars_of, same_text, text_of, texts};
use crate::types::{Crate, CrateMetadata, Id, Item, ItemEnum};
use std::collections::HashMap;
use vstd::prelude::*;

verus! {

broadcast use vstd::std_specs::hash::group_hash_axioms;

/// The word for what an item is.
pub open spec fn kind_label(inner: ItemEnum) -> Seq<char> {
    match inner {
        ItemEnum::Module(_) => "module"@,
        ItemEnum::ExternCrate { .. } => "extern_crate"@,
        ItemEnum::Use(_) => "use"@,
        ItemEnum::Union(_) => "union"@,
        ItemEnum::Struct(_) => "struct"@,
        ItemEnum::StructField(_) => "struct_field"@,
        ItemEnum::Enum(_) => "enum"@,
        ItemEnum::Variant(_) => "variant"@,
        ItemEnum::Function(_) => "function"@,
        ItemEnum::Trait(_) => "trait"@,
        ItemEnum::TraitAlias(_) => "trait_alias"@,
        ItemEnum::Impl(_) => "impl"@,
        ItemEnum::TypeAlias(_) => "type_alias"@,
        ItemEnum::Constant { .. } => "constant"@,
        ItemEnum::Static(_) => "static"@,
        ItemEnum::ExternType => "extern_type"@,
        ItemEnum::Macro(_) => "macro"@,
        ItemEnum::ProcMacro(_) => "proc_macro"@,
        ItemEnum::Primitive(_) => "primitive"@,
        ItemEnum::AssocConst { .. } => "assoc_const"@,
        ItemEnum::AssocType { .. } => "assoc_type"@,
    }
}

/// The word for what an item is.
pub fn kind_name(inner: &ItemEnum) -> (r: &'static str)
    ensures
        r@ == kind_label(*inner),
{
    match inner {
        ItemEnum::Module(_) => "module",
        ItemEnum::ExternCrate { .. } => "extern_crate",
        ItemEnum::Use(_) => "use",
        ItemEnum::Union(_) => "union",
        ItemEnum::Struct(_) => "struct",
        ItemEnum::StructField(_) => "struct_field",
        ItemEnum::Enum(_) => "enum",
        ItemEnum::Variant(_) => "variant",
        ItemEnum::Function(_) => "function",
        ItemEnum::Trait(_) => "trait",
        ItemEnum::TraitAlias(_) => "trait_alias",
        ItemEnum::Impl(_) => "impl",
        ItemEnum::TypeAlias(_) => "type_alias",
        ItemEnum::Constant { .. } => "constant",
        ItemEnum::Static(_) => "static",
        ItemEnum::ExternType => "extern_type",
        ItemEnum::Macro(_) => "macro",
        ItemEnum::ProcMacro(_) => "proc_macro",
        ItemEnum::Primitive(_) => "primitive",
        ItemEnum::AssocConst { .. } => "assoc_const",
        ItemEnum::AssocType { .. } => "assoc_type",
    }
}

/// True if the item is a type that values can have: a struct, an enum, a
/// union, a type alias or a built-in.
pub open spec fn is_concrete_type(inner: ItemEnum) -> bool {
    inner is Struct || inner is Enum || inner is Union || inner is TypeAlias || inner is Primitive
}

/// True if the item is a type that values can have.
pub fn concrete_type(inner: &ItemEnum) -> (r: bool)
    ensures
        r == is_concrete_type(*inner),
{
    match inner {
        ItemEnum::Struct(_) => true,
        ItemEnum::Enum(_) => true,
        ItemEnum::Union(_) => true,
        ItemEnum::TypeAlias(_) => true,
        ItemEnum::Primitive(_) => true,
        _ => false,
    }
}

/// The word for a discrete outcome.
pub open spec fn outcome_label(kind: DiscreteSimilarity) -> Seq<char> {
    match kind {
        DiscreteSimilarity::Equivalent => "equivalent"@,
        DiscreteSimilarity::Subequal => "subequal"@,
        DiscreteSimilarity::Different => "different"@,
    }
}

/// The word for a discrete outcome.
pub fn outcome_name(kind: DiscreteSimilarity) -> (r: &'static str)
    ensures
        r@ == outcome_label(kind),
{
    match kind {
        DiscreteSimilarity::Equivalent => "equivalent",
        DiscreteSimilarity::Subequal => "subequal",
        DiscreteSimilarity::Different => "different",
    }
}

/// The id of a parent and the word for what the parent is.
pub open spec fn relation_of(parent: Parent) -> (u32, Seq<char>) {
    match parent {
        Parent::Module(id) => (id.0, "module"@),
        Parent::Struct(id) => (id.0, "struct"@),
        Parent::Trait(id) => (id.0, "trait"@),
        Parent::Impl(id) => (id.0, "impl"@),
    }
}

/// The keys of a map in the order in which the map hands them out.
pub fn keys_in_order<V>(map: &HashMap<u32, V>) -> (r: Vec<u32>)
    ensures
        is_enumeration(r@, map@.dom()),
{
    let mut keys: Vec<u32> = Vec::new();
    for entry in it: map.iter()
        invariant
            keys@.len() == it.index(),
            it.seq().no_duplicates(),
            keys@.no_duplicates(),
            forall|j: int| 0 <= j < keys@.len() ==> #[trigger] keys@[j] == *it.seq()[j].0,
            forall|j: int|
                0 <= j < it.seq().len() ==> map@.contains_key(*(#[trigger] it.seq()[j]).0),
            forall|k: u32| #[trigger]
                map@.contains_key(k) ==> keys@.contains(k) || exists|j: int|
                    it.index() <= j < it.seq().len() && *(#[trigger] it.seq()[j]).0 == k,
    {
        let (key, _) = entry;
        let ghost done = it.index();
        let ghost earlier = keys@;
        keys.push(*key);
        proof {
            assert forall|k: u32| #[trigger] map@.contains_key(k) implies keys@.contains(k)
                || exists|j: int|
                done + 1 <= j < it.seq().len() && *(#[trigger] it.seq()[j]).0 == k by {
                if earlier.contains(k) {
                    let j = choose|j: int| 0 <= j < earlier.len() && earlier[j] == k;
                    assert(keys@[j] == k);
                } else {
                    let j = choose|j: int|
                        done <= j < it.seq().len() && *(#[trigger] it.seq()[j]).0 == k;
                    if j == done {
                        assert(keys@[done] == k);
                    }
                }
            }
        }
    }
    keys
}

/// True if the crate at the place `c` of `keys` is in the index and holds
/// an item under `id`.
pub open spec fn holds_item(index: &Index, keys: Seq<CrateKey>, c: int, id: u32) -> bool {
    index.crates().contains_key(keys[c]) && index.crates()[keys[c]].index@.contains_key(id)
}

/// True if the crate at the place `c` is the first of `keys` that is in
/// the index and holds an item under `id`.
pub open spec fn first_holder(index: &Index, keys: Seq<CrateKey>, c: int, id: u32) -> bool {
    &&& 0 <= c < keys.len()
    &&& holds_item(index, keys, c, id)
    &&& forall|b: int| 0 <= b < c ==> !holds_item(index, keys, b, id)
}

/// True if none of the crates `keys` is in the index and holds an item
/// under `id`.
pub open spec fn none_holds(index: &Index, keys: Seq<CrateKey>, id: u32) -> bool {
    forall|c: int| 0 <= c < keys.len() ==> !holds_item(index, keys, c, id)
}

/// The item `id` of the first of the crates `krates` that is in the index
/// and holds such an item, with the place of that crate in `krates`.
pub fn find_item<'a>(index: &'a Index, krates: &[CrateMetadata], id: u32) -> (r: Option<
    (usize, &'a Item),
>)
    requires
        index.wf(),
    ensures
        match r {
            Some((c, item)) => first_holder(index, keys_of(krates@), c as int, id) && *item
                == index.crates()[keys_of(krates@)[c as int]].index@[id],
            None => none_holds(index, keys_of(krates@), id),
        },
{
    let mut c: usize = 0;
    while c < krates.len()
        invariant
            index.wf(),
            c <= krates.len(),
            forall|b: int| 0 <= b < c ==> !holds_item(index, keys_of(krates@), b, id),
        decreases krates.len() - c,
    {
        if let Some(krate) = index.crate_of(&krates[c]) {
            if let Some(item) = krate.index.get(&id) {
                return Some((c, item));
            }
        }
        c = c + 1;
    }
    None
}

/// Where the first colon of `s` at or after `i` stands; the length of `s`
/// where there is none.
pub open spec fn first_colon(s: Seq<char>, i: int) -> int
    decreases s.len() - i,
{
    if 0 <= i < s.len() && s[i] != ':' {
        first_colon(s, i + 1)
    } else if i < s.len() {
        i
    } else {
        s.len() as int
    }
}

/// The name and the version that a text asks for. A text with something
/// on both sides of its first colon asks for the name before it in the
/// version after it; any other text is a name as a whole.
pub open spec fn asked_of(s: Seq<char>) -> (Seq<char>, Option<Seq<char>>) {
    let c = first_colon(s, 0);
    if 0 < c && c + 1 < s.len() {
        (s.subrange(0, c), Some(s.subrange(c + 1, s.len() as int)))
    } else {
        (s, None)
    }
}

/// True if the crate `key` is one that is asked for.
pub open spec fn is_asked(asked: (Seq<char>, Option<Seq<char>>), key: CrateKey) -> bool {
    key.0 == asked.0 && match asked.1 {
        Some(version) => key.1 == version,
        None => true,
    }
}

/// The place in the index of the first crate that `text` asks for, which
/// is written `name` or `name:version`.
pub fn pick_crate(index: &Index, text: &str) -> (r: Option<usize>)
    ensures
        match r {
            Some(i) => {
                &&& i < index.count()
                &&& is_asked(asked_of(text@), index.key_at(i as int))
                &&& forall|j: int| 0 <= j < i ==> !is_asked(asked_of(text@), index.key_at(j))
            },
            None => forall|j: int|
                0 <= j < index.count() ==> !is_asked(asked_of(text@), index.key_at(j)),
        },
{
    let chars = chars_of(text);
    let total = chars.len();
    let mut colon: usize = 0;
    while colon < total && chars[colon] != ':'
        invariant
            colon <= total,
            total == chars@.len(),
            first_colon(chars@, 0) == first_colon(chars@, colon as int),
        decreases total - colon,
    {
        colon = colon + 1;
    }
    let parted = 0 < colon && colon < total - 1;
    let name = if parted {
        text_of(&chars, 0, colon)
    } else {
        text_of(&chars, 0, total)
    };
    let version = if parted {
        Some(text_of(&chars, colon + 1, total))
    } else {
        None
    };
    let ghost asked = asked_of(text@);
    let mut i: usize = 0;
    while i < index.len()
        invariant
            i <= index.count(),
            asked == asked_of(text@),
            asked.0 == name@,
            match (asked.1, version) {
                (Some(a), Some(v)) => a == v@,
                (None, None) => true,
                _ => false,
            },
            forall|j: int| 0 <= j < i ==> !is_asked(asked, index.key_at(j)),
        decreases index.count() - i,
    {
        let held = index.metadata(i);
        if same_text(held.name.as_str(), name.as_str()) {
            let fits = match &version {
                Some(v) => same_text(held.version.as_str(), v.as_str()),
                None => true,
            };
            if fits {
                return Some(i);
            }
        }
        i = i + 1;
    }
    None
}

/// An item of one of the crates of a scope.
struct Entry<'a> {
    /// The place of the crate in the scope.
    place: usize,
    krate: &'a Crate,
    parents: &'a HashMap<u32, Parent>,
    id: u32,
    item: &'a Item,
}

/// The ids `order`, each with the place `c` of its crate.
pub open spec fn placed(c: int, order: Seq<u32>) -> Seq<(int, u32)> {
    order.map_values(|k: u32| (c, k))
}

/// The ids of the items of the first `n` crates of a scope, each with the
/// place of its crate; `orders` gives the order of the ids of each crate.
pub open spec fn places_through(orders: Seq<Seq<u32>>, n: int) -> Seq<(int, u32)>
    decreases n,
{
    if n <= 0 {
        Seq::empty()
    } else {
        places_through(orders, n - 1) + placed(n - 1, orders[n - 1])
    }
}

/// True if each of the crates `keys` is in the index.
pub open spec fn all_held(index: &Index, keys: Seq<CrateKey>) -> bool {
    forall|c: int| 0 <= c < keys.len() ==> index.crates().contains_key(#[trigger] keys[c])
}

/// True if the crate at the place `c` is the first of `keys` that is not
/// in the index.
pub open spec fn first_not_held(index: &Index, keys: Seq<CrateKey>, c: int) -> bool {
    &&& 0 <= c < keys.len()
    &&& !index.crates().contains_key(keys[c])
    &&& forall|b: int| 0 <= b < c ==> index.crates().contains_key(#[trigger] keys[b])
}

/// True if `orders` gives for each of the crates `keys` an order of its
/// items that names each once.
pub open spec fn are_orders(index: &Index, keys: Seq<CrateKey>, orders: Seq<Seq<u32>>) -> bool {
    &&& orders.len() == keys.len()
    &&& forall|c: int|
        0 <= c < keys.len() ==> is_enumeration(
            #[trigger] orders[c],
            index.crates()[keys[c]].index@.dom(),
        )
}

/// The item at a place.
pub open spec fn item_at(index: &Index, keys: Seq<CrateKey>, place: (int, u32)) -> Item {
    index.crates()[keys[place.0]].index@[place.1]
}

/// The path of the item at a place, where it can be rebuilt from the
/// child-to-parent relation of its crate.
pub open spec fn route_at(index: &Index, keys: Seq<CrateKey>, place: (int, u32)) -> Option<Route> {
    route_of(&index.crates()[keys[place.0]], place.1, index.parents()[keys[place.0]])
}

impl<'a> Entry<'a> {
    /// True if the entry is the item at `place`.
    spec fn fits(&self, index: &Index, keys: Seq<CrateKey>, place: (int, u32)) -> bool {
        &&& self.place == place.0
        &&& self.id == place.1
        &&& 0 <= place.0 < keys.len()
        &&& index.crates().contains_key(keys[place.0])
        &&& *self.krate == index.crates()[keys[place.0]]
        &&& self.parents@ == index.parents()[keys[place.0]]
        &&& self.krate.index@.contains_key(self.id)
        &&& *self.item == item_at(index, keys, place)
    }
}

/// The items of the crates `krates`, crate by crate.
fn entries_of<'a>(index: &'a Index, krates: &[CrateMetadata]) -> (r: Result<
    (Vec<Entry<'a>>, Ghost<Seq<Seq<u32>>>),
    SearchError,
>)
    requires
        index.wf(),
    ensures
        match r {
            Ok((entries, orders)) => {
                let places = places_through(orders@, krates@.len() as int);
                &&& all_held(index, keys_of(krates@))
                &&& are_orders(index, keys_of(krates@), orders@)
                &&& entries@.len() == places.len()
                &&& forall|i: int|
                    0 <= i < entries@.len() ==> (#[trigger] entries@[i]).fits(
                        index,
                        keys_of(krates@),
                        places[i],
                    )
            },
            Err(e) => exists|c: int|
                first_not_held(index, keys_of(krates@), c) && e@ == Failure::CrateNotFound(
                    keys_of(krates@)[c],
                ),
        },
{
    let ghost keys = keys_of(krates@);
    let ghost mut orders: Seq<Seq<u32>> = Seq::empty();
    let mut entries: Vec<Entry<'a>> = Vec::new();
    let mut c: usize = 0;
    while c < krates.len()
        invariant
            index.wf(),
            c <= krates.len(),
            keys == keys_of(krates@),
            orders.len() == c,
            forall|b: int| 0 <= b < c ==> index.crates().contains_key(#[trigger] keys[b]),
            forall|b: int|
                0 <= b < c ==> is_enumeration(
                    #[trigger] orders[b],
                    index.crates()[keys[b]].index@.dom(),
                ),
            entries@.len() == places_through(orders, c as int).len(),
            forall|i: int|
                0 <= i < entries@.len() ==> (#[trigger] entries@[i]).fits(
                    index,
                    keys,
                    places_through(orders, c as int)[i],
                ),
        decreases krates.len() - c,
    {
        let krate = match index.crate_of(&krates[c]) {
            Some(k) => k,
            None => {
                assert(first_not_held(index, keys, c as int));
                return Err(crate_not_found(&krates[c]));
            },
        };
        let parents = match index.parents_of(&krates[c]) {
            Some(p) => p,
            None => {
                proof {
                    index.lockstep();
                }
                return Err(crate_not_found(&krates[c]));
            },
        };
        let order = keys_in_order(&krate.index);
        let ghost before = places_through(orders, c as int);
        let ghost earlier = orders;
        let mut j: usize = 0;
        while j < order.len()
            invariant
                j <= order.len(),
                c < krates.len(),
                keys == keys_of(krates@),
                index.crates().contains_key(keys[c as int]),
                *krate == index.crates()[keys[c as int]],
                parents@ == index.parents()[keys[c as int]],
                is_enumeration(order@, krate.index@.dom()),
                entries@.len() == before.len() + j,
                forall|i: int|
                    0 <= i < before.len() ==> (#[trigger] entries@[i]).fits(index, keys, before[i]),
                forall|i: int|
                    before.len() <= i < entries@.len() ==> (#[trigger] entries@[i]).fits(
                        index,
                        keys,
                        (c as int, order@[i - before.len()]),
                    ),
            decreases order.len() - j,
        {
            let id = order[j];
            match krate.index.get(&id) {
                Some(item) => {
                    entries.push(Entry { place: c, krate, parents, id, item });
                },
                None => {},
            }
            j = j + 1;
        }
        proof {
            orders = orders.push(order@);
            lemma_places_ignore_later(earlier, order@, c as int);
        }
        c = c + 1;
    }
    Ok((entries, Ghost(orders)))
}

/// The places of the first crates do not depend on the orders of the
/// later ones.
proof fn lemma_places_ignore_later(orders: Seq<Seq<u32>>, order: Seq<u32>, n: int)
    requires
        0 <= n <= orders.len(),
    ensures
        places_through(orders.push(order), n) == places_through(orders, n),
    decreases n,
{
    if n > 0 {
        lemma_places_ignore_later(orders, order, n - 1);
    }
}

/// The functions among the items at `places`, in that order.
pub open spec fn functions_in(index: &Index, keys: Seq<CrateKey>, places: Seq<(int, u32)>) -> Seq<
    Item,
>
    decreases places.len(),
{
    if places.len() == 0 {
        Seq::empty()
    } else {
        let item = item_at(index, keys, places.last());
        functions_in(index, keys, places.drop_last()) + (if item.inner is Function {
            seq![item]
        } else {
            Seq::empty()
        })
    }
}

/// The items that a list of references leads to.
pub open spec fn items_of(found: Seq<&Item>) -> Seq<Item> {
    found.map_values(|i: &Item| *i)
}

/// The functions of the crates `krates`, crate by crate in the order of
/// `krates`; the items of each crate are taken in some order that names
/// each once. Where one of the crates is not in the index, the error names
/// the first such crate.
pub fn functions_of<'a>(index: &'a Index, krates: &[CrateMetadata]) -> (r: Result<
    Vec<&'a Item>,
    SearchError,
>)
    requires
        index.wf(),
    ensures
        r is Ok <==> all_held(index, keys_of(krates@)),
        match r {
            Ok(found) => exists|orders: Seq<Seq<u32>>|
                {
                    &&& are_orders(index, keys_of(krates@), orders)
                    &&& items_of(found@) == functions_in(
                        index,
                        keys_of(krates@),
                        places_through(orders, krates@.len() as int),
                    )
                },
            Err(e) => exists|c: int|
                first_not_held(index, keys_of(krates@), c) && e@ == Failure::CrateNotFound(
                    keys_of(krates@)[c],
                ),
        },
{
    let ghost keys = keys_of(krates@);
    let (entries, orders) = match entries_of(index, krates) {
        Ok(walked) => walked,
        Err(e) => {
            return Err(e);
        },
    };
    let ghost places = places_through(orders@, krates@.len() as int);
    let mut found: Vec<&'a Item> = Vec::new();
    let mut i: usize = 0;
    while i < entries.len()
        invariant
            i <= entries.len(),
            entries@.len() == places.len(),
            forall|j: int|
                0 <= j < entries@.len() ==> (#[trigger] entries@[j]).fits(index, keys, places[j]),
            items_of(found@) == functions_in(index, keys, places.take(i as int)),
        decreases entries.len() - i,
    {
        let entry = &entries[i];
        proof {
            let next = places.take(i + 1);
            assert(next.drop_last() =~= places.take(i as int));
        }
        if let ItemEnum::Function(_) = &entry.item.inner {
            found.push(entry.item);
        }
        i = i + 1;
    }
    assert(places.take(entries@.len() as int) =~= places);
    Ok(found)
}

/// Each of the texts with a slash after it, in one text.
pub open spec fn slashed(parts: Seq<Seq<char>>) -> Seq<char>
    decreases parts.len(),
{
    if parts.len() == 0 {
        Seq::empty()
    } else {
        slashed(parts.drop_last()) + parts.last() + "/"@
    }
}

/// How the page of a type begins, by what the type is.
pub open spec fn type_page(inner: ItemEnum) -> Seq<char> {
    match inner {
        ItemEnum::Struct(_) => "struct."@,
        ItemEnum::Enum(_) => "enum."@,
        ItemEnum::Union(_) => "union."@,
        ItemEnum::TypeAlias(_) => "type."@,
        ItemEnum::Primitive(_) => "primitive."@,
        _ => Seq::empty(),
    }
}

/// All the segments of a path but the last.
pub open spec fn leading(segments: Seq<Seq<char>>) -> Seq<Seq<char>> {
    if segments.len() > 0 {
        segments.drop_last()
    } else {
        segments
    }
}

/// The address of the documentation of a type: the base, a directory for
/// each segment of the path but the last, then the page of the type.
pub open spec fn type_link(route: Route) -> Seq<char> {
    route.link_base() + slashed(leading(route.segments())) + type_page(route.item.inner)
        + name_or_empty(route.item) + ".html"@
}

/// The address of the documentation of the type at the end of `path`.
pub fn link_of_type(path: &Path) -> (r: String)
    ensures
        r@ == type_link(path@),
{
    let mut link = String::new();
    if same_text(path.name.as_str(), "std") || same_text(path.name.as_str(), "core") || same_text(
        path.name.as_str(),
        "alloc",
    ) {
        link.push_str("https://doc.rust-lang.org/");
    } else {
        link.push_str("https://docs.rs/");
        link.push_str(path.name.as_str());
        link.push_str("/latest/");
    }
    let segments = path.pathify();
    let ghost all = path@.segments();
    let ghost base = link@;
    let count = if segments.len() > 0 {
        segments.len() - 1
    } else {
        0
    };
    let mut i: usize = 0;
    while i < count
        invariant
            i <= count,
            count == leading(all).len(),
            count < segments@.len() || segments@.len() == 0,
            texts(segments@) == all,
            link@ == base + slashed(leading(all).take(i as int)),
        decreases count - i,
    {
        link.push_str(segments[i].as_str());
        link.push_str("/");
        proof {
            let next = leading(all).take(i + 1);
            assert(next.drop_last() =~= leading(all).take(i as int));
        }
        i = i + 1;
    }
    assert(leading(all).take(i as int) =~= leading(all));
    match &path.item.inner {
        ItemEnum::Struct(_) => {
            link.push_str("struct.");
        },
        ItemEnum::Enum(_) => {
            link.push_str("enum.");
        },
        ItemEnum::Union(_) => {
            link.push_str("union.");
        },
        ItemEnum::TypeAlias(_) => {
            link.push_str("type.");
        },
        ItemEnum::Primitive(_) => {
            link.push_str("primitive.");
        },
        _ => {},
    }
    if let Some(name) = &path.item.name {
        link.push_str(name.as_str());
    }
    link.push_str(".html");
    link
}

/// A type of a crate, as a list of types shows it.
#[derive(Debug, Clone, PartialEq, Eq)]
pub struct TypeEntry {
    pub name: String,
    /// The word for what the type is.
    pub kind: &'static str,
    /// The segments of its path.
    pub path: Vec<String>,
    /// The address of its documentation.
    pub link: String,
}

/// A [`TypeEntry`] as a mathematical value.
pub struct TypeEntryView {
    pub name: Seq<char>,
    pub kind: Seq<char>,
    pub path: Seq<Seq<char>>,
    pub link: Seq<char>,
}

impl View for TypeEntry {
    type V = TypeEntryView;

    open spec fn view(&self) -> TypeEntryView {
        TypeEntryView {
            name: self.name@,
            kind: self.kind@,
            path: texts(self.path@),
            link: self.link@,
        }
    }
}

/// What a list of types shows of the type at the end of `route`.
pub open spec fn type_entry(route: Route) -> TypeEntryView {
    TypeEntryView {
        name: name_or_empty(route.item),
        kind: kind_label(route.item.inner),
        path: route.segments(),
        link: type_link(route),
    }
}

/// The types among the items at `places`, in that order. A type whose
/// path cannot be rebuilt is left out.
pub open spec fn types_in(index: &Index, keys: Seq<CrateKey>, places: Seq<(int, u32)>) -> Seq<
    TypeEntryView,
>
    decreases places.len(),
{
    if places.len() == 0 {
        Seq::empty()
    } else {
        let place = places.last();
        let shown = if is_concrete_type(item_at(index, keys, place).inner) {
            match route_at(index, keys, place) {
                Some(route) => seq![type_entry(route)],
                None => Seq::empty(),
            }
        } else {
            Seq::empty()
        };
        types_in(index, keys, places.drop_last()) + shown
    }
}

/// The views of a list of types.
pub open spec fn type_views(found: Seq<TypeEntry>) -> Seq<TypeEntryView> {
    found.map_values(|t: TypeEntry| t@)
}

/// The types of the crates `krates`, crate by crate in the order of
/// `krates`; the items of each crate are taken in some order that names
/// each once. Where one of the crates is not in the index, the error names
/// the first such crate.
pub fn types_of(index: &Index, krates: &[CrateMetadata]) -> (r: Result<Vec<TypeEntry>, SearchError>)
    requires
        index.wf(),
    ensures
        r is Ok <==> all_held(index, keys_of(krates@)),
        match r {
            Ok(found) => exists|orders: Seq<Seq<u32>>|
                {
                    &&& are_orders(index, keys_of(krates@), orders)
                    &&& type_views(found@) == types_in(
                        index,
                        keys_of(krates@),
                        places_through(orders, krates@.len() as int),
                    )
                },
            Err(e) => exists|c: int|
                first_not_held(index, keys_of(krates@), c) && e@ == Failure::CrateNotFound(
                    keys_of(krates@)[c],
                ),
        },
{
    let ghost keys = keys_of(krates@);
    let (entries, orders) = match entries_of(index, krates) {
        Ok(walked) => walked,
        Err(e) => {
            return Err(e);
        },
    };
    let ghost places = places_through(orders@, krates@.len() as int);
    let mut found: Vec<TypeEntry> = Vec::new();
    let mut i: usize = 0;
    while i < entries.len()
        invariant
            i <= entries.len(),
            entries@.len() == places.len(),
            forall|j: int|
                0 <= j < entries@.len() ==> (#[trigger] entries@[j]).fits(index, keys, places[j]),
            type_views(found@) == types_in(index, keys, places.take(i as int)),
        decreases entries.len() - i,
    {
        let entry = &entries[i];
        proof {
            let next = places.take(i + 1);
            assert(next.drop_last() =~= places.take(i as int));
        }
        if concrete_type(&entry.item.inner) {
            if let Some(path) = reconstruct_path_for_local(
                entry.krate,
                &Id(entry.id),
                entry.parents,
            ) {
                let name = match &entry.item.name {
                    Some(n) => n.clone(),
                    None => String::new(),
                };
                let shown = TypeEntry {
                    name,
                    kind: kind_name(&entry.item.inner),
                    path: path.pathify(),
                    link: link_of_type(&path),
                };
                found.push(shown);
            }
        }
        i = i + 1;
    }
    assert(places.take(entries@.len() as int) =~= places);
    Ok(found)
}

/// An item of a crate, as a picture of the crate shows it.
#[derive(Debug, Clone, PartialEq, Eq)]
pub struct Node {
    pub id: u32,
    pub name: Option<String>,
    /// The word for what the item is.
    pub kind: &'static str,
}

/// That one item holds another, as a picture of a crate shows it.
#[derive(Debug, Clone, PartialEq, Eq)]
pub struct Edge {
    /// The id of the parent.
    pub from: u32,
    /// The id of the child.
    pub to: u32,
    /// The word for what the parent is.
    pub relation: &'static str,
}

impl Node {
    /// True if the node shows the item `item`.
    pub open spec fn shows(&self, item: Item) -> bool {
        &&& self.kind@ == kind_label(item.inner)
        &&& match (self.name, item.name) {
            (Some(n), Some(i)) => n@ == i@,
            (None, None) => true,
            _ => false,
        }
    }
}

/// The ids of a list of nodes.
pub open spec fn node_ids(nodes: Seq<Node>) -> Seq<u32> {
    nodes.map_values(|n: Node| n.id)
}

/// The ids of the children of a list of edges.
pub open spec fn children_of(edges: Seq<Edge>) -> Seq<u32> {
    edges.map_values(|e: Edge| e.to)
}

/// A node for each item of the crate, in the order in which the crate
/// hands out its items.
pub fn nodes_of(krate: &Crate) -> (r: Vec<Node>)
    ensures
        is_enumeration(node_ids(r@), krate.index@.dom()),
        forall|i: int| 0 <= i < r@.len() ==> (#[trigger] r@[i]).shows(krate.index@[r@[i].id]),
{
    let order = keys_in_order(&krate.index);
    let mut nodes: Vec<Node> = Vec::new();
    let mut j: usize = 0;
    while j < order.len()
        invariant
            j <= order.len(),
            is_enumeration(order@, krate.index@.dom()),
            node_ids(nodes@) == order@.take(j as int),
            forall|i: int|
                0 <= i < nodes@.len() ==> (#[trigger] nodes@[i]).shows(krate.index@[nodes@[i].id]),
        decreases order.len() - j,
    {
        let id = order[j];
        if let Some(item) = krate.index.get(&id) {
            let name = match &item.name {
                Some(n) => Some(n.clone()),
                None => None,
            };
            nodes.push(Node { id, name, kind: kind_name(&item.inner) });
        }
        assert(order@.take(j + 1) =~= order@.take(j as int).push(id));
        j = j + 1;
    }
    assert(order@.take(order@.len() as int) =~= order@);
    nodes
}

/// An edge for each item of the crate that has a parent, from the parent
/// to the item, in the order in which the relation hands out its entries.
pub fn edges_of(parents: &HashMap<u32, Parent>) -> (r: Vec<Edge>)
    ensures
        is_enumeration(children_of(r@), parents@.dom()),
        forall|i: int|
            0 <= i < r@.len() ==> ((#[trigger] r@[i]).from, r@[i].relation@) == relation_of(
                parents@[r@[i].to],
            ),
{
    let order = keys_in_order(parents);
    let mut edges: Vec<Edge> = Vec::new();
    let mut j: usize = 0;
    while j < order.len()
        invariant
            j <= order.len(),
            is_enumeration(order@, parents@.dom()),
            children_of(edges@) == order@.take(j as int),
            forall|i: int|
                0 <= i < edges@.len() ==> ((#[trigger] edges@[i]).from, edges@[i].relation@)
                    == relation_of(parents@[edges@[i].to]),
        decreases order.len() - j,
    {
        let child = order[j];
        if let Some(parent) = parents.get(&child) {
            let edge = match parent {
                Parent::Module(id) => Edge { from: id.0, to: child, relation: "module" },
                Parent::Struct(id) => Edge { from: id.0, to: child, relation: "struct" },
                Parent::Trait(id) => Edge { from: id.0, to: child, relation: "trait" },
                Parent::Impl(id) => Edge { from: id.0, to: child, relation: "impl" },
            };
            edges.push(edge);
        }
        assert(order@.take(j + 1) =~= order@.take(j as int).push(child));
        j = j + 1;
    }
    assert(order@.take(order@.len() as int) =~= order@);
    edges
}

/// Where an item stands: the address of its documentation and the
/// segments of its path.
#[derive(Debug, Clone, PartialEq, Eq)]
pub struct Doc {
    pub link: String,
    pub path: Vec<String>,
}

/// What was not found when an item was looked up.
#[derive(Debug, Clone, Copy, PartialEq, Eq, Structural)]
pub enum Missing {
    /// None of the crates holds the item.
    Item,
    /// The path of the item cannot be rebuilt from the child-to-parent
    /// relation of its crate.
    Path,
}

/// Where the item `id` stands, in the first of the crates `krates` that
/// is in the index and holds such an item.
pub fn doc_of(index: &Index, krates: &[CrateMetadata], id: u32) -> (r: Result<Doc, Missing>)
    requires
        index.wf(),
    ensures
        match r {
            Ok(doc) => exists|c: int|
                {
                    &&& #[trigger] first_holder(index, keys_of(krates@), c, id)
                    &&& route_at(index, keys_of(krates@), (c, id)) matches Some(route)
                    &&& doc.link@ == route.link_text()
                    &&& texts(doc.path@) == route.segments()
                },
            Err(Missing::Path) => exists|c: int|
                {
                    &&& #[trigger] first_holder(index, keys_of(krates@), c, id)
                    &&& route_at(index, keys_of(krates@), (c, id)) is None
                },
            Err(Missing::Item) => none_holds(index, keys_of(krates@), id),
        },
{
    let c = match find_item(index, krates, id) {
        Some((c, _)) => c,
        None => {
            return Err(Missing::Item);
        },
    };
    proof {
        index.lockstep();
    }
    let krate = match index.crate_of(&krates[c]) {
        Some(k) => k,
        None => {
            return Err(Missing::Item);
        },
    };
    let parents = match index.parents_of(&krates[c]) {
        Some(p) => p,
        None => {
            return Err(Missing::Item);
        },
    };
    match reconstruct_path_for_local(krate, &Id(id), parents) {
        Some(path) => Ok(Doc { link: path.link(), path: path.pathify() }),
        None => Err(Missing::Path),
    }
}

/// How the query fares against the item `id` of the first of the crates
/// `krates` that is in the index and holds such an item, taken as an item
/// outside any impl.
pub fn similarity_of(index: &Index, krates: &[CrateMetadata], query: &Query, id: u32) -> (r: Option<
    Similarities,
>)
    requires
        index.wf(),
    ensures
        match r {
            Some(sims) => exists|c: int|
                {
                    &&& #[trigger] first_holder(index, keys_of(krates@), c, id)
                    &&& sims@ == query_atoms(
                        query@,
                        &item_at(index, keys_of(krates@), (c, id)),
                        None,
                        Map::empty(),
                    ).0
                },
            None => none_holds(index, keys_of(krates@), id),
        },
{
    let (c, item) = match find_item(index, krates, id) {
        Some(found) => found,
        None => {
            return None;
        },
    };
    match index.crate_of(&krates[c]) {
        Some(krate) => Some(index.compare(query, item, krate, None)),
        None => None,
    }
}

} // verus!
