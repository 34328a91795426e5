//! Trees that are built from paths of keys.

use std::collections::{BTreeMap, HashMap};
use std::hash::Hash;
use vstd::prelude::*;

verus! {

broadcast use vstd::std_specs::hash::group_hash_axioms;

/// A map that can hand out the value under a key, making one where there
/// is none yet.
pub trait ChildMap<K, V> {
    /// What the map holds. A map that does not say holds nothing known.
    open spec fn entries(&self) -> Map<K, V> {
        Map::empty()
    }

    /// True if maps of this type say what they hold, and keep their
    /// entries apart by key. A type that does not say so does not.
    open spec fn keeps_keys_apart() -> bool {
        false
    }

    /// The value under `key`. Where there is none yet, a new one is put
    /// there. No other entry changes.
    fn get_or_create(&mut self, key: K) -> (r: &mut V)
        ensures
            Self::keeps_keys_apart() ==> {
                &&& old(self).entries().contains_key(key) ==> *r == old(self).entries()[key]
                &&& final(self).entries() == old(self).entries().insert(key, *final(r))
            },
    ;
}

impl<K: Eq + Hash, V: Default> ChildMap<K, V> for HashMap<K, V> {
    open spec fn entries(&self) -> Map<K, V> {
        self@
    }

    open spec fn keeps_keys_apart() -> bool {
        vstd::std_specs::hash::obeys_key_model::<K>()
    }

    fn get_or_create(&mut self, key: K) -> (r: &mut V) {
        self.entry(key).or_insert(V::default())
    }
}

/// `BTreeMap::entry` of the standard library, with `Entry::or_default` on
/// what it returns: the value under `key`, made with the default value
/// where there is none yet. Taken on trust: that for keys with a total
/// order the value that was there is handed out, and that the map
/// afterwards is the map before with the handed-out value under `key`.
#[verifier::external_body]
fn entry_or_default<K: Ord, V: Default>(map: &mut BTreeMap<K, V>, key: K) -> (r: &mut V)
    ensures
        vstd::laws_cmp::obeys_cmp::<K>() ==> {
            &&& old(map)@.contains_key(key) ==> *r == old(map)@[key]
            &&& final(map)@ == old(map)@.insert(key, *final(r))
        },
{
    map.entry(key).or_default()
}

impl<K: Ord, V: Default> ChildMap<K, V> for BTreeMap<K, V> {
    open spec fn entries(&self) -> Map<K, V> {
        self@
    }

    open spec fn keeps_keys_apart() -> bool {
        vstd::laws_cmp::obeys_cmp::<K>()
    }

    fn get_or_create(&mut self, key: K) -> (r: &mut V) {
        entry_or_default(self, key)
    }
}

/// True if the path `path` leads from the node `from` to the node `to`:
/// each key of the path is a child of the node before it.
pub open spec fn leads<T: PathTree>(from: T, path: Seq<T::Key>, to: T) -> bool
    decreases path.len(),
{
    if path.len() == 0 {
        from == to
    } else {
        from.children().contains_key(path[0]) && leads(
            from.children()[path[0]],
            path.skip(1),
            to,
        )
    }
}

/// True if trees of the type `T` say what their children are, and keep
/// them apart by key. What is stated of paths holds for such trees.
pub open spec fn well_kept<T: PathTree>() -> bool {
    T::shows_children() && T::Children::keeps_keys_apart()
}

/// True if the tree has the path `path`.
pub open spec fn has_path<T: PathTree>(tree: T, path: Seq<T::Key>) -> bool
    decreases path.len(),
{
    path.len() == 0 || (tree.children().contains_key(path[0]) && has_path(
        tree.children()[path[0]],
        path.skip(1),
    ))
}

/// True if along the path `path` each node of `after` has the children
/// that the node of `before` at its place had, but for the child on the
/// path. Nodes that `before` did not have are left open.
pub open spec fn kept<T: PathTree>(before: T, after: T, path: Seq<T::Key>) -> bool
    decreases path.len(),
{
    path.len() == 0 || {
        let key = path[0];
        &&& after.children() == before.children().insert(key, after.children()[key])
        &&& before.children().contains_key(key) ==> kept(
            before.children()[key],
            after.children()[key],
            path.skip(1),
        )
    }
}

/// True if `leaf` is the node at the end of `path` in `tree`, in case
/// the tree has that path.
pub open spec fn found<T: PathTree>(tree: T, path: Seq<T::Key>, leaf: T) -> bool {
    forall|node: T| leads(tree, path, node) ==> leaf == node
}

/// A path that leads somewhere is a path of the tree.
pub proof fn leads_along_a_path<T: PathTree>(tree: T, path: Seq<T::Key>, to: T)
    requires
        leads(tree, path, to),
    ensures
        has_path(tree, path),
    decreases path.len(),
{
    if path.len() > 0 {
        leads_along_a_path(tree.children()[path[0]], path.skip(1), to);
    }
}

/// Where a path is put into a tree and the node at its end is left as it
/// was, the tree keeps every path that it had.
pub proof fn paths_stay<T: PathTree>(
    before: T,
    after: T,
    put: Seq<T::Key>,
    leaf: T,
    path: Seq<T::Key>,
)
    requires
        kept(before, after, put),
        leads(after, put, leaf),
        found(before, put, leaf),
        has_path(before, path),
    ensures
        has_path(after, path),
    decreases path.len(),
{
    if put.len() == 0 {
        assert(leads(before, put, before));
    } else if path.len() > 0 {
        let key = put[0];
        if path[0] == key {
            let below = before.children()[key];
            assert forall|node: T| leads(below, put.skip(1), node) implies leaf == node by {
                assert(leads(before, put, node));
            }
            paths_stay(below, after.children()[key], put.skip(1), leaf, path.skip(1));
        }
    }
}

/// A tree whose nodes hold their children in a map.
pub trait PathTree: Sized + Default {
    /// What a step of a path is.
    type Key;

    /// The map that holds the children of a node.
    type Children: ChildMap<Self::Key, Self>;

    /// The children of the node. A tree that does not say has none known.
    open spec fn children(&self) -> Map<Self::Key, Self> {
        Map::empty()
    }

    /// True if trees of this type say what their children are. A type
    /// that does not say so does not.
    open spec fn shows_children() -> bool {
        false
    }

    /// The map of the children of the node.
    fn children_mut(&mut self) -> (r: &mut Self::Children)
        ensures
            Self::shows_children() ==> r.entries() == old(self).children() && final(self).children() == final(r).entries(),
    ;
}

/// What can be done with every [`PathTree`].
pub trait Paths: PathTree {
    /// Puts the path `path` into the tree, making nodes where there are
    /// none, and hands out the node at its end.
    fn insert_path(&mut self, path: Vec<Self::Key>) -> (r: &mut Self)
        ensures
            well_kept::<Self>() ==> {
                &&& leads(*final(self), path@, *final(r))
                &&& kept(*old(self), *final(self), path@)
                &&& found(*old(self), path@, *r)
            },
    ;

    /// Puts the path `path` into the tree, lets `f` work on the node at
    /// its end, and hands out that node.
    fn insert_path_with<F: FnOnce(&mut Self)>(&mut self, path: Vec<Self::Key>, f: F) -> (r:
        &mut Self)
        requires
            forall|leaf: &mut Self| f.requires((leaf,)),
        ensures
            well_kept::<Self>() ==> {
                &&& leads(*final(self), path@, *final(r))
                &&& kept(*old(self), *final(self), path@)
            },
    ;

    /// Puts each of the paths into the tree.
    fn extend_paths(&mut self, paths: Vec<Vec<Self::Key>>)
        ensures
            well_kept::<Self>() ==> forall|i: int|
                0 <= i < paths@.len() ==> has_path(*final(self), (#[trigger] paths@[i])@),
    ;
}

impl<T: PathTree> Paths for T {
    fn insert_path(&mut self, path: Vec<T::Key>) -> (r: &mut T) {
        let mut rest: Vec<T::Key> = Vec::new();
        let mut path = path;
        let ghost whole = path@;
        while path.len() > 0
            invariant
                rest@.len() + path@.len() == whole.len(),
                forall|i: int| 0 <= i < path@.len() ==> path@[i] == whole[i],
                forall|i: int| 0 <= i < rest@.len() ==> rest@[i] == whole[whole.len() - 1 - i],
            decreases path.len(),
        {
            match path.pop() {
                Some(key) => {
                    rest.push(key);
                },
                None => {},
            }
        }
        assert(rest@.reverse() =~= whole);
        descend(self, rest)
    }

    fn insert_path_with<F: FnOnce(&mut T)>(&mut self, path: Vec<T::Key>, f: F) -> (r: &mut T) {
        let leaf = self.insert_path(path);
        f(leaf);
        leaf
    }

    fn extend_paths(&mut self, paths: Vec<Vec<T::Key>>) {
        let mut paths = paths;
        let ghost all = paths@;
        let mut done: usize = 0;
        let mut turned: Vec<Vec<T::Key>> = Vec::new();
        while paths.len() > 0
            invariant
                turned@.len() + paths@.len() == all.len(),
                forall|i: int| 0 <= i < paths@.len() ==> paths@[i] == all[i],
                forall|i: int| 0 <= i < turned@.len() ==> turned@[i] == all[all.len() - 1 - i],
            decreases paths.len(),
        {
            match paths.pop() {
                Some(path) => {
                    turned.push(path);
                },
                None => {},
            }
        }
        let ghost mut put: int = 0;
        while turned.len() > 0
            invariant
                0 <= put,
                put + turned@.len() == all.len(),
                forall|i: int| 0 <= i < turned@.len() ==> turned@[i] == all[all.len() - 1 - i],
                well_kept::<T>() ==> forall|i: int|
                    0 <= i < put ==> has_path(*self, (#[trigger] all[i])@),
            decreases turned.len(),
        {
            match turned.pop() {
                Some(path) => {
                    let ghost before = *self;
                    let ghost keys = path@;
                    assert(path == all[put]);
                    let end = self.insert_path(path);
                    let ghost leaf = *end;
                    proof {
                        if well_kept::<T>() {
                            assert forall|i: int| 0 <= i < put + 1 implies has_path(
                                *self,
                                (#[trigger] all[i])@,
                            ) by {
                                if i < put {
                                    paths_stay(before, *self, keys, leaf, all[i]@);
                                } else {
                                    leads_along_a_path(*self, keys, leaf);
                                }
                            }
                        }
                        put = put + 1;
                    }
                },
                None => {},
            }
        }
    }
}

/// Follows the keys of `rest` from its end to its beginning.
fn descend<T: PathTree>(node: &mut T, rest: Vec<T::Key>) -> (r: &mut T)
    ensures
        well_kept::<T>() ==> {
            &&& leads(*final(node), rest@.reverse(), *final(r))
            &&& kept(*old(node), *final(node), rest@.reverse())
            &&& found(*old(node), rest@.reverse(), *r)
        },
    decreases rest@.len(),
{
    let mut rest = rest;
    let ghost path = rest@.reverse();
    match rest.pop() {
        None => {
            assert(path.len() == 0);
            node
        },
        Some(key) => {
            let ghost before = *node;
            let children = node.children_mut();
            let child = children.get_or_create(key);
            let ghost child_before = *child;
            let leaf = descend(child, rest);
            proof {
                assert(path.skip(1) =~= rest@.reverse());
                if well_kept::<T>() {
                    assert forall|end: T| leads(before, path, end) implies *leaf == end by {
                        assert(leads(child_before, rest@.reverse(), end));
                    }
                }
            }
            leaf
        },
    }
}

/// A tree with whole numbers for keys.
#[derive(Debug, Default)]
pub struct IntTree {
    pub children: HashMap<i32, IntTree>,
}

impl PathTree for IntTree {
    type Key = i32;

    type Children = HashMap<i32, IntTree>;

    open spec fn children(&self) -> Map<i32, IntTree> {
        self.children@
    }

    open spec fn shows_children() -> bool {
        true
    }

    fn children_mut(&mut self) -> (r: &mut HashMap<i32, IntTree>) {
        &mut self.children
    }
}

} // verus!
