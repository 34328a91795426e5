//! Containers with a small interface.

use crate::sample::error::TestError;
use std::collections::BTreeMap;
use vstd::prelude::*;

verus! {

/// A value in a wrapper of its own.
#[derive(Debug, Clone, PartialEq, Eq, PartialOrd, Ord, Hash)]
pub struct Wrapper<T>(pub T);

/// A vector that holds at most `N` elements.
#[derive(Debug, PartialEq, Eq)]
pub struct BoundedVec<T, const N: usize> {
    inner: Vec<T>,
}

impl<T, const N: usize> View for BoundedVec<T, N> {
    type V = Seq<T>;

    closed spec fn view(&self) -> Seq<T> {
        self.inner@
    }
}

impl<T, const N: usize> BoundedVec<T, N> {
    /// True if the vector holds no more than it may.
    pub closed spec fn wf(&self) -> bool {
        self.inner@.len() <= N
    }

    /// An empty list.
    pub fn new() -> (r: Self)
        ensures
            r.wf(),
            r@ == Seq::<T>::empty(),
    {
        BoundedVec { inner: Vec::new() }
    }

    /// Appends `value`, unless the vector is full.
    pub fn push(&mut self, value: T) -> (r: Result<(), TestError>)
        requires
            old(self).wf(),
        ensures
            final(self).wf(),
            old(self)@.len() < N ==> r is Ok && final(self)@ == old(self)@.push(value),
            old(self)@.len() >= N ==> r == Err::<(), TestError>(TestError::CapacityExceeded(N))
                && final(self)@ == old(self)@,
    {
        if self.inner.len() >= N {
            return Err(TestError::CapacityExceeded(N));
        }
        self.inner.push(value);
        Ok(())
    }

    /// Takes the last element away, if there is one.
    pub fn pop(&mut self) -> (r: Option<T>)
        requires
            old(self).wf(),
        ensures
            final(self).wf(),
            old(self)@.len() == 0 ==> r is None && final(self)@ == old(self)@,
            old(self)@.len() > 0 ==> r == Some(old(self)@.last()) && final(self)@ == old(
                self,
            )@.drop_last(),
    {
        self.inner.pop()
    }

    /// The elements, the first pushed first.
    pub fn as_slice(&self) -> (r: &[T])
        ensures
            r@ == self@,
    {
        self.inner.as_slice()
    }
}

/// A store of items, each under an id.
pub trait Repository {
    type Id: Copy + Eq;

    type Item;

    fn get(&self, id: Self::Id) -> Option<&Self::Item>;

    fn insert(&mut self, id: Self::Id, item: Self::Item) -> Option<Self::Item>;
}

/// A store that keeps its items in memory, in the order of their ids.
#[derive(Debug)]
pub struct InMemoryRepo<Id: Copy + Eq, Item> {
    map: BTreeMap<Id, Item>,
}

impl<Id: Copy + Eq, Item> View for InMemoryRepo<Id, Item> {
    type V = Map<Id, Item>;

    closed spec fn view(&self) -> Map<Id, Item> {
        self.map@
    }
}

impl<Id: Copy + Eq, Item> Default for InMemoryRepo<Id, Item> {
    fn default() -> (r: Self)
        ensures
            r@ == Map::<Id, Item>::empty(),
    {
        InMemoryRepo { map: BTreeMap::new() }
    }
}

impl<Id: Copy + Ord, Item> Repository for InMemoryRepo<Id, Item> {
    type Id = Id;

    type Item = Item;

    /// The item under `id`, if there is one. This holds for ids whose
    /// order is a total order.
    fn get(&self, id: Id) -> (r: Option<&Item>)
        ensures
            vstd::laws_cmp::obeys_cmp::<Id>() ==> match r {
                Some(item) => self@.contains_key(id) && self@[id] == *item,
                None => !self@.contains_key(id),
            },
    {
        broadcast use vstd::std_specs::btree::group_btree_axioms;

        self.map.get(&id)
    }

    /// Puts `item` under `id`, and hands back the item that was there.
    /// This holds for ids whose order is a total order.
    fn insert(&mut self, id: Id, item: Item) -> (r: Option<Item>)
        ensures
            vstd::laws_cmp::obeys_cmp::<Id>() ==> final(self)@ == old(self)@.insert(id, item)
                && match r {
                Some(before) => old(self)@.contains_key(id) && before == old(self)@[id],
                None => !old(self)@.contains_key(id),
            },
    {
        self.map.insert(id, item)
    }
}

} // verus!
