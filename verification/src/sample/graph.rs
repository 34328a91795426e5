//! A directed graph with weights on its edges.

use std::collections::VecDeque;
use vstd::prelude::*;

verus! {

/// The number of a node.
#[derive(Clone, Copy, PartialEq, Eq, PartialOrd, Ord, Hash, Debug, Structural)]
pub struct NodeId(pub usize);

impl From<usize> for NodeId {
    fn from(value: usize) -> (r: Self)
        ensures
            r == NodeId(value),
    {
        NodeId(value)
    }
}

impl vstd::std_specs::convert::FromSpecImpl<usize> for NodeId {
    open spec fn obeys_from_spec() -> bool {
        true
    }

    open spec fn from_spec(value: usize) -> Self {
        NodeId(value)
    }
}

impl From<NodeId> for usize {
    fn from(value: NodeId) -> (r: usize)
        ensures
            r == value.0,
    {
        value.0
    }
}

impl vstd::std_specs::convert::FromSpecImpl<NodeId> for usize {
    open spec fn obeys_from_spec() -> bool {
        true
    }

    open spec fn from_spec(value: NodeId) -> usize {
        value.0
    }
}

/// The number of entries of `marks` that are not set.
pub open spec fn unmarked(marks: Seq<bool>) -> int
    decreases marks.len(),
{
    if marks.len() == 0 {
        0
    } else {
        unmarked(marks.drop_last()) + if marks.last() {
            0int
        } else {
            1int
        }
    }
}

proof fn lemma_mark(marks: Seq<bool>, at: int)
    requires
        0 <= at < marks.len(),
        !marks[at],
    ensures
        unmarked(marks.update(at, true)) == unmarked(marks) - 1,
        unmarked(marks) >= 1,
    decreases marks.len(),
{
    let after = marks.update(at, true);
    if at == marks.len() - 1 {
        assert(after.drop_last() =~= marks.drop_last());
        lemma_unmarked_nonnegative(marks.drop_last());
    } else {
        assert(after.drop_last() =~= marks.drop_last().update(at, true));
        lemma_mark(marks.drop_last(), at);
    }
}

proof fn lemma_unmarked_nonnegative(marks: Seq<bool>)
    ensures
        unmarked(marks) >= 0,
    decreases marks.len(),
{
    if marks.len() > 0 {
        lemma_unmarked_nonnegative(marks.drop_last());
    }
}

/// A graph as a list of the edges that leave each node.
#[derive(Debug)]
pub struct Graph<E> {
    edges: Vec<Vec<(NodeId, E)>>,
}

impl<E> Graph<E> {
    /// The number of nodes.
    pub closed spec fn nodes(&self) -> nat {
        self.edges@.len()
    }

    /// The edges that leave the node `node`, in the order in which they
    /// were added.
    pub closed spec fn edges_from(&self, node: int) -> Seq<(NodeId, E)> {
        self.edges@[node]@
    }

    /// True if an edge leads from `from` to `to`.
    pub open spec fn has_edge(&self, from: int, to: int) -> bool {
        0 <= from < self.nodes() && exists|k: int|
            0 <= k < self.edges_from(from).len() && (#[trigger] self.edges_from(from)[k]).0.0
                == to
    }

    /// True if every edge ends at a node of the graph.
    pub open spec fn wf(&self) -> bool {
        forall|from: int, k: int|
            0 <= from < self.nodes() && 0 <= k < self.edges_from(from).len() ==> (
            #[trigger] self.edges_from(from)[k]).0.0 < self.nodes()
    }

    /// True if `path` leads from its first node to its last along edges of
    /// the graph.
    pub open spec fn is_path(&self, path: Seq<int>) -> bool {
        &&& path.len() > 0
        &&& forall|i: int| 0 <= i < path.len() - 1 ==> self.has_edge(path[i], #[trigger] path[i + 1])
    }

    /// True if a path leads from `start` to `goal`. Every node is reached
    /// from itself.
    pub open spec fn reaches(&self, start: int, goal: int) -> bool {
        exists|path: Seq<int>| #[trigger]
            self.is_path(path) && path.first() == start && path.last() == goal
    }

    /// A graph of `num_nodes` nodes without edges.
    pub fn new(num_nodes: usize) -> (r: Self)
        ensures
            r.nodes() == num_nodes,
            r.wf(),
            forall|n: int| 0 <= n < num_nodes ==> #[trigger] r.edges_from(n) == Seq::<
                (NodeId, E),
            >::empty(),
    {
        let mut edges: Vec<Vec<(NodeId, E)>> = Vec::new();
        let mut i: usize = 0;
        while i < num_nodes
            invariant
                i <= num_nodes,
                edges@.len() == i,
                forall|n: int| 0 <= n < i ==> (#[trigger] edges@[n])@ == Seq::<(NodeId, E)>::empty(),
            decreases num_nodes - i,
        {
            edges.push(Vec::new());
            i = i + 1;
        }
        Graph { edges }
    }

    /// Adds an edge from `src` to `dst`.
    pub fn add_edge(&mut self, src: NodeId, dst: NodeId, weight: E)
        requires
            src.0 < old(self).nodes(),
        ensures
            final(self).nodes() == old(self).nodes(),
            final(self).edges_from(src.0 as int) == old(self).edges_from(src.0 as int).push(
                (dst, weight),
            ),
            forall|n: int|
                0 <= n < old(self).nodes() && n != src.0 ==> #[trigger] final(self).edges_from(n)
                    == old(self).edges_from(n),
            old(self).wf() && dst.0 < old(self).nodes() ==> final(self).wf(),
    {
        let mut row: Vec<(NodeId, E)> = Vec::new();
        std::mem::swap(&mut row, &mut self.edges[src.0]);
        row.push((dst, weight));
        self.edges[src.0] = row;
        proof {
            if old(self).wf() && dst.0 < old(self).nodes() {
                assert forall|from: int, k: int|
                    0 <= from < self.nodes() && 0 <= k < self.edges_from(from).len() implies (
                #[trigger] self.edges_from(from)[k]).0.0 < self.nodes() by {
                    if from == src.0 {
                        if k < old(self).edges_from(from).len() {
                            assert(self.edges_from(from)[k] == old(self).edges_from(from)[k]);
                        }
                    } else {
                        assert(self.edges_from(from) == old(self).edges_from(from));
                    }
                }
            }
        }
    }

    /// A path that ends at `from` goes on along an edge to `to`.
    proof fn lemma_step(&self, start: int, from: int, to: int)
        requires
            self.reaches(start, from),
            self.has_edge(from, to),
        ensures
            self.reaches(start, to),
    {
        let path = choose|path: Seq<int>| #[trigger]
            self.is_path(path) && path.first() == start && path.last() == from;
        let longer = path.push(to);
        assert(self.is_path(longer) && longer.first() == start && longer.last() == to);
    }

    /// A path that begins inside a set of nodes that no edge leaves stays
    /// inside it.
    proof fn lemma_stays(&self, inside: Seq<bool>, path: Seq<int>, i: int)
        requires
            self.is_path(path),
            inside.len() == self.nodes(),
            0 <= path[0] < self.nodes() && inside[path[0]],
            forall|v: int, k: int|
                0 <= v < self.nodes() && inside[v] && 0 <= k < self.edges_from(v).len() ==> inside[(
                #[trigger] self.edges_from(v)[k]).0.0 as int],
            self.wf(),
            0 <= i < path.len(),
        ensures
            0 <= path[i] < self.nodes() && inside[path[i]],
        decreases i,
    {
        if i > 0 {
            self.lemma_stays(inside, path, i - 1);
            assert(self.has_edge(path[i - 1], path[i - 1 + 1]));
        }
    }

    /// True if a path leads from `start` to `goal`.
    pub fn path_exists(&self, start: NodeId, goal: NodeId) -> (r: bool)
        requires
            self.wf(),
            start == goal || start.0 < self.nodes(),
        ensures
            r == self.reaches(start.0 as int, goal.0 as int),
    {
        if start.0 == goal.0 {
            proof {
                let path = seq![start.0 as int];
                assert(self.is_path(path) && path.first() == start.0 && path.last() == goal.0);
            }
            return true;
        }
        let n = self.edges.len();
        let mut visited: Vec<bool> = Vec::new();
        let mut i: usize = 0;
        while i < n
            invariant
                i <= n,
                visited@.len() == i,
                forall|v: int| 0 <= v < i ==> !(#[trigger] visited@[v]),
            decreases n - i,
        {
            visited.push(false);
            i = i + 1;
        }
        let mut queue: VecDeque<NodeId> = VecDeque::new();
        queue.push_back(start);
        visited[start.0] = true;
        let ghost mut unvisited: int = unmarked(visited@);
        proof {
            let path = seq![start.0 as int];
            assert(self.is_path(path) && path.first() == start.0 && path.last() == start.0);
            assert(queue@[0] == start);
        }
        while queue.len() > 0
            invariant
                self.wf(),
                n == self.nodes(),
                visited@.len() == n,
                start.0 < n,
                start.0 != goal.0,
                visited@[start.0 as int],
                goal.0 < n ==> !visited@[goal.0 as int],
                unvisited == unmarked(visited@),
                forall|v: int|
                    0 <= v < n && #[trigger] visited@[v] ==> self.reaches(start.0 as int, v),
                forall|q: int|
                    0 <= q < queue@.len() ==> (#[trigger] queue@[q]).0 < n && visited@[queue@[q].0 as int],
                forall|v: int, k: int|
                    0 <= v < n && visited@[v] && 0 <= k < self.edges_from(v).len() ==> visited@[(
                    #[trigger] self.edges_from(v)[k]).0.0 as int] || exists|q: int|
                        0 <= q < queue@.len() && (#[trigger] queue@[q]).0 == v,
            decreases unvisited, queue@.len(),
        {
            let ghost waiting = queue@;
            let ghost round_start = unvisited;
            let node = match queue.pop_front() {
                Some(node) => node,
                None => {
                    return false;
                },
            };
            let row = &self.edges[node.0];
            let mut j: usize = 0;
            proof {
                assert forall|v: int, k: int|
                    0 <= v < n && v != node.0 && visited@[v] && 0 <= k < self.edges_from(
                        v,
                    ).len() implies visited@[(#[trigger] self.edges_from(v)[k]).0.0 as int]
                    || exists|q: int|
                    0 <= q < queue@.len() && (#[trigger] queue@[q]).0 == v by {
                    if !visited@[self.edges_from(v)[k].0.0 as int] {
                        let q = choose|q: int|
                            0 <= q < waiting.len() && (#[trigger] waiting[q]).0 == v;
                        assert(queue@[q - 1].0 == v);
                    }
                }
            }
            while j < row.len()
                invariant
                    self.wf(),
                    n == self.nodes(),
                    visited@.len() == n,
                    start.0 < n,
                    start.0 != goal.0,
                    node.0 < n,
                    row@ == self.edges_from(node.0 as int),
                    j <= row@.len(),
                    visited@[start.0 as int],
                    visited@[node.0 as int],
                    goal.0 < n ==> !visited@[goal.0 as int],
                    unvisited == unmarked(visited@),
                    unvisited <= round_start,
                    unvisited == round_start ==> queue@.len() == waiting.len() - 1,
                    forall|v: int|
                        0 <= v < n && #[trigger] visited@[v] ==> self.reaches(start.0 as int, v),
                    forall|q: int|
                        0 <= q < queue@.len() ==> (#[trigger] queue@[q]).0 < n && visited@[queue@[q].0 as int],
                    forall|k: int|
                        0 <= k < j ==> visited@[(#[trigger] row@[k]).0.0 as int],
                    forall|v: int, k: int|
                        0 <= v < n && v != node.0 && visited@[v] && 0 <= k < self.edges_from(
                            v,
                        ).len() ==> visited@[(#[trigger] self.edges_from(v)[k]).0.0 as int]
                            || exists|q: int|
                            0 <= q < queue@.len() && (#[trigger] queue@[q]).0 == v,
                decreases row@.len() - j,
            {
                let next = row[j].0;
                if !visited[next.0] {
                    proof {
                        self.lemma_step(start.0 as int, node.0 as int, next.0 as int);
                    }
                    if next.0 == goal.0 {
                        return true;
                    }
                    let ghost marks = visited@;
                    let ghost line = queue@;
                    visited[next.0] = true;
                    queue.push_back(next);
                    proof {
                        lemma_mark(marks, next.0 as int);
                        unvisited = unvisited - 1;
                        assert forall|v: int, k: int|
                            0 <= v < n && v != node.0 && visited@[v] && 0 <= k
                                < self.edges_from(v).len() implies visited@[(
                        #[trigger] self.edges_from(v)[k]).0.0 as int] || exists|q: int|
                            0 <= q < queue@.len() && (#[trigger] queue@[q]).0 == v by {
                            if v == next.0 {
                                assert(queue@[line.len() as int].0 == v);
                            } else if !marks[self.edges_from(v)[k].0.0 as int] {
                                let q = choose|q: int|
                                    0 <= q < line.len() && (#[trigger] line[q]).0 == v;
                                assert(queue@[q].0 == v);
                            }
                        }
                    }
                }
                j = j + 1;
            }
            proof {
                lemma_unmarked_nonnegative(visited@);
            }
        }
        proof {
            if self.reaches(start.0 as int, goal.0 as int) {
                let path = choose|path: Seq<int>| #[trigger]
                    self.is_path(path) && path.first() == start.0 && path.last() == goal.0;
                self.lemma_stays(visited@, path, path.len() - 1);
            }
        }
        false
    }

    /// The edges that leave `node`.
    pub fn neighbors(&self, node: NodeId) -> (r: &Vec<(NodeId, E)>)
        requires
            node.0 < self.nodes(),
        ensures
            r@ == self.edges_from(node.0 as int),
    {
        &self.edges[node.0]
    }
}

} // verus!
