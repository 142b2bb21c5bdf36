//! Identifiable nodes and the graph that owns them.
use vstd::prelude::*;

verus! {

/// A value with an identifier that tells it apart from every other value of its kind.
pub trait Identify {
    /// The identifier of the value.
    spec fn key(&self) -> u64;

    fn id(&self) -> (r: u64)
        ensures
            r == self.key(),
    ;
}

/// Whether some node of `nodes` has the identifier `k`.
pub open spec fn has_key<T: Identify>(nodes: Seq<T>, k: u64) -> bool {
    exists|i: int| 0 <= i < nodes.len() && (#[trigger] nodes[i]).key() == k
}

/// No two nodes of `nodes` share an identifier.
pub open spec fn keys_unique<T: Identify>(nodes: Seq<T>) -> bool {
    forall|i: int, j: int|
        0 <= i < nodes.len() && 0 <= j < nodes.len() && i != j ==> (#[trigger] nodes[i]).key()
            != (#[trigger] nodes[j]).key()
}

/// The nodes after `node` has been put into `nodes`: it takes the place of the node
/// with its identifier, if there is one, and comes last otherwise.
pub open spec fn put_node<T: Identify>(nodes: Seq<T>, node: T) -> Seq<T> {
    if has_key(nodes, node.key()) {
        let i = choose|i: int| 0 <= i < nodes.len() && (#[trigger] nodes[i]).key() == node.key();
        nodes.update(i, node)
    } else {
        nodes.push(node)
    }
}

/// A graph owns its nodes, at most one for each identifier.
pub struct Graph<T> {
    nodes: Vec<T>,
}

impl<T: Identify> Graph<T> {
    /// The nodes of the graph, in the order they were first inserted.
    pub closed spec fn view(&self) -> Seq<T> {
        self.nodes@
    }

    pub open spec fn wf(&self) -> bool {
        keys_unique(self@)
    }

    pub fn new() -> (r: Self)
        ensures
            r.wf(),
            r@ == Seq::<T>::empty(),
    {
        Graph { nodes: Vec::new() }
    }

    /// All nodes, in the order they were first inserted.
    pub fn values(&self) -> (r: &Vec<T>)
        ensures
            r@ == self@,
    {
        &self.nodes
    }

    /// The number of nodes in the graph.
    pub fn len(&self) -> (r: usize)
        ensures
            r == self@.len(),
    {
        self.nodes.len()
    }

    /// The position of the node with identifier `k`, if any.
    pub fn position(&self, k: u64) -> (r: Option<usize>)
        requires
            self.wf(),
        ensures
            match r {
                Some(i) => i < self@.len() && self@[i as int].key() == k,
                None => !has_key(self@, k),
            },
    {
        let mut i: usize = 0;
        while i < self.nodes.len()
            invariant
                i <= self.nodes@.len(),
                forall|j: int| 0 <= j < i ==> (#[trigger] self.nodes@[j]).key() != k,
            decreases self.nodes@.len() - i,
        {
            if self.nodes[i].id() == k {
                return Some(i);
            }
            i = i + 1;
        }
        None
    }

    /// Whether the graph holds a node with identifier `k`.
    pub fn contains(&self, k: u64) -> (r: bool)
        requires
            self.wf(),
        ensures
            r == has_key(self@, k),
    {
        self.position(k).is_some()
    }

    /// The node with identifier `k`, if any.
    pub fn get(&self, k: u64) -> (r: Option<&T>)
        requires
            self.wf(),
        ensures
            match r {
                Some(n) => has_key(self@, k) && n.key() == k && self@.contains(*n),
                None => !has_key(self@, k),
            },
    {
        match self.position(k) {
            Some(i) => Some(&self.nodes[i]),
            None => None,
        }
    }

    /// Puts `node` into the graph, in place of the node with its identifier if there is one.
    pub fn insert(&mut self, node: T)
        requires
            old(self).wf(),
        ensures
            final(self).wf(),
            final(self)@ == put_node(old(self)@, node),
    {
        let k = node.id();
        match self.position(k) {
            Some(i) => {
                let ghost nodes = self.nodes@;
                proof {
                    let j = choose|j: int| 0 <= j < nodes.len() && (#[trigger] nodes[j]).key() == k;
                    if j != i {
                        assert(nodes[j].key() == nodes[i as int].key());
                    }
                }
                self.nodes.set(i, node);
                assert forall|a: int, b: int|
                    0 <= a < self.nodes@.len() && 0 <= b < self.nodes@.len() && a != b implies (
                    #[trigger] self.nodes@[a]).key() != (#[trigger] self.nodes@[b]).key() by {
                    if a != i && b != i {
                        assert(nodes[a] == self.nodes@[a] && nodes[b] == self.nodes@[b]);
                    } else if a == i {
                        assert(nodes[b] == self.nodes@[b]);
                    } else {
                        assert(nodes[a] == self.nodes@[a]);
                    }
                }
            },
            None => {
                self.nodes.push(node);
                assert forall|a: int, b: int|
                    0 <= a < self.nodes@.len() && 0 <= b < self.nodes@.len() && a != b implies (
                    #[trigger] self.nodes@[a]).key() != (#[trigger] self.nodes@[b]).key() by {
                    let n = self.nodes@.len() - 1;
                    if a == n {
                        assert(self.nodes@[b] == old(self).nodes@[b]);
                    } else if b == n {
                        assert(self.nodes@[a] == old(self).nodes@[a]);
                    }
                }
            },
        }
    }
}

} // verus!
