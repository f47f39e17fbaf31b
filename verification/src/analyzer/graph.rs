use vstd::prelude::*;
use crate::text::{cat3};
use crate::text::{str_eq, views};

verus! {

/// The dependency graph of fields: one node per `(entity, field)` and an
/// edge from a field to every field computed from it.
pub struct DependencyGraph {
    pub nodes: Vec<(String, String)>,
    pub dependents: Vec<Vec<usize>>,
}

/// What is left when no order exists: the names of the fields that stand on
/// a cycle or downstream of one.
#[derive(Debug)]
pub struct CycleError {
    pub chain: Vec<String>,
}

pub open spec fn node_view(n: (String, String)) -> (Seq<char>, Seq<char>) {
    (n.0@, n.1@)
}

impl DependencyGraph {
    pub open spec fn len(&self) -> nat {
        self.nodes@.len()
    }

    pub open spec fn node(&self, i: int) -> (Seq<char>, Seq<char>) {
        node_view(self.nodes@[i])
    }

    /// `v` is computed from `u`.
    pub open spec fn edge(&self, u: int, v: int) -> bool {
        0 <= u < self.len() && 0 <= v < self.len() && self.dependents@[u]@.contains(v as usize)
    }

    pub open spec fn wf(&self) -> bool {
        &&& self.nodes@.len() == self.dependents@.len()
        &&& self.nodes@.len() <= usize::MAX
        &&& forall|u: int, k: int|
            0 <= u < self.dependents@.len() && 0 <= k < self.dependents@[u]@.len() ==> (
            #[trigger] self.dependents@[u]@[k]) < self.nodes@.len()
        &&& forall|i: int, j: int|
            0 <= i < j < self.nodes@.len() ==> #[trigger] self.node(i) != #[trigger] self.node(j)
    }

    /// `order` lists every node once, each after every node it is computed from.
    pub open spec fn is_topo_order(&self, order: Seq<usize>) -> bool {
        &&& order.len() == self.len()
        &&& forall|k: int| 0 <= k < order.len() ==> order[k] < self.len()
        &&& forall|v: usize| (v as int) < self.len() ==> #[trigger] order.contains(v)
        &&& forall|i: int, j: int|
            0 <= i < order.len() && 0 <= j < order.len() && #[trigger] self.edge(
                order[i] as int,
                order[j] as int,
            ) ==> i < j
    }

    /// `p` walks backwards along edges: each `p[i + 1]` is computed into `p[i]`.
    pub open spec fn back_walk(&self, p: Seq<int>) -> bool {
        forall|i: int, j: int| 0 <= i && j == i + 1 && j < p.len() ==> #[trigger] self.edge(p[j], p[i])
    }

    /// Node `v` stands on a cycle or downstream of one: a backward walk from
    /// it goes through more edges than the graph has nodes.
    pub open spec fn blocked(&self, v: int) -> bool {
        exists|p: Seq<int>| #[trigger] self.back_walk(p) && p.len() == self.len() + 1 && p[0] == v
    }

    /// A node's name as `entity.field`.
    pub open spec fn node_name(&self, i: int) -> Seq<char> {
        self.node(i).0 + "."@ + self.node(i).1
    }

    /// The names of the blocked nodes among the first `k`, in index order.
    pub open spec fn blocked_names(&self, k: int) -> Seq<Seq<char>>
        decreases k,
    {
        if k <= 0 {
            Seq::empty()
        } else if self.blocked(k - 1) {
            self.blocked_names(k - 1).push(self.node_name(k - 1))
        } else {
            self.blocked_names(k - 1)
        }
    }

    /// The nodes by name.
    pub open spec fn named_nodes(&self) -> Set<(Seq<char>, Seq<char>)> {
        Set::new(|p: (Seq<char>, Seq<char>)| exists|i: int| 0 <= i < self.len() && self.node(i) == p)
    }

    /// The edges by the names of their ends.
    pub open spec fn named_edges(&self) -> Set<((Seq<char>, Seq<char>), (Seq<char>, Seq<char>))> {
        Set::new(
            |p: ((Seq<char>, Seq<char>), (Seq<char>, Seq<char>))|
                exists|u: int, v: int| #[trigger] self.edge(u, v) && self.node(u) == p.0 && self.node(v) == p.1,
        )
    }

    /// The index of the node `(entity, field)`, if it exists.
    pub open spec fn index_of(&self, entity: Seq<char>, field: Seq<char>) -> Option<int> {
        if exists|i: int| 0 <= i < self.len() && self.node(i) == (entity, field) {
            Some(choose|i: int| 0 <= i < self.len() && self.node(i) == (entity, field))
        } else {
            None
        }
    }

    pub fn new() -> (g: Self)
        ensures
            g.wf(),
            g.len() == 0,
    {
        DependencyGraph { nodes: Vec::new(), dependents: Vec::new() }
    }

    /// The index of the node `(entity, field)`, if it exists.
    pub fn get_node(&self, entity: &str, field: &str) -> (r: Option<usize>)
        requires
            self.wf(),
        ensures
            match r {
                Some(i) => i < self.len() && self.node(i as int) == (entity@, field@),
                None => forall|i: int| 0 <= i < self.len() ==> self.node(i) != (entity@, field@),
            },
    {
        let n = self.nodes.len();
        let mut i: usize = 0;
        while i < n
            invariant
                n == self.nodes@.len(),
                i <= n,
                forall|j: int| 0 <= j < i ==> self.node(j) != (entity@, field@),
            decreases n - i,
        {
            if str_eq(self.nodes[i].0.as_str(), entity) && str_eq(self.nodes[i].1.as_str(), field) {
                return Some(i);
            }
            i += 1;
        }
        None
    }

    /// The node `(entity, field)`, added without edges if it is new.
    pub fn intern(&mut self, entity: &str, field: &str) -> (id: usize)
        requires
            old(self).wf(),
        ensures
            final(self).wf(),
            id < final(self).len(),
            final(self).node(id as int) == (entity@, field@),
            forall|i: int| 0 <= i < old(self).len() ==> final(self).node(i) == old(self).node(i),
            forall|u: int, v: int| #[trigger] final(self).edge(u, v) == old(self).edge(u, v),
            old(self).index_of(entity@, field@) is Some ==> final(self).len() == old(self).len(),
            old(self).index_of(entity@, field@) is None ==> final(self).len() == old(self).len() + 1,
            final(self).named_nodes() == old(self).named_nodes().insert((entity@, field@)),
            final(self).named_edges() == old(self).named_edges(),
    {
        let ghost g0 = *self;
        match self.get_node(entity, field) {
            Some(i) => {
                assert(self.named_nodes() =~= g0.named_nodes().insert((entity@, field@)));
                i
            },
            None => {
                let id = self.nodes.len();
                let ghost old_g = *self;
                self.nodes.push((String::from_str(entity), String::from_str(field)));
                self.dependents.push(Vec::new());
                let count = self.nodes.len();
                assert(count == id + 1);
                proof {
                    assert forall|i: int, j: int| 0 <= i < j < self.nodes@.len() implies #[trigger] self.node(i)
                        != #[trigger] self.node(j) by {
                        if j == id {
                            assert(old_g.node(i) == self.node(i));
                        } else {
                            assert(old_g.node(i) == self.node(i) && old_g.node(j) == self.node(j));
                        }
                    }
                    assert forall|u: int, k: int|
                        0 <= u < self.dependents@.len() && 0 <= k < self.dependents@[u]@.len() implies (
                        #[trigger] self.dependents@[u]@[k]) < self.nodes@.len() by {
                        if u < id {
                            assert(self.dependents@[u] == old_g.dependents@[u]);
                        }
                    }
                    assert forall|u: int, v: int| #[trigger] self.edge(u, v) == old_g.edge(u, v) by {
                        if 0 <= u < old_g.len() && 0 <= v < self.len() {
                            assert(self.dependents@[u] == old_g.dependents@[u]);
                            if v == id {
                                assert forall|k: int| 0 <= k < old_g.dependents@[u]@.len() implies
                                    old_g.dependents@[u]@[k] != v as usize by {
                                    assert(old_g.dependents@[u]@[k] < old_g.len());
                                }
                            }
                        }
                    }
                    assert(self.named_nodes() =~= old_g.named_nodes().insert((entity@, field@))) by {
                        assert forall|p: (Seq<char>, Seq<char>)| old_g.named_nodes().insert((entity@, field@)).contains(p) implies self.named_nodes().contains(p) by {
                            if p == (entity@, field@) {
                                assert(self.node(id as int) == p);
                            } else {
                                let i = choose|i: int| 0 <= i < old_g.len() && old_g.node(i) == p;
                                assert(self.node(i) == p);
                            }
                        }
                        assert forall|p: (Seq<char>, Seq<char>)| self.named_nodes().contains(p) implies old_g.named_nodes().insert((entity@, field@)).contains(p) by {
                            let i = choose|i: int| 0 <= i < self.len() && self.node(i) == p;
                            if i < old_g.len() {
                                assert(old_g.node(i) == p);
                            }
                        }
                    }
                    assert(self.named_edges() =~= old_g.named_edges()) by {
                        assert forall|p: ((Seq<char>, Seq<char>), (Seq<char>, Seq<char>))| self.named_edges().contains(p) implies old_g.named_edges().contains(p) by {
                            let (u, v) = choose|u: int, v: int| #[trigger] self.edge(u, v) && self.node(u) == p.0 && self.node(v) == p.1;
                            assert(old_g.edge(u, v));
                            assert(old_g.node(u) == p.0 && old_g.node(v) == p.1);
                        }
                        assert forall|p: ((Seq<char>, Seq<char>), (Seq<char>, Seq<char>))| old_g.named_edges().contains(p) implies self.named_edges().contains(p) by {
                            let (u, v) = choose|u: int, v: int| #[trigger] old_g.edge(u, v) && old_g.node(u) == p.0 && old_g.node(v) == p.1;
                            assert(self.edge(u, v));
                            assert(self.node(u) == p.0 && self.node(v) == p.1);
                        }
                    }
                }
                id
            },
        }
    }

    /// Records that `to` is computed from `from`; an edge is kept once.
    pub fn add_edge(&mut self, from: usize, to: usize)
        requires
            old(self).wf(),
            from < old(self).len(),
            to < old(self).len(),
        ensures
            final(self).wf(),
            final(self).nodes@ == old(self).nodes@,
            forall|u: int, v: int|
                #[trigger] final(self).edge(u, v) == (old(self).edge(u, v) || (u == from && v == to)),
            final(self).named_nodes() == old(self).named_nodes(),
            final(self).named_edges() == old(self).named_edges().insert(
                (old(self).node(from as int), old(self).node(to as int)),
            ),
    {
        let ghost g0 = *self;
        let f = from as usize;
        let mut found = false;
        let m = self.dependents[f].len();
        let mut k: usize = 0;
        while k < m
            invariant
                m == self.dependents@[f as int]@.len(),
                f < self.dependents@.len(),
                k <= m,
                found == exists|j: int| 0 <= j < k && self.dependents@[f as int]@[j] == to,
            decreases m - k,
        {
            if self.dependents[f][k] == to {
                found = true;
            }
            k += 1;
        }
        if !found {
            let ghost old_g = *self;
            let mut row = self.dependents.remove(f);
            row.push(to);
            self.dependents.insert(f, row);
            assert(self.dependents@ =~= old_g.dependents@.update(f as int, self.dependents@[f as int]));
            proof {
                assert(self.nodes@ == old_g.nodes@);
                assert forall|i: int| 0 <= i < self.len() implies #[trigger] self.node(i) == old_g.node(i) by {}
                assert forall|u: int, k2: int|
                    0 <= u < self.dependents@.len() && 0 <= k2 < self.dependents@[u]@.len() implies (
                    #[trigger] self.dependents@[u]@[k2]) < self.nodes@.len() by {
                    if u != f {
                        assert(self.dependents@[u] == old_g.dependents@[u]);
                    } else if k2 < old_g.dependents@[u]@.len() {
                        assert(self.dependents@[u]@[k2] == old_g.dependents@[u]@[k2]);
                    }
                }
                assert forall|u: int, v: int|
                    #[trigger] self.edge(u, v) == (old_g.edge(u, v) || (u == from && v == to)) by {
                    if 0 <= u < self.len() && u != f {
                        assert(self.dependents@[u] == old_g.dependents@[u]);
                    }
                    if u == f && v == to {
                        assert(self.dependents@[u]@[self.dependents@[u]@.len() - 1] == to);
                    }
                    if u == f && 0 <= v < self.len() {
                        assert(self.dependents@[u]@ == old_g.dependents@[u]@.push(to));
                        if old_g.dependents@[u]@.contains(v as usize) {
                            let j = choose|j: int|
                                0 <= j < old_g.dependents@[u]@.len() && old_g.dependents@[u]@[j]
                                    == v as usize;
                            assert(self.dependents@[u]@[j] == v as usize);
                        }
                        if self.dependents@[u]@.contains(v as usize) && v != to {
                            let j = choose|j: int|
                                0 <= j < self.dependents@[u]@.len() && self.dependents@[u]@[j]
                                    == v as usize;
                            assert(old_g.dependents@[u]@[j] == v as usize);
                        }
                    }
                }
            }
        } else {
            proof {
                assert forall|u: int, v: int|
                    #[trigger] self.edge(u, v) == (self.edge(u, v) || (u == from && v == to)) by {
                    if u == from && v == to {
                        let j = choose|j: int| 0 <= j < m && self.dependents@[f as int]@[j] == to;
                        assert(self.dependents@[u]@[j] == v as usize);
                    }
                }
            }
        }
        proof {
            assert(self.nodes@ == g0.nodes@);
            assert forall|p: (Seq<char>, Seq<char>)| self.named_nodes().contains(p) == g0.named_nodes().contains(p) by {
                if self.named_nodes().contains(p) {
                    let i = choose|i: int| 0 <= i < self.len() && self.node(i) == p;
                    assert(g0.node(i) == p);
                }
                if g0.named_nodes().contains(p) {
                    let i = choose|i: int| 0 <= i < g0.len() && g0.node(i) == p;
                    assert(self.node(i) == p);
                }
            }
            assert(self.named_nodes() =~= g0.named_nodes());
            let e = (g0.node(from as int), g0.node(to as int));
            assert forall|p: ((Seq<char>, Seq<char>), (Seq<char>, Seq<char>))| self.named_edges().contains(p) implies g0.named_edges().insert(e).contains(p) by {
                let (u, v) = choose|u: int, v: int| #[trigger] self.edge(u, v) && self.node(u) == p.0 && self.node(v) == p.1;
                if g0.edge(u, v) {
                    assert(g0.node(u) == p.0 && g0.node(v) == p.1);
                }
            }
            assert forall|p: ((Seq<char>, Seq<char>), (Seq<char>, Seq<char>))| g0.named_edges().insert(e).contains(p) implies self.named_edges().contains(p) by {
                if p == e {
                    assert(self.edge(from as int, to as int));
                } else {
                    let (u, v) = choose|u: int, v: int| #[trigger] g0.edge(u, v) && g0.node(u) == p.0 && g0.node(v) == p.1;
                    assert(self.edge(u, v));
                }
            }
            assert(self.named_edges() =~= g0.named_edges().insert(e));
        }
    }

    /// Whether some node not yet placed is computed into `v`.
    fn has_pending_source(&self, placed: &Vec<bool>, v: usize) -> (r: bool)
        requires
            self.wf(),
            placed@.len() == self.len(),
            v < self.len(),
        ensures
            r == exists|u: int| 0 <= u < self.len() && !placed@[u] && self.edge(u, v as int),
    {
        let n = self.nodes.len();
        let mut u: usize = 0;
        while u < n
            invariant
                n == self.len(),
                self.wf(),
                placed@.len() == n,
                v < n,
                u <= n,
                forall|w: int| 0 <= w < u ==> !(!placed@[w] && self.edge(w, v as int)),
            decreases n - u,
        {
            if !placed[u] {
                let m = self.dependents[u].len();
                let mut k: usize = 0;
                while k < m
                    invariant
                        m == self.dependents@[u as int]@.len(),
                        self.wf(),
                        n == self.len(),
                        placed@.len() == n,
                        v < n,
                        u < n,
                        !placed@[u as int],
                        k <= m,
                        forall|j: int| 0 <= j < k ==> self.dependents@[u as int]@[j] != v,
                    decreases m - k,
                {
                    if self.dependents[u][k] == v {
                        assert(self.dependents@[u as int]@[k as int] == v);
                        assert(self.edge(u as int, v as int));
                        return true;
                    }
                    k += 1;
                }
                assert(!self.dependents@[u as int]@.contains(v));
            }
            u += 1;
        }
        false
    }

    /// An order of all nodes in which each comes after every node it is
    /// computed from; an error exactly when no such order exists.
    pub fn compute_topo_order(&self) -> (r: Result<Vec<usize>, CycleError>)
        requires
            self.wf(),
        ensures
            match r {
                Ok(order) => self.is_topo_order(order@),
                Err(e) => {
                    &&& !exists|o: Seq<usize>| self.is_topo_order(o)
                    &&& views(e.chain@) == self.blocked_names(self.len() as int)
                },
            },
    {
        let n = self.nodes.len();
        let mut placed: Vec<bool> = Vec::new();
        let mut i: usize = 0;
        while i < n
            invariant
                i <= n,
                placed@.len() == i,
                forall|j: int| 0 <= j < i ==> !placed@[j],
            decreases n - i,
        {
            placed.push(false);
            i += 1;
        }
        let mut order: Vec<usize> = Vec::new();
        while order.len() < n
            invariant
                self.wf(),
                n == self.len(),
                placed@.len() == n,
                order@.len() <= n,
                forall|k: int| 0 <= k < order@.len() ==> order@[k] < n && placed@[order@[k] as int],
                forall|v: int| 0 <= v < n && placed@[v] ==> order@.contains(v as usize),
                forall|a: int, b: int|
                    0 <= a < b < order@.len() ==> order@[a] != order@[b],
                forall|a: int, b: int|
                    0 <= a < order@.len() && 0 <= b < order@.len() && #[trigger] self.edge(
                        order@[a] as int,
                        order@[b] as int,
                    ) ==> a < b,
                forall|a: int, u: int|
                    #![trigger self.edge(u, order@[a] as int)]
                    0 <= a < order@.len() && 0 <= u < n && self.edge(u, order@[a] as int)
                        ==> placed@[u],
            decreases n - order@.len(),
        {
            let mut pick: Option<usize> = None;
            let mut v: usize = 0;
            while v < n
                invariant
                    self.wf(),
                    n == self.len(),
                    placed@.len() == n,
                    v <= n,
                    pick matches Some(p) ==> p < n && !placed@[p as int] && forall|u: int|
                        0 <= u < n && self.edge(u, p as int) ==> placed@[u],
                    pick is None ==> forall|w: int|
                        0 <= w < v && !placed@[w] ==> exists|u: int|
                            0 <= u < n && !placed@[u] && self.edge(u, w),
                decreases n - v,
            {
                if pick.is_none() && !placed[v] && !self.has_pending_source(&placed, v as usize) {
                    pick = Some(v as usize);
                }
                v += 1;
            }
            match pick {
                Some(p) => {
                    let ghost old_order = order@;
                    let ghost old_placed = placed@;
                    proof {
                        assert forall|k: int| 0 <= k < old_order.len() implies old_order[k] != p by {
                            assert(old_placed[old_order[k] as int]);
                        }
                    }
                    placed.set(p as usize, true);
                    order.push(p);
                    proof {
                        assert forall|a: int, b: int|
                            0 <= a < order@.len() && 0 <= b < order@.len() && #[trigger] self.edge(
                                order@[a] as int,
                                order@[b] as int,
                            ) implies a < b by {
                            if b == old_order.len() as int && a == b {
                                assert(old_placed[p as int]);
                            }
                            if a == old_order.len() as int && b < a {
                                assert(old_placed[order@[a] as int]);
                            }
                        }
                        assert forall|v2: int| 0 <= v2 < n && placed@[v2] implies order@.contains(v2 as usize) by {
                            if v2 == p as int {
                                assert(order@[old_order.len() as int] == p);
                            } else {
                                assert(old_placed[v2]);
                                let k = choose|k: int| 0 <= k < old_order.len() && old_order[k] == v2 as usize;
                                assert(order@[k] == v2 as usize);
                            }
                        }
                        assert forall|a: int, u: int|
                            #![trigger self.edge(u, order@[a] as int)]
                            0 <= a < order@.len() && 0 <= u < n && self.edge(u, order@[a] as int) implies placed@[u] by {
                            if a < old_order.len() {
                                assert(old_placed[u]);
                            } else {
                                assert(old_placed[u]);
                            }
                        }
                    }
                },
                None => {
                    proof {
                        assert(order@.len() < n);
                        self.lemma_some_unplaced(order@, placed@);
                        let w = choose|w: int| 0 <= w < n && !placed@[w];
                        self.lemma_blocked_no_order(placed@, w);
                    }
                    proof {
                        self.lemma_blocked_iff_unplaced(order@, placed@);
                    }
                    let chain = self.blocked_chain(&placed);
                    return Err(CycleError { chain });
                },
            }
        }
        proof {
            assert forall|v: usize| (v as int) < n implies #[trigger] order@.contains(v) by {
                self.lemma_count_placed(order@, placed@, v as int);
            }
        }
        Ok(order)
    }

    /// When the ordering is stuck, the blocked nodes are the unplaced ones.
    proof fn lemma_blocked_iff_unplaced(&self, order: Seq<usize>, placed: Seq<bool>)
        requires
            self.wf(),
            placed.len() == self.len(),
            order.len() <= self.len(),
            forall|k: int| 0 <= k < order.len() ==> order[k] < self.len() && placed[order[k] as int],
            forall|x: int| 0 <= x < self.len() && placed[x] ==> order.contains(x as usize),
            forall|a: int, b: int|
                0 <= a < order.len() && 0 <= b < order.len() && #[trigger] self.edge(
                    order[a] as int,
                    order[b] as int,
                ) ==> a < b,
            forall|a: int, u: int|
                #![trigger self.edge(u, order[a] as int)]
                0 <= a < order.len() && 0 <= u < self.len() && self.edge(u, order[a] as int)
                    ==> placed[u],
            forall|x: int|
                0 <= x < self.len() && !placed[x] ==> exists|u: int|
                    0 <= u < self.len() && !placed[u] && self.edge(u, x),
        ensures
            forall|x: int| 0 <= x < self.len() ==> (self.blocked(x) <==> !placed[x]),
    {
        assert forall|x: int| 0 <= x < self.len() implies (self.blocked(x) <==> !placed[x]) by {
            if placed[x] {
                self.lemma_placed_not_blocked(order, placed, x);
            } else {
                self.lemma_stuck_walk(placed, x, self.len());
                assert(self.back_walk(self.stuck_walk(placed, x, self.len())));
            }
        }
    }

    /// The names of the nodes not placed, in index order.
    fn blocked_chain(&self, placed: &Vec<bool>) -> (chain: Vec<String>)
        requires
            self.wf(),
            placed@.len() == self.len(),
            forall|x: int| 0 <= x < self.len() ==> (self.blocked(x) <==> !placed@[x]),
        ensures
            views(chain@) == self.blocked_names(self.len() as int),
    {
        let n = self.nodes.len();
        let mut chain: Vec<String> = Vec::new();
        let mut w: usize = 0;
        while w < n
            invariant
                n == self.len(),
                placed@.len() == n,
                w <= n,
                forall|x: int| 0 <= x < n ==> (self.blocked(x) <==> !placed@[x]),
                views(chain@) == self.blocked_names(w as int),
            decreases n - w,
        {
            if !placed[w] {
                let ghost before = chain@;
                chain.push(cat3(self.nodes[w].0.as_str(), ".", self.nodes[w].1.as_str()));
                assert(views(chain@) =~= views(before).push(self.node_name(w as int)));
            }
            w += 1;
        }
        chain
    }

    /// A placed node heads no backward walk longer than the graph: along one,
    /// every node is placed, each before the one it is computed into.
    proof fn lemma_placed_not_blocked(&self, order: Seq<usize>, placed: Seq<bool>, v: int)
        requires
            self.wf(),
            placed.len() == self.len(),
            order.len() <= self.len(),
            0 <= v < self.len(),
            placed[v],
            forall|k: int| 0 <= k < order.len() ==> order[k] < self.len() && placed[order[k] as int],
            forall|x: int| 0 <= x < self.len() && placed[x] ==> order.contains(x as usize),
            forall|a: int, b: int|
                0 <= a < order.len() && 0 <= b < order.len() && #[trigger] self.edge(
                    order[a] as int,
                    order[b] as int,
                ) ==> a < b,
            forall|a: int, u: int|
                #![trigger self.edge(u, order[a] as int)]
                0 <= a < order.len() && 0 <= u < self.len() && self.edge(u, order[a] as int)
                    ==> placed[u],
        ensures
            !self.blocked(v),
    {
        if self.blocked(v) {
            let p = choose|p: Seq<int>| #[trigger] self.back_walk(p) && p.len() == self.len() + 1 && p[0] == v;
            assert(order.contains(v as usize));
            let a0 = choose|a: int| 0 <= a < order.len() && order[a] == v as usize;
            self.lemma_walk_down(order, placed, p, a0, self.len() as int);
        }
    }

    /// Along a backward walk from the node at position `a0`, the `k`-th node
    /// is placed at a position at most `a0 - k`.
    proof fn lemma_walk_down(&self, order: Seq<usize>, placed: Seq<bool>, p: Seq<int>, a0: int, k: int)
        requires
            self.wf(),
            placed.len() == self.len(),
            forall|j: int| 0 <= j < order.len() ==> order[j] < self.len() && placed[order[j] as int],
            forall|x: int| 0 <= x < self.len() && placed[x] ==> order.contains(x as usize),
            forall|a: int, b: int|
                0 <= a < order.len() && 0 <= b < order.len() && #[trigger] self.edge(
                    order[a] as int,
                    order[b] as int,
                ) ==> a < b,
            forall|a: int, u: int|
                #![trigger self.edge(u, order[a] as int)]
                0 <= a < order.len() && 0 <= u < self.len() && self.edge(u, order[a] as int)
                    ==> placed[u],
            self.back_walk(p),
            0 <= k < p.len(),
            0 <= a0 < order.len(),
            order[a0] as int == p[0],
        ensures
            exists|a: int| 0 <= a < order.len() && order[a] as int == p[k] && a <= a0 - k,
        decreases k,
    {
        if k > 0 {
            self.lemma_walk_down(order, placed, p, a0, k - 1);
            let a = choose|a: int| 0 <= a < order.len() && order[a] as int == p[k - 1] && a <= a0 - (k - 1);
            assert(self.edge(p[k], p[k - 1]));
            assert(self.edge(p[k], order[a] as int));
            assert(placed[p[k]]);
            assert(order.contains(p[k] as usize));
            let b = choose|b: int| 0 <= b < order.len() && order[b] == p[k] as usize;
            assert(self.edge(order[b] as int, order[a] as int));
        }
    }

    /// An unplaced source of `x`, when there is one.
    spec fn stuck_pred(&self, placed: Seq<bool>, x: int) -> int {
        choose|u: int| 0 <= u < self.len() && !placed[u] && self.edge(u, x)
    }

    /// A backward walk of `k` edges from `w` through unplaced nodes.
    spec fn stuck_walk(&self, placed: Seq<bool>, w: int, k: nat) -> Seq<int>
        decreases k,
    {
        if k == 0 {
            seq![w]
        } else {
            let p = self.stuck_walk(placed, w, (k - 1) as nat);
            p.push(self.stuck_pred(placed, p.last()))
        }
    }

    /// When every unplaced node has an unplaced source, an unplaced node heads
    /// backward walks of every length.
    proof fn lemma_stuck_walk(&self, placed: Seq<bool>, w: int, k: nat)
        requires
            placed.len() == self.len(),
            0 <= w < self.len(),
            !placed[w],
            forall|x: int|
                0 <= x < self.len() && !placed[x] ==> exists|u: int|
                    0 <= u < self.len() && !placed[u] && self.edge(u, x),
        ensures
            self.stuck_walk(placed, w, k).len() == k + 1,
            self.stuck_walk(placed, w, k)[0] == w,
            self.back_walk(self.stuck_walk(placed, w, k)),
            forall|i: int|
                0 <= i <= k ==> 0 <= #[trigger] self.stuck_walk(placed, w, k)[i] < self.len()
                    && !placed[self.stuck_walk(placed, w, k)[i]],
        decreases k,
    {
        if k > 0 {
            self.lemma_stuck_walk(placed, w, (k - 1) as nat);
            let q = self.stuck_walk(placed, w, (k - 1) as nat);
            let x = q.last();
            assert(q[k - 1] == x);
            assert(0 <= x < self.len() && !placed[x]);
            let u = self.stuck_pred(placed, x);
            let p = q.push(u);
            assert(p == self.stuck_walk(placed, w, k));
            assert forall|i: int, j: int| 0 <= i && j == i + 1 && j < p.len() implies #[trigger] self.edge(
                p[j],
                p[i],
            ) by {
                if j < k {
                    assert(p[j] == q[j] && p[i] == q[i]);
                    assert(self.edge(q[j], q[i]));
                }
            }
            assert forall|i: int| 0 <= i <= k implies 0 <= #[trigger] p[i] < self.len() && !placed[p[i]] by {
                if i < k {
                    assert(p[i] == q[i]);
                }
            }
        }
    }

    /// If fewer nodes are ordered than exist, one is not placed.
    proof fn lemma_some_unplaced(&self, order: Seq<usize>, placed: Seq<bool>)
        requires
            placed.len() == self.len(),
            self.len() <= usize::MAX,
            order.len() < self.len(),
            forall|v: int| 0 <= v < self.len() && placed[v] ==> order.contains(v as usize),
            forall|a: int, b: int| 0 <= a < b < order.len() ==> order[a] != order[b],
        ensures
            exists|w: int| 0 <= w < self.len() && !placed[w],
    {
        if forall|w: int| 0 <= w < self.len() ==> placed[w] {
            lemma_injective_cover(order, self.len());
            let w = choose|w: usize| (w as int) < self.len() && !order.contains(w);
            assert(placed[w as int]);
        }
    }

    /// When as many distinct placed nodes are ordered as exist, all are placed.
    proof fn lemma_count_placed(&self, order: Seq<usize>, placed: Seq<bool>, v: int)
        requires
            placed.len() == self.len(),
            order.len() == self.len(),
            self.len() <= usize::MAX,
            0 <= v < self.len(),
            forall|k: int| 0 <= k < order.len() ==> order[k] < self.len() && placed[order[k] as int],
            forall|a: int, b: int| 0 <= a < b < order.len() ==> order[a] != order[b],
        ensures
            placed[v],
    {
        if placed[v] {
            return;
        }
        let full = Set::new(|x: usize| (x as int) < self.len());
        lemma_range_set_len(self.len());
        assert(full.contains(v as usize));
        let s = full.remove(v as usize);
        assert forall|k: int| 0 <= k < order.len() implies s.contains(#[trigger] order[k]) by {
            assert(placed[order[k] as int]);
        }
        lemma_distinct_in_set(order, s, self.len() - 1);
    }

    /// When every unplaced node has an unplaced source, no order exists.
    proof fn lemma_blocked_no_order(&self, placed: Seq<bool>, w: int)
        requires
            placed.len() == self.len(),
            self.len() <= usize::MAX,
            0 <= w < self.len(),
            !placed[w],
            forall|x: int|
                0 <= x < self.len() && !placed[x] ==> exists|u: int|
                    0 <= u < self.len() && !placed[u] && self.edge(u, x),
        ensures
            !exists|o: Seq<usize>| self.is_topo_order(o),
    {
        if exists|o: Seq<usize>| self.is_topo_order(o) {
            let o = choose|o: Seq<usize>| self.is_topo_order(o);
            assert(o.contains(w as usize));
            let j = choose|j: int| 0 <= j < o.len() && o[j] == w as usize;
            let i = first_unplaced(o, placed, j);
            let x = o[i] as int;
            let u = choose|u: int| 0 <= u < self.len() && !placed[u] && self.edge(u, x);
            assert(o.contains(u as usize));
            let k = choose|k: int| 0 <= k < o.len() && o[k] == u as usize;
            assert(self.edge(o[k] as int, o[i] as int));
            assert(k < i);
        }
    }
}

/// The first position up to `j` whose node is not placed.
proof fn first_unplaced(o: Seq<usize>, placed: Seq<bool>, j: int) -> (i: int)
    requires
        0 <= j < o.len(),
        forall|k: int| 0 <= k < o.len() ==> o[k] < placed.len(),
        !placed[o[j] as int],
    ensures
        0 <= i <= j,
        !placed[o[i] as int],
        forall|k: int| 0 <= k < i ==> placed[o[k] as int],
    decreases j,
{
    if j == 0 {
        0
    } else if exists|k: int| 0 <= k < j && !placed[o[k] as int] {
        let k = choose|k: int| 0 <= k < j && !placed[o[k] as int];
        first_unplaced(o, placed, k)
    } else {
        j
    }
}

/// Distinct values all inside a finite set are no more than it holds.
proof fn lemma_distinct_in_set(order: Seq<usize>, s: Set<usize>, bound: int)
    requires
        s.finite(),
        s.len() <= bound,
        forall|k: int| 0 <= k < order.len() ==> s.contains(#[trigger] order[k]),
        forall|a: int, b: int| 0 <= a < b < order.len() ==> order[a] != order[b],
    ensures
        order.len() <= bound,
    decreases order.len(),
{
    if order.len() > 0 {
        let last = order.last();
        let rest = order.drop_last();
        assert forall|k: int| 0 <= k < rest.len() implies s.remove(last).contains(#[trigger] rest[k]) by {
            assert(rest[k] == order[k]);
            assert(order[k] != order[order.len() - 1]);
        }
        assert forall|a: int, b: int| 0 <= a < b < rest.len() implies rest[a] != rest[b] by {
            assert(rest[a] == order[a] && rest[b] == order[b]);
        }
        assert(s.contains(order[order.len() - 1]));
        lemma_distinct_in_set(rest, s.remove(last), bound - 1);
    }
}

/// Distinct values below `n`, fewer than `n` of them, miss one value.
proof fn lemma_injective_cover(order: Seq<usize>, n: nat)
    requires
        order.len() < n,
        n <= usize::MAX,
        forall|a: int, b: int| 0 <= a < b < order.len() ==> order[a] != order[b],
    ensures
        exists|w: usize| (w as int) < n && !#[trigger] order.contains(w),
{
    if forall|w: usize| (w as int) < n ==> #[trigger] order.contains(w) {
        let s = order.to_set();
        assert forall|w: usize| (w as int) < n implies #[trigger] s.contains(w) by {
            assert(order.contains(w));
        }
        order.lemma_cardinality_of_set();
        let t = Set::new(|x: usize| (x as int) < n);
        assert(t.subset_of(s)) by {
            assert forall|x: usize| t.contains(x) implies s.contains(x) by {
                assert(order.contains(x));
            }
        }
        vstd::set_lib::lemma_len_subset(t, s);
        lemma_range_set_len(n);
        assert(s.len() <= order.len());
    }
}

proof fn lemma_range_set_len(n: nat)
    ensures
        Set::new(|x: usize| (x as int) < n).finite(),
        n <= usize::MAX + 1 ==> Set::new(|x: usize| (x as int) < n).len() == n,
        Set::new(|x: usize| (x as int) < n).len() <= n,
    decreases n,
{
    if n == 0 {
        assert(Set::new(|x: usize| (x as int) < n) =~= Set::<usize>::empty());
    } else {
        lemma_range_set_len((n - 1) as nat);
        let prev = Set::new(|x: usize| (x as int) < n - 1);
        let cur = Set::new(|x: usize| (x as int) < n);
        if n <= usize::MAX + 1 {
            assert(cur =~= prev.insert((n - 1) as usize));
        } else {
            assert(cur =~= prev);
        }
    }
}

} // verus!
