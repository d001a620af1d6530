//! Node-based audio routing: the topology of the routing graph.
//!
//! Nodes are identified by `NodeId`; connections carry audio from a node's
//! output buffer to another node's input. The graph refuses connections
//! that would close a cycle, and computes a processing order in which every
//! node comes after the nodes that feed it (Kahn's algorithm).

use crate::audio::parameters::{AtomicF32, UNIT_BITS};
use crate::text::{decimal, push_decimal};
use vstd::prelude::*;

verus! {

/// Node types.
#[derive(Debug, Clone, Copy, PartialEq, Eq, Hash)]
pub enum NodeType {
    Instrument,
    Effect,
    Mixer,
    Output,
    Plugin,
}

/// Unique node identifier.
#[derive(Debug, Clone, Copy, PartialEq, Eq, Hash)]
pub struct NodeId(pub usize);

/// Audio buffer names (stereo output of a node).
#[derive(Debug, Clone, PartialEq, Eq, Hash)]
pub enum BufferName {
    /// Primary output
    Main,
    /// Auxiliary sends (Aux0, Aux1, ...)
    Aux(usize),
    /// Custom buffer name
    Custom(String),
}

/// The text of a buffer name: `Main`, `Aux<n>`, or the custom name.
pub open spec fn buffer_name_text(b: BufferName) -> Seq<char> {
    match b {
        BufferName::Main => "Main"@,
        BufferName::Aux(n) => "Aux"@ + decimal(n as nat),
        BufferName::Custom(name) => name@,
    }
}

impl BufferName {
    /// The displayed text of the buffer name.
    pub fn to_string(&self) -> (r: String)
        ensures
            r@ == buffer_name_text(*self),
    {
        match self {
            BufferName::Main => String::from_str("Main"),
            BufferName::Aux(n) => {
                let mut s = String::from_str("Aux");
                push_decimal(&mut s, *n as u64);
                s
            },
            BufferName::Custom(name) => name.clone(),
        }
    }

    /// A copy of the buffer name.
    pub fn duplicate(&self) -> (r: BufferName)
        ensures
            r == *self,
    {
        match self {
            BufferName::Main => BufferName::Main,
            BufferName::Aux(n) => BufferName::Aux(*n),
            BufferName::Custom(name) => BufferName::Custom(name.clone()),
        }
    }
}

/// Connection between two nodes: audio flows from `from_node`'s buffer
/// `from_buffer` into `to_node`'s input `to_input`, scaled by a gain
/// (held as the bit pattern of an `f32`, as `f32::to_bits` gives it).
#[derive(Debug, Clone)]
pub struct Connection {
    pub from_node: NodeId,
    pub from_buffer: BufferName,
    pub to_node: NodeId,
    pub to_input: String,
    pub gain_bits: u32,
}

impl Connection {
    /// A copy of the connection.
    pub fn duplicate(&self) -> (r: Connection)
        ensures
            r == *self,
    {
        Connection {
            from_node: self.from_node,
            from_buffer: self.from_buffer.duplicate(),
            to_node: self.to_node,
            to_input: self.to_input.clone(),
            gain_bits: self.gain_bits,
        }
    }
}

/// The edges (source, target) of a list of connections.
pub open spec fn edges_of(conns: Seq<Connection>) -> Seq<(usize, usize)> {
    conns.map_values(|c: Connection| (c.from_node.0, c.to_node.0))
}

/// Whether `(a, b)` is an edge.
pub open spec fn has_edge(edges: Seq<(usize, usize)>, a: usize, b: usize) -> bool {
    exists|k: int| 0 <= k < edges.len() && #[trigger] edges[k] == (a, b)
}

/// Whether `p` is a walk along edges (at least one vertex).
pub open spec fn is_path(edges: Seq<(usize, usize)>, p: Seq<usize>) -> bool {
    &&& p.len() >= 1
    &&& forall|i: int| 0 <= i < p.len() - 1 ==> has_edge(edges, #[trigger] p[i], p[i + 1])
}

/// Whether `b` can be reached from `a` by following edges (every vertex
/// reaches itself).
pub open spec fn reachable(edges: Seq<(usize, usize)>, a: usize, b: usize) -> bool {
    exists|p: Seq<usize>| #[trigger] is_path(edges, p) && p[0] == a && p.last() == b
}

/// Whether no edge closes a cycle: no edge's target reaches its source.
pub open spec fn acyclic(edges: Seq<(usize, usize)>) -> bool {
    forall|k: int| 0 <= k < edges.len() ==> !reachable(edges, #[trigger] edges[k].1, edges[k].0)
}

/// Whether the set `s` is closed under the edges.
pub open spec fn closed_under(edges: Seq<(usize, usize)>, s: Seq<usize>) -> bool {
    forall|k: int| 0 <= k < edges.len() && s.contains(#[trigger] edges[k].0) ==> s.contains(edges[k].1)
}

/// A set closed under the edges that holds the start of a path holds all of it.
proof fn lemma_closed_holds_path(edges: Seq<(usize, usize)>, s: Seq<usize>, p: Seq<usize>, i: int)
    requires
        closed_under(edges, s),
        is_path(edges, p),
        s.contains(p[0]),
        0 <= i < p.len(),
    ensures
        s.contains(p[i]),
    decreases i,
{
    if i > 0 {
        lemma_closed_holds_path(edges, s, p, i - 1);
        assert(has_edge(edges, p[i - 1], p[i]));
        let k = choose|k: int| 0 <= k < edges.len() && #[trigger] edges[k] == (p[i - 1], p[i]);
        assert(edges[k].0 == p[i - 1]);
    }
}

/// A path followed by one more edge is a path.
proof fn lemma_path_extend(edges: Seq<(usize, usize)>, p: Seq<usize>, b: usize)
    requires
        is_path(edges, p),
        has_edge(edges, p.last(), b),
    ensures
        is_path(edges, p.push(b)),
        p.push(b)[0] == p[0],
        p.push(b).last() == b,
{
    let q = p.push(b);
    assert forall|i: int| 0 <= i < q.len() - 1 implies has_edge(edges, #[trigger] q[i], q[i + 1]) by {
        if i < p.len() - 1 {
            assert(q[i] == p[i] && q[i + 1] == p[i + 1]);
        } else {
            assert(q[i] == p.last() && q[i + 1] == b);
        }
    }
}

/// The single-vertex walk.
proof fn lemma_path_trivial(edges: Seq<(usize, usize)>, a: usize)
    ensures
        reachable(edges, a, a),
{
    let p = seq![a];
    assert(is_path(edges, p));
}

/// A distinct sequence drawn from `universe` is no longer than it.
proof fn lemma_distinct_bounded(s: Seq<usize>, universe: Seq<usize>)
    requires
        s.no_duplicates(),
        forall|i: int| 0 <= i < s.len() ==> universe.contains(#[trigger] s[i]),
    ensures
        s.len() <= universe.len(),
{
    s.unique_seq_to_set();
    universe.lemma_cardinality_of_set();
    assert(s.to_set().subset_of(universe.to_set()));
    vstd::set_lib::lemma_len_subset(s.to_set(), universe.to_set());
}

/// The vertices that can ever be reached from `start`: `start` and the edge targets.
pub open spec fn reach_universe(edges: Seq<(usize, usize)>, start: usize) -> Seq<usize> {
    seq![start] + edges.map_values(|e: (usize, usize)| e.1)
}

/// Whether `target` is reachable from `start` in `edges` (breadth-first).
fn reaches(conns: &Vec<Connection>, start: usize, target: usize) -> (r: bool)
    ensures
        r == reachable(edges_of(conns@), start, target),
{
    let ghost edges = edges_of(conns@);
    let ghost universe = reach_universe(edges, start);
    let m = conns.len();
    let mut reached: Vec<usize> = Vec::new();
    reached.push(start);
    proof {
        lemma_path_trivial(edges, start);
        assert(universe[0] == start);
    }
    let mut idx: usize = 0;
    while idx < reached.len()
        invariant
            m == conns.len(),
            edges == edges_of(conns@),
            universe == reach_universe(edges, start),
            universe.len() == m + 1,
            reached@.len() >= 1,
            reached@[0] == start,
            idx <= reached@.len(),
            reached@.no_duplicates(),
            forall|j: int| 0 <= j < reached@.len() ==> universe.contains(#[trigger] reached@[j]),
            forall|j: int| 0 <= j < reached@.len() ==> reachable(edges, start, #[trigger] reached@[j]),
            forall|j: int| 0 <= j < idx ==> #[trigger] reached@[j] != target,
            forall|j: int, k: int|
                0 <= j < idx && 0 <= k < m && #[trigger] edges[k].0 == #[trigger] reached@[j]
                    ==> reached@.contains(edges[k].1),
        decreases m + 1 - idx,
    {
        proof {
            lemma_distinct_bounded(reached@, universe);
        }
        let u = reached[idx];
        if u == target {
            return true;
        }
        let mut k: usize = 0;
        while k < m
            invariant
                m == conns.len(),
                edges == edges_of(conns@),
                universe == reach_universe(edges, start),
                universe.len() == m + 1,
                idx < reached@.len(),
                reached@[idx as int] == u,
                reached@[0] == start,
                u != target,
                reached@.no_duplicates(),
                forall|j: int| 0 <= j < reached@.len() ==> universe.contains(#[trigger] reached@[j]),
                forall|j: int| 0 <= j < reached@.len() ==> reachable(edges, start, #[trigger] reached@[j]),
                forall|j: int| 0 <= j < idx ==> #[trigger] reached@[j] != target,
                forall|j: int, k2: int|
                    0 <= j < idx && 0 <= k2 < m && #[trigger] edges[k2].0 == #[trigger] reached@[j]
                        ==> reached@.contains(edges[k2].1),
                forall|k2: int| 0 <= k2 < k && #[trigger] edges[k2].0 == u ==> reached@.contains(edges[k2].1),
                k <= m,
            decreases m - k,
        {
            let from = conns[k].from_node.0;
            let to = conns[k].to_node.0;
            assert(edges[k as int] == (from, to));
            if from == u {
                let mut present = false;
                let mut q: usize = 0;
                while q < reached.len()
                    invariant
                        q <= reached@.len(),
                        present == exists|x: int| 0 <= x < q && reached@[x] == to,
                    decreases reached@.len() - q,
                {
                    if reached[q] == to {
                        present = true;
                    }
                    q = q + 1;
                }
                if !present {
                    let ghost before = reached@;
                    proof {
                        let p = choose|p: Seq<usize>| #[trigger] is_path(edges, p) && p[0] == start && p.last() == u;
                        assert(has_edge(edges, u, to));
                        lemma_path_extend(edges, p, to);
                        assert(is_path(edges, p.push(to)));
                        assert(universe[k + 1] == to);
                    }
                    reached.push(to);
                    proof {
                        assert forall|j: int| 0 <= j < reached@.len() implies universe.contains(#[trigger] reached@[j]) by {
                            if j < before.len() {
                                assert(reached@[j] == before[j]);
                            } else {
                                assert(universe[k + 1] == to);
                            }
                        }
                        assert forall|x: usize| before.contains(x) implies #[trigger] reached@.contains(x) by {
                            let i = choose|i: int| 0 <= i < before.len() && before[i] == x;
                            assert(reached@[i] == before[i]);
                        }
                        assert(reached@[before.len() as int] == to);
                        assert(reached@.contains(to));
                    }
                } else {
                    proof {
                        let x = choose|x: int| 0 <= x < q && reached@[x] == to;
                        assert(reached@.contains(to));
                    }
                }
            }
            k = k + 1;
        }
        idx = idx + 1;
    }
    proof {
        if reachable(edges, start, target) {
            let p = choose|p: Seq<usize>| #[trigger] is_path(edges, p) && p[0] == start && p.last() == target;
            assert(closed_under(edges, reached@)) by {
                assert forall|k: int| 0 <= k < edges.len() && reached@.contains(#[trigger] edges[k].0) implies reached@.contains(edges[k].1) by {
                    let j = choose|j: int| 0 <= j < reached@.len() && reached@[j] == edges[k].0;
                    assert(edges[k].0 == reached@[j]);
                }
            }
            assert(reached@.contains(p[0]));
            lemma_closed_holds_path(edges, reached@, p, p.len() - 1);
            let j = choose|j: int| 0 <= j < reached@.len() && reached@[j] == target;
            assert(reached@[j] != target);
        }
    }
    false
}

/// Walks can be joined end to start.
proof fn lemma_reach_trans(edges: Seq<(usize, usize)>, a: usize, b: usize, c: usize)
    requires
        reachable(edges, a, b),
        reachable(edges, b, c),
    ensures
        reachable(edges, a, c),
{
    let p = choose|p: Seq<usize>| #[trigger] is_path(edges, p) && p[0] == a && p.last() == b;
    let q = choose|q: Seq<usize>| #[trigger] is_path(edges, q) && q[0] == b && q.last() == c;
    lemma_join_paths(edges, p, q);
}

proof fn lemma_join_paths(edges: Seq<(usize, usize)>, p: Seq<usize>, q: Seq<usize>)
    requires
        is_path(edges, p),
        is_path(edges, q),
        p.last() == q[0],
    ensures
        reachable(edges, p[0], q.last()),
    decreases q.len(),
{
    if q.len() == 1 {
        assert(is_path(edges, p));
    } else {
        let q1 = q.drop_last();
        assert(is_path(edges, q1)) by {
            assert forall|i: int| 0 <= i < q1.len() - 1 implies has_edge(edges, #[trigger] q1[i], q1[i + 1]) by {
                assert(q1[i] == q[i] && q1[i + 1] == q[i + 1]);
            }
        }
        lemma_join_paths(edges, p, q1);
        let r = choose|r: Seq<usize>| #[trigger] is_path(edges, r) && r[0] == p[0] && r.last() == q1.last();
        assert(has_edge(edges, q[q.len() - 2], q[q.len() - 1]));
        lemma_path_extend(edges, r, q.last());
    }
}

/// A walk in the edges with one more edge `(f, t)` either stays in the old
/// edges, or reaches `f` in them and continues from `t` in them.
proof fn lemma_reach_with_new_edge(
    edges: Seq<(usize, usize)>,
    f: usize,
    t: usize,
    p: Seq<usize>,
)
    requires
        is_path(edges.push((f, t)), p),
    ensures
        reachable(edges, p[0], p.last()) || (reachable(edges, p[0], f) && reachable(
            edges,
            t,
            p.last(),
        )),
    decreases p.len(),
{
    let e2 = edges.push((f, t));
    if p.len() == 1 {
        lemma_path_trivial(edges, p[0]);
    } else {
        let p1 = p.drop_last();
        assert(is_path(e2, p1)) by {
            assert forall|i: int| 0 <= i < p1.len() - 1 implies has_edge(e2, #[trigger] p1[i], p1[i + 1]) by {
                assert(p1[i] == p[i] && p1[i + 1] == p[i + 1]);
            }
        }
        lemma_reach_with_new_edge(edges, f, t, p1);
        let z = p1.last();
        let y = p.last();
        assert(z == p[p.len() - 2]);
        assert(has_edge(e2, z, y));
        let k = choose|k: int| 0 <= k < e2.len() && #[trigger] e2[k] == (z, y);
        if k < edges.len() {
            assert(edges[k] == (z, y));
            assert(has_edge(edges, z, y));
            assert(reachable(edges, z, y)) by {
                let w = seq![z, y];
                assert(w[0] == z && w[1] == y);
                assert(is_path(edges, w));
            }
            if reachable(edges, p[0], z) {
                lemma_reach_trans(edges, p[0], z, y);
            } else {
                lemma_reach_trans(edges, t, z, y);
            }
        } else {
            assert(z == f && y == t);
            lemma_path_trivial(edges, t);
            if reachable(edges, p[0], z) {
            } else {
            }
        }
    }
}

/// Adding an edge whose target does not reach its source keeps a graph without
/// cycles free of cycles.
pub proof fn law_refused_cycles_keep_graph_acyclic(edges: Seq<(usize, usize)>, f: usize, t: usize)
    requires
        acyclic(edges),
        !reachable(edges, t, f),
    ensures
        acyclic(edges.push((f, t))),
{
    let e2 = edges.push((f, t));
    assert forall|k: int| 0 <= k < e2.len() implies !reachable(e2, #[trigger] e2[k].1, e2[k].0) by {
        let a = e2[k].0;
        let b = e2[k].1;
        if reachable(e2, b, a) {
            let p = choose|p: Seq<usize>| #[trigger] is_path(e2, p) && p[0] == b && p.last() == a;
            lemma_reach_with_new_edge(edges, f, t, p);
            if k < edges.len() {
                assert(edges[k] == (a, b));
                if reachable(edges, b, a) {
                    assert(!reachable(edges, edges[k].1, edges[k].0));
                } else {
                    // t reaches a, a -> b is an old edge, b reaches f
                    assert(reachable(edges, a, b)) by {
                        let w = seq![a, b];
                        assert(has_edge(edges, a, b));
                        assert(w[0] == a && w[1] == b);
                        assert(is_path(edges, w));
                    }
                    lemma_reach_trans(edges, t, a, b);
                    lemma_reach_trans(edges, t, b, f);
                }
            } else {
                assert(a == f && b == t);
                if reachable(edges, t, f) {
                } else {
                    assert(reachable(edges, t, f));
                }
            }
        }
    }
}

/// The ids of a list of node identifiers.
pub open spec fn ids_of(nodes: Seq<NodeId>) -> Seq<usize> {
    nodes.map_values(|n: NodeId| n.0)
}

/// The connections, in order, that `keep` marks to stay.
pub open spec fn kept(conns: Seq<Connection>, remove: Seq<bool>) -> Seq<Connection>
    decreases conns.len(),
{
    if conns.len() == 0 || remove.len() != conns.len() {
        seq![]
    } else {
        let rest = kept(conns.drop_last(), remove.drop_last());
        if remove.last() {
            rest
        } else {
            rest.push(conns.last())
        }
    }
}

/// The connections, in order, whose source (when `outgoing`) or whose
/// target (otherwise) is `node`.
pub open spec fn conns_at(conns: Seq<Connection>, node: usize, outgoing: bool) -> Seq<Connection>
    decreases conns.len(),
{
    if conns.len() == 0 {
        seq![]
    } else {
        let rest = conns_at(conns.drop_last(), node, outgoing);
        let c = conns.last();
        if (if outgoing {
            c.from_node.0
        } else {
            c.to_node.0
        }) == node {
            rest.push(c)
        } else {
            rest
        }
    }
}

/// Whether some edge leaves `n`.
pub open spec fn has_outgoing(edges: Seq<(usize, usize)>, n: usize) -> bool {
    exists|k: int| 0 <= k < edges.len() && #[trigger] edges[k].0 == n
}

/// The routing graph: its nodes, its connections, and the processing order
/// computed last (cleared by any change).
pub struct AudioRoutingGraph {
    nodes: Vec<NodeId>,
    connections: Vec<Connection>,
    processed_order: Option<Vec<NodeId>>,
    next_node_id: usize,
}

impl AudioRoutingGraph {
    /// The node ids, in the order in which they were added.
    pub closed spec fn spec_nodes(&self) -> Seq<usize> {
        ids_of(self.nodes@)
    }

    pub closed spec fn spec_connections(&self) -> Seq<Connection> {
        self.connections@
    }

    /// The processing order computed last, if still valid.
    pub closed spec fn spec_order(&self) -> Option<Seq<usize>> {
        match self.processed_order {
            Some(v) => Some(ids_of(v@)),
            None => None,
        }
    }

    pub open spec fn spec_edges(&self) -> Seq<(usize, usize)> {
        edges_of(self.spec_connections())
    }

    /// The id the next added node gets.
    pub closed spec fn spec_next_node_id(&self) -> usize {
        self.next_node_id
    }

    /// Well-formedness: the graph numbers its nodes 1, 2, 3, ... in the
    /// order they were added, so every node appears once, and the next node
    /// gets the following number.
    pub open spec fn wf(&self) -> bool {
        &&& self.spec_nodes().no_duplicates()
        &&& forall|i: int| 0 <= i < self.spec_nodes().len() ==> #[trigger] self.spec_nodes()[i] == i + 1
        &&& self.spec_next_node_id() == self.spec_nodes().len() + 1
    }

    /// An empty graph.
    pub fn new() -> (r: Self)
        ensures
            r.wf(),
            r.spec_nodes() == Seq::<usize>::empty(),
            r.spec_connections() == Seq::<Connection>::empty(),
            r.spec_order() is None,
    {
        let r = Self { nodes: Vec::new(), connections: Vec::new(), processed_order: None, next_node_id: 1 };
        assert(r.spec_nodes() =~= Seq::<usize>::empty());
        r
    }

    /// Adds a node and returns the id the graph gave it: nodes are numbered
    /// from 1 upwards in the order they are added.
    pub fn add_node(&mut self) -> (r: NodeId)
        requires
            old(self).wf(),
            old(self).spec_nodes().len() + 2 <= usize::MAX,
        ensures
            final(self).wf(),
            r.0 == old(self).spec_nodes().len() + 1,
            final(self).spec_nodes() == old(self).spec_nodes().push(r.0),
            final(self).spec_connections() == old(self).spec_connections(),
            final(self).spec_order() is None,
    {
        let ghost old_nodes = self.spec_nodes();
        let id = NodeId(self.next_node_id);
        self.nodes.push(id);
        self.next_node_id = self.next_node_id + 1;
        assert(self.spec_nodes() =~= old_nodes.push(id.0));
        proof {
            assert forall|a: int, b: int|
                0 <= a < self.spec_nodes().len() && 0 <= b < self.spec_nodes().len() && a != b
                implies self.spec_nodes()[a] != self.spec_nodes()[b] by {
                assert(self.spec_nodes()[a] == a + 1);
                assert(self.spec_nodes()[b] == b + 1);
            }
        }
        self.processed_order = None;
        id
    }

    /// The node ids, in the order in which they were added.
    pub fn node_ids(&self) -> (r: Vec<NodeId>)
        ensures
            ids_of(r@) == self.spec_nodes(),
    {
        self.nodes.clone()
    }

    /// The connections, in the order in which they were added.
    pub fn connections(&self) -> (r: &Vec<Connection>)
        ensures
            r@ == self.spec_connections(),
    {
        &self.connections
    }

    /// Whether adding `connection` would close a cycle: whether its target
    /// already reaches its source.
    pub fn would_create_cycle(&self, connection: &Connection) -> (r: bool)
        ensures
            r == reachable(self.spec_edges(), connection.to_node.0, connection.from_node.0),
    {
        reaches(&self.connections, connection.to_node.0, connection.from_node.0)
    }

    /// Adds a connection, unless it would close a cycle.
    pub fn add_connection(&mut self, connection: Connection) -> (r: Result<(), String>)
        requires
            old(self).wf(),
        ensures
            final(self).wf(),
            final(self).spec_nodes() == old(self).spec_nodes(),
            r is Err <==> reachable(
                old(self).spec_edges(),
                connection.to_node.0,
                connection.from_node.0,
            ),
            match r {
                Ok(()) => final(self).spec_connections() == old(self).spec_connections().push(
                    connection,
                ) && final(self).spec_order() is None,
                Err(e) => e@ == "Connection would create a cycle"@ && final(self).spec_connections()
                    == old(self).spec_connections() && final(self).spec_order() == old(
                    self,
                ).spec_order(),
            },
    {
        if self.would_create_cycle(&connection) {
            return Err(String::from_str("Connection would create a cycle"));
        }
        self.connections.push(connection);
        self.processed_order = None;
        Ok(())
    }

    /// Removes the connections that `remove` marks (one flag per connection,
    /// in order); the others keep their order.
    pub fn remove_connections_where(&mut self, remove: &Vec<bool>)
        requires
            old(self).wf(),
            remove@.len() == old(self).spec_connections().len(),
        ensures
            final(self).wf(),
            final(self).spec_nodes() == old(self).spec_nodes(),
            final(self).spec_connections() == kept(old(self).spec_connections(), remove@),
            final(self).spec_order() is None,
    {
        let ghost all = self.connections@;
        let mut out: Vec<Connection> = Vec::new();
        let n = self.connections.len();
        let mut i: usize = 0;
        while i < n
            invariant
                n == self.connections.len(),
                all == self.connections@,
                remove@.len() == n,
                i <= n,
                out@ == kept(all.take(i as int), remove@.take(i as int)),
            decreases n - i,
        {
            proof {
                assert(all.take(i + 1).drop_last() =~= all.take(i as int));
                assert(remove@.take(i + 1).drop_last() =~= remove@.take(i as int));
            }
            if !remove[i] {
                out.push(self.connections[i].duplicate());
            }
            i = i + 1;
        }
        assert(all.take(n as int) =~= all);
        assert(remove@.take(n as int) =~= remove@);
        self.connections = out;
        self.processed_order = None;
    }

    fn conns_at_node(&self, node_id: NodeId, outgoing: bool) -> (r: Vec<Connection>)
        ensures
            r@ == conns_at(self.spec_connections(), node_id.0, outgoing),
    {
        let ghost all = self.connections@;
        let mut out: Vec<Connection> = Vec::new();
        let n = self.connections.len();
        let mut i: usize = 0;
        while i < n
            invariant
                n == self.connections.len(),
                all == self.connections@,
                i <= n,
                out@ == conns_at(all.take(i as int), node_id.0, outgoing),
            decreases n - i,
        {
            proof {
                assert(all.take(i + 1).drop_last() =~= all.take(i as int));
            }
            let end = if outgoing {
                self.connections[i].from_node.0
            } else {
                self.connections[i].to_node.0
            };
            if end == node_id.0 {
                out.push(self.connections[i].duplicate());
            }
            i = i + 1;
        }
        assert(all.take(n as int) =~= all);
        out
    }

    /// The connections leaving `node_id`, in order.
    pub fn get_connections_from(&self, node_id: NodeId) -> (r: Vec<Connection>)
        ensures
            r@ == conns_at(self.spec_connections(), node_id.0, true),
    {
        self.conns_at_node(node_id, true)
    }

    /// The connections entering `node_id`, in order.
    pub fn get_connections_to(&self, node_id: NodeId) -> (r: Vec<Connection>)
        ensures
            r@ == conns_at(self.spec_connections(), node_id.0, false),
    {
        self.conns_at_node(node_id, false)
    }

    /// The output node: the first node (in the order of addition) from which
    /// no connection leaves.
    pub fn get_output_node_id(&self) -> (r: Option<NodeId>)
        ensures
            match r {
                Some(id) => exists|i: int|
                    0 <= i < self.spec_nodes().len() && #[trigger] self.spec_nodes()[i] == id.0
                        && !has_outgoing(self.spec_edges(), id.0) && forall|j: int|
                        0 <= j < i ==> has_outgoing(self.spec_edges(), #[trigger] self.spec_nodes()[j]),
                None => forall|j: int|
                    0 <= j < self.spec_nodes().len() ==> has_outgoing(
                        self.spec_edges(),
                        #[trigger] self.spec_nodes()[j],
                    ),
            },
    {
        let ghost edges = self.spec_edges();
        let ghost ids = self.spec_nodes();
        let n = self.nodes.len();
        let m = self.connections.len();
        let mut i: usize = 0;
        while i < n
            invariant
                n == self.nodes.len(),
                m == self.connections.len(),
                edges == self.spec_edges(),
                ids == self.spec_nodes(),
                i <= n,
                forall|j: int| 0 <= j < i ==> has_outgoing(edges, #[trigger] ids[j]),
            decreases n - i,
        {
            let id = self.nodes[i];
            assert(ids[i as int] == id.0);
            let mut found = false;
            let mut k: usize = 0;
            while k < m
                invariant
                    m == self.connections.len(),
                    edges == self.spec_edges(),
                    k <= m,
                    found == exists|q: int| 0 <= q < k && #[trigger] edges[q].0 == id.0,
                decreases m - k,
            {
                assert(edges[k as int].0 == self.connections@[k as int].from_node.0);
                if self.connections[k].from_node.0 == id.0 {
                    found = true;
                }
                k = k + 1;
            }
            if !found {
                return Some(id);
            }
            i = i + 1;
        }
        None
    }
}

/// The number of edges into `v` whose source is not in `s`.
pub open spec fn pending_into(edges: Seq<(usize, usize)>, v: usize, s: Seq<usize>) -> nat
    decreases edges.len(),
{
    if edges.len() == 0 {
        0
    } else {
        pending_into(edges.drop_last(), v, s) + if edges.last().1 == v && !s.contains(
            edges.last().0,
        ) {
            1nat
        } else {
            0nat
        }
    }
}

/// The number of copies of the edge `(u, v)`.
pub open spec fn count_edge(edges: Seq<(usize, usize)>, u: usize, v: usize) -> nat
    decreases edges.len(),
{
    if edges.len() == 0 {
        0
    } else {
        count_edge(edges.drop_last(), u, v) + if edges.last() == (u, v) {
            1nat
        } else {
            0nat
        }
    }
}

/// Whether `v` is the target of one of the first `k` edges.
pub open spec fn target_before(edges: Seq<(usize, usize)>, v: usize, k: int) -> bool {
    exists|q: int| 0 <= q < k && #[trigger] edges[q].1 == v
}

/// Whether `v` is a node or the target of an edge.
pub open spec fn in_universe(nodes: Seq<usize>, edges: Seq<(usize, usize)>, v: usize) -> bool {
    nodes.contains(v) || exists|k: int| 0 <= k < edges.len() && #[trigger] edges[k].1 == v
}

/// What Kahn's algorithm emits: distinct vertices of the graph, each after
/// the sources of all edges into it; and every vertex left out has an edge
/// into it from a vertex left out (it lies behind a cycle).
pub open spec fn kahn_order(nodes: Seq<usize>, edges: Seq<(usize, usize)>, o: Seq<usize>) -> bool {
    &&& o.no_duplicates()
    &&& forall|j: int| 0 <= j < o.len() ==> in_universe(nodes, edges, #[trigger] o[j])
    &&& forall|j: int, k: int|
        0 <= j < o.len() && 0 <= k < edges.len() && #[trigger] edges[k].1 == #[trigger] o[j]
            ==> exists|j2: int| 0 <= j2 < j && o[j2] == edges[k].0
    &&& forall|v: usize|
        in_universe(nodes, edges, v) && !o.contains(v) ==> exists|k: int|
            0 <= k < edges.len() && #[trigger] edges[k].1 == v && !o.contains(edges[k].0)
}

proof fn lemma_pending_split(edges: Seq<(usize, usize)>, v: usize, s: Seq<usize>, u: usize)
    requires
        !s.contains(u),
    ensures
        pending_into(edges, v, s) == pending_into(edges, v, s.push(u)) + count_edge(edges, u, v),
    decreases edges.len(),
{
    if edges.len() > 0 {
        lemma_pending_split(edges.drop_last(), v, s, u);
        let e = edges.last();
        assert(s.push(u).contains(e.0) == (s.contains(e.0) || e.0 == u)) by {
            if s.push(u).contains(e.0) {
                let i = choose|i: int| 0 <= i < s.push(u).len() && s.push(u)[i] == e.0;
                if i < s.len() {
                    assert(s[i] == e.0);
                }
            }
            if s.contains(e.0) {
                let i = choose|i: int| 0 <= i < s.len() && s[i] == e.0;
                assert(s.push(u)[i] == e.0);
            }
            if e.0 == u {
                assert(s.push(u)[s.len() as int] == u);
            }
        }
    }
}

proof fn lemma_count_edge_prefix(edges: Seq<(usize, usize)>, u: usize, v: usize, j: int)
    requires
        0 <= j <= edges.len(),
    ensures
        count_edge(edges.take(j), u, v) <= count_edge(edges, u, v),
    decreases edges.len(),
{
    if j < edges.len() {
        assert(edges.drop_last().take(j) =~= edges.take(j));
        lemma_count_edge_prefix(edges.drop_last(), u, v, j);
    } else {
        assert(edges.take(j) =~= edges);
    }
}

proof fn lemma_pending_zero(edges: Seq<(usize, usize)>, v: usize, s: Seq<usize>)
    requires
        pending_into(edges, v, s) == 0,
    ensures
        forall|k: int| 0 <= k < edges.len() && #[trigger] edges[k].1 == v ==> s.contains(edges[k].0),
    decreases edges.len(),
{
    if edges.len() > 0 {
        lemma_pending_zero(edges.drop_last(), v, s);
        assert forall|k: int| 0 <= k < edges.len() && #[trigger] edges[k].1 == v implies s.contains(
            edges[k].0,
        ) by {
            if k < edges.len() - 1 {
                assert(edges.drop_last()[k] == edges[k]);
            }
        }
    }
}

proof fn lemma_pending_positive(edges: Seq<(usize, usize)>, v: usize, s: Seq<usize>)
    requires
        pending_into(edges, v, s) > 0,
    ensures
        exists|k: int| 0 <= k < edges.len() && #[trigger] edges[k].1 == v && !s.contains(edges[k].0),
    decreases edges.len(),
{
    if edges.len() > 0 {
        let e = edges.last();
        if e.1 == v && !s.contains(e.0) {
            assert(edges[edges.len() - 1] == e);
        } else {
            lemma_pending_positive(edges.drop_last(), v, s);
            let k = choose|k: int| 0 <= k < edges.len() - 1 && #[trigger] edges.drop_last()[k].1 == v
                && !s.contains(edges.drop_last()[k].0);
            assert(edges[k] == edges.drop_last()[k]);
        }
    }
}

/// The position of `v` in `ids`.
fn position_of(ids: &Vec<usize>, v: usize) -> (r: usize)
    requires
        ids@.contains(v),
    ensures
        r < ids@.len(),
        ids@[r as int] == v,
{
    let n = ids.len();
    let mut i: usize = 0;
    while i < n
        invariant
            n == ids@.len(),
            i <= n,
            ids@.contains(v),
            forall|j: int| 0 <= j < i ==> ids@[j] != v,
        decreases n - i,
    {
        if ids[i] == v {
            return i;
        }
        i = i + 1;
    }
    proof {
        let j = choose|j: int| 0 <= j < ids@.len() && ids@[j] == v;
        assert(ids@[j] != v);
    }
    0
}

fn seq_contains(v: &Vec<usize>, x: usize) -> (r: bool)
    ensures
        r == v@.contains(x),
{
    let n = v.len();
    let mut i: usize = 0;
    while i < n
        invariant
            n == v@.len(),
            i <= n,
            forall|j: int| 0 <= j < i ==> v@[j] != x,
        decreases n - i,
    {
        if v[i] == x {
            assert(v@[i as int] == x);
            return true;
        }
        i = i + 1;
    }
    false
}

impl AudioRoutingGraph {
    /// The nodes followed by the edge targets that are not nodes, each once.
    fn vertex_list(&self) -> (r: Vec<usize>)
        requires
            self.wf(),
        ensures
            r@.no_duplicates(),
            forall|v: usize| r@.contains(v) <==> in_universe(self.spec_nodes(), self.spec_edges(), v),
    {
        let ghost nodes = self.spec_nodes();
        let ghost edges = self.spec_edges();
        let mut ids: Vec<usize> = Vec::new();
        let n = self.nodes.len();
        let mut i: usize = 0;
        while i < n
            invariant
                n == self.nodes.len(),
                nodes == self.spec_nodes(),
                nodes.no_duplicates(),
                i <= n,
                ids@ == nodes.take(i as int),
            decreases n - i,
        {
            ids.push(self.nodes[i].0);
            assert(ids@ =~= nodes.take(i + 1));
            i = i + 1;
        }
        assert(ids@ =~= nodes);
        let m = self.connections.len();
        let mut k: usize = 0;
        while k < m
            invariant
                m == self.connections.len(),
                nodes == self.spec_nodes(),
                edges == self.spec_edges(),
                k <= m,
                ids@.no_duplicates(),
                forall|v: usize| ids@.contains(v) <==> (nodes.contains(v) || target_before(edges, v, k as int)),
            decreases m - k,
        {
            let t = self.connections[k].to_node.0;
            assert(edges[k as int].1 == t);
            let ghost before = ids@;
            let present = seq_contains(&ids, t);
            if !present {
                ids.push(t);
                proof {
                    assert forall|a: int, b: int|
                        0 <= a < ids@.len() && 0 <= b < ids@.len() && a != b implies ids@[a]
                        != ids@[b] by {
                        if a < before.len() && b < before.len() {
                        } else if a == before.len() {
                            assert(before[b] != t);
                        } else {
                            assert(before[a] != t);
                        }
                    }
                }
            }
            let ghost kk = k as int;
            k = k + 1;
            proof {
                assert forall|v: usize|
                    ids@.contains(v) <==> (nodes.contains(v) || target_before(edges, v, k as int)) by {
                    let old_p = nodes.contains(v) || target_before(edges, v, kk);
                    let new_p = nodes.contains(v) || target_before(edges, v, kk + 1);
                    assert(before.contains(v) == old_p);
                    if new_p && !old_p {
                        let q = choose|q: int| 0 <= q < kk + 1 && #[trigger] edges[q].1 == v;
                        assert(q == kk);
                        assert(v == t);
                    }
                    if old_p {
                        if !nodes.contains(v) {
                            let q = choose|q: int| 0 <= q < kk && #[trigger] edges[q].1 == v;
                            assert(0 <= q < kk + 1 && edges[q].1 == v);
                        }
                        assert(new_p);
                    }
                    if v == t {
                        assert(edges[kk].1 == v);
                        assert(new_p);
                    }
                    assert(new_p == (old_p || v == t));
                    if present {
                        assert(ids@ == before);
                        if v == t {
                            assert(before.contains(t));
                        }
                    } else {
                        if ids@.contains(v) {
                            let j = choose|j: int| 0 <= j < ids@.len() && ids@[j] == v;
                            if j < before.len() {
                                assert(before[j] == v);
                            }
                        }
                        if before.contains(v) {
                            let j = choose|j: int| 0 <= j < before.len() && before[j] == v;
                            assert(ids@[j] == v);
                        }
                        if v == t {
                            assert(ids@[before.len() as int] == t);
                        }
                    }
                }
            }
        }
        proof {
            assert(edges.len() == m);
            assert forall|v: usize| ids@.contains(v) <==> in_universe(nodes, edges, v) by {
                assert(target_before(edges, v, m as int) == exists|q: int|
                    0 <= q < edges.len() && #[trigger] edges[q].1 == v);
            }
        }
        ids
    }

    /// For each vertex, the number of connections into it.
    fn in_degrees(&self, ids: &Vec<usize>) -> (r: Vec<usize>)
        ensures
            r@.len() == ids@.len(),
            forall|i: int|
                0 <= i < ids@.len() ==> #[trigger] r@[i] == pending_into(
                    self.spec_edges(),
                    ids@[i],
                    Seq::<usize>::empty(),
                ),
    {
        let ghost edges = self.spec_edges();
        let mut deg: Vec<usize> = Vec::new();
        let n = ids.len();
        let m = self.connections.len();
        let mut i: usize = 0;
        while i < n
            invariant
                n == ids@.len(),
                m == self.connections.len(),
                edges == self.spec_edges(),
                edges.len() == m,
                i <= n,
                deg@.len() == i,
                forall|j: int|
                    0 <= j < i ==> #[trigger] deg@[j] == pending_into(
                        edges,
                        ids@[j],
                        Seq::<usize>::empty(),
                    ),
            decreases n - i,
        {
            let v = ids[i];
            let mut cnt: usize = 0;
            let mut k: usize = 0;
            while k < m
                invariant
                    m == self.connections.len(),
                    edges == self.spec_edges(),
                    edges.len() == m,
                    k <= m,
                    cnt == pending_into(edges.take(k as int), v, Seq::<usize>::empty()),
                    cnt <= k,
                decreases m - k,
            {
                proof {
                    assert(edges.take(k + 1).drop_last() =~= edges.take(k as int));
                    assert(edges.take(k + 1).last() == edges[k as int]);
                }
                if self.connections[k].to_node.0 == v {
                    cnt = cnt + 1;
                }
                k = k + 1;
            }
            assert(edges.take(m as int) =~= edges);
            deg.push(cnt);
            i = i + 1;
        }
        deg
    }
}

/// Whether every edge into a vertex of `q` comes from an earlier vertex of `q`.
pub open spec fn sources_first(edges: Seq<(usize, usize)>, q: Seq<usize>) -> bool {
    forall|j: int, k: int|
        0 <= j < q.len() && 0 <= k < edges.len() && #[trigger] edges[k].1 == #[trigger] q[j]
            ==> exists|j2: int| 0 <= j2 < j && q[j2] == edges[k].0
}

impl AudioRoutingGraph {
    /// The vertices whose connections all come from processed vertices,
    /// emitted as Kahn's algorithm finds them.
    fn kahn(&self) -> (r: Vec<usize>)
        requires
            self.wf(),
        ensures
            kahn_order(self.spec_nodes(), self.spec_edges(), r@),
    {
        let ghost nodes = self.spec_nodes();
        let ghost edges = self.spec_edges();
        let ids = self.vertex_list();
        let mut deg = self.in_degrees(&ids);
        let n = ids.len();
        let m = self.connections.len();
        assert(edges.len() == m);
        let mut queue: Vec<usize> = Vec::new();
        let mut i: usize = 0;
        while i < n
            invariant
                n == ids@.len(),
                m == edges.len(),
                edges == self.spec_edges(),
                deg@.len() == n,
                ids@.no_duplicates(),
                forall|j: int|
                    0 <= j < n ==> #[trigger] deg@[j] == pending_into(
                        edges,
                        ids@[j],
                        Seq::<usize>::empty(),
                    ),
                i <= n,
                queue@.no_duplicates(),
                forall|j: int| 0 <= j < queue@.len() ==> ids@.take(i as int).contains(#[trigger] queue@[j]),
                forall|j: int| 0 <= j < i ==> (#[trigger] deg@[j] == 0 <==> queue@.contains(ids@[j])),
                sources_first(edges, queue@),
            decreases n - i,
        {
            let ghost before = queue@;
            if deg[i] == 0 {
                let v = ids[i];
                proof {
                    lemma_pending_zero(edges, v, Seq::<usize>::empty());
                    if before.contains(v) {
                        let j = choose|j: int| 0 <= j < before.len() && before[j] == v;
                        assert(ids@.take(i as int).contains(before[j]));
                        let x = choose|x: int| 0 <= x < i && ids@.take(i as int)[x] == v;
                        assert(ids@[x] == ids@[i as int]);
                    }
                }
                queue.push(v);
                proof {
                    assert forall|a: int, b: int|
                        0 <= a < queue@.len() && 0 <= b < queue@.len() && a != b implies queue@[a]
                        != queue@[b] by {
                        if a < before.len() && b < before.len() {
                        } else if a == before.len() {
                            assert(!before.contains(v));
                            assert(before[b] != v);
                        } else {
                            assert(before[a] != v);
                        }
                    }
                    assert forall|j: int, k: int|
                        0 <= j < queue@.len() && 0 <= k < edges.len() && #[trigger] edges[k].1
                            == #[trigger] queue@[j] implies exists|j2: int|
                        0 <= j2 < j && queue@[j2] == edges[k].0 by {
                        if j < before.len() {
                            assert(queue@[j] == before[j]);
                            let j2 = choose|j2: int| 0 <= j2 < j && before[j2] == edges[k].0;
                            assert(queue@[j2] == before[j2]);
                        } else {
                            assert(Seq::<usize>::empty().contains(edges[k].0));
                        }
                    }
                }
            }
            proof {
                assert forall|j: int| 0 <= j < queue@.len() implies ids@.take(i + 1).contains(#[trigger] queue@[j]) by {
                    if j < before.len() {
                        assert(queue@[j] == before[j]);
                        let x = choose|x: int| 0 <= x < i && ids@.take(i as int)[x] == before[j];
                        assert(ids@.take(i + 1)[x] == before[j]);
                    } else {
                        assert(ids@.take(i + 1)[i as int] == queue@[j]);
                    }
                }
                assert forall|j: int| 0 <= j < i + 1 implies (#[trigger] deg@[j] == 0 <==> queue@.contains(ids@[j])) by {
                    if j < i {
                        if before.contains(ids@[j]) {
                            let x = choose|x: int| 0 <= x < before.len() && before[x] == ids@[j];
                            assert(queue@[x] == before[x]);
                        }
                        if queue@.contains(ids@[j]) && !before.contains(ids@[j]) {
                            let x = choose|x: int| 0 <= x < queue@.len() && queue@[x] == ids@[j];
                            if x < before.len() {
                                assert(queue@[x] == before[x]);
                            } else {
                                assert(ids@[j] == ids@[i as int]);
                            }
                        }
                    } else {
                        if deg@[j] == 0 {
                            assert(queue@[before.len() as int] == ids@[j]);
                        } else {
                            assert(queue@ == before);
                            if before.contains(ids@[j]) {
                                let x = choose|x: int| 0 <= x < before.len() && before[x] == ids@[j];
                                assert(ids@.take(i as int).contains(before[x]));
                                let y = choose|y: int| 0 <= y < i && ids@.take(i as int)[y] == ids@[j];
                                assert(ids@[y] == ids@[j]);
                            }
                        }
                    }
                }
            }
            i = i + 1;
        }
        assert(ids@.take(n as int) =~= ids@);
        assert(Seq::<usize>::empty() =~= queue@.take(0));
        let mut head: usize = 0;
        while head < queue.len()
            invariant
                n == ids@.len(),
                m == edges.len(),
                m == self.connections@.len(),
                edges == self.spec_edges(),
                nodes == self.spec_nodes(),
                deg@.len() == n,
                ids@.no_duplicates(),
                forall|v: usize| ids@.contains(v) <==> in_universe(nodes, edges, v),
                queue@.no_duplicates(),
                forall|j: int| 0 <= j < queue@.len() ==> ids@.contains(#[trigger] queue@[j]),
                head <= queue@.len(),
                forall|j: int|
                    0 <= j < n ==> #[trigger] deg@[j] == pending_into(edges, ids@[j], queue@.take(head as int)),
                forall|j: int| 0 <= j < n ==> (#[trigger] deg@[j] == 0 <==> queue@.contains(ids@[j])),
                sources_first(edges, queue@),
            decreases n - head,
        {
            proof {
                lemma_distinct_bounded(queue@, ids@);
            }
            let u = queue[head];
            let ghost s = queue@.take(head as int);
            let ghost s2 = queue@.take(head + 1);
            proof {
                assert(s2 =~= s.push(u));
                if s.contains(u) {
                    let x = choose|x: int| 0 <= x < s.len() && s[x] == u;
                    assert(queue@[x] == queue@[head as int]);
                }
                assert forall|j: int| 0 <= j < n implies #[trigger] deg@[j] + count_edge(edges.take(0), u, ids@[j])
                    == pending_into(edges, ids@[j], s) by {
                    assert(edges.take(0).len() == 0);
                }
            }
            let mut k: usize = 0;
            while k < m
                invariant
                    n == ids@.len(),
                    m == edges.len(),
                    m == self.connections@.len(),
                    edges == self.spec_edges(),
                    deg@.len() == n,
                    ids@.no_duplicates(),
                    forall|v: usize| ids@.contains(v) <==> in_universe(nodes, edges, v),
                    queue@.no_duplicates(),
                    forall|j: int| 0 <= j < queue@.len() ==> ids@.contains(#[trigger] queue@[j]),
                    head < queue@.len(),
                    queue@[head as int] == u,
                    queue@.take(head as int) == s,
                    queue@.take(head + 1) == s2,
                    s2 == s.push(u),
                    !s.contains(u),
                    k <= m,
                    forall|j: int|
                        0 <= j < n ==> #[trigger] deg@[j] + count_edge(edges.take(k as int), u, ids@[j])
                            == pending_into(edges, ids@[j], s),
                    forall|j: int| 0 <= j < n ==> (#[trigger] deg@[j] == 0 <==> queue@.contains(ids@[j])),
                    sources_first(edges, queue@),
                decreases m - k,
            {
                proof {
                    assert(edges.take(k + 1).drop_last() =~= edges.take(k as int));
                    assert(edges.take(k + 1).last() == edges[k as int]);
                }
                let from = self.connections[k].from_node.0;
                let t = self.connections[k].to_node.0;
                assert(edges[k as int] == (from, t));
                if from == u {
                    proof {
                        assert(in_universe(nodes, edges, t)) by {
                            assert(edges[k as int].1 == t);
                        }
                    }
                    let p = position_of(&ids, t);
                    proof {
                        lemma_pending_split(edges, t, s, u);
                        lemma_count_edge_prefix(edges, u, t, k + 1);
                        assert(count_edge(edges.take(k + 1), u, t) == count_edge(edges.take(k as int), u, t) + 1);
                    }
                    let ghost before_deg = deg@;
                    let ghost before_q = queue@;
                    deg.set(p, deg[p] - 1);
                    if deg[p] == 0 {
                        proof {
                            assert(before_deg[p as int] == 1);
                            assert(!before_q.contains(t));
                            assert(pending_into(edges, t, s2) == 0);
                            lemma_pending_zero(edges, t, s2);
                        }
                        queue.push(t);
                        proof {
                            assert(queue@.take(head as int) =~= before_q.take(head as int));
                            assert(queue@.take(head + 1) =~= before_q.take(head + 1));
                            assert forall|a: int, b: int|
                                0 <= a < queue@.len() && 0 <= b < queue@.len() && a != b implies queue@[a]
                                != queue@[b] by {
                                if a < before_q.len() && b < before_q.len() {
                                } else if a == before_q.len() {
                                    assert(before_q[b] != t);
                                } else {
                                    assert(before_q[a] != t);
                                }
                            }
                            assert forall|j: int, kk: int|
                                0 <= j < queue@.len() && 0 <= kk < edges.len() && #[trigger] edges[kk].1
                                    == #[trigger] queue@[j] implies exists|j2: int|
                                0 <= j2 < j && queue@[j2] == edges[kk].0 by {
                                if j < before_q.len() {
                                    assert(queue@[j] == before_q[j]);
                                    let j2 = choose|j2: int| 0 <= j2 < j && before_q[j2] == edges[kk].0;
                                    assert(queue@[j2] == before_q[j2]);
                                } else {
                                    assert(s2.contains(edges[kk].0));
                                    let x = choose|x: int| 0 <= x < s2.len() && s2[x] == edges[kk].0;
                                    assert(queue@[x] == s2[x]);
                                }
                            }
                        }
                    }
                    proof {
                        assert forall|j: int| 0 <= j < n implies #[trigger] deg@[j] + count_edge(
                            edges.take(k + 1),
                            u,
                            ids@[j],
                        ) == pending_into(edges, ids@[j], s) by {
                            if j != p {
                                assert(deg@[j] == before_deg[j]);
                                assert(ids@[j] != t);
                            }
                        }
                        assert forall|j: int| 0 <= j < n implies (#[trigger] deg@[j] == 0 <==> queue@.contains(ids@[j])) by {
                            if queue@.contains(ids@[j]) && !before_q.contains(ids@[j]) {
                                let x = choose|x: int| 0 <= x < queue@.len() && queue@[x] == ids@[j];
                                if x < before_q.len() {
                                    assert(queue@[x] == before_q[x]);
                                }
                            }
                            if before_q.contains(ids@[j]) {
                                let x = choose|x: int| 0 <= x < before_q.len() && before_q[x] == ids@[j];
                                assert(queue@[x] == before_q[x]);
                            }
                            if j == p && deg@[j] == 0 {
                                assert(queue@[before_q.len() as int] == t);
                            }
                        }
                        assert forall|j: int| 0 <= j < queue@.len() implies ids@.contains(#[trigger] queue@[j]) by {
                            if j < before_q.len() {
                                assert(queue@[j] == before_q[j]);
                            } else {
                                assert(ids@[p as int] == t);
                            }
                        }
                    }
                } else {
                    proof {
                        assert forall|j: int| 0 <= j < n implies #[trigger] deg@[j] + count_edge(
                            edges.take(k + 1),
                            u,
                            ids@[j],
                        ) == pending_into(edges, ids@[j], s) by {
                            assert(count_edge(edges.take(k + 1), u, ids@[j]) == count_edge(edges.take(k as int), u, ids@[j]));
                        }
                    }
                }
                k = k + 1;
            }
            proof {
                assert(edges.take(m as int) =~= edges);
                assert forall|j: int| 0 <= j < n implies #[trigger] deg@[j] == pending_into(edges, ids@[j], queue@.take(head + 1)) by {
                    lemma_pending_split(edges, ids@[j], s, u);
                }
            }
            head = head + 1;
        }
        proof {
            assert(queue@.take(head as int) =~= queue@);
            assert forall|v: usize| in_universe(nodes, edges, v) && !queue@.contains(v) implies exists|k: int|
                0 <= k < edges.len() && #[trigger] edges[k].1 == v && !queue@.contains(edges[k].0) by {
                assert(ids@.contains(v));
                let j = choose|j: int| 0 <= j < ids@.len() && ids@[j] == v;
                assert(deg@[j] != 0);
                lemma_pending_positive(edges, v, queue@);
            }
        }
        queue
    }
}

fn node_ids_from(v: &Vec<usize>) -> (r: Vec<NodeId>)
    ensures
        ids_of(r@) == v@,
{
    let mut r: Vec<NodeId> = Vec::new();
    let n = v.len();
    let mut i: usize = 0;
    while i < n
        invariant
            n == v@.len(),
            i <= n,
            r@.len() == i,
            forall|j: int| 0 <= j < i ==> #[trigger] r@[j].0 == v@[j],
        decreases n - i,
    {
        r.push(NodeId(v[i]));
        i = i + 1;
    }
    assert(ids_of(r@) =~= v@);
    r
}

impl AudioRoutingGraph {
    /// Computes the processing order with Kahn's algorithm: every vertex
    /// comes after the sources of the connections into it. The order is kept
    /// when it holds as many vertices as the graph has nodes; otherwise the
    /// graph has a cycle, and the error says so.
    pub fn compute_topological_order(&mut self) -> (r: Result<(), String>)
        requires
            old(self).wf(),
        ensures
            final(self).wf(),
            final(self).spec_nodes() == old(self).spec_nodes(),
            final(self).spec_connections() == old(self).spec_connections(),
            exists|o: Seq<usize>|
                kahn_order(old(self).spec_nodes(), old(self).spec_edges(), o) && (r is Ok <==> o.len()
                    == old(self).spec_nodes().len()) && (r is Ok ==> final(self).spec_order() == Some(
                    o,
                )),
            match r {
                Ok(()) => true,
                Err(e) => e@ == "Graph contains cycles"@ && final(self).spec_order() == old(
                    self,
                ).spec_order(),
            },
    {
        let order = self.kahn();
        if order.len() == self.nodes.len() {
            self.processed_order = Some(node_ids_from(&order));
            Ok(())
        } else {
            Err(String::from_str("Graph contains cycles"))
        }
    }

    /// Makes sure a processing order is available, as processing the graph
    /// does first: a valid order is kept; otherwise Kahn's order is computed,
    /// and when the graph has a cycle the nodes in the order of their
    /// addition are used instead.
    pub fn ensure_processing_order(&mut self)
        requires
            old(self).wf(),
        ensures
            final(self).wf(),
            final(self).spec_nodes() == old(self).spec_nodes(),
            final(self).spec_connections() == old(self).spec_connections(),
            old(self).spec_order() is Some ==> final(self).spec_order() == old(self).spec_order(),
            old(self).spec_order() is None ==> exists|o: Seq<usize>|
                kahn_order(old(self).spec_nodes(), old(self).spec_edges(), o) && final(self).spec_order()
                    == Some(
                    if o.len() == old(self).spec_nodes().len() {
                        o
                    } else {
                        old(self).spec_nodes()
                    },
                ),
    {
        if self.processed_order.is_none() {
            let r = self.compute_topological_order();
            if r.is_err() {
                self.processed_order = Some(self.nodes.clone());
            }
        }
    }

    /// The processing order, if one is available.
    pub fn processing_order(&self) -> (r: Option<Vec<NodeId>>)
        ensures
            match r {
                Some(v) => self.spec_order() == Some(ids_of(v@)),
                None => self.spec_order() is None,
            },
    {
        match &self.processed_order {
            Some(v) => Some(v.clone()),
            None => None,
        }
    }
}

/// Output node: the final stage, where the master volume is applied.
pub struct OutputNode {
    id: NodeId,
    name: String,
    volume: AtomicF32,
}

impl OutputNode {
    /// An output node at full volume (1.0).
    pub fn new(id: NodeId) -> (r: Self)
        ensures
            r.spec_id() == id,
            r.spec_name() == "Output"@,
    {
        Self { id, name: String::from_str("Output"), volume: AtomicF32::from_bits(UNIT_BITS) }
    }

    pub closed spec fn spec_id(&self) -> NodeId {
        self.id
    }

    pub closed spec fn spec_name(&self) -> Seq<char> {
        self.name@
    }

    pub fn id(&self) -> (r: NodeId)
        ensures
            r == self.spec_id(),
    {
        self.id
    }

    pub fn name(&self) -> (r: &str)
        ensures
            r@ == self.spec_name(),
    {
        self.name.as_str()
    }

    pub fn node_type(&self) -> (r: NodeType)
        ensures
            r == NodeType::Output,
    {
        NodeType::Output
    }

    /// The output adds no latency.
    pub fn latency_samples(&self) -> (r: usize)
        ensures
            r == 0,
    {
        0
    }

    pub closed spec fn spec_volume(&self) -> AtomicF32 {
        self.volume
    }

    /// The node's own master-volume cell (shared with its clones, not a new one).
    pub fn volume(&self) -> (r: &AtomicF32)
        ensures
            *r == self.spec_volume(),
    {
        &self.volume
    }
}

/// Whether every edge joins two nodes.
pub open spec fn edges_within(nodes: Seq<usize>, edges: Seq<(usize, usize)>) -> bool {
    forall|k: int| 0 <= k < edges.len() ==> nodes.contains(#[trigger] edges[k].0) && nodes.contains(edges[k].1)
}

/// Behind a vertex left out of a Kahn order there are walks of any length
/// made of vertices left out.
proof fn lemma_left_out_chain(
    nodes: Seq<usize>,
    edges: Seq<(usize, usize)>,
    o: Seq<usize>,
    v: usize,
    k: nat,
) -> (p: Seq<usize>)
    requires
        kahn_order(nodes, edges, o),
        edges_within(nodes, edges),
        nodes.contains(v),
        !o.contains(v),
    ensures
        is_path(edges, p),
        p.len() == k + 1,
        p.last() == v,
        forall|i: int| 0 <= i < p.len() ==> nodes.contains(#[trigger] p[i]) && !o.contains(p[i]),
    decreases k,
{
    if k == 0 {
        let p = seq![v];
        assert(is_path(edges, p));
        p
    } else {
        let q = lemma_left_out_chain(nodes, edges, o, v, (k - 1) as nat);
        let w = q[0];
        assert(in_universe(nodes, edges, w));
        let e = choose|e: int| 0 <= e < edges.len() && #[trigger] edges[e].1 == w && !o.contains(edges[e].0);
        let x = edges[e].0;
        let p = seq![x] + q;
        assert(p[0] == x);
        assert forall|i: int| 0 <= i < p.len() - 1 implies has_edge(edges, #[trigger] p[i], p[i + 1]) by {
            if i == 0 {
                assert(p[1] == w);
                assert(edges[e] == (x, w));
            } else {
                assert(p[i] == q[i - 1] && p[i + 1] == q[i]);
            }
        }
        assert forall|i: int| 0 <= i < p.len() implies nodes.contains(#[trigger] p[i]) && !o.contains(p[i]) by {
            if i > 0 {
                assert(p[i] == q[i - 1]);
            }
        }
        assert(p.last() == q.last());
        p
    }
}

/// In a graph without cycles whose connections all join registered nodes,
/// Kahn's order holds every node: computing the processing order succeeds.
pub proof fn law_acyclic_graph_orders_all_nodes(
    nodes: Seq<usize>,
    edges: Seq<(usize, usize)>,
    o: Seq<usize>,
)
    requires
        nodes.no_duplicates(),
        acyclic(edges),
        edges_within(nodes, edges),
        kahn_order(nodes, edges, o),
    ensures
        o.len() == nodes.len(),
        forall|v: usize| nodes.contains(v) <==> o.contains(v),
{
    assert forall|v: usize| nodes.contains(v) implies o.contains(v) by {
        if !o.contains(v) {
            let p = lemma_left_out_chain(nodes, edges, o, v, nodes.len());
            if p.no_duplicates() {
                lemma_distinct_bounded(p, nodes);
            }
            let (i, j) = choose|i: int, j: int| 0 <= i < p.len() && 0 <= j < p.len() && i != j && p[i] == p[j];
            let (a, b) = if i < j { (i, j) } else { (j, i) };
            assert(a < b && p[a] == p[b]);
            assert(has_edge(edges, p[b - 1], p[b]));
            let ke = choose|ke: int| 0 <= ke < edges.len() && #[trigger] edges[ke] == (p[b - 1], p[b]);
            let w = p.subrange(a, b);
            assert(is_path(edges, w)) by {
                assert forall|t: int| 0 <= t < w.len() - 1 implies has_edge(edges, #[trigger] w[t], w[t + 1]) by {
                    assert(w[t] == p[a + t] && w[t + 1] == p[a + t + 1]);
                }
            }
            assert(w[0] == p[b]);
            assert(w.last() == p[b - 1]);
            assert(reachable(edges, edges[ke].1, edges[ke].0));
        }
    }
    assert forall|v: usize| o.contains(v) implies nodes.contains(v) by {
        let j = choose|j: int| 0 <= j < o.len() && o[j] == v;
        assert(in_universe(nodes, edges, o[j]));
        if !nodes.contains(v) {
            let k = choose|k: int| 0 <= k < edges.len() && #[trigger] edges[k].1 == v;
        }
    }
    lemma_distinct_bounded(o, nodes);
    assert forall|i: int| 0 <= i < nodes.len() implies o.contains(#[trigger] nodes[i]) by {
        assert(nodes.contains(nodes[i]));
    }
    lemma_distinct_bounded(nodes, o);
}

/// No vertex of a cycle is ever emitted: each vertex of the walk `p`
/// closed by edge `ke` lies after its predecessor on the cycle, so none can
/// come first.
proof fn lemma_cycle_vertex_not_ordered(
    nodes: Seq<usize>,
    edges: Seq<(usize, usize)>,
    o: Seq<usize>,
    p: Seq<usize>,
    ke: int,
    j: int,
)
    requires
        kahn_order(nodes, edges, o),
        is_path(edges, p),
        0 <= ke < edges.len(),
        p[0] == edges[ke].1,
        p.last() == edges[ke].0,
        0 <= j < o.len(),
    ensures
        !p.contains(o[j]),
    decreases j,
{
    if p.contains(o[j]) {
        let i = choose|i: int| 0 <= i < p.len() && p[i] == o[j];
        let k2 = if i == 0 {
            ke
        } else {
            assert(has_edge(edges, p[i - 1], p[i]));
            choose|k: int| 0 <= k < edges.len() && #[trigger] edges[k] == (p[i - 1], p[i])
        };
        let pred = edges[k2].0;
        assert(edges[k2].1 == o[j]);
        let j2 = choose|j2: int| 0 <= j2 < j && o[j2] == edges[k2].0;
        lemma_cycle_vertex_not_ordered(nodes, edges, o, p, ke, j2);
        if i == 0 {
            assert(p[p.len() - 1] == pred);
        } else {
            assert(p[i - 1] == pred);
        }
    }
}

/// A cycle among the nodes keeps Kahn's order short: the vertices of the
/// cycle are never emitted, so fewer vertices than nodes come out.
pub proof fn law_cycle_leaves_nodes_unordered(
    nodes: Seq<usize>,
    edges: Seq<(usize, usize)>,
    o: Seq<usize>,
)
    requires
        nodes.no_duplicates(),
        !acyclic(edges),
        edges_within(nodes, edges),
        kahn_order(nodes, edges, o),
    ensures
        o.len() < nodes.len(),
{
    let ke = choose|k: int| 0 <= k < edges.len() && reachable(edges, #[trigger] edges[k].1, edges[k].0);
    let p = choose|p: Seq<usize>| #[trigger] is_path(edges, p) && p[0] == edges[ke].1 && p.last() == edges[ke].0;
    let x = edges[ke].0;
    assert forall|j: int| 0 <= j < o.len() implies o[j] != x by {
        lemma_cycle_vertex_not_ordered(nodes, edges, o, p, ke, j);
        assert(p[p.len() - 1] == x);
    }
    assert forall|j: int| 0 <= j < o.len() implies nodes.contains(#[trigger] o[j]) by {
        assert(in_universe(nodes, edges, o[j]));
        if !nodes.contains(o[j]) {
            let k = choose|k: int| 0 <= k < edges.len() && #[trigger] edges[k].1 == o[j];
            assert(nodes.contains(edges[k].1));
        }
    }
    assert(nodes.contains(x));
    o.unique_seq_to_set();
    nodes.unique_seq_to_set();
    assert(o.to_set().subset_of(nodes.to_set().remove(x))) by {
        assert forall|v: usize| o.to_set().contains(v) implies nodes.to_set().remove(x).contains(v) by {
            let j = choose|j: int| 0 <= j < o.len() && o[j] == v;
            assert(nodes.contains(o[j]));
        }
    }
    vstd::set_lib::lemma_len_subset(o.to_set(), nodes.to_set().remove(x));
}

/// Kahn's order covers all the nodes exactly when the connections, all
/// between nodes of the graph, form no cycle: computing the processing
/// order succeeds if and only if the graph is acyclic.
pub proof fn law_order_complete_iff_acyclic(nodes: Seq<usize>, edges: Seq<(usize, usize)>, o: Seq<usize>)
    requires
        nodes.no_duplicates(),
        edges_within(nodes, edges),
        kahn_order(nodes, edges, o),
    ensures
        o.len() == nodes.len() <==> acyclic(edges),
{
    if acyclic(edges) {
        law_acyclic_graph_orders_all_nodes(nodes, edges, o);
    } else {
        law_cycle_leaves_nodes_unordered(nodes, edges, o);
    }
}

/// The latency of the graph: the largest latency of its nodes, in samples
/// (0 for a graph without nodes). `node_latencies` holds each node's own
/// latency.
pub fn total_latency_samples(node_latencies: &Vec<usize>) -> (r: usize)
    ensures
        forall|i: int| 0 <= i < node_latencies@.len() ==> node_latencies@[i] <= r,
        node_latencies@.len() == 0 ==> r == 0,
        node_latencies@.len() > 0 ==> exists|i: int| 0 <= i < node_latencies@.len() && node_latencies@[i] == r,
{
    let mut best: usize = 0;
    let mut i: usize = 0;
    while i < node_latencies.len()
        invariant
            i <= node_latencies@.len(),
            forall|j: int| 0 <= j < i ==> node_latencies@[j] <= best,
            i == 0 ==> best == 0,
            i > 0 ==> exists|j: int| 0 <= j < i && node_latencies@[j] == best,
        decreases node_latencies@.len() - i,
    {
        if i == 0 || node_latencies[i] > best {
            best = node_latencies[i];
        }
        i = i + 1;
    }
    best
}

} // verus!
