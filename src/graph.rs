use vstd::prelude::*;
use crate::types::{Address, DexType};
use petgraph::graph::{EdgeIndex, Graph, NodeIndex};
use petgraph::Directed;

verus! {

/// Sign bit of an IEEE-754 double.
pub const SIGN_BIT: u64 = 0x8000_0000_0000_0000;

/// Exponent bits of an IEEE-754 double.
pub const EXPONENT_BITS: u64 = 0x7ff0_0000_0000_0000;

/// Fraction bits of an IEEE-754 double.
pub const FRACTION_BITS: u64 = 0x000f_ffff_ffff_ffff;

/// The bits are those of a NaN.
pub open spec fn is_nan_bits(bits: u64) -> bool {
    bits & EXPONENT_BITS == EXPONENT_BITS && bits & FRACTION_BITS != 0
}

/// An integer that orders doubles as `<` does, given their bits; every NaN
/// sorts below negative infinity.
pub open spec fn order_key(bits: u64) -> u64 {
    if is_nan_bits(bits) {
        0
    } else if bits & SIGN_BIT != 0 {
        !bits
    } else {
        bits | SIGN_BIT
    }
}

/// The ordering key of a double given by its bits.
pub fn order_key_of(bits: u64) -> (r: u64)
    ensures
        r == order_key(bits),
{
    if bits & EXPONENT_BITS == EXPONENT_BITS && bits & FRACTION_BITS != 0 {
        0
    } else if bits & SIGN_BIT != 0 {
        !bits
    } else {
        bits | SIGN_BIT
    }
}

/// The double is greater than zero (positive zero has the key `SIGN_BIT`).
pub open spec fn positive_bits(bits: u64) -> bool {
    order_key(bits) > SIGN_BIT
}

/// Metrics derived from a pool's state, each double held as its bits.
#[derive(Debug, Clone, Copy, PartialEq, Eq, Structural)]
pub struct EdgeMetrics {
    pub price_bits: u64,
    pub fee_rate_bits: u64,
    pub liquidity_bits: u64,
    pub weight_bits: u64,
    pub is_active: bool,
}

/// The edge of one pool between two tokens (by index into the token table).
#[derive(Debug, Clone, Copy, PartialEq, Eq, Structural)]
pub struct PoolEdge {
    pub pool_address: Address,
    pub dex: DexType,
    pub from_token: usize,
    pub to_token: usize,
    pub weight_bits: u64,
    pub price_bits: u64,
    pub fee_rate_bits: u64,
    pub liquidity_bits: u64,
    pub is_active: bool,
    pub current_amount: u64,
    pub last_update_slot: u64,
    pub last_update_time: u64,
}

impl PoolEdge {
    /// A fresh edge: zero metrics, active, never updated.
    pub fn new(pool_address: Address, dex: DexType, from_token: usize, to_token: usize) -> (r: PoolEdge)
        ensures
            r == (PoolEdge {
                pool_address,
                dex,
                from_token,
                to_token,
                weight_bits: 0,
                price_bits: 0,
                fee_rate_bits: 0,
                liquidity_bits: 0,
                is_active: true,
                current_amount: 0,
                last_update_slot: 0,
                last_update_time: 0,
            }),
    {
        PoolEdge {
            pool_address,
            dex,
            from_token,
            to_token,
            weight_bits: 0,
            price_bits: 0,
            fee_rate_bits: 0,
            liquidity_bits: 0,
            is_active: true,
            current_amount: 0,
            last_update_slot: 0,
            last_update_time: 0,
        }
    }

    /// The edge with new metrics, stamped with `slot` and `now`.
    pub open spec fn with_metrics(self, m: EdgeMetrics, slot: u64, now: u64) -> PoolEdge {
        PoolEdge {
            price_bits: m.price_bits,
            fee_rate_bits: m.fee_rate_bits,
            liquidity_bits: m.liquidity_bits,
            weight_bits: m.weight_bits,
            is_active: m.is_active,
            last_update_slot: slot,
            last_update_time: now,
            ..self
        }
    }

    /// Overwrites the metrics and stamps the slot and time.
    pub fn update_metrics(&mut self, metrics: &EdgeMetrics, slot: u64, now: u64)
        ensures
            *final(self) == old(self).with_metrics(*metrics, slot, now),
    {
        self.price_bits = metrics.price_bits;
        self.fee_rate_bits = metrics.fee_rate_bits;
        self.liquidity_bits = metrics.liquidity_bits;
        self.weight_bits = metrics.weight_bits;
        self.is_active = metrics.is_active;
        self.last_update_slot = slot;
        self.last_update_time = now;
    }
}

/// Index of the first edge of pool `a`.
pub open spec fn edge_lookup(edges: Seq<PoolEdge>, a: Address) -> Option<int>
    decreases edges.len(),
{
    if edges.len() == 0 {
        None
    } else {
        match edge_lookup(edges.drop_last(), a) {
            Some(k) => Some(k),
            None => if edges.last().pool_address == a {
                Some(edges.len() - 1)
            } else {
                None
            },
        }
    }
}

pub proof fn lemma_edge_lookup(edges: Seq<PoolEdge>, a: Address)
    ensures
        edge_lookup(edges, a) is Some ==> 0 <= edge_lookup(edges, a)->Some_0 < edges.len() && edges[edge_lookup(
            edges,
            a,
        )->Some_0].pool_address == a,
        edge_lookup(edges, a) is None ==> forall|k: int| 0 <= k < edges.len() ==> #[trigger] edges[k].pool_address != a,
    decreases edges.len(),
{
    if edges.len() > 0 {
        lemma_edge_lookup(edges.drop_last(), a);
        if edge_lookup(edges, a) is None {
            assert forall|k: int| 0 <= k < edges.len() implies #[trigger] edges[k].pool_address != a by {
                if k < edges.len() - 1 {
                    assert(edges.drop_last()[k] == edges[k]);
                }
            }
        }
    }
}

#[verifier::external_type_specification]
#[verifier::external_body]
#[verifier::reject_recursive_types(N)]
#[verifier::reject_recursive_types(E)]
#[verifier::reject_recursive_types(Ty)]
#[verifier::reject_recursive_types(Ix)]
pub struct ExGraph<N, E, Ty, Ix>(Graph<N, E, Ty, Ix>);

#[verifier::external_type_specification]
#[verifier::external_body]
pub struct ExDirected(Directed);

/// The edge weights of a petgraph graph, by edge index.
pub uninterp spec fn petgraph_edges(g: Graph<usize, PoolEdge, Directed, usize>) -> Seq<PoolEdge>;

/// The number of nodes of a petgraph graph.
pub uninterp spec fn petgraph_node_count(g: Graph<usize, PoolEdge, Directed, usize>) -> nat;

/// A directed multigraph over tokens (node `i` is token `i`) with one edge per
/// pool, kept in a petgraph `Graph` indexed by `usize`.
pub struct PoolGraph {
    pub g: Graph<usize, PoolEdge, Directed, usize>,
}

/// The edges of the graph, in order of insertion (their petgraph indices).
pub open spec fn graph_edges(g: PoolGraph) -> Seq<PoolEdge> {
    petgraph_edges(g.g)
}

/// The number of nodes of the graph.
pub open spec fn graph_node_count(g: PoolGraph) -> nat {
    petgraph_node_count(g.g)
}

impl PoolGraph {
    /// Relies on `Graph::with_capacity(0, 0)`: no nodes and no edges.
    #[verifier::external_body]
    pub(crate) fn raw_new() -> (r: PoolGraph)
        ensures
            petgraph_edges(r.g).len() == 0,
            petgraph_node_count(r.g) == 0,
    {
        PoolGraph { g: Graph::with_capacity(0, 0) }
    }

    /// Relies on `Graph::node_count`.
    #[verifier::external_body]
    pub(crate) fn raw_node_count(&self) -> (r: usize)
        ensures
            r == petgraph_node_count(self.g),
    {
        self.g.node_count()
    }

    /// Relies on `Graph::edge_count`.
    #[verifier::external_body]
    pub(crate) fn raw_edge_count(&self) -> (r: usize)
        ensures
            r == petgraph_edges(self.g).len(),
    {
        self.g.edge_count()
    }

    /// Relies on `Graph::add_node`: the new node's index is the old node count;
    /// with `usize` indices it has no capacity limit.
    #[verifier::external_body]
    pub(crate) fn raw_add_node(&mut self, token: usize) -> (r: usize)
        ensures
            r == petgraph_node_count(old(self).g),
            petgraph_node_count(final(self).g) == petgraph_node_count(old(self).g) + 1,
            petgraph_edges(final(self).g) == petgraph_edges(old(self).g),
    {
        self.g.add_node(token).index()
    }

    /// Relies on `Graph::add_edge`: appends the edge as the next edge index; it
    /// panics when an endpoint is not a node.
    #[verifier::external_body]
    fn push_edge(&mut self, from: usize, to: usize, edge: PoolEdge)
        requires
            from < petgraph_node_count(old(self).g),
            to < petgraph_node_count(old(self).g),
        ensures
            petgraph_edges(final(self).g) == petgraph_edges(old(self).g).push(edge),
            petgraph_node_count(final(self).g) == petgraph_node_count(old(self).g),
    {
        self.g.add_edge(NodeIndex::new(from), NodeIndex::new(to), edge);
    }

    /// Relies on indexing a `Graph` by edge: the weight of edge `k`; it panics
    /// when there is no such edge.
    #[verifier::external_body]
    pub(crate) fn raw_edge_at(&self, k: usize) -> (r: PoolEdge)
        requires
            k < petgraph_edges(self.g).len(),
        ensures
            r == petgraph_edges(self.g)[k as int],
    {
        self.g[EdgeIndex::new(k)]
    }

    /// Relies on mutable indexing of a `Graph` by edge: overwrites the weight of
    /// edge `k`; it panics when there is no such edge.
    #[verifier::external_body]
    fn set_edge(&mut self, k: usize, edge: PoolEdge)
        requires
            k < petgraph_edges(old(self).g).len(),
        ensures
            petgraph_edges(final(self).g) == petgraph_edges(old(self).g).update(k as int, edge),
            petgraph_node_count(final(self).g) == petgraph_node_count(old(self).g),
    {
        self.g[EdgeIndex::new(k)] = edge;
    }

    /// A graph with no nodes and no edges.
    pub fn new() -> (r: PoolGraph)
        ensures
            graph_edges(r).len() == 0,
            graph_node_count(r) == 0,
    {
        PoolGraph::raw_new()
    }

    /// Number of nodes.
    pub fn node_count(&self) -> (r: usize)
        ensures
            r == graph_node_count(*self),
    {
        self.raw_node_count()
    }

    /// Number of edges.
    pub fn edge_count(&self) -> (r: usize)
        ensures
            r == graph_edges(*self).len(),
    {
        self.raw_edge_count()
    }

    /// Adds the node of a token; its index is the old node count.
    pub fn add_node(&mut self, token: usize) -> (r: usize)
        ensures
            r == graph_node_count(*old(self)),
            graph_node_count(*final(self)) == graph_node_count(*old(self)) + 1,
            graph_edges(*final(self)) == graph_edges(*old(self)),
    {
        self.raw_add_node(token)
    }

    /// The edge with index `k`.
    pub fn edge_at(&self, k: usize) -> (r: PoolEdge)
        requires
            k < graph_edges(*self).len(),
        ensures
            r == graph_edges(*self)[k as int],
    {
        self.raw_edge_at(k)
    }

    /// Index of the edge of this pool.
    pub fn find_edge(&self, pool_address: &Address) -> (r: Option<usize>)
        ensures
            r is Some <==> edge_lookup(graph_edges(*self), *pool_address) is Some,
            r is Some ==> r->Some_0 as int == edge_lookup(graph_edges(*self), *pool_address)->Some_0,
    {
        let ghost es = graph_edges(*self);
        let n = self.raw_edge_count();
        let mut k: usize = 0;
        assert(es.subrange(0, 0) =~= Seq::<PoolEdge>::empty());
        while k < n
            invariant
                es == graph_edges(*self),
                n == es.len(),
                k <= n,
                edge_lookup(es.subrange(0, k as int), *pool_address) is None,
            decreases n - k,
        {
            assert(es.subrange(0, k + 1).drop_last() =~= es.subrange(0, k as int));
            if self.raw_edge_at(k).pool_address.same(pool_address) {
                proof {
                    lemma_edge_lookup_prefix(es, k + 1, *pool_address);
                }
                return Some(k);
            }
            k = k + 1;
        }
        assert(es.subrange(0, k as int) =~= es);
        None
    }

    /// Adds the edge of a pool between two of the graph's tokens unless the pool
    /// already has one; returns whether it was added.
    pub fn add_edge(&mut self, edge: PoolEdge) -> (r: bool)
        requires
            edge.from_token < graph_node_count(*old(self)),
            edge.to_token < graph_node_count(*old(self)),
        ensures
            r == (edge_lookup(graph_edges(*old(self)), edge.pool_address) is None),
            r ==> graph_edges(*final(self)) == graph_edges(*old(self)).push(edge),
            !r ==> graph_edges(*final(self)) == graph_edges(*old(self)),
            graph_node_count(*final(self)) == graph_node_count(*old(self)),
            edge_lookup(graph_edges(*final(self)), edge.pool_address) is Some,
            forall|a: Address|
                edge_lookup(graph_edges(*old(self)), a) is Some ==> #[trigger] edge_lookup(graph_edges(*final(self)), a)
                    == edge_lookup(graph_edges(*old(self)), a),
    {
        proof {
            lemma_edge_lookup(graph_edges(*self), edge.pool_address);
        }
        match self.find_edge(&edge.pool_address) {
            Some(_) => false,
            None => {
                self.push_edge(edge.from_token, edge.to_token, edge);
                proof {
                    let es = graph_edges(*self);
                    let old_es = graph_edges(*old(self));
                    assert(es.drop_last() =~= old_es);
                    assert forall|a: Address| edge_lookup(old_es, a) is Some implies #[trigger] edge_lookup(es, a)
                        == edge_lookup(old_es, a) by {
                        assert(es.subrange(0, old_es.len() as int) =~= old_es);
                        lemma_edge_lookup_prefix(es, old_es.len() as int, a);
                    }
                }
                true
            },
        }
    }

    /// Overwrites the metrics of the pool's edge, if it has one, and stamps it.
    pub fn update_pool_metrics(&mut self, pool_address: &Address, metrics: &EdgeMetrics, slot: u64, now: u64) -> (r:
        bool)
        ensures
            r == (edge_lookup(graph_edges(*old(self)), *pool_address) is Some),
            r ==> graph_edges(*final(self)) == graph_edges(*old(self)).update(
                edge_lookup(graph_edges(*old(self)), *pool_address)->Some_0,
                graph_edges(*old(self))[edge_lookup(graph_edges(*old(self)), *pool_address)->Some_0].with_metrics(
                    *metrics,
                    slot,
                    now,
                ),
            ),
            !r ==> graph_edges(*final(self)) == graph_edges(*old(self)),
            graph_node_count(*final(self)) == graph_node_count(*old(self)),
    {
        proof {
            lemma_edge_lookup(graph_edges(*self), *pool_address);
        }
        match self.find_edge(pool_address) {
            Some(k) => {
                let mut e = self.raw_edge_at(k);
                e.update_metrics(metrics, slot, now);
                self.set_edge(k, e);
                true
            },
            None => false,
        }
    }
}

/// An edge found in a prefix stays the first one found in the whole list.
pub proof fn lemma_edge_lookup_prefix(edges: Seq<PoolEdge>, n: int, a: Address)
    requires
        0 <= n <= edges.len(),
        edge_lookup(edges.subrange(0, n), a) is Some,
    ensures
        edge_lookup(edges, a) == edge_lookup(edges.subrange(0, n), a),
    decreases edges.len() - n,
{
    if n < edges.len() {
        assert(edges.drop_last().subrange(0, n) =~= edges.subrange(0, n));
        lemma_edge_lookup_prefix(edges.drop_last(), n, a);
    } else {
        assert(edges.subrange(0, n) =~= edges);
    }
}

} // verus!
