use vstd::prelude::*;
use crate::data::{find_pool_spec, BasePoolInfo, GlobalData};
use crate::graph::{edge_lookup, graph_edges, lemma_edge_lookup, order_key, positive_bits, PoolEdge, PoolGraph};
use crate::types::{Address, DexType};

verus! {

/// A pool offered for one hop, with its edge's metrics (doubles as bits).
#[derive(Debug, Clone, Copy, PartialEq, Eq, Structural)]
pub struct ExtendedPoolInfo {
    pub pool_address: Address,
    pub price_bits: u64,
    pub fee_rate_bits: u64,
    pub liquidity_bits: u64,
    pub weight_bits: u64,
    pub is_active: bool,
    pub last_update_slot: u64,
    pub last_update_time: u64,
}

/// The candidates of one hop and the one chosen.
#[derive(Debug, Clone)]
pub struct HopData {
    pub from_token: usize,
    pub to_token: usize,
    pub pools: Vec<ExtendedPoolInfo>,
    pub best_pool: Option<ExtendedPoolInfo>,
}

/// A cycle recomputed against one graph.
#[derive(Debug, Clone)]
pub struct ChainResult {
    pub last_update: u64,
    pub chain_tokens: Vec<usize>,
    pub hops: Vec<HopData>,
}

/// The recomputations that an update of one pool triggers for one cycle.
#[derive(Debug, Clone)]
pub struct ChainUpdate {
    pub chain_index: usize,
    pub processed: Option<ChainResult>,
    pub finalized: Option<ChainResult>,
}

pub open spec fn info_of(e: PoolEdge) -> ExtendedPoolInfo {
    ExtendedPoolInfo {
        pool_address: e.pool_address,
        price_bits: e.price_bits,
        fee_rate_bits: e.fee_rate_bits,
        liquidity_bits: e.liquidity_bits,
        weight_bits: e.weight_bits,
        is_active: e.is_active,
        last_update_slot: e.last_update_slot,
        last_update_time: e.last_update_time,
    }
}

/// A pool may be chosen when it is active and its liquidity is above zero.
pub open spec fn usable(p: ExtendedPoolInfo) -> bool {
    p.is_active && positive_bits(p.liquidity_bits)
}

/// `k` is the chosen pool: usable, of greatest weight, and the first such.
pub open spec fn is_best(pools: Seq<ExtendedPoolInfo>, k: int) -> bool {
    &&& 0 <= k < pools.len()
    &&& usable(pools[k])
    &&& forall|j: int| 0 <= j < pools.len() && usable(#[trigger] pools[j]) ==> order_key(pools[j].weight_bits) <= order_key(pools[k].weight_bits)
    &&& forall|j: int| 0 <= j < k && usable(#[trigger] pools[j]) ==> order_key(pools[j].weight_bits) < order_key(pools[k].weight_bits)
}

pub open spec fn has_usable(pools: Seq<ExtendedPoolInfo>) -> bool {
    exists|j: int| 0 <= j < pools.len() && usable(#[trigger] pools[j])
}

/// The candidate of family `dex` for the hop `a -> b`: the registered pool, if its edge is in the graph.
pub open spec fn candidate_for(pools: Seq<BasePoolInfo>, edges: Seq<PoolEdge>, dex: DexType, a: usize, b: usize) -> Seq<
    ExtendedPoolInfo,
> {
    match find_pool_spec(pools, dex, a, b) {
        Some(addr) => match edge_lookup(edges, addr) {
            Some(k) => seq![info_of(edges[k])],
            None => Seq::empty(),
        },
        None => Seq::empty(),
    }
}

/// The candidates of the hop `a -> b`, in family order.
pub open spec fn hop_candidates(pools: Seq<BasePoolInfo>, edges: Seq<PoolEdge>, a: usize, b: usize) -> Seq<
    ExtendedPoolInfo,
> {
    candidate_for(pools, edges, DexType::Orca, a, b) + candidate_for(pools, edges, DexType::Raydium, a, b)
        + candidate_for(pools, edges, DexType::Meteora, a, b)
}

/// Every hop of the chain has a usable candidate.
pub open spec fn chain_routable(pools: Seq<BasePoolInfo>, edges: Seq<PoolEdge>, chain: Seq<usize>) -> bool {
    forall|k: int| 0 <= k < chain.len() - 1 ==> has_usable(#[trigger] hop_candidates(pools, edges, chain[k], chain[k + 1]))
}

/// `res` recomputes `chain` against `edges` at `now`: the candidates of every
/// hop in family order and, for each, the usable pool of greatest weight.
pub open spec fn chain_result_ok(
    pools: Seq<BasePoolInfo>,
    edges: Seq<PoolEdge>,
    chain: Seq<usize>,
    now: u64,
    res: ChainResult,
) -> bool {
    &&& res.last_update == now
    &&& res.chain_tokens@ == chain
    &&& res.hops@.len() == if chain.len() == 0 { 0 } else { chain.len() - 1 }
    &&& forall|k: int|
        0 <= k < res.hops@.len() ==> {
            let h = #[trigger] res.hops@[k];
            &&& h.from_token == chain[k]
            &&& h.to_token == chain[k + 1]
            &&& h.pools@ == hop_candidates(pools, edges, chain[k], chain[k + 1])
            &&& exists|b: int| is_best(h.pools@, b) && h.best_pool == Some(h.pools@[b])
        }
}

/// The recomputation of `chain`: none when some hop has no usable pool.
pub open spec fn recalc_ok(
    pools: Seq<BasePoolInfo>,
    edges: Seq<PoolEdge>,
    chain: Seq<usize>,
    now: u64,
    r: Option<ChainResult>,
) -> bool {
    &&& (r is Some <==> chain_routable(pools, edges, chain))
    &&& (r is Some ==> chain_result_ok(pools, edges, chain, now, r->Some_0))
}

/// Index of the usable pool of greatest weight, the first on ties.
pub fn select_best(pools: &Vec<ExtendedPoolInfo>) -> (r: Option<usize>)
    ensures
        r is None <==> !has_usable(pools@),
        r is Some ==> is_best(pools@, r->Some_0 as int),
{
    let mut best: Option<usize> = None;
    let mut best_key: u64 = 0;
    let mut i: usize = 0;
    while i < pools.len()
        invariant
            i <= pools@.len(),
            best is None ==> forall|j: int| 0 <= j < i ==> !usable(#[trigger] pools@[j]),
            best is Some ==> {
                let k = best->Some_0 as int;
                &&& 0 <= k < i
                &&& usable(pools@[k])
                &&& best_key == order_key(pools@[k].weight_bits)
                &&& forall|j: int| 0 <= j < i && usable(#[trigger] pools@[j]) ==> order_key(pools@[j].weight_bits) <= best_key
                &&& forall|j: int| 0 <= j < k && usable(#[trigger] pools@[j]) ==> order_key(pools@[j].weight_bits) < best_key
            },
        decreases pools@.len() - i,
    {
        let p = pools[i];
        let ok = p.is_active && crate::graph::order_key_of(p.liquidity_bits) > crate::graph::SIGN_BIT;
        if ok {
            let key = crate::graph::order_key_of(p.weight_bits);
            match best {
                None => {
                    best = Some(i);
                    best_key = key;
                },
                Some(_) => {
                    if key > best_key {
                        best = Some(i);
                        best_key = key;
                    }
                },
            }
        }
        i = i + 1;
    }
    best
}

impl GlobalData {
    /// Appends the candidate of family `dex` for the hop `a -> b`.
    fn push_candidate(&self, out: &mut Vec<ExtendedPoolInfo>, graph: &PoolGraph, dex: DexType, a: usize, b: usize)
        ensures
            final(out)@ == old(out)@ + candidate_for(self.dex_pools@, graph_edges(*graph), dex, a, b),
    {
        match self.find_pool_by_ids(dex, a, b) {
            Some(addr) => {
                proof {
                    lemma_edge_lookup(graph_edges(*graph), addr);
                }
                match graph.find_edge(&addr) {
                    Some(k) => {
                        let e = graph.edge_at(k);
                        out.push(
                            ExtendedPoolInfo {
                                pool_address: e.pool_address,
                                price_bits: e.price_bits,
                                fee_rate_bits: e.fee_rate_bits,
                                liquidity_bits: e.liquidity_bits,
                                weight_bits: e.weight_bits,
                                is_active: e.is_active,
                                last_update_slot: e.last_update_slot,
                                last_update_time: e.last_update_time,
                            },
                        );
                    },
                    None => {
                        assert(old(out)@ + Seq::<ExtendedPoolInfo>::empty() =~= old(out)@);
                    },
                }
            },
            None => {
                assert(old(out)@ + Seq::<ExtendedPoolInfo>::empty() =~= old(out)@);
            },
        }
    }

    /// The candidates of the hop `a -> b` in `graph`, in family order.
    pub fn hop_pools(&self, graph: &PoolGraph, a: usize, b: usize) -> (r: Vec<ExtendedPoolInfo>)
        ensures
            r@ == hop_candidates(self.dex_pools@, graph_edges(*graph), a, b),
    {
        let mut out: Vec<ExtendedPoolInfo> = Vec::new();
        self.push_candidate(&mut out, graph, DexType::Orca, a, b);
        self.push_candidate(&mut out, graph, DexType::Raydium, a, b);
        self.push_candidate(&mut out, graph, DexType::Meteora, a, b);
        assert(out@ =~= hop_candidates(self.dex_pools@, graph_edges(*graph), a, b));
        out
    }

    /// The graph of a commitment level.
    pub open spec fn graph_of(&self, is_finalized: bool) -> PoolGraph {
        if is_finalized {
            self.finalized_graph
        } else {
            self.processed_graph
        }
    }

}

/// Recomputation of cycles against the graphs.
pub struct RouterEngine;

impl RouterEngine {
    /// Recomputes a cycle against the graph of one commitment level: for each hop
    /// the candidates of every family and the usable one of greatest weight. No
    /// result when some hop has no usable pool.
    pub fn recalc_chain(data: &GlobalData, chain: &Vec<usize>, is_finalized: bool, now: u64) -> (r: Option<ChainResult>)
        ensures
            recalc_ok(data.dex_pools@, graph_edges(data.graph_of(is_finalized)), chain@, now, r),
    {
        let graph = if is_finalized {
            &data.finalized_graph
        } else {
            &data.processed_graph
        };
        let ghost edges = graph_edges(*graph);
        let mut hops: Vec<HopData> = Vec::new();
        let n = chain.len();
        let mut k: usize = 0;
        while k + 1 < n
            invariant
                n == chain@.len(),
                edges == graph_edges(*graph),
                *graph == data.graph_of(is_finalized),
                k <= n,
                n == 0 ==> k == 0,
                n > 0 ==> k < n,
                hops@.len() == k,
                forall|i: int| 0 <= i < k ==> has_usable(#[trigger] hop_candidates(data.dex_pools@, edges, chain@[i], chain@[i + 1])),
                forall|i: int|
                    0 <= i < k ==> {
                        let h = #[trigger] hops@[i];
                        &&& h.from_token == chain@[i]
                        &&& h.to_token == chain@[i + 1]
                        &&& h.pools@ == hop_candidates(data.dex_pools@, edges, chain@[i], chain@[i + 1])
                        &&& exists|b: int| is_best(h.pools@, b) && h.best_pool == Some(h.pools@[b])
                    },
            decreases n - k,
        {
            let a = chain[k];
            let b = chain[k + 1];
            let pools = data.hop_pools(graph, a, b);
            match select_best(&pools) {
                None => {
                    assert(!has_usable(hop_candidates(data.dex_pools@, edges, chain@[k as int], chain@[k + 1])));
                    return None;
                },
                Some(bi) => {
                    let best = pools[bi];
                    hops.push(HopData { from_token: a, to_token: b, pools, best_pool: Some(best) });
                    assert(hops@[k as int].best_pool == Some(hops@[k as int].pools@[bi as int]));
                },
            }
            k = k + 1;
        }
        let mut tokens: Vec<usize> = Vec::new();
        let mut t: usize = 0;
        while t < n
            invariant
                n == chain@.len(),
                t <= n,
                tokens@ == chain@.subrange(0, t as int),
            decreases n - t,
        {
            tokens.push(chain[t]);
            assert(tokens@ =~= chain@.subrange(0, t + 1));
            t = t + 1;
        }
        assert(tokens@ =~= chain@);
        Some(ChainResult { last_update: now, chain_tokens: tokens, hops })
    }
}

} // verus!
