use vstd::prelude::*;
use crate::data::GlobalData;
use crate::graph::{graph_edges, order_key, order_key_of};
use crate::router::{hop_candidates, ExtendedPoolInfo};

verus! {

/// Notional input of the simulator: one SOL in lamports.
pub const SIMULATION_AMOUNT: u64 = 1_000_000_000;

/// `k` is the dearest candidate, the last one on ties.
pub open spec fn is_max_price(pools: Seq<ExtendedPoolInfo>, k: int) -> bool {
    &&& 0 <= k < pools.len()
    &&& forall|j: int| 0 <= j < pools.len() ==> order_key(#[trigger] pools[j].price_bits) <= order_key(pools[k].price_bits)
    &&& forall|j: int| k < j < pools.len() ==> order_key(#[trigger] pools[j].price_bits) < order_key(pools[k].price_bits)
}

/// `k` is the cheapest candidate, the first one on ties.
pub open spec fn is_min_price(pools: Seq<ExtendedPoolInfo>, k: int) -> bool {
    &&& 0 <= k < pools.len()
    &&& forall|j: int| 0 <= j < pools.len() ==> order_key(pools[k].price_bits) <= order_key(#[trigger] pools[j].price_bits)
    &&& forall|j: int| 0 <= j < k ==> order_key(pools[k].price_bits) < order_key(#[trigger] pools[j].price_bits)
}

/// Hop `i` of a cycle of `n` tokens closes it (and is not also its first hop).
pub open spec fn closing_hop(i: int, n: int) -> bool {
    i != 0 && i == n - 2
}

/// The candidate a hop takes: the cheapest on the closing hop, else the dearest.
pub open spec fn is_chosen(pools: Seq<ExtendedPoolInfo>, k: int, closing: bool) -> bool {
    if closing {
        is_min_price(pools, k)
    } else {
        is_max_price(pools, k)
    }
}

/// `p` is the candidate that a hop takes.
pub open spec fn takes(pools: Seq<ExtendedPoolInfo>, p: ExtendedPoolInfo, closing: bool) -> bool {
    exists|b: int| #[trigger] is_chosen(pools, b, closing) && p == pools[b]
}

/// Index of the dearest candidate (last on ties) or, with `want_max` false, the
/// cheapest (first on ties); none without candidates.
pub fn select_by_price(pools: &Vec<ExtendedPoolInfo>, want_max: bool) -> (r: Option<usize>)
    ensures
        r is None <==> pools@.len() == 0,
        r is Some ==> is_chosen(pools@, r->Some_0 as int, !want_max),
{
    if pools.len() == 0 {
        return None;
    }
    let mut best: usize = 0;
    let mut best_key: u64 = order_key_of(pools[0].price_bits);
    let mut i: usize = 1;
    while i < pools.len()
        invariant
            1 <= i <= pools@.len(),
            best < i,
            best_key == order_key(pools@[best as int].price_bits),
            want_max ==> forall|j: int| 0 <= j < i ==> order_key(#[trigger] pools@[j].price_bits) <= best_key,
            want_max ==> forall|j: int| best < j < i ==> order_key(#[trigger] pools@[j].price_bits) < best_key,
            !want_max ==> forall|j: int| 0 <= j < i ==> best_key <= order_key(#[trigger] pools@[j].price_bits),
            !want_max ==> forall|j: int| 0 <= j < best ==> best_key < order_key(#[trigger] pools@[j].price_bits),
        decreases pools@.len() - i,
    {
        let key = order_key_of(pools[i].price_bits);
        if (want_max && key >= best_key) || (!want_max && key < best_key) {
            best = i;
            best_key = key;
        }
        i = i + 1;
    }
    Some(best)
}

/// The pools a simulated round trip takes along one cycle.
#[derive(Debug, Clone)]
pub struct SwapPlan {
    pub chain_index: usize,
    pub chain: Vec<usize>,
    pub pools: Vec<ExtendedPoolInfo>,
}

impl GlobalData {
    /// Every hop of `chain` has a candidate in the low-latency graph.
    pub open spec fn spec_plannable(&self, chain: Seq<usize>) -> bool {
        forall|k: int|
            0 <= k < chain.len() - 1 ==> #[trigger] hop_candidates(self.dex_pools@, graph_edges(self.processed_graph), chain[k], chain[k + 1]).len() > 0
    }

    /// `pools` are the pools the hops of `chain` take by the directional price rule.
    pub open spec fn spec_plan(&self, chain: Seq<usize>, pools: Seq<ExtendedPoolInfo>) -> bool {
        &&& pools.len() == if chain.len() == 0 { 0 } else { chain.len() - 1 }
        &&& forall|k: int|
            0 <= k < pools.len() ==> takes(
                hop_candidates(self.dex_pools@, graph_edges(self.processed_graph), chain[k], chain[k + 1]),
                #[trigger] pools[k],
                closing_hop(k, chain.len() as int),
            )
    }

    /// Number of stored cycles.
    pub open spec fn spec_chain_count(&self) -> int {
        self.chain_storage_4@.len() + self.chain_storage_5@.len() as int
    }

    /// The stored cycle with id `id`: four-token cycles first, then five-token ones.
    pub open spec fn spec_chain(&self, id: int) -> Seq<usize> {
        if id < self.chain_storage_4@.len() {
            self.chain_storage_4@[id]@
        } else {
            self.chain_storage_5@[id - self.chain_storage_4@.len()]@
        }
    }

    /// The stored cycle with id `id`.
    pub fn chain_by_id(&self, id: usize) -> (r: &Vec<usize>)
        requires
            id < self.spec_chain_count(),
        ensures
            r@ == self.spec_chain(id as int),
    {
        if id < self.chain_storage_4.len() {
            &self.chain_storage_4[id]
        } else {
            &self.chain_storage_5[id - self.chain_storage_4.len()]
        }
    }

    /// The pool each hop of `chain` takes in the low-latency graph, by the
    /// directional price rule; none when some hop has no candidate.
    pub fn select_swap_pools(&self, chain: &Vec<usize>) -> (r: Option<Vec<ExtendedPoolInfo>>)
        ensures
            r is Some <==> self.spec_plannable(chain@),
            r is Some ==> self.spec_plan(chain@, r->Some_0@),
    {
        let n = chain.len();
        let mut out: Vec<ExtendedPoolInfo> = Vec::new();
        let mut k: usize = 0;
        while k + 1 < n
            invariant
                n == chain@.len(),
                k <= n,
                n == 0 ==> k == 0,
                n > 0 ==> k < n,
                out@.len() == k,
                forall|i: int| 0 <= i < k ==> #[trigger] hop_candidates(
                    self.dex_pools@,
                    graph_edges(self.processed_graph),
                    chain@[i],
                    chain@[i + 1],
                ).len() > 0,
                forall|i: int|
                    0 <= i < k ==> takes(
                        hop_candidates(self.dex_pools@, graph_edges(self.processed_graph), chain@[i], chain@[i + 1]),
                        #[trigger] out@[i],
                        closing_hop(i, n as int),
                    ),
            decreases n - k,
        {
            let pools = self.hop_pools(&self.processed_graph, chain[k], chain[k + 1]);
            let is_first = k == 0;
            let is_last = k == n - 2;
            let want_max = is_first || !is_last;
            match select_by_price(&pools, want_max) {
                None => {
                    return None;
                },
                Some(b) => {
                    out.push(pools[b]);
                    assert(out@[k as int] == pools@[b as int]);
                    assert(is_chosen(pools@, b as int, closing_hop(k as int, n as int)));
                },
            }
            k = k + 1;
        }
        Some(out)
    }

    /// The swap plan of every stored cycle that has a candidate on each hop, by
    /// increasing cycle id.
    pub fn monitor_arbitrage_opportunities(&self) -> (r: Vec<SwapPlan>)
        requires
            self.spec_chain_count() <= usize::MAX,
        ensures
            forall|i: int|
                0 <= i < r@.len() ==> {
                    let p = #[trigger] r@[i];
                    &&& p.chain_index < self.spec_chain_count()
                    &&& p.chain@ == self.spec_chain(p.chain_index as int)
                    &&& self.spec_plan(p.chain@, p.pools@)
                },
            forall|i: int, j: int| 0 <= i < j < r@.len() ==> r@[i].chain_index < r@[j].chain_index,
            forall|id: int|
                0 <= id < self.spec_chain_count() ==> (self.spec_plannable(#[trigger] self.spec_chain(id)) <==> exists|i: int|
                    0 <= i < r@.len() && r@[i].chain_index == id),
    {
        let total = self.chain_storage_4.len() + self.chain_storage_5.len();
        let mut out: Vec<SwapPlan> = Vec::new();
        let mut id: usize = 0;
        while id < total
            invariant
                total == self.spec_chain_count(),
                id <= total,
                forall|i: int|
                    0 <= i < out@.len() ==> {
                        let p = #[trigger] out@[i];
                        &&& p.chain_index < id
                        &&& p.chain@ == self.spec_chain(p.chain_index as int)
                        &&& self.spec_plan(p.chain@, p.pools@)
                    },
                forall|i: int, j: int| 0 <= i < j < out@.len() ==> out@[i].chain_index < out@[j].chain_index,
                forall|c: int|
                    0 <= c < id ==> (self.spec_plannable(#[trigger] self.spec_chain(c)) <==> exists|i: int|
                        0 <= i < out@.len() && out@[i].chain_index == c),
            decreases total - id,
        {
            let chain = self.chain_by_id(id);
            let ghost before = out@;
            match self.select_swap_pools(chain) {
                Some(pools) => {
                    let copy = copy_chain(chain);
                    out.push(SwapPlan { chain_index: id, chain: copy, pools });
                    assert forall|c: int| 0 <= c <= id implies (self.spec_plannable(#[trigger] self.spec_chain(c))
                        <==> exists|i: int| 0 <= i < out@.len() && out@[i].chain_index == c) by {
                        if c < id {
                            if exists|i: int| 0 <= i < out@.len() && out@[i].chain_index == c {
                                let i = choose|i: int| 0 <= i < out@.len() && out@[i].chain_index == c;
                                assert(i < before.len());
                                assert(before[i].chain_index == c);
                            }
                            if exists|i: int| 0 <= i < before.len() && before[i].chain_index == c {
                                let i = choose|i: int| 0 <= i < before.len() && before[i].chain_index == c;
                                assert(out@[i].chain_index == c);
                            }
                        } else {
                            assert(out@[before.len() as int].chain_index == c);
                        }
                    }
                },
                None => {
                    assert forall|c: int| 0 <= c <= id implies (self.spec_plannable(#[trigger] self.spec_chain(c))
                        <==> exists|i: int| 0 <= i < out@.len() && out@[i].chain_index == c) by {
                        if c == id {
                            assert(forall|i: int| 0 <= i < out@.len() ==> out@[i].chain_index < id);
                        }
                    }
                },
            }
            id = id + 1;
        }
        out
    }
}

/// A copy of a chain.
pub fn copy_chain(chain: &Vec<usize>) -> (r: Vec<usize>)
    ensures
        r@ == chain@,
{
    let mut out: Vec<usize> = Vec::new();
    let mut t: usize = 0;
    while t < chain.len()
        invariant
            t <= chain@.len(),
            out@ == chain@.subrange(0, t as int),
        decreases chain@.len() - t,
    {
        out.push(chain[t]);
        assert(out@ =~= chain@.subrange(0, t + 1));
        t = t + 1;
    }
    assert(out@ =~= chain@);
    out
}

} // verus!
