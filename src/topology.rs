use vstd::prelude::*;
use crate::arbitrage::copy_chain;
use crate::chains::{
    deduplicate, find_chains, groups_distinct, is_cycle, same_group, valid_in, views, ValidPairs, MAX_CHAIN_LENGTH,
    MIN_CHAIN_LENGTH,
};
use crate::data::{
    find_pool_spec, first_entry, lemma_first_entry, lemma_ref_lookup, lemma_ref_lookup_same_addresses, lemma_token_lookup,
    ref_lookup, token_lookup, BasePoolInfo, ChainReference,
    GlobalData, TokenPair,
};
use crate::graph::{edge_lookup, graph_edges, graph_node_count, PoolEdge, PoolGraph};
use crate::types::{dex_at, spec_dex_at, Address, DexType};

verus! {

/// Some family lists a pool for tokens `i` and `j` (in either order).
pub open spec fn pair_listed(pools: Seq<BasePoolInfo>, i: usize, j: usize) -> bool {
    find_pool_spec(pools, DexType::Orca, i, j) is Some || find_pool_spec(pools, DexType::Raydium, i, j) is Some
        || find_pool_spec(pools, DexType::Meteora, i, j) is Some
}

/// A pool that lookup returns was registered for that family.
pub proof fn lemma_found_pool_registered(pools: Seq<BasePoolInfo>, dex: DexType, i: usize, j: usize)
    ensures
        find_pool_spec(pools, dex, i, j) is Some ==> exists|k: int|
            0 <= k < pools.len() && #[trigger] pools[k].dex == dex && pools[k].pool_address == find_pool_spec(
                pools,
                dex,
                i,
                j,
            )->Some_0,
{
    lemma_first_entry(pools, dex, TokenPair { token_a: i, token_b: j });
    lemma_first_entry(pools, dex, TokenPair { token_a: j, token_b: i });
    if first_entry(pools, dex, TokenPair { token_a: i, token_b: j }) is Some {
        let k = first_entry(pools, dex, TokenPair { token_a: i, token_b: j })->Some_0;
        assert(pools[k].dex == dex);
    } else if first_entry(pools, dex, TokenPair { token_a: j, token_b: i }) is Some {
        let k = first_entry(pools, dex, TokenPair { token_a: j, token_b: i })->Some_0;
        assert(pools[k].dex == dex);
    }
}

/// Lookup of a pair does not depend on the order of its tokens.
pub proof fn lemma_find_pool_symmetric(pools: Seq<BasePoolInfo>, dex: DexType, i: usize, j: usize)
    ensures
        (find_pool_spec(pools, dex, i, j) is Some) == (find_pool_spec(pools, dex, j, i) is Some),
{
}

/// The tokens that a list of symbols names: `ids` holds the distinct known ones.
pub open spec fn names_tokens(g: GlobalData, initial: Seq<String>, ids: Seq<usize>) -> bool {
    &&& ids.no_duplicates()
    &&& forall|t: usize| #[trigger] ids.contains(t) <==> exists|i: int|
        0 <= i < initial.len() && token_lookup(g.tokens@, initial[i]@) == Some(t as int)
}

/// The invariant of the cycle store: every cycle runs from the pivot back to it
/// over listed pairs of distinct tokens, with four or five tokens as stored.
pub open spec fn chains_sound(g: GlobalData, pivot: usize) -> bool {
    &&& forall|c: int|
        0 <= c < g.chain_storage_4@.len() ==> cycle_sound(g.dex_pools@, #[trigger] g.chain_storage_4@[c]@, pivot, 4)
    &&& forall|c: int|
        0 <= c < g.chain_storage_5@.len() ==> cycle_sound(g.dex_pools@, #[trigger] g.chain_storage_5@[c]@, pivot, 5)
}

pub open spec fn cycle_sound(pools: Seq<BasePoolInfo>, c: Seq<usize>, pivot: usize, len: nat) -> bool {
    &&& c.len() == len
    &&& MIN_CHAIN_LENGTH <= len <= MAX_CHAIN_LENGTH
    &&& c[0] == pivot
    &&& c.last() == pivot
    &&& forall|k: int| 0 <= k < c.len() - 1 ==> #[trigger] c[k] != c[k + 1] && pair_listed(pools, c[k], c[k + 1])
    &&& groups_distinct(c)
}

/// Every edge of both graphs belongs to a pool present in its family's table.
pub open spec fn edges_registered(g: GlobalData) -> bool {
    &&& forall|k: int|
        0 <= k < graph_edges(g.processed_graph).len() ==> g.spec_pool_exists(
            #[trigger] graph_edges(g.processed_graph)[k].dex,
            graph_edges(g.processed_graph)[k].pool_address,
        )
    &&& forall|k: int|
        0 <= k < graph_edges(g.finalized_graph).len() ==> g.spec_pool_exists(
            #[trigger] graph_edges(g.finalized_graph)[k].dex,
            graph_edges(g.finalized_graph)[k].pool_address,
        )
}

/// If hop `k` of cycle `id` resolves to pool `a` in family `d`, then `a` has an
/// edge in both graphs and `id` is listed under `a` in the reverse index.
pub open spec fn hop_indexed(g: GlobalData, id: int, k: int, d: nat) -> bool {
    let c = g.spec_chain(id);
    match find_pool_spec(g.dex_pools@, spec_dex_at(d), c[k], c[k + 1]) {
        Some(a) => {
            &&& edge_lookup(graph_edges(g.processed_graph), a) is Some
            &&& edge_lookup(graph_edges(g.finalized_graph), a) is Some
            &&& ref_lookup(g.chain_references@, a) is Some
            &&& g.chain_references@[ref_lookup(g.chain_references@, a)->Some_0].chains@.contains(id as usize)
        },
        None => true,
    }
}

/// A fresh edge: zero metrics, active, never updated.
pub open spec fn fresh_edge(e: PoolEdge) -> bool {
    e.weight_bits == 0 && e.price_bits == 0 && e.fee_rate_bits == 0 && e.liquidity_bits == 0 && e.is_active
        && e.current_amount == 0 && e.last_update_slot == 0 && e.last_update_time == 0
}

/// Both graphs have the same edges, all fresh.
pub open spec fn graphs_fresh(g: GlobalData) -> bool {
    &&& graph_edges(g.processed_graph) == graph_edges(g.finalized_graph)
    &&& forall|k: int| 0 <= k < graph_edges(g.processed_graph).len() ==> fresh_edge(#[trigger] graph_edges(g.processed_graph)[k])
}

/// `(i, k, d)` comes before `(id, kk, dd)` in the order the build visits hops.
pub open spec fn visited_before(i: int, k: int, d: nat, id: int, kk: int, dd: nat) -> bool {
    i < id || (i == id && (k < kk || (k == kk && d < dd)))
}

/// Every pool that a hop of a stored cycle can use has an edge in both graphs
/// and lists the cycle in the reverse index.
pub open spec fn hops_indexed(g: GlobalData) -> bool {
    forall|i: int, k: int, d: nat|
        0 <= i < g.spec_chain_count() && 0 <= k < g.spec_chain(i).len() - 1 && d < 3 ==> #[trigger] hop_indexed(g, i, k, d)
}

/// Some hop of cycle `id` resolves to pool `a` in some family.
pub open spec fn cycle_uses_pool(g: GlobalData, id: int, a: Address) -> bool {
    exists|k: int, d: nat|
        0 <= k < g.spec_chain(id).len() - 1 && d < 3 && #[trigger] find_pool_spec(
            g.dex_pools@,
            spec_dex_at(d),
            g.spec_chain(id)[k],
            g.spec_chain(id)[k + 1],
        ) == Some(a)
}

/// The ids of every entry of the reverse index are strictly increasing and
/// below `bound`.
pub open spec fn references_sorted(g: GlobalData, bound: int) -> bool {
    &&& forall|q: int, m1: int, m2: int|
        0 <= q < g.chain_references@.len() && 0 <= m1 < m2 < g.chain_references@[q].chains@.len() ==> #[trigger] g.chain_references@[q].chains@[m1]
            < #[trigger] g.chain_references@[q].chains@[m2]
    &&& forall|q: int, m: int|
        0 <= q < g.chain_references@.len() && 0 <= m < g.chain_references@[q].chains@.len() ==> (#[trigger] g.chain_references@[q].chains@[m] as int)
            < bound
}

/// Every cycle id indexed under a pool is a stored cycle that can use the pool.
pub open spec fn references_sound(g: GlobalData) -> bool {
    forall|r: int, m: int|
        0 <= r < g.chain_references@.len() && 0 <= m < g.chain_references@[r].chains@.len() ==> {
            let id = #[trigger] g.chain_references@[r].chains@[m] as int;
            &&& id < g.spec_chain_count()
            &&& cycle_uses_pool(g, id, g.chain_references@[r].pool_address)
        }
}

impl GlobalData {
    /// Whether some family lists a pool for tokens `i` and `j`.
    pub fn pair_listed_exec(&self, i: usize, j: usize) -> (r: bool)
        ensures
            r == pair_listed(self.dex_pools@, i, j),
    {
        self.find_pool_by_ids(DexType::Orca, i, j).is_some() || self.find_pool_by_ids(DexType::Raydium, i, j).is_some()
            || self.find_pool_by_ids(DexType::Meteora, i, j).is_some()
    }

    /// The distinct known tokens named in `initial_tokens`, in order.
    pub fn resolve_tokens(&self, initial_tokens: &Vec<String>) -> (r: Vec<usize>)
        ensures
            names_tokens(*self, initial_tokens@, r@),
            forall|k: int| 0 <= k < r@.len() ==> #[trigger] r@[k] < self.tokens@.len(),
    {
        let mut ids: Vec<usize> = Vec::new();
        let mut i: usize = 0;
        while i < initial_tokens.len()
            invariant
                i <= initial_tokens@.len(),
                ids@.no_duplicates(),
                forall|k: int| 0 <= k < ids@.len() ==> #[trigger] ids@[k] < self.tokens@.len(),
                forall|t: usize| #[trigger] ids@.contains(t) <==> exists|m: int|
                    0 <= m < i && token_lookup(self.tokens@, initial_tokens@[m]@) == Some(t as int),
            decreases initial_tokens@.len() - i,
        {
            match self.find_token(&initial_tokens[i]) {
                Some(t) => {
                    proof {
                        lemma_token_lookup(self.tokens@, initial_tokens@[i as int]@);
                    }
                    let mut seen = false;
                    let mut k: usize = 0;
                    while k < ids.len()
                        invariant
                            k <= ids@.len(),
                            seen == ids@.subrange(0, k as int).contains(t),
                        decreases ids@.len() - k,
                    {
                        assert(ids@.subrange(0, k + 1) =~= ids@.subrange(0, k as int).push(ids@[k as int]));
                        if ids[k] == t {
                            seen = true;
                            assert(ids@.subrange(0, k + 1)[k as int] == t);
                        }
                        k = k + 1;
                    }
                    assert(ids@.subrange(0, k as int) =~= ids@);
                    if !seen {
                        let ghost before = ids@;
                        ids.push(t);
                        assert forall|u: usize| #[trigger] ids@.contains(u) <==> exists|m: int|
                            0 <= m < i + 1 && token_lookup(self.tokens@, initial_tokens@[m]@) == Some(u as int) by {
                            if ids@.contains(u) && u != t {
                                let q = choose|q: int| 0 <= q < ids@.len() && ids@[q] == u;
                                assert(before[q] == u);
                                assert(before.contains(u));
                            }
                            if u == t {
                                assert(ids@[before.len() as int] == t);
                            }
                            if u != t && (exists|m: int|
                                0 <= m < i + 1 && token_lookup(self.tokens@, initial_tokens@[m]@) == Some(u as int)) {
                                let m = choose|m: int|
                                    0 <= m < i + 1 && token_lookup(self.tokens@, initial_tokens@[m]@) == Some(u as int);
                                assert(m < i);
                                assert(before.contains(u));
                                let q = choose|q: int| 0 <= q < before.len() && before[q] == u;
                                assert(ids@[q] == u);
                            }
                        }
                    } else {
                        assert forall|u: usize| #[trigger] ids@.contains(u) <==> exists|m: int|
                            0 <= m < i + 1 && token_lookup(self.tokens@, initial_tokens@[m]@) == Some(u as int) by {
                            if u != t && (exists|m: int|
                                0 <= m < i + 1 && token_lookup(self.tokens@, initial_tokens@[m]@) == Some(u as int)) {
                                let m = choose|m: int|
                                    0 <= m < i + 1 && token_lookup(self.tokens@, initial_tokens@[m]@) == Some(u as int);
                                assert(m < i);
                            }
                        }
                    }
                },
                None => {
                    assert forall|u: usize| #[trigger] ids@.contains(u) <==> exists|m: int|
                        0 <= m < i + 1 && token_lookup(self.tokens@, initial_tokens@[m]@) == Some(u as int) by {
                        if exists|m: int|
                            0 <= m < i + 1 && token_lookup(self.tokens@, initial_tokens@[m]@) == Some(u as int) {
                            let m = choose|m: int|
                                0 <= m < i + 1 && token_lookup(self.tokens@, initial_tokens@[m]@) == Some(u as int);
                            assert(m < i);
                        }
                    }
                },
            }
            i = i + 1;
        }
        ids
    }
}

/// The token is named in the list.
pub open spec fn named(g: GlobalData, initial: Seq<String>, t: usize) -> bool {
    exists|i: int| 0 <= i < initial.len() && token_lookup(g.tokens@, initial[i]@) == Some(t as int)
}

/// A named token with a pool, in some family, with another named token.
pub open spec fn token_valid_named(g: GlobalData, initial: Seq<String>, t: usize) -> bool {
    named(g, initial, t) && exists|u: usize| #[trigger] named(g, initial, u) && u != t && pair_listed(g.dex_pools@, t, u)
}

/// `c` is `local` with each index replaced by the token it stands for.
pub open spec fn mapped(local: Seq<usize>, ids: Seq<usize>) -> Seq<usize> {
    local.map_values(|x: usize| ids[x as int])
}

/// A cycle over positions in `ids` becomes a sound cycle over the tokens.
proof fn lemma_mapped_sound(
    pools: Seq<BasePoolInfo>,
    tbl: Seq<Seq<bool>>,
    ids: Seq<usize>,
    len: nat,
    q: usize,
    e: Seq<usize>,
)
    requires
        is_cycle(tbl, len, q, e),
        tbl.len() == ids.len(),
        ids.no_duplicates(),
        MIN_CHAIN_LENGTH <= len <= MAX_CHAIN_LENGTH,
        forall|x: int, y: int|
            0 <= x < tbl.len() && 0 <= y < tbl.len() && #[trigger] tbl[x][y] ==> pair_listed(pools, ids[x], ids[y]),
    ensures
        cycle_sound(pools, mapped(e, ids), ids[q as int], len),
{
    let c = mapped(e, ids);
    assert forall|k: int| 0 <= k < c.len() - 1 implies #[trigger] c[k] != c[k + 1] && pair_listed(pools, c[k], c[k + 1]) by {
        assert(e[k] != e[k + 1] && valid_in(tbl, e[k], e[k + 1]));
        assert(e[k] < tbl.len() && e[k + 1] < tbl.len());
        if tbl[e[k] as int][e[k + 1] as int] {
        } else {
            assert(pair_listed(pools, ids[e[k + 1] as int], ids[e[k] as int]));
            lemma_find_pool_symmetric(pools, DexType::Orca, ids[e[k + 1] as int], ids[e[k] as int]);
            lemma_find_pool_symmetric(pools, DexType::Raydium, ids[e[k + 1] as int], ids[e[k] as int]);
            lemma_find_pool_symmetric(pools, DexType::Meteora, ids[e[k + 1] as int], ids[e[k] as int]);
        }
    }
    assert forall|i: int, j: int| 0 <= i < j < c.len() - 1 implies !same_group(
        #[trigger] c[i],
        c[i + 1],
        #[trigger] c[j],
        c[j + 1],
    ) by {
        assert(!same_group(e[i], e[i + 1], e[j], e[j + 1]));
        assert(e[i] < ids.len() && e[i + 1] < ids.len() && e[j] < ids.len() && e[j + 1] < ids.len());
        assert(c[i] == ids[e[i] as int] && c[i + 1] == ids[e[i + 1] as int]);
        assert(c[j] == ids[e[j] as int] && c[j + 1] == ids[e[j + 1] as int]);
    }
    assert(c.last() == c[len - 1]);
}

/// A cycle of `len` tokens over the tokens of `valid`: it runs from the pivot back
/// to it over listed pairs of distinct tokens, and uses no unordered pair twice.
pub open spec fn token_cycle(pools: Seq<BasePoolInfo>, valid: Seq<usize>, pivot: usize, len: nat, c: Seq<usize>) -> bool {
    &&& c.len() == len
    &&& c[0] == pivot
    &&& c.last() == pivot
    &&& forall|k: int| 0 <= k < c.len() ==> valid.contains(#[trigger] c[k])
    &&& forall|k: int| 0 <= k < c.len() - 1 ==> #[trigger] c[k] != c[k + 1] && pair_listed(pools, c[k], c[k + 1])
    &&& groups_distinct(c)
}

/// A cycle of `len` tokens from the pivot over valid named tokens.
pub open spec fn named_cycle(g: GlobalData, initial: Seq<String>, pivot: usize, len: nat, c: Seq<usize>) -> bool {
    &&& c.len() == len
    &&& c[0] == pivot
    &&& c.last() == pivot
    &&& forall|k: int| 0 <= k < c.len() ==> token_valid_named(g, initial, #[trigger] c[k])
    &&& forall|k: int| 0 <= k < c.len() - 1 ==> #[trigger] c[k] != c[k + 1] && pair_listed(g.dex_pools@, c[k], c[k + 1])
    &&& groups_distinct(c)
}

/// A token cycle read back as positions in `valid` is a cycle of the enumerator.
proof fn lemma_cycle_positions(
    pools: Seq<BasePoolInfo>,
    tbl: Seq<Seq<bool>>,
    valid: Seq<usize>,
    len: nat,
    q: usize,
    c: Seq<usize>,
) -> (e: Seq<usize>)
    requires
        tbl.len() == valid.len(),
        forall|x: int| 0 <= x < tbl.len() ==> #[trigger] tbl[x].len() == tbl.len(),
        valid.no_duplicates(),
        valid.len() <= usize::MAX,
        q < valid.len(),
        len >= 2,
        forall|x: int, y: int|
            0 <= x < tbl.len() && 0 <= y < tbl.len() && x != y && pair_listed(pools, valid[x], valid[y])
                ==> #[trigger] tbl[x][y],
        token_cycle(pools, valid, valid[q as int], len, c),
    ensures
        is_cycle(tbl, len, q, e),
        mapped(e, valid) == c,
{
    let e = Seq::new(c.len(), |k: int| choose|p: usize| p < valid.len() && valid[p as int] == c[k]);
    assert forall|k: int| 0 <= k < c.len() implies #[trigger] e[k] < valid.len() && valid[e[k] as int] == c[k] by {
        assert(valid.contains(c[k]));
        let w = choose|w: int| 0 <= w < valid.len() && valid[w] == c[k];
        assert(valid[(w as usize) as int] == c[k]);
    }
    assert(e[0] == q) by {
        assert(valid[e[0] as int] == valid[q as int]);
    }
    assert(e.last() == q) by {
        assert(valid[e[len - 1] as int] == valid[q as int]);
    }
    assert forall|k: int| 0 <= k < e.len() - 1 implies #[trigger] e[k] != e[k + 1] && valid_in(tbl, e[k], e[k + 1]) by {
        assert(valid[e[k] as int] == c[k] && valid[e[k + 1] as int] == c[k + 1]);
        assert(pair_listed(pools, valid[e[k] as int], valid[e[k + 1] as int]));
        assert(tbl[e[k] as int][e[k + 1] as int]);
    }
    assert forall|i: int, j: int| 0 <= i < j < e.len() - 1 implies !same_group(
        #[trigger] e[i],
        e[i + 1],
        #[trigger] e[j],
        e[j + 1],
    ) by {
        assert(valid[e[i] as int] == c[i] && valid[e[i + 1] as int] == c[i + 1]);
        assert(valid[e[j] as int] == c[j] && valid[e[j + 1] as int] == c[j + 1]);
        assert(!same_group(c[i], c[i + 1], c[j], c[j + 1]));
    }
    assert(mapped(e, valid) =~= c);
    e
}

/// Distinct position sequences stand for distinct token sequences.
proof fn lemma_mapped_injective(a: Seq<usize>, b: Seq<usize>, ids: Seq<usize>)
    requires
        ids.no_duplicates(),
        forall|k: int| 0 <= k < a.len() ==> #[trigger] a[k] < ids.len(),
        forall|k: int| 0 <= k < b.len() ==> #[trigger] b[k] < ids.len(),
        mapped(a, ids) == mapped(b, ids),
    ensures
        a == b,
{
    assert(a.len() == mapped(a, ids).len());
    assert forall|k: int| 0 <= k < a.len() implies a[k] == b[k] by {
        assert(mapped(a, ids)[k] == ids[a[k] as int]);
        assert(mapped(b, ids)[k] == ids[b[k] as int]);
    }
    assert(a =~= b);
}

/// Replaces each index of a chain by the token it stands for.
fn map_chain(local: &Vec<usize>, ids: &Vec<usize>) -> (r: Vec<usize>)
    requires
        forall|k: int| 0 <= k < local@.len() ==> #[trigger] local@[k] < ids@.len(),
    ensures
        r@ == mapped(local@, ids@),
{
    let mut out: Vec<usize> = Vec::new();
    let mut t: usize = 0;
    while t < local.len()
        invariant
            t <= local@.len(),
            forall|k: int| 0 <= k < local@.len() ==> #[trigger] local@[k] < ids@.len(),
            out@ == mapped(local@.subrange(0, t as int), ids@),
        decreases local@.len() - t,
    {
        out.push(ids[local[t]]);
        assert(out@ =~= mapped(local@.subrange(0, t + 1), ids@));
        t = t + 1;
    }
    assert(local@.subrange(0, t as int) =~= local@);
    out
}

impl GlobalData {
    /// The distinct named tokens that have a pool, in some family, with another named token.
    pub fn validate_tokens_across_dex(&self, initial_tokens: &Vec<String>) -> (r: Vec<usize>)
        ensures
            r@.no_duplicates(),
            forall|t: usize| #[trigger] r@.contains(t) <==> token_valid_named(*self, initial_tokens@, t),
            forall|k: int| 0 <= k < r@.len() ==> #[trigger] r@[k] < self.tokens@.len(),
    {
        let ids = self.resolve_tokens(initial_tokens);
        let mut out: Vec<usize> = Vec::new();
        let mut k: usize = 0;
        while k < ids.len()
            invariant
                k <= ids@.len(),
                names_tokens(*self, initial_tokens@, ids@),
                forall|q: int| 0 <= q < ids@.len() ==> #[trigger] ids@[q] < self.tokens@.len(),
                forall|q: int| 0 <= q < out@.len() ==> #[trigger] out@[q] < self.tokens@.len(),
                out@.no_duplicates(),
                forall|t: usize| #[trigger] out@.contains(t) <==> (ids@.subrange(0, k as int).contains(t)
                    && token_valid_named(*self, initial_tokens@, t)),
            decreases ids@.len() - k,
        {
            let t = ids[k];
            let mut found = false;
            let mut l: usize = 0;
            while l < ids.len()
                invariant
                    l <= ids@.len(),
                    k < ids@.len(),
                    t == ids@[k as int],
                    found == exists|q: int| 0 <= q < l && ids@[q] != t && pair_listed(self.dex_pools@, t, #[trigger] ids@[q]),
                decreases ids@.len() - l,
            {
                if ids[l] != t && self.pair_listed_exec(t, ids[l]) {
                    found = true;
                }
                l = l + 1;
            }
            proof {
                assert(ids@.contains(t));
                if found {
                    let q = choose|q: int| 0 <= q < ids@.len() && ids@[q] != t && pair_listed(self.dex_pools@, t, #[trigger] ids@[q]);
                    assert(ids@.contains(ids@[q]));
                    assert(named(*self, initial_tokens@, ids@[q]));
                }
                if token_valid_named(*self, initial_tokens@, t) {
                    let u = choose|u: usize| #[trigger] named(*self, initial_tokens@, u) && u != t && pair_listed(self.dex_pools@, t, u);
                    assert(ids@.contains(u));
                    let q = choose|q: int| 0 <= q < ids@.len() && ids@[q] == u;
                    assert(ids@[q] != t && pair_listed(self.dex_pools@, t, ids@[q]));
                }
                assert(found == token_valid_named(*self, initial_tokens@, t));
            }
            let ghost before = out@;
            let ghost s1 = ids@.subrange(0, k + 1);
            assert(ids@.subrange(0, k + 1) =~= ids@.subrange(0, k as int).push(t));
            assert(!ids@.subrange(0, k as int).contains(t)) by {
                if ids@.subrange(0, k as int).contains(t) {
                    let q = choose|q: int| 0 <= q < k && ids@.subrange(0, k as int)[q] == t;
                    assert(ids@[q] == ids@[k as int]);
                }
            }
            if found {
                assert(!before.contains(t));
                out.push(t);
                assert forall|a: int, b: int| 0 <= a < b < out@.len() implies out@[a] != out@[b] by {
                    if b == before.len() {
                        assert(before[a] == out@[a]);
                    }
                }
                assert forall|u: usize| #[trigger] out@.contains(u) <==> (ids@.subrange(0, k + 1).contains(u)
                    && token_valid_named(*self, initial_tokens@, u)) by {
                    if out@.contains(u) && u != t {
                        let q = choose|q: int| 0 <= q < out@.len() && out@[q] == u;
                        assert(before[q] == u);
                        assert(before.contains(u));
                    }
                    if u == t {
                        assert(out@[before.len() as int] == t);
                        assert(ids@.subrange(0, k + 1)[k as int] == t);
                    }
                    if u != t && ids@.subrange(0, k + 1).contains(u) && token_valid_named(*self, initial_tokens@, u) {
                        let q = choose|q: int| 0 <= q < s1.len() && s1[q] == u;
                        assert(ids@.subrange(0, k as int)[q] == u);
                        assert(before.contains(u));
                        let w = choose|w: int| 0 <= w < before.len() && before[w] == u;
                        assert(out@[w] == u);
                    }
                }
            } else {
                assert forall|u: usize| #[trigger] out@.contains(u) <==> (ids@.subrange(0, k + 1).contains(u)
                    && token_valid_named(*self, initial_tokens@, u)) by {
                    if u != t && ids@.subrange(0, k + 1).contains(u) {
                        let q = choose|q: int| 0 <= q < s1.len() && s1[q] == u;
                        assert(ids@.subrange(0, k as int)[q] == u);
                    }
                }
            }
            k = k + 1;
        }
        assert(ids@.subrange(0, k as int) =~= ids@);
        assert forall|t: usize| #[trigger] out@.contains(t) <==> token_valid_named(*self, initial_tokens@, t) by {
            if token_valid_named(*self, initial_tokens@, t) {
                assert(ids@.contains(t));
            }
        }
        out
    }
}

/// The registry and the cycle store are as in `b`.
pub open spec fn same_registry_and_store(a: GlobalData, b: GlobalData) -> bool {
    &&& a.tokens == b.tokens
    &&& a.dex_pools == b.dex_pools
    &&& a.orca_lookup == b.orca_lookup
    &&& a.raydium_lookup == b.raydium_lookup
    &&& a.meteora_lookup == b.meteora_lookup
    &&& a.chain_storage_4 == b.chain_storage_4
    &&& a.chain_storage_5 == b.chain_storage_5
}

/// After indexing `id` under `a`, every pool listed before is still found and
/// keeps its ids, and `a` lists `id`.
proof fn lemma_references_grow(before: Seq<ChainReference>, after: Seq<ChainReference>, a: Address, id: usize)
    requires
        match ref_lookup(before, a) {
            Some(q) => {
                let cs = before[q].chains@;
                &&& after.len() == before.len()
                &&& after[q].pool_address == a
                &&& after[q].chains@ == if cs.len() > 0 && cs.last() == id { cs } else { cs.push(id) }
                &&& forall|p: int| 0 <= p < before.len() && p != q ==> #[trigger] after[p] == before[p]
            },
            None => {
                &&& after.len() == before.len() + 1
                &&& forall|p: int| 0 <= p < before.len() ==> #[trigger] after[p] == before[p]
                &&& after[before.len() as int].pool_address == a
                &&& after[before.len() as int].chains@ == seq![id]
            },
        },
    ensures
        ref_lookup(after, a) is Some,
        after[ref_lookup(after, a)->Some_0].chains@.contains(id),
        forall|x: Address, i: usize|
            ref_lookup(before, x) is Some && #[trigger] before[ref_lookup(before, x)->Some_0].chains@.contains(i) ==> ref_lookup(
                after,
                x,
            ) is Some && after[ref_lookup(after, x)->Some_0].chains@.contains(i),
{
    lemma_ref_lookup(before, a);
    match ref_lookup(before, a) {
        Some(q) => {
            assert forall|k: int| 0 <= k < before.len() implies #[trigger] before[k].pool_address == after[k].pool_address by {
                if k != q {
                    assert(after[k] == before[k]);
                }
            }
            assert forall|x: Address| #[trigger] ref_lookup(after, x) == ref_lookup(before, x) by {
                lemma_ref_lookup_same_addresses(before, after, x);
            }
            let cs = before[q].chains@;
            if cs.len() > 0 && cs.last() == id {
                assert(cs[cs.len() - 1] == id);
            } else {
                assert(cs.push(id)[cs.len() as int] == id);
            }
            assert forall|x: Address, i: usize|
                ref_lookup(before, x) is Some && #[trigger] before[ref_lookup(before, x)->Some_0].chains@.contains(i) implies ref_lookup(
                    after,
                    x,
                ) is Some && after[ref_lookup(after, x)->Some_0].chains@.contains(i) by {
                let p = ref_lookup(before, x)->Some_0;
                lemma_ref_lookup(before, x);
                if p == q {
                    let w = choose|w: int| 0 <= w < cs.len() && cs[w] == i;
                    if !(cs.len() > 0 && cs.last() == id) {
                        assert(cs.push(id)[w] == i);
                    }
                } else {
                    assert(after[p] == before[p]);
                }
            }
        },
        None => {
            assert(after.drop_last() =~= before);
            assert(seq![id][0] == id);
            assert forall|x: Address, i: usize|
                ref_lookup(before, x) is Some && #[trigger] before[ref_lookup(before, x)->Some_0].chains@.contains(i) implies ref_lookup(
                    after,
                    x,
                ) is Some && after[ref_lookup(after, x)->Some_0].chains@.contains(i) by {
                lemma_ref_lookup(before, x);
                let p = ref_lookup(before, x)->Some_0;
                assert(after[p] == before[p]);
            }
        },
    }
}

/// Only the reverse index differs between the two stores.
pub open spec fn same_but_references(a: GlobalData, b: GlobalData) -> bool {
    &&& a.tokens == b.tokens
    &&& a.token_pairs == b.token_pairs
    &&& a.dex_pools == b.dex_pools
    &&& a.orca_lookup == b.orca_lookup
    &&& a.raydium_lookup == b.raydium_lookup
    &&& a.meteora_lookup == b.meteora_lookup
    &&& a.network_state == b.network_state
    &&& a.chain_storage_4 == b.chain_storage_4
    &&& a.chain_storage_5 == b.chain_storage_5
    &&& a.processed_graph == b.processed_graph
    &&& a.finalized_graph == b.finalized_graph
    &&& a.processed_pool_states == b.processed_pool_states
    &&& a.finalized_pool_states == b.finalized_pool_states
}

/// Every edge of the graph belongs to a pool present in some family's table.
pub open spec fn graph_registered(g: GlobalData, edges: Seq<PoolEdge>) -> bool {
    forall|k: int|
        0 <= k < edges.len() ==> g.spec_pool_exists(DexType::Orca, #[trigger] edges[k].pool_address) || g.spec_pool_exists(
            DexType::Raydium,
            edges[k].pool_address,
        ) || g.spec_pool_exists(DexType::Meteora, edges[k].pool_address)
}

impl GlobalData {
    fn graph_ok(&self, graph: &PoolGraph) -> (r: bool)
        requires
            self.registry_wf(),
        ensures
            r == graph_registered(*self, graph_edges(*graph)),
    {
        let n = graph.edge_count();
        let mut k: usize = 0;
        while k < n
            invariant
                n == graph_edges(*graph).len(),
                k <= n,
                self.registry_wf(),
                forall|j: int| 0 <= j < k ==> {
                    let a = #[trigger] graph_edges(*graph)[j].pool_address;
                    self.spec_pool_exists(DexType::Orca, a) || self.spec_pool_exists(DexType::Raydium, a)
                        || self.spec_pool_exists(DexType::Meteora, a)
                },
            decreases n - k,
        {
            let a = graph.edge_at(k).pool_address;
            if !self.pool_exists(DexType::Orca, &a) && !self.pool_exists(DexType::Raydium, &a) && !self.pool_exists(
                DexType::Meteora,
                &a,
            ) {
                return false;
            }
            k = k + 1;
        }
        true
    }

    /// Whether every edge of both graphs belongs to a pool present in some family's table.
    pub fn validate_graphs(&self) -> (r: bool)
        requires
            self.registry_wf(),
        ensures
            r == (graph_registered(*self, graph_edges(self.processed_graph)) && graph_registered(
                *self,
                graph_edges(self.finalized_graph),
            )),
    {
        self.graph_ok(&self.processed_graph) && self.graph_ok(&self.finalized_graph)
    }

    /// Indexes cycle `id` under the pool: appends it to the pool's first entry
    /// unless that entry already ends with it, or adds an entry for the pool.
    pub fn add_reference(&mut self, pool_address: Address, id: usize)
        requires
            references_sound(*old(self)),
            references_sorted(*old(self), id as int + 1),
            (id as int) < old(self).spec_chain_count(),
            cycle_uses_pool(*old(self), id as int, pool_address),
        ensures
            references_sound(*final(self)),
            references_sorted(*final(self), id as int + 1),
            same_but_references(*final(self), *old(self)),
            match ref_lookup(old(self).chain_references@, pool_address) {
                Some(q) => {
                    let before = old(self).chain_references@[q].chains@;
                    &&& final(self).chain_references@.len() == old(self).chain_references@.len()
                    &&& final(self).chain_references@[q].pool_address == pool_address
                    &&& final(self).chain_references@[q].chains@ == if before.len() > 0 && before.last() == id {
                        before
                    } else {
                        before.push(id)
                    }
                    &&& forall|p: int|
                        0 <= p < old(self).chain_references@.len() && p != q ==> #[trigger] final(self).chain_references@[p]
                            == old(self).chain_references@[p]
                },
                None => {
                    let n = old(self).chain_references@.len();
                    &&& final(self).chain_references@.len() == n + 1
                    &&& forall|p: int| 0 <= p < n ==> #[trigger] final(self).chain_references@[p] == old(self).chain_references@[p]
                    &&& final(self).chain_references@[n as int].pool_address == pool_address
                    &&& final(self).chain_references@[n as int].chains@ == seq![id]
                },
            },
    {
        proof {
            lemma_ref_lookup(self.chain_references@, pool_address);
        }
        let mut r: usize = 0;
        while r < self.chain_references.len()
            invariant
                r <= self.chain_references@.len(),
                *self == *old(self),
                references_sound(*old(self)),
                references_sorted(*old(self), id as int + 1),
                (id as int) < old(self).spec_chain_count(),
                cycle_uses_pool(*old(self), id as int, pool_address),
                forall|q: int| 0 <= q < r ==> #[trigger] self.chain_references@[q].pool_address != pool_address,
            decreases self.chain_references@.len() - r,
        {
            if self.chain_references[r].pool_address.same(&pool_address) {
                proof {
                    lemma_ref_lookup(self.chain_references@, pool_address);
                    let q = ref_lookup(self.chain_references@, pool_address)->Some_0;
                    if q > r {
                        assert(self.chain_references@[r as int].pool_address == pool_address);
                    }
                    assert(q == r);
                }
                let n = self.chain_references[r].chains.len();
                if n > 0 && self.chain_references[r].chains[n - 1] == id {
                    return;
                }
                let mut chains = copy_chain(&self.chain_references[r].chains);
                chains.push(id);
                self.chain_references.set(r, ChainReference { pool_address, chains });
                proof {
                    self.lemma_references_after_change(*old(self), pool_address, id, r as int);
                }
                return;
            }
            r = r + 1;
        }
        let mut chains: Vec<usize> = Vec::new();
        chains.push(id);
        self.chain_references.push(ChainReference { pool_address, chains });
        proof {
            let n = old(self).chain_references@.len() as int;
            self.lemma_references_after_change(*old(self), pool_address, id, n);
        }
    }

    /// The reverse index stays sound and sorted when entry `r` holds the old
    /// entry's ids plus `id` (or is a new entry holding only `id`).
    proof fn lemma_references_after_change(&self, prev: GlobalData, pool_address: Address, id: usize, r: int)
        requires
            references_sound(prev),
            references_sorted(prev, id as int + 1),
            (id as int) < prev.spec_chain_count(),
            cycle_uses_pool(prev, id as int, pool_address),
            same_but_references(*self, prev),
            0 <= r < self.chain_references@.len(),
            r <= prev.chain_references@.len(),
            r < prev.chain_references@.len() ==> self.chain_references@.len() == prev.chain_references@.len()
                && prev.chain_references@[r].pool_address == pool_address
                && self.chain_references@[r].chains@ == prev.chain_references@[r].chains@.push(id)
                && !(prev.chain_references@[r].chains@.len() > 0 && prev.chain_references@[r].chains@.last() == id),
            r == prev.chain_references@.len() ==> self.chain_references@.len() == r + 1 && self.chain_references@[r].chains@ == seq![id],
            self.chain_references@[r].pool_address == pool_address,
            forall|p: int| 0 <= p < self.chain_references@.len() && p != r ==> #[trigger] self.chain_references@[p] == prev.chain_references@[p],
        ensures
            references_sound(*self),
            references_sorted(*self, id as int + 1),
    {
        assert forall|q: int, m: int|
            0 <= q < self.chain_references@.len() && 0 <= m < self.chain_references@[q].chains@.len() implies {
            let i = #[trigger] self.chain_references@[q].chains@[m] as int;
            &&& i < self.spec_chain_count()
            &&& cycle_uses_pool(*self, i, self.chain_references@[q].pool_address)
        } by {
            let i = self.chain_references@[q].chains@[m] as int;
            assert(self.spec_chain(i) == prev.spec_chain(i));
            let a = self.chain_references@[q].pool_address;
            if q != r || m < self.chain_references@[q].chains@.len() - 1 {
                if q == r {
                    assert(r < prev.chain_references@.len());
                    assert(self.chain_references@[q].chains@[m] == prev.chain_references@[q].chains@[m]);
                } else {
                    assert(self.chain_references@[q] == prev.chain_references@[q]);
                }
                assert(prev.chain_references@[q].pool_address == a);
                assert(prev.chain_references@[q].chains@[m] as int == i);
                assert(cycle_uses_pool(prev, i, a));
            } else {
                assert(i == id && a == pool_address);
            }
            let (k, d) = choose|k: int, d: nat|
                0 <= k < prev.spec_chain(i).len() - 1 && d < 3 && #[trigger] find_pool_spec(
                    prev.dex_pools@,
                    spec_dex_at(d),
                    prev.spec_chain(i)[k],
                    prev.spec_chain(i)[k + 1],
                ) == Some(a);
            assert(find_pool_spec(self.dex_pools@, spec_dex_at(d), self.spec_chain(i)[k], self.spec_chain(i)[k + 1]) == Some(a));
        }
        assert forall|q: int, m1: int, m2: int|
            0 <= q < self.chain_references@.len() && 0 <= m1 < m2 < self.chain_references@[q].chains@.len() implies #[trigger] self.chain_references@[q].chains@[m1]
                < #[trigger] self.chain_references@[q].chains@[m2] by {
            if q == r {
                let cs = self.chain_references@[q].chains@;
                if r < prev.chain_references@.len() {
                    let old_cs = prev.chain_references@[r].chains@;
                    if m2 == cs.len() - 1 {
                        assert(old_cs[m1] <= id);
                        assert(old_cs.last() <= id && old_cs.last() != id);
                        if m1 < old_cs.len() - 1 {
                            assert(old_cs[m1] < old_cs[old_cs.len() - 1]);
                        }
                    } else {
                        assert(cs[m1] == old_cs[m1] && cs[m2] == old_cs[m2]);
                    }
                }
            } else {
                assert(self.chain_references@[q] == prev.chain_references@[q]);
            }
        }
        assert forall|q: int, m: int|
            0 <= q < self.chain_references@.len() && 0 <= m < self.chain_references@[q].chains@.len() implies #[trigger] self.chain_references@[q].chains@[m]
                <= id by {
            if q == r {
                if r < prev.chain_references@.len() && m < self.chain_references@[q].chains@.len() - 1 {
                    assert(self.chain_references@[q].chains@[m] == prev.chain_references@[q].chains@[m]);
                }
            } else {
                assert(self.chain_references@[q] == prev.chain_references@[q]);
            }
        }
    }

    /// The cycle ids indexed under the pool (its first entry), empty when it has none.
    pub fn chains_of_pool(&self, pool_address: &Address) -> (r: Vec<usize>)
        ensures
            r@ == match ref_lookup(self.chain_references@, *pool_address) {
                Some(q) => self.chain_references@[q].chains@,
                None => Seq::<usize>::empty(),
            },
    {
        let mut r: usize = 0;
        while r < self.chain_references.len()
            invariant
                r <= self.chain_references@.len(),
                forall|p: int| 0 <= p < r ==> #[trigger] self.chain_references@[p].pool_address != *pool_address,
            decreases self.chain_references@.len() - r,
        {
            if self.chain_references[r].pool_address.same(pool_address) {
                let out = copy_chain(&self.chain_references[r].chains);
                proof {
                    lemma_ref_lookup(self.chain_references@, *pool_address);
                    let q = ref_lookup(self.chain_references@, *pool_address)->Some_0;
                    if q > r {
                        assert(self.chain_references@[r as int].pool_address == *pool_address);
                    }
                }
                return out;
            }
            r = r + 1;
        }
        proof {
            lemma_ref_lookup(self.chain_references@, *pool_address);
        }
        Vec::new()
    }
}

impl GlobalData {
    /// The table of listed pairs over the validated tokens, by position.
    fn listed_pairs(&self, valid: &Vec<usize>) -> (r: ValidPairs)
        ensures
            r.wf(),
            r.size() == valid@.len(),
            forall|x: int, y: int|
                0 <= x < r.size() && 0 <= y < r.size() && x != y && pair_listed(self.dex_pools@, valid@[x], valid@[y])
                    ==> #[trigger] r.table()[x][y],
            forall|x: int, y: int|
                0 <= x < r.size() && 0 <= y < r.size() && #[trigger] r.table()[x][y] ==> pair_listed(
                    self.dex_pools@,
                    valid@[x],
                    valid@[y],
                ),
    {
        let m = valid.len();
        let mut pairs = ValidPairs::new(m);
        let mut a: usize = 0;
        while a < m
            invariant
                m == valid@.len(),
                a <= m,
                pairs.wf(),
                pairs.size() == m,
                forall|x: int, y: int|
                    0 <= x < m && 0 <= y < m && #[trigger] pairs.table()[x][y] ==> pair_listed(
                        self.dex_pools@,
                        valid@[x],
                        valid@[y],
                    ),
                forall|x: int, y: int|
                    0 <= x < a && x < y < m && #[trigger] pair_listed(self.dex_pools@, valid@[x], valid@[y]) ==> pairs.table()[x][y]
                        && pairs.table()[y][x],
            decreases m - a,
        {
            let mut b: usize = a + 1;
            while b < m
                invariant
                    m == valid@.len(),
                    a < m,
                    a + 1 <= b <= m,
                    pairs.wf(),
                    pairs.size() == m,
                    forall|x: int, y: int|
                        0 <= x < m && 0 <= y < m && #[trigger] pairs.table()[x][y] ==> pair_listed(
                            self.dex_pools@,
                            valid@[x],
                            valid@[y],
                        ),
                    forall|x: int, y: int|
                        ((0 <= x < a && x < y < m) || (x == a && a < y < b)) && #[trigger] pair_listed(self.dex_pools@, valid@[x], valid@[y])
                            ==> pairs.table()[x][y] && pairs.table()[y][x],
                decreases m - b,
            {
                if self.pair_listed_exec(valid[a], valid[b]) {
                    proof {
                        lemma_find_pool_symmetric(self.dex_pools@, DexType::Orca, valid@[a as int], valid@[b as int]);
                        lemma_find_pool_symmetric(self.dex_pools@, DexType::Raydium, valid@[a as int], valid@[b as int]);
                        lemma_find_pool_symmetric(self.dex_pools@, DexType::Meteora, valid@[a as int], valid@[b as int]);
                    }
                    let ghost before = pairs.table();
                    pairs.add_pair(a, b);
                    assert forall|x: int, y: int|
                        ((0 <= x < a && x < y < m) || (x == a && a < y < b + 1)) && #[trigger] pair_listed(self.dex_pools@, valid@[x], valid@[y])
                            implies pairs.table()[x][y] && pairs.table()[y][x] by {
                        if !(x == a && y == b) {
                            assert(before[x][y] && before[y][x]);
                        }
                    }
                }
                b = b + 1;
            }
            a = a + 1;
        }
        assert forall|x: int, y: int|
            0 <= x < m && 0 <= y < m && x != y && pair_listed(self.dex_pools@, valid@[x], valid@[y])
                implies #[trigger] pairs.table()[x][y] by {
            if y < x {
                lemma_find_pool_symmetric(self.dex_pools@, DexType::Orca, valid@[x], valid@[y]);
                lemma_find_pool_symmetric(self.dex_pools@, DexType::Raydium, valid@[x], valid@[y]);
                lemma_find_pool_symmetric(self.dex_pools@, DexType::Meteora, valid@[x], valid@[y]);
                assert(pair_listed(self.dex_pools@, valid@[y], valid@[x]));
            }
        }
        pairs
    }

    /// The cycles of `len` tokens through the pivot at position `q`, over tokens.
    fn cycles_of_len(&self, pairs: &ValidPairs, valid: &Vec<usize>, q: usize, len: usize) -> (r: Vec<Vec<usize>>)
        requires
            pairs.wf(),
            pairs.size() == valid@.len(),
            valid@.no_duplicates(),
            q < valid@.len(),
            MIN_CHAIN_LENGTH <= len <= MAX_CHAIN_LENGTH,
            forall|k: int| 0 <= k < valid@.len() ==> #[trigger] valid@[k] < self.tokens@.len(),
            forall|x: int, y: int|
                0 <= x < pairs.size() && 0 <= y < pairs.size() && #[trigger] pairs.table()[x][y] ==> pair_listed(
                    self.dex_pools@,
                    valid@[x],
                    valid@[y],
                ),
            forall|x: int, y: int|
                0 <= x < pairs.size() && 0 <= y < pairs.size() && x != y && pair_listed(self.dex_pools@, valid@[x], valid@[y])
                    ==> #[trigger] pairs.table()[x][y],
        ensures
            forall|c: int| 0 <= c < r@.len() ==> cycle_sound(self.dex_pools@, #[trigger] r@[c]@, valid@[q as int], len as nat),
            forall|c: Seq<usize>|
                #[trigger] token_cycle(self.dex_pools@, valid@, valid@[q as int], len as nat, c) ==> exists|i: int|
                    0 <= i < r@.len() && r@[i]@ == c,
            forall|i: int, j: int| 0 <= i < j < r@.len() ==> #[trigger] r@[i]@ != #[trigger] r@[j]@,
            forall|c: int, k: int| 0 <= c < r@.len() && 0 <= k < r@[c]@.len() ==> #[trigger] r@[c]@[k] < self.tokens@.len(),
            forall|c: int, k: int| 0 <= c < r@.len() && 0 <= k < r@[c]@.len() ==> valid@.contains(#[trigger] r@[c]@[k]),
    {
        let m = valid.len();
        let mut local = find_chains(pairs, q, len);
        deduplicate(&mut local);
        assert forall|c: int, k: int| 0 <= c < local@.len() && 0 <= k < local@[c]@.len() implies #[trigger] local@[c]@[k]
            < valid@.len() by {
            assert(views(local@)[c] == local@[c]@);
            assert(views(local@).contains(local@[c]@));
        }
        let mut out: Vec<Vec<usize>> = Vec::new();
        let mut i: usize = 0;
        while i < local.len()
            invariant
                i <= local@.len(),
                pairs.wf(),
                pairs.size() == valid@.len(),
                valid@.no_duplicates(),
                q < valid@.len(),
                MIN_CHAIN_LENGTH <= len <= MAX_CHAIN_LENGTH,
                forall|x: int, y: int|
                    0 <= x < pairs.size() && 0 <= y < pairs.size() && #[trigger] pairs.table()[x][y] ==> pair_listed(
                        self.dex_pools@,
                        valid@[x],
                        valid@[y],
                    ),
                forall|e: Seq<usize>| #[trigger] views(local@).contains(e) ==> is_cycle(pairs.table(), len as nat, q, e),
                forall|c: int| 0 <= c < out@.len() ==> cycle_sound(self.dex_pools@, #[trigger] out@[c]@, valid@[q as int], len as nat),
                out@.len() == i,
                forall|c: int| 0 <= c < i ==> #[trigger] out@[c]@ == mapped(local@[c]@, valid@),
                forall|c: int, k: int| 0 <= c < local@.len() && 0 <= k < local@[c]@.len() ==> #[trigger] local@[c]@[k] < valid@.len(),
            decreases local@.len() - i,
        {
            let ghost e = views(local@)[i as int];
            assert(pairs.table().len() == pairs.size());
            assert(views(local@).contains(e));
            assert(local@[i as int]@ == e);
            let c = map_chain(&local[i], valid);
            proof {
                lemma_mapped_sound(self.dex_pools@, pairs.table(), valid@, len as nat, q, e);
            }
            out.push(c);
            i = i + 1;
        }
        assert forall|c: int, k: int| 0 <= c < out@.len() && 0 <= k < out@[c]@.len() implies #[trigger] out@[c]@[k]
            < self.tokens@.len() by {
            assert(out@[c]@ == mapped(local@[c]@, valid@));
            assert(local@[c]@[k] < valid@.len());
        }
        assert forall|c: int, k: int| 0 <= c < out@.len() && 0 <= k < out@[c]@.len() implies valid@.contains(
            #[trigger] out@[c]@[k],
        ) by {
            assert(out@[c]@ == mapped(local@[c]@, valid@));
            assert(local@[c]@[k] < valid@.len());
            assert(valid@[local@[c]@[k] as int] == out@[c]@[k]);
        }
        assert forall|i: int, j: int| 0 <= i < j < out@.len() implies #[trigger] out@[i]@ != #[trigger] out@[j]@ by {
            assert(views(local@)[i] == local@[i]@ && views(local@)[j] == local@[j]@);
            if out@[i]@ == out@[j]@ {
                lemma_mapped_injective(local@[i]@, local@[j]@, valid@);
            }
        }
        assert forall|c: Seq<usize>|
            #[trigger] token_cycle(self.dex_pools@, valid@, valid@[q as int], len as nat, c) implies exists|i: int|
                0 <= i < out@.len() && out@[i]@ == c by {
            assert(pairs.table().len() == pairs.size());
            assert(valid@.len() == m);
            let e = lemma_cycle_positions(self.dex_pools@, pairs.table(), valid@, len as nat, q, c);
            assert(views(local@).contains(e));
            let w = choose|w: int| 0 <= w < views(local@).len() && views(local@)[w] == e;
            assert(local@[w]@ == e);
            assert(out@[w]@ == c);
        }
        out
    }

    /// Builds the cycle store from the named tokens and the pivot: validates the
    /// tokens, enumerates the cycles of four and five tokens, indexes them under
    /// every pool a hop can use, and gives each such pool an edge in both graphs.
    /// Returns false, with an empty store, when the pivot is not a valid token.
    pub fn build_and_find_chains(&mut self, initial_tokens: &Vec<String>, start_token: &String) -> (r: bool)
        requires
            old(self).registry_wf(),
        ensures
            final(self).registry_wf(),
            final(self).tokens == old(self).tokens,
            final(self).dex_pools == old(self).dex_pools,
            forall|d: DexType| #[trigger] final(self).table(d) == old(self).table(d),
            r == (token_lookup(old(self).tokens@, start_token@) is Some && token_valid_named(
                *old(self),
                initial_tokens@,
                token_lookup(old(self).tokens@, start_token@)->Some_0 as usize,
            )),
            r ==> chains_sound(*final(self), token_lookup(old(self).tokens@, start_token@)->Some_0 as usize),
            r ==> forall|c: int, k: int|
                0 <= c < final(self).chain_storage_4@.len() && 0 <= k < final(self).chain_storage_4@[c]@.len()
                    ==> token_valid_named(*old(self), initial_tokens@, #[trigger] final(self).chain_storage_4@[c]@[k]),
            r ==> forall|c: int, k: int|
                0 <= c < final(self).chain_storage_5@.len() && 0 <= k < final(self).chain_storage_5@[c]@.len()
                    ==> token_valid_named(*old(self), initial_tokens@, #[trigger] final(self).chain_storage_5@[c]@[k]),
            r ==> forall|c: Seq<usize>|
                #[trigger] named_cycle(*old(self), initial_tokens@, token_lookup(old(self).tokens@, start_token@)->Some_0 as usize, 4, c)
                    ==> exists|i: int| 0 <= i < final(self).chain_storage_4@.len() && final(self).chain_storage_4@[i]@ == c,
            r ==> forall|c: Seq<usize>|
                #[trigger] named_cycle(*old(self), initial_tokens@, token_lookup(old(self).tokens@, start_token@)->Some_0 as usize, 5, c)
                    ==> exists|i: int| 0 <= i < final(self).chain_storage_5@.len() && final(self).chain_storage_5@[i]@ == c,
            !r ==> final(self).chain_storage_4@.len() == 0 && final(self).chain_storage_5@.len() == 0,
            forall|i: int, j: int|
                0 <= i < j < final(self).chain_storage_4@.len() ==> #[trigger] final(self).chain_storage_4@[i]@
                    != #[trigger] final(self).chain_storage_4@[j]@,
            forall|i: int, j: int|
                0 <= i < j < final(self).chain_storage_5@.len() ==> #[trigger] final(self).chain_storage_5@[i]@
                    != #[trigger] final(self).chain_storage_5@[j]@,
            edges_registered(*final(self)),
            references_sound(*final(self)),
            references_sorted(*final(self), final(self).spec_chain_count()),
            graphs_fresh(*final(self)),
            final(self).spec_chain_count() <= usize::MAX ==> hops_indexed(*final(self)),
    {
        let valid = self.validate_tokens_across_dex(initial_tokens);
        let found_pivot = self.find_token(start_token);
        self.chain_storage_4 = Vec::new();
        self.chain_storage_5 = Vec::new();
        self.chain_references = Vec::new();
        self.processed_graph = PoolGraph::new();
        self.finalized_graph = PoolGraph::new();
        let ntok = self.tokens.len();
        let mut t: usize = 0;
        while t < ntok
            invariant
                ntok == self.tokens@.len(),
                t <= ntok,
                graph_node_count(self.processed_graph) == t,
                graph_node_count(self.finalized_graph) == t,
                graph_edges(self.processed_graph).len() == 0,
                graph_edges(self.finalized_graph).len() == 0,
                self.chain_storage_4@.len() == 0,
                self.chain_storage_5@.len() == 0,
                self.chain_references@.len() == 0,
                self.tokens == old(self).tokens,
                self.dex_pools == old(self).dex_pools,
                self.orca_lookup == old(self).orca_lookup,
                self.raydium_lookup == old(self).raydium_lookup,
                self.meteora_lookup == old(self).meteora_lookup,
            decreases ntok - t,
        {
            self.processed_graph.add_node(t);
            self.finalized_graph.add_node(t);
            t = t + 1;
        }
        assert(graph_edges(self.processed_graph) =~= graph_edges(self.finalized_graph));
        let p = match found_pivot {
            Some(p) => p,
            None => {
                return false;
            },
        };
        let mut i: usize = 0;
        let mut q: usize = 0;
        let mut found = false;
        while i < valid.len()
            invariant
                i <= valid@.len(),
                !found ==> forall|k: int| 0 <= k < i ==> #[trigger] valid@[k] != p,
                found ==> q < valid@.len() && valid@[q as int] == p,
            decreases valid@.len() - i,
        {
            if !found && valid[i] == p {
                found = true;
                q = i;
            }
            i = i + 1;
        }
        if !found {
            proof {
                if token_valid_named(*old(self), initial_tokens@, p) {
                    assert(valid@.contains(p));
                    let k = choose|k: int| 0 <= k < valid@.len() && valid@[k] == p;
                    assert(valid@[k] != p);
                }
            }
            return false;
        }
        assert(valid@.contains(p));
        let pairs = self.listed_pairs(&valid);
        let c4 = self.cycles_of_len(&pairs, &valid, q, 4);
        let c5 = self.cycles_of_len(&pairs, &valid, q, 5);
        proof {
            assert forall|len: nat, c: Seq<usize>|
                #[trigger] named_cycle(*old(self), initial_tokens@, p, len, c) implies token_cycle(
                    self.dex_pools@,
                    valid@,
                    valid@[q as int],
                    len,
                    c,
                ) by {
                assert forall|k: int| 0 <= k < c.len() implies valid@.contains(#[trigger] c[k]) by {
                    assert(token_valid_named(*old(self), initial_tokens@, c[k]));
                }
            }
        }
        self.chain_storage_4 = c4;
        self.chain_storage_5 = c5;
        if self.chain_storage_5.len() > usize::MAX - self.chain_storage_4.len() {
            return true;
        }
        let total = self.chain_storage_4.len() + self.chain_storage_5.len();
        let ghost reg = *self;
        let mut id: usize = 0;
        while id < total
            invariant
                total == self.spec_chain_count(),
                id <= total,
                same_registry_and_store(*self, reg),
                self.registry_wf(),
                graph_node_count(self.processed_graph) == self.tokens@.len(),
                graph_node_count(self.finalized_graph) == self.tokens@.len(),
                forall|i: int, kk: int| 0 <= i < total && 0 <= kk < self.spec_chain(i).len() ==> #[trigger] self.spec_chain(i)[kk] < self.tokens@.len(),
                edges_registered(*self),
                references_sound(*self),
                references_sorted(*self, id as int),
                graphs_fresh(*self),
                forall|i: int, kk: int, dd: nat|
                    0 <= i < total && 0 <= kk < self.spec_chain(i).len() - 1 && dd < 3 && i < id ==> #[trigger] hop_indexed(*self, i, kk, dd),
            decreases total - id,
        {
            let chain = copy_chain(self.chain_by_id(id));
            let n = chain.len();
            let mut k: usize = 0;
            while k + 1 < n
                invariant
                    n == chain@.len(),
                    n == 0 ==> k == 0,
                    n > 0 ==> k < n,
                    chain@ == self.spec_chain(id as int),
                    total == self.spec_chain_count(),
                    id < total,
                    same_registry_and_store(*self, reg),
                    self.registry_wf(),
                    graph_node_count(self.processed_graph) == self.tokens@.len(),
                    graph_node_count(self.finalized_graph) == self.tokens@.len(),
                    forall|i: int, kk: int| 0 <= i < total && 0 <= kk < self.spec_chain(i).len() ==> #[trigger] self.spec_chain(i)[kk] < self.tokens@.len(),
                    edges_registered(*self),
                    references_sound(*self),
                    references_sorted(*self, id as int + 1),
                    graphs_fresh(*self),
                    forall|i: int, kk: int, dd: nat|
                        0 <= i < total && 0 <= kk < self.spec_chain(i).len() - 1 && dd < 3 && visited_before(i, kk, dd, id as int, k as int, 0)
                            ==> #[trigger] hop_indexed(*self, i, kk, dd),
                decreases n - k,
            {
                let mut d: usize = 0;
                while d < 3
                    invariant
                        n == chain@.len(),
                        k + 1 < n,
                        chain@ == self.spec_chain(id as int),
                        total == self.spec_chain_count(),
                        id < total,
                        d <= 3,
                        same_registry_and_store(*self, reg),
                        self.registry_wf(),
                        graph_node_count(self.processed_graph) == self.tokens@.len(),
                        graph_node_count(self.finalized_graph) == self.tokens@.len(),
                        forall|i: int, kk: int| 0 <= i < total && 0 <= kk < self.spec_chain(i).len() ==> #[trigger] self.spec_chain(i)[kk] < self.tokens@.len(),
                        edges_registered(*self),
                        references_sound(*self),
                        references_sorted(*self, id as int + 1),
                        graphs_fresh(*self),
                        forall|i: int, kk: int, dd: nat|
                            0 <= i < total && 0 <= kk < self.spec_chain(i).len() - 1 && dd < 3 && visited_before(i, kk, dd, id as int, k as int, d as nat)
                                ==> #[trigger] hop_indexed(*self, i, kk, dd),
                    decreases 3 - d,
                {
                    let ghost before_hop = *self;
                    self.index_hop(id, &chain, k, d);
                    assert forall|i: int, kk: int, dd: nat|
                        0 <= i < total && 0 <= kk < self.spec_chain(i).len() - 1 && dd < 3 && visited_before(i, kk, dd, id as int, k as int, (d + 1) as nat)
                            implies #[trigger] hop_indexed(*self, i, kk, dd) by {
                        if visited_before(i, kk, dd, id as int, k as int, d as nat) {
                            assert(hop_indexed(before_hop, i, kk, dd));
                        }
                    }
                    assert forall|i: int, kk: int| 0 <= i < total && 0 <= kk < self.spec_chain(i).len() implies #[trigger] self.spec_chain(i)[kk] < self.tokens@.len() by {
                        assert(self.spec_chain(i) == before_hop.spec_chain(i));
                    }
                    d = d + 1;
                }
                assert forall|i: int, kk: int, dd: nat|
                    0 <= i < total && 0 <= kk < self.spec_chain(i).len() - 1 && dd < 3 && visited_before(i, kk, dd, id as int, (k + 1) as int, 0)
                        implies #[trigger] hop_indexed(*self, i, kk, dd) by {
                    assert(visited_before(i, kk, dd, id as int, k as int, 3));
                }
                k = k + 1;
            }
            assert forall|i: int, kk: int, dd: nat|
                0 <= i < total && 0 <= kk < self.spec_chain(i).len() - 1 && dd < 3 && i < id + 1
                    implies #[trigger] hop_indexed(*self, i, kk, dd) by {
                assert(visited_before(i, kk, dd, id as int, k as int, 0));
            }
            id = id + 1;
        }
        true
    }

    /// Indexes hop `k` of cycle `id` for the family at position `d`: if the hop
    /// resolves to a pool, the pool gets a fresh edge in both graphs (unless it
    /// has one) and the cycle is listed under it.
    fn index_hop(&mut self, id: usize, chain: &Vec<usize>, k: usize, d: usize)
        requires
            old(self).registry_wf(),
            (id as int) < old(self).spec_chain_count(),
            chain@ == old(self).spec_chain(id as int),
            k + 1 < chain@.len(),
            chain@.len() <= usize::MAX,
            d < 3,
            forall|kk: int| 0 <= kk < chain@.len() ==> #[trigger] chain@[kk] < old(self).tokens@.len(),
            graph_node_count(old(self).processed_graph) == old(self).tokens@.len(),
            graph_node_count(old(self).finalized_graph) == old(self).tokens@.len(),
            edges_registered(*old(self)),
            references_sound(*old(self)),
            references_sorted(*old(self), id as int + 1),
            graphs_fresh(*old(self)),
        ensures
            same_registry_and_store(*final(self), *old(self)),
            graph_node_count(final(self).processed_graph) == graph_node_count(old(self).processed_graph),
            graph_node_count(final(self).finalized_graph) == graph_node_count(old(self).finalized_graph),
            edges_registered(*final(self)),
            references_sound(*final(self)),
            references_sorted(*final(self), id as int + 1),
            graphs_fresh(*final(self)),
            hop_indexed(*final(self), id as int, k as int, d as nat),
            forall|i: int, kk: int, dd: nat|
                0 <= i < old(self).spec_chain_count() && 0 <= kk < old(self).spec_chain(i).len() - 1 && dd < 3 && hop_indexed(*old(self), i, kk, dd)
                    ==> #[trigger] hop_indexed(*final(self), i, kk, dd),
    {
        let dex = dex_at(d);
        match self.find_pool_by_ids(dex, chain[k], chain[k + 1]) {
            Some(addr) => {
                assert(find_pool_spec(
                    self.dex_pools@,
                    spec_dex_at(d as nat),
                    self.spec_chain(id as int)[k as int],
                    self.spec_chain(id as int)[k + 1],
                ) == Some(addr));
                assert(cycle_uses_pool(*self, id as int, addr));
                proof {
                    lemma_found_pool_registered(self.dex_pools@, dex, chain@[k as int], chain@[k + 1]);
                    lemma_ref_lookup(self.chain_references@, addr);
                }
                assert(self.spec_pool_exists(dex, addr));
                let ghost refs0 = self.chain_references@;
                self.add_reference(addr, id);
                let ghost refs1 = self.chain_references@;
                proof {
                    lemma_references_grow(refs0, refs1, addr, id);
                }
                let ghost g1 = graph_edges(self.processed_graph);
                self.processed_graph.add_edge(PoolEdge::new(addr, dex, chain[k], chain[k + 1]));
                let ghost g2 = graph_edges(self.finalized_graph);
                self.finalized_graph.add_edge(PoolEdge::new(addr, dex, chain[k], chain[k + 1]));
                assert(graph_edges(self.processed_graph) == graph_edges(self.finalized_graph));
                assert forall|e: int| 0 <= e < graph_edges(self.processed_graph).len() implies fresh_edge(
                    #[trigger] graph_edges(self.processed_graph)[e],
                ) by {
                    if e < g1.len() {
                        assert(graph_edges(self.processed_graph)[e] == g1[e]);
                    }
                }
                assert forall|e: int| 0 <= e < graph_edges(self.processed_graph).len() implies self.spec_pool_exists(
                    #[trigger] graph_edges(self.processed_graph)[e].dex,
                    graph_edges(self.processed_graph)[e].pool_address,
                ) by {
                    if e < g1.len() {
                        assert(graph_edges(self.processed_graph)[e] == g1[e]);
                    }
                }
                assert forall|e: int| 0 <= e < graph_edges(self.finalized_graph).len() implies self.spec_pool_exists(
                    #[trigger] graph_edges(self.finalized_graph)[e].dex,
                    graph_edges(self.finalized_graph)[e].pool_address,
                ) by {
                    if e < g2.len() {
                        assert(graph_edges(self.finalized_graph)[e] == g2[e]);
                    }
                }
                assert forall|i: int, kk: int, dd: nat|
                    0 <= i < old(self).spec_chain_count() && 0 <= kk < old(self).spec_chain(i).len() - 1 && dd < 3
                        && hop_indexed(*old(self), i, kk, dd) implies #[trigger] hop_indexed(*self, i, kk, dd) by {
                    assert(self.spec_chain(i) == old(self).spec_chain(i));
                }
                proof {
                    lemma_ref_lookup(refs1, addr);
                }
            },
            None => {},
        }
    }
}

} // verus!
