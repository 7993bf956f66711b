use vstd::prelude::*;
use crate::data::{ref_lookup, GlobalData};
use crate::decoder::{decode_pool, spec_decode_base64_zstd, spec_parse_pool_data, supported_encoding, DecodeError, PoolData};
use crate::graph::{edge_lookup, graph_edges, lemma_edge_lookup, EdgeMetrics};
use crate::pool_state::{
    data_family, edge_active, spec_changed, spec_edge_active, spec_from_pool_data, spec_updated, FinalizedPoolState, PoolStateBase, ProcessedPoolState,
};
use crate::router::{recalc_ok, ChainUpdate, RouterEngine};
use crate::topology::edges_registered;
use crate::types::{Address, DexType, PoolCommitment};

verus! {

/// What became of one account update.
#[derive(Debug, Clone, Copy, PartialEq, Eq, Structural)]
pub enum IngestOutcome {
    /// The pool is not registered for the stream's family: dropped.
    UnknownPool,
    /// The payload could not be decoded: dropped.
    Decode(DecodeError),
    /// The update is older than the stored state: dropped.
    StaleSlot,
    /// No meaningful field changed.
    Unchanged,
    /// The pool was seen for the first time at this commitment level.
    Created,
    /// A meaningful field changed: the edge metrics and the pool's cycles are due.
    Changed,
}

/// The stored state belongs to pool `a` of family `dex`.
pub open spec fn state_is(base: PoolStateBase, dex: DexType, a: Address) -> bool {
    base.spec_family() == dex && base.spec_address() == a
}

/// Index of the first processed state of pool `a` of family `dex`.
pub open spec fn processed_lookup(states: Seq<ProcessedPoolState>, dex: DexType, a: Address) -> Option<int>
    decreases states.len(),
{
    if states.len() == 0 {
        None
    } else {
        match processed_lookup(states.drop_last(), dex, a) {
            Some(k) => Some(k),
            None => if state_is(states.last().base, dex, a) {
                Some(states.len() - 1)
            } else {
                None
            },
        }
    }
}

/// Index of the first finalized state of pool `a` of family `dex`.
pub open spec fn finalized_lookup(states: Seq<FinalizedPoolState>, dex: DexType, a: Address) -> Option<int>
    decreases states.len(),
{
    if states.len() == 0 {
        None
    } else {
        match finalized_lookup(states.drop_last(), dex, a) {
            Some(k) => Some(k),
            None => if state_is(states.last().base, dex, a) {
                Some(states.len() - 1)
            } else {
                None
            },
        }
    }
}

/// The outcome of applying an account to a stored state with slot `stored`.
pub open spec fn outcome_for(base: PoolStateBase, stored: u64, data: PoolData, slot: u64) -> IngestOutcome {
    if slot < stored {
        IngestOutcome::StaleSlot
    } else if spec_changed(base, data) {
        IngestOutcome::Changed
    } else {
        IngestOutcome::Unchanged
    }
}

/// The processed states after an account of pool `a` observed at `slot`, and the outcome.
pub open spec fn processed_after(
    states: Seq<ProcessedPoolState>,
    a: Address,
    data: PoolData,
    slot: u64,
    now: u64,
) -> (Seq<ProcessedPoolState>, IngestOutcome) {
    match processed_lookup(states, data_family(data), a) {
        None => (
            states.push(
                ProcessedPoolState { base: spec_from_pool_data(a, data), processed_slot: slot, last_update_time: now },
            ),
            IngestOutcome::Created,
        ),
        Some(k) => {
            let st = states[k];
            let o = outcome_for(st.base, st.processed_slot, data, slot);
            if o == IngestOutcome::StaleSlot {
                (states, o)
            } else if o == IngestOutcome::Changed {
                (
                    states.update(
                        k,
                        ProcessedPoolState { base: spec_updated(st.base, data), processed_slot: slot, last_update_time: now },
                    ),
                    o,
                )
            } else {
                (states.update(k, ProcessedPoolState { base: spec_updated(st.base, data), ..st }), o)
            }
        },
    }
}

/// The finalized states after an account of pool `a` observed at `slot`, and the outcome.
pub open spec fn finalized_after(
    states: Seq<FinalizedPoolState>,
    a: Address,
    data: PoolData,
    slot: u64,
    now: u64,
) -> (Seq<FinalizedPoolState>, IngestOutcome) {
    match finalized_lookup(states, data_family(data), a) {
        None => (
            states.push(
                FinalizedPoolState { base: spec_from_pool_data(a, data), finalized_slot: slot, last_update_time: now },
            ),
            IngestOutcome::Created,
        ),
        Some(k) => {
            let st = states[k];
            let o = outcome_for(st.base, st.finalized_slot, data, slot);
            if o == IngestOutcome::StaleSlot {
                (states, o)
            } else if o == IngestOutcome::Changed {
                (
                    states.update(
                        k,
                        FinalizedPoolState { base: spec_updated(st.base, data), finalized_slot: slot, last_update_time: now },
                    ),
                    o,
                )
            } else {
                (states.update(k, FinalizedPoolState { base: spec_updated(st.base, data), ..st }), o)
            }
        },
    }
}

pub proof fn lemma_processed_lookup(states: Seq<ProcessedPoolState>, dex: DexType, a: Address)
    ensures
        processed_lookup(states, dex, a) is Some ==> 0 <= processed_lookup(states, dex, a)->Some_0 < states.len(),
    decreases states.len(),
{
    if states.len() > 0 {
        lemma_processed_lookup(states.drop_last(), dex, a);
    }
}

pub proof fn lemma_finalized_lookup(states: Seq<FinalizedPoolState>, dex: DexType, a: Address)
    ensures
        finalized_lookup(states, dex, a) is Some ==> 0 <= finalized_lookup(states, dex, a)->Some_0 < states.len(),
    decreases states.len(),
{
    if states.len() > 0 {
        lemma_finalized_lookup(states.drop_last(), dex, a);
    }
}

/// Everything but the pool-state tables is as before.
pub open spec fn same_but_states(a: GlobalData, b: GlobalData) -> bool {
    &&& a.tokens == b.tokens
    &&& a.token_pairs == b.token_pairs
    &&& a.dex_pools == b.dex_pools
    &&& a.orca_lookup == b.orca_lookup
    &&& a.raydium_lookup == b.raydium_lookup
    &&& a.meteora_lookup == b.meteora_lookup
    &&& a.network_state == b.network_state
    &&& a.chain_storage_4 == b.chain_storage_4
    &&& a.chain_storage_5 == b.chain_storage_5
    &&& a.chain_references == b.chain_references
    &&& a.processed_graph == b.processed_graph
    &&& a.finalized_graph == b.finalized_graph
}

impl GlobalData {
    fn find_processed(&self, dex: DexType, a: &Address) -> (r: Option<usize>)
        ensures
            r is Some <==> processed_lookup(self.processed_pool_states@, dex, *a) is Some,
            r is Some ==> r->Some_0 as int == processed_lookup(self.processed_pool_states@, dex, *a)->Some_0,
    {
        let ghost st = self.processed_pool_states@;
        let mut k: usize = 0;
        assert(st.subrange(0, 0) =~= Seq::<ProcessedPoolState>::empty());
        while k < self.processed_pool_states.len()
            invariant
                st == self.processed_pool_states@,
                k <= st.len(),
                processed_lookup(st.subrange(0, k as int), dex, *a) is None,
            decreases st.len() - k,
        {
            assert(st.subrange(0, k + 1).drop_last() =~= st.subrange(0, k as int));
            let b = self.processed_pool_states[k].base;
            if b.family() == dex && b.get_address().same(a) {
                proof {
                    lemma_processed_prefix(st, k + 1, dex, *a);
                }
                return Some(k);
            }
            k = k + 1;
        }
        assert(st.subrange(0, k as int) =~= st);
        None
    }

    fn find_finalized(&self, dex: DexType, a: &Address) -> (r: Option<usize>)
        ensures
            r is Some <==> finalized_lookup(self.finalized_pool_states@, dex, *a) is Some,
            r is Some ==> r->Some_0 as int == finalized_lookup(self.finalized_pool_states@, dex, *a)->Some_0,
    {
        let ghost st = self.finalized_pool_states@;
        let mut k: usize = 0;
        assert(st.subrange(0, 0) =~= Seq::<FinalizedPoolState>::empty());
        while k < self.finalized_pool_states.len()
            invariant
                st == self.finalized_pool_states@,
                k <= st.len(),
                finalized_lookup(st.subrange(0, k as int), dex, *a) is None,
            decreases st.len() - k,
        {
            assert(st.subrange(0, k + 1).drop_last() =~= st.subrange(0, k as int));
            let b = self.finalized_pool_states[k].base;
            if b.family() == dex && b.get_address().same(a) {
                proof {
                    lemma_finalized_prefix(st, k + 1, dex, *a);
                }
                return Some(k);
            }
            k = k + 1;
        }
        assert(st.subrange(0, k as int) =~= st);
        None
    }

    /// Applies a decoded account of pool `pool_address`, observed at `slot` and
    /// received at `now`, to the state of its commitment level.
    pub fn apply_pool_data(
        &mut self,
        slot: u64,
        pool_address: Address,
        data: &PoolData,
        commitment: PoolCommitment,
        now: u64,
    ) -> (r: IngestOutcome)
        ensures
            same_but_states(*final(self), *old(self)),
            commitment == PoolCommitment::Processed ==> {
                let (s, o) = processed_after(old(self).processed_pool_states@, pool_address, *data, slot, now);
                &&& final(self).processed_pool_states@ == s
                &&& r == o
                &&& final(self).finalized_pool_states == old(self).finalized_pool_states
            },
            commitment == PoolCommitment::Finalized ==> {
                let (s, o) = finalized_after(old(self).finalized_pool_states@, pool_address, *data, slot, now);
                &&& final(self).finalized_pool_states@ == s
                &&& r == o
                &&& final(self).processed_pool_states == old(self).processed_pool_states
            },
    {
        let dex = match data {
            PoolData::Whirlpool(_) => DexType::Orca,
            PoolData::Raydium(_) => DexType::Raydium,
            PoolData::Meteora(_) => DexType::Meteora,
        };
        match commitment {
            PoolCommitment::Processed => {
                proof {
                    lemma_processed_lookup(self.processed_pool_states@, dex, pool_address);
                }
                match self.find_processed(dex, &pool_address) {
                    None => {
                        let base = PoolStateBase::from_pool_data(pool_address, data);
                        self.processed_pool_states.push(
                            ProcessedPoolState { base, processed_slot: slot, last_update_time: now },
                        );
                        IngestOutcome::Created
                    },
                    Some(k) => {
                        let mut st = self.processed_pool_states[k];
                        let stale = slot < st.processed_slot;
                        let changed = st.update(data, slot, now);
                        self.processed_pool_states.set(k, st);
                        if stale {
                            assert(self.processed_pool_states@ =~= old(self).processed_pool_states@);
                            IngestOutcome::StaleSlot
                        } else if changed {
                            IngestOutcome::Changed
                        } else {
                            IngestOutcome::Unchanged
                        }
                    },
                }
            },
            PoolCommitment::Finalized => {
                proof {
                    lemma_finalized_lookup(self.finalized_pool_states@, dex, pool_address);
                }
                match self.find_finalized(dex, &pool_address) {
                    None => {
                        let base = PoolStateBase::from_pool_data(pool_address, data);
                        self.finalized_pool_states.push(
                            FinalizedPoolState { base, finalized_slot: slot, last_update_time: now },
                        );
                        IngestOutcome::Created
                    },
                    Some(k) => {
                        let mut st = self.finalized_pool_states[k];
                        let stale = slot < st.finalized_slot;
                        let changed = st.update(data, slot, now);
                        self.finalized_pool_states.set(k, st);
                        if stale {
                            assert(self.finalized_pool_states@ =~= old(self).finalized_pool_states@);
                            IngestOutcome::StaleSlot
                        } else if changed {
                            IngestOutcome::Changed
                        } else {
                            IngestOutcome::Unchanged
                        }
                    },
                }
            },
        }
    }
}

impl GlobalData {
    /// The stored state of pool `a` of family `dex` at a commitment level.
    pub fn pool_state(&self, dex: DexType, a: &Address, commitment: PoolCommitment) -> (r: Option<PoolStateBase>)
        ensures
            commitment == PoolCommitment::Processed ==> r == match processed_lookup(self.processed_pool_states@, dex, *a) {
                Some(k) => Some(self.processed_pool_states@[k].base),
                None => None::<PoolStateBase>,
            },
            commitment == PoolCommitment::Finalized ==> r == match finalized_lookup(self.finalized_pool_states@, dex, *a) {
                Some(k) => Some(self.finalized_pool_states@[k].base),
                None => None::<PoolStateBase>,
            },
    {
        match commitment {
            PoolCommitment::Processed => {
                proof {
                    lemma_processed_lookup(self.processed_pool_states@, dex, *a);
                }
                match self.find_processed(dex, a) {
                    Some(k) => Some(self.processed_pool_states[k].base),
                    None => None,
                }
            },
            PoolCommitment::Finalized => {
                proof {
                    lemma_finalized_lookup(self.finalized_pool_states@, dex, *a);
                }
                match self.find_finalized(dex, a) {
                    Some(k) => Some(self.finalized_pool_states[k].base),
                    None => None,
                }
            },
        }
    }

    /// Handles one account update from the stream of family `dex`: an unknown
    /// pool is dropped, the payload is decoded, and the account is applied to the
    /// state of its commitment level.
    pub fn process_account_data(
        &mut self,
        slot: u64,
        pool_address: Address,
        encoded_data: &str,
        encoding: &str,
        commitment: PoolCommitment,
        dex: DexType,
        now: u64,
    ) -> (r: IngestOutcome)
        requires
            old(self).registry_wf(),
        ensures
            !old(self).spec_pool_exists(dex, pool_address) ==> r == IngestOutcome::UnknownPool && *final(self) == *old(self),
            old(self).spec_pool_exists(dex, pool_address) && !supported_encoding(encoding@) ==> r == IngestOutcome::Decode(
                DecodeError::UnsupportedEncoding,
            ) && *final(self) == *old(self),
            old(self).spec_pool_exists(dex, pool_address) && supported_encoding(encoding@) ==> match spec_decode_base64_zstd(
                encoded_data@,
            ) {
                Err(e) => r == IngestOutcome::Decode(e) && *final(self) == *old(self),
                Ok(b) => match spec_parse_pool_data(b, dex) {
                    Err(e) => r == IngestOutcome::Decode(e) && *final(self) == *old(self),
                    Ok(data) => {
                        &&& same_but_states(*final(self), *old(self))
                        &&& commitment == PoolCommitment::Processed ==> {
                            let (s, o) = processed_after(old(self).processed_pool_states@, pool_address, data, slot, now);
                            &&& final(self).processed_pool_states@ == s
                            &&& r == o
                            &&& final(self).finalized_pool_states == old(self).finalized_pool_states
                        }
                        &&& commitment == PoolCommitment::Finalized ==> {
                            let (s, o) = finalized_after(old(self).finalized_pool_states@, pool_address, data, slot, now);
                            &&& final(self).finalized_pool_states@ == s
                            &&& r == o
                            &&& final(self).processed_pool_states == old(self).processed_pool_states
                        }
                    },
                },
            },
    {
        if !self.pool_exists(dex, &pool_address) {
            return IngestOutcome::UnknownPool;
        }
        match decode_pool(encoded_data, encoding, dex) {
            Err(e) => IngestOutcome::Decode(e),
            Ok(data) => self.apply_pool_data(slot, pool_address, &data, commitment, now),
        }
    }

    /// Writes the metrics derived from a pool's new state to its edge in both
    /// graphs, stamped with `slot` and `now`.
    pub fn apply_edge_metrics(&mut self, pool_address: &Address, metrics: &EdgeMetrics, slot: u64, now: u64)
        ensures
            forall|g: bool| {
                let before = #[trigger] graph_edges(old(self).graph_of(g));
                let after = graph_edges(final(self).graph_of(g));
                match edge_lookup(before, *pool_address) {
                    Some(k) => after == before.update(k, before[k].with_metrics(*metrics, slot, now)),
                    None => after == before,
                }
            },
            final(self).tokens == old(self).tokens,
            final(self).dex_pools == old(self).dex_pools,
            final(self).orca_lookup == old(self).orca_lookup,
            final(self).raydium_lookup == old(self).raydium_lookup,
            final(self).meteora_lookup == old(self).meteora_lookup,
            final(self).chain_storage_4 == old(self).chain_storage_4,
            final(self).chain_storage_5 == old(self).chain_storage_5,
            final(self).chain_references == old(self).chain_references,
            final(self).processed_pool_states == old(self).processed_pool_states,
            final(self).finalized_pool_states == old(self).finalized_pool_states,
            edges_registered(*old(self)) ==> edges_registered(*final(self)),
    {
        self.processed_graph.update_pool_metrics(pool_address, metrics, slot, now);
        self.finalized_graph.update_pool_metrics(pool_address, metrics, slot, now);
        assert forall|g: bool| {
            let before = #[trigger] graph_edges(old(self).graph_of(g));
            let after = graph_edges(self.graph_of(g));
            match edge_lookup(before, *pool_address) {
                Some(k) => after == before.update(k, before[k].with_metrics(*metrics, slot, now)),
                None => after == before,
            }
        } by {
            if g {
            } else {
            }
        }
        proof {
            lemma_edge_lookup(graph_edges(old(self).processed_graph), *pool_address);
            lemma_edge_lookup(graph_edges(old(self).finalized_graph), *pool_address);
            assert(graph_edges(self.processed_graph).len() == graph_edges(old(self).processed_graph).len());
            assert(graph_edges(self.finalized_graph).len() == graph_edges(old(self).finalized_graph).len());
            assert forall|k: int| 0 <= k < graph_edges(self.processed_graph).len() implies #[trigger] graph_edges(self.processed_graph)[k].dex
                == graph_edges(old(self).processed_graph)[k].dex && graph_edges(self.processed_graph)[k].pool_address == graph_edges(old(self).processed_graph)[k].pool_address by {}
            assert forall|k: int| 0 <= k < graph_edges(self.finalized_graph).len() implies #[trigger] graph_edges(self.finalized_graph)[k].dex
                == graph_edges(old(self).finalized_graph)[k].dex && graph_edges(self.finalized_graph)[k].pool_address == graph_edges(old(self).finalized_graph)[k].pool_address by {}
            if edges_registered(*old(self)) {
            assert forall|k: int| 0 <= k < graph_edges(self.processed_graph).len() implies self.spec_pool_exists(
                #[trigger] graph_edges(self.processed_graph)[k].dex,
                graph_edges(self.processed_graph)[k].pool_address,
            ) by {
                assert(old(self).spec_pool_exists(graph_edges(old(self).processed_graph)[k].dex, graph_edges(old(self).processed_graph)[k].pool_address));
            }
            assert forall|k: int| 0 <= k < graph_edges(self.finalized_graph).len() implies self.spec_pool_exists(
                #[trigger] graph_edges(self.finalized_graph)[k].dex,
                graph_edges(self.finalized_graph)[k].pool_address,
            ) by {
                assert(old(self).spec_pool_exists(graph_edges(old(self).finalized_graph)[k].dex, graph_edges(old(self).finalized_graph)[k].pool_address));
            }
            }
        }
    }

}

/// `r` is what recomputing the cycles of pool `a` in `data` at `now` gives:
/// every listed cycle against both graphs, in the order of the pool's entry
/// in the reverse index, and nothing when the pool has no entry.
pub open spec fn affected_ok(data: GlobalData, a: Address, now: u64, r: Seq<ChainUpdate>) -> bool {
    &&& forall|i: int|
        0 <= i < r.len() ==> {
            let u = #[trigger] r[i];
            let c = data.spec_chain(u.chain_index as int);
            &&& (u.chain_index as int) < data.spec_chain_count()
            &&& recalc_ok(data.dex_pools@, graph_edges(data.processed_graph), c, now, u.processed)
            &&& recalc_ok(data.dex_pools@, graph_edges(data.finalized_graph), c, now, u.finalized)
        }
    &&& ref_lookup(data.chain_references@, a) is None ==> r.len() == 0
    &&& ref_lookup(data.chain_references@, a) is Some ==> {
        let ids = data.chain_references@[ref_lookup(data.chain_references@, a)->Some_0].chains@;
        (forall|m: int| 0 <= m < ids.len() ==> (#[trigger] ids[m] as int) < data.spec_chain_count()) ==> r.map_values(
            |u: ChainUpdate| u.chain_index,
        ) == ids
    }
}

impl GlobalData {
    /// Carries out a reported change of `state`'s pool: stamps the pool's edge in
    /// both graphs with the priced metrics (prices, fee, liquidity and weight,
    /// computed by the caller from `state`) and the activity that `state`
    /// implies, then recomputes every cycle indexed under the pool, once.
    pub fn commit_pool_change(&mut self, state: &PoolStateBase, priced: &EdgeMetrics, slot: u64, now: u64) -> (r: Vec<
        ChainUpdate,
    >)
        ensures
            forall|g: bool| {
                let before = #[trigger] graph_edges(old(self).graph_of(g));
                let after = graph_edges(final(self).graph_of(g));
                let m = EdgeMetrics { is_active: spec_edge_active(*state), ..*priced };
                match edge_lookup(before, state.spec_address()) {
                    Some(k) => after == before.update(k, before[k].with_metrics(m, slot, now)),
                    None => after == before,
                }
            },
            final(self).tokens == old(self).tokens,
            final(self).dex_pools == old(self).dex_pools,
            final(self).orca_lookup == old(self).orca_lookup,
            final(self).raydium_lookup == old(self).raydium_lookup,
            final(self).meteora_lookup == old(self).meteora_lookup,
            final(self).chain_storage_4 == old(self).chain_storage_4,
            final(self).chain_storage_5 == old(self).chain_storage_5,
            final(self).chain_references == old(self).chain_references,
            final(self).processed_pool_states == old(self).processed_pool_states,
            final(self).finalized_pool_states == old(self).finalized_pool_states,
            edges_registered(*old(self)) ==> edges_registered(*final(self)),
            affected_ok(*final(self), state.spec_address(), now, r@),
    {
        let metrics = EdgeMetrics {
            price_bits: priced.price_bits,
            fee_rate_bits: priced.fee_rate_bits,
            liquidity_bits: priced.liquidity_bits,
            weight_bits: priced.weight_bits,
            is_active: edge_active(state),
        };
        let pool_address = state.get_address();
        self.apply_edge_metrics(&pool_address, &metrics, slot, now);
        RouterEngine::update_affected_chains(self, &pool_address, now)
    }
}

impl RouterEngine {
    /// Recomputes, against both graphs, every cycle indexed under the pool, in
    /// the order of the pool's entry in the reverse index.
    pub fn update_affected_chains(data: &GlobalData, pool_address: &Address, now: u64) -> (r: Vec<ChainUpdate>)
        ensures
            affected_ok(*data, *pool_address, now, r@),
    {
        let ids = data.chains_of_pool(pool_address);
        let total = data.chain_storage_4.len() as u128 + data.chain_storage_5.len() as u128;
        let mut out: Vec<ChainUpdate> = Vec::new();
        let mut i: usize = 0;
        while i < ids.len()
            invariant
                i <= ids@.len(),
                total == data.spec_chain_count(),
                forall|m: int|
                    0 <= m < out@.len() ==> {
                        let u = #[trigger] out@[m];
                        let c = data.spec_chain(u.chain_index as int);
                        &&& (u.chain_index as int) < data.spec_chain_count()
                        &&& recalc_ok(data.dex_pools@, graph_edges(data.processed_graph), c, now, u.processed)
                        &&& recalc_ok(data.dex_pools@, graph_edges(data.finalized_graph), c, now, u.finalized)
                    },
                (forall|m: int| 0 <= m < i ==> (#[trigger] ids@[m] as int) < data.spec_chain_count()) ==> out@.map_values(
                    |u: ChainUpdate| u.chain_index,
                ) == ids@.subrange(0, i as int),
            decreases ids@.len() - i,
        {
            let id = ids[i];
            if (id as u128) < total {
                let chain = crate::arbitrage::copy_chain(data.chain_by_id(id));
                let processed = RouterEngine::recalc_chain(data, &chain, false, now);
                let finalized = RouterEngine::recalc_chain(data, &chain, true, now);
                let ghost before = out@;
                out.push(ChainUpdate { chain_index: id, processed, finalized });
                assert(out@.map_values(|u: ChainUpdate| u.chain_index) =~= before.map_values(
                    |u: ChainUpdate| u.chain_index,
                ).push(id));
                assert(ids@.subrange(0, i + 1) =~= ids@.subrange(0, i as int).push(id));
            }
            i = i + 1;
        }
        proof {
            assert(ids@.subrange(0, i as int) =~= ids@);
        }
        out
    }
}

proof fn lemma_processed_prefix(states: Seq<ProcessedPoolState>, n: int, dex: DexType, a: Address)
    requires
        0 <= n <= states.len(),
        processed_lookup(states.subrange(0, n), dex, a) is Some,
    ensures
        processed_lookup(states, dex, a) == processed_lookup(states.subrange(0, n), dex, a),
    decreases states.len() - n,
{
    if n < states.len() {
        assert(states.drop_last().subrange(0, n) =~= states.subrange(0, n));
        lemma_processed_prefix(states.drop_last(), n, dex, a);
    } else {
        assert(states.subrange(0, n) =~= states);
    }
}

proof fn lemma_finalized_prefix(states: Seq<FinalizedPoolState>, n: int, dex: DexType, a: Address)
    requires
        0 <= n <= states.len(),
        finalized_lookup(states.subrange(0, n), dex, a) is Some,
    ensures
        finalized_lookup(states, dex, a) == finalized_lookup(states.subrange(0, n), dex, a),
    decreases states.len() - n,
{
    if n < states.len() {
        assert(states.drop_last().subrange(0, n) =~= states.subrange(0, n));
        lemma_finalized_prefix(states.drop_last(), n, dex, a);
    } else {
        assert(states.subrange(0, n) =~= states);
    }
}

} // verus!
