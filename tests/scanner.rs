use pool_arb::arbitrage::SIMULATION_AMOUNT;
use pool_arb::data::{GlobalData, MIN_TVL};
use pool_arb::decoder::{decode_pool, DecodeError, PoolData, WHIRLPOOL_SIZE};
use pool_arb::graph::{EdgeMetrics, PoolGraph};
use pool_arb::ingest::IngestOutcome;
use pool_arb::router::RouterEngine;
use pool_arb::types::{Address, DexType, PoolCommitment};

fn addr(n: u64) -> Address {
    Address { w0: n, w1: 0, w2: 0, w3: 0 }
}

fn s(x: &str) -> String {
    x.to_string()
}

fn store_with_tokens(symbols: &[&str]) -> GlobalData {
    let mut g = GlobalData::new(0);
    for (i, sym) in symbols.iter().enumerate() {
        g.add_token(s(sym), addr(1000 + i as u64));
    }
    g
}

fn symbols_of(g: &GlobalData, chain: &Vec<usize>) -> Vec<String> {
    chain.iter().map(|&t| g.tokens[t].symbol.clone()).collect()
}

/// Three tokens and one Orca pool per pair, chains built from SOL.
fn triangle() -> GlobalData {
    let mut g = store_with_tokens(&["SOL", "USDC", "USDT"]);
    assert!(g.add_pools(&s("SOL"), &s("USDC"), addr(1), 200_000, DexType::Orca));
    assert!(g.add_pools(&s("SOL"), &s("USDT"), addr(2), 200_000, DexType::Orca));
    assert!(g.add_pools(&s("USDC"), &s("USDT"), addr(3), 200_000, DexType::Orca));
    assert!(g.build_and_find_chains(&vec![s("SOL"), s("USDC"), s("USDT")], &s("SOL")));
    g
}

fn put(buf: &mut Vec<u8>, off: usize, bytes: &[u8]) {
    buf[off..off + bytes.len()].copy_from_slice(bytes);
}

fn put_addr(buf: &mut Vec<u8>, off: usize, a: Address) {
    put(buf, off, &a.w0.to_le_bytes());
    put(buf, off + 8, &a.w1.to_le_bytes());
    put(buf, off + 16, &a.w2.to_le_bytes());
    put(buf, off + 24, &a.w3.to_le_bytes());
}

fn whirlpool_bytes(sqrt_price: u128, liquidity: u128) -> Vec<u8> {
    let mut b = vec![0u8; WHIRLPOOL_SIZE];
    put_addr(&mut b, 0, addr(11));
    put_addr(&mut b, 32, addr(12));
    put_addr(&mut b, 64, addr(13));
    put_addr(&mut b, 96, addr(14));
    put(&mut b, 128, &64u16.to_le_bytes());
    put(&mut b, 130, &300u16.to_le_bytes());
    put(&mut b, 132, &1300u16.to_le_bytes());
    put(&mut b, 134, &liquidity.to_le_bytes());
    put(&mut b, 150, &sqrt_price.to_le_bytes());
    put(&mut b, 166, &(-42i32).to_le_bytes());
    put(&mut b, 170, &7u64.to_le_bytes());
    put(&mut b, 178, &8u128.to_le_bytes());
    put(&mut b, 194, &9u128.to_le_bytes());
    put(&mut b, 210, &10u64.to_le_bytes());
    put(&mut b, 218, &11u64.to_le_bytes());
    b
}

#[allow(deprecated)]
fn encode(bytes: &[u8]) -> String {
    let z = zstd::encode_all(bytes, 0).unwrap();
    base64::encode(z)
}

fn metrics(price: f64, weight: f64, active: bool) -> EdgeMetrics {
    EdgeMetrics {
        price_bits: price.to_bits(),
        fee_rate_bits: 0.0f64.to_bits(),
        liquidity_bits: 1e12f64.to_bits(),
        weight_bits: weight.to_bits(),
        is_active: active,
    }
}

fn swap(amount_in: f64, price: f64, fee_rate: f64, liquidity: f64) -> f64 {
    let net = amount_in - amount_in * fee_rate;
    let slippage = (net / liquidity).min(0.02);
    net * price * (1.0 - slippage)
}

#[test]
fn bootstrap_reject_low_tvl() {
    let mut g = store_with_tokens(&["SOL", "USDC"]);
    assert!(!g.add_pools(&s("SOL"), &s("USDC"), addr(1), 50_000, DexType::Orca));
    assert!(g.build_and_find_chains(&vec![s("SOL"), s("USDC")], &s("SOL")) == false);
    assert_eq!(g.processed_graph.edge_count(), 0);
    assert_eq!(g.finalized_graph.edge_count(), 0);
    assert_eq!(g.find_pool_address_by_symbols(DexType::Orca, &s("SOL"), &s("USDC")), None);
}

#[test]
fn tvl_threshold_and_unknown_symbols() {
    let mut g = store_with_tokens(&["SOL", "USDC"]);
    assert!(!g.add_pools(&s("SOL"), &s("USDC"), addr(1), MIN_TVL - 1, DexType::Orca));
    assert!(!g.add_pools(&s("SOL"), &s("BONK"), addr(2), MIN_TVL, DexType::Orca));
    assert!(g.add_pools(&s("SOL"), &s("USDC"), addr(3), MIN_TVL, DexType::Raydium));
    assert_eq!(g.find_pool_address_by_symbols(DexType::Raydium, &s("USDC"), &s("SOL")), Some(addr(3)));
    assert_eq!(g.find_pool_address_by_addresses(DexType::Raydium, &addr(1000), &addr(1001)), Some(addr(3)));
    assert_eq!(g.find_pool_address_by_symbols(DexType::Orca, &s("USDC"), &s("SOL")), None);
}

#[test]
fn accepted_pool_exists() {
    let mut g = store_with_tokens(&["SOL", "USDC"]);
    assert!(!g.pool_exists(DexType::Meteora, &addr(9)));
    assert!(g.add_pools(&s("SOL"), &s("USDC"), addr(9), 150_000, DexType::Meteora));
    assert!(g.pool_exists(DexType::Meteora, &addr(9)));
    assert!(!g.pool_exists(DexType::Orca, &addr(9)));
}

#[test]
fn first_pool_of_a_pair_is_found() {
    let mut g = store_with_tokens(&["SOL", "USDC"]);
    assert!(g.add_pools(&s("USDC"), &s("SOL"), addr(5), 150_000, DexType::Orca));
    assert!(g.add_pools(&s("SOL"), &s("USDC"), addr(6), 150_000, DexType::Orca));
    assert_eq!(g.find_pool_address_by_symbols(DexType::Orca, &s("SOL"), &s("USDC")), Some(addr(5)));
}

#[test]
fn token_pairs_are_ordered_by_symbol() {
    let mut g = store_with_tokens(&["USDC", "SOL"]);
    g.add_token_pair(&s("USDC"), &s("SOL"));
    g.add_token_pair(&s("SOL"), &s("USDC"));
    assert_eq!(g.token_pairs.len(), 1);
    assert_eq!(g.tokens[g.token_pairs[0].token_a].symbol, "SOL");
    assert_eq!(g.tokens[g.token_pairs[0].token_b].symbol, "USDC");
    g.add_token_pair(&s("SOL"), &s("JUP"));
    assert_eq!(g.token_pairs.len(), 1);
}

#[test]
fn add_token_is_idempotent() {
    let mut g = store_with_tokens(&["SOL"]);
    g.add_token(s("SOL"), addr(77));
    assert_eq!(g.tokens.len(), 1);
    assert_eq!(g.tokens[0].address, addr(77));
    assert_eq!(g.find_token(&s("SOL")), Some(0));
    assert_eq!(g.find_token(&s("ETH")), None);
}

#[test]
fn cycle_enumeration() {
    let g = triangle();
    let mut got: Vec<Vec<String>> = g.chain_storage_4.iter().map(|c| symbols_of(&g, c)).collect();
    got.sort();
    assert_eq!(
        got,
        vec![
            vec![s("SOL"), s("USDC"), s("USDT"), s("SOL")],
            vec![s("SOL"), s("USDT"), s("USDC"), s("SOL")],
        ]
    );
    assert_eq!(g.chain_storage_5.len(), 0);
}

#[test]
fn cycles_start_and_end_at_pivot() {
    let mut g = store_with_tokens(&["SOL", "USDC", "USDT", "JUP"]);
    let pairs = [("SOL", "USDC"), ("SOL", "USDT"), ("USDC", "USDT"), ("USDC", "JUP"), ("JUP", "SOL"), ("USDT", "JUP")];
    for (i, (a, b)) in pairs.iter().enumerate() {
        assert!(g.add_pools(&s(a), &s(b), addr(i as u64 + 1), 500_000, DexType::Orca));
    }
    assert!(g.build_and_find_chains(&vec![s("SOL"), s("USDC"), s("USDT"), s("JUP")], &s("SOL")));
    assert!(g.chain_storage_4.len() > 0);
    assert!(g.chain_storage_5.len() > 0);
    for c in g.chain_storage_4.iter().chain(g.chain_storage_5.iter()) {
        let syms = symbols_of(&g, c);
        assert_eq!(syms[0], "SOL");
        assert_eq!(syms[syms.len() - 1], "SOL");
        assert!(syms.len() >= 3 && syms.len() <= 5);
        for w in c.windows(2) {
            assert!(w[0] != w[1]);
            assert!(g.pair_listed_exec(w[0], w[1]));
        }
    }
    let mut seen = c_sorted(&g);
    let n = seen.len();
    seen.dedup();
    assert_eq!(seen.len(), n);
}

fn c_sorted(g: &GlobalData) -> Vec<Vec<usize>> {
    let mut v: Vec<Vec<usize>> = g.chain_storage_4.iter().chain(g.chain_storage_5.iter()).cloned().collect();
    v.sort();
    v
}

#[test]
fn edges_belong_to_registered_pools() {
    let g = triangle();
    assert_eq!(g.processed_graph.edge_count(), 3);
    assert_eq!(g.finalized_graph.edge_count(), 3);
    assert!(g.validate_graphs());
    for graph in [&g.processed_graph, &g.finalized_graph] {
        for k in 0..graph.edge_count() {
            let e = graph.edge_at(k);
            assert!(g.pool_exists(e.dex, &e.pool_address));
            assert!(e.is_active);
        }
    }
    for c in g.chain_storage_4.iter() {
        for w in c.windows(2) {
            for d in [DexType::Orca, DexType::Raydium, DexType::Meteora] {
                if let Some(a) = g.find_pool_by_ids(d, w[0], w[1]) {
                    assert!(g.processed_graph.find_edge(&a).is_some());
                    assert!(g.finalized_graph.find_edge(&a).is_some());
                }
            }
        }
    }
}

#[test]
fn reverse_index_resolves() {
    let g = triangle();
    for r in g.chain_references.iter() {
        for &id in r.chains.iter() {
            let c = g.chain_by_id(id);
            let uses = c.windows(2).any(|w| {
                [DexType::Orca, DexType::Raydium, DexType::Meteora]
                    .iter()
                    .any(|&d| g.find_pool_by_ids(d, w[0], w[1]) == Some(r.pool_address))
            });
            assert!(uses);
        }
    }
}

#[test]
fn pivot_without_pools_builds_nothing() {
    let mut g = store_with_tokens(&["SOL", "USDC", "USDT"]);
    assert!(g.add_pools(&s("USDC"), &s("USDT"), addr(3), 200_000, DexType::Orca));
    assert!(!g.build_and_find_chains(&vec![s("SOL"), s("USDC"), s("USDT")], &s("SOL")));
    assert_eq!(g.chain_storage_4.len(), 0);
    let v = g.validate_tokens_across_dex(&vec![s("SOL"), s("USDC"), s("USDT")]);
    assert_eq!(v, vec![1, 2]);
}

#[test]
fn update_propagation() {
    let mut g = triangle();
    let p = g.find_pool_address_by_symbols(DexType::Orca, &s("SOL"), &s("USDC")).unwrap();
    assert_eq!(g.chains_of_pool(&p).len(), 2);
    let first = encode(&whirlpool_bytes(1u128 << 64, 5_000_000));
    let o = g.process_account_data(10, p, &first, "base64+zstd", PoolCommitment::Processed, DexType::Orca, 1);
    assert_eq!(o, IngestOutcome::Created);
    let second = encode(&whirlpool_bytes(2u128 << 64, 5_000_000));
    let o = g.process_account_data(11, p, &second, "base64+zstd", PoolCommitment::Processed, DexType::Orca, 2);
    assert_eq!(o, IngestOutcome::Changed);
    g.apply_edge_metrics(&p, &metrics(4.0, 3.0, true), 11, 2);
    for graph in [&g.processed_graph, &g.finalized_graph] {
        let k = graph.find_edge(&p).unwrap();
        assert_eq!(f64::from_bits(graph.edge_at(k).price_bits), 4.0);
        assert_eq!(graph.edge_at(k).last_update_slot, 11);
    }
    let updates = RouterEngine::update_affected_chains(&g, &p, 3);
    assert_eq!(updates.len(), 2);
    let mut ids: Vec<usize> = updates.iter().map(|u| u.chain_index).collect();
    ids.sort();
    assert_eq!(ids, vec![0, 1]);
}

#[test]
fn replay_is_unchanged() {
    let mut g = triangle();
    let p = addr(1);
    let data = encode(&whirlpool_bytes(3u128 << 64, 9));
    assert_eq!(g.process_account_data(5, p, &data, "base64+zstd", PoolCommitment::Finalized, DexType::Orca, 1), IngestOutcome::Created);
    let changed = encode(&whirlpool_bytes(4u128 << 64, 9));
    assert_eq!(g.process_account_data(6, p, &changed, "base64+zstd", PoolCommitment::Finalized, DexType::Orca, 1), IngestOutcome::Changed);
    let before = g.finalized_pool_states[0];
    assert_eq!(g.process_account_data(7, p, &changed, "base64+zstd", PoolCommitment::Finalized, DexType::Orca, 2), IngestOutcome::Unchanged);
    assert_eq!(g.finalized_pool_states[0], before);
}

#[test]
fn stale_slot() {
    let mut g = triangle();
    let p = addr(1);
    let a = encode(&whirlpool_bytes(3u128 << 64, 9));
    let b = encode(&whirlpool_bytes(5u128 << 64, 9));
    assert_eq!(g.process_account_data(100, p, &a, "base64+zstd", PoolCommitment::Processed, DexType::Orca, 1), IngestOutcome::Created);
    assert_eq!(g.process_account_data(99, p, &b, "base64+zstd", PoolCommitment::Processed, DexType::Orca, 2), IngestOutcome::StaleSlot);
    assert_eq!(g.processed_pool_states[0].processed_slot, 100);
}

#[test]
fn unknown_pool_and_decode_errors() {
    let mut g = triangle();
    let data = encode(&whirlpool_bytes(1, 1));
    assert_eq!(g.process_account_data(1, addr(99), &data, "base64+zstd", PoolCommitment::Processed, DexType::Orca, 1), IngestOutcome::UnknownPool);
    assert_eq!(g.process_account_data(1, addr(1), &data, "base64", PoolCommitment::Processed, DexType::Orca, 1), IngestOutcome::Decode(DecodeError::UnsupportedEncoding));
    assert_eq!(g.process_account_data(1, addr(1), "@@not base64@@", "base64+zstd", PoolCommitment::Processed, DexType::Orca, 1), IngestOutcome::Decode(DecodeError::CodecError));
    let short = encode(&[1u8, 2, 3]);
    assert_eq!(g.process_account_data(1, addr(1), &short, "base64+zstd", PoolCommitment::Processed, DexType::Orca, 1), IngestOutcome::Decode(DecodeError::InsufficientBytes));
    assert_eq!(g.processed_pool_states.len(), 0);
}

#[test]
fn decoder_reads_layout_through_codecs() {
    let data = encode(&whirlpool_bytes(12345, 678));
    match decode_pool(&data, "base64+zstd", DexType::Orca) {
        Ok(PoolData::Whirlpool(w)) => {
            assert_eq!(w.sqrt_price, 12345);
            assert_eq!(w.liquidity, 678);
            assert_eq!(w.tick_current_index, -42);
            assert_eq!(w.fee_rate, 300);
            assert_eq!(w.token_mint_a, addr(11));
            assert_eq!(w.protocol_fee_owed_b, 11);
        }
        other => panic!("unexpected {:?}", other),
    }
    assert!(matches!(decode_pool(&data, "base64+zstd", DexType::Raydium), Err(DecodeError::InsufficientBytes)));
}

#[test]
fn router_picks_active_heaviest() {
    let mut g = store_with_tokens(&["SOL", "USDC", "USDT"]);
    for (i, d) in [DexType::Orca, DexType::Raydium, DexType::Meteora].iter().enumerate() {
        assert!(g.add_pools(&s("SOL"), &s("USDC"), addr(10 + i as u64), 200_000, *d));
    }
    assert!(g.add_pools(&s("SOL"), &s("USDT"), addr(20), 200_000, DexType::Orca));
    assert!(g.add_pools(&s("USDC"), &s("USDT"), addr(21), 200_000, DexType::Orca));
    assert!(g.build_and_find_chains(&vec![s("SOL"), s("USDC"), s("USDT")], &s("SOL")));
    g.apply_edge_metrics(&addr(10), &metrics(1.0, 5.0, true), 1, 1);
    g.apply_edge_metrics(&addr(11), &metrics(1.0, 9.0, false), 1, 1);
    g.apply_edge_metrics(&addr(12), &metrics(1.0, 7.0, true), 1, 1);
    g.apply_edge_metrics(&addr(20), &metrics(1.0, 1.0, true), 1, 1);
    g.apply_edge_metrics(&addr(21), &metrics(1.0, 1.0, true), 1, 1);
    let chain = g.chain_storage_4[0].clone();
    let r = RouterEngine::recalc_chain(&g, &chain, false, 5).unwrap();
    assert_eq!(r.last_update, 5);
    let hop = r.hops.iter().find(|h| h.pools.len() == 3).unwrap();
    assert_eq!(hop.best_pool.unwrap().pool_address, addr(12));
    g.apply_edge_metrics(&addr(20), &metrics(1.0, 1.0, false), 2, 2);
    assert!(RouterEngine::recalc_chain(&g, &chain, false, 6).is_none());
    assert!(RouterEngine::recalc_chain(&g, &chain, true, 6).is_none());
}

fn priced_cycle(closing: &[(u64, f64, DexType)]) -> (GlobalData, Vec<usize>) {
    let mut g = store_with_tokens(&["SOL", "USDC", "USDT"]);
    assert!(g.add_pools(&s("SOL"), &s("USDC"), addr(1), 200_000, DexType::Orca));
    assert!(g.add_pools(&s("USDC"), &s("USDT"), addr(2), 200_000, DexType::Orca));
    for (a, _, d) in closing {
        assert!(g.add_pools(&s("USDT"), &s("SOL"), addr(*a), 200_000, *d));
    }
    assert!(g.build_and_find_chains(&vec![s("SOL"), s("USDC"), s("USDT")], &s("SOL")));
    g.apply_edge_metrics(&addr(1), &metrics(1000.0, 1.0, true), 1, 1);
    g.apply_edge_metrics(&addr(2), &metrics(1.0, 1.0, true), 1, 1);
    for (a, price, _) in closing {
        g.apply_edge_metrics(&addr(*a), &metrics(*price, 1.0, true), 1, 1);
    }
    let sol = g.find_token(&s("SOL")).unwrap();
    let usdc = g.find_token(&s("USDC")).unwrap();
    let usdt = g.find_token(&s("USDT")).unwrap();
    (g, vec![sol, usdc, usdt, sol])
}

fn round_trip(g: &GlobalData, chain: &Vec<usize>, amount: f64) -> f64 {
    let pools = g.select_swap_pools(chain).unwrap();
    let mut x = amount;
    for p in pools.iter() {
        x = swap(x, f64::from_bits(p.price_bits), f64::from_bits(p.fee_rate_bits), f64::from_bits(p.liquidity_bits));
    }
    x
}

#[test]
fn arbitrage_positive_profit() {
    let (g, chain) = priced_cycle(&[(3, 0.001001, DexType::Orca)]);
    let amount = SIMULATION_AMOUNT as f64;
    let mut x = amount;
    for p in g.select_swap_pools(&chain).unwrap().iter() {
        x = swap(x, f64::from_bits(p.price_bits), 0.0, f64::INFINITY);
    }
    assert!((x - 1.001e9).abs() < 1.0);
    assert!(x - amount > 0.0);
    assert!((x - amount - 1e6).abs() < 1.0);
}

#[test]
fn last_hop_min_rule() {
    let (g, chain) = priced_cycle(&[(3, 0.0011, DexType::Orca), (4, 0.001, DexType::Raydium)]);
    let pools = g.select_swap_pools(&chain).unwrap();
    assert_eq!(pools.len(), 3);
    assert_eq!(pools[2].pool_address, addr(4));
    assert_eq!(f64::from_bits(pools[2].price_bits), 0.001);
    assert_eq!(pools[0].pool_address, addr(1));
}

#[test]
fn unit_price_round_trip_breaks_even() {
    let (mut g, chain) = priced_cycle(&[(3, 1.0, DexType::Orca)]);
    g.apply_edge_metrics(&addr(1), &metrics(1.0, 1.0, true), 2, 2);
    let amount = SIMULATION_AMOUNT as f64;
    let mut x = amount;
    for p in g.select_swap_pools(&chain).unwrap().iter() {
        x = swap(x, f64::from_bits(p.price_bits), 0.0, f64::INFINITY);
    }
    assert!((x - amount).abs() < 1e-6);
    let _ = round_trip(&g, &chain, amount);
}

#[test]
fn monitor_lists_plannable_cycles() {
    let (g, _) = priced_cycle(&[(3, 0.001, DexType::Orca)]);
    let plans = g.monitor_arbitrage_opportunities();
    assert_eq!(plans.len(), 2);
    assert!(plans[0].chain_index < plans[1].chain_index);
    let empty = GlobalData::new(0);
    assert_eq!(empty.monitor_arbitrage_opportunities().len(), 0);
}

#[test]
fn graph_keeps_one_edge_per_pool() {
    let mut graph = PoolGraph::new();
    assert_eq!(graph.add_node(0), 0);
    assert_eq!(graph.add_node(1), 1);
    assert_eq!(graph.node_count(), 2);
    assert!(graph.add_edge(pool_arb::graph::PoolEdge::new(addr(1), DexType::Orca, 0, 1)));
    assert!(!graph.add_edge(pool_arb::graph::PoolEdge::new(addr(1), DexType::Orca, 1, 0)));
    assert!(!graph.update_pool_metrics(&addr(2), &metrics(1.0, 1.0, true), 1, 1));
    assert_eq!(graph.edge_count(), 1);
    assert!(graph.update_pool_metrics(&addr(1), &metrics(2.0, 1.0, false), 3, 4));
    assert_eq!(graph.edge_at(0).last_update_slot, 3);
    assert!(!graph.edge_at(0).is_active);
}

#[test]
fn change_stamps_both_graphs_and_recomputes_cycles() {
    let mut g = triangle();
    let p = addr(1);
    let data = encode(&whirlpool_bytes(1u128 << 64, 5_000_000));
    assert_eq!(g.process_account_data(3, p, &data, "base64+zstd", PoolCommitment::Finalized, DexType::Orca, 1), IngestOutcome::Created);
    let state = g.pool_state(DexType::Orca, &p, PoolCommitment::Finalized).unwrap();
    let priced = metrics(2.5, 2.0, false);
    let updates = g.commit_pool_change(&state, &priced, 3, 9);
    assert_eq!(updates.len(), 2);
    for graph in [&g.processed_graph, &g.finalized_graph] {
        let e = graph.edge_at(graph.find_edge(&p).unwrap());
        assert!(e.is_active);
        assert_eq!(f64::from_bits(e.price_bits), 2.5);
        assert_eq!(e.last_update_slot, 3);
        assert_eq!(e.last_update_time, 9);
    }
    assert_eq!(RouterEngine::update_affected_chains(&g, &addr(99), 1).len(), 0);
}

#[test]
fn reverse_index_lists_every_cycle_once() {
    let g = triangle();
    for p in [addr(1), addr(2), addr(3)] {
        assert_eq!(g.chains_of_pool(&p), vec![0, 1]);
    }
}

#[test]
fn lookup_in_either_order() {
    let g = triangle();
    for d in [DexType::Orca, DexType::Raydium, DexType::Meteora] {
        for (a, b) in [("SOL", "USDC"), ("USDT", "SOL"), ("USDC", "USDT")] {
            assert_eq!(
                g.find_pool_address_by_symbols(d, &s(a), &s(b)),
                g.find_pool_address_by_symbols(d, &s(b), &s(a))
            );
        }
    }
}

#[test]
fn built_graphs_are_fresh_and_alike() {
    let g = triangle();
    assert_eq!(g.processed_graph.edge_count(), g.finalized_graph.edge_count());
    for k in 0..g.processed_graph.edge_count() {
        let e = g.processed_graph.edge_at(k);
        assert_eq!(e, g.finalized_graph.edge_at(k));
        assert!(e.is_active);
        assert_eq!((e.price_bits, e.weight_bits, e.last_update_slot), (0, 0, 0));
    }
}
