use pool_arb::chains::{deduplicate, find_chains, same_chain, ValidPairs};
use pool_arb::config::{get_config, Params};
use pool_arb::data::{symbol_less, GlobalData};
use pool_arb::decoder::{
    address_from_bytes, parse_address,
    is_base64_zstd, parse_meteora_data, parse_raydium_data, parse_whirlpool_data, DecodeError, MeteoraData, PoolData,
    RaydiumData, METEORA_SIZE, RAYDIUM_SIZE,
};
use pool_arb::graph::order_key_of;
use pool_arb::lookup::PoolLookupTable;
use pool_arb::pool_state::{PoolStateBase, ProcessedPoolState, RaydiumPoolStateBase};
use pool_arb::router::{select_best, ExtendedPoolInfo};
use pool_arb::arbitrage::select_by_price;
use pool_arb::types::{Address, SlotInfo};
use pool_arb::ws::{is_subscription_success, WebSocketResponse};

fn addr(n: u64) -> Address {
    Address { w0: n, w1: 0, w2: 0, w3: 0 }
}

fn info(weight: f64, price: f64, active: bool, liquidity: f64) -> ExtendedPoolInfo {
    ExtendedPoolInfo {
        pool_address: addr(weight as u64),
        price_bits: price.to_bits(),
        fee_rate_bits: 0,
        liquidity_bits: liquidity.to_bits(),
        weight_bits: weight.to_bits(),
        is_active: active,
        last_update_slot: 0,
        last_update_time: 0,
    }
}

fn raydium(status: u64, min_price: u64) -> RaydiumData {
    let mut b = vec![0u8; RAYDIUM_SIZE];
    b[0..8].copy_from_slice(&status.to_le_bytes());
    b[8..16].copy_from_slice(&1u64.to_le_bytes());
    b[80..88].copy_from_slice(&5u64.to_le_bytes());
    b[112..120].copy_from_slice(&6u64.to_le_bytes());
    b[272..280].copy_from_slice(&min_price.to_le_bytes());
    b[280..288].copy_from_slice(&(min_price + 10).to_le_bytes());
    b[360..368].copy_from_slice(&1u64.to_le_bytes());
    parse_raydium_data(&b).unwrap()
}

#[test]
fn order_key_follows_float_order() {
    let vals = [f64::NEG_INFINITY, -2.5, -0.0, 0.0, 1e-300, 1.0, 1000.0, f64::INFINITY];
    for w in vals.windows(2) {
        assert!(order_key_of(w[0].to_bits()) <= order_key_of(w[1].to_bits()));
    }
    assert!(order_key_of((-1.0f64).to_bits()) < order_key_of(1.0f64.to_bits()));
    assert_eq!(order_key_of(f64::NAN.to_bits()), 0);
    assert!(order_key_of(f64::NAN.to_bits()) < order_key_of(f64::NEG_INFINITY.to_bits()));
    assert_eq!(order_key_of(0.0f64.to_bits()), 0x8000_0000_0000_0000);
}

#[test]
fn select_best_ignores_inactive_and_empty() {
    let pools = vec![info(3.0, 1.0, true, 10.0), info(9.0, 1.0, false, 10.0), info(5.0, 1.0, true, 0.0), info(4.0, 1.0, true, 10.0)];
    assert_eq!(select_best(&pools), Some(3));
    let ties = vec![info(4.0, 1.0, true, 1.0), info(4.0, 2.0, true, 1.0)];
    assert_eq!(select_best(&ties), Some(0));
    let nan = vec![info(f64::NAN, 1.0, true, 1.0), info(-1.0, 1.0, true, 1.0)];
    assert_eq!(select_best(&nan), Some(1));
    assert_eq!(select_best(&vec![info(1.0, 1.0, false, 1.0)]), None);
    assert_eq!(select_best(&vec![]), None);
}

#[test]
fn select_by_price_directions() {
    let pools = vec![info(1.0, 2.0, true, 1.0), info(1.0, 5.0, false, 1.0), info(1.0, 5.0, true, 1.0), info(1.0, 1.0, true, 1.0)];
    assert_eq!(select_by_price(&pools, true), Some(2));
    assert_eq!(select_by_price(&pools, false), Some(3));
    let ties = vec![info(1.0, 1.0, true, 1.0), info(1.0, 1.0, true, 1.0)];
    assert_eq!(select_by_price(&ties, false), Some(0));
    assert_eq!(select_by_price(&vec![], true), None);
}

#[test]
fn symbols_sort_bytewise() {
    assert!(symbol_less(&"SOL".to_string(), &"USDC".to_string()));
    assert!(!symbol_less(&"USDC".to_string(), &"SOL".to_string()));
    assert!(symbol_less(&"USD".to_string(), &"USDC".to_string()));
    assert!(!symbol_less(&"SOL".to_string(), &"SOL".to_string()));
    assert!(symbol_less(&"JUP".to_string(), &"jup".to_string()));
}

#[test]
fn encoding_tag() {
    assert!(is_base64_zstd("base64+zstd"));
    assert!(!is_base64_zstd("base64"));
    assert!(!is_base64_zstd("base64+zstd "));
}

#[test]
fn layouts_need_their_size() {
    assert_eq!(parse_whirlpool_data(&[0u8; 225]), Err(DecodeError::InsufficientBytes));
    assert_eq!(parse_raydium_data(&vec![0u8; RAYDIUM_SIZE - 1]), Err(DecodeError::InsufficientBytes));
    let mut b = vec![0u8; METEORA_SIZE + 3];
    b[362] = 2;
    b[363..379].copy_from_slice(&77u128.to_le_bytes());
    b[379..387].copy_from_slice(&150u64.to_le_bytes());
    b[387..395].copy_from_slice(&(-5i64).to_le_bytes());
    let m: MeteoraData = parse_meteora_data(&b).unwrap();
    assert_eq!(m.dynamic_liquidity_mode, 2);
    assert_eq!(m.liquidity_cap, 77);
    assert_eq!(m.liquidity_multiplier, 150);
    assert_eq!(m.last_update_timestamp, -5);
}

#[test]
fn raydium_status_zero_when_not_live() {
    let live = raydium(6, 100);
    let mut st = RaydiumPoolStateBase::from_raydium(addr(1), &live);
    assert!(!st.update(&live));
    let mut closed = live;
    closed.open_time = 0;
    assert!(st.update(&closed));
    assert_eq!(st.status, 0);
    let moved = raydium(6, 200);
    assert!(st.update(&moved));
    assert_eq!(st.status, 6);
    assert_eq!(st.min_price, 200);
    assert_eq!(st.max_price, 210);
}

#[test]
fn mismatched_family_is_ignored() {
    let data = raydium(6, 100);
    let mut base = PoolStateBase::from_pool_data(addr(1), &PoolData::Raydium(data));
    assert_eq!(base.get_address(), addr(1));
    let w = parse_whirlpool_data(&[0u8; 226]).unwrap();
    let before = base;
    assert!(!base.update(&PoolData::Whirlpool(w)));
    assert_eq!(base, before);
}

#[test]
fn processed_state_stamps_changes() {
    let data = raydium(6, 100);
    let mut st = ProcessedPoolState { base: PoolStateBase::from_pool_data(addr(1), &PoolData::Raydium(data)), processed_slot: 5, last_update_time: 1 };
    assert!(!st.update(&PoolData::Raydium(data), 6, 2));
    assert_eq!(st.processed_slot, 5);
    assert!(st.update(&PoolData::Raydium(raydium(6, 300)), 7, 3));
    assert_eq!(st.processed_slot, 7);
    assert_eq!(st.last_update_time, 3);
    assert!(!st.update(&PoolData::Raydium(raydium(6, 400)), 4, 4));
    assert_eq!(st.processed_slot, 7);
}

#[test]
fn lookup_table_insert_and_remove() {
    let mut t = PoolLookupTable::new();
    t.insert_pool(addr(1));
    t.insert_pool(addr(2));
    assert!(t.exists_pool(&addr(1)));
    t.remove_pool(&addr(1));
    assert!(!t.exists_pool(&addr(1)));
    assert!(t.exists_pool(&addr(2)));
    t.remove_pool(&addr(9));
    t.insert_pool(addr(1));
    assert!(t.exists_pool(&addr(1)));
}

#[test]
fn network_state_reports_gaps() {
    let mut g = GlobalData::new(100);
    let r = g.update_network_state(SlotInfo { slot: 10, parent: 9, root: 2 }, 103);
    assert_eq!(r.delay_secs, 3);
    assert_eq!(r.slots_missed, 9);
    let r = g.update_network_state(SlotInfo { slot: 11, parent: 10, root: 3 }, 103);
    assert_eq!(r.slots_missed, 0);
    assert_eq!(r.delay_secs, 0);
    assert_eq!(g.network_state.current_slot, 11);
    assert_eq!(g.network_state.root_slot, 3);
    assert!(g.validate_slot_consistency(1));
}

#[test]
fn config_needs_every_variable() {
    let names = [
        "LOCAL_API_HOST", "SOLANA_RPC_URL", "WALLET_PRIVATE_KEY", "JUPITER_PROGRAM_ID", "HELIUS_API_KEY",
        "HELIUS_RPC_URL", "HELIUS_ENCHANCED_RPC_URL", "HELIUS_WEBSOCKET_URL", "HELIUS_YELLOWSTONE_ENDPOINT",
        "HELIUS_YELLOWSTONE_AUTH_TOKEN", "DEST_IP_PORTS", "JITO_UDP_PORT",
    ];
    let mut vars: Vec<(String, String)> = names.iter().map(|n| (n.to_string(), format!("v-{}", n))).collect();
    let c = get_config(&vars).unwrap();
    assert_eq!(c.local_api_host, "v-LOCAL_API_HOST");
    assert_eq!(c.jito_udp_port, "v-JITO_UDP_PORT");
    vars.retain(|(n, _)| n != "HELIUS_RPC_URL");
    assert_eq!(get_config(&vars).unwrap_err(), "HELIUS_RPC_URL");
}

#[test]
fn params_default() {
    let p = Params::default();
    assert_eq!(p.slippage_bps, 50);
    assert_eq!(p.amount_in, 100_000_000_000);
    assert_eq!(p.amount_out, 1_000_000);
}

#[test]
fn subscription_replies() {
    let ok: WebSocketResponse<u8> = WebSocketResponse { method: None, params: None, result: Some(7), id: Some(1) };
    assert!(is_subscription_success(&ok));
    let note: WebSocketResponse<u8> = WebSocketResponse { method: Some("accountNotification".to_string()), params: Some(1), result: Some(7), id: Some(1) };
    assert!(!is_subscription_success(&note));
    let no_id: WebSocketResponse<u8> = WebSocketResponse { method: None, params: None, result: Some(7), id: None };
    assert!(!is_subscription_success(&no_id));
}

#[test]
fn enumeration_over_a_square() {
    let mut pairs = ValidPairs::new(4);
    pairs.add_pair(0, 1);
    pairs.add_pair(1, 2);
    pairs.add_pair(2, 3);
    pairs.add_pair(3, 0);
    assert!(pairs.is_valid_pair(1, 0));
    assert!(!pairs.is_valid_pair(0, 2));
    assert_eq!(find_chains(&pairs, 0, 4).len(), 0);
    let five = find_chains(&pairs, 0, 5);
    assert_eq!(five, vec![vec![0, 1, 2, 3, 0], vec![0, 3, 2, 1, 0]]);
    assert_eq!(find_chains(&pairs, 0, 3).len(), 0);
}

#[test]
fn dedup_keeps_first_occurrences() {
    let mut v = vec![vec![1, 2], vec![3], vec![1, 2], vec![3], vec![4]];
    deduplicate(&mut v);
    assert_eq!(v, vec![vec![1, 2], vec![3], vec![4]]);
    assert!(same_chain(&vec![1, 2], &vec![1, 2]));
    assert!(!same_chain(&vec![1, 2], &vec![1]));
}

#[test]
fn addresses_from_base58_text() {
    assert_eq!(parse_address("11111111111111111111111111111111"), Some(addr(0)));
    let sol = parse_address("So11111111111111111111111111111111111111112").unwrap();
    assert_eq!(sol.w0, u64::from_le_bytes([0x06, 0x9b, 0x88, 0x57, 0xfe, 0xab, 0x81, 0x84]));
    assert_eq!(sol.w3, u64::from_le_bytes([0x98, 0xa0, 0xf0, 0x00, 0x00, 0x00, 0x00, 0x01]));
    assert!(!sol.is_zero());
    assert_eq!(parse_address("0OIl"), None);
    assert_eq!(parse_address("2"), None);
    assert_eq!(address_from_bytes(&[7u8; 31]), None);
    assert_eq!(address_from_bytes(&[0u8; 32]), Some(Address::zero()));
}

#[test]
fn replaying_a_closed_pool_is_unchanged() {
    let live = raydium(6, 100);
    let mut closed = live;
    closed.open_time = 0;
    let mut st = RaydiumPoolStateBase::from_raydium(addr(1), &closed);
    assert_eq!(st.status, 0);
    assert!(!st.update(&closed));
    assert!(st.update(&live));
    assert!(st.update(&closed));
    assert!(!st.update(&closed));
    assert_eq!(st.status, 0);
}

#[test]
fn replaying_an_uncapped_dynamic_pool_is_unchanged() {
    let mut b = vec![0u8; METEORA_SIZE];
    b[32..40].copy_from_slice(&1u64.to_le_bytes());
    b[128..136].copy_from_slice(&2u64.to_le_bytes());
    b[160..168].copy_from_slice(&3u64.to_le_bytes());
    b[362] = 1;
    let uncapped = parse_meteora_data(&b).unwrap();
    let mut st = pool_arb::pool_state::MeteoraPoolStateBase::from_meteora(addr(1), &uncapped);
    assert_eq!(st.dynamic_liquidity_mode, 0);
    assert!(!st.update(&uncapped));
    b[363..379].copy_from_slice(&5u128.to_le_bytes());
    let capped = parse_meteora_data(&b).unwrap();
    assert!(st.update(&capped));
    assert_eq!(st.dynamic_liquidity_mode, 1);
    assert!(!st.update(&capped));
}
