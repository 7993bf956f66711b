//! State plane of an arbitrage scanner over three families of liquidity pools:
//! account decoding, pool-state reconciliation, the pool registry, the token
//! cycle enumerator with its reverse index, the router and the simulator's
//! hop selection.
use vstd::prelude::*;

pub mod types;
pub mod chains;
pub mod lookup;
pub mod data;
pub mod decoder;
pub mod pool_state;
pub mod graph;
pub mod router;
pub mod arbitrage;
pub mod topology;
pub mod ingest;
pub mod ws;
pub mod config;
