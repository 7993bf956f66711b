use vstd::prelude::*;
use crate::graph::{graph_edges, PoolGraph};
use crate::lookup::PoolLookupTable;
use crate::pool_state::{FinalizedPoolState, ProcessedPoolState};
use crate::types::{Address, DexType, SlotInfo};

verus! {

/// Pools under this total value locked are not registered.
pub const MIN_TVL: u64 = 100_000;

/// Byte-wise lexicographic order, the order of `str`'s `<`.
pub open spec fn bytes_less(a: Seq<u8>, b: Seq<u8>) -> bool
    decreases a.len(),
{
    if a.len() == 0 {
        b.len() > 0
    } else if b.len() == 0 {
        false
    } else if a[0] != b[0] {
        a[0] < b[0]
    } else {
        bytes_less(a.drop_first(), b.drop_first())
    }
}

/// `a` sorts before `b` as a string.
pub open spec fn symbol_before(a: Seq<char>, b: Seq<char>) -> bool {
    bytes_less(vstd::utf8::encode_utf8(a), vstd::utf8::encode_utf8(b))
}

/// Whether the symbol `a` sorts before the symbol `b`.
pub fn symbol_less(a: &String, b: &String) -> (r: bool)
    ensures
        r == symbol_before(a@, b@),
{
    let x = a.as_str().as_bytes();
    let y = b.as_str().as_bytes();
    assert(x@ == vstd::utf8::encode_utf8(a@));
    assert(y@ == vstd::utf8::encode_utf8(b@));
    let mut i: usize = 0;
    assert(x@.skip(0) =~= x@);
    assert(y@.skip(0) =~= y@);
    while i < x.len() && i < y.len()
        invariant
            i <= x@.len(),
            i <= y@.len(),
            x@ == vstd::utf8::encode_utf8(a@),
            y@ == vstd::utf8::encode_utf8(b@),
            bytes_less(x@, y@) == bytes_less(x@.skip(i as int), y@.skip(i as int)),
        decreases x@.len() - i,
    {
        let ghost sx = x@.skip(i as int);
        let ghost sy = y@.skip(i as int);
        assert(sx[0] == x@[i as int] && sy[0] == y@[i as int]);
        assert(sx.len() > 0 && sy.len() > 0);
        if x[i] != y[i] {
            assert(bytes_less(sx, sy) == (sx[0] < sy[0]));
            let r = x[i] < y[i];
            return r;
        }
        assert(sx.drop_first() =~= x@.skip(i + 1));
        assert(sy.drop_first() =~= y@.skip(i + 1));
        i = i + 1;
    }
    assert(x@.skip(i as int).len() == x@.len() - i);
    i < y.len()
}

/// A token: its symbol and its mint address.
#[derive(Debug, Clone)]
pub struct TokenInfo {
    pub symbol: String,
    pub address: Address,
}

/// An unordered pair of tokens, by index into the token table, ordered so that
/// the first symbol sorts before the second.
#[derive(Debug, Clone, Copy, PartialEq, Eq, Structural)]
pub struct TokenPair {
    pub token_a: usize,
    pub token_b: usize,
}

/// A registered pool of one family for one pair, in order of registration.
#[derive(Debug, Clone, Copy, PartialEq, Eq, Structural)]
pub struct BasePoolInfo {
    pub dex: DexType,
    pub pair: TokenPair,
    pub pool_address: Address,
}

/// Last seen slot notification and when it arrived.
#[derive(Debug, Clone, Copy, PartialEq, Eq, Structural)]
pub struct NetworkState {
    pub current_slot: u64,
    pub parent_slot: u64,
    pub root_slot: u64,
    pub last_processed_slot: u64,
    pub last_update_time: u64,
}

impl NetworkState {
    /// A state that has seen no slot yet, stamped at `now`.
    pub fn new(now: u64) -> (r: NetworkState)
        ensures
            r == (NetworkState {
                current_slot: 0,
                parent_slot: 0,
                root_slot: 0,
                last_processed_slot: 0,
                last_update_time: now,
            }),
    {
        NetworkState { current_slot: 0, parent_slot: 0, root_slot: 0, last_processed_slot: 0, last_update_time: now }
    }
}

/// What a slot notification revealed about the stream's health.
#[derive(Debug, Clone, Copy, PartialEq, Eq, Structural)]
pub struct SlotReport {
    /// Seconds since the previous notification (zero if the clock went back).
    pub delay_secs: u64,
    /// Slots skipped between the previous notification and this one.
    pub slots_missed: u64,
}

/// Index of the last token with symbol `sym`.
pub open spec fn token_lookup(tokens: Seq<TokenInfo>, sym: Seq<char>) -> Option<int>
    decreases tokens.len(),
{
    if tokens.len() == 0 {
        None
    } else if tokens.last().symbol@ == sym {
        Some(tokens.len() - 1)
    } else {
        token_lookup(tokens.drop_last(), sym)
    }
}

/// Index of the last token with mint address `a`.
pub open spec fn token_lookup_by_address(tokens: Seq<TokenInfo>, a: Address) -> Option<int>
    decreases tokens.len(),
{
    if tokens.len() == 0 {
        None
    } else if tokens.last().address == a {
        Some(tokens.len() - 1)
    } else {
        token_lookup_by_address(tokens.drop_last(), a)
    }
}

/// Index of the first pool registered for `dex` and `pair`.
pub open spec fn first_entry(pools: Seq<BasePoolInfo>, dex: DexType, pair: TokenPair) -> Option<int>
    decreases pools.len(),
{
    if pools.len() == 0 {
        None
    } else {
        match first_entry(pools.drop_last(), dex, pair) {
            Some(k) => Some(k),
            None => if pools.last().dex == dex && pools.last().pair == pair {
                Some(pools.len() - 1)
            } else {
                None
            },
        }
    }
}

/// The first pool registered for `dex` and the pair in the given order.
pub open spec fn first_pool(pools: Seq<BasePoolInfo>, dex: DexType, pair: TokenPair) -> Option<Address> {
    match first_entry(pools, dex, pair) {
        Some(k) => Some(pools[k].pool_address),
        None => None,
    }
}

/// The pool of `dex` for tokens `i` and `j`: tried in that order, then reversed.
pub open spec fn find_pool_spec(pools: Seq<BasePoolInfo>, dex: DexType, i: usize, j: usize) -> Option<Address> {
    let direct = first_pool(pools, dex, TokenPair { token_a: i, token_b: j });
    if direct is Some {
        direct
    } else {
        first_pool(pools, dex, TokenPair { token_a: j, token_b: i })
    }
}

pub proof fn lemma_first_entry(pools: Seq<BasePoolInfo>, dex: DexType, pair: TokenPair)
    ensures
        first_entry(pools, dex, pair) is Some ==> {
            let k = first_entry(pools, dex, pair)->Some_0;
            &&& 0 <= k < pools.len()
            &&& pools[k].dex == dex
            &&& pools[k].pair == pair
        },
    decreases pools.len(),
{
    if pools.len() > 0 {
        lemma_first_entry(pools.drop_last(), dex, pair);
    }
}


/// Tokens with the same symbols at the same positions resolve a symbol alike.
proof fn lemma_token_lookup_same_symbols(a: Seq<TokenInfo>, b: Seq<TokenInfo>, sym: Seq<char>)
    requires
        a.len() == b.len(),
        forall|i: int| 0 <= i < a.len() ==> #[trigger] a[i].symbol@ == b[i].symbol@,
    ensures
        token_lookup(a, sym) == token_lookup(b, sym),
    decreases a.len(),
{
    if a.len() > 0 {
        assert(a.last().symbol@ == b.last().symbol@);
        lemma_token_lookup_same_symbols(a.drop_last(), b.drop_last(), sym);
    }
}

pub proof fn lemma_token_lookup(tokens: Seq<TokenInfo>, sym: Seq<char>)
    ensures
        token_lookup(tokens, sym) is Some ==> 0 <= token_lookup(tokens, sym)->Some_0 < tokens.len()
            && tokens[token_lookup(tokens, sym)->Some_0].symbol@ == sym,
        token_lookup(tokens, sym) is None ==> forall|i: int| 0 <= i < tokens.len() ==> #[trigger] tokens[i].symbol@ != sym,
    decreases tokens.len(),
{
    if tokens.len() > 0 {
        lemma_token_lookup(tokens.drop_last(), sym);
        assert forall|i: int| 0 <= i < tokens.len() - 1 implies #[trigger] tokens[i] == tokens.drop_last()[i] by {}
    }
}

/// The byte order is asymmetric.
pub proof fn lemma_bytes_less_asymmetric(a: Seq<u8>, b: Seq<u8>)
    ensures
        bytes_less(a, b) ==> !bytes_less(b, a),
    decreases a.len(),
{
    if a.len() > 0 && b.len() > 0 && a[0] == b[0] {
        lemma_bytes_less_asymmetric(a.drop_first(), b.drop_first());
    }
}

/// Two different byte strings are ordered one way or the other.
pub proof fn lemma_bytes_less_total(a: Seq<u8>, b: Seq<u8>)
    ensures
        a != b ==> bytes_less(a, b) || bytes_less(b, a),
    decreases a.len(),
{
    if a.len() > 0 && b.len() > 0 && a[0] == b[0] {
        lemma_bytes_less_total(a.drop_first(), b.drop_first());
        if a != b {
            assert(a.drop_first() != b.drop_first()) by {
                if a.drop_first() == b.drop_first() {
                    assert(a =~= seq![a[0]] + a.drop_first());
                    assert(b =~= seq![b[0]] + b.drop_first());
                }
            }
        }
    } else if a.len() == 0 && b.len() == 0 {
        assert(a =~= b);
    }
}

/// Distinct symbols are ordered one way or the other, never both.
pub proof fn lemma_symbol_order(a: Seq<char>, b: Seq<char>)
    ensures
        symbol_before(a, b) ==> !symbol_before(b, a),
        a != b ==> symbol_before(a, b) || symbol_before(b, a),
{
    lemma_bytes_less_asymmetric(vstd::utf8::encode_utf8(a), vstd::utf8::encode_utf8(b));
    lemma_bytes_less_total(vstd::utf8::encode_utf8(a), vstd::utf8::encode_utf8(b));
    vstd::utf8::encode_utf8_decode_utf8(a);
    vstd::utf8::encode_utf8_decode_utf8(b);
}

/// A pool found in a prefix stays the first one found in the whole list.
proof fn lemma_first_entry_prefix(pools: Seq<BasePoolInfo>, n: int, dex: DexType, pair: TokenPair)
    requires
        0 <= n <= pools.len(),
        first_entry(pools.subrange(0, n), dex, pair) is Some,
    ensures
        first_entry(pools, dex, pair) == first_entry(pools.subrange(0, n), dex, pair),
    decreases pools.len() - n,
{
    if n < pools.len() {
        assert(pools.drop_last().subrange(0, n) =~= pools.subrange(0, n));
        lemma_first_entry_prefix(pools.drop_last(), n, dex, pair);
    } else {
        assert(pools.subrange(0, n) =~= pools);
    }
}

/// The pair of tokens `i` and `j` ordered by symbol.
pub open spec fn canonical_pair(tokens: Seq<TokenInfo>, i: usize, j: usize) -> TokenPair {
    if symbol_before(tokens[i as int].symbol@, tokens[j as int].symbol@) {
        TokenPair { token_a: i, token_b: j }
    } else {
        TokenPair { token_a: j, token_b: i }
    }
}

/// The store of tokens, pairs and pools, with the existence table of each family.
pub struct GlobalData {
    pub tokens: Vec<TokenInfo>,
    pub token_pairs: Vec<TokenPair>,
    pub dex_pools: Vec<BasePoolInfo>,
    pub orca_lookup: PoolLookupTable,
    pub raydium_lookup: PoolLookupTable,
    pub meteora_lookup: PoolLookupTable,
    pub network_state: NetworkState,
    /// Cycles of four tokens, by token index; a cycle's id is its position.
    pub chain_storage_4: Vec<Vec<usize>>,
    /// Cycles of five tokens; a cycle's id is its position plus the number of four-token cycles.
    pub chain_storage_5: Vec<Vec<usize>>,
    /// For each pool, the ids of the cycles that one of its hops can use.
    pub chain_references: Vec<ChainReference>,
    pub processed_graph: PoolGraph,
    pub finalized_graph: PoolGraph,
    pub processed_pool_states: Vec<ProcessedPoolState>,
    pub finalized_pool_states: Vec<FinalizedPoolState>,
}

/// Index of the first reverse-index entry of pool `a`.
pub open spec fn ref_lookup(refs: Seq<ChainReference>, a: Address) -> Option<int>
    decreases refs.len(),
{
    if refs.len() == 0 {
        None
    } else {
        match ref_lookup(refs.drop_last(), a) {
            Some(k) => Some(k),
            None => if refs.last().pool_address == a {
                Some(refs.len() - 1)
            } else {
                None
            },
        }
    }
}

pub proof fn lemma_ref_lookup(refs: Seq<ChainReference>, a: Address)
    ensures
        ref_lookup(refs, a) is Some ==> {
            let q = ref_lookup(refs, a)->Some_0;
            &&& 0 <= q < refs.len()
            &&& refs[q].pool_address == a
            &&& forall|p: int| 0 <= p < q ==> #[trigger] refs[p].pool_address != a
        },
        ref_lookup(refs, a) is None ==> forall|p: int| 0 <= p < refs.len() ==> #[trigger] refs[p].pool_address != a,
    decreases refs.len(),
{
    if refs.len() > 0 {
        lemma_ref_lookup(refs.drop_last(), a);
        assert forall|p: int| 0 <= p < refs.len() - 1 implies #[trigger] refs[p] == refs.drop_last()[p] by {}
    }
}

/// Lookup depends only on the addresses of the entries.
pub proof fn lemma_ref_lookup_same_addresses(a: Seq<ChainReference>, b: Seq<ChainReference>, x: Address)
    requires
        a.len() == b.len(),
        forall|k: int| 0 <= k < a.len() ==> #[trigger] a[k].pool_address == b[k].pool_address,
    ensures
        ref_lookup(a, x) == ref_lookup(b, x),
    decreases a.len(),
{
    if a.len() > 0 {
        assert(a.last().pool_address == b.last().pool_address);
        lemma_ref_lookup_same_addresses(a.drop_last(), b.drop_last(), x);
    }
}

/// The cycles that one pool takes part in.
#[derive(Debug, Clone)]
pub struct ChainReference {
    pub pool_address: Address,
    pub chains: Vec<usize>,
}

impl GlobalData {
    /// The existence table of a family.
    pub open spec fn table(&self, dex: DexType) -> PoolLookupTable {
        match dex {
            DexType::Orca => self.orca_lookup,
            DexType::Raydium => self.raydium_lookup,
            DexType::Meteora => self.meteora_lookup,
        }
    }

    pub open spec fn spec_pool_exists(&self, dex: DexType, a: Address) -> bool {
        self.table(dex).spec_exists(a)
    }

    /// The registry's invariant: every registered pool refers to known tokens and
    /// is present in its family's existence table.
    pub open spec fn registry_wf(&self) -> bool {
        &&& self.orca_lookup.wf()
        &&& self.raydium_lookup.wf()
        &&& self.meteora_lookup.wf()
        &&& forall|k: int|
            0 <= k < self.dex_pools@.len() ==> {
                let p = #[trigger] self.dex_pools@[k];
                &&& p.pair.token_a < self.tokens@.len()
                &&& p.pair.token_b < self.tokens@.len()
                &&& self.spec_pool_exists(p.dex, p.pool_address)
                &&& (p.pair.token_a == p.pair.token_b || symbol_before(
                    self.tokens@[p.pair.token_a as int].symbol@,
                    self.tokens@[p.pair.token_b as int].symbol@,
                ))
            }
        &&& forall|i: int, j: int|
            0 <= i < j < self.tokens@.len() ==> #[trigger] self.tokens@[i].symbol@ != #[trigger] self.tokens@[j].symbol@
    }

    /// Registered pools keep their invariant when the tokens keep their symbols
    /// (and any new token's symbol is new).
    proof fn lemma_pools_keep_shape(&self, prev: GlobalData)
        requires
            prev.registry_wf(),
            self.dex_pools == prev.dex_pools,
            self.orca_lookup == prev.orca_lookup,
            self.raydium_lookup == prev.raydium_lookup,
            self.meteora_lookup == prev.meteora_lookup,
            self.tokens@.len() >= prev.tokens@.len(),
            self.tokens@.len() <= prev.tokens@.len() + 1,
            forall|i: int| 0 <= i < prev.tokens@.len() ==> #[trigger] self.tokens@[i].symbol@ == prev.tokens@[i].symbol@,
            self.tokens@.len() == prev.tokens@.len() + 1 ==> forall|i: int|
                0 <= i < prev.tokens@.len() ==> #[trigger] prev.tokens@[i].symbol@ != self.tokens@[prev.tokens@.len() as int].symbol@,
        ensures
            self.registry_wf(),
    {
        assert forall|k: int| 0 <= k < self.dex_pools@.len() implies {
            let p = #[trigger] self.dex_pools@[k];
            &&& p.pair.token_a < self.tokens@.len()
            &&& p.pair.token_b < self.tokens@.len()
            &&& self.spec_pool_exists(p.dex, p.pool_address)
            &&& (p.pair.token_a == p.pair.token_b || symbol_before(
                self.tokens@[p.pair.token_a as int].symbol@,
                self.tokens@[p.pair.token_b as int].symbol@,
            ))
        } by {
            let p = self.dex_pools@[k];
            assert(prev.dex_pools@[k] == p);
            assert(self.tokens@[p.pair.token_a as int].symbol@ == prev.tokens@[p.pair.token_a as int].symbol@);
            assert(self.tokens@[p.pair.token_b as int].symbol@ == prev.tokens@[p.pair.token_b as int].symbol@);
        }
        assert forall|i: int, j: int|
            0 <= i < j < self.tokens@.len() implies #[trigger] self.tokens@[i].symbol@ != #[trigger] self.tokens@[j].symbol@ by {
            if j < prev.tokens@.len() {
                assert(prev.tokens@[i].symbol@ != prev.tokens@[j].symbol@);
            } else {
                assert(prev.tokens@[i].symbol@ != self.tokens@[prev.tokens@.len() as int].symbol@);
            }
        }
    }

    /// Lookup of a pool by two tokens gives the same pool in either order.
    pub proof fn lemma_lookup_either_order(&self, dex: DexType, i: usize, j: usize)
        requires
            self.registry_wf(),
        ensures
            find_pool_spec(self.dex_pools@, dex, i, j) == find_pool_spec(self.dex_pools@, dex, j, i),
    {
        let pools = self.dex_pools@;
        let pij = TokenPair { token_a: i, token_b: j };
        let pji = TokenPair { token_a: j, token_b: i };
        lemma_first_entry(pools, dex, pij);
        lemma_first_entry(pools, dex, pji);
        if first_entry(pools, dex, pij) is Some && first_entry(pools, dex, pji) is Some && i != j {
            let ka = first_entry(pools, dex, pij)->Some_0;
            let kb = first_entry(pools, dex, pji)->Some_0;
            assert(pools[ka].pair == pij && pools[kb].pair == pji);
            lemma_symbol_order(self.tokens@[i as int].symbol@, self.tokens@[j as int].symbol@);
        }
    }

    /// An empty store, its network state stamped at `now`.
    pub fn new(now: u64) -> (r: GlobalData)
        ensures
            r.registry_wf(),
            r.tokens@.len() == 0,
            r.dex_pools@.len() == 0,
            r.token_pairs@.len() == 0,
            r.chain_storage_4@.len() == 0 && r.chain_storage_5@.len() == 0,
            r.chain_references@.len() == 0,
            graph_edges(r.processed_graph).len() == 0 && graph_edges(r.finalized_graph).len() == 0,
            r.processed_pool_states@.len() == 0 && r.finalized_pool_states@.len() == 0,
            forall|d: DexType, a: Address| !r.spec_pool_exists(d, a),
            forall|d: DexType| #[trigger] r.table(d).addresses@.len() == 0,
    {
        GlobalData {
            tokens: Vec::new(),
            token_pairs: Vec::new(),
            dex_pools: Vec::new(),
            orca_lookup: PoolLookupTable::new(),
            raydium_lookup: PoolLookupTable::new(),
            meteora_lookup: PoolLookupTable::new(),
            network_state: NetworkState::new(now),
            chain_storage_4: Vec::new(),
            chain_storage_5: Vec::new(),
            chain_references: Vec::new(),
            processed_graph: PoolGraph::new(),
            finalized_graph: PoolGraph::new(),
            processed_pool_states: Vec::new(),
            finalized_pool_states: Vec::new(),
        }
    }

    /// Index of the token with this symbol.
    pub fn find_token(&self, symbol: &String) -> (r: Option<usize>)
        ensures
            r is Some <==> token_lookup(self.tokens@, symbol@) is Some,
            r is Some ==> r->Some_0 as int == token_lookup(self.tokens@, symbol@)->Some_0,
    {
        let mut i: usize = self.tokens.len();
        assert(self.tokens@.subrange(0, i as int) =~= self.tokens@);
        while i > 0
            invariant
                i <= self.tokens@.len(),
                token_lookup(self.tokens@, symbol@) == token_lookup(self.tokens@.subrange(0, i as int), symbol@),
            decreases i,
        {
            assert(self.tokens@.subrange(0, i as int).drop_last() =~= self.tokens@.subrange(0, i - 1));
            if self.tokens[i - 1].symbol == *symbol {
                return Some(i - 1);
            }
            i = i - 1;
        }
        None
    }

    /// Index of the token with this mint address.
    pub fn find_token_by_address(&self, address: &Address) -> (r: Option<usize>)
        ensures
            r is Some <==> token_lookup_by_address(self.tokens@, *address) is Some,
            r is Some ==> r->Some_0 as int == token_lookup_by_address(self.tokens@, *address)->Some_0,
    {
        let mut i: usize = self.tokens.len();
        assert(self.tokens@.subrange(0, i as int) =~= self.tokens@);
        while i > 0
            invariant
                i <= self.tokens@.len(),
                token_lookup_by_address(self.tokens@, *address) == token_lookup_by_address(
                    self.tokens@.subrange(0, i as int),
                    *address,
                ),
            decreases i,
        {
            assert(self.tokens@.subrange(0, i as int).drop_last() =~= self.tokens@.subrange(0, i - 1));
            if self.tokens[i - 1].address.same(address) {
                return Some(i - 1);
            }
            i = i - 1;
        }
        None
    }

    /// Registers a token, or gives a known symbol its new address.
    pub fn add_token(&mut self, symbol: String, address: Address)
        requires
            old(self).registry_wf(),
        ensures
            final(self).registry_wf(),
            token_lookup(final(self).tokens@, symbol@) is Some,
            final(self).tokens@[token_lookup(final(self).tokens@, symbol@)->Some_0].symbol@ == symbol@,
            final(self).tokens@[token_lookup(final(self).tokens@, symbol@)->Some_0].address == address,
            forall|s: Seq<char>| s != symbol@ ==> token_lookup(final(self).tokens@, s) == token_lookup(old(self).tokens@, s),
            forall|k: int|
                0 <= k < old(self).tokens@.len() && Some(k) != token_lookup(final(self).tokens@, symbol@)
                    ==> #[trigger] final(self).tokens@[k] == old(self).tokens@[k],
            old(self).tokens@.len() <= final(self).tokens@.len(),
            final(self).dex_pools == old(self).dex_pools,
            final(self).token_pairs == old(self).token_pairs,
            forall|d: DexType| #[trigger] final(self).table(d) == old(self).table(d),
    {
        let ghost sym = symbol@;
        match self.find_token(&symbol) {
            Some(k) => {
                proof {
                    lemma_token_lookup(self.tokens@, sym);
                }
                self.tokens.set(k, TokenInfo { symbol, address });
                proof {
                    assert forall|s: Seq<char>| token_lookup(self.tokens@, s) == token_lookup(old(self).tokens@, s) by {
                        lemma_token_lookup_same_symbols(self.tokens@, old(self).tokens@, s);
                    }
                    assert forall|i: int| 0 <= i < self.tokens@.len() implies #[trigger] self.tokens@[i].symbol@
                        == old(self).tokens@[i].symbol@ by {}
                    self.lemma_pools_keep_shape(*old(self));
                }
            },
            None => {
                proof {
                    lemma_token_lookup(self.tokens@, sym);
                }
                self.tokens.push(TokenInfo { symbol, address });
                assert(self.tokens@.drop_last() =~= old(self).tokens@);
                proof {
                    assert forall|i: int| 0 <= i < old(self).tokens@.len() implies #[trigger] self.tokens@[i].symbol@
                        == old(self).tokens@[i].symbol@ by {}
                    self.lemma_pools_keep_shape(*old(self));
                }
            },
        }
    }

    /// Records the pair of two known tokens, ordered by symbol; unknown symbols are ignored.
    pub fn add_token_pair(&mut self, token_a_symbol: &String, token_b_symbol: &String)
        requires
            old(self).registry_wf(),
        ensures
            final(self).registry_wf(),
            final(self).tokens == old(self).tokens,
            final(self).dex_pools == old(self).dex_pools,
            forall|d: DexType| #[trigger] final(self).table(d) == old(self).table(d),
            match (token_lookup(old(self).tokens@, token_a_symbol@), token_lookup(old(self).tokens@, token_b_symbol@)) {
                (Some(i), Some(j)) => {
                    let p = canonical_pair(old(self).tokens@, i as usize, j as usize);
                    &&& final(self).token_pairs@.contains(p)
                    &&& forall|q: TokenPair| #[trigger] final(self).token_pairs@.contains(q) <==> (q == p || old(self).token_pairs@.contains(q))
                },
                _ => final(self).token_pairs == old(self).token_pairs,
            },
    {
        let ia = self.find_token(token_a_symbol);
        let ib = self.find_token(token_b_symbol);
        match (ia, ib) {
            (Some(i), Some(j)) => {
                proof {
                    lemma_token_lookup(self.tokens@, token_a_symbol@);
                    lemma_token_lookup(self.tokens@, token_b_symbol@);
                }
                let pair = if symbol_less(&self.tokens[i].symbol, &self.tokens[j].symbol) {
                    TokenPair { token_a: i, token_b: j }
                } else {
                    TokenPair { token_a: j, token_b: i }
                };
                let mut k: usize = 0;
                let mut found = false;
                while k < self.token_pairs.len()
                    invariant
                        k <= self.token_pairs@.len(),
                        found == exists|m: int| 0 <= m < k && self.token_pairs@[m] == pair,
                    decreases self.token_pairs@.len() - k,
                {
                    if self.token_pairs[k] == pair {
                        found = true;
                    }
                    k = k + 1;
                }
                if !found {
                    self.token_pairs.push(pair);
                    assert(self.token_pairs@[old(self).token_pairs@.len() as int] == pair);
                    assert forall|q: TokenPair| #[trigger] self.token_pairs@.contains(q) <==> (q == pair
                        || old(self).token_pairs@.contains(q)) by {
                        if self.token_pairs@.contains(q) && q != pair {
                            let m = choose|m: int| 0 <= m < self.token_pairs@.len() && self.token_pairs@[m] == q;
                            assert(old(self).token_pairs@[m] == q);
                        }
                        if old(self).token_pairs@.contains(q) {
                            let m = choose|m: int| 0 <= m < old(self).token_pairs@.len() && old(self).token_pairs@[m] == q;
                            assert(self.token_pairs@[m] == q);
                        }
                    }
                }
            },
            _ => {},
        }
    }

    /// Registers a pool of family `dex` for two known tokens, unless its total
    /// value locked is under the minimum. Returns whether it was registered.
    pub fn add_pools(
        &mut self,
        token_a_symbol: &String,
        token_b_symbol: &String,
        pool_address: Address,
        tvl: u64,
        dex: DexType,
    ) -> (r: bool)
        requires
            old(self).registry_wf(),
            8 * (old(self).table(dex).addresses@.len() + 1) <= usize::MAX,
        ensures
            final(self).registry_wf(),
            r == (tvl >= MIN_TVL && token_lookup(old(self).tokens@, token_a_symbol@) is Some && token_lookup(
                old(self).tokens@,
                token_b_symbol@,
            ) is Some),
            !r ==> *final(self) == *old(self),
            r ==> final(self).spec_pool_exists(dex, pool_address),
            r ==> final(self).dex_pools@ == old(self).dex_pools@.push(
                BasePoolInfo {
                    dex,
                    pair: canonical_pair(
                        old(self).tokens@,
                        token_lookup(old(self).tokens@, token_a_symbol@)->Some_0 as usize,
                        token_lookup(old(self).tokens@, token_b_symbol@)->Some_0 as usize,
                    ),
                    pool_address,
                },
            ),
            final(self).tokens == old(self).tokens,
            final(self).token_pairs == old(self).token_pairs,
            forall|d: DexType, a: Address|
                old(self).spec_pool_exists(d, a) ==> #[trigger] final(self).spec_pool_exists(d, a),
            forall|d: DexType|
                #[trigger] final(self).table(d).addresses@.len() <= old(self).table(d).addresses@.len() + 1,
    {
        if tvl < MIN_TVL {
            return false;
        }
        let ia = self.find_token(token_a_symbol);
        let ib = self.find_token(token_b_symbol);
        match (ia, ib) {
            (Some(i), Some(j)) => {
                proof {
                    lemma_token_lookup(self.tokens@, token_a_symbol@);
                    lemma_token_lookup(self.tokens@, token_b_symbol@);
                }
                let pair = if symbol_less(&self.tokens[i].symbol, &self.tokens[j].symbol) {
                    TokenPair { token_a: i, token_b: j }
                } else {
                    TokenPair { token_a: j, token_b: i }
                };
                self.dex_pools.push(BasePoolInfo { dex, pair, pool_address });
                match dex {
                    DexType::Orca => self.orca_lookup.insert_pool(pool_address),
                    DexType::Raydium => self.raydium_lookup.insert_pool(pool_address),
                    DexType::Meteora => self.meteora_lookup.insert_pool(pool_address),
                }
                assert forall|d: DexType, a: Address| old(self).spec_pool_exists(d, a) implies #[trigger] self.spec_pool_exists(d, a) by {
                    if d != dex || a != pool_address {
                    }
                }
                proof {
                    lemma_symbol_order(self.tokens@[i as int].symbol@, self.tokens@[j as int].symbol@);
                    if i != j && self.tokens@[i as int].symbol@ == self.tokens@[j as int].symbol@ {
                        if i < j {
                            assert(self.tokens@[i as int].symbol@ != self.tokens@[j as int].symbol@);
                        } else {
                            assert(self.tokens@[j as int].symbol@ != self.tokens@[i as int].symbol@);
                        }
                    }
                }
                assert forall|k: int| 0 <= k < self.dex_pools@.len() implies {
                    let p = #[trigger] self.dex_pools@[k];
                    &&& p.pair.token_a < self.tokens@.len()
                    &&& p.pair.token_b < self.tokens@.len()
                    &&& self.spec_pool_exists(p.dex, p.pool_address)
                    &&& (p.pair.token_a == p.pair.token_b || symbol_before(
                        self.tokens@[p.pair.token_a as int].symbol@,
                        self.tokens@[p.pair.token_b as int].symbol@,
                    ))
                } by {
                    if k < old(self).dex_pools@.len() {
                        assert(self.dex_pools@[k] == old(self).dex_pools@[k]);
                        assert(old(self).spec_pool_exists(self.dex_pools@[k].dex, self.dex_pools@[k].pool_address));
                    }
                }
                true
            },
            _ => false,
        }
    }

    /// Whether the pool is registered and present for family `dex`.
    pub fn pool_exists(&self, dex: DexType, pool_address: &Address) -> (r: bool)
        requires
            self.registry_wf(),
        ensures
            r == self.spec_pool_exists(dex, *pool_address),
    {
        match dex {
            DexType::Orca => self.orca_lookup.exists_pool(pool_address),
            DexType::Raydium => self.raydium_lookup.exists_pool(pool_address),
            DexType::Meteora => self.meteora_lookup.exists_pool(pool_address),
        }
    }

    /// The first pool registered for `dex` and `pair` in that order.
    fn first_pool_exec(&self, dex: DexType, pair: TokenPair) -> (r: Option<Address>)
        ensures
            r == first_pool(self.dex_pools@, dex, pair),
    {
        let ghost pools = self.dex_pools@;
        let mut k: usize = 0;
        assert(pools.subrange(0, 0) =~= Seq::<BasePoolInfo>::empty());
        while k < self.dex_pools.len()
            invariant
                pools == self.dex_pools@,
                k <= pools.len(),
                first_entry(pools.subrange(0, k as int), dex, pair) is None,
            decreases pools.len() - k,
        {
            let e = self.dex_pools[k];
            assert(pools.subrange(0, k + 1).drop_last() =~= pools.subrange(0, k as int));
            if e.dex == dex && e.pair == pair {
                proof {
                    lemma_first_entry_prefix(pools, k + 1, dex, pair);
                }
                return Some(e.pool_address);
            }
            k = k + 1;
        }
        assert(pools.subrange(0, k as int) =~= pools);
        None
    }

    /// The pool of `dex` for tokens `i` and `j`, in either order.
    pub fn find_pool_by_ids(&self, dex: DexType, i: usize, j: usize) -> (r: Option<Address>)
        ensures
            r == find_pool_spec(self.dex_pools@, dex, i, j),
    {
        let direct = self.first_pool_exec(dex, TokenPair { token_a: i, token_b: j });
        if direct.is_some() {
            direct
        } else {
            self.first_pool_exec(dex, TokenPair { token_a: j, token_b: i })
        }
    }

    /// The pool of `dex` for the tokens with these symbols, in either order.
    pub fn find_pool_address_by_symbols(&self, dex: DexType, symbol_a: &String, symbol_b: &String) -> (r: Option<Address>)
        ensures
            r == match (token_lookup(self.tokens@, symbol_a@), token_lookup(self.tokens@, symbol_b@)) {
                (Some(i), Some(j)) => find_pool_spec(self.dex_pools@, dex, i as usize, j as usize),
                _ => None,
            },
            self.registry_wf() ==> r == match (token_lookup(self.tokens@, symbol_b@), token_lookup(self.tokens@, symbol_a@)) {
                (Some(i), Some(j)) => find_pool_spec(self.dex_pools@, dex, i as usize, j as usize),
                _ => None,
            },
    {
        proof {
            if self.registry_wf() {
                if let (Some(i), Some(j)) = (token_lookup(self.tokens@, symbol_a@), token_lookup(self.tokens@, symbol_b@)) {
                    self.lemma_lookup_either_order(dex, i as usize, j as usize);
                }
            }
        }
        let ia = self.find_token(symbol_a);
        let ib = self.find_token(symbol_b);
        match (ia, ib) {
            (Some(i), Some(j)) => self.find_pool_by_ids(dex, i, j),
            _ => None,
        }
    }

    /// The pool of `dex` for the tokens with these mint addresses, in either order.
    pub fn find_pool_address_by_addresses(&self, dex: DexType, address_a: &Address, address_b: &Address) -> (r:
        Option<Address>)
        ensures
            r == match (
                token_lookup_by_address(self.tokens@, *address_a),
                token_lookup_by_address(self.tokens@, *address_b),
            ) {
                (Some(i), Some(j)) => find_pool_spec(self.dex_pools@, dex, i as usize, j as usize),
                _ => None,
            },
    {
        let ia = self.find_token_by_address(address_a);
        let ib = self.find_token_by_address(address_b);
        match (ia, ib) {
            (Some(i), Some(j)) => self.find_pool_by_ids(dex, i, j),
            _ => None,
        }
    }

    /// Records a slot notification received at `now` and reports the delay since
    /// the previous one and the slots skipped.
    pub fn update_network_state(&mut self, slot_info: SlotInfo, now: u64) -> (r: SlotReport)
        ensures
            final(self).network_state == (NetworkState {
                current_slot: slot_info.slot,
                parent_slot: slot_info.parent,
                root_slot: slot_info.root,
                last_update_time: now,
                ..old(self).network_state
            }),
            r.delay_secs == if now >= old(self).network_state.last_update_time {
                now - old(self).network_state.last_update_time
            } else {
                0
            },
            r.slots_missed == if slot_info.slot > old(self).network_state.current_slot + 1 {
                slot_info.slot - old(self).network_state.current_slot - 1
            } else {
                0
            },
            final(self).tokens == old(self).tokens,
            final(self).dex_pools == old(self).dex_pools,
            final(self).token_pairs == old(self).token_pairs,
            forall|d: DexType| #[trigger] final(self).table(d) == old(self).table(d),
    {
        let last = self.network_state.last_update_time;
        let delay_secs = if now >= last {
            now - last
        } else {
            0
        };
        let cur = self.network_state.current_slot;
        let slots_missed = if slot_info.slot > cur && slot_info.slot - cur > 1 {
            slot_info.slot - cur - 1
        } else {
            0
        };
        self.network_state.current_slot = slot_info.slot;
        self.network_state.parent_slot = slot_info.parent;
        self.network_state.root_slot = slot_info.root;
        self.network_state.last_update_time = now;
        SlotReport { delay_secs, slots_missed }
    }

    /// Whether an update at `update_slot` may be applied; every slot is accepted,
    /// staleness is judged per pool and commitment level.
    pub fn validate_slot_consistency(&self, update_slot: u64) -> (r: bool)
        ensures
            r,
    {
        true
    }
}

} // verus!
