use vstd::prelude::*;
use vstd::bytes::{spec_u16_from_le_bytes, spec_u32_from_le_bytes, spec_u64_from_le_bytes, spec_u128_from_le_bytes};
use crate::types::{Address, DexType};

verus! {

/// Bytes of the packed concentrated-liquidity pool account.
pub const WHIRLPOOL_SIZE: usize = 226;

/// Bytes of the packed order-book pool account.
pub const RAYDIUM_SIZE: usize = 376;

/// Bytes of the packed dynamic-liquidity pool account.
pub const METEORA_SIZE: usize = 419;

/// Why an account update could not be decoded.
#[derive(Debug, Clone, Copy, PartialEq, Eq, Structural)]
pub enum DecodeError {
    /// The text is not base64, or the bytes are not a zstd stream.
    CodecError,
    /// The decompressed account is shorter than its layout.
    InsufficientBytes,
    /// The payload is in an encoding other than base64 with zstd.
    UnsupportedEncoding,
}

pub open spec fn spec_u8(b: Seq<u8>, off: int) -> u8 {
    b[off]
}

pub open spec fn spec_u16(b: Seq<u8>, off: int) -> u16 {
    spec_u16_from_le_bytes(b.subrange(off, off + 2))
}

pub open spec fn spec_i32(b: Seq<u8>, off: int) -> i32 {
    spec_u32_from_le_bytes(b.subrange(off, off + 4)) as i32
}

pub open spec fn spec_u64(b: Seq<u8>, off: int) -> u64 {
    spec_u64_from_le_bytes(b.subrange(off, off + 8))
}

pub open spec fn spec_i64(b: Seq<u8>, off: int) -> i64 {
    spec_u64_from_le_bytes(b.subrange(off, off + 8)) as i64
}

pub open spec fn spec_u128(b: Seq<u8>, off: int) -> u128 {
    spec_u128_from_le_bytes(b.subrange(off, off + 16))
}

/// A 32-byte address as four little-endian words.
pub open spec fn spec_address(b: Seq<u8>, off: int) -> Address {
    Address { w0: spec_u64(b, off), w1: spec_u64(b, off + 8), w2: spec_u64(b, off + 16), w3: spec_u64(b, off + 24) }
}

fn read_u8(data: &[u8], off: usize) -> (r: u8)
    requires
        off + 1 <= data@.len(),
        data@.len() <= usize::MAX,
    ensures
        r == spec_u8(data@, off as int),
{
    data[off]
}

fn read_u16(data: &[u8], off: usize) -> (r: u16)
    requires
        off + 2 <= data@.len(),
        data@.len() <= usize::MAX,
    ensures
        r == spec_u16(data@, off as int),
{
    let s = vstd::slice::slice_subrange(data, off, off + 2);
    vstd::bytes::u16_from_le_bytes(s)
}

fn read_i32(data: &[u8], off: usize) -> (r: i32)
    requires
        off + 4 <= data@.len(),
        data@.len() <= usize::MAX,
    ensures
        r == spec_i32(data@, off as int),
{
    let s = vstd::slice::slice_subrange(data, off, off + 4);
    vstd::bytes::u32_from_le_bytes(s) as i32
}

fn read_u64(data: &[u8], off: usize) -> (r: u64)
    requires
        off + 8 <= data@.len(),
        data@.len() <= usize::MAX,
    ensures
        r == spec_u64(data@, off as int),
{
    let s = vstd::slice::slice_subrange(data, off, off + 8);
    vstd::bytes::u64_from_le_bytes(s)
}

fn read_i64(data: &[u8], off: usize) -> (r: i64)
    requires
        off + 8 <= data@.len(),
        data@.len() <= usize::MAX,
    ensures
        r == spec_i64(data@, off as int),
{
    let s = vstd::slice::slice_subrange(data, off, off + 8);
    vstd::bytes::u64_from_le_bytes(s) as i64
}

fn read_u128(data: &[u8], off: usize) -> (r: u128)
    requires
        off + 16 <= data@.len(),
        data@.len() <= usize::MAX,
    ensures
        r == spec_u128(data@, off as int),
{
    let s = vstd::slice::slice_subrange(data, off, off + 16);
    vstd::bytes::u128_from_le_bytes(s)
}

fn read_address(data: &[u8], off: usize) -> (r: Address)
    requires
        off + 32 <= data@.len(),
        data@.len() <= usize::MAX,
    ensures
        r == spec_address(data@, off as int),
{
    Address {
        w0: read_u64(data, off),
        w1: read_u64(data, off + 8),
        w2: read_u64(data, off + 16),
        w3: read_u64(data, off + 24),
    }
}

/// Fields of a concentrated-liquidity pool account.
#[derive(Debug, Clone, Copy, PartialEq, Eq, Structural)]
pub struct WhirlpoolData {
    pub token_mint_a: Address,
    pub token_vault_a: Address,
    pub token_mint_b: Address,
    pub token_vault_b: Address,
    pub tick_spacing: u16,
    pub fee_rate: u16,
    pub protocol_fee_rate: u16,
    pub liquidity: u128,
    pub sqrt_price: u128,
    pub tick_current_index: i32,
    pub price_threshold: u64,
    pub fee_growth_global_a: u128,
    pub fee_growth_global_b: u128,
    pub protocol_fee_owed_a: u64,
    pub protocol_fee_owed_b: u64,
}

/// Fields of an order-book pool account.
#[derive(Debug, Clone, Copy, PartialEq, Eq, Structural)]
pub struct RaydiumData {
    pub status: u64,
    pub pool_state: u64,
    pub amm_id: Address,
    pub market_id: Address,
    pub token_a: Address,
    pub token_b: Address,
    pub lp_mint: Address,
    pub open_orders: Address,
    pub needs_withdraw: u64,
    pub recent_slot: u64,
    pub last_order_slot: u64,
    pub total_lp: u64,
    pub base_need_take: u64,
    pub quote_need_take: u64,
    pub base_decimal: u64,
    pub quote_decimal: u64,
    pub min_price: u64,
    pub max_price: u64,
    pub vol_max_cut_ratio: u64,
    pub fee_numerator: u64,
    pub fee_denominator: u64,
    pub ret_fee_numerator: u64,
    pub ret_fee_denominator: u64,
    pub punish_pc_amount: u64,
    pub punish_coin_amount: u64,
    pub orders_num: u64,
    pub depth: u64,
    pub open_time: u64,
    pub switch_time: u64,
}

/// Fields of a dynamic-liquidity pool account.
#[derive(Debug, Clone, Copy, PartialEq, Eq, Structural)]
pub struct MeteoraData {
    pub pool_id: Address,
    pub authority: Address,
    pub token_mint_a: Address,
    pub token_mint_b: Address,
    pub token_vault_a: Address,
    pub token_vault_b: Address,
    pub lp_mint: Address,
    pub total_lp: u64,
    pub liquidity: u128,
    pub sqrt_price: u128,
    pub current_tick_index: i32,
    pub tick_spacing: u16,
    pub fee_rate: u16,
    pub protocol_fee_rate: u16,
    pub fee_growth_global_a: u128,
    pub fee_growth_global_b: u128,
    pub fee_protocol_token_a: u64,
    pub fee_protocol_token_b: u64,
    pub max_price_sqrt: u128,
    pub min_price_sqrt: u128,
    pub max_tick_index: i32,
    pub min_tick_index: i32,
    pub dynamic_liquidity_mode: u8,
    pub liquidity_cap: u128,
    pub liquidity_multiplier: u64,
    pub last_update_timestamp: i64,
    pub last_update_slot: u64,
    pub volume_24h: u64,
    pub fees_24h: u64,
}

/// A decoded account of one of the three families.
#[derive(Debug, Clone, Copy, PartialEq, Eq, Structural)]
pub enum PoolData {
    Whirlpool(WhirlpoolData),
    Raydium(RaydiumData),
    Meteora(MeteoraData),
}

/// The concentrated-liquidity layout read from the start of `b`.
pub open spec fn whirlpool_layout(b: Seq<u8>) -> WhirlpoolData {
    WhirlpoolData {
        token_mint_a: spec_address(b, 0),
        token_vault_a: spec_address(b, 32),
        token_mint_b: spec_address(b, 64),
        token_vault_b: spec_address(b, 96),
        tick_spacing: spec_u16(b, 128),
        fee_rate: spec_u16(b, 130),
        protocol_fee_rate: spec_u16(b, 132),
        liquidity: spec_u128(b, 134),
        sqrt_price: spec_u128(b, 150),
        tick_current_index: spec_i32(b, 166),
        price_threshold: spec_u64(b, 170),
        fee_growth_global_a: spec_u128(b, 178),
        fee_growth_global_b: spec_u128(b, 194),
        protocol_fee_owed_a: spec_u64(b, 210),
        protocol_fee_owed_b: spec_u64(b, 218),
    }
}

/// The order-book layout read from the start of `b`.
pub open spec fn raydium_layout(b: Seq<u8>) -> RaydiumData {
    RaydiumData {
        status: spec_u64(b, 0),
        pool_state: spec_u64(b, 8),
        amm_id: spec_address(b, 16),
        market_id: spec_address(b, 48),
        token_a: spec_address(b, 80),
        token_b: spec_address(b, 112),
        lp_mint: spec_address(b, 144),
        open_orders: spec_address(b, 176),
        needs_withdraw: spec_u64(b, 208),
        recent_slot: spec_u64(b, 216),
        last_order_slot: spec_u64(b, 224),
        total_lp: spec_u64(b, 232),
        base_need_take: spec_u64(b, 240),
        quote_need_take: spec_u64(b, 248),
        base_decimal: spec_u64(b, 256),
        quote_decimal: spec_u64(b, 264),
        min_price: spec_u64(b, 272),
        max_price: spec_u64(b, 280),
        vol_max_cut_ratio: spec_u64(b, 288),
        fee_numerator: spec_u64(b, 296),
        fee_denominator: spec_u64(b, 304),
        ret_fee_numerator: spec_u64(b, 312),
        ret_fee_denominator: spec_u64(b, 320),
        punish_pc_amount: spec_u64(b, 328),
        punish_coin_amount: spec_u64(b, 336),
        orders_num: spec_u64(b, 344),
        depth: spec_u64(b, 352),
        open_time: spec_u64(b, 360),
        switch_time: spec_u64(b, 368),
    }
}

/// The dynamic-liquidity layout read from the start of `b`.
pub open spec fn meteora_layout(b: Seq<u8>) -> MeteoraData {
    MeteoraData {
        pool_id: spec_address(b, 0),
        authority: spec_address(b, 32),
        token_mint_a: spec_address(b, 64),
        token_mint_b: spec_address(b, 96),
        token_vault_a: spec_address(b, 128),
        token_vault_b: spec_address(b, 160),
        lp_mint: spec_address(b, 192),
        total_lp: spec_u64(b, 224),
        liquidity: spec_u128(b, 232),
        sqrt_price: spec_u128(b, 248),
        current_tick_index: spec_i32(b, 264),
        tick_spacing: spec_u16(b, 268),
        fee_rate: spec_u16(b, 270),
        protocol_fee_rate: spec_u16(b, 272),
        fee_growth_global_a: spec_u128(b, 274),
        fee_growth_global_b: spec_u128(b, 290),
        fee_protocol_token_a: spec_u64(b, 306),
        fee_protocol_token_b: spec_u64(b, 314),
        max_price_sqrt: spec_u128(b, 322),
        min_price_sqrt: spec_u128(b, 338),
        max_tick_index: spec_i32(b, 354),
        min_tick_index: spec_i32(b, 358),
        dynamic_liquidity_mode: spec_u8(b, 362),
        liquidity_cap: spec_u128(b, 363),
        liquidity_multiplier: spec_u64(b, 379),
        last_update_timestamp: spec_i64(b, 387),
        last_update_slot: spec_u64(b, 395),
        volume_24h: spec_u64(b, 403),
        fees_24h: spec_u64(b, 411),
    }
}

/// Reads a concentrated-liquidity account; bytes past the layout are ignored.
pub fn parse_whirlpool_data(data: &[u8]) -> (r: Result<WhirlpoolData, DecodeError>)
    ensures
        data@.len() < WHIRLPOOL_SIZE <==> r == Err::<WhirlpoolData, DecodeError>(DecodeError::InsufficientBytes),
        data@.len() >= WHIRLPOOL_SIZE ==> r == Ok::<WhirlpoolData, DecodeError>(whirlpool_layout(data@)),
{
    if data.len() < WHIRLPOOL_SIZE {
        return Err(DecodeError::InsufficientBytes);
    }
    Ok(WhirlpoolData {
        token_mint_a: read_address(data, 0),
        token_vault_a: read_address(data, 32),
        token_mint_b: read_address(data, 64),
        token_vault_b: read_address(data, 96),
        tick_spacing: read_u16(data, 128),
        fee_rate: read_u16(data, 130),
        protocol_fee_rate: read_u16(data, 132),
        liquidity: read_u128(data, 134),
        sqrt_price: read_u128(data, 150),
        tick_current_index: read_i32(data, 166),
        price_threshold: read_u64(data, 170),
        fee_growth_global_a: read_u128(data, 178),
        fee_growth_global_b: read_u128(data, 194),
        protocol_fee_owed_a: read_u64(data, 210),
        protocol_fee_owed_b: read_u64(data, 218),
    })
}

/// Reads an order-book account; bytes past the layout are ignored.
pub fn parse_raydium_data(data: &[u8]) -> (r: Result<RaydiumData, DecodeError>)
    ensures
        data@.len() < RAYDIUM_SIZE <==> r == Err::<RaydiumData, DecodeError>(DecodeError::InsufficientBytes),
        data@.len() >= RAYDIUM_SIZE ==> r == Ok::<RaydiumData, DecodeError>(raydium_layout(data@)),
{
    if data.len() < RAYDIUM_SIZE {
        return Err(DecodeError::InsufficientBytes);
    }
    Ok(RaydiumData {
        status: read_u64(data, 0),
        pool_state: read_u64(data, 8),
        amm_id: read_address(data, 16),
        market_id: read_address(data, 48),
        token_a: read_address(data, 80),
        token_b: read_address(data, 112),
        lp_mint: read_address(data, 144),
        open_orders: read_address(data, 176),
        needs_withdraw: read_u64(data, 208),
        recent_slot: read_u64(data, 216),
        last_order_slot: read_u64(data, 224),
        total_lp: read_u64(data, 232),
        base_need_take: read_u64(data, 240),
        quote_need_take: read_u64(data, 248),
        base_decimal: read_u64(data, 256),
        quote_decimal: read_u64(data, 264),
        min_price: read_u64(data, 272),
        max_price: read_u64(data, 280),
        vol_max_cut_ratio: read_u64(data, 288),
        fee_numerator: read_u64(data, 296),
        fee_denominator: read_u64(data, 304),
        ret_fee_numerator: read_u64(data, 312),
        ret_fee_denominator: read_u64(data, 320),
        punish_pc_amount: read_u64(data, 328),
        punish_coin_amount: read_u64(data, 336),
        orders_num: read_u64(data, 344),
        depth: read_u64(data, 352),
        open_time: read_u64(data, 360),
        switch_time: read_u64(data, 368),
    })
}

/// Reads a dynamic-liquidity account; bytes past the layout are ignored.
pub fn parse_meteora_data(data: &[u8]) -> (r: Result<MeteoraData, DecodeError>)
    ensures
        data@.len() < METEORA_SIZE <==> r == Err::<MeteoraData, DecodeError>(DecodeError::InsufficientBytes),
        data@.len() >= METEORA_SIZE ==> r == Ok::<MeteoraData, DecodeError>(meteora_layout(data@)),
{
    if data.len() < METEORA_SIZE {
        return Err(DecodeError::InsufficientBytes);
    }
    Ok(MeteoraData {
        pool_id: read_address(data, 0),
        authority: read_address(data, 32),
        token_mint_a: read_address(data, 64),
        token_mint_b: read_address(data, 96),
        token_vault_a: read_address(data, 128),
        token_vault_b: read_address(data, 160),
        lp_mint: read_address(data, 192),
        total_lp: read_u64(data, 224),
        liquidity: read_u128(data, 232),
        sqrt_price: read_u128(data, 248),
        current_tick_index: read_i32(data, 264),
        tick_spacing: read_u16(data, 268),
        fee_rate: read_u16(data, 270),
        protocol_fee_rate: read_u16(data, 272),
        fee_growth_global_a: read_u128(data, 274),
        fee_growth_global_b: read_u128(data, 290),
        fee_protocol_token_a: read_u64(data, 306),
        fee_protocol_token_b: read_u64(data, 314),
        max_price_sqrt: read_u128(data, 322),
        min_price_sqrt: read_u128(data, 338),
        max_tick_index: read_i32(data, 354),
        min_tick_index: read_i32(data, 358),
        dynamic_liquidity_mode: read_u8(data, 362),
        liquidity_cap: read_u128(data, 363),
        liquidity_multiplier: read_u64(data, 379),
        last_update_timestamp: read_i64(data, 387),
        last_update_slot: read_u64(data, 395),
        volume_24h: read_u64(data, 403),
        fees_24h: read_u64(data, 411),
    })
}

/// What standard, padded base64 decoding makes of a text; `None` where the text is malformed.
pub uninterp spec fn base64_decoded(s: Seq<char>) -> Option<Seq<u8>>;

/// What zstd decompression makes of a byte stream; `None` where the stream is malformed.
pub uninterp spec fn zstd_decoded(b: Seq<u8>) -> Option<Seq<u8>>;

/// Relies on `base64::decode` (standard alphabet, padding required): the bytes
/// depend on the text alone, and malformed text is an error.
#[verifier::external_body]
#[allow(deprecated)]
fn base64_decode(s: &str) -> (r: Option<Vec<u8>>)
    ensures
        r is Some <==> base64_decoded(s@) is Some,
        r is Some ==> r->Some_0@ == base64_decoded(s@)->Some_0,
{
    match base64::decode(s) {
        Ok(v) => Some(v),
        Err(_) => None,
    }
}

/// Relies on `zstd::decode_all`: the decompressed bytes depend on the input alone,
/// and a malformed stream is an error.
#[verifier::external_body]
fn zstd_decode(b: &[u8]) -> (r: Option<Vec<u8>>)
    ensures
        r is Some <==> zstd_decoded(b@) is Some,
        r is Some ==> r->Some_0@ == zstd_decoded(b@)->Some_0,
{
    match zstd::decode_all(b) {
        Ok(v) => Some(v),
        Err(_) => None,
    }
}

/// What base58 decoding (Bitcoin alphabet) makes of a text; `None` on an invalid character.
pub uninterp spec fn base58_decoded(s: Seq<char>) -> Option<Seq<u8>>;

/// Relies on `bs58::decode(..).into_vec()` with its default (Bitcoin) alphabet:
/// the bytes depend on the text alone, and an invalid character is an error.
#[verifier::external_body]
fn base58_decode(s: &str) -> (r: Option<Vec<u8>>)
    ensures
        r is Some <==> base58_decoded(s@) is Some,
        r is Some ==> r->Some_0@ == base58_decoded(s@)->Some_0,
{
    match bs58::decode(s).into_vec() {
        Ok(v) => Some(v),
        Err(_) => None,
    }
}

/// An address from exactly 32 bytes.
pub fn address_from_bytes(bytes: &[u8]) -> (r: Option<Address>)
    ensures
        r is Some <==> bytes@.len() == 32,
        r is Some ==> r->Some_0 == spec_address(bytes@, 0),
{
    if bytes.len() != 32 {
        return None;
    }
    Some(read_address(bytes, 0))
}

/// The address written in base58 text, as account ids are.
pub open spec fn spec_parse_address(s: Seq<char>) -> Option<Address> {
    match base58_decoded(s) {
        Some(b) => if b.len() == 32 {
            Some(spec_address(b, 0))
        } else {
            None
        },
        None => None,
    }
}

/// Reads an address written in base58 text; none unless it decodes to 32 bytes.
pub fn parse_address(s: &str) -> (r: Option<Address>)
    ensures
        r == spec_parse_address(s@),
{
    match base58_decode(s) {
        Some(b) => address_from_bytes(b.as_slice()),
        None => None,
    }
}

/// The account bytes behind a base64 text of a zstd stream.
pub open spec fn spec_decode_base64_zstd(s: Seq<char>) -> Result<Seq<u8>, DecodeError> {
    match base64_decoded(s) {
        None => Err(DecodeError::CodecError),
        Some(z) => match zstd_decoded(z) {
            None => Err(DecodeError::CodecError),
            Some(d) => Ok(d),
        },
    }
}

/// Decodes base64 text, then decompresses the zstd stream it holds.
pub fn decode_base64_zstd(encoded_data: &str) -> (r: Result<Vec<u8>, DecodeError>)
    ensures
        r is Ok <==> spec_decode_base64_zstd(encoded_data@) is Ok,
        r is Ok ==> r->Ok_0@ == spec_decode_base64_zstd(encoded_data@)->Ok_0,
        r is Err ==> r == Err::<Vec<u8>, DecodeError>(DecodeError::CodecError),
{
    match base64_decode(encoded_data) {
        None => Err(DecodeError::CodecError),
        Some(z) => match zstd_decode(z.as_slice()) {
            None => Err(DecodeError::CodecError),
            Some(d) => Ok(d),
        },
    }
}

/// The account of family `dex` read from decompressed bytes.
pub open spec fn spec_parse_pool_data(b: Seq<u8>, dex: DexType) -> Result<PoolData, DecodeError> {
    match dex {
        DexType::Orca => if b.len() < WHIRLPOOL_SIZE {
            Err(DecodeError::InsufficientBytes)
        } else {
            Ok(PoolData::Whirlpool(whirlpool_layout(b)))
        },
        DexType::Raydium => if b.len() < RAYDIUM_SIZE {
            Err(DecodeError::InsufficientBytes)
        } else {
            Ok(PoolData::Raydium(raydium_layout(b)))
        },
        DexType::Meteora => if b.len() < METEORA_SIZE {
            Err(DecodeError::InsufficientBytes)
        } else {
            Ok(PoolData::Meteora(meteora_layout(b)))
        },
    }
}

/// Reads the account of family `dex` from decompressed bytes.
pub fn parse_pool_data(data: &[u8], dex: DexType) -> (r: Result<PoolData, DecodeError>)
    ensures
        r == spec_parse_pool_data(data@, dex),
{
    match dex {
        DexType::Orca => match parse_whirlpool_data(data) {
            Ok(d) => Ok(PoolData::Whirlpool(d)),
            Err(e) => Err(e),
        },
        DexType::Raydium => match parse_raydium_data(data) {
            Ok(d) => Ok(PoolData::Raydium(d)),
            Err(e) => Err(e),
        },
        DexType::Meteora => match parse_meteora_data(data) {
            Ok(d) => Ok(PoolData::Meteora(d)),
            Err(e) => Err(e),
        },
    }
}

/// The only payload encoding that is decoded.
pub open spec fn supported_encoding(encoding: Seq<char>) -> bool {
    encoding == seq!['b', 'a', 's', 'e', '6', '4', '+', 'z', 's', 't', 'd']
}

/// Decodes an account update of family `dex` sent in `encoding`.
pub fn decode_pool(encoded_data: &str, encoding: &str, dex: DexType) -> (r: Result<PoolData, DecodeError>)
    ensures
        !supported_encoding(encoding@) ==> r == Err::<PoolData, DecodeError>(DecodeError::UnsupportedEncoding),
        supported_encoding(encoding@) ==> r == match spec_decode_base64_zstd(encoded_data@) {
            Err(e) => Err(e),
            Ok(b) => spec_parse_pool_data(b, dex),
        },
{
    if !is_base64_zstd(encoding) {
        return Err(DecodeError::UnsupportedEncoding);
    }
    match decode_base64_zstd(encoded_data) {
        Err(e) => Err(e),
        Ok(b) => parse_pool_data(b.as_slice(), dex),
    }
}

/// Whether the encoding tag names base64 over zstd.
pub fn is_base64_zstd(encoding: &str) -> (r: bool)
    ensures
        r == supported_encoding(encoding@),
{
    let expected = "base64+zstd";
    proof {
        reveal_strlit("base64+zstd");
    }
    let a = encoding.as_bytes();
    let b = expected.as_bytes();
    proof {
        vstd::utf8::encode_utf8_decode_utf8(encoding@);
        vstd::utf8::encode_utf8_decode_utf8(expected@);
        assert(expected@ =~= seq!['b', 'a', 's', 'e', '6', '4', '+', 'z', 's', 't', 'd']);
    }
    if a.len() != b.len() {
        return false;
    }
    let mut i: usize = 0;
    let mut same = true;
    while i < a.len()
        invariant
            a@.len() == b@.len(),
            i <= a@.len(),
            same == forall|k: int| 0 <= k < i ==> a@[k] == b@[k],
        decreases a@.len() - i,
    {
        if a[i] != b[i] {
            same = false;
        }
        i = i + 1;
    }
    if same {
        assert(a@ =~= b@);
    } else {
        assert(a@ != b@);
    }
    same
}

} // verus!
