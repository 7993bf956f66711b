use vstd::prelude::*;
use crate::decoder::{MeteoraData, PoolData, RaydiumData, WhirlpoolData};
use crate::types::{Address, DexType};

verus! {

/// Stored state of a concentrated-liquidity pool.
#[derive(Debug, Clone, Copy, PartialEq, Eq, Structural)]
pub struct OrcaPoolStateBase {
    pub pool_address: Address,
    pub token_mint_a: Address,
    pub token_vault_a: Address,
    pub token_mint_b: Address,
    pub token_vault_b: Address,
    pub tick_spacing: u16,
    pub fee_rate: u16,
    pub protocol_fee_rate: u16,
    pub liquidity: u128,
    pub sqrt_price: u128,
    pub tick_current_index: i32,
    pub price_threshold: u64,
    pub fee_growth_global_a: u128,
    pub fee_growth_global_b: u128,
    pub protocol_fee_owed_a: u64,
    pub protocol_fee_owed_b: u64,
    pub volume_24h: u64,
    pub tvl: u64,
    pub fees_24h: u64,
    pub is_active: bool,
}

/// Stored state of an order-book pool.
#[derive(Debug, Clone, Copy, PartialEq, Eq, Structural)]
pub struct RaydiumPoolStateBase {
    pub pool_address: Address,
    pub status: u64,
    pub pool_state: u64,
    pub amm_id: Address,
    pub market_id: Address,
    pub token_a: Address,
    pub token_b: Address,
    pub lp_mint: Address,
    pub open_orders: Address,
    pub needs_withdraw: u64,
    pub recent_slot: u64,
    pub last_order_slot: u64,
    pub total_lp: u64,
    pub base_need_take: u64,
    pub quote_need_take: u64,
    pub base_decimal: u64,
    pub quote_decimal: u64,
    pub min_price: u64,
    pub max_price: u64,
    pub vol_max_cut_ratio: u64,
    pub fee_numerator: u64,
    pub fee_denominator: u64,
    pub ret_fee_numerator: u64,
    pub ret_fee_denominator: u64,
    pub punish_pc_amount: u64,
    pub punish_coin_amount: u64,
    pub orders_num: u64,
    pub depth: u64,
    pub open_time: u64,
    pub switch_time: u64,
}

/// Stored state of a dynamic-liquidity pool.
#[derive(Debug, Clone, Copy, PartialEq, Eq, Structural)]
pub struct MeteoraPoolStateBase {
    pub pool_address: Address,
    pub pool_id: Address,
    pub authority: Address,
    pub token_mint_a: Address,
    pub token_mint_b: Address,
    pub token_vault_a: Address,
    pub token_vault_b: Address,
    pub lp_mint: Address,
    pub total_lp: u64,
    pub liquidity: u128,
    pub sqrt_price: u128,
    pub current_tick_index: i32,
    pub tick_spacing: u16,
    pub fee_rate: u16,
    pub protocol_fee_rate: u16,
    pub fee_growth_global_a: u128,
    pub fee_growth_global_b: u128,
    pub fee_protocol_token_a: u64,
    pub fee_protocol_token_b: u64,
    pub max_price_sqrt: u128,
    pub min_price_sqrt: u128,
    pub max_tick_index: i32,
    pub min_tick_index: i32,
    pub dynamic_liquidity_mode: u8,
    pub liquidity_cap: u128,
    pub liquidity_multiplier: u64,
    pub last_update_timestamp: i64,
    pub last_update_slot: u64,
    pub volume_24h: u64,
    pub fees_24h: u64,
}

/// A concentrated-liquidity pool is live unless a mint or a vault is the zero address.
pub open spec fn whirlpool_active(d: WhirlpoolData) -> bool {
    !(d.token_mint_a.spec_is_zero() || d.token_mint_b.spec_is_zero() || d.token_vault_a.spec_is_zero()
        || d.token_vault_b.spec_is_zero())
}

/// Some meaningful field of the stored state differs from the fresh account.
pub open spec fn orca_changed(s: OrcaPoolStateBase, d: WhirlpoolData) -> bool {
    s.is_active != whirlpool_active(d)
        || s.sqrt_price != d.sqrt_price
        || s.price_threshold != d.price_threshold
        || s.liquidity != d.liquidity
        || s.tick_current_index != d.tick_current_index
        || s.fee_rate != d.fee_rate
        || s.protocol_fee_rate != d.protocol_fee_rate
        || s.fee_growth_global_a != d.fee_growth_global_a
        || s.fee_growth_global_b != d.fee_growth_global_b
        || s.protocol_fee_owed_a != d.protocol_fee_owed_a
        || s.protocol_fee_owed_b != d.protocol_fee_owed_b
}

/// The stored state after taking the meaningful fields of the fresh account.
pub open spec fn orca_updated(s: OrcaPoolStateBase, d: WhirlpoolData) -> OrcaPoolStateBase {
    OrcaPoolStateBase {
            is_active: whirlpool_active(d),
            sqrt_price: d.sqrt_price,
            price_threshold: d.price_threshold,
            liquidity: d.liquidity,
            tick_current_index: d.tick_current_index,
            fee_rate: d.fee_rate,
            protocol_fee_rate: d.protocol_fee_rate,
            fee_growth_global_a: d.fee_growth_global_a,
            fee_growth_global_b: d.fee_growth_global_b,
            protocol_fee_owed_a: d.protocol_fee_owed_a,
            protocol_fee_owed_b: d.protocol_fee_owed_b,
            ..s
    }
}

/// An order-book pool is live when its status, state flag and opening time are
/// set and neither token mint is the zero address.
pub open spec fn raydium_active(d: RaydiumData) -> bool {
    !d.token_a.spec_is_zero() && !d.token_b.spec_is_zero() && d.status != 0 && d.pool_state != 0 && d.open_time != 0
}

/// The status kept for a fresh account: its own when live, zero otherwise.
pub open spec fn raydium_status(d: RaydiumData) -> u64 {
    if raydium_active(d) {
        d.status
    } else {
        0
    }
}

pub open spec fn raydium_changed(s: RaydiumPoolStateBase, d: RaydiumData) -> bool {
    s.status != raydium_status(d)
        || s.pool_state != d.pool_state
        || s.total_lp != d.total_lp
        || s.min_price != d.min_price
        || s.max_price != d.max_price
        || s.orders_num != d.orders_num
        || s.depth != d.depth
        || s.base_need_take != d.base_need_take
        || s.quote_need_take != d.quote_need_take
        || s.fee_numerator != d.fee_numerator
        || s.fee_denominator != d.fee_denominator
        || s.recent_slot != d.recent_slot
}

pub open spec fn raydium_updated(s: RaydiumPoolStateBase, d: RaydiumData) -> RaydiumPoolStateBase {
    RaydiumPoolStateBase {
            status: raydium_status(d),
            pool_state: d.pool_state,
            total_lp: d.total_lp,
            min_price: d.min_price,
            max_price: d.max_price,
            orders_num: d.orders_num,
            depth: d.depth,
            base_need_take: d.base_need_take,
            quote_need_take: d.quote_need_take,
            fee_numerator: d.fee_numerator,
            fee_denominator: d.fee_denominator,
            recent_slot: d.recent_slot,
            ..s
    }
}

/// A dynamic-liquidity pool is live when its authority and vaults are set, its
/// dynamic mode is on and its liquidity cap is positive.
pub open spec fn meteora_active(d: MeteoraData) -> bool {
    !d.authority.spec_is_zero() && !d.token_vault_a.spec_is_zero() && !d.token_vault_b.spec_is_zero()
        && d.dynamic_liquidity_mode != 0 && d.liquidity_cap > 0
}

/// The dynamic mode kept for a fresh account: its own when live, zero otherwise.
pub open spec fn meteora_mode(d: MeteoraData) -> u8 {
    if meteora_active(d) {
        d.dynamic_liquidity_mode
    } else {
        0
    }
}

pub open spec fn meteora_changed(s: MeteoraPoolStateBase, d: MeteoraData) -> bool {
    s.dynamic_liquidity_mode != meteora_mode(d)
        || s.authority != d.authority
        || s.liquidity != d.liquidity
        || s.sqrt_price != d.sqrt_price
        || s.current_tick_index != d.current_tick_index
        || s.liquidity_multiplier != d.liquidity_multiplier
        || s.max_tick_index != d.max_tick_index
        || s.min_tick_index != d.min_tick_index
        || s.fee_rate != d.fee_rate
        || s.protocol_fee_rate != d.protocol_fee_rate
        || s.fee_growth_global_a != d.fee_growth_global_a
        || s.fee_growth_global_b != d.fee_growth_global_b
        || s.liquidity_cap != d.liquidity_cap
        || s.volume_24h != d.volume_24h
        || s.fees_24h != d.fees_24h
}

pub open spec fn meteora_updated(s: MeteoraPoolStateBase, d: MeteoraData) -> MeteoraPoolStateBase {
    MeteoraPoolStateBase {
            dynamic_liquidity_mode: meteora_mode(d),
            authority: d.authority,
            liquidity: d.liquidity,
            sqrt_price: d.sqrt_price,
            current_tick_index: d.current_tick_index,
            liquidity_multiplier: d.liquidity_multiplier,
            max_tick_index: d.max_tick_index,
            min_tick_index: d.min_tick_index,
            fee_rate: d.fee_rate,
            protocol_fee_rate: d.protocol_fee_rate,
            fee_growth_global_a: d.fee_growth_global_a,
            fee_growth_global_b: d.fee_growth_global_b,
            liquidity_cap: d.liquidity_cap,
            volume_24h: d.volume_24h,
            fees_24h: d.fees_24h,
            ..s
    }
}

impl OrcaPoolStateBase {
    /// The state of a pool first seen with this account.
    pub open spec fn from_whirlpool_spec(pool_address: Address, data: WhirlpoolData) -> OrcaPoolStateBase {
        OrcaPoolStateBase {
            pool_address,
            token_mint_a: data.token_mint_a,
            token_vault_a: data.token_vault_a,
            token_mint_b: data.token_mint_b,
            token_vault_b: data.token_vault_b,
            tick_spacing: data.tick_spacing,
            fee_rate: data.fee_rate,
            protocol_fee_rate: data.protocol_fee_rate,
            liquidity: data.liquidity,
            sqrt_price: data.sqrt_price,
            tick_current_index: data.tick_current_index,
            price_threshold: data.price_threshold,
            fee_growth_global_a: data.fee_growth_global_a,
            fee_growth_global_b: data.fee_growth_global_b,
            protocol_fee_owed_a: data.protocol_fee_owed_a,
            protocol_fee_owed_b: data.protocol_fee_owed_b,
            volume_24h: 0,
            tvl: 0,
            fees_24h: 0,
            is_active: whirlpool_active(data),
        }
    }

    /// Takes the meaningful fields of a fresh account; returns whether any differed.
    pub fn update(&mut self, new_state: &WhirlpoolData) -> (r: bool)
        ensures
            r == orca_changed(*old(self), *new_state),
            *final(self) == orca_updated(*old(self), *new_state),
    {
        let mut changed = false;
        let new_is_active = !(new_state.token_mint_a.is_zero() || new_state.token_mint_b.is_zero()
            || new_state.token_vault_a.is_zero() || new_state.token_vault_b.is_zero());
        if self.is_active != new_is_active {
            self.is_active = new_is_active;
            changed = true;
        }
        changed = changed || self.sqrt_price != new_state.sqrt_price;
        self.sqrt_price = new_state.sqrt_price;
        changed = changed || self.price_threshold != new_state.price_threshold;
        self.price_threshold = new_state.price_threshold;
        changed = changed || self.liquidity != new_state.liquidity;
        self.liquidity = new_state.liquidity;
        changed = changed || self.tick_current_index != new_state.tick_current_index;
        self.tick_current_index = new_state.tick_current_index;
        changed = changed || self.fee_rate != new_state.fee_rate;
        self.fee_rate = new_state.fee_rate;
        changed = changed || self.protocol_fee_rate != new_state.protocol_fee_rate;
        self.protocol_fee_rate = new_state.protocol_fee_rate;
        changed = changed || self.fee_growth_global_a != new_state.fee_growth_global_a;
        self.fee_growth_global_a = new_state.fee_growth_global_a;
        changed = changed || self.fee_growth_global_b != new_state.fee_growth_global_b;
        self.fee_growth_global_b = new_state.fee_growth_global_b;
        changed = changed || self.protocol_fee_owed_a != new_state.protocol_fee_owed_a;
        self.protocol_fee_owed_a = new_state.protocol_fee_owed_a;
        changed = changed || self.protocol_fee_owed_b != new_state.protocol_fee_owed_b;
        self.protocol_fee_owed_b = new_state.protocol_fee_owed_b;
        changed
    }

    /// The state of a pool first seen with this account.
    pub fn from_whirlpool(pool_address: Address, data: &WhirlpoolData) -> (r: OrcaPoolStateBase)
        ensures
            r == OrcaPoolStateBase::from_whirlpool_spec(pool_address, *data),
    {
        OrcaPoolStateBase {
            pool_address,
            token_mint_a: data.token_mint_a,
            token_vault_a: data.token_vault_a,
            token_mint_b: data.token_mint_b,
            token_vault_b: data.token_vault_b,
            tick_spacing: data.tick_spacing,
            fee_rate: data.fee_rate,
            protocol_fee_rate: data.protocol_fee_rate,
            liquidity: data.liquidity,
            sqrt_price: data.sqrt_price,
            tick_current_index: data.tick_current_index,
            price_threshold: data.price_threshold,
            fee_growth_global_a: data.fee_growth_global_a,
            fee_growth_global_b: data.fee_growth_global_b,
            protocol_fee_owed_a: data.protocol_fee_owed_a,
            protocol_fee_owed_b: data.protocol_fee_owed_b,
            volume_24h: 0,
            tvl: 0,
            fees_24h: 0,
            is_active: !(data.token_mint_a.is_zero() || data.token_mint_b.is_zero() || data.token_vault_a.is_zero()
                || data.token_vault_b.is_zero()),
        }
    }
}

impl RaydiumPoolStateBase {
    /// The state of a pool first seen with this account.
    pub open spec fn from_raydium_spec(pool_address: Address, data: RaydiumData) -> RaydiumPoolStateBase {
        RaydiumPoolStateBase {
        status: raydium_status(data),
        pool_state: data.pool_state,
        amm_id: data.amm_id,
        market_id: data.market_id,
        token_a: data.token_a,
        token_b: data.token_b,
        lp_mint: data.lp_mint,
        open_orders: data.open_orders,
        needs_withdraw: data.needs_withdraw,
        recent_slot: data.recent_slot,
        last_order_slot: data.last_order_slot,
        total_lp: data.total_lp,
        base_need_take: data.base_need_take,
        quote_need_take: data.quote_need_take,
        base_decimal: data.base_decimal,
        quote_decimal: data.quote_decimal,
        min_price: data.min_price,
        max_price: data.max_price,
        vol_max_cut_ratio: data.vol_max_cut_ratio,
        fee_numerator: data.fee_numerator,
        fee_denominator: data.fee_denominator,
        ret_fee_numerator: data.ret_fee_numerator,
        ret_fee_denominator: data.ret_fee_denominator,
        punish_pc_amount: data.punish_pc_amount,
        punish_coin_amount: data.punish_coin_amount,
        orders_num: data.orders_num,
        depth: data.depth,
        open_time: data.open_time,
        switch_time: data.switch_time,
        pool_address,
        }
    }

    /// Takes the meaningful fields of a fresh account; returns whether any differed.
    /// The stored status is zero while the pool is not live.
    pub fn update(&mut self, new_state: &RaydiumData) -> (r: bool)
        ensures
            r == raydium_changed(*old(self), *new_state),
            *final(self) == raydium_updated(*old(self), *new_state),
    {
        let mut changed = false;
        let new_is_active = !new_state.token_a.is_zero() && !new_state.token_b.is_zero() && new_state.status != 0
            && new_state.pool_state != 0 && new_state.open_time != 0;
        let new_status = if new_is_active {
            new_state.status
        } else {
            0
        };
        changed = changed || self.status != new_status;
        self.status = new_status;
        changed = changed || self.pool_state != new_state.pool_state;
        self.pool_state = new_state.pool_state;
        changed = changed || self.total_lp != new_state.total_lp;
        self.total_lp = new_state.total_lp;
        changed = changed || self.min_price != new_state.min_price;
        self.min_price = new_state.min_price;
        changed = changed || self.max_price != new_state.max_price;
        self.max_price = new_state.max_price;
        changed = changed || self.orders_num != new_state.orders_num;
        self.orders_num = new_state.orders_num;
        changed = changed || self.depth != new_state.depth;
        self.depth = new_state.depth;
        changed = changed || self.base_need_take != new_state.base_need_take;
        self.base_need_take = new_state.base_need_take;
        changed = changed || self.quote_need_take != new_state.quote_need_take;
        self.quote_need_take = new_state.quote_need_take;
        changed = changed || self.fee_numerator != new_state.fee_numerator;
        self.fee_numerator = new_state.fee_numerator;
        changed = changed || self.fee_denominator != new_state.fee_denominator;
        self.fee_denominator = new_state.fee_denominator;
        changed = changed || self.recent_slot != new_state.recent_slot;
        self.recent_slot = new_state.recent_slot;
        changed
    }

    /// The state of a pool first seen with this account.
    pub fn from_raydium(pool_address: Address, data: &RaydiumData) -> (r: RaydiumPoolStateBase)
        ensures
            r == RaydiumPoolStateBase::from_raydium_spec(pool_address, *data),
    {
        RaydiumPoolStateBase {
            pool_address,
            status: if !data.token_a.is_zero() && !data.token_b.is_zero() && data.status != 0 && data.pool_state != 0
                && data.open_time != 0 {
                data.status
            } else {
                0
            },
            pool_state: data.pool_state,
            amm_id: data.amm_id,
            market_id: data.market_id,
            token_a: data.token_a,
            token_b: data.token_b,
            lp_mint: data.lp_mint,
            open_orders: data.open_orders,
            needs_withdraw: data.needs_withdraw,
            recent_slot: data.recent_slot,
            last_order_slot: data.last_order_slot,
            total_lp: data.total_lp,
            base_need_take: data.base_need_take,
            quote_need_take: data.quote_need_take,
            base_decimal: data.base_decimal,
            quote_decimal: data.quote_decimal,
            min_price: data.min_price,
            max_price: data.max_price,
            vol_max_cut_ratio: data.vol_max_cut_ratio,
            fee_numerator: data.fee_numerator,
            fee_denominator: data.fee_denominator,
            ret_fee_numerator: data.ret_fee_numerator,
            ret_fee_denominator: data.ret_fee_denominator,
            punish_pc_amount: data.punish_pc_amount,
            punish_coin_amount: data.punish_coin_amount,
            orders_num: data.orders_num,
            depth: data.depth,
            open_time: data.open_time,
            switch_time: data.switch_time,
        }
    }
}

impl MeteoraPoolStateBase {
    /// The state of a pool first seen with this account.
    pub open spec fn from_meteora_spec(pool_address: Address, data: MeteoraData) -> MeteoraPoolStateBase {
        MeteoraPoolStateBase {
            pool_id: data.pool_id,
            authority: data.authority,
            token_mint_a: data.token_mint_a,
            token_mint_b: data.token_mint_b,
            token_vault_a: data.token_vault_a,
            token_vault_b: data.token_vault_b,
            lp_mint: data.lp_mint,
            total_lp: data.total_lp,
            liquidity: data.liquidity,
            sqrt_price: data.sqrt_price,
            current_tick_index: data.current_tick_index,
            tick_spacing: data.tick_spacing,
            fee_rate: data.fee_rate,
            protocol_fee_rate: data.protocol_fee_rate,
            fee_growth_global_a: data.fee_growth_global_a,
            fee_growth_global_b: data.fee_growth_global_b,
            fee_protocol_token_a: data.fee_protocol_token_a,
            fee_protocol_token_b: data.fee_protocol_token_b,
            max_price_sqrt: data.max_price_sqrt,
            min_price_sqrt: data.min_price_sqrt,
            max_tick_index: data.max_tick_index,
            min_tick_index: data.min_tick_index,
            dynamic_liquidity_mode: meteora_mode(data),
            liquidity_cap: data.liquidity_cap,
            liquidity_multiplier: data.liquidity_multiplier,
            last_update_timestamp: data.last_update_timestamp,
            last_update_slot: data.last_update_slot,
            volume_24h: data.volume_24h,
            fees_24h: data.fees_24h,
            pool_address,
        }
    }

    /// Takes the meaningful fields of a fresh account; returns whether any differed.
    pub fn update(&mut self, new_state: &MeteoraData) -> (r: bool)
        ensures
            r == meteora_changed(*old(self), *new_state),
            *final(self) == meteora_updated(*old(self), *new_state),
    {
        let mut changed = false;
        let new_is_active = !new_state.authority.is_zero() && !new_state.token_vault_a.is_zero()
            && !new_state.token_vault_b.is_zero() && new_state.dynamic_liquidity_mode != 0
            && new_state.liquidity_cap > 0;
        let new_mode = if new_is_active {
            new_state.dynamic_liquidity_mode
        } else {
            0
        };
        changed = changed || self.dynamic_liquidity_mode != new_mode;
        self.dynamic_liquidity_mode = new_mode;
        changed = changed || self.authority != new_state.authority;
        self.authority = new_state.authority;
        changed = changed || self.liquidity != new_state.liquidity;
        self.liquidity = new_state.liquidity;
        changed = changed || self.sqrt_price != new_state.sqrt_price;
        self.sqrt_price = new_state.sqrt_price;
        changed = changed || self.current_tick_index != new_state.current_tick_index;
        self.current_tick_index = new_state.current_tick_index;
        changed = changed || self.liquidity_multiplier != new_state.liquidity_multiplier;
        self.liquidity_multiplier = new_state.liquidity_multiplier;
        changed = changed || self.max_tick_index != new_state.max_tick_index;
        self.max_tick_index = new_state.max_tick_index;
        changed = changed || self.min_tick_index != new_state.min_tick_index;
        self.min_tick_index = new_state.min_tick_index;
        changed = changed || self.fee_rate != new_state.fee_rate;
        self.fee_rate = new_state.fee_rate;
        changed = changed || self.protocol_fee_rate != new_state.protocol_fee_rate;
        self.protocol_fee_rate = new_state.protocol_fee_rate;
        changed = changed || self.fee_growth_global_a != new_state.fee_growth_global_a;
        self.fee_growth_global_a = new_state.fee_growth_global_a;
        changed = changed || self.fee_growth_global_b != new_state.fee_growth_global_b;
        self.fee_growth_global_b = new_state.fee_growth_global_b;
        changed = changed || self.liquidity_cap != new_state.liquidity_cap;
        self.liquidity_cap = new_state.liquidity_cap;
        changed = changed || self.volume_24h != new_state.volume_24h;
        self.volume_24h = new_state.volume_24h;
        changed = changed || self.fees_24h != new_state.fees_24h;
        self.fees_24h = new_state.fees_24h;
        changed
    }

    /// The state of a pool first seen with this account.
    pub fn from_meteora(pool_address: Address, data: &MeteoraData) -> (r: MeteoraPoolStateBase)
        ensures
            r == MeteoraPoolStateBase::from_meteora_spec(pool_address, *data),
    {
        MeteoraPoolStateBase {
            pool_address,
            pool_id: data.pool_id,
            authority: data.authority,
            token_mint_a: data.token_mint_a,
            token_mint_b: data.token_mint_b,
            token_vault_a: data.token_vault_a,
            token_vault_b: data.token_vault_b,
            lp_mint: data.lp_mint,
            total_lp: data.total_lp,
            liquidity: data.liquidity,
            sqrt_price: data.sqrt_price,
            current_tick_index: data.current_tick_index,
            tick_spacing: data.tick_spacing,
            fee_rate: data.fee_rate,
            protocol_fee_rate: data.protocol_fee_rate,
            fee_growth_global_a: data.fee_growth_global_a,
            fee_growth_global_b: data.fee_growth_global_b,
            fee_protocol_token_a: data.fee_protocol_token_a,
            fee_protocol_token_b: data.fee_protocol_token_b,
            max_price_sqrt: data.max_price_sqrt,
            min_price_sqrt: data.min_price_sqrt,
            max_tick_index: data.max_tick_index,
            min_tick_index: data.min_tick_index,
            dynamic_liquidity_mode: if !data.authority.is_zero() && !data.token_vault_a.is_zero()
                && !data.token_vault_b.is_zero() && data.dynamic_liquidity_mode != 0 && data.liquidity_cap > 0 {
                data.dynamic_liquidity_mode
            } else {
                0
            },
            liquidity_cap: data.liquidity_cap,
            liquidity_multiplier: data.liquidity_multiplier,
            last_update_timestamp: data.last_update_timestamp,
            last_update_slot: data.last_update_slot,
            volume_24h: data.volume_24h,
            fees_24h: data.fees_24h,
        }
    }
}

/// Stored state of a pool of any family.
#[derive(Debug, Clone, Copy, PartialEq, Eq, Structural)]
pub enum PoolStateBase {
    Orca(OrcaPoolStateBase),
    Raydium(RaydiumPoolStateBase),
    Meteora(MeteoraPoolStateBase),
}

/// Whether a fresh account changes a stored state; an account of another family changes nothing.
pub open spec fn spec_changed(s: PoolStateBase, d: PoolData) -> bool {
    match (s, d) {
        (PoolStateBase::Orca(b), PoolData::Whirlpool(x)) => orca_changed(b, x),
        (PoolStateBase::Raydium(b), PoolData::Raydium(x)) => raydium_changed(b, x),
        (PoolStateBase::Meteora(b), PoolData::Meteora(x)) => meteora_changed(b, x),
        _ => false,
    }
}

/// The stored state after a fresh account; an account of another family is ignored.
pub open spec fn spec_updated(s: PoolStateBase, d: PoolData) -> PoolStateBase {
    match (s, d) {
        (PoolStateBase::Orca(b), PoolData::Whirlpool(x)) => PoolStateBase::Orca(orca_updated(b, x)),
        (PoolStateBase::Raydium(b), PoolData::Raydium(x)) => PoolStateBase::Raydium(raydium_updated(b, x)),
        (PoolStateBase::Meteora(b), PoolData::Meteora(x)) => PoolStateBase::Meteora(meteora_updated(b, x)),
        _ => s,
    }
}

/// Delivering the same account a second time reports no change and leaves the
/// state as the first delivery made it.
pub proof fn lemma_update_idempotent(s: PoolStateBase, d: PoolData)
    ensures
        !spec_changed(spec_updated(s, d), d),
        spec_updated(spec_updated(s, d), d) == spec_updated(s, d),
{
}

/// A reported change leaves some meaningful field different from before.
pub proof fn lemma_update_changes(s: PoolStateBase, d: PoolData)
    ensures
        spec_changed(s, d) ==> spec_updated(s, d) != s,
{
}

/// Whether a pool's edge is active, from its stored state: a concentrated-liquidity
/// pool by its activity flag; an order-book pool when its status, state flag and
/// opening time are set and neither mint is zero; a dynamic-liquidity pool when
/// its authority and vaults are set, its mode is on and its cap is positive.
pub open spec fn spec_edge_active(s: PoolStateBase) -> bool {
    match s {
        PoolStateBase::Orca(b) => b.is_active,
        PoolStateBase::Raydium(b) => b.status != 0 && b.pool_state != 0 && b.open_time != 0 && !b.token_a.spec_is_zero()
            && !b.token_b.spec_is_zero(),
        PoolStateBase::Meteora(b) => !b.authority.spec_is_zero() && !b.token_vault_a.spec_is_zero()
            && !b.token_vault_b.spec_is_zero() && b.dynamic_liquidity_mode != 0 && b.liquidity_cap > 0,
    }
}

/// Whether a pool's edge is active, from its stored state.
pub fn edge_active(s: &PoolStateBase) -> (r: bool)
    ensures
        r == spec_edge_active(*s),
{
    match s {
        PoolStateBase::Orca(b) => b.is_active,
        PoolStateBase::Raydium(b) => b.status != 0 && b.pool_state != 0 && b.open_time != 0 && !b.token_a.is_zero()
            && !b.token_b.is_zero(),
        PoolStateBase::Meteora(b) => !b.authority.is_zero() && !b.token_vault_a.is_zero() && !b.token_vault_b.is_zero()
            && b.dynamic_liquidity_mode != 0 && b.liquidity_cap > 0,
    }
}

/// The state of a pool first seen with this account.
pub open spec fn spec_from_pool_data(pool_address: Address, data: PoolData) -> PoolStateBase {
    match data {
        PoolData::Whirlpool(d) => PoolStateBase::Orca(OrcaPoolStateBase::from_whirlpool_spec(pool_address, d)),
        PoolData::Raydium(d) => PoolStateBase::Raydium(RaydiumPoolStateBase::from_raydium_spec(pool_address, d)),
        PoolData::Meteora(d) => PoolStateBase::Meteora(MeteoraPoolStateBase::from_meteora_spec(pool_address, d)),
    }
}

/// The family of an account.
pub open spec fn data_family(data: PoolData) -> DexType {
    match data {
        PoolData::Whirlpool(_) => DexType::Orca,
        PoolData::Raydium(_) => DexType::Raydium,
        PoolData::Meteora(_) => DexType::Meteora,
    }
}

impl PoolStateBase {
    /// The family of the stored state.
    pub open spec fn spec_family(self) -> DexType {
        match self {
            PoolStateBase::Orca(_) => DexType::Orca,
            PoolStateBase::Raydium(_) => DexType::Raydium,
            PoolStateBase::Meteora(_) => DexType::Meteora,
        }
    }

    pub fn family(&self) -> (r: DexType)
        ensures
            r == self.spec_family(),
    {
        match self {
            PoolStateBase::Orca(_) => DexType::Orca,
            PoolStateBase::Raydium(_) => DexType::Raydium,
            PoolStateBase::Meteora(_) => DexType::Meteora,
        }
    }

    pub open spec fn spec_address(self) -> Address {
        match self {
            PoolStateBase::Orca(b) => b.pool_address,
            PoolStateBase::Raydium(b) => b.pool_address,
            PoolStateBase::Meteora(b) => b.pool_address,
        }
    }

    /// The address of the pool.
    pub fn get_address(&self) -> (r: Address)
        ensures
            r == self.spec_address(),
    {
        match self {
            PoolStateBase::Orca(b) => b.pool_address,
            PoolStateBase::Raydium(b) => b.pool_address,
            PoolStateBase::Meteora(b) => b.pool_address,
        }
    }

    /// Takes a fresh account of the same family; returns whether a meaningful field changed.
    pub fn update(&mut self, new_state: &PoolData) -> (r: bool)
        ensures
            r == spec_changed(*old(self), *new_state),
            *final(self) == spec_updated(*old(self), *new_state),
    {
        match (self, new_state) {
            (PoolStateBase::Orca(b), PoolData::Whirlpool(d)) => b.update(d),
            (PoolStateBase::Raydium(b), PoolData::Raydium(d)) => b.update(d),
            (PoolStateBase::Meteora(b), PoolData::Meteora(d)) => b.update(d),
            _ => false,
        }
    }

    /// The state of a pool first seen with this account.
    pub fn from_pool_data(pool_address: Address, data: &PoolData) -> (r: PoolStateBase)
        ensures
            r == spec_from_pool_data(pool_address, *data),
            r.spec_address() == pool_address,
    {
        match data {
            PoolData::Whirlpool(d) => PoolStateBase::Orca(OrcaPoolStateBase::from_whirlpool(pool_address, d)),
            PoolData::Raydium(d) => PoolStateBase::Raydium(RaydiumPoolStateBase::from_raydium(pool_address, d)),
            PoolData::Meteora(d) => PoolStateBase::Meteora(MeteoraPoolStateBase::from_meteora(pool_address, d)),
        }
    }
}

/// The latest state seen on the low-latency stream.
#[derive(Debug, Clone, Copy, PartialEq, Eq, Structural)]
pub struct ProcessedPoolState {
    pub base: PoolStateBase,
    pub processed_slot: u64,
    pub last_update_time: u64,
}

/// The latest state seen on the finalized stream.
#[derive(Debug, Clone, Copy, PartialEq, Eq, Structural)]
pub struct FinalizedPoolState {
    pub base: PoolStateBase,
    pub finalized_slot: u64,
    pub last_update_time: u64,
}

impl ProcessedPoolState {
    /// Applies an account observed at `slot` and received at `now`. An account
    /// older than the stored slot is dropped; a change stamps the slot and time.
    pub fn update(&mut self, pool_data: &PoolData, slot: u64, now: u64) -> (r: bool)
        ensures
            slot < old(self).processed_slot ==> !r && *final(self) == *old(self),
            slot >= old(self).processed_slot ==> r == spec_changed(old(self).base, *pool_data),
            slot >= old(self).processed_slot ==> final(self).base == spec_updated(old(self).base, *pool_data),
            slot >= old(self).processed_slot && r ==> final(self).processed_slot == slot && final(self).last_update_time
                == now,
            !r ==> final(self).processed_slot == old(self).processed_slot && final(self).last_update_time == old(
                self,
            ).last_update_time,
    {
        if slot < self.processed_slot {
            return false;
        }
        if self.base.update(pool_data) {
            self.processed_slot = slot;
            self.last_update_time = now;
            true
        } else {
            false
        }
    }
}

impl FinalizedPoolState {
    /// Applies an account observed at `slot` and received at `now`. An account
    /// older than the stored slot is dropped; a change stamps the slot and time.
    pub fn update(&mut self, pool_data: &PoolData, slot: u64, now: u64) -> (r: bool)
        ensures
            slot < old(self).finalized_slot ==> !r && *final(self) == *old(self),
            slot >= old(self).finalized_slot ==> r == spec_changed(old(self).base, *pool_data),
            slot >= old(self).finalized_slot ==> final(self).base == spec_updated(old(self).base, *pool_data),
            slot >= old(self).finalized_slot && r ==> final(self).finalized_slot == slot && final(self).last_update_time
                == now,
            !r ==> final(self).finalized_slot == old(self).finalized_slot && final(self).last_update_time == old(
                self,
            ).last_update_time,
    {
        if slot < self.finalized_slot {
            return false;
        }
        if self.base.update(pool_data) {
            self.finalized_slot = slot;
            self.last_update_time = now;
            true
        } else {
            false
        }
    }
}

} // verus!
