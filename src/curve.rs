//! The four curves behind one type.
use vstd::prelude::*;

use crate::calculator::{
    pool_tokens_to_trading_tokens, split_res, split_spec, swap_res, RoundDirection, SwapWithoutFeesResult,
    TradeDirection, TradingTokenResult, INITIAL_SWAP_POOL_AMOUNT,
};
use crate::constant_price::{price_split_spec, price_swap_spec, ConstantPriceCurve};
use crate::constant_product::{product_swap_spec, ConstantProductCurve};
use crate::error::SwapError;
use crate::offset::{offset_swap_spec, OffsetCurve};
use crate::stable::{swap_spec, StableCurve, MAX_AMP, MIN_AMP};

verus! {

/// A pool's pricing curve.
#[derive(Clone, Copy, Debug, PartialEq, Eq, Structural)]
pub enum SwapCurve {
    ConstantProduct(ConstantProductCurve),
    ConstantPrice(ConstantPriceCurve),
    Offset(OffsetCurve),
    Stable(StableCurve),
}

impl SwapCurve {
    /// What a swap on this curve gives, as the curve's own swap states it.
    pub open spec fn swap_outcome(
        self,
        source_amount: int,
        pool_source_amount: int,
        pool_destination_amount: int,
        dir: TradeDirection,
    ) -> Result<(int, int), SwapError> {
        match self {
            SwapCurve::ConstantProduct(_) => product_swap_spec(
                source_amount,
                pool_source_amount,
                pool_destination_amount,
            ),
            SwapCurve::ConstantPrice(c) => price_swap_spec(c.token_b_price as int, source_amount, dir),
            SwapCurve::Offset(c) => offset_swap_spec(
                c.token_b_offset as int,
                source_amount,
                pool_source_amount,
                pool_destination_amount,
                dir,
            ),
            SwapCurve::Stable(c) => swap_spec(
                c,
                source_amount,
                pool_source_amount,
                pool_destination_amount,
                dir,
            ),
        }
    }

    /// The trading tokens for pool tokens on this curve, as the curve's own
    /// split states them.
    pub open spec fn split_outcome(
        self,
        pool_tokens: int,
        supply: int,
        reserve_a: int,
        reserve_b: int,
        round: RoundDirection,
    ) -> Result<(int, int), SwapError> {
        match self {
            SwapCurve::ConstantPrice(c) => price_split_spec(
                c.token_b_price as int,
                pool_tokens,
                supply,
                reserve_a,
                reserve_b,
                round,
            ),
            _ => split_spec(pool_tokens, supply, reserve_a, reserve_b, round),
        }
    }

    /// Whether the curve's parameters are in range.
    pub open spec fn is_valid(self) -> bool {
        match self {
            SwapCurve::ConstantProduct(_) => true,
            SwapCurve::ConstantPrice(c) => c.token_b_price > 0,
            SwapCurve::Offset(c) => c.token_b_offset > 0,
            SwapCurve::Stable(c) => MIN_AMP < c.amp < MAX_AMP && c.token_a_factor > 0
                && c.token_b_factor > 0,
        }
    }

    /// Whether the curve accepts the reserves of a new pool.
    pub open spec fn accepts_supply(self, token_a_amount: u64, token_b_amount: u64) -> bool {
        match self {
            SwapCurve::ConstantPrice(_) => token_a_amount > 0 || token_b_amount > 0,
            SwapCurve::Offset(_) => token_a_amount > 0,
            _ => token_a_amount > 0 && token_b_amount > 0,
        }
    }

    /// Calculates how much destination token a swap of `source_amount`
    /// gives on this curve.
    pub fn swap_without_fees(
        &self,
        source_amount: u128,
        pool_source_amount: u128,
        pool_destination_amount: u128,
        trade_direction: TradeDirection,
    ) -> (r: Result<SwapWithoutFeesResult, SwapError>)
        ensures
            swap_res(r) == self.swap_outcome(
                source_amount as int,
                pool_source_amount as int,
                pool_destination_amount as int,
                trade_direction,
            ),
    {
        match self {
            SwapCurve::ConstantProduct(c) => c.swap_without_fees(
                source_amount,
                pool_source_amount,
                pool_destination_amount,
                trade_direction,
            ),
            SwapCurve::ConstantPrice(c) => c.swap_without_fees(
                source_amount,
                pool_source_amount,
                pool_destination_amount,
                trade_direction,
            ),
            SwapCurve::Offset(c) => c.swap_without_fees(
                source_amount,
                pool_source_amount,
                pool_destination_amount,
                trade_direction,
            ),
            SwapCurve::Stable(c) => c.swap_without_fees(
                source_amount,
                pool_source_amount,
                pool_destination_amount,
                trade_direction,
            ),
        }
    }

    /// The trading tokens for `pool_tokens` pool tokens: what a deposit
    /// takes (`Ceiling`) or a withdrawal returns (`Floor`).
    pub fn pool_tokens_to_trading_tokens(
        &self,
        pool_tokens: u128,
        pool_token_supply: u128,
        pool_token_a_amount: u128,
        pool_token_b_amount: u128,
        round_direction: RoundDirection,
    ) -> (r: Result<TradingTokenResult, SwapError>)
        ensures
            split_res(r) == self.split_outcome(
                pool_tokens as int,
                pool_token_supply as int,
                pool_token_a_amount as int,
                pool_token_b_amount as int,
                round_direction,
            ),
    {
        match self {
            SwapCurve::ConstantPrice(c) => c.pool_tokens_to_trading_tokens(
                pool_tokens,
                pool_token_supply,
                pool_token_a_amount,
                pool_token_b_amount,
                round_direction,
            ),
            _ => pool_tokens_to_trading_tokens(
                pool_tokens,
                pool_token_supply,
                pool_token_a_amount,
                pool_token_b_amount,
                round_direction,
            ),
        }
    }

    /// Rejects out-of-range curve parameters with `InvalidCurve`.
    pub fn validate(&self) -> (r: Result<(), SwapError>)
        ensures
            r is Ok <==> self.is_valid(),
            r is Err ==> r == Err::<(), SwapError>(SwapError::InvalidCurve),
    {
        match self {
            SwapCurve::ConstantProduct(c) => c.validate(),
            SwapCurve::ConstantPrice(c) => c.validate(),
            SwapCurve::Offset(c) => c.validate(),
            SwapCurve::Stable(c) => c.validate(),
        }
    }

    /// Rejects the reserves of a new pool with `EmptySupply` where the
    /// curve cannot start from them.
    pub fn validate_supply(
        &self,
        token_a_amount: u64,
        token_b_amount: u64,
    ) -> (r: Result<(), SwapError>)
        ensures
            r is Ok <==> self.accepts_supply(token_a_amount, token_b_amount),
            r is Err ==> r == Err::<(), SwapError>(SwapError::EmptySupply),
    {
        match self {
            SwapCurve::ConstantProduct(c) => c.validate_supply(token_a_amount, token_b_amount),
            SwapCurve::ConstantPrice(c) => c.validate_supply(token_a_amount, token_b_amount),
            SwapCurve::Offset(c) => c.validate_supply(token_a_amount, token_b_amount),
            SwapCurve::Stable(c) => c.validate_supply(token_a_amount, token_b_amount),
        }
    }

    /// Only the offset curve refuses deposits after initialization.
    pub fn allows_deposits(&self) -> (r: bool)
        ensures
            r <==> !(self is Offset),
    {
        match self {
            SwapCurve::Offset(c) => c.allows_deposits(),
            SwapCurve::Stable(c) => c.allows_deposits(),
            _ => true,
        }
    }

    /// The supply of pool tokens of a new pool.
    pub fn new_pool_supply(&self) -> (r: u128)
        ensures
            r == INITIAL_SWAP_POOL_AMOUNT,
    {
        INITIAL_SWAP_POOL_AMOUNT
    }
}

} // verus!
