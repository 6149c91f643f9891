//! The offset curve: constant product with a synthetic amount added to the
//! token B reserve.
use vstd::prelude::*;

use crate::calculator::{
    pool_tokens_to_trading_tokens, split_res, split_spec, swap_res, u128_bound, RoundDirection,
    SwapWithoutFeesResult, TradeDirection, TradingTokenResult,
};
use crate::constant_product::{lemma_product_swap_keeps_value, product_swap_spec, swap};
use crate::error::SwapError;

verus! {

/// A constant-product curve on reserves `(A, B + token_b_offset)`.
#[derive(Clone, Copy, Debug, PartialEq, Eq, Structural)]
pub struct OffsetCurve {
    /// Amount to offset the token B liquidity account
    pub token_b_offset: u64,
}

/// An offset swap: the constant-product swap with the offset added to
/// whichever reserve holds token B.
pub open spec fn offset_swap_spec(
    offset: int,
    source_amount: int,
    pool_source_amount: int,
    pool_destination_amount: int,
    dir: TradeDirection,
) -> Result<(int, int), SwapError> {
    match dir {
        TradeDirection::AtoB => if pool_destination_amount + offset >= u128_bound() {
            Err(SwapError::ArithmeticOverflow)
        } else {
            product_swap_spec(source_amount, pool_source_amount, pool_destination_amount + offset)
        },
        TradeDirection::BtoA => if pool_source_amount + offset >= u128_bound() {
            Err(SwapError::ArithmeticOverflow)
        } else {
            product_swap_spec(source_amount, pool_source_amount + offset, pool_destination_amount)
        },
    }
}

impl OffsetCurve {
    /// Swaps by constant product with the offset on the token B side.
    pub fn swap_without_fees(
        &self,
        source_amount: u128,
        pool_source_amount: u128,
        pool_destination_amount: u128,
        trade_direction: TradeDirection,
    ) -> (r: Result<SwapWithoutFeesResult, SwapError>)
        ensures
            swap_res(r) == offset_swap_spec(
                self.token_b_offset as int,
                source_amount as int,
                pool_source_amount as int,
                pool_destination_amount as int,
                trade_direction,
            ),
    {
        let offset = self.token_b_offset as u128;
        match trade_direction {
            TradeDirection::AtoB => {
                let destination = match pool_destination_amount.checked_add(offset) {
                    Some(v) => v,
                    None => return Err(SwapError::ArithmeticOverflow),
                };
                swap(source_amount, pool_source_amount, destination)
            },
            TradeDirection::BtoA => {
                let source = match pool_source_amount.checked_add(offset) {
                    Some(v) => v,
                    None => return Err(SwapError::ArithmeticOverflow),
                };
                swap(source_amount, source, pool_destination_amount)
            },
        }
    }

    /// The proportional split of pool tokens over the real reserves.
    pub fn pool_tokens_to_trading_tokens(
        &self,
        pool_tokens: u128,
        pool_token_supply: u128,
        pool_token_a_amount: u128,
        pool_token_b_amount: u128,
        round_direction: RoundDirection,
    ) -> (r: Result<TradingTokenResult, SwapError>)
        ensures
            split_res(r) == split_spec(
                pool_tokens as int,
                pool_token_supply as int,
                pool_token_a_amount as int,
                pool_token_b_amount as int,
                round_direction,
            ),
    {
        pool_tokens_to_trading_tokens(
            pool_tokens,
            pool_token_supply,
            pool_token_a_amount,
            pool_token_b_amount,
            round_direction,
        )
    }

    /// The offset must be positive.
    pub fn validate(&self) -> (r: Result<(), SwapError>)
        ensures
            r is Ok <==> self.token_b_offset > 0,
            r is Err ==> r == Err::<(), SwapError>(SwapError::InvalidCurve),
    {
        if self.token_b_offset == 0 {
            return Err(SwapError::InvalidCurve);
        }
        Ok(())
    }

    /// Token A of a new pool must be positive; the offset stands in for
    /// token B.
    pub fn validate_supply(
        &self,
        token_a_amount: u64,
        token_b_amount: u64,
    ) -> (r: Result<(), SwapError>)
        ensures
            r is Ok <==> token_a_amount > 0,
            r is Err ==> r == Err::<(), SwapError>(SwapError::EmptySupply),
    {
        if token_a_amount == 0 {
            return Err(SwapError::EmptySupply);
        }
        Ok(())
    }

    /// Deposits after initialization would let the pool's creator take
    /// value from later depositors through the synthetic reserve.
    pub fn allows_deposits(&self) -> (r: bool)
        ensures
            !r,
    {
        false
    }
}


/// An offset swap never lowers the constant-product value of the reserves
/// with the offset counted in: with `(dx, dy)` the amounts swapped and
/// `(x, y)` the source and destination reserves as the curve sees them,
/// `(x + dx) * (y - dy) >= x * y`.
pub proof fn lemma_offset_swap_keeps_value(
    offset: u64,
    source_amount: u128,
    pool_source_amount: u128,
    pool_destination_amount: u128,
    dir: TradeDirection,
)
    requires
        offset_swap_spec(
            offset as int,
            source_amount as int,
            pool_source_amount as int,
            pool_destination_amount as int,
            dir,
        ) is Ok,
    ensures
        ({
            let (dx, dy) = offset_swap_spec(
                offset as int,
                source_amount as int,
                pool_source_amount as int,
                pool_destination_amount as int,
                dir,
            )->Ok_0;
            let x = match dir {
                TradeDirection::AtoB => pool_source_amount as int,
                TradeDirection::BtoA => pool_source_amount + offset,
            };
            let y = match dir {
                TradeDirection::AtoB => pool_destination_amount + offset,
                TradeDirection::BtoA => pool_destination_amount as int,
            };
            (x + dx) * (y - dy) >= x * y
        }),
{
    match dir {
        TradeDirection::AtoB => {
            lemma_product_swap_keeps_value(
                source_amount,
                pool_source_amount,
                (pool_destination_amount + offset) as u128,
            );
        },
        TradeDirection::BtoA => {
            lemma_product_swap_keeps_value(
                source_amount,
                (pool_source_amount + offset) as u128,
                pool_destination_amount,
            );
        },
    }
}

} // verus!
