//! The constant-product curve `x * y = k`.
use vstd::prelude::*;

use vstd::arithmetic::div_mod::lemma_fundamental_div_mod;

use crate::calculator::{
    ceil_div, lemma_withdraw_keeps_reserve_share, pool_tokens_to_trading_tokens, split_res,
    split_spec, swap_res, u128_bound, RoundDirection, SwapWithoutFeesResult, TradeDirection,
    TradingTokenResult,
};
use crate::error::SwapError;

verus! {

/// A constant-product swap of `source_amount` into reserves
/// `(swap_source_amount, swap_destination_amount)`: the new destination
/// reserve is `ceil(x * y / (x + dx))` and the user gets the rest. A zero
/// input, or one too small to release a whole token, swaps nothing.
pub open spec fn product_swap_spec(
    source_amount: int,
    swap_source_amount: int,
    swap_destination_amount: int,
) -> Result<(int, int), SwapError> {
    if source_amount == 0 {
        Ok((0, 0))
    } else if swap_source_amount * swap_destination_amount >= u128_bound() {
        Err(SwapError::ArithmeticOverflow)
    } else if swap_source_amount + source_amount >= u128_bound() {
        Err(SwapError::ArithmeticOverflow)
    } else {
        let new_destination = ceil_div(
            swap_source_amount * swap_destination_amount,
            swap_source_amount + source_amount,
        );
        if swap_destination_amount - new_destination == 0 {
            Ok((0, 0))
        } else {
            Ok((source_amount, swap_destination_amount - new_destination))
        }
    }
}

/// The closed-form constant-product swap, shared with the offset curve.
pub fn swap(
    source_amount: u128,
    swap_source_amount: u128,
    swap_destination_amount: u128,
) -> (r: Result<SwapWithoutFeesResult, SwapError>)
    ensures
        swap_res(r) == product_swap_spec(
            source_amount as int,
            swap_source_amount as int,
            swap_destination_amount as int,
        ),
{
    if source_amount == 0 {
        return Ok(
            SwapWithoutFeesResult { source_amount_swapped: 0, destination_amount_swapped: 0 },
        );
    }
    let product = match swap_source_amount.checked_mul(swap_destination_amount) {
        Some(v) => v,
        None => return Err(SwapError::ArithmeticOverflow),
    };
    let new_swap_source_amount = match swap_source_amount.checked_add(source_amount) {
        Some(v) => v,
        None => return Err(SwapError::ArithmeticOverflow),
    };
    let quotient = product / new_swap_source_amount;
    proof {
        lemma_ceil_div(product as int, new_swap_source_amount as int);
        lemma_new_destination_within(
            swap_source_amount as int,
            swap_destination_amount as int,
            source_amount as int,
        );
    }
    let new_swap_destination_amount = if product % new_swap_source_amount > 0 {
        quotient + 1
    } else {
        quotient
    };
    let destination_amount_swapped = swap_destination_amount - new_swap_destination_amount;
    if destination_amount_swapped == 0 {
        return Ok(
            SwapWithoutFeesResult { source_amount_swapped: 0, destination_amount_swapped: 0 },
        );
    }
    Ok(SwapWithoutFeesResult { source_amount_swapped: source_amount, destination_amount_swapped })
}

proof fn lemma_ceil_div(a: int, b: int)
    requires
        a >= 0,
        b > 0,
    ensures
        ceil_div(a, b) == a / b + (if a % b > 0 {
            1int
        } else {
            0int
        }),
        ceil_div(a, b) * b >= a,
        ceil_div(a, b) * b < a + b,
{
    lemma_fundamental_div_mod(a, b);
    let q = a / b;
    let r = a % b;
    let c = q + (if r > 0 {
        1int
    } else {
        0int
    });
    lemma_fundamental_div_mod(a + b - 1, b);
    assert(ceil_div(a, b) == c) by (nonlinear_arith)
        requires
            a == b * q + r,
            0 <= r < b,
            a + b - 1 == b * ((a + b - 1) / b) + (a + b - 1) % b,
            0 <= (a + b - 1) % b < b,
            ceil_div(a, b) == (a + b - 1) / b,
            c == q + (if r > 0 { 1int } else { 0int }),
    ;
    assert(c * b >= a && c * b < a + b) by (nonlinear_arith)
        requires
            a == b * q + r,
            0 <= r < b,
            c == q + (if r > 0 { 1int } else { 0int }),
    ;
}

proof fn lemma_new_destination_within(x: int, y: int, dx: int)
    requires
        x >= 0,
        y >= 0,
        dx > 0,
    ensures
        0 <= ceil_div(x * y, x + dx) <= y,
{
    lemma_ceil_div(x * y, x + dx);
    let c = ceil_div(x * y, x + dx);
    assert(x * y >= 0) by (nonlinear_arith)
        requires x >= 0, y >= 0;
    assert(c <= y) by (nonlinear_arith)
        requires
            c * (x + dx) < x * y + x + dx,
            x >= 0,
            dx > 0,
            y >= 0,
    ;
    assert(c >= 0) by (nonlinear_arith)
        requires c * (x + dx) >= x * y, x * y >= 0, x + dx > 0;
}

/// A constant-product swap never lowers the invariant: with `(dx, dy)` the
/// amounts swapped, `(x + dx) * (y - dy) >= x * y`, and the increase is
/// below `x + dx` (one unit of the new destination reserve).
pub proof fn lemma_product_swap_keeps_value(
    source_amount: u128,
    swap_source_amount: u128,
    swap_destination_amount: u128,
)
    requires
        product_swap_spec(
            source_amount as int,
            swap_source_amount as int,
            swap_destination_amount as int,
        ) is Ok,
    ensures
        ({
            let (dx, dy) = product_swap_spec(
                source_amount as int,
                swap_source_amount as int,
                swap_destination_amount as int,
            )->Ok_0;
            &&& dy <= swap_destination_amount
            &&& (swap_source_amount + dx) * (swap_destination_amount - dy) >= swap_source_amount
                * swap_destination_amount
            &&& (swap_source_amount + dx) * (swap_destination_amount - dy) < swap_source_amount
                * swap_destination_amount + swap_source_amount + dx || dx == 0
        }),
{
    if source_amount > 0 {
        let x = swap_source_amount as int;
        let y = swap_destination_amount as int;
        let dx = source_amount as int;
        lemma_ceil_div(x * y, x + dx);
        lemma_new_destination_within(x, y, dx);
        let c = ceil_div(x * y, x + dx);
        assert((x + dx) * c >= x * y && (x + dx) * c < x * y + x + dx) by (nonlinear_arith)
            requires c * (x + dx) >= x * y, c * (x + dx) < x * y + (x + dx);
    }
}

/// The constant-product curve.
#[derive(Clone, Copy, Debug, PartialEq, Eq, Structural)]
pub struct ConstantProductCurve {}

impl ConstantProductCurve {
    /// Swaps `source_amount` into the pool by `x * y = k`.
    pub fn swap_without_fees(
        &self,
        source_amount: u128,
        pool_source_amount: u128,
        pool_destination_amount: u128,
        trade_direction: TradeDirection,
    ) -> (r: Result<SwapWithoutFeesResult, SwapError>)
        ensures
            swap_res(r) == product_swap_spec(
                source_amount as int,
                pool_source_amount as int,
                pool_destination_amount as int,
            ),
    {
        swap(source_amount, pool_source_amount, pool_destination_amount)
    }

    /// The proportional split of pool tokens into trading tokens.
    pub fn pool_tokens_to_trading_tokens(
        &self,
        pool_tokens: u128,
        pool_token_supply: u128,
        pool_token_a_amount: u128,
        pool_token_b_amount: u128,
        round_direction: RoundDirection,
    ) -> (r: Result<TradingTokenResult, SwapError>)
        ensures
            split_res(r) == split_spec(
                pool_tokens as int,
                pool_token_supply as int,
                pool_token_a_amount as int,
                pool_token_b_amount as int,
                round_direction,
            ),
    {
        pool_tokens_to_trading_tokens(
            pool_tokens,
            pool_token_supply,
            pool_token_a_amount,
            pool_token_b_amount,
            round_direction,
        )
    }

    /// The constant-product curve has no parameter to check.
    pub fn validate(&self) -> (r: Result<(), SwapError>)
        ensures
            r is Ok,
    {
        Ok(())
    }

    /// Both reserves of a new pool must be positive.
    pub fn validate_supply(
        &self,
        token_a_amount: u64,
        token_b_amount: u64,
    ) -> (r: Result<(), SwapError>)
        ensures
            r is Ok <==> (token_a_amount > 0 && token_b_amount > 0),
            r is Err ==> r == Err::<(), SwapError>(SwapError::EmptySupply),
    {
        if token_a_amount == 0 || token_b_amount == 0 {
            return Err(SwapError::EmptySupply);
        }
        Ok(())
    }
}


/// A withdrawal never lowers the constant-product value per pool token:
/// with the `Floor` split of `pool_tokens` out of `supply`, the squared
/// normalized value `a * b` of the remaining reserves, times `supply^2`, is
/// at least that of the old reserves times the new supply squared.
pub proof fn lemma_withdraw_keeps_product_value(
    pool_tokens: u128,
    supply: u128,
    reserve_a: u128,
    reserve_b: u128,
)
    requires
        1 <= pool_tokens <= supply <= u64::MAX,
        reserve_a <= u64::MAX,
        reserve_b <= u64::MAX,
    ensures
        ({
            let (ta, tb) = split_spec(
                pool_tokens as int,
                supply as int,
                reserve_a as int,
                reserve_b as int,
                RoundDirection::Floor,
            )->Ok_0;
            (reserve_a - ta) * (reserve_b - tb) * supply * supply >= reserve_a * reserve_b * (supply
                - pool_tokens) * (supply - pool_tokens)
        }),
{
    lemma_withdraw_keeps_reserve_share(pool_tokens, supply, reserve_a, reserve_b);
    let (ta, tb) = split_spec(
        pool_tokens as int,
        supply as int,
        reserve_a as int,
        reserve_b as int,
        RoundDirection::Floor,
    )->Ok_0;
    let x = reserve_a - ta;
    let y = reserve_b - tb;
    let s = supply as int;
    let t = supply - pool_tokens;
    assert(x * y * s * s >= reserve_a * reserve_b * t * t) by (nonlinear_arith)
        requires
            x * s >= reserve_a * t,
            y * s >= reserve_b * t,
            x >= 0,
            y >= 0,
            reserve_a >= 0,
            reserve_b >= 0,
            t >= 0,
            s > 0,
    ;
}

} // verus!
