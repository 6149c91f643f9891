//! Types shared by the curves, and the split of pool tokens into trading tokens.
use vstd::prelude::*;

use vstd::arithmetic::div_mod::lemma_fundamental_div_mod;

use crate::error::SwapError;

verus! {

/// Initial amount of pool tokens for a new pool.
pub const INITIAL_SWAP_POOL_AMOUNT: u128 = 1_000_000_000;

/// Number of token types in a pool.
pub const TOKENS_IN_POOL: u128 = 2;

/// The direction of a trade.
#[derive(Clone, Copy, Debug, PartialEq, Eq, Structural)]
pub enum TradeDirection {
    /// Input token A, output token B
    AtoB,
    /// Input token B, output token A
    BtoA,
}

/// Either token A or token B.
#[derive(Clone, Copy, Debug, PartialEq, Eq, Structural)]
pub enum AorB {
    A,
    B,
}

/// The direction to round pool-token to trading-token conversions.
#[derive(Clone, Copy, Debug, PartialEq, Eq, Structural)]
pub enum RoundDirection {
    /// Floor the value, ie. 1.9 => 1, 1.1 => 1, 1.5 => 1
    Floor,
    /// Ceiling the value, ie. 1.9 => 2, 1.1 => 2, 1.5 => 2
    Ceiling,
}

impl TradeDirection {
    /// The other direction: A to B becomes B to A, and the reverse.
    pub open spec fn spec_opposite(self) -> TradeDirection {
        match self {
            TradeDirection::AtoB => TradeDirection::BtoA,
            TradeDirection::BtoA => TradeDirection::AtoB,
        }
    }

    /// Gives the opposite direction of the trade.
    pub fn opposite(&self) -> (r: TradeDirection)
        ensures
            r == self.spec_opposite(),
            r != *self,
    {
        match self {
            TradeDirection::AtoB => TradeDirection::BtoA,
            TradeDirection::BtoA => TradeDirection::AtoB,
        }
    }
}

/// Turning a direction round twice gives it back.
pub proof fn lemma_opposite_involution(d: TradeDirection)
    ensures
        d.spec_opposite().spec_opposite() == d,
{
}

/// The amounts of a swap from a source token to a destination token.
#[derive(Clone, Copy, Debug, PartialEq, Eq, Structural)]
pub struct SwapWithoutFeesResult {
    /// Amount of source token swapped
    pub source_amount_swapped: u128,
    /// Amount of destination token swapped
    pub destination_amount_swapped: u128,
}

/// The amounts of both tokens of a deposit or a withdrawal.
#[derive(Clone, Copy, Debug, PartialEq, Eq, Structural)]
pub struct TradingTokenResult {
    /// Amount of token A
    pub token_a_amount: u128,
    /// Amount of token B
    pub token_b_amount: u128,
}

/// `ceil(a / b)` for a positive `b`.
pub open spec fn ceil_div(a: int, b: int) -> int {
    (a + b - 1) / b
}

/// `2^128`.
pub open spec fn u128_bound() -> int {
    u128::MAX as int + 1
}

/// One side of a split: `pool_tokens * reserve / supply`, rounded down, or,
/// under `Ceiling`, rounded up unless the floor is zero (a tiny claim stays
/// zero rather than taking a whole token).
pub open spec fn split_side(
    pool_tokens: int,
    supply: int,
    reserve: int,
    round: RoundDirection,
) -> int
    recommends
        supply > 0,
{
    let q = pool_tokens * reserve / supply;
    match round {
        RoundDirection::Floor => q,
        RoundDirection::Ceiling => if q > 0 && (pool_tokens * reserve) % supply > 0 {
            q + 1
        } else {
            q
        },
    }
}

/// The outcome of splitting `pool_tokens` of a supply over two reserves.
pub open spec fn split_spec(
    pool_tokens: int,
    supply: int,
    reserve_a: int,
    reserve_b: int,
    round: RoundDirection,
) -> Result<(int, int), SwapError> {
    if pool_tokens * reserve_a >= u128_bound() {
        Err(SwapError::ArithmeticOverflow)
    } else if supply == 0 {
        Err(SwapError::DivideByZero)
    } else if pool_tokens * reserve_b >= u128_bound() {
        Err(SwapError::ArithmeticOverflow)
    } else {
        Ok(
            (
                split_side(pool_tokens, supply, reserve_a, round),
                split_side(pool_tokens, supply, reserve_b, round),
            ),
        )
    }
}

/// A `u128` outcome with the value taken as an integer.
pub open spec fn res_u128(r: Result<u128, SwapError>) -> Result<int, SwapError> {
    match r {
        Ok(v) => Ok(v as int),
        Err(e) => Err(e),
    }
}

/// A `u64` outcome with the value taken as an integer.
pub open spec fn res_u64(r: Result<u64, SwapError>) -> Result<int, SwapError> {
    match r {
        Ok(v) => Ok(v as int),
        Err(e) => Err(e),
    }
}

/// A swap's outcome, with the amounts taken as integers.
pub open spec fn swap_res(
    r: Result<SwapWithoutFeesResult, SwapError>,
) -> Result<(int, int), SwapError> {
    match r {
        Ok(s) => Ok((s.source_amount_swapped as int, s.destination_amount_swapped as int)),
        Err(e) => Err(e),
    }
}

/// A split's outcome, with the amounts taken as integers.
pub open spec fn split_res(
    r: Result<TradingTokenResult, SwapError>,
) -> Result<(int, int), SwapError> {
    match r {
        Ok(t) => Ok((t.token_a_amount as int, t.token_b_amount as int)),
        Err(e) => Err(e),
    }
}

fn split_one(pool_tokens: u128, supply: u128, reserve: u128, round: RoundDirection) -> (r: u128)
    requires
        supply > 0,
        pool_tokens * reserve < u128_bound(),
    ensures
        r == split_side(pool_tokens as int, supply as int, reserve as int, round),
{
    let product = pool_tokens * reserve;
    let q = product / supply;
    match round {
        RoundDirection::Floor => q,
        RoundDirection::Ceiling => {
            if q > 0 && product % supply > 0 {
                proof {
                    assert(q <= product) by (nonlinear_arith)
                        requires q == product / supply, supply > 0;
                    assert(q < product) by (nonlinear_arith)
                        requires q == product / supply, supply > 0, product % supply > 0, q > 0;
                }
                q + 1
            } else {
                q
            }
        },
    }
}

/// Gives, for each side, `pool_tokens * reserve / pool_token_supply`
/// rounded as `round_direction` says: the trading tokens that a deposit
/// takes (`Ceiling`) or that a withdrawal returns (`Floor`) for
/// `pool_tokens` pool tokens.
pub fn pool_tokens_to_trading_tokens(
    pool_tokens: u128,
    pool_token_supply: u128,
    pool_token_a_amount: u128,
    pool_token_b_amount: u128,
    round_direction: RoundDirection,
) -> (r: Result<TradingTokenResult, SwapError>)
    ensures
        split_res(r) == split_spec(
            pool_tokens as int,
            pool_token_supply as int,
            pool_token_a_amount as int,
            pool_token_b_amount as int,
            round_direction,
        ),
{
    if pool_tokens.checked_mul(pool_token_a_amount).is_none() {
        return Err(SwapError::ArithmeticOverflow);
    }
    if pool_token_supply == 0 {
        return Err(SwapError::DivideByZero);
    }
    if pool_tokens.checked_mul(pool_token_b_amount).is_none() {
        return Err(SwapError::ArithmeticOverflow);
    }
    let token_a_amount = split_one(
        pool_tokens,
        pool_token_supply,
        pool_token_a_amount,
        round_direction,
    );
    let token_b_amount = split_one(
        pool_tokens,
        pool_token_supply,
        pool_token_b_amount,
        round_direction,
    );
    Ok(TradingTokenResult { token_a_amount, token_b_amount })
}


/// A deposit never dilutes: when `pool_tokens` new pool tokens are paid for
/// with the `Ceiling` split, and each side's floor share is at least one
/// token, each reserve per pool token does not decrease:
/// `new_reserve * supply >= reserve * new_supply` on both sides.
pub proof fn lemma_deposit_does_not_dilute(
    pool_tokens: u128,
    supply: u128,
    reserve_a: u128,
    reserve_b: u128,
)
    requires
        1 <= pool_tokens <= u64::MAX,
        1 <= supply <= u64::MAX,
        1 <= reserve_a <= u64::MAX,
        1 <= reserve_b <= u64::MAX,
        pool_tokens * reserve_a / supply as int >= 1,
        pool_tokens * reserve_b / supply as int >= 1,
    ensures
        split_spec(
            pool_tokens as int,
            supply as int,
            reserve_a as int,
            reserve_b as int,
            RoundDirection::Ceiling,
        ) is Ok,
        ({
            let (ta, tb) = split_spec(
                pool_tokens as int,
                supply as int,
                reserve_a as int,
                reserve_b as int,
                RoundDirection::Ceiling,
            )->Ok_0;
            &&& (reserve_a + ta) * supply >= reserve_a * (supply + pool_tokens)
            &&& (reserve_b + tb) * supply >= reserve_b * (supply + pool_tokens)
        }),
{
    lemma_product_below_u128(pool_tokens as int, reserve_a as int);
    lemma_product_below_u128(pool_tokens as int, reserve_b as int);
    lemma_ceiling_side_covers(pool_tokens as int, supply as int, reserve_a as int);
    lemma_ceiling_side_covers(pool_tokens as int, supply as int, reserve_b as int);
}

/// A withdrawal never takes more than its share of either reserve: with
/// the `Floor` split of `pool_tokens` out of `supply`, each reserve per
/// remaining pool token does not decrease:
/// `new_reserve * supply >= reserve * new_supply` on both sides.
pub proof fn lemma_withdraw_keeps_reserve_share(
    pool_tokens: u128,
    supply: u128,
    reserve_a: u128,
    reserve_b: u128,
)
    requires
        1 <= pool_tokens <= supply <= u64::MAX,
        reserve_a <= u64::MAX,
        reserve_b <= u64::MAX,
    ensures
        split_spec(
            pool_tokens as int,
            supply as int,
            reserve_a as int,
            reserve_b as int,
            RoundDirection::Floor,
        ) is Ok,
        ({
            let (ta, tb) = split_spec(
                pool_tokens as int,
                supply as int,
                reserve_a as int,
                reserve_b as int,
                RoundDirection::Floor,
            )->Ok_0;
            &&& ta <= reserve_a && tb <= reserve_b
            &&& (reserve_a - ta) * supply >= reserve_a * (supply - pool_tokens)
            &&& (reserve_b - tb) * supply >= reserve_b * (supply - pool_tokens)
        }),
{
    lemma_product_below_u128(pool_tokens as int, reserve_a as int);
    lemma_product_below_u128(pool_tokens as int, reserve_b as int);
    lemma_floor_side_within(pool_tokens as int, supply as int, reserve_a as int);
    lemma_floor_side_within(pool_tokens as int, supply as int, reserve_b as int);
}

proof fn lemma_product_below_u128(x: int, y: int)
    requires
        0 <= x <= u64::MAX,
        0 <= y <= u64::MAX,
    ensures
        x * y < u128_bound(),
{
    assert(x * y <= (u64::MAX as int) * (u64::MAX as int)) by (nonlinear_arith)
        requires 0 <= x <= u64::MAX, 0 <= y <= u64::MAX;
}

proof fn lemma_ceiling_side_covers(pool_tokens: int, supply: int, reserve: int)
    requires
        supply > 0,
        pool_tokens >= 0,
        reserve >= 0,
        pool_tokens * reserve / supply >= 1,
    ensures
        split_side(pool_tokens, supply, reserve, RoundDirection::Ceiling) * supply >= pool_tokens * reserve,
        (reserve + split_side(pool_tokens, supply, reserve, RoundDirection::Ceiling)) * supply
            >= reserve * (supply + pool_tokens),
{
    let p = pool_tokens * reserve;
    let q = p / supply;
    let r = p % supply;
    lemma_fundamental_div_mod(p, supply);
    let t = split_side(pool_tokens, supply, reserve, RoundDirection::Ceiling);
    if r > 0 {
        assert(t == q + 1);
        assert(t * supply >= p) by (nonlinear_arith)
            requires t == q + 1, p == supply * q + r, r < supply;
    } else {
        assert(t == q);
        assert(t * supply == p) by (nonlinear_arith)
            requires t == q, p == supply * q + r, r == 0;
    }
    assert((reserve + t) * supply >= reserve * (supply + pool_tokens)) by (nonlinear_arith)
        requires t * supply >= p, p == pool_tokens * reserve;
}

proof fn lemma_floor_side_within(pool_tokens: int, supply: int, reserve: int)
    requires
        0 < pool_tokens <= supply,
        reserve >= 0,
    ensures
        split_side(pool_tokens, supply, reserve, RoundDirection::Floor) <= reserve,
        split_side(pool_tokens, supply, reserve, RoundDirection::Floor) * supply <= pool_tokens * reserve,
        (reserve - split_side(pool_tokens, supply, reserve, RoundDirection::Floor)) * supply
            >= reserve * (supply - pool_tokens),
{
    let p = pool_tokens * reserve;
    let q = p / supply;
    lemma_fundamental_div_mod(p, supply);
    assert(q * supply <= p) by (nonlinear_arith)
        requires p == supply * q + p % supply, p % supply >= 0;
    assert(p <= supply * reserve) by (nonlinear_arith)
        requires p == pool_tokens * reserve, pool_tokens <= supply, reserve >= 0;
    assert(q <= reserve) by (nonlinear_arith)
        requires q * supply <= supply * reserve, supply > 0;
    assert((reserve - q) * supply >= reserve * (supply - pool_tokens)) by (nonlinear_arith)
        requires q * supply <= p, p == pool_tokens * reserve;
}

} // verus!
