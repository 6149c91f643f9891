//! The constant-price curve: one token B is always worth `token_b_price`
//! tokens A.
use vstd::prelude::*;

use vstd::arithmetic::div_mod::{lemma_fundamental_div_mod, lemma_fundamental_div_mod_converse};

use crate::calculator::{
    pool_tokens_to_trading_tokens, split_res, split_spec, swap_res, u128_bound, RoundDirection,
    SwapWithoutFeesResult, TradeDirection, TradingTokenResult,
};
use crate::error::SwapError;

verus! {

/// A curve with a fixed price of token B in units of token A.
#[derive(Clone, Copy, Debug, PartialEq, Eq, Structural)]
pub struct ConstantPriceCurve {
    /// Amount of token A required to get 1 token B
    pub token_b_price: u64,
}

/// A constant-price swap. A to B: `dy = dx / price`, rounded down, and the
/// source consumed is `dy * price` (the dust stays with the user). B to A:
/// `dy = dx * price`, and all of `dx` is consumed.
pub open spec fn price_swap_spec(
    price: int,
    source_amount: int,
    dir: TradeDirection,
) -> Result<(int, int), SwapError> {
    match dir {
        TradeDirection::AtoB => if price == 0 {
            Err(SwapError::DivideByZero)
        } else {
            Ok(((source_amount / price) * price, source_amount / price))
        },
        TradeDirection::BtoA => if source_amount * price >= u128_bound() {
            Err(SwapError::ArithmeticOverflow)
        } else {
            Ok((source_amount, source_amount * price))
        },
    }
}

impl ConstantPriceCurve {
    /// Swaps at the fixed price, rounding against the user.
    pub fn swap_without_fees(
        &self,
        source_amount: u128,
        _pool_source_amount: u128,
        _pool_destination_amount: u128,
        trade_direction: TradeDirection,
    ) -> (r: Result<SwapWithoutFeesResult, SwapError>)
        ensures
            swap_res(r) == price_swap_spec(self.token_b_price as int, source_amount as int, trade_direction),
    {
        let price = self.token_b_price as u128;
        match trade_direction {
            TradeDirection::AtoB => {
                if price == 0 {
                    return Err(SwapError::DivideByZero);
                }
                let destination_amount_swapped = source_amount / price;
                assert(destination_amount_swapped * price <= source_amount) by (nonlinear_arith)
                    requires destination_amount_swapped == source_amount / price, price > 0;
                Ok(SwapWithoutFeesResult {
                    source_amount_swapped: destination_amount_swapped * price,
                    destination_amount_swapped,
                })
            },
            TradeDirection::BtoA => {
                match source_amount.checked_mul(price) {
                    Some(v) => Ok(SwapWithoutFeesResult {
                        source_amount_swapped: source_amount,
                        destination_amount_swapped: v,
                    }),
                    None => Err(SwapError::ArithmeticOverflow),
                }
            },
        }
    }

    /// The price must be positive.
    pub fn validate(&self) -> (r: Result<(), SwapError>)
        ensures
            r is Ok <==> self.token_b_price > 0,
            r is Err ==> r == Err::<(), SwapError>(SwapError::InvalidCurve),
    {
        if self.token_b_price == 0 {
            return Err(SwapError::InvalidCurve);
        }
        Ok(())
    }

    /// A new pool needs some tokens; either side may be empty.
    pub fn validate_supply(
        &self,
        token_a_amount: u64,
        token_b_amount: u64,
    ) -> (r: Result<(), SwapError>)
        ensures
            r is Ok <==> (token_a_amount > 0 || token_b_amount > 0),
            r is Err ==> r == Err::<(), SwapError>(SwapError::EmptySupply),
    {
        if token_a_amount == 0 && token_b_amount == 0 {
            return Err(SwapError::EmptySupply);
        }
        Ok(())
    }
}

/// A constant-price swap never lowers the pool's value counted in token A:
/// with `(dx, dy)` the amounts swapped, the value `a + b * price` of the
/// reserves after the trade is at least that before.
pub proof fn lemma_price_swap_keeps_value(
    price: u64,
    source_amount: u128,
    reserve_a: int,
    reserve_b: int,
    dir: TradeDirection,
)
    requires
        price_swap_spec(price as int, source_amount as int, dir) is Ok,
    ensures
        ({
            let (dx, dy) = price_swap_spec(price as int, source_amount as int, dir)->Ok_0;
            match dir {
                TradeDirection::AtoB => (reserve_a + dx) + (reserve_b - dy) * price >= reserve_a
                    + reserve_b * price,
                TradeDirection::BtoA => (reserve_a - dy) + (reserve_b + dx) * price >= reserve_a
                    + reserve_b * price,
            }
        }),
{
    let p = price as int;
    let s = source_amount as int;
    match dir {
        TradeDirection::AtoB => {
            let q = s / p;
            assert((reserve_a + q * p) + (reserve_b - q) * p == reserve_a + reserve_b * p) by (nonlinear_arith);
        },
        TradeDirection::BtoA => {
            assert((reserve_a - s * p) + (reserve_b + s) * p == reserve_a + reserve_b * p) by (nonlinear_arith);
        },
    }
}


/// The constant-price split: token B counted at its price in token A, the
/// value split in proportion, and the B side taken back to token B with the
/// same rounding (`Floor` down, `Ceiling` up).
pub open spec fn price_split_spec(
    price: int,
    pool_tokens: int,
    supply: int,
    reserve_a: int,
    reserve_b: int,
    round: RoundDirection,
) -> Result<(int, int), SwapError> {
    if reserve_b * price >= u128_bound() {
        Err(SwapError::ArithmeticOverflow)
    } else {
        match split_spec(pool_tokens, supply, reserve_a, reserve_b * price, round) {
            Err(e) => Err(e),
            Ok((ta, tb_value)) => if price == 0 {
                Err(SwapError::DivideByZero)
            } else {
                match round {
                    RoundDirection::Floor => Ok((ta, tb_value / price)),
                    RoundDirection::Ceiling => Ok((ta, (tb_value + price - 1) / price)),
                }
            },
        }
    }
}

impl ConstantPriceCurve {
    /// The trading tokens for `pool_tokens` pool tokens, with token B
    /// counted at its price so that the price asymmetry dilutes no one.
    pub fn pool_tokens_to_trading_tokens(
        &self,
        pool_tokens: u128,
        pool_token_supply: u128,
        pool_token_a_amount: u128,
        pool_token_b_amount: u128,
        round_direction: RoundDirection,
    ) -> (r: Result<TradingTokenResult, SwapError>)
        ensures
            split_res(r) == price_split_spec(
                self.token_b_price as int,
                pool_tokens as int,
                pool_token_supply as int,
                pool_token_a_amount as int,
                pool_token_b_amount as int,
                round_direction,
            ),
    {
        let price = self.token_b_price as u128;
        let b_value = match pool_token_b_amount.checked_mul(price) {
            Some(v) => v,
            None => return Err(SwapError::ArithmeticOverflow),
        };
        let split = pool_tokens_to_trading_tokens(
            pool_tokens,
            pool_token_supply,
            pool_token_a_amount,
            b_value,
            round_direction,
        )?;
        if price == 0 {
            return Err(SwapError::DivideByZero);
        }
        let tb_value = split.token_b_amount;
        let q = tb_value / price;
        let token_b_amount = match round_direction {
            RoundDirection::Floor => q,
            RoundDirection::Ceiling => {
                proof {
                    lemma_fundamental_div_mod(tb_value as int, price as int);
                }
                if tb_value % price > 0 {
                    proof {
                        assert(tb_value + price - 1 == (q + 1) * price + (tb_value % price - 1))
                            by (nonlinear_arith)
                            requires tb_value == price * q + tb_value % price;
                        lemma_fundamental_div_mod_converse(
                            tb_value + price - 1,
                            price as int,
                            q + 1,
                            tb_value % price - 1,
                        );
                        assert(q < tb_value) by (nonlinear_arith)
                            requires
                                tb_value == price * q + tb_value % price,
                                tb_value % price > 0,
                                price > 0,
                        ;
                    }
                    q + 1
                } else {
                    proof {
                        assert(tb_value + price - 1 == q * price + (price - 1)) by (nonlinear_arith)
                            requires tb_value == price * q + tb_value % price, tb_value % price == 0;
                        lemma_fundamental_div_mod_converse(
                            tb_value + price - 1,
                            price as int,
                            q as int,
                            price - 1,
                        );
                    }
                    q
                }
            },
        };
        Ok(TradingTokenResult { token_a_amount: split.token_a_amount, token_b_amount })
    }
}

} // verus!
