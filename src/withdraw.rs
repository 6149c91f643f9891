//! The decisions of a withdrawal of both tokens from a pool.
use vstd::prelude::*;

use crate::calculator::{RoundDirection, TradingTokenResult};
use crate::curve::SwapCurve;
use crate::error::SwapError;
use crate::transfer_fee::{calculate_fee_spec, Fees};

verus! {

/// What a withdrawal of both tokens burns, pays out and charges: the
/// caller burns `pool_token_amount`, moves `fee` pool tokens to the fee
/// account, and sends the two token amounts from the vaults.
#[derive(Clone, Copy, Debug, PartialEq, Eq, Structural)]
pub struct WithdrawAllTokenTypes {
    /// Pool tokens burnt
    pub pool_token_amount: u64,
    /// Token A sent to the user
    pub token_a_amount: u64,
    /// Token B sent to the user
    pub token_b_amount: u64,
    /// Pool tokens taken as the owner's withdraw fee
    pub fee: u64,
}

/// `a` or `b`, whichever is smaller.
pub open spec fn min_int(a: int, b: int) -> int {
    if a <= b {
        a
    } else {
        b
    }
}

/// The outcome of a withdrawal of `pool_token_amount` pool tokens: the
/// owner's withdraw fee is taken off, the rest is split with `Floor`
/// rounding over the vaults, each side is capped at its vault, and each
/// side must reach the user's minimum and be positive unless its vault is
/// empty.
pub open spec fn withdraw_spec(
    curve: SwapCurve,
    fees: Fees,
    pool_token_supply: int,
    token_a_vault_amount: int,
    token_b_vault_amount: int,
    pool_token_amount: int,
    minimum_token_a_amount: int,
    minimum_token_b_amount: int,
) -> Result<(int, int, int, int), SwapError> {
    match calculate_fee_spec(
        pool_token_amount,
        fees.owner_withdraw_fee_numerator as int,
        fees.owner_withdraw_fee_denominator as int,
    ) {
        Err(_) => Err(SwapError::FeeCalculationFailure),
        Ok(fee) => if pool_token_amount < fee {
            Err(SwapError::ArithmeticOverflow)
        } else {
            let burn = pool_token_amount - fee;
            match curve.split_outcome(
                burn,
                pool_token_supply,
                token_a_vault_amount,
                token_b_vault_amount,
                RoundDirection::Floor,
            ) {
                Err(_) => Err(SwapError::ZeroTradingTokens),
                Ok((ta, tb)) => if ta > u64::MAX {
                    Err(SwapError::ConversionFailure)
                } else if min_int(token_a_vault_amount, ta) < minimum_token_a_amount {
                    Err(SwapError::ExceededSlippage)
                } else if min_int(token_a_vault_amount, ta) == 0 && token_a_vault_amount != 0 {
                    Err(SwapError::ZeroTradingTokens)
                } else if tb > u64::MAX {
                    Err(SwapError::ConversionFailure)
                } else if min_int(token_b_vault_amount, tb) < minimum_token_b_amount {
                    Err(SwapError::ExceededSlippage)
                } else if min_int(token_b_vault_amount, tb) == 0 && token_b_vault_amount != 0 {
                    Err(SwapError::ZeroTradingTokens)
                } else {
                    Ok(
                        (
                            burn,
                            min_int(token_a_vault_amount, ta),
                            min_int(token_b_vault_amount, tb),
                            fee,
                        ),
                    )
                },
            }
        },
    }
}

/// A withdrawal's outcome, with the amounts taken as integers.
pub open spec fn withdraw_res(
    r: Result<WithdrawAllTokenTypes, SwapError>,
) -> Result<(int, int, int, int), SwapError> {
    match r {
        Ok(w) => Ok(
            (
                w.pool_token_amount as int,
                w.token_a_amount as int,
                w.token_b_amount as int,
                w.fee as int,
            ),
        ),
        Err(e) => Err(e),
    }
}

/// Decides a withdrawal of both tokens: the pool tokens to burn, the fee to
/// charge and the amounts of both tokens to send, from the pool's state
/// (curve, fees, pool-token supply, vault balances) and the user's request.
pub fn handler(
    curve: &SwapCurve,
    fees: &Fees,
    pool_token_supply: u64,
    token_a_vault_amount: u64,
    token_b_vault_amount: u64,
    pool_token_amount: u64,
    minimum_token_a_amount: u64,
    minimum_token_b_amount: u64,
) -> (r: Result<WithdrawAllTokenTypes, SwapError>)
    ensures
        withdraw_res(r) == withdraw_spec(
            *curve,
            *fees,
            pool_token_supply as int,
            token_a_vault_amount as int,
            token_b_vault_amount as int,
            pool_token_amount as int,
            minimum_token_a_amount as int,
            minimum_token_b_amount as int,
        ),
{
    let withdraw_fee = match fees.owner_withdraw_fee(pool_token_amount as u128) {
        Ok(f) => f,
        Err(_) => return Err(SwapError::FeeCalculationFailure),
    };
    if (pool_token_amount as u128) < withdraw_fee {
        return Err(SwapError::ArithmeticOverflow);
    }
    let burn = pool_token_amount as u128 - withdraw_fee;
    let results: TradingTokenResult = match curve.pool_tokens_to_trading_tokens(
        burn,
        pool_token_supply as u128,
        token_a_vault_amount as u128,
        token_b_vault_amount as u128,
        RoundDirection::Floor,
    ) {
        Ok(t) => t,
        Err(_) => return Err(SwapError::ZeroTradingTokens),
    };
    if results.token_a_amount > u64::MAX as u128 {
        return Err(SwapError::ConversionFailure);
    }
    let token_a_amount = if token_a_vault_amount < results.token_a_amount as u64 {
        token_a_vault_amount
    } else {
        results.token_a_amount as u64
    };
    if token_a_amount < minimum_token_a_amount {
        return Err(SwapError::ExceededSlippage);
    }
    if !(token_a_amount > 0 || token_a_vault_amount == 0) {
        return Err(SwapError::ZeroTradingTokens);
    }
    if results.token_b_amount > u64::MAX as u128 {
        return Err(SwapError::ConversionFailure);
    }
    let token_b_amount = if token_b_vault_amount < results.token_b_amount as u64 {
        token_b_vault_amount
    } else {
        results.token_b_amount as u64
    };
    if token_b_amount < minimum_token_b_amount {
        return Err(SwapError::ExceededSlippage);
    }
    if !(token_b_amount > 0 || token_b_vault_amount == 0) {
        return Err(SwapError::ZeroTradingTokens);
    }
    Ok(WithdrawAllTokenTypes {
        pool_token_amount: burn as u64,
        token_a_amount,
        token_b_amount,
        fee: withdraw_fee as u64,
    })
}


/// Whether two account keys are the same.
fn same_key(a: &[u8; 32], b: &[u8; 32]) -> (r: bool)
    ensures
        r == (a@ == b@),
{
    let mut i: usize = 0;
    while i < 32
        invariant
            i <= 32,
            a@.len() == 32,
            b@.len() == 32,
            forall|j: int| 0 <= j < i ==> a@[j] == b@[j],
        decreases 32 - i,
    {
        if a[i] != b[i] {
            assert(a@[i as int] != b@[i as int]);
            return false;
        }
        i = i + 1;
    }
    assert(a@ =~= b@);
    true
}

/// Checks that neither user token account given for a withdrawal is the
/// pool's vault of that token.
pub fn validate_swap_inputs(
    token_a_vault: &[u8; 32],
    token_a_user_ata: &[u8; 32],
    token_b_vault: &[u8; 32],
    token_b_user_ata: &[u8; 32],
) -> (r: Result<(), SwapError>)
    ensures
        r is Ok <==> (token_a_vault@ != token_a_user_ata@ && token_b_vault@ != token_b_user_ata@),
        r is Err ==> r == Err::<(), SwapError>(SwapError::IncorrectSwapAccount),
{
    if same_key(token_a_vault, token_a_user_ata) {
        return Err(SwapError::IncorrectSwapAccount);
    }
    if same_key(token_b_vault, token_b_user_ata) {
        return Err(SwapError::IncorrectSwapAccount);
    }
    Ok(())
}

} // verus!
