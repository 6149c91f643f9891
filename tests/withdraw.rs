use hyperplane::constant_price::ConstantPriceCurve;
use hyperplane::curve::SwapCurve;
use hyperplane::error::SwapError;
use hyperplane::stable::StableCurve;
use hyperplane::transfer_fee::Fees;
use hyperplane::withdraw::{handler, validate_swap_inputs, WithdrawAllTokenTypes};

fn withdraw_fees(numerator: u64, denominator: u64) -> Fees {
    Fees {
        owner_trade_fee_numerator: 0,
        owner_trade_fee_denominator: 0,
        host_fee_numerator: 0,
        host_fee_denominator: 0,
        owner_withdraw_fee_numerator: numerator,
        owner_withdraw_fee_denominator: denominator,
    }
}

fn stable() -> SwapCurve {
    SwapCurve::Stable(StableCurve::new(100, 6, 6).unwrap())
}

#[test]
fn withdraw_takes_fee_then_splits_down() {
    let r = handler(&stable(), &withdraw_fees(1, 100), 1_000, 10_000, 20_000, 100, 0, 0).unwrap();
    assert_eq!(
        r,
        WithdrawAllTokenTypes { pool_token_amount: 99, token_a_amount: 990, token_b_amount: 1_980, fee: 1 }
    );
}

#[test]
fn withdraw_rejects_slippage_and_zero_amounts() {
    assert_eq!(
        handler(&stable(), &withdraw_fees(0, 0), 1_000, 10_000, 20_000, 100, 1_001, 0),
        Err(SwapError::ExceededSlippage)
    );
    assert_eq!(
        handler(&stable(), &withdraw_fees(0, 0), 1_000, 5, 20_000, 100, 0, 0),
        Err(SwapError::ZeroTradingTokens)
    );
    assert_eq!(
        handler(&stable(), &withdraw_fees(0, 0), 0, 5, 5, 1, 0, 0),
        Err(SwapError::ZeroTradingTokens)
    );
    assert_eq!(
        handler(&stable(), &withdraw_fees(1, 0), 1_000, 5, 5, 1, 0, 0),
        Err(SwapError::FeeCalculationFailure)
    );
}

#[test]
fn withdraw_from_empty_side_is_allowed() {
    let r = handler(&stable(), &withdraw_fees(0, 0), 1_000, 10_000, 0, 100, 0, 0).unwrap();
    assert_eq!((r.token_a_amount, r.token_b_amount), (1_000, 0));
}

#[test]
fn withdraw_on_constant_price_counts_b_at_its_price() {
    let curve = SwapCurve::ConstantPrice(ConstantPriceCurve { token_b_price: 10 });
    let r = handler(&curve, &withdraw_fees(0, 0), 100, 1_000, 105, 10, 0, 0).unwrap();
    assert_eq!((r.token_a_amount, r.token_b_amount), (100, 10));
}

#[test]
fn user_accounts_must_not_be_vaults() {
    let vault_a = [1u8; 32];
    let vault_b = [2u8; 32];
    let mut user = [1u8; 32];
    assert_eq!(validate_swap_inputs(&vault_a, &user, &vault_b, &[3u8; 32]), Err(SwapError::IncorrectSwapAccount));
    user[31] = 9;
    assert_eq!(validate_swap_inputs(&vault_a, &user, &vault_b, &[3u8; 32]), Ok(()));
    assert_eq!(validate_swap_inputs(&vault_a, &user, &vault_b, &vault_b), Err(SwapError::IncorrectSwapAccount));
}
