use hyperplane::error::SwapError;
use hyperplane::transfer_fee::{
    add_inverse_transfer_fee, add_inverse_transfer_fee2, round_transfer_fees_if_needed,
    sub_input_transfer_fees, sub_transfer_fee, sub_transfer_fee2, Fees, TransferFee,
    TransferFeeConfig,
};

const EPOCH: u64 = 0;

fn mint_with_transfer_fee(transfer_fee_bps: u16) -> Option<TransferFeeConfig> {
    let transfer_fee = TransferFee {
        epoch: EPOCH,
        maximum_fee: u64::MAX,
        transfer_fee_basis_points: transfer_fee_bps,
    };
    Some(TransferFeeConfig { older_transfer_fee: transfer_fee, newer_transfer_fee: transfer_fee })
}

fn fees(
    owner_trade_fee_numerator: u64,
    owner_trade_fee_denominator: u64,
    host_fee_numerator: u64,
    host_fee_denominator: u64,
) -> Fees {
    Fees {
        owner_trade_fee_numerator,
        owner_trade_fee_denominator,
        host_fee_numerator,
        host_fee_denominator,
        owner_withdraw_fee_numerator: 0,
        owner_withdraw_fee_denominator: 0,
    }
}

fn no_fees() -> Fees {
    fees(0, 0, 0, 0)
}

#[test]
fn test_sub_transfer_fee_when_no_transfer_fees() {
    let mint = mint_with_transfer_fee(0);
    let amount = sub_transfer_fee2(mint, EPOCH, 10_000).unwrap();
    assert_eq!(amount, 10_000);
}

#[test]
fn test_sub_transfer_fee_when_10_bps_transfer_fee() {
    let mint = mint_with_transfer_fee(10);
    let amount = sub_transfer_fee2(mint, EPOCH, 10_000).unwrap();
    assert_eq!(amount, 9990);
}

#[test]
fn test_sub_transfer_fee_rounds_up_when_small_fee() {
    let mint = mint_with_transfer_fee(10);
    let amount = sub_transfer_fee2(mint, EPOCH, 100).unwrap();
    assert_eq!(amount, 99);
}

#[test]
fn test_add_inverse_transfer_fee_when_no_transfer_fees() {
    let mint = mint_with_transfer_fee(0);
    let amount = add_inverse_transfer_fee2(mint, EPOCH, 10_000).unwrap();
    assert_eq!(amount, 10_000);
}

#[test]
fn test_add_inverse_transfer_fee_when_10_bps_transfer_fee() {
    let mint = mint_with_transfer_fee(10);
    let amount = add_inverse_transfer_fee2(mint, EPOCH, 9990).unwrap();
    assert_eq!(amount, 10_000);
}

#[test]
fn test_add_inverse_transfer_fee_rounds_up_when_small_fee() {
    let mint = mint_with_transfer_fee(10);
    let amount = add_inverse_transfer_fee2(mint, EPOCH, 100).unwrap();
    assert_eq!(amount, 101);
}

#[test]
fn test_sub_then_add_inverse_transfer_fee_when_10_bps_transfer_fee() {
    let mint = mint_with_transfer_fee(10);
    let receive_amount = sub_transfer_fee2(mint, EPOCH, 10_000_000).unwrap();
    let original = add_inverse_transfer_fee2(mint, EPOCH, receive_amount).unwrap();
    assert_eq!(original, 10_000_000);
}

#[test]
fn test_sub_input_transfer_fee_when_no_transfer_fees_or_protocol_fees() {
    let mint = mint_with_transfer_fee(0);
    let amount = sub_input_transfer_fees(mint.map(|c| (c, EPOCH)), &no_fees(), 10_000, false).unwrap();
    assert_eq!(amount, 10_000);
}

#[test]
fn test_sub_input_transfer_fee_when_10bps_transfer_fees_and_no_protocol_fees() {
    let mint = mint_with_transfer_fee(10);
    let amount = sub_input_transfer_fees(mint.map(|c| (c, EPOCH)), &no_fees(), 10_000, false).unwrap();
    assert_eq!(amount, 9990);
}

#[test]
fn test_sub_input_transfer_fee_when_10bps_transfer_fees_and_owner_protocol_fees() {
    let mint = mint_with_transfer_fee(10);
    let fees = fees(10, 10_000, 0, 0);
    let amount = sub_input_transfer_fees(mint.map(|c| (c, EPOCH)), &fees, 10_000_000, false).unwrap();
    assert_eq!(amount, 9_990_000);
}

#[test]
fn test_sub_input_transfer_fee_when_10bps_transfer_fees_and_owner_and_host_protocol_fees() {
    let mint = mint_with_transfer_fee(10);
    let fees = fees(10, 10_000, 10, 10_000);
    let amount =
        sub_input_transfer_fees(mint.map(|c| (c, EPOCH)), &fees, 100_000_000_000_000, true).unwrap();
    assert_eq!(amount, 99_900_000_000_000);
}

#[test]
fn test_sub_input_transfer_fee_when_10bps_transfer_fees_and_owner_and_small_host_protocol_fees() {
    let mint = mint_with_transfer_fee(10);
    let fees = fees(10, 10_000, 10, 10_000);
    let amount = sub_input_transfer_fees(mint.map(|c| (c, EPOCH)), &fees, 100_000_000, true).unwrap();
    assert_eq!(amount, 99_899_999);
}

#[test]
fn test_sub_input_transfer_fee_when_10bps_transfer_fees_and_both_owner_and_host_protocol_fees_small() {
    let mint = mint_with_transfer_fee(10);
    let fees = fees(10, 10_000, 10, 10_000);
    let amount = sub_input_transfer_fees(mint.map(|c| (c, EPOCH)), &fees, 10_000_000, true).unwrap();
    assert_eq!(amount, 9_989_999);
}

/// Takes the transfer fees off `amount`, re-splits the net amount into its
/// legs, adds each leg's transfer fee back, and checks that the total is at
/// most `amount` and at most 3 below it.
fn check_input_fees_round_trip(amount: u64, fees: Fees, transfer_fee_bps: u16, host_fees: bool) {
    let mint = mint_with_transfer_fee(transfer_fee_bps);
    let amount_sub_xfer_fees =
        sub_input_transfer_fees(mint.map(|c| (c, EPOCH)), &fees, amount, host_fees).unwrap();
    let owner_and_host_fee = fees.owner_trading_fee(amount_sub_xfer_fees.into()).unwrap();
    let host_fee = if host_fees { fees.host_fee(owner_and_host_fee).unwrap() as u64 } else { 0 };
    let owner_fee = (owner_and_host_fee as u64).saturating_sub(host_fee);
    let vault_amount = amount_sub_xfer_fees.saturating_sub(owner_and_host_fee as u64);
    assert_eq!(amount_sub_xfer_fees, vault_amount + owner_fee + host_fee);
    let vault_amount_add_fees = add_inverse_transfer_fee2(mint, EPOCH, vault_amount).unwrap();
    let owner_amount_add_fees = add_inverse_transfer_fee2(mint, EPOCH, owner_fee).unwrap();
    let host_amount_add_fees =
        if host_fees { add_inverse_transfer_fee2(mint, EPOCH, host_fee).unwrap() } else { 0 };
    let amount_with_fees = vault_amount_add_fees + owner_amount_add_fees + host_amount_add_fees;
    assert!(amount_with_fees <= amount);
    assert!(amount - amount_with_fees <= 3, "diff={}", amount - amount_with_fees);
}

#[test]
fn man_test() {
    check_input_fees_round_trip(2006024888, fees(2933, 14681, 58494, 69432), 226, true);
}

#[test]
fn man_test1111() {
    check_input_fees_round_trip(23210, fees(3819, 31977, 0, 1), 981, false);
}

#[test]
fn man_test_2() {
    let fees = fees(14842, 52976, 43369, 89689);
    let mint = mint_with_transfer_fee(394);
    let host_fee = 171603172_u64;
    let amount_sub_xfer_fees = 1216786566_u64;
    let owner_and_host_fee = fees.owner_trading_fee(amount_sub_xfer_fees.into()).unwrap();
    let _host_fee_sub_xfer_fees = fees.host_fee(owner_and_host_fee).unwrap() as u64;
    let host_fee_xfer_fee = mint.unwrap().get_epoch_fee(EPOCH).calculate_fee(host_fee).unwrap();
    let host_fee_sub_xfer_fee = host_fee.saturating_sub(host_fee_xfer_fee);
    let host_fee_readd_xfer_fee = add_inverse_transfer_fee2(mint, EPOCH, host_fee_sub_xfer_fee).unwrap();
    assert!(
        host_fee_readd_xfer_fee <= host_fee,
        "host_fee_readd_xfer_fee: {}, host_fee: {}",
        host_fee_readd_xfer_fee,
        host_fee
    );
}

#[test]
fn transfer_fee_is_capped_at_maximum() {
    let fee = TransferFee { epoch: 0, maximum_fee: 5, transfer_fee_basis_points: 100 };
    assert_eq!(fee.calculate_fee(10_000), Some(5));
    assert_eq!(fee.calculate_fee(300), Some(3));
    assert_eq!(fee.calculate_fee(0), Some(0));
}

#[test]
fn newer_fee_schedule_applies_from_its_epoch() {
    let older = TransferFee { epoch: 0, maximum_fee: u64::MAX, transfer_fee_basis_points: 10 };
    let newer = TransferFee { epoch: 5, maximum_fee: u64::MAX, transfer_fee_basis_points: 100 };
    let config = TransferFeeConfig { older_transfer_fee: older, newer_transfer_fee: newer };
    assert_eq!(sub_transfer_fee(Some((config, 4)), 10_000), Ok(9_990));
    assert_eq!(sub_transfer_fee(Some((config, 5)), 10_000), Ok(9_900));
    assert_eq!(sub_transfer_fee(None, 10_000), Ok(10_000));
}

#[test]
fn transfer_fee_rejects_amounts_beyond_u64() {
    let config = mint_with_transfer_fee(10).unwrap();
    let too_big = u64::MAX as u128 + 1;
    assert_eq!(sub_transfer_fee(Some((config, EPOCH)), too_big), Err(SwapError::ConversionFailure));
    assert_eq!(add_inverse_transfer_fee(Some((config, EPOCH)), too_big), Err(SwapError::ConversionFailure));
}

#[test]
fn transfer_fee_round_trip_loses_at_most_one() {
    let config = mint_with_transfer_fee(37).unwrap();
    for amount in [1u128, 2, 99, 1_000, 123_457, 10_000_000] {
        let received = sub_transfer_fee(Some((config, EPOCH)), amount).unwrap();
        let original = add_inverse_transfer_fee(Some((config, EPOCH)), received).unwrap();
        assert!(original <= amount && amount - original <= 1, "amount={} original={}", amount, original);
    }
}

#[test]
fn rounding_keeps_one_token_arriving() {
    let config = mint_with_transfer_fee(5_000).unwrap();
    assert_eq!(round_transfer_fees_if_needed(Some((config, EPOCH)), 1), Ok(2));
    assert_eq!(round_transfer_fees_if_needed(Some((config, EPOCH)), 10), Ok(5));
}

#[test]
fn owner_fee_with_zero_denominator_fails() {
    let fees = fees(1, 0, 0, 0);
    assert_eq!(fees.owner_trading_fee(100), Err(SwapError::DivideByZero));
    let mint = mint_with_transfer_fee(10);
    assert_eq!(
        sub_input_transfer_fees(mint.map(|c| (c, EPOCH)), &fees, 100, false),
        Err(SwapError::DivideByZero)
    );
}
