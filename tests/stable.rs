use hyperplane::calculator::{RoundDirection, TradeDirection, INITIAL_SWAP_POOL_AMOUNT};
use hyperplane::stable::StableCurve;

const F5: u128 = 10_u128.pow(5);
const F6: u128 = 10_u128.pow(6);
const F7: u128 = 10_u128.pow(7);
const F8: u128 = 10_u128.pow(8);
const F9: u128 = 10_u128.pow(8);
const F10: u128 = 10_u128.pow(10);
const F11: u128 = 10_u128.pow(11);
const F12: u128 = 10_u128.pow(12);

#[allow(clippy::too_many_arguments)]
fn check_swap(
    amp: u64,
    token_a_decimals: u8,
    token_b_decimals: u8,
    source_token_amount: u128,
    pool_source_amount: u128,
    pool_destination_amount: u128,
    expected_source_amount_swapped: u128,
    expected_destination_amount_swapped: u128,
) {
    let curve = StableCurve::new(amp, token_a_decimals, token_b_decimals).unwrap();
    let results = curve
        .swap_without_fees(
            source_token_amount,
            pool_source_amount,
            pool_destination_amount,
            TradeDirection::AtoB,
        )
        .unwrap();
    assert_eq!(results.source_amount_swapped, expected_source_amount_swapped);
    assert_eq!(results.destination_amount_swapped, expected_destination_amount_swapped);
}

fn check_split(
    round: RoundDirection,
    pool_token_a_amount: u128,
    pool_token_b_amount: u128,
    pool_token_amount: u128,
    pool_token_supply: u128,
    expected_token_a: u128,
    expected_token_b: u128,
) {
    let curve = StableCurve::new(100, 6, 6).unwrap();
    let results = curve
        .pool_tokens_to_trading_tokens(
            pool_token_amount,
            pool_token_supply,
            pool_token_a_amount,
            pool_token_b_amount,
            round,
        )
        .unwrap();
    assert_eq!(results.token_a_amount, expected_token_a);
    assert_eq!(results.token_b_amount, expected_token_b);
}

fn check_pool_token_rate(
    token_a: u128,
    token_b: u128,
    deposit: u128,
    supply: u128,
    expected_a: u128,
    expected_b: u128,
) {
    let calculator = StableCurve { amp: 1, token_a_factor: 0, token_b_factor: 0 };
    let results = calculator
        .pool_tokens_to_trading_tokens(deposit, supply, token_a, token_b, RoundDirection::Ceiling)
        .unwrap();
    assert_eq!(results.token_a_amount, expected_a);
    assert_eq!(results.token_b_amount, expected_b);
}

#[test]
fn initial_pool_amount() {
    let calculator = StableCurve { amp: 1, token_a_factor: 1, token_b_factor: 1 };
    assert_eq!(calculator.new_pool_supply(), INITIAL_SWAP_POOL_AMOUNT);
}

#[test]
fn trading_token_conversion() {
    check_pool_token_rate(2, 49, 5, 10, 1, 25);
    check_pool_token_rate(100, 202, 5, 101, 5, 10);
    check_pool_token_rate(5, 501, 2, 10, 1, 101);
}

#[test]
fn swap_zero() {
    let curve = StableCurve { amp: 100, token_a_factor: 1, token_b_factor: 1 };
    let result = curve.swap_without_fees(0, 100, 1_000_000_000_000_000, TradeDirection::AtoB);
    let result = result.unwrap();
    assert_eq!(result.source_amount_swapped, 0);
    assert_eq!(result.destination_amount_swapped, 0);
}

#[test]
fn run_swap_scenarios() {
    check_swap(
        75,
        6,
        6,
        1_000_000,
        1_000_000,
        1_000_000,
        1_000_000,
        924_745,
    );
    check_swap(
        100,
        6,
        6,
        1_000_000,
        1_000_000,
        1_000_000,
        1_000_000,
        934_112,
    );
    check_swap(
        1000,
        6,
        6,
        1_000_000,
        1_000_000,
        1_000_000,
        1_000_000,
        978_133,
    );
    check_swap(
        10_000,
        6,
        6,
        1_000_000,
        1_000_000,
        1_000_000,
        1_000_000,
        992_978,
    );
    check_swap(
        100_000,
        6,
        6,
        1_000_000,
        1_000_000,
        1_000_000,
        1_000_000,
        997_768,
    );
    check_swap(
        1_000_000,
        6,
        6,
        1_000_000,
        1_000_000,
        1_000_000,
        1_000_000,
        999_293,
    );
    check_swap(
        10_000_000,
        6,
        6,
        1_000_000,
        1_000_000,
        1_000_000,
        1_000_000,
        999_776,
    );
    check_swap(
        100_000_000,
        6,
        6,
        1_000_000,
        1_000_000,
        1_000_000,
        1_000_000,
        999_929,
    );
    check_swap(
        1_000_000_000,
        6,
        6,
        1_000_000,
        1_000_000,
        1_000_000,
        1_000_000,
        999_977,
    );
    check_swap(
        1_000_000_000,
        6,
        6,
        10_000_000,
        1_000_000,
        1_000_000,
        10_000_000,
        999_999,
    );
    check_swap(
        1_000_000_000,
        6,
        6,
        100_000_000,
        1_000_000,
        1_000_000,
        100_000_000,
        999_999,
    );
    check_swap(
        1_000_000_000,
        6,
        6,
        10_000_000,
        1_000_000,
        1,
        10_000_000,
        0,
    );
    check_swap(
        1_000_000_000,
        6,
        6,
        10_000_000,
        1_000_000,
        1,
        10_000_000,
        0,
    );
    check_swap(
        1_000_000_000,
        6,
        6,
        1,
        1_000_000,
        1,
        1,
        0,
    );
    check_swap(
        1,
        6,
        6,
        100,
        100_000,
        127_700,
        100,
        113,
    );
    check_swap(
        1,
        6,
        6,
        10,
        10_000,
        12_770,
        10,
        11,
    );
    check_swap(
        1,
        6,
        6,
        1,
        1_000,
        1_277,
        1,
        1,
    );
    check_swap(
        1,
        6,
        6,
        1,
        127,
        127,
        1,
        0,
    );
    check_swap(
        100,
        6,
        9,
        10,
        1_000,
        1_000_000,
        10,
        9_999,
    );
    check_swap(
        100,
        6,
        8,
        10,
        1_000,
        100_000,
        10,
        999,
    );
    check_swap(
        100,
        6,
        7,
        10,
        1_000,
        10_000,
        10,
        99,
    );
    check_swap(
        100,
        6,
        6,
        10,
        1_000,
        1_000,
        10,
        9,
    );
    check_swap(
        100,
        6,
        5,
        10,
        1_000,
        100,
        10,
        0,
    );
    check_swap(
        100,
        6,
        9,
        1,
        2,
        1,
        1,
        0,
    );
    check_swap(
        100,
        6,
        9,
        10_000 * F6,
        1_000_000 * F6,
        1_000_000 * F9,
        10_000 * F6,
        8_646_023887918,
    );
    check_swap(
        1_000,
        6,
        9,
        10_000 * F6,
        1_000_000 * F6,
        1_000_000 * F9,
        10_000 * F6,
        9_837_239410620,
    );
    check_swap(
        100,
        6,
        9,
        10_000 * F6,
        5_000_000 * F6,
        2_500_000 * F9,
        10_000 * F6,
        6_597_668227728,
    );
    check_swap(
        1000,
        6,
        9,
        10_000 * F6,
        5_000_000 * F6,
        2_500_000 * F9,
        10_000 * F6,
        9_464_275425005,
    );
    check_swap(
        1_000,
        6,
        9,
        1_000_000 * F6,
        500_000_000 * F6,
        400_000_000 * F9,
        1_000_000 * F6,
        977_451_470791890,
    );
    check_swap(
        10_000,
        6,
        5,
        1_000_000 * F6,
        500_000_000 * F6,
        400_000_000 * F5,
        1_000_000 * F6,
        999_976_98198,
    );
    check_swap(
        10_000,
        6,
        6,
        1_000_000 * F6,
        500_000_000 * F6,
        400_000_000 * F6,
        1_000_000 * F6,
        999_976_981984,
    );
    check_swap(
        10_000,
        6,
        7,
        1_000_000 * F6,
        500_000_000 * F6,
        400_000_000 * F7,
        1_000_000 * F6,
        999_976_9819850,
    );
    check_swap(
        10_000,
        6,
        8,
        1_000_000 * F6,
        500_000_000 * F6,
        400_000_000 * F8,
        1_000_000 * F6,
        999_976_98198500,
    );
    check_swap(
        1_000,
        6,
        9,
        1_000_000 * F6,
        500_000_000 * F6,
        400_000_000 * F9,
        1_000_000 * F6,
        977_451_470791890,
    );
    check_swap(
        10_000,
        6,
        9,
        1_000_000 * F6,
        500_000_000 * F6,
        400_000_000 * F9,
        1_000_000 * F6,
        997_684_910256419,
    );
    check_swap(
        1000,
        6,
        10,
        1_000_000 * F6,
        500_000_000 * F6,
        400_000_000 * F10,
        1_000_000 * F6,
        999_770_0601323903,
    );
    check_swap(
        1000,
        6,
        11,
        1_000_000 * F6,
        500_000_000 * F6,
        400_000_000 * F11,
        1_000_000 * F6,
        999_770_06013239031,
    );
    check_swap(
        1000,
        6,
        12,
        1_000_000 * F6,
        500_000_000 * F6,
        400_000_000 * F12,
        1_000_000 * F6,
        999_770_060132390312,
    );
    check_swap(
        500,
        9,
        9,
        1,
        100_000_000 * F9,
        100_000_999 * F9,
        1,
        1,
    );
    check_swap(
        50,
        9,
        9,
        1,
        100_000_000 * F9,
        100_000_999 * F9,
        1,
        1,
    );
    check_swap(
        5,
        9,
        9,
        1,
        100_000_000 * F9,
        100_000_999 * F9,
        1,
        1,
    );
    check_swap(
        19,
        6,
        6,
        1_081_921_530_148_278_930,
        8_428_871_396_984_204005,
        9_377_337_809_125_992025,
        1_081_921_530_148_278930,
        1_081_107_876_398_213723,
    );
    check_swap(
        19,
        7,
        7,
        108_192_153_014_8278930,
        842_887_139_698_4204005,
        937_733_780_912_5992025,
        108_192_153_014_8278930,
        108_110_787_639_8213723,
    );
}

#[test]
fn run_withdraw_scenarios() {
    check_split(
        RoundDirection::Floor,
        100_000_000 * F6,
        100_000_000 * F6,
        100_000_000 * F6,
        100_000_000 * F6,
        100_000_000 * F6,
        100_000_000 * F6,
    );
    check_split(
        RoundDirection::Floor,
        100_000_000 * F12,
        100_000_000 * F6,
        1_000_000 * F6,
        10_000_000 * F6,
        10_000_000 * F12,
        10_000_000 * F6,
    );
    check_split(
        RoundDirection::Floor,
        999,
        1,
        1,
        100,
        9,
        0,
    );
    check_split(
        RoundDirection::Floor,
        2,
        49,
        5,
        10,
        1,
        24,
    );
    check_split(
        RoundDirection::Floor,
        100,
        202,
        5,
        101,
        4,
        10,
    );
    check_split(
        RoundDirection::Floor,
        5,
        501,
        2,
        10,
        1,
        100,
    );
}

#[test]
fn run_deposit_scenarios() {
    check_split(
        RoundDirection::Ceiling,
        100_000_000 * F6,
        100_000_000 * F6,
        100_000_000 * F6,
        100_000_000 * F6,
        100_000_000 * F6,
        100_000_000 * F6,
    );
    check_split(
        RoundDirection::Ceiling,
        100_000_000 * F12,
        100_000_000 * F6,
        1_000_000 * F6,
        10_000_000 * F6,
        10_000_000 * F12,
        10_000_000 * F6,
    );
    check_split(
        RoundDirection::Ceiling,
        999,
        1,
        1,
        100,
        10,
        0,
    );
    check_split(
        RoundDirection::Ceiling,
        2,
        49,
        5,
        10,
        1,
        25,
    );
    check_split(
        RoundDirection::Ceiling,
        100,
        202,
        5,
        101,
        5,
        10,
    );
    check_split(
        RoundDirection::Ceiling,
        5,
        501,
        2,
        10,
        1,
        101,
    );
}
