use hyperplane::calculator::{pool_tokens_to_trading_tokens, RoundDirection, TradeDirection};
use hyperplane::constant_price::ConstantPriceCurve;
use hyperplane::constant_product::ConstantProductCurve;
use hyperplane::curve::SwapCurve;
use hyperplane::error::SwapError;
use hyperplane::offset::OffsetCurve;
use hyperplane::stable::{decimals_to_factor, scale_swap_inputs, scale_swap_outputs, StableCurve};
use hyperplane::wide::U256;

#[test]
fn opposite_is_an_involution() {
    for d in [TradeDirection::AtoB, TradeDirection::BtoA] {
        assert_ne!(d.opposite(), d);
        assert_eq!(d.opposite().opposite(), d);
    }
}

#[test]
fn deposit_does_not_dilute_on_examples() {
    for (supply, a, b, delta) in [(10u128, 2u128, 49u128, 5u128), (101, 100, 202, 5), (7, 1_000_003, 999_999_937, 3)] {
        let r = pool_tokens_to_trading_tokens(delta, supply, a, b, RoundDirection::Ceiling).unwrap();
        assert!((a + r.token_a_amount) * supply >= a * (supply + delta));
        assert!((b + r.token_b_amount) * supply >= b * (supply + delta));
    }
}

#[test]
fn withdraw_keeps_reserve_share_on_examples() {
    for (supply, a, b, delta) in [(10u128, 2u128, 49u128, 5u128), (101, 100, 202, 5), (100, 999, 1, 1)] {
        let r = pool_tokens_to_trading_tokens(delta, supply, a, b, RoundDirection::Floor).unwrap();
        assert!((a - r.token_a_amount) * supply >= a * (supply - delta));
        assert!((b - r.token_b_amount) * supply >= b * (supply - delta));
    }
}

#[test]
fn split_errors() {
    assert_eq!(
        pool_tokens_to_trading_tokens(1, 0, 5, 5, RoundDirection::Floor),
        Err(SwapError::DivideByZero)
    );
    assert_eq!(
        pool_tokens_to_trading_tokens(u128::MAX, 1, 2, 0, RoundDirection::Floor),
        Err(SwapError::ArithmeticOverflow)
    );
}

#[test]
fn constant_product_swap() {
    let curve = ConstantProductCurve {};
    let r = curve.swap_without_fees(100, 1_000, 1_000, TradeDirection::AtoB).unwrap();
    assert_eq!((r.source_amount_swapped, r.destination_amount_swapped), (100, 90));
    assert!((1_000 + 100) * (1_000 - 90) >= 1_000 * 1_000);
    let tiny = curve.swap_without_fees(1, 1_000, 10, TradeDirection::AtoB).unwrap();
    assert_eq!((tiny.source_amount_swapped, tiny.destination_amount_swapped), (0, 0));
    assert_eq!(
        curve.swap_without_fees(1, u128::MAX, 2, TradeDirection::AtoB),
        Err(SwapError::ArithmeticOverflow)
    );
    assert_eq!(curve.validate_supply(1, 0), Err(SwapError::EmptySupply));
}

#[test]
fn constant_price_swap() {
    let curve = ConstantPriceCurve { token_b_price: 3 };
    let r = curve.swap_without_fees(10, 0, 0, TradeDirection::AtoB).unwrap();
    assert_eq!((r.source_amount_swapped, r.destination_amount_swapped), (9, 3));
    let r = curve.swap_without_fees(10, 0, 0, TradeDirection::BtoA).unwrap();
    assert_eq!((r.source_amount_swapped, r.destination_amount_swapped), (10, 30));
    assert_eq!(ConstantPriceCurve { token_b_price: 0 }.validate(), Err(SwapError::InvalidCurve));
    assert_eq!(curve.validate_supply(0, 1), Ok(()));
    assert_eq!(curve.validate_supply(0, 0), Err(SwapError::EmptySupply));
}

#[test]
fn offset_swap() {
    let curve = OffsetCurve { token_b_offset: 1_000 };
    let r = curve.swap_without_fees(100, 1_000, 0, TradeDirection::AtoB).unwrap();
    assert_eq!((r.source_amount_swapped, r.destination_amount_swapped), (100, 90));
    let r = curve.swap_without_fees(100, 0, 1_000, TradeDirection::BtoA).unwrap();
    assert_eq!((r.source_amount_swapped, r.destination_amount_swapped), (100, 90));
    assert!(!curve.allows_deposits());
    assert_eq!(curve.validate_supply(1, 0), Ok(()));
    assert_eq!(OffsetCurve { token_b_offset: 0 }.validate(), Err(SwapError::InvalidCurve));
}

#[test]
fn swap_curve_dispatch() {
    let stable = SwapCurve::Stable(StableCurve::new(100, 6, 6).unwrap());
    let r = stable.swap_without_fees(10, 1_000, 1_000, TradeDirection::AtoB).unwrap();
    assert_eq!((r.source_amount_swapped, r.destination_amount_swapped), (10, 9));
    assert!(stable.allows_deposits());
    assert_eq!(stable.validate(), Ok(()));
    assert_eq!(stable.new_pool_supply(), 1_000_000_000);
    let offset = SwapCurve::Offset(OffsetCurve { token_b_offset: 1_000 });
    assert!(!offset.allows_deposits());
    let product = SwapCurve::ConstantProduct(ConstantProductCurve {});
    assert_eq!(product.validate_supply(0, 1), Err(SwapError::EmptySupply));
}

#[test]
fn stable_validation() {
    assert_eq!(StableCurve { amp: 1, token_a_factor: 1, token_b_factor: 1 }.validate(), Err(SwapError::InvalidCurve));
    assert_eq!(StableCurve { amp: 1_000_000, token_a_factor: 1, token_b_factor: 1 }.validate(), Err(SwapError::InvalidCurve));
    assert_eq!(StableCurve { amp: 2, token_a_factor: 0, token_b_factor: 1 }.validate(), Err(SwapError::InvalidCurve));
    assert_eq!(StableCurve { amp: 999_999, token_a_factor: 1, token_b_factor: 1 }.validate(), Ok(()));
    let curve = StableCurve { amp: 100, token_a_factor: 1, token_b_factor: 1 };
    assert_eq!(curve.validate_supply(0, 5), Err(SwapError::EmptySupply));
    assert_eq!(curve.validate_supply(5, 5), Ok(()));
}

#[test]
fn stable_factors_and_scaling() {
    assert_eq!(decimals_to_factor(6, 9), Ok((1_000, 1)));
    assert_eq!(decimals_to_factor(9, 6), Ok((1, 1_000)));
    assert_eq!(decimals_to_factor(0, 25), Err(SwapError::ArithmeticOverflow));
    let curve = StableCurve::new(100, 6, 9).unwrap();
    assert_eq!(scale_swap_inputs(&curve, 10, 1_000, 1_000_000, TradeDirection::AtoB), Ok((10_000, 1_000_000, 1_000_000)));
    assert_eq!(scale_swap_inputs(&curve, 10, 1_000_000, 1_000, TradeDirection::BtoA), Ok((10, 1_000_000, 1_000_000)));
    assert_eq!(scale_swap_outputs(&curve, 1_001, TradeDirection::BtoA), Ok(2));
    assert_eq!(scale_swap_outputs(&curve, 1_000, TradeDirection::BtoA), Ok(1));
    let broken = StableCurve { amp: 100, token_a_factor: 0, token_b_factor: 1 };
    assert_eq!(
        broken.swap_without_fees(10, 1_000, 1_000, TradeDirection::AtoB),
        Err(SwapError::CalculationFailure)
    );
}

#[test]
fn stable_swap_does_not_lower_d() {
    let curve = StableCurve::new(100, 6, 6).unwrap();
    for (dx, x, y) in [(1_000_000u128, 1_000_000u128, 1_000_000u128), (37, 5_000, 9_000), (123_456, 7_654_321, 1_234_567)] {
        let r = curve.swap_without_fees(dx, x, y, TradeDirection::AtoB).unwrap();
        let before = curve.normalized_value(x, y).unwrap();
        let after = curve
            .normalized_value(x + r.source_amount_swapped, y - r.destination_amount_swapped)
            .unwrap();
        assert!(after >= before);
        assert!(after - before <= 1);
    }
}

fn scale_decimal(amount: u128, current_decimals: u8, new_decimals: u8, round_up: bool) -> u128 {
    if current_decimals > new_decimals {
        let factor = 10_u128.pow((current_decimals - new_decimals) as u32);
        let amt = amount / factor;
        if round_up && amount % factor > 0 { amt + 1 } else { amt }
    } else {
        amount * 10_u128.pow((new_decimals - current_decimals) as u32)
    }
}

#[test]
fn stable_swap_is_invariant_under_decimals() {
    let amp = 100;
    let reference = StableCurve::new(amp, 6, 6).unwrap();
    for (da, db) in [(7u8, 9u8), (9, 7), (12, 8)] {
        let mismatched = StableCurve::new(amp, da, db).unwrap();
        for (dx, x, y) in [(1_000u128, 100_000u128, 100_000u128), (5_000_000, 1_000_000_000, 2_000_000_000)] {
            let expected = reference.swap_without_fees(dx, x, y, TradeDirection::AtoB).unwrap();
            let got = mismatched
                .swap_without_fees(
                    scale_decimal(dx, 6, da, false),
                    scale_decimal(x, 6, da, false),
                    scale_decimal(y, 6, db, false),
                    TradeDirection::AtoB,
                )
                .unwrap();
            assert_eq!(expected.source_amount_swapped, scale_decimal(got.source_amount_swapped, da, 6, true));
            let dst = scale_decimal(got.destination_amount_swapped, db, 6, false);
            assert!(expected.destination_amount_swapped.abs_diff(dst) <= 1);
        }
    }
}

#[test]
fn wide_arithmetic() {
    let a = U256::from_u128(u128::MAX);
    let b = U256::from_u128(3);
    let p = a.try_mul(b).unwrap();
    assert_eq!(p.0, [u64::MAX - 2, u64::MAX, 2, 0]);
    assert_eq!(p.try_div(b).unwrap().0, a.0);
    assert_eq!(a.try_add(b).unwrap().0, [2, 0, 1, 0]);
    assert_eq!(b.try_sub(a).unwrap_err(), SwapError::ArithmeticOverflow);
    assert_eq!(a.try_div(U256::from_u128(0)).unwrap_err(), SwapError::DivideByZero);
    assert_eq!(U256::from_u128(7).try_ceil_div(U256::from_u128(2)).unwrap().0, [4, 0, 0, 0]);
    assert!(U256::from_u128(1).try_ceil_div(U256::from_u128(2)).is_none());
    assert_eq!(p.try_to_u128(SwapError::ConversionFailure), Err(SwapError::ConversionFailure));
    assert_eq!(b.try_to_u128(SwapError::ConversionFailure), Ok(3));
    let huge = U256([0, 0, 0, 1]);
    assert_eq!(huge.try_mul(huge).unwrap_err(), SwapError::ArithmeticOverflow);
}
