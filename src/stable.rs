//! The stable-swap invariant calculator.
use vstd::arithmetic::div_mod::{lemma_fundamental_div_mod, lemma_fundamental_div_mod_converse};
use vstd::arithmetic::power::*;
use vstd::prelude::*;

use crate::calculator::{
    ceil_div, pool_tokens_to_trading_tokens, res_u128, res_u64, split_res, swap_res, split_spec, u128_bound,
    RoundDirection, SwapWithoutFeesResult, TradeDirection, TradingTokenResult,
    INITIAL_SWAP_POOL_AMOUNT,
};
use crate::error::SwapError;
use crate::wide::{u256_limit, wide_res, U256};

verus! {

const N_COINS: u8 = 2;

/// Cap on the steps of each Newton iteration.
pub const ITERATIONS: u16 = 256;

/// Minimum amplification coefficient.
pub const MIN_AMP: u64 = 1;

/// Maximum amplification coefficient.
pub const MAX_AMP: u64 = 1_000_000;

/// `Ann = amp * n` with `n = 2`, failing with `ArithmeticOverflow` past `u64`.
pub open spec fn ann_spec(amp: int) -> Result<int, SwapError> {
    if amp * 2 <= u64::MAX {
        Ok(amp * 2)
    } else {
        Err(SwapError::ArithmeticOverflow)
    }
}

/// Calculates `A * n`, the leverage used for deriving D.
///
/// `A * n` rather than `A * n**n`, because `D**n / prod(x)` loses precision
/// with a huge A.
fn compute_ann(amp: u64) -> (r: Result<u64, SwapError>)
    ensures
        res_u64(r) == ann_spec(amp as int),
{
    match amp.checked_mul(N_COINS as u64) {
        Some(v) => Ok(v),
        None => Err(SwapError::ArithmeticOverflow),
    }
}

/// `a * b` by repeated addition, as `try_u8_mul` computes it: `a` itself for
/// `b == 0`.
pub open spec fn u8_mul_spec(a: int, b: int) -> Result<int, SwapError> {
    if b == 0 {
        Ok(a)
    } else if a * b < u256_limit() {
        Ok(a * b)
    } else {
        Err(SwapError::ArithmeticOverflow)
    }
}

/// `a ** b` by repeated multiplication, as `try_u8_power` computes it: `a`
/// itself for `b == 0`.
pub open spec fn u8_power_spec(a: int, b: nat) -> Result<int, SwapError> {
    if b == 0 {
        Ok(a)
    } else if pow(a, b) < u256_limit() {
        Ok(pow(a, b))
    } else {
        Err(SwapError::ArithmeticOverflow)
    }
}

/// Returns `a` to the power of `b`.
fn try_u8_power(a: &U256, b: u8) -> (r: Result<U256, SwapError>)
    ensures
        wide_res(r) == u8_power_spec(a@ as int, b as nat),
{
    let mut result = *a;
    let mut i: u8 = 1;
    proof {
        lemma_pow1(a@ as int);
    }
    while i < b
        invariant
            1 <= i,
            b == 0 || i <= b,
            result@ == pow(a@ as int, i as nat),
            b == 0 ==> result@ == a@,
        decreases b - i,
    {
        proof {
            lemma_pow_adds(a@ as int, i as nat, 1);
            lemma_pow1(a@ as int);
        }
        match result.try_mul(*a) {
            Ok(v) => {
                result = v;
            },
            Err(e) => {
                proof {
                    assert(pow(a@ as int, (i + 1) as nat) == result@ * a@);
                    if a@ > 0 {
                        lemma_pow_increases(a@, (i + 1) as nat, b as nat);
                    } else {
                        assert(result@ * a@ == 0) by (nonlinear_arith)
                            requires a@ == 0;
                    }
                    assert(pow(a@ as int, b as nat) >= u256_limit());
                }
                return Err(e);
            },
        }
        i = i + 1;
    }
    Ok(result)
}

/// Returns `a` multiplied by `b`.
fn try_u8_mul(a: &U256, b: u8) -> (r: Result<U256, SwapError>)
    ensures
        wide_res(r) == u8_mul_spec(a@ as int, b as int),
{
    let mut result = *a;
    let mut i: u8 = 1;
    proof {
        a.lemma_bound();
    }
    while i < b
        invariant
            1 <= i,
            b == 0 || i <= b,
            b <= 1 ==> i == 1,
            result@ == a@ * i,
            a@ * i < u256_limit(),
        decreases b - i,
    {
        match result.try_add(*a) {
            Ok(v) => {
                assert(v@ == a@ * (i + 1)) by (nonlinear_arith)
                    requires v@ == result@ + a@, result@ == a@ * i;
                result = v;
            },
            Err(e) => {
                proof {
                    assert(a@ * b >= u256_limit()) by (nonlinear_arith)
                        requires
                            i + 1 <= b,
                            result@ == a@ * i,
                            result@ + a@ >= u256_limit(),
                            a@ >= 0,
                    ;
                }
                return Err(e);
            },
        }
        i = i + 1;
    }
    assert(b == 0 ==> result@ == a@);
    Ok(result)
}

/// One Newton step for D:
/// `D' = (Ann*S + D_P*n) * D / ((Ann - 1) * D + (n + 1) * D_P)`.
pub open spec fn next_d_spec(
    ann: int,
    d: int,
    d_product: int,
    sum_x: int,
) -> Result<int, SwapError> {
    let anns = ann * sum_x;
    let numerator = (anns + d_product * 2) * d;
    let denominator = d * (ann - 1) + d_product * 3;
    if anns >= u256_limit() || d_product * 2 >= u256_limit() || anns + d_product * 2
        >= u256_limit() || numerator >= u256_limit() || ann == 0 || d * (ann - 1) >= u256_limit()
        || d_product * 3 >= u256_limit() || denominator >= u256_limit() {
        Err(SwapError::ArithmeticOverflow)
    } else if denominator == 0 {
        Err(SwapError::DivideByZero)
    } else {
        Ok(numerator / denominator)
    }
}

/// D = (AnnS + D_P * n) * D / ((Ann - 1) * D + (n + 1) * D_P)
///
/// * `ann` - the amplification coefficient times n
/// * `d_init` - current approximate value of D
/// * `d_product` - D**(n+1) / (n**n * prod(x))
/// * `sum_x` - S, the sum of the balances
fn compute_next_d(
    ann: u64,
    d_init: &U256,
    d_product: &U256,
    sum_x: u128,
) -> (r: Result<U256, SwapError>)
    ensures
        wide_res(r) == next_d_spec(ann as int, d_init@ as int, d_product@ as int, sum_x as int),
{
    let anns = U256::from_u128(ann as u128).try_mul(U256::from_u128(sum_x))?;
    let dp2 = try_u8_mul(d_product, N_COINS)?;
    let numerator = anns.try_add(dp2)?.try_mul(*d_init)?;
    if ann == 0 {
        return Err(SwapError::ArithmeticOverflow);
    }
    let left = d_init.try_mul(U256::from_u128((ann - 1) as u128))?;
    let dp3 = try_u8_mul(d_product, N_COINS + 1)?;
    let denominator = left.try_add(dp3)?;
    numerator.try_div(denominator)
}


/// `|a - b|`.
pub open spec fn abs_diff_spec(a: int, b: int) -> int {
    if a >= b {
        a - b
    } else {
        b - a
    }
}

/// `D**(n+1) / (n**n * prod(x))`, staged as `D * D / (2a) * D / (2b)` to
/// keep the intermediates small; `a2` and `b2` are the doubled reserves.
pub open spec fn d_product_spec(d: int, a2: int, b2: int) -> Result<int, SwapError> {
    if d * d >= u256_limit() {
        Err(SwapError::ArithmeticOverflow)
    } else if a2 == 0 {
        Err(SwapError::DivideByZero)
    } else if (d * d / a2) * d >= u256_limit() {
        Err(SwapError::ArithmeticOverflow)
    } else if b2 == 0 {
        Err(SwapError::DivideByZero)
    } else {
        Ok((d * d / a2) * d / b2)
    }
}

/// Newton's iteration for D from the guess `d`, with at most `n` steps left:
/// it stops at the first step that moves D by at most one.
pub open spec fn d_iterate(
    ann: int,
    a2: int,
    b2: int,
    sum_x: int,
    d: int,
    n: nat,
) -> Result<int, SwapError>
    decreases n,
{
    if n == 0 {
        Ok(d)
    } else {
        match d_product_spec(d, a2, b2) {
            Err(e) => Err(e),
            Ok(dp) => match next_d_spec(ann, d, dp, sum_x) {
                Err(e) => Err(e),
                Ok(nd) => if abs_diff_spec(nd, d) <= 1 {
                    Ok(nd)
                } else {
                    d_iterate(ann, a2, b2, sum_x, nd, (n - 1) as nat)
                },
            },
        }
    }
}

/// The stable-swap invariant D of reserves `a` and `b`: zero for an empty
/// pool, else the result of at most 256 Newton steps from `D = a + b`.
pub open spec fn compute_d_spec(ann: int, a: int, b: int) -> Result<int, SwapError> {
    if a + b >= u128_bound() {
        Err(SwapError::ArithmeticOverflow)
    } else if a + b == 0 {
        Ok(0)
    } else {
        match d_iterate(ann, 2 * a, 2 * b, a + b, a + b, ITERATIONS as nat) {
            Err(e) => Err(e),
            Ok(d) => if d < u128_bound() {
                Ok(d)
            } else {
                Err(SwapError::ConversionFailure)
            },
        }
    }
}

/// Compute the stable swap invariant D, the solution of
///
/// `A * sum(x_i) * n**n + D = A * D * n**n + D**(n+1) / (n**n * prod(x_i))`
///
/// by Newton's method:
/// `D = (AnnS + D_P * n) * D / ((Ann - 1) * D + (n + 1) * D_P)`.
///
/// * `ann` - the amplification coefficient times n
/// * `amount_a` - the number of A tokens in the pool
/// * `amount_b` - the number of B tokens in the pool
fn compute_d(ann: u64, amount_a: u128, amount_b: u128) -> (r: Result<u128, SwapError>)
    ensures
        res_u128(r) == compute_d_spec(ann as int, amount_a as int, amount_b as int),
{
    let sum_x = match amount_a.checked_add(amount_b) {
        Some(v) => v,
        None => return Err(SwapError::ArithmeticOverflow),
    };
    if sum_x == 0 {
        return Ok(0);
    }
    let amount_a_times_coins = try_u8_mul(&U256::from_u128(amount_a), N_COINS)?;
    let amount_b_times_coins = try_u8_mul(&U256::from_u128(amount_b), N_COINS)?;
    let ghost a2 = amount_a_times_coins@ as int;
    let ghost b2 = amount_b_times_coins@ as int;
    assert(a2 == 2 * amount_a && b2 == 2 * amount_b);
    let ghost total = d_iterate(ann as int, a2, b2, sum_x as int, sum_x as int, ITERATIONS as nat);
    let one = U256::from_u128(1);
    let mut d = U256::from_u128(sum_x);
    let mut i: u16 = 0;
    let mut done = false;
    while i < ITERATIONS && !done
        invariant
            i <= ITERATIONS,
            sum_x > 0,
            sum_x == amount_a + amount_b,
            total == d_iterate(ann as int, a2, b2, sum_x as int, sum_x as int, ITERATIONS as nat),
            a2 == 2 * amount_a,
            b2 == 2 * amount_b,
            a2 == amount_a_times_coins@,
            b2 == amount_b_times_coins@,
            one@ == 1,
            total == (if done {
                Ok(d@ as int)
            } else {
                d_iterate(ann as int, a2, b2, sum_x as int, d@ as int, (ITERATIONS - i) as nat)
            }),
        decreases ITERATIONS - i,
    {
        let mut d_product = d;
        d_product = d_product.try_mul(d)?.try_div(amount_a_times_coins)?;
        d_product = d_product.try_mul(d)?.try_div(amount_b_times_coins)?;
        let d_previous = d;
        d = compute_next_d(ann, &d, &d_product, sum_x)?;
        if d.abs_diff(d_previous).le(one) {
            done = true;
        }
        i = i + 1;
    }
    d.try_to_u128(SwapError::ConversionFailure)
}


/// The rounded-up quotient `ceil(n / m)`, where a division that the
/// ceiling division refuses (a zero divisor, or a dividend below the
/// divisor) gives 0 for a zero dividend and 1 otherwise.
pub open spec fn ceil_or_one(n: int, m: int) -> int {
    if m == 0 || n < m {
        if n == 0 {
            0
        } else {
            1
        }
    } else {
        ceil_div(n, m)
    }
}

/// One Newton step for y: `y' = (y**2 + c) / (2y + b - D)`, rounded up.
pub open spec fn y_step_spec(y: int, b: int, c: int, d: int) -> Result<int, SwapError> {
    if y * y >= u256_limit() || y * y + c >= u256_limit() || 2 * y >= u256_limit() || 2 * y + b
        >= u256_limit() || 2 * y + b < d {
        Err(SwapError::ArithmeticOverflow)
    } else {
        Ok(ceil_or_one(y * y + c, 2 * y + b - d))
    }
}

/// Newton's iteration for y from the guess `y`, with at most `n` steps left:
/// it stops when a step leaves y unchanged.
pub open spec fn y_iterate(b: int, c: int, d: int, y: int, n: nat) -> Result<int, SwapError>
    decreases n,
{
    if n == 0 {
        Ok(y)
    } else {
        match y_step_spec(y, b, c, d) {
            Err(e) => Err(e),
            Ok(ny) => if ny == y {
                Ok(y)
            } else {
                y_iterate(b, c, d, ny, (n - 1) as nat)
            },
        }
    }
}

/// The counter-reserve y for a new source reserve `x` and invariant `d`:
/// with `b = x + D / Ann` and `c = (D * D / (2x)) * D / (2 Ann)`, at most
/// 256 Newton steps from `y = D`.
pub open spec fn compute_y_spec(ann: int, x: int, d: int) -> Result<int, SwapError> {
    if ann == 0 {
        Err(SwapError::DivideByZero)
    } else if x + d / ann >= u256_limit() || d * d >= u256_limit() || 2 * x >= u128_bound() {
        Err(SwapError::ArithmeticOverflow)
    } else if x == 0 {
        Err(SwapError::DivideByZero)
    } else if (d * d / (2 * x)) * d >= u256_limit() {
        Err(SwapError::ArithmeticOverflow)
    } else {
        let c = (d * d / (2 * x)) * d / (2 * ann);
        match y_iterate(x + d / ann, c, d, d, ITERATIONS as nat) {
            Err(e) => Err(e),
            Ok(y) => if y < u128_bound() {
                Ok(y)
            } else {
                Err(SwapError::CalculationFailure)
            },
        }
    }
}

/// Compute the counter-reserve `y` for the source reserve `x`.
///
/// The invariant gives a polynomial of degree 2 in y:
/// `f(y) = y**2 + (b - D)y - c = 0`, with `b = S + D / Ann` and
/// `c = D**(n+1) / (n**n * P * Ann)`, solved by iterating
/// `y = (y**2 + c) / (2y + b - D)` from `y = D`.
///
/// * `ann` - the amplification coefficient times n
/// * `x` - the number of source tokens in the pool after the deposit of the swap amount
/// * `d` - the invariant D
fn compute_y(ann: u64, x: u128, d: u128) -> (r: Result<u128, SwapError>)
    ensures
        res_u128(r) == compute_y_spec(ann as int, x as int, d as int),
{
    let ann_w = U256::from_u128(ann as u128);
    let new_source_amount = U256::from_u128(x);
    let d_w = U256::from_u128(d);
    let zero = U256::from_u128(0);
    let one = U256::from_u128(1);
    let two = U256::from_u128(N_COINS as u128);

    // b = S + D / Ann
    let b = new_source_amount.try_add(d_w.try_div(ann_w)?)?;

    // c = D**(n+1) / (n**n * P * Ann), staged as (D * D / P * n) * (D / Ann * n)
    let dd = d_w.try_mul(d_w)?;
    let x2 = match x.checked_mul(N_COINS as u128) {
        Some(v) => v,
        None => return Err(SwapError::ArithmeticOverflow),
    };
    let mut c = dd.try_div(U256::from_u128(x2))?;
    c = c.try_mul(d_w)?.try_div(ann_w.try_mul(two)?)?;

    let ghost total = y_iterate(b@ as int, c@ as int, d as int, d as int, ITERATIONS as nat);
    let ghost outcome = match total {
        Err(e) => Err(e),
        Ok(yv) => if yv < u128_bound() {
            Ok(yv)
        } else {
            Err(SwapError::CalculationFailure)
        },
    };
    assert(compute_y_spec(ann as int, x as int, d as int) == outcome);
    let mut y = d_w;
    let mut i: u16 = 0;
    let mut done = false;
    while i < ITERATIONS && !done
        invariant
            i <= ITERATIONS,
            zero@ == 0,
            one@ == 1,
            d_w@ == d,
            compute_y_spec(ann as int, x as int, d as int) == outcome,
            outcome == (match total {
                Err(e) => Err(e),
                Ok(yv) => if yv < u128_bound() {
                    Ok(yv)
                } else {
                    Err(SwapError::CalculationFailure)
                },
            }),
            total == y_iterate(b@ as int, c@ as int, d as int, d as int, ITERATIONS as nat),
            total == (if done {
                Ok(y@ as int)
            } else {
                y_iterate(b@ as int, c@ as int, d as int, y@ as int, (ITERATIONS - i) as nat)
            }),
        decreases ITERATIONS - i,
    {
        proof {
            lemma_pow_adds(y@ as int, 1, 1);
            lemma_pow1(y@ as int);
        }
        let numerator = try_u8_power(&y, 2)?.try_add(c)?;
        let denominator = try_u8_mul(&y, 2)?.try_add(b)?.try_sub(d_w)?;
        let y_new = match numerator.try_ceil_div(denominator) {
            Some(q) => q,
            None => if numerator.eq(zero) {
                zero
            } else {
                one
            },
        };
        if y_new.eq(y) {
            done = true;
        } else {
            y = y_new;
        }
        i = i + 1;
    }
    y.try_to_u128(SwapError::CalculationFailure)
}


/// `amount * factor`, failing with `CalculationFailure` for a zero factor
/// and with `ArithmeticOverflow` past `u128`.
pub open spec fn scale_up_spec(amount: int, factor: int) -> Result<int, SwapError> {
    if factor == 0 {
        Err(SwapError::CalculationFailure)
    } else if amount * factor >= u128_bound() {
        Err(SwapError::ArithmeticOverflow)
    } else {
        Ok(amount * factor)
    }
}

/// `amount / factor`, rounded up when `round_up` holds, failing with
/// `CalculationFailure` for a zero factor.
pub open spec fn scale_down_spec(
    amount: int,
    factor: int,
    round_up: bool,
) -> Result<int, SwapError> {
    if factor == 0 {
        Err(SwapError::CalculationFailure)
    } else if round_up {
        Ok(ceil_div(amount, factor))
    } else {
        Ok(amount / factor)
    }
}

fn scale_up(source_amount: u128, factor: u64) -> (r: Result<u128, SwapError>)
    ensures
        res_u128(r) == scale_up_spec(source_amount as int, factor as int),
{
    if factor == 0 {
        return Err(SwapError::CalculationFailure);
    }
    if factor > 1 {
        match source_amount.checked_mul(factor as u128) {
            Some(v) => Ok(v),
            None => Err(SwapError::ArithmeticOverflow),
        }
    } else {
        Ok(source_amount)
    }
}

fn scale_down(source_amount: u128, factor: u64, round_up: bool) -> (r: Result<u128, SwapError>)
    ensures
        res_u128(r) == scale_down_spec(source_amount as int, factor as int, round_up),
{
    if factor == 0 {
        return Err(SwapError::CalculationFailure);
    }
    if factor > 1 {
        let factor = factor as u128;
        let amount = source_amount / factor;
        let ghost rem = source_amount % factor;
        proof {
            lemma_fundamental_div_mod(source_amount as int, factor as int);
            assert(factor * amount <= source_amount) by (nonlinear_arith)
                requires amount == source_amount / factor, factor > 0;
        }
        // Was there any remainder?
        if round_up && factor * amount < source_amount {
            proof {
                assert(0 < rem < factor);
                assert(source_amount + factor - 1 == (amount + 1) * factor + (rem - 1)) by (nonlinear_arith)
                    requires source_amount == factor * amount + rem;
                assert(amount < source_amount) by (nonlinear_arith)
                    requires factor * amount < source_amount, factor > 1;
                lemma_fundamental_div_mod_converse(
                    source_amount + factor - 1,
                    factor as int,
                    amount + 1,
                    rem - 1,
                );
            }
            Ok(amount + 1)
        } else {
            proof {
                if round_up {
                    assert(rem == 0);
                    assert(source_amount + factor - 1 == amount * factor + (factor - 1)) by (nonlinear_arith)
                        requires source_amount == factor * amount + rem, rem == 0;
                    lemma_fundamental_div_mod_converse(
                        source_amount + factor - 1,
                        factor as int,
                        amount as int,
                        factor - 1,
                    );
                }
            }
            Ok(amount)
        }
    } else {
        proof {
            lemma_fundamental_div_mod_converse(source_amount as int, 1, source_amount as int, 0);
        }
        Ok(source_amount)
    }
}


/// A stable-swap curve: its amplification coefficient and, for each token,
/// the factor that brings its amounts to a common decimal basis.
#[derive(Clone, Copy, Debug, PartialEq, Eq, Structural)]
pub struct StableCurve {
    /// Amplification coefficient (A)
    pub amp: u64,
    /// Scaling factor of token A
    pub token_a_factor: u64,
    /// Scaling factor of token B
    pub token_b_factor: u64,
}

/// A triple outcome with the values taken as integers.
pub open spec fn res3(
    r: Result<(u128, u128, u128), SwapError>,
) -> Result<(int, int, int), SwapError> {
    match r {
        Ok((x, y, z)) => Ok((x as int, y as int, z as int)),
        Err(e) => Err(e),
    }
}

/// Scales three amounts up by their factors, in this order.
pub open spec fn scale_three_spec(
    x: int,
    fx: int,
    y: int,
    fy: int,
    z: int,
    fz: int,
) -> Result<(int, int, int), SwapError> {
    match scale_up_spec(x, fx) {
        Err(e) => Err(e),
        Ok(sx) => match scale_up_spec(y, fy) {
            Err(e) => Err(e),
            Ok(sy) => match scale_up_spec(z, fz) {
                Err(e) => Err(e),
                Ok(sz) => Ok((sx, sy, sz)),
            },
        },
    }
}

impl StableCurve {
    /// The factor of the token that a trade in `dir` takes in.
    pub open spec fn source_factor(self, dir: TradeDirection) -> int {
        match dir {
            TradeDirection::AtoB => self.token_a_factor as int,
            TradeDirection::BtoA => self.token_b_factor as int,
        }
    }

    /// The factor of the token that a trade in `dir` gives out.
    pub open spec fn destination_factor(self, dir: TradeDirection) -> int {
        self.source_factor(dir.spec_opposite())
    }
}

/// The scaled `(source, pool source, pool destination)` of a swap.
pub open spec fn scale_swap_inputs_spec(
    curve: StableCurve,
    source_amount: int,
    pool_source_amount: int,
    pool_destination_amount: int,
    dir: TradeDirection,
) -> Result<(int, int, int), SwapError> {
    scale_three_spec(
        source_amount,
        curve.source_factor(dir),
        pool_source_amount,
        curve.source_factor(dir),
        pool_destination_amount,
        curve.destination_factor(dir),
    )
}

/// The scaled `(source, pool A, pool B)` amounts.
pub open spec fn scale_pool_inputs_spec(
    curve: StableCurve,
    source_amount: int,
    pool_token_a_amount: int,
    pool_token_b_amount: int,
    dir: TradeDirection,
) -> Result<(int, int, int), SwapError> {
    match scale_three_spec(
        pool_token_a_amount,
        curve.token_a_factor as int,
        pool_token_b_amount,
        curve.token_b_factor as int,
        source_amount,
        curve.source_factor(dir),
    ) {
        Err(e) => Err(e),
        Ok((a, b, s)) => Ok((s, a, b)),
    }
}

/// Scales the source amount and both reserves up to the common decimal
/// basis: `(source, pool A, pool B)`.
pub fn scale_pool_inputs(
    curve: &StableCurve,
    source_amount: u128,
    pool_token_a_amount: u128,
    pool_token_b_amount: u128,
    trade_direction: TradeDirection,
) -> (r: Result<(u128, u128, u128), SwapError>)
    ensures
        res3(r) == scale_pool_inputs_spec(
            *curve,
            source_amount as int,
            pool_token_a_amount as int,
            pool_token_b_amount as int,
            trade_direction,
        ),
{
    let pool_token_a_amt_scaled = scale_up(pool_token_a_amount, curve.token_a_factor)?;
    let pool_token_b_amt_scaled = scale_up(pool_token_b_amount, curve.token_b_factor)?;
    let source_amt_scaled = match trade_direction {
        TradeDirection::AtoB => scale_up(source_amount, curve.token_a_factor)?,
        TradeDirection::BtoA => scale_up(source_amount, curve.token_b_factor)?,
    };
    Ok((source_amt_scaled, pool_token_a_amt_scaled, pool_token_b_amt_scaled))
}

/// Scales the source amount, the pool's source reserve and the pool's
/// destination reserve up to the common decimal basis.
pub fn scale_swap_inputs(
    curve: &StableCurve,
    source_amount: u128,
    pool_source_amount: u128,
    pool_destination_amount: u128,
    trade_direction: TradeDirection,
) -> (r: Result<(u128, u128, u128), SwapError>)
    ensures
        res3(r) == scale_swap_inputs_spec(
            *curve,
            source_amount as int,
            pool_source_amount as int,
            pool_destination_amount as int,
            trade_direction,
        ),
{
    let (source_factor, destination_factor) = match trade_direction {
        TradeDirection::AtoB => (curve.token_a_factor, curve.token_b_factor),
        TradeDirection::BtoA => (curve.token_b_factor, curve.token_a_factor),
    };
    let source_amt_scaled = scale_up(source_amount, source_factor)?;
    let pool_source_amt_scaled = scale_up(pool_source_amount, source_factor)?;
    let pool_dest_amt_scaled = scale_up(pool_destination_amount, destination_factor)?;
    Ok((source_amt_scaled, pool_source_amt_scaled, pool_dest_amt_scaled))
}

/// Scales the pool's new destination reserve back down, rounding up so
/// that the pool is favoured.
pub fn scale_swap_outputs(
    curve: &StableCurve,
    new_pool_destination_amount: u128,
    trade_direction: TradeDirection,
) -> (r: Result<u128, SwapError>)
    ensures
        res_u128(r) == scale_down_spec(
            new_pool_destination_amount as int,
            curve.destination_factor(trade_direction),
            true,
        ),
{
    let factor = match trade_direction {
        TradeDirection::AtoB => curve.token_b_factor,
        TradeDirection::BtoA => curve.token_a_factor,
    };
    scale_down(new_pool_destination_amount, factor, true)
}


/// The scaling factors for tokens of `token_a_decimals` and
/// `token_b_decimals` decimals: 1 on the side with more decimals and
/// `10^difference` on the other, failing with `ArithmeticOverflow` when
/// that does not fit in `u64`.
pub open spec fn decimals_to_factor_spec(
    token_a_decimals: int,
    token_b_decimals: int,
) -> Result<(int, int), SwapError> {
    let diff = abs_diff_spec(token_a_decimals, token_b_decimals);
    if pow(10, diff as nat) > u64::MAX {
        Err(SwapError::ArithmeticOverflow)
    } else if token_a_decimals > token_b_decimals {
        Ok((1, pow(10, diff as nat)))
    } else {
        Ok((pow(10, diff as nat), 1))
    }
}

/// Computes the scaling factors of two tokens from their decimals.
pub fn decimals_to_factor(
    token_a_decimals: u8,
    token_b_decimals: u8,
) -> (r: Result<(u64, u64), SwapError>)
    ensures
        match r {
            Ok((fa, fb)) => decimals_to_factor_spec(token_a_decimals as int, token_b_decimals as int)
                == Ok::<(int, int), SwapError>((fa as int, fb as int)),
            Err(e) => decimals_to_factor_spec(token_a_decimals as int, token_b_decimals as int)
                == Err::<(int, int), SwapError>(e),
        },
{
    let diff: u8 = if token_a_decimals > token_b_decimals {
        token_a_decimals - token_b_decimals
    } else {
        token_b_decimals - token_a_decimals
    };
    let mut factor: u64 = 1;
    let mut i: u8 = 0;
    proof {
        lemma_pow0(10);
    }
    while i < diff
        invariant
            i <= diff,
            diff == abs_diff_spec(token_a_decimals as int, token_b_decimals as int),
            factor == pow(10, i as nat),
        decreases diff - i,
    {
        proof {
            lemma_pow_adds(10, i as nat, 1);
            lemma_pow1(10);
        }
        match factor.checked_mul(10) {
            Some(v) => {
                factor = v;
            },
            None => {
                proof {
                    assert(pow(10, (i + 1) as nat) == factor * 10);
                    lemma_pow_increases(10, (i + 1) as nat, diff as nat);
                    assert(pow(10, diff as nat) > u64::MAX);
                }
                return Err(SwapError::ArithmeticOverflow);
            },
        }
        i = i + 1;
    }
    if token_a_decimals > token_b_decimals {
        Ok((1, factor))
    } else {
        Ok((factor, 1))
    }
}

/// What a stable swap of `source_amount` gives: the source amount
/// consumed and the destination amount released.
///
/// The amounts are scaled up, D is computed from the scaled reserves, y
/// from the scaled new source reserve and D, and y is scaled back down
/// rounding up; the destination amount is the old destination reserve
/// less that. A zero source amount swaps nothing.
pub open spec fn swap_spec(
    curve: StableCurve,
    source_amount: int,
    pool_source_amount: int,
    pool_destination_amount: int,
    dir: TradeDirection,
) -> Result<(int, int), SwapError> {
    if source_amount == 0 {
        Ok((0, 0))
    } else {
        match ann_spec(curve.amp as int) {
            Err(e) => Err(e),
            Ok(ann) => match scale_swap_inputs_spec(
                curve,
                source_amount,
                pool_source_amount,
                pool_destination_amount,
                dir,
            ) {
                Err(e) => Err(e),
                Ok((s, ps, pd)) => if ps + s >= u128_bound() {
                    Err(SwapError::ArithmeticOverflow)
                } else {
                    match compute_d_spec(ann, ps, pd) {
                        Err(e) => Err(e),
                        Ok(d) => match compute_y_spec(ann, ps + s, d) {
                            Err(e) => Err(e),
                            Ok(y) => match scale_down_spec(y, curve.destination_factor(dir), true) {
                                Err(e) => Err(e),
                                Ok(out) => if out <= pool_destination_amount {
                                    Ok((source_amount, pool_destination_amount - out))
                                } else {
                                    Err(SwapError::ArithmeticOverflow)
                                },
                            },
                        },
                    }
                },
            },
        }
    }
}

impl StableCurve {
    /// A curve of amplification `amp` for tokens of the given decimals.
    /// The parameters are checked by `validate`.
    pub fn new(
        amp: u64,
        token_a_decimals: u8,
        token_b_decimals: u8,
    ) -> (r: Result<StableCurve, SwapError>)
        ensures
            match r {
                Ok(c) => c.amp == amp && decimals_to_factor_spec(
                    token_a_decimals as int,
                    token_b_decimals as int,
                ) == Ok::<(int, int), SwapError>((c.token_a_factor as int, c.token_b_factor as int)),
                Err(e) => decimals_to_factor_spec(token_a_decimals as int, token_b_decimals as int)
                    == Err::<(int, int), SwapError>(e),
            },
    {
        let (token_a_factor, token_b_factor) = decimals_to_factor(token_a_decimals, token_b_decimals)?;
        Ok(StableCurve { amp, token_a_factor, token_b_factor })
    }

    /// Calculates how much destination token a swap of `source_amount`
    /// gives, with the rounding in favour of the pool.
    pub fn swap_without_fees(
        &self,
        source_amount: u128,
        pool_source_amount: u128,
        pool_destination_amount: u128,
        trade_direction: TradeDirection,
    ) -> (r: Result<SwapWithoutFeesResult, SwapError>)
        ensures
            swap_res(r) == swap_spec(
                *self,
                source_amount as int,
                pool_source_amount as int,
                pool_destination_amount as int,
                trade_direction,
            ),
    {
        if source_amount == 0 {
            return Ok(
                SwapWithoutFeesResult { source_amount_swapped: 0, destination_amount_swapped: 0 },
            );
        }
        let ann = compute_ann(self.amp)?;
        let (source_amt_scaled, pool_source_amt_scaled, pool_dest_amt_scaled) = scale_swap_inputs(
            self,
            source_amount,
            pool_source_amount,
            pool_destination_amount,
            trade_direction,
        )?;
        let new_source_amount = match pool_source_amt_scaled.checked_add(source_amt_scaled) {
            Some(v) => v,
            None => return Err(SwapError::ArithmeticOverflow),
        };
        let d = compute_d(ann, pool_source_amt_scaled, pool_dest_amt_scaled)?;
        let new_destination_amount = compute_y(ann, new_source_amount, d)?;
        let scaled_down = scale_swap_outputs(self, new_destination_amount, trade_direction)?;
        if scaled_down > pool_destination_amount {
            return Err(SwapError::ArithmeticOverflow);
        }
        Ok(SwapWithoutFeesResult {
            source_amount_swapped: source_amount,
            destination_amount_swapped: pool_destination_amount - scaled_down,
        })
    }
}


impl StableCurve {
    /// Checks that `MIN_AMP < amp < MAX_AMP` and that neither scaling factor
    /// is zero.
    pub fn validate(&self) -> (r: Result<(), SwapError>)
        ensures
            r is Ok <==> (MIN_AMP < self.amp < MAX_AMP && self.token_a_factor > 0
                && self.token_b_factor > 0),
            r is Err ==> r == Err::<(), SwapError>(SwapError::InvalidCurve),
    {
        if self.amp <= MIN_AMP || self.amp >= MAX_AMP {
            return Err(SwapError::InvalidCurve);
        }
        if self.token_a_factor == 0 || self.token_b_factor == 0 {
            return Err(SwapError::InvalidCurve);
        }
        Ok(())
    }

    /// Checks the reserves of a new pool: both must be positive.
    pub fn validate_supply(
        &self,
        token_a_amount: u64,
        token_b_amount: u64,
    ) -> (r: Result<(), SwapError>)
        ensures
            r is Ok <==> (token_a_amount > 0 && token_b_amount > 0),
            r is Err ==> r == Err::<(), SwapError>(SwapError::EmptySupply),
    {
        if token_a_amount == 0 || token_b_amount == 0 {
            return Err(SwapError::EmptySupply);
        }
        Ok(())
    }

    /// The stable curve accepts deposits after initialization.
    pub fn allows_deposits(&self) -> (r: bool)
        ensures
            r,
    {
        true
    }

    /// The supply of pool tokens of a new pool.
    pub fn new_pool_supply(&self) -> (r: u128)
        ensures
            r == INITIAL_SWAP_POOL_AMOUNT,
    {
        INITIAL_SWAP_POOL_AMOUNT
    }

    /// The trading tokens for `pool_tokens` pool tokens, split over the two
    /// reserves in proportion, as `pool_tokens_to_trading_tokens` of the
    /// calculator gives them.
    pub fn pool_tokens_to_trading_tokens(
        &self,
        pool_tokens: u128,
        pool_token_supply: u128,
        pool_token_a_amount: u128,
        pool_token_b_amount: u128,
        round_direction: RoundDirection,
    ) -> (r: Result<TradingTokenResult, SwapError>)
        ensures
            split_res(r) == split_spec(
                pool_tokens as int,
                pool_token_supply as int,
                pool_token_a_amount as int,
                pool_token_b_amount as int,
                round_direction,
            ),
    {
        pool_tokens_to_trading_tokens(
            pool_tokens,
            pool_token_supply,
            pool_token_a_amount,
            pool_token_b_amount,
            round_direction,
        )
    }

    /// The normalized value of the pool: the invariant D of its reserves.
    pub fn normalized_value(
        &self,
        pool_token_a_amount: u128,
        pool_token_b_amount: u128,
    ) -> (r: Result<u128, SwapError>)
        ensures
            res_u128(r) == match ann_spec(self.amp as int) {
                Err(e) => Err(e),
                Ok(ann) => compute_d_spec(ann, pool_token_a_amount as int, pool_token_b_amount as int),
            },
    {
        let leverage = compute_ann(self.amp)?;
        compute_d(leverage, pool_token_a_amount, pool_token_b_amount)
    }
}

} // verus!
