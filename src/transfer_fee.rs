//! Transfer fees of tokens that charge on transfer, and the input and output
//! amounts of a swap net of them.
use vstd::prelude::*;

use vstd::arithmetic::div_mod::{
    lemma_div_is_ordered, lemma_div_multiples_vanish, lemma_fundamental_div_mod,
    lemma_fundamental_div_mod_converse,
};

use crate::calculator::{ceil_div, res_u128, res_u64};
use crate::error::SwapError;

verus! {

/// Basis points in one whole.
pub const ONE_IN_BASIS_POINTS: u128 = 10_000;

/// A transfer fee schedule in force from an epoch on.
#[derive(Clone, Copy, Debug, PartialEq, Eq, Structural)]
pub struct TransferFee {
    /// First epoch where the fee takes effect
    pub epoch: u64,
    /// Largest fee charged on one transfer
    pub maximum_fee: u64,
    /// Fee as a share of the amount, in basis points
    pub transfer_fee_basis_points: u16,
}

/// The two fee schedules of a mint: the newer one takes effect at its epoch.
#[derive(Clone, Copy, Debug, PartialEq, Eq, Structural)]
pub struct TransferFeeConfig {
    /// Fee schedule before the newer one's epoch
    pub older_transfer_fee: TransferFee,
    /// Fee schedule from its epoch on
    pub newer_transfer_fee: TransferFee,
}

/// The fee on a transfer of `amount`: `ceil(amount * bps / 10_000)`,
/// capped at the maximum fee; nothing for a zero amount or a zero rate;
/// `None` when the uncapped fee does not fit in `u64`.
pub open spec fn fee_spec(fee: TransferFee, amount: int) -> Option<int> {
    if fee.transfer_fee_basis_points == 0 || amount == 0 {
        Some(0)
    } else {
        let raw = ceil_div(amount * fee.transfer_fee_basis_points, ONE_IN_BASIS_POINTS as int);
        if raw > u64::MAX {
            None
        } else if raw < fee.maximum_fee {
            Some(raw)
        } else {
            Some(fee.maximum_fee as int)
        }
    }
}

/// The smallest amount that leaves `post` after the fee, as the mint
/// computes it: `ceil(post * 10_000 / (10_000 - bps))`, or `post` plus the
/// maximum fee where the fee reaches its cap.
pub open spec fn pre_fee_spec(fee: TransferFee, post: int) -> Option<int> {
    let bps = fee.transfer_fee_basis_points as int;
    let max = fee.maximum_fee as int;
    if bps == 0 {
        Some(post)
    } else if post == 0 {
        Some(0)
    } else if bps == ONE_IN_BASIS_POINTS {
        if post + max <= u64::MAX {
            Some(post + max)
        } else {
            None
        }
    } else if bps > ONE_IN_BASIS_POINTS {
        None
    } else {
        let raw = ceil_div(post * ONE_IN_BASIS_POINTS, ONE_IN_BASIS_POINTS - bps);
        if raw - post >= max {
            if post + max <= u64::MAX {
                Some(post + max)
            } else {
                None
            }
        } else if raw <= u64::MAX {
            Some(raw)
        } else {
            None
        }
    }
}

/// The fee to add to `post` so that `post` is left after the transfer: the
/// fee on the pre-fee amount.
pub open spec fn inverse_fee_spec(fee: TransferFee, post: int) -> Option<int> {
    match pre_fee_spec(fee, post) {
        None => None,
        Some(pre) => fee_spec(fee, pre),
    }
}

impl TransferFeeConfig {
    /// The schedule in force at `epoch`.
    pub open spec fn spec_epoch_fee(self, epoch: u64) -> TransferFee {
        if epoch >= self.newer_transfer_fee.epoch {
            self.newer_transfer_fee
        } else {
            self.older_transfer_fee
        }
    }

    /// Gives the fee schedule in force at `epoch`.
    pub fn get_epoch_fee(&self, epoch: u64) -> (r: TransferFee)
        ensures
            r == self.spec_epoch_fee(epoch),
    {
        if epoch >= self.newer_transfer_fee.epoch {
            self.newer_transfer_fee
        } else {
            self.older_transfer_fee
        }
    }
}

impl TransferFee {
    /// The fee on a transfer of `pre_fee_amount`.
    pub fn calculate_fee(&self, pre_fee_amount: u64) -> (r: Option<u64>)
        ensures
            match r {
                Some(v) => fee_spec(*self, pre_fee_amount as int) == Some(v as int),
                None => fee_spec(*self, pre_fee_amount as int) is None,
            },
    {
        let bps = self.transfer_fee_basis_points as u128;
        if bps == 0 || pre_fee_amount == 0 {
            Some(0)
        } else {
            assert((pre_fee_amount as u128) * bps <= 0xffff_ffff_ffff_ffffu128 * 0xffffu128)
                by (nonlinear_arith)
                requires pre_fee_amount <= 0xffff_ffff_ffff_ffffu64, bps <= 0xffffu128;
            let numerator = (pre_fee_amount as u128) * bps;
            let raw = (numerator + ONE_IN_BASIS_POINTS - 1) / ONE_IN_BASIS_POINTS;
            if raw > u64::MAX as u128 {
                None
            } else if raw < self.maximum_fee as u128 {
                Some(raw as u64)
            } else {
                Some(self.maximum_fee)
            }
        }
    }

    /// The smallest amount that leaves `post_fee_amount` after the fee.
    pub fn calculate_pre_fee_amount(&self, post_fee_amount: u64) -> (r: Option<u64>)
        ensures
            match r {
                Some(v) => pre_fee_spec(*self, post_fee_amount as int) == Some(v as int),
                None => pre_fee_spec(*self, post_fee_amount as int) is None,
            },
    {
        let maximum_fee = self.maximum_fee;
        let bps = self.transfer_fee_basis_points as u128;
        if bps == 0 {
            Some(post_fee_amount)
        } else if post_fee_amount == 0 {
            Some(0)
        } else if bps == ONE_IN_BASIS_POINTS {
            maximum_fee.checked_add(post_fee_amount)
        } else if bps > ONE_IN_BASIS_POINTS {
            None
        } else {
            let numerator = (post_fee_amount as u128) * ONE_IN_BASIS_POINTS;
            let denominator = ONE_IN_BASIS_POINTS - bps;
            let raw_pre_fee_amount = (numerator + denominator - 1) / denominator;
            proof {
                assert(raw_pre_fee_amount >= post_fee_amount) by (nonlinear_arith)
                    requires
                        raw_pre_fee_amount as int == (numerator as int + denominator as int - 1)
                            / (denominator as int),
                        numerator as int == post_fee_amount as int * 10_000,
                        0 < denominator as int <= 10_000,
                ;
            }
            if raw_pre_fee_amount - post_fee_amount as u128 >= maximum_fee as u128 {
                post_fee_amount.checked_add(maximum_fee)
            } else if raw_pre_fee_amount <= u64::MAX as u128 {
                Some(raw_pre_fee_amount as u64)
            } else {
                None
            }
        }
    }

    /// The fee to add to `post_fee_amount` so that it is left after the
    /// transfer.
    pub fn calculate_inverse_fee(&self, post_fee_amount: u64) -> (r: Option<u64>)
        ensures
            match r {
                Some(v) => inverse_fee_spec(*self, post_fee_amount as int) == Some(v as int),
                None => inverse_fee_spec(*self, post_fee_amount as int) is None,
            },
    {
        match self.calculate_pre_fee_amount(post_fee_amount) {
            Some(pre) => self.calculate_fee(pre),
            None => None,
        }
    }
}


/// `amount` less the transfer fee of the schedule in force at the epoch;
/// `amount` itself where the mint charges no fee.
pub open spec fn sub_fee_spec(
    transfer_fees: Option<(TransferFeeConfig, u64)>,
    amount: int,
) -> Result<int, SwapError> {
    match transfer_fees {
        None => Ok(amount),
        Some((config, epoch)) => if amount > u64::MAX {
            Err(SwapError::ConversionFailure)
        } else {
            match fee_spec(config.spec_epoch_fee(epoch), amount) {
                None => Err(SwapError::FeeCalculationFailure),
                Some(fee) => if fee <= amount {
                    Ok(amount - fee)
                } else {
                    Err(SwapError::ArithmeticOverflow)
                },
            }
        },
    }
}

/// `post_fee_amount` plus the fee that a sender pays so that it arrives;
/// `post_fee_amount` itself where the mint charges no fee.
pub open spec fn add_inverse_fee_spec(
    transfer_fees: Option<(TransferFeeConfig, u64)>,
    post_fee_amount: int,
) -> Result<int, SwapError> {
    match transfer_fees {
        None => Ok(post_fee_amount),
        Some((config, epoch)) => if post_fee_amount > u64::MAX {
            Err(SwapError::ConversionFailure)
        } else {
            match inverse_fee_spec(config.spec_epoch_fee(epoch), post_fee_amount) {
                None => Err(SwapError::FeeCalculationFailure),
                Some(fee) => Ok(post_fee_amount + fee),
            }
        },
    }
}

/// Subtract the mint's transfer fee: the amount that arrives after the
/// transfer.
pub fn sub_transfer_fee(
    transfer_fees: Option<(TransferFeeConfig, u64)>,
    amount: u128,
) -> (r: Result<u128, SwapError>)
    ensures
        res_u128(r) == sub_fee_spec(transfer_fees, amount as int),
{
    match transfer_fees {
        None => Ok(amount),
        Some((config, epoch)) => {
            if amount > u64::MAX as u128 {
                return Err(SwapError::ConversionFailure);
            }
            let fee = match config.get_epoch_fee(epoch).calculate_fee(amount as u64) {
                Some(f) => f,
                None => return Err(SwapError::FeeCalculationFailure),
            };
            if fee as u128 > amount {
                return Err(SwapError::ArithmeticOverflow);
            }
            Ok(amount - fee as u128)
        },
    }
}

/// Subtract the transfer fee of a mint that may carry a fee configuration,
/// at `epoch`, from a `u64` amount.
pub fn sub_transfer_fee2(
    transfer_fee_config: Option<TransferFeeConfig>,
    epoch: u64,
    amount: u64,
) -> (r: Result<u64, SwapError>)
    ensures
        res_u64(r) == sub_fee_spec(
            match transfer_fee_config {
                Some(c) => Some((c, epoch)),
                None => None,
            },
            amount as int,
        ),
{
    match transfer_fee_config {
        None => Ok(amount),
        Some(config) => {
            let fee = match config.get_epoch_fee(epoch).calculate_fee(amount) {
                Some(f) => f,
                None => return Err(SwapError::FeeCalculationFailure),
            };
            if fee > amount {
                return Err(SwapError::ArithmeticOverflow);
            }
            Ok(amount - fee)
        },
    }
}

/// The fee configuration and epoch to use for a mint, where it has one.
pub fn get_transfer_fee_config(
    transfer_fee_config: Option<TransferFeeConfig>,
    epoch: u64,
) -> (r: Option<(TransferFeeConfig, u64)>)
    ensures
        r == match transfer_fee_config {
            Some(c) => Some((c, epoch)),
            None => None::<(TransferFeeConfig, u64)>,
        },
{
    match transfer_fee_config {
        Some(c) => Some((c, epoch)),
        None => None,
    }
}

/// Add the mint's transfer fee: the amount to send so that
/// `post_fee_amount` arrives.
pub fn add_inverse_transfer_fee(
    transfer_fees: Option<(TransferFeeConfig, u64)>,
    post_fee_amount: u128,
) -> (r: Result<u128, SwapError>)
    ensures
        res_u128(r) == add_inverse_fee_spec(transfer_fees, post_fee_amount as int),
{
    match transfer_fees {
        None => Ok(post_fee_amount),
        Some((config, epoch)) => {
            if post_fee_amount > u64::MAX as u128 {
                return Err(SwapError::ConversionFailure);
            }
            let fee = match config.get_epoch_fee(epoch).calculate_inverse_fee(post_fee_amount as u64) {
                Some(f) => f,
                None => return Err(SwapError::FeeCalculationFailure),
            };
            Ok(post_fee_amount + fee as u128)
        },
    }
}

/// Add the transfer fee of a mint that may carry a fee configuration, at
/// `epoch`, to a `u64` amount.
pub fn add_inverse_transfer_fee2(
    transfer_fee_config: Option<TransferFeeConfig>,
    epoch: u64,
    post_fee_amount: u64,
) -> (r: Result<u64, SwapError>)
    ensures
        match add_inverse_fee_spec(
            match transfer_fee_config {
                Some(c) => Some((c, epoch)),
                None => None,
            },
            post_fee_amount as int,
        ) {
            Ok(v) => if v <= u64::MAX {
                r == Ok::<u64, SwapError>(v as u64)
            } else {
                r == Err::<u64, SwapError>(SwapError::ArithmeticOverflow)
            },
            Err(e) => r == Err::<u64, SwapError>(e),
        },
{
    match transfer_fee_config {
        None => Ok(post_fee_amount),
        Some(config) => {
            let fee = match config.get_epoch_fee(epoch).calculate_inverse_fee(post_fee_amount) {
                Some(f) => f,
                None => return Err(SwapError::FeeCalculationFailure),
            };
            match post_fee_amount.checked_add(fee) {
                Some(v) => Ok(v),
                None => Err(SwapError::ArithmeticOverflow),
            }
        },
    }
}

/// `amount` net of the transfer fee, or, where nothing would be left, the
/// amount to send so that one token arrives.
pub open spec fn round_fees_spec(
    transfer_fees: Option<(TransferFeeConfig, u64)>,
    amount: int,
) -> Result<int, SwapError> {
    match sub_fee_spec(transfer_fees, amount) {
        Err(e) => Err(e),
        Ok(net) => if net == 0 {
            add_inverse_fee_spec(transfer_fees, 1)
        } else {
            Ok(net)
        },
    }
}

/// Subtracts the transfer fee; where nothing would be left, gives instead
/// the amount that must be sent for one token to arrive.
pub fn round_transfer_fees_if_needed(
    transfer_fees: Option<(TransferFeeConfig, u64)>,
    amount: u128,
) -> (r: Result<u128, SwapError>)
    ensures
        res_u128(r) == round_fees_spec(transfer_fees, amount as int),
{
    let amount_sub_fee = sub_transfer_fee(transfer_fees, amount)?;
    if amount_sub_fee == 0 {
        add_inverse_transfer_fee(transfer_fees, 1)
    } else {
        Ok(amount_sub_fee)
    }
}


/// The protocol fees that a swap's input pays besides the pool.
#[derive(Clone, Copy, Debug, PartialEq, Eq, Structural)]
pub struct Fees {
    /// Owner trading fee numerator
    pub owner_trade_fee_numerator: u64,
    /// Owner trading fee denominator
    pub owner_trade_fee_denominator: u64,
    /// Host fee numerator: the host's share of the owner trading fee
    pub host_fee_numerator: u64,
    /// Host fee denominator
    pub host_fee_denominator: u64,
    /// Owner withdraw fee numerator
    pub owner_withdraw_fee_numerator: u64,
    /// Owner withdraw fee denominator
    pub owner_withdraw_fee_denominator: u64,
}

/// `amount * numerator / denominator`, rounded down but at least one token
/// where the fee is charged at all; nothing for a zero amount or numerator.
pub open spec fn calculate_fee_spec(
    amount: int,
    numerator: int,
    denominator: int,
) -> Result<int, SwapError> {
    if numerator == 0 || amount == 0 {
        Ok(0)
    } else if amount * numerator > u128::MAX {
        Err(SwapError::ArithmeticOverflow)
    } else if denominator == 0 {
        Err(SwapError::DivideByZero)
    } else if amount * numerator / denominator == 0 {
        Ok(1)
    } else {
        Ok(amount * numerator / denominator)
    }
}

/// Computes a fee as a fraction of `token_amount`.
pub fn calculate_fee(
    token_amount: u128,
    fee_numerator: u128,
    fee_denominator: u128,
) -> (r: Result<u128, SwapError>)
    ensures
        res_u128(r) == calculate_fee_spec(token_amount as int, fee_numerator as int, fee_denominator as int),
{
    if fee_numerator == 0 || token_amount == 0 {
        return Ok(0);
    }
    let product = match token_amount.checked_mul(fee_numerator) {
        Some(v) => v,
        None => return Err(SwapError::ArithmeticOverflow),
    };
    if fee_denominator == 0 {
        return Err(SwapError::DivideByZero);
    }
    let fee = product / fee_denominator;
    if fee == 0 {
        Ok(1)
    } else {
        Ok(fee)
    }
}

impl Fees {
    /// The owner's trading fee, host share included, on `trading_tokens`.
    pub fn owner_trading_fee(&self, trading_tokens: u128) -> (r: Result<u128, SwapError>)
        ensures
            res_u128(r) == calculate_fee_spec(
                trading_tokens as int,
                self.owner_trade_fee_numerator as int,
                self.owner_trade_fee_denominator as int,
            ),
    {
        calculate_fee(
            trading_tokens,
            self.owner_trade_fee_numerator as u128,
            self.owner_trade_fee_denominator as u128,
        )
    }

    /// The owner's fee, in pool tokens, on a withdrawal of `pool_tokens`.
    pub fn owner_withdraw_fee(&self, pool_tokens: u128) -> (r: Result<u128, SwapError>)
        ensures
            res_u128(r) == calculate_fee_spec(
                pool_tokens as int,
                self.owner_withdraw_fee_numerator as int,
                self.owner_withdraw_fee_denominator as int,
            ),
    {
        calculate_fee(
            pool_tokens,
            self.owner_withdraw_fee_numerator as u128,
            self.owner_withdraw_fee_denominator as u128,
        )
    }

    /// The host's share of `owner_fee`.
    pub fn host_fee(&self, owner_fee: u128) -> (r: Result<u128, SwapError>)
        ensures
            res_u128(r) == calculate_fee_spec(
                owner_fee as int,
                self.host_fee_numerator as int,
                self.host_fee_denominator as int,
            ),
    {
        calculate_fee(owner_fee, self.host_fee_numerator as u128, self.host_fee_denominator as u128)
    }
}

/// The host fee and its transfer fee, or nothing when no host takes part.
pub open spec fn host_part_spec(
    fee: TransferFee,
    fees: Fees,
    owner_and_host_fee: int,
    host_fee: bool,
) -> Result<(int, int), SwapError> {
    if !host_fee {
        Ok((0, 0))
    } else {
        match calculate_fee_spec(
            owner_and_host_fee,
            fees.host_fee_numerator as int,
            fees.host_fee_denominator as int,
        ) {
            Err(e) => Err(e),
            Ok(h) => if h > u64::MAX {
                Err(SwapError::ConversionFailure)
            } else {
                match fee_spec(fee, h) {
                    None => Err(SwapError::FeeCalculationFailure),
                    Some(ht) => Ok((h, ht)),
                }
            },
        }
    }
}

/// The input of a swap net of the transfer fees of its (up to three)
/// transfers: user to vault, user to owner fees, and user to host fees.
/// The owner fee (host share included) is taken from `amount_in`; the
/// vault gets the rest; each leg pays its own transfer fee.
pub open spec fn sub_input_fees_spec(
    transfer_fees: Option<(TransferFeeConfig, u64)>,
    fees: Fees,
    amount_in: int,
    host_fee: bool,
) -> Result<int, SwapError> {
    match transfer_fees {
        None => Ok(amount_in),
        Some((config, epoch)) => {
            let fee = config.spec_epoch_fee(epoch);
            match calculate_fee_spec(
                amount_in,
                fees.owner_trade_fee_numerator as int,
                fees.owner_trade_fee_denominator as int,
            ) {
                Err(e) => Err(e),
                Ok(oh) => match host_part_spec(fee, fees, oh, host_fee) {
                    Err(e) => Err(e),
                    Ok((h, ht)) => if oh < h {
                        Err(SwapError::ArithmeticOverflow)
                    } else if oh - h > u64::MAX {
                        Err(SwapError::ConversionFailure)
                    } else {
                        match fee_spec(fee, oh - h) {
                            None => Err(SwapError::FeeCalculationFailure),
                            Some(ot) => if oh > u64::MAX {
                                Err(SwapError::ConversionFailure)
                            } else if amount_in < oh {
                                Err(SwapError::ArithmeticOverflow)
                            } else {
                                match fee_spec(fee, amount_in - oh) {
                                    None => Err(SwapError::FeeCalculationFailure),
                                    Some(vt) => if amount_in - vt - ot - ht < 0 {
                                        Err(SwapError::ArithmeticOverflow)
                                    } else {
                                        Ok(amount_in - vt - ot - ht)
                                    },
                                }
                            },
                        }
                    },
                },
            }
        },
    }
}

/// Subtract the transfer fees of the input transfers of a swap: to the
/// vault, to the owner's fee account, and, where `host_fee` holds, to the
/// host's.
pub fn sub_input_transfer_fees(
    transfer_fees: Option<(TransferFeeConfig, u64)>,
    fees: &Fees,
    amount_in: u64,
    host_fee: bool,
) -> (r: Result<u64, SwapError>)
    ensures
        res_u64(r) == sub_input_fees_spec(transfer_fees, *fees, amount_in as int, host_fee),
{
    match transfer_fees {
        None => Ok(amount_in),
        Some((config, epoch)) => {
            let fee = config.get_epoch_fee(epoch);
            let owner_and_host_fee = fees.owner_trading_fee(amount_in as u128)?;
            let (host_fee_amount, host_transfer_fee) = if host_fee {
                let h = fees.host_fee(owner_and_host_fee)?;
                if h > u64::MAX as u128 {
                    return Err(SwapError::ConversionFailure);
                }
                match fee.calculate_fee(h as u64) {
                    Some(ht) => (h, ht),
                    None => return Err(SwapError::FeeCalculationFailure),
                }
            } else {
                (0u128, 0u64)
            };
            if owner_and_host_fee < host_fee_amount {
                return Err(SwapError::ArithmeticOverflow);
            }
            let owner_fee = owner_and_host_fee - host_fee_amount;
            if owner_fee > u64::MAX as u128 {
                return Err(SwapError::ConversionFailure);
            }
            let owner_transfer_fee = match fee.calculate_fee(owner_fee as u64) {
                Some(v) => v,
                None => return Err(SwapError::FeeCalculationFailure),
            };
            if owner_and_host_fee > u64::MAX as u128 {
                return Err(SwapError::ConversionFailure);
            }
            if amount_in < owner_and_host_fee as u64 {
                return Err(SwapError::ArithmeticOverflow);
            }
            let vault_amount_in = amount_in - owner_and_host_fee as u64;
            let vault_transfer_fee = match fee.calculate_fee(vault_amount_in) {
                Some(v) => v,
                None => return Err(SwapError::FeeCalculationFailure),
            };
            if amount_in < vault_transfer_fee {
                return Err(SwapError::ArithmeticOverflow);
            }
            let rest = amount_in - vault_transfer_fee;
            if rest < owner_transfer_fee {
                return Err(SwapError::ArithmeticOverflow);
            }
            let rest = rest - owner_transfer_fee;
            if rest < host_transfer_fee {
                return Err(SwapError::ArithmeticOverflow);
            }
            Ok(rest - host_transfer_fee)
        },
    }
}


/// The fee on `amount` without the `u64` bound on the uncapped fee.
pub open spec fn capped_fee(fee: TransferFee, amount: int) -> int {
    if fee.transfer_fee_basis_points == 0 || amount == 0 {
        0
    } else {
        let raw = ceil_div(amount * fee.transfer_fee_basis_points, ONE_IN_BASIS_POINTS as int);
        if raw < fee.maximum_fee {
            raw
        } else {
            fee.maximum_fee as int
        }
    }
}

/// The uncapped fee on `amount`.
pub open spec fn raw_fee(fee: TransferFee, amount: int) -> int {
    ceil_div(amount * fee.transfer_fee_basis_points, ONE_IN_BASIS_POINTS as int)
}

proof fn lemma_ceil_div_split(x: int, b: int)
    requires
        x >= 0,
        b > 0,
    ensures
        x == b * (x / b) + x % b,
        0 <= x % b < b,
        ceil_div(x, b) == x / b + (if x % b > 0 {
            1int
        } else {
            0int
        }),
{
    lemma_fundamental_div_mod(x, b);
    let q = x / b;
    let r = x % b;
    if r > 0 {
        assert(x + b - 1 == (q + 1) * b + (r - 1)) by (nonlinear_arith)
            requires x == b * q + r;
        lemma_fundamental_div_mod_converse(x + b - 1, b, q + 1, r - 1);
    } else {
        assert(x + b - 1 == q * b + (b - 1)) by (nonlinear_arith)
            requires x == b * q + r, r == 0;
        lemma_fundamental_div_mod_converse(x + b - 1, b, q, b - 1);
    }
}

/// Rounding two parts up separately adds at most one to rounding their sum
/// up, and never less.
proof fn lemma_ceil_div_add(x: int, y: int, b: int)
    requires
        x >= 0,
        y >= 0,
        b > 0,
    ensures
        ceil_div(x, b) + ceil_div(y, b) >= ceil_div(x + y, b),
        ceil_div(x, b) + ceil_div(y, b) <= ceil_div(x + y, b) + 1,
{
    lemma_ceil_div_split(x, b);
    lemma_ceil_div_split(y, b);
    lemma_ceil_div_split(x + y, b);
    let qx = x / b;
    let rx = x % b;
    let qy = y / b;
    let ry = y % b;
    if rx + ry >= b {
        assert(x + y == (qx + qy + 1) * b + (rx + ry - b)) by (nonlinear_arith)
            requires x == b * qx + rx, y == b * qy + ry;
        lemma_fundamental_div_mod_converse(x + y, b, qx + qy + 1, rx + ry - b);
    } else {
        assert(x + y == (qx + qy) * b + (rx + ry)) by (nonlinear_arith)
            requires x == b * qx + rx, y == b * qy + ry;
        lemma_fundamental_div_mod_converse(x + y, b, qx + qy, rx + ry);
    }
}

proof fn lemma_raw_fee_add(fee: TransferFee, x: int, y: int)
    requires
        x >= 0,
        y >= 0,
    ensures
        raw_fee(fee, x) + raw_fee(fee, y) >= raw_fee(fee, x + y),
        raw_fee(fee, x) + raw_fee(fee, y) <= raw_fee(fee, x + y) + 1,
        raw_fee(fee, x) >= 0,
{
    let p = fee.transfer_fee_basis_points as int;
    assert((x + y) * p == x * p + y * p) by (nonlinear_arith);
    assert(x * p >= 0 && y * p >= 0) by (nonlinear_arith)
        requires x >= 0, y >= 0, p >= 0;
    lemma_ceil_div_add(x * p, y * p, ONE_IN_BASIS_POINTS as int);
    lemma_ceil_div_split(x * p, ONE_IN_BASIS_POINTS as int);
}

proof fn lemma_capped_fee_bounds(fee: TransferFee, x: int)
    requires
        x >= 0,
    ensures
        0 <= capped_fee(fee, x) <= raw_fee(fee, x),
        capped_fee(fee, x) <= fee.maximum_fee,
        raw_fee(fee, x) <= fee.maximum_fee ==> capped_fee(fee, x) == raw_fee(fee, x),
        fee_spec(fee, x) is Some ==> fee_spec(fee, x) == Some(capped_fee(fee, x)),
{
    lemma_raw_fee_add(fee, x, 0);
    let p = fee.transfer_fee_basis_points as int;
    if x == 0 || p == 0 {
        assert(x * p == 0) by (nonlinear_arith)
            requires x == 0 || p == 0;
        lemma_ceil_div_split(0, ONE_IN_BASIS_POINTS as int);
    }
}

/// Splitting a transfer in two never lowers the fees paid.
proof fn lemma_capped_fee_add(fee: TransferFee, x: int, y: int)
    requires
        x >= 0,
        y >= 0,
    ensures
        capped_fee(fee, x) + capped_fee(fee, y) >= capped_fee(fee, x + y),
{
    lemma_capped_fee_bounds(fee, x);
    lemma_capped_fee_bounds(fee, y);
    lemma_capped_fee_bounds(fee, x + y);
    lemma_raw_fee_add(fee, x, y);
}

/// The input of a swap net of the transfer fees of its separate legs is
/// never above the input net of the fee of one transfer of the whole, and
/// at most 3 below it (2 when no host takes part), where the fee on the
/// whole input stays below the schedule's maximum fee.
pub proof fn lemma_input_fees_decomposition(
    transfer_fees: Option<(TransferFeeConfig, u64)>,
    fees: Fees,
    amount_in: u64,
    host_fee: bool,
)
    requires
        sub_input_fees_spec(transfer_fees, fees, amount_in as int, host_fee) is Ok,
        sub_fee_spec(transfer_fees, amount_in as int) is Ok,
        transfer_fees is Some ==> raw_fee(
            transfer_fees->Some_0.0.spec_epoch_fee(transfer_fees->Some_0.1),
            amount_in as int,
        ) <= transfer_fees->Some_0.0.spec_epoch_fee(transfer_fees->Some_0.1).maximum_fee,
    ensures
        sub_input_fees_spec(transfer_fees, fees, amount_in as int, host_fee)->Ok_0 <= sub_fee_spec(
            transfer_fees,
            amount_in as int,
        )->Ok_0,
        sub_fee_spec(transfer_fees, amount_in as int)->Ok_0 - sub_input_fees_spec(
            transfer_fees,
            fees,
            amount_in as int,
            host_fee,
        )->Ok_0 <= if host_fee {
            3int
        } else {
            2int
        },
{
    match transfer_fees {
        None => {},
        Some((config, epoch)) => {
            let fee = config.spec_epoch_fee(epoch);
            let oh = calculate_fee_spec(
                amount_in as int,
                fees.owner_trade_fee_numerator as int,
                fees.owner_trade_fee_denominator as int,
            )->Ok_0;
            let (h, ht) = host_part_spec(fee, fees, oh, host_fee)->Ok_0;
            let o = oh - h;
            let v = amount_in - oh;
            assert(h >= 0) by {
                if host_fee {
                    assert(calculate_fee_spec(
                        oh,
                        fees.host_fee_numerator as int,
                        fees.host_fee_denominator as int,
                    ) is Ok);
                }
            };
            lemma_capped_fee_bounds(fee, v);
            lemma_capped_fee_bounds(fee, o);
            lemma_capped_fee_bounds(fee, h);
            lemma_capped_fee_bounds(fee, amount_in as int);
            lemma_capped_fee_add(fee, v, o);
            lemma_capped_fee_add(fee, v + o, h);
            lemma_raw_fee_add(fee, v, o);
            lemma_raw_fee_add(fee, v + o, h);
            if !host_fee {
                assert(h == 0 && ht == 0);
                lemma_ceil_div_split(0, ONE_IN_BASIS_POINTS as int);
                assert(0 * (fee.transfer_fee_basis_points as int) == 0);
            }
        },
    }
}


/// What arrives of a transfer of `amount`.
pub open spec fn net_amount(fee: TransferFee, amount: int) -> int {
    amount - capped_fee(fee, amount)
}

/// `floor(x * (10_000 - bps) / 10_000)`: what arrives without the cap.
spec fn net_uncapped(fee: TransferFee, x: int) -> int {
    (x * (ONE_IN_BASIS_POINTS - fee.transfer_fee_basis_points)) / (ONE_IN_BASIS_POINTS as int)
}

proof fn lemma_net_uncapped(fee: TransferFee, x: int)
    requires
        x >= 0,
        0 < fee.transfer_fee_basis_points < ONE_IN_BASIS_POINTS,
    ensures
        x - raw_fee(fee, x) == net_uncapped(fee, x),
        x > 0 ==> net_amount(fee, x) == (if net_uncapped(fee, x) >= x - fee.maximum_fee {
            net_uncapped(fee, x)
        } else {
            x - fee.maximum_fee
        }),
        net_amount(fee, 0) == 0,
{
    let p = fee.transfer_fee_basis_points as int;
    let b = ONE_IN_BASIS_POINTS as int;
    let xp = x * p;
    assert(xp >= 0) by (nonlinear_arith)
        requires x >= 0, p > 0, xp == x * p;
    lemma_ceil_div_split(xp, b);
    let k = xp / b;
    let r = xp % b;
    assert(x * (b - p) == b * (x - k) - r) by (nonlinear_arith)
        requires xp == x * p, xp == b * k + r;
    if r > 0 {
        lemma_fundamental_div_mod_converse(x * (b - p), b, x - k - 1, b - r);
    } else {
        lemma_fundamental_div_mod_converse(x * (b - p), b, x - k, 0);
    }
    lemma_capped_fee_bounds(fee, 0);
}

proof fn lemma_net_uncapped_monotone(fee: TransferFee, x: int, y: int)
    requires
        0 <= x <= y,
        0 < fee.transfer_fee_basis_points < ONE_IN_BASIS_POINTS,
    ensures
        net_uncapped(fee, x) <= net_uncapped(fee, y),
        y >= x + 2 && 2 * fee.transfer_fee_basis_points <= ONE_IN_BASIS_POINTS ==> net_uncapped(fee, y)
            >= net_uncapped(fee, x) + 1,
{
    let q = ONE_IN_BASIS_POINTS - fee.transfer_fee_basis_points;
    let b = ONE_IN_BASIS_POINTS as int;
    assert(x * q <= y * q) by (nonlinear_arith)
        requires x <= y, q > 0;
    lemma_div_is_ordered(x * q, y * q, b);
    if y >= x + 2 && 2 * fee.transfer_fee_basis_points <= ONE_IN_BASIS_POINTS {
        assert(y * q >= x * q + b) by (nonlinear_arith)
            requires y >= x + 2, 2 * q >= b, q > 0;
        lemma_div_is_ordered(x * q + b, y * q, b);
        lemma_fundamental_div_mod(x * q, b);
        lemma_fundamental_div_mod_converse(x * q + b, b, (x * q) / b + 1, (x * q) % b);
    }
}

proof fn lemma_net_monotone(fee: TransferFee, x: int, y: int)
    requires
        0 <= x <= y,
        0 < fee.transfer_fee_basis_points < ONE_IN_BASIS_POINTS,
    ensures
        net_amount(fee, x) <= net_amount(fee, y),
        y >= x + 2 && 2 * fee.transfer_fee_basis_points <= ONE_IN_BASIS_POINTS ==> net_amount(fee, y)
            >= net_amount(fee, x) + 1,
{
    lemma_net_uncapped(fee, x);
    lemma_net_uncapped(fee, y);
    lemma_net_uncapped_monotone(fee, x, y);
    lemma_net_uncapped_monotone(fee, 0, x);
    lemma_net_uncapped_monotone(fee, 0, y);
    assert(net_uncapped(fee, 0) == 0);
}

/// The pre-fee amount is the least amount that leaves at least `post`.
proof fn lemma_pre_fee_least(fee: TransferFee, post: int, x: int)
    requires
        post >= 0,
        x >= 0,
        0 < fee.transfer_fee_basis_points < ONE_IN_BASIS_POINTS,
        pre_fee_spec(fee, post) is Some,
    ensures
        pre_fee_spec(fee, post)->Some_0 >= 0,
        net_amount(fee, pre_fee_spec(fee, post)->Some_0) >= post,
        net_amount(fee, x) >= post ==> x >= pre_fee_spec(fee, post)->Some_0,
{
    let pre = pre_fee_spec(fee, post)->Some_0;
    let b = ONE_IN_BASIS_POINTS as int;
    let q = ONE_IN_BASIS_POINTS - fee.transfer_fee_basis_points;
    let m = fee.maximum_fee as int;
    lemma_net_uncapped(fee, pre);
    lemma_net_uncapped(fee, x);
    if post == 0 {
        assert(pre == 0);
        lemma_net_monotone(fee, 0, x);
    } else {
        let raw = ceil_div(post * b, q);
        assert(post * b >= 0) by (nonlinear_arith)
            requires post >= 0, b > 0;
        lemma_ceil_div_split(post * b, q);
        // raw is the least amount whose uncapped net reaches post
        assert(raw * q >= post * b) by (nonlinear_arith)
            requires
                post * b == q * ((post * b) / q) + (post * b) % q,
                0 <= (post * b) % q < q,
                raw == (post * b) / q + (if (post * b) % q > 0 { 1int } else { 0int }),
        ;
        assert(raw >= post) by (nonlinear_arith)
            requires raw * q >= post * b, 0 < q <= b, post >= 0;
        lemma_div_is_ordered(post * b, raw * q, b);
        lemma_div_multiples_vanish(post, b);
        assert(b * post == post * b) by (nonlinear_arith);
        assert(net_uncapped(fee, raw) >= post);
        lemma_net_uncapped(fee, raw);
        if raw - post >= m {
            assert(pre == post + m);
            lemma_net_uncapped(fee, post + m);
        } else {
            assert(pre == raw);
        }
        if net_amount(fee, x) >= post && x > 0 {
            if net_uncapped(fee, x) >= post {
                lemma_fundamental_div_mod(x * q, b);
                assert(x * q >= post * b) by (nonlinear_arith)
                    requires
                        x * q == b * ((x * q) / b) + (x * q) % b,
                        0 <= (x * q) % b,
                        (x * q) / b >= post,
                        b > 0,
                ;
                assert(x >= raw) by (nonlinear_arith)
                    requires
                        x * q >= post * b,
                        post * b == q * ((post * b) / q) + (post * b) % q,
                        0 <= (post * b) % q < q,
                        raw == (post * b) / q + (if (post * b) % q > 0 { 1int } else { 0int }),
                        q > 0,
                ;
            }
        }
    }
}

proof fn lemma_transfer_fee_round_trip(fee: TransferFee, amount: int)
    requires
        0 <= amount <= u64::MAX,
        fee.transfer_fee_basis_points <= ONE_IN_BASIS_POINTS / 2,
        fee_spec(fee, amount) is Some,
        inverse_fee_spec(fee, amount - fee_spec(fee, amount)->Some_0) is Some,
    ensures
        ({
            let post = amount - fee_spec(fee, amount)->Some_0;
            let back = post + inverse_fee_spec(fee, post)->Some_0;
            back <= amount && amount - back <= 1
        }),
{
    lemma_capped_fee_bounds(fee, amount);
    let b = ONE_IN_BASIS_POINTS as int;
    let p = fee.transfer_fee_basis_points as int;
    assert(amount * p + b - 1 <= amount * b + b - 1) by (nonlinear_arith)
        requires amount >= 0, p <= b;
    lemma_div_is_ordered(amount * p + b - 1, amount * b + b - 1, b);
    lemma_fundamental_div_mod_converse(amount * b + b - 1, b, amount, b - 1);
    assert(raw_fee(fee, amount) <= amount);
    let post = amount - fee_spec(fee, amount)->Some_0;
    if fee.transfer_fee_basis_points == 0 {
        assert(post == amount);
        assert(pre_fee_spec(fee, post) == Some(post));
        lemma_capped_fee_bounds(fee, post);
    } else {
        let pre = pre_fee_spec(fee, post)->Some_0;
        assert(post == net_amount(fee, amount));
        lemma_pre_fee_least(fee, post, amount);
        lemma_capped_fee_bounds(fee, pre);
        lemma_net_monotone(fee, pre, amount);
        assert(net_amount(fee, pre) == post);
        if amount >= pre + 2 {
            lemma_net_monotone(fee, pre, amount);
        }
    }
}


/// `sub_transfer_fee` followed by `add_inverse_transfer_fee` gives the
/// starting amount or one less, never more, for fee rates up to half of
/// the amount (5_000 basis points).
pub proof fn lemma_sub_then_add_inverse_transfer_fee(
    transfer_fees: Option<(TransferFeeConfig, u64)>,
    amount: int,
)
    requires
        0 <= amount,
        sub_fee_spec(transfer_fees, amount) is Ok,
        add_inverse_fee_spec(transfer_fees, sub_fee_spec(transfer_fees, amount)->Ok_0) is Ok,
        transfer_fees is Some ==> transfer_fees->Some_0.0.spec_epoch_fee(
            transfer_fees->Some_0.1,
        ).transfer_fee_basis_points <= ONE_IN_BASIS_POINTS / 2,
    ensures
        ({
            let post = sub_fee_spec(transfer_fees, amount)->Ok_0;
            let back = add_inverse_fee_spec(transfer_fees, post)->Ok_0;
            back <= amount && amount - back <= 1
        }),
{
    if let Some((config, epoch)) = transfer_fees {
        lemma_transfer_fee_round_trip(config.spec_epoch_fee(epoch), amount);
    }
}

} // verus!
