use vstd::prelude::*;

verus! {

/// Failures raised by the curve mathematics.
#[derive(Clone, Copy, Debug, PartialEq, Eq, Structural)]
pub enum SwapError {
    /// A curve parameter is out of range.
    InvalidCurve,
    /// A reserve is empty where it must not be.
    EmptySupply,
    /// An addition, subtraction or multiplication left its range.
    ArithmeticOverflow,
    /// A division by zero.
    DivideByZero,
    /// A value does not fit the narrower type it must be returned in.
    ConversionFailure,
    /// An iterative solver or a scaling step produced an unusable value.
    CalculationFailure,
    /// A transfer fee could not be computed.
    FeeCalculationFailure,
    /// A pool-token split gives nothing of a token the pool holds.
    ZeroTradingTokens,
    /// A trade gives less than the least amount the user accepts.
    ExceededSlippage,
    /// A user account given for a trade is one of the pool's own vaults.
    IncorrectSwapAccount,
}

} // verus!
