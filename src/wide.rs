//! Unsigned 256-bit integers for the intermediates of the stable-swap solver.
use vstd::prelude::*;

use crate::calculator::{ceil_div, u128_bound};
use crate::error::SwapError;

verus! {

/// `2^64`, the base of one word.
pub open spec fn word_base() -> int {
    0x1_0000_0000_0000_0000
}

/// `2^256`, one past the largest value of a `U256`.
pub open spec fn u256_limit() -> int {
    word_base() * word_base() * word_base() * word_base()
}

/// An unsigned 256-bit integer held as four little-endian 64-bit words,
/// the layout of `spl_math::uint::U256`.
#[derive(Clone, Copy, Debug)]
pub struct U256(pub [u64; 4]);

impl View for U256 {
    type V = nat;

    open spec fn view(&self) -> nat {
        (self.0@[0] as int + word_base() * (self.0@[1] as int + word_base() * (self.0@[2] as int
            + word_base() * self.0@[3] as int))) as nat
    }
}

impl U256 {
    /// Every value is below `2^256`.
    pub proof fn lemma_bound(&self)
        ensures
            self@ < u256_limit(),
    {
        let w0 = self.0@[0] as int;
        let w1 = self.0@[1] as int;
        let w2 = self.0@[2] as int;
        let w3 = self.0@[3] as int;
        let b = word_base();
        assert(w0 + b * (w1 + b * (w2 + b * w3)) < b * b * b * b) by (nonlinear_arith)
            requires
                0 <= w0 < b,
                0 <= w1 < b,
                0 <= w2 < b,
                0 <= w3 < b,
                b > 0,
        ;
    }

    /// Widens a `u128`.
    pub fn from_u128(v: u128) -> (r: U256)
        ensures
            r@ == v,
    {
        let lo = (v % 0x1_0000_0000_0000_0000u128) as u64;
        let hi = (v / 0x1_0000_0000_0000_0000u128) as u64;
        let r = U256([lo, hi, 0, 0]);
        assert(r@ == v);
        r
    }
}


/// A checked 256-bit operation's outcome, with the value taken as an integer.
pub open spec fn wide_res(r: Result<U256, SwapError>) -> Result<int, SwapError> {
    match r {
        Ok(x) => Ok(x@ as int),
        Err(e) => Err(e),
    }
}

/// Addition that fails with `ArithmeticOverflow` past `2^256 - 1`.
pub open spec fn add_checked(a: int, b: int) -> Result<int, SwapError> {
    if a + b < u256_limit() {
        Ok(a + b)
    } else {
        Err(SwapError::ArithmeticOverflow)
    }
}

/// Subtraction that fails with `ArithmeticOverflow` below zero.
pub open spec fn sub_checked(a: int, b: int) -> Result<int, SwapError> {
    if a >= b {
        Ok(a - b)
    } else {
        Err(SwapError::ArithmeticOverflow)
    }
}

/// Multiplication that fails with `ArithmeticOverflow` past `2^256 - 1`.
pub open spec fn mul_checked(a: int, b: int) -> Result<int, SwapError> {
    if a * b < u256_limit() {
        Ok(a * b)
    } else {
        Err(SwapError::ArithmeticOverflow)
    }
}

/// Floor division that fails with `DivideByZero` on a zero divisor.
pub open spec fn div_checked(a: int, b: int) -> Result<int, SwapError> {
    if b == 0 {
        Err(SwapError::DivideByZero)
    } else {
        Ok(a / b)
    }
}

impl U256 {
    /// Relies on `U256::checked_add` of spl-math (from the uint crate): the
    /// sum, or `None` when it does not fit in 256 bits.
    #[verifier::external_body]
    fn checked_add(self, o: U256) -> (r: Option<U256>)
        ensures
            match r {
                Some(x) => x@ == self@ + o@,
                None => self@ + o@ >= u256_limit(),
            },
    {
        spl_math::uint::U256(self.0).checked_add(spl_math::uint::U256(o.0)).map(|x| U256(x.0))
    }

    /// Relies on `U256::checked_sub` of spl-math: the difference, or `None`
    /// when `o` is the larger.
    #[verifier::external_body]
    fn checked_sub(self, o: U256) -> (r: Option<U256>)
        ensures
            match r {
                Some(x) => self@ >= o@ && x@ == self@ - o@,
                None => self@ < o@,
            },
    {
        spl_math::uint::U256(self.0).checked_sub(spl_math::uint::U256(o.0)).map(|x| U256(x.0))
    }

    /// Relies on `U256::checked_mul` of spl-math: the product, or `None`
    /// when it does not fit in 256 bits.
    #[verifier::external_body]
    fn checked_mul(self, o: U256) -> (r: Option<U256>)
        ensures
            match r {
                Some(x) => x@ == self@ * o@,
                None => self@ * o@ >= u256_limit(),
            },
    {
        spl_math::uint::U256(self.0).checked_mul(spl_math::uint::U256(o.0)).map(|x| U256(x.0))
    }

    /// Relies on `U256::checked_div` of spl-math: the floor quotient, or
    /// `None` for a zero divisor.
    #[verifier::external_body]
    fn checked_div(self, o: U256) -> (r: Option<U256>)
        ensures
            match r {
                Some(x) => o@ != 0 && x@ == self@ / o@,
                None => o@ == 0,
            },
    {
        spl_math::uint::U256(self.0).checked_div(spl_math::uint::U256(o.0)).map(|x| U256(x.0))
    }

    /// Relies on spl-math's `CheckedCeilDiv` for `U256`: the rounded-up
    /// quotient, or `None` for a zero divisor or a dividend below the divisor.
    #[verifier::external_body]
    fn checked_ceil_div(self, o: U256) -> (r: Option<U256>)
        ensures
            match r {
                Some(q) => o@ != 0 && self@ >= o@ && q@ == ceil_div(self@ as int, o@ as int),
                None => o@ == 0 || self@ < o@,
            },
    {
        spl_math::checked_ceil_div::CheckedCeilDiv::checked_ceil_div(
            &spl_math::uint::U256(self.0),
            spl_math::uint::U256(o.0),
        ).map(|q| U256(q.0 .0))
    }

    /// Relies on `U256::abs_diff` of spl-math: `|self - o|`.
    #[verifier::external_body]
    pub(crate) fn abs_diff(self, o: U256) -> (r: U256)
        ensures
            r@ == (if self@ >= o@ { self@ - o@ } else { o@ - self@ }),
    {
        U256(spl_math::uint::U256(self.0).abs_diff(spl_math::uint::U256(o.0)).0)
    }

    /// Relies on the `PartialEq` of spl-math's `U256`: equal values.
    #[verifier::external_body]
    pub(crate) fn eq(self, o: U256) -> (r: bool)
        ensures
            r == (self@ == o@),
    {
        spl_math::uint::U256(self.0) == spl_math::uint::U256(o.0)
    }

    /// Relies on the `PartialOrd` of spl-math's `U256`: `self <= o`.
    #[verifier::external_body]
    pub(crate) fn le(self, o: U256) -> (r: bool)
        ensures
            r == (self@ <= o@),
    {
        spl_math::uint::U256(self.0) <= spl_math::uint::U256(o.0)
    }

    /// Relies on `TryFrom<U256> for u128` of spl-math: the value when it fits
    /// in 128 bits.
    #[verifier::external_body]
    fn to_u128(self) -> (r: Option<u128>)
        ensures
            match r {
                Some(v) => v == self@,
                None => self@ >= u128_bound(),
            },
    {
        u128::try_from(spl_math::uint::U256(self.0)).ok()
    }

    /// Sum, failing with `ArithmeticOverflow`.
    pub fn try_add(self, o: U256) -> (r: Result<U256, SwapError>)
        ensures
            wide_res(r) == add_checked(self@ as int, o@ as int),
    {
        match self.checked_add(o) {
            Some(x) => Ok(x),
            None => Err(SwapError::ArithmeticOverflow),
        }
    }

    /// Difference, failing with `ArithmeticOverflow` below zero.
    pub fn try_sub(self, o: U256) -> (r: Result<U256, SwapError>)
        ensures
            wide_res(r) == sub_checked(self@ as int, o@ as int),
    {
        match self.checked_sub(o) {
            Some(x) => Ok(x),
            None => Err(SwapError::ArithmeticOverflow),
        }
    }

    /// Product, failing with `ArithmeticOverflow`.
    pub fn try_mul(self, o: U256) -> (r: Result<U256, SwapError>)
        ensures
            wide_res(r) == mul_checked(self@ as int, o@ as int),
    {
        match self.checked_mul(o) {
            Some(x) => Ok(x),
            None => Err(SwapError::ArithmeticOverflow),
        }
    }

    /// Floor quotient, failing with `DivideByZero`.
    pub fn try_div(self, o: U256) -> (r: Result<U256, SwapError>)
        ensures
            wide_res(r) == div_checked(self@ as int, o@ as int),
    {
        match self.checked_div(o) {
            Some(x) => Ok(x),
            None => Err(SwapError::DivideByZero),
        }
    }

    /// Rounded-up quotient, or `None` for a zero divisor or a dividend below
    /// the divisor.
    pub fn try_ceil_div(self, o: U256) -> (r: Option<U256>)
        ensures
            match r {
                Some(q) => o@ != 0 && self@ >= o@ && q@ == ceil_div(self@ as int, o@ as int),
                None => o@ == 0 || self@ < o@,
            },
    {
        self.checked_ceil_div(o)
    }

    /// Narrows to `u128`, failing with `err` when the value does not fit.
    pub fn try_to_u128(self, err: SwapError) -> (r: Result<u128, SwapError>)
        ensures
            self@ < u128_bound() ==> r == Ok::<u128, SwapError>(self@ as u128),
            self@ >= u128_bound() ==> r == Err::<u128, SwapError>(err),
    {
        match self.to_u128() {
            Some(v) => Ok(v),
            None => Err(err),
        }
    }
}

} // verus!
