//! Swap-curve mathematics for a two-asset automated market maker.

pub mod calculator;
pub mod constant_price;
pub mod constant_product;
pub mod curve;
pub mod error;
pub mod offset;
pub mod stable;
pub mod wide;
pub mod transfer_fee;
pub mod withdraw;
