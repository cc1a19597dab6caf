//! A small marketplace: owned listings that are bought once, and a
//! marketplace-wide price that follows how fast inventory sells against a
//! target schedule.

pub mod error;
pub mod pricing;
pub mod market;
pub mod listing;
