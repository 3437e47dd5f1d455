//! A bucketed dutch auction: a fixed token supply is sold across discrete
//! price buckets, each offering fewer tokens per payment unit than the one
//! before it, so the effective price rises as supply is consumed.
//!
//! The library holds the pricing and allocation core: the per-bucket rate
//! function, the purchase resolver that splits a payment across bucket
//! boundaries, and the state machine that applies a resolved purchase to the
//! auction and to a buyer's record. Payment execution and durable storage are
//! left to the caller, which hands the core plain values and commits its
//! results.

pub mod errors;
pub mod helpers;
pub mod initialize;
pub mod purchase;
pub mod state;
