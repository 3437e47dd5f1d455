use vstd::prelude::*;
use vstd::arithmetic::mul::lemma_mul_upper_bound;
use crate::helpers::SCALE;
use crate::helpers::rate_spec;
use crate::helpers::calculate_bucket_rate;

verus! {

/// One sale instance. Created once, mutated by every successful purchase,
/// terminal once `is_active` is false. The `authority` is the account that
/// receives payments, held here as a plain account identifier.
#[derive(Clone, Copy, Debug, PartialEq, Eq, Structural)]
pub struct Auction {
    pub authority: u64,
    pub total_tokens: u64,
    pub buckets: u8,
    pub tokens_per_bucket: u64,
    pub initial_tokens_per_sol: u64,
    pub final_tokens_per_sol: u64,
    pub current_bucket: u8,
    pub tokens_sold: u64,
    pub is_active: bool,
}

/// One buyer's cumulative position in one auction: tokens bought so far and
/// the volume-weighted average price paid, in payment base units per whole
/// token, fixed point at scale `SCALE`.
#[derive(Clone, Copy, Debug, PartialEq, Eq, Structural)]
pub struct UserRecord {
    pub tokens_purchased: u64,
    pub avg_price_per_token: u64,
}

impl Auction {
    /// The rate of the auction's last (cheapest) bucket; by monotonicity of
    /// the rate schedule, a lower bound on the rate of every bucket.
    pub open spec fn min_rate(self) -> int {
        rate_spec(self.initial_tokens_per_sol as int, self.buckets as int - 1, self.buckets as int)
    }

    /// Well-formedness: the invariant every operation of the auction
    /// preserves, and on which the purchase arithmetic stays exact.
    ///
    /// - at least one bucket, of positive capacity, and the supply fills the
    ///   buckets exactly (no short final bucket);
    /// - the supply never oversells and the current bucket tracks the floor
    ///   of `tokens_sold / tokens_per_bucket`;
    /// - even the cheapest bucket's rate is positive, so every per-bucket
    ///   price is well defined;
    /// - a full bucket's price fits in 64 bits at every bucket's rate;
    /// - a live auction still has supply left.
    pub open spec fn wf(self) -> bool {
        &&& 1 <= self.buckets
        &&& 1 <= self.tokens_per_bucket
        &&& self.tokens_sold <= self.total_tokens
        &&& self.total_tokens == self.buckets as int * self.tokens_per_bucket as int
        &&& self.current_bucket as int == self.tokens_sold as int / self.tokens_per_bucket as int
        &&& 1 <= self.min_rate()
        &&& self.tokens_per_bucket as int * SCALE as int / self.min_rate() <= u64::MAX as int
        &&& (self.is_active ==> self.tokens_sold < self.total_tokens)
    }

    /// Decides well-formedness at run time, so that an unverified caller can
    /// reject an auction whose parameters the purchase arithmetic does not
    /// support.
    pub fn is_well_formed(&self) -> (r: bool)
        ensures
            r == self.wf(),
    {
        proof {
            lemma_mul_upper_bound(
                self.buckets as int,
                255,
                self.tokens_per_bucket as int,
                u64::MAX as int,
            );
            lemma_mul_upper_bound(
                self.tokens_per_bucket as int,
                u64::MAX as int,
                SCALE as int,
                SCALE as int,
            );
        }
        if !(1 <= self.buckets && 1 <= self.tokens_per_bucket) {
            return false;
        }
        if !(self.tokens_sold <= self.total_tokens) {
            return false;
        }
        if !(self.total_tokens as u128 == self.buckets as u128 * self.tokens_per_bucket as u128) {
            return false;
        }
        if !(self.current_bucket as u64 == self.tokens_sold / self.tokens_per_bucket) {
            return false;
        }
        let last_rate: u64 = calculate_bucket_rate(
            self.initial_tokens_per_sol,
            self.final_tokens_per_sol,
            self.buckets - 1,
            self.buckets,
        );
        if last_rate < 1 {
            return false;
        }
        if !(self.tokens_per_bucket as u128 * SCALE as u128 / last_rate as u128
            <= u64::MAX as u128) {
            return false;
        }
        if self.is_active && !(self.tokens_sold < self.total_tokens) {
            return false;
        }
        true
    }
}

impl UserRecord {
    /// A fresh record: no tokens bought, no price history.
    pub fn new() -> (r: UserRecord)
        ensures
            r.tokens_purchased == 0,
            r.avg_price_per_token == 0,
    {
        UserRecord { tokens_purchased: 0, avg_price_per_token: 0 }
    }
}

} // verus!
