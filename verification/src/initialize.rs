use vstd::prelude::*;
use vstd::arithmetic::div_mod::lemma_div_of0;
use vstd::arithmetic::mul::lemma_mul_strictly_positive;
use crate::helpers::SCALE;
use crate::state::Auction;

verus! {

/// Creates a new auction with the given immutable parameters: nothing sold,
/// the walk standing at bucket 0, and the sale open. Parameters are stored
/// as given — see `Auction::wf` for the shapes the purchase arithmetic
/// supports, which the returned auction has whenever the parameters do.
pub fn initialize(
    authority: u64,
    total_tokens: u64,
    buckets: u8,
    tokens_per_bucket: u64,
    initial_tokens_per_sol: u64,
    final_tokens_per_sol: u64,
) -> (a: Auction)
    ensures
        a.authority == authority,
        a.total_tokens == total_tokens,
        a.buckets == buckets,
        a.tokens_per_bucket == tokens_per_bucket,
        a.initial_tokens_per_sol == initial_tokens_per_sol,
        a.final_tokens_per_sol == final_tokens_per_sol,
        a.current_bucket == 0,
        a.tokens_sold == 0,
        a.is_active,
        (1 <= buckets && 1 <= tokens_per_bucket
            && total_tokens == buckets as int * tokens_per_bucket as int
            && 1 <= a.min_rate()
            && tokens_per_bucket as int * SCALE as int / a.min_rate() <= u64::MAX as int)
            ==> a.wf(),
{
    let a = Auction {
        authority,
        total_tokens,
        buckets,
        tokens_per_bucket,
        initial_tokens_per_sol,
        final_tokens_per_sol,
        current_bucket: 0,
        tokens_sold: 0,
        is_active: true,
    };
    proof {
        if 1 <= tokens_per_bucket {
            lemma_div_of0(tokens_per_bucket as int);
        }
        if 1 <= buckets && 1 <= tokens_per_bucket {
            lemma_mul_strictly_positive(buckets as int, tokens_per_bucket as int);
        }
    }
    a
}

} // verus!
