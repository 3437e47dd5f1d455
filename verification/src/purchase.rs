use vstd::prelude::*;
use vstd::arithmetic::div_mod::*;
use vstd::arithmetic::mul::*;
use crate::errors::ErrorCode;
use crate::helpers::SCALE;
use crate::helpers::auction_resolve_spec;
use crate::helpers::calculate_purchase;
use crate::state::Auction;
use crate::state::UserRecord;

verus! {

/// Payment per whole token implied by a purchase, in payment base units per
/// token, fixed point at `SCALE`.
pub open spec fn price_per_token_spec(payment_consumed: int, tokens: int) -> int
    recommends
        1 <= tokens,
{
    payment_consumed * SCALE as int / tokens
}

/// The volume-weighted average price after buying `tokens` more at
/// `price_per_token`, given `old_tokens` already held at average `old_avg`.
/// A first purchase sets the average outright.
pub open spec fn weighted_avg_spec(
    old_tokens: int,
    old_avg: int,
    tokens: int,
    price_per_token: int,
) -> int
    recommends
        1 <= tokens,
        0 <= old_tokens,
{
    if old_tokens == 0 {
        price_per_token
    } else {
        (old_tokens * old_avg + tokens * price_per_token) / (old_tokens + tokens)
    }
}

/// Law: the weighted average after two purchases into a fresh record — `t1`
/// tokens at consumed payment `p1`, then `t2` tokens at `p2` — is the
/// token-weighted mean of the two purchases' per-token prices.
pub proof fn lemma_weighted_avg_two_purchases(t1: int, p1: int, t2: int, p2: int)
    requires
        1 <= t1,
        1 <= t2,
    ensures
        ({
            let ppt1 = price_per_token_spec(p1, t1);
            let ppt2 = price_per_token_spec(p2, t2);
            weighted_avg_spec(t1, weighted_avg_spec(0, 0, t1, ppt1), t2, ppt2)
                == (t1 * ppt1 + t2 * ppt2) / (t1 + t2)
        }),
{
}

/// Law: once the whole supply is sold, a well-formed auction is closed; a
/// purchase attempted then fails with `AuctionNotActive` (see `purchase`'s
/// contract) and touches nothing.
pub proof fn lemma_sold_out_closed(a: Auction)
    requires
        a.wf(),
        a.tokens_sold >= a.total_tokens,
    ensures
        !a.is_active,
{
}

/// Applies a resolved purchase — `tokens_to_purchase` tokens for
/// `sol_required` payment units — to the auction and to the buyer's record,
/// as one state transition: the buyer's weighted average price and holdings
/// are updated, the supply counter advances by exactly the tokens bought,
/// the current bucket only ever advances, and the auction closes exactly
/// when the supply runs out.
pub fn apply_purchase(
    auction: &mut Auction,
    user_record: &mut UserRecord,
    tokens_to_purchase: u64,
    sol_required: u64,
)
    requires
        old(auction).wf(),
        old(auction).is_active,
        1 <= tokens_to_purchase,
        tokens_to_purchase <= old(auction).total_tokens - old(auction).tokens_sold,
        price_per_token_spec(sol_required as int, tokens_to_purchase as int) <= u64::MAX,
        old(user_record).tokens_purchased <= old(auction).tokens_sold,
    ensures
        final(auction).wf(),
        final(auction).tokens_sold == old(auction).tokens_sold + tokens_to_purchase,
        final(auction).current_bucket >= old(auction).current_bucket,
        final(auction).is_active == (final(auction).tokens_sold < final(auction).total_tokens),
        final(auction).authority == old(auction).authority,
        final(auction).total_tokens == old(auction).total_tokens,
        final(auction).buckets == old(auction).buckets,
        final(auction).tokens_per_bucket == old(auction).tokens_per_bucket,
        final(auction).initial_tokens_per_sol == old(auction).initial_tokens_per_sol,
        final(auction).final_tokens_per_sol == old(auction).final_tokens_per_sol,
        final(user_record).tokens_purchased
            == old(user_record).tokens_purchased + tokens_to_purchase,
        final(user_record).avg_price_per_token == weighted_avg_spec(
            old(user_record).tokens_purchased as int,
            old(user_record).avg_price_per_token as int,
            tokens_to_purchase as int,
            price_per_token_spec(sol_required as int, tokens_to_purchase as int),
        ),
        final(user_record).tokens_purchased <= final(auction).tokens_sold,
{
    let old_total: u64 = user_record.tokens_purchased;
    let old_avg_price: u64 = user_record.avg_price_per_token;

    user_record.tokens_purchased = old_total + tokens_to_purchase;

    // Widened to u128 so the payment-times-scale product cannot overflow;
    // only the per-token quotient must fit the record's field.
    let price_per_token: u64 =
        (sol_required as u128 * 1_000_000_000 / tokens_to_purchase as u128) as u64;

    let new_avg_price: u64 = if old_total == 0 {
        price_per_token
    } else {
        proof {
            let a: int = old_total as int;
            let x: int = old_avg_price as int;
            let b: int = tokens_to_purchase as int;
            let y: int = price_per_token as int;
            let m: int = if x >= y { x } else { y };
            // The weighted mean of two prices never exceeds the larger one.
            lemma_mul_upper_bound(a, u64::MAX as int, x, u64::MAX as int);
            lemma_mul_upper_bound(b, u64::MAX as int, y, u64::MAX as int);
            lemma_mul_left_inequality(a, x, m);
            lemma_mul_left_inequality(b, y, m);
            lemma_mul_upper_bound(a + b, u64::MAX as int, m, u64::MAX as int);
            lemma_mul_is_distributive_add_other_way(m, a, b);
            lemma_mul_is_commutative(a, m);
            lemma_mul_is_commutative(b, m);
            lemma_div_is_ordered(a * x + b * y, (a + b) * m, a + b);
            lemma_mul_is_commutative(a + b, m);
            lemma_div_multiples_vanish(m, a + b);
            lemma_mul_nonnegative(a, x);
            lemma_mul_nonnegative(b, y);
            lemma_div_pos_is_pos(a * x + b * y, a + b);
        }
        (((old_total as u128 * old_avg_price as u128)
            + (tokens_to_purchase as u128 * price_per_token as u128))
            / (old_total + tokens_to_purchase) as u128) as u64
    };

    user_record.avg_price_per_token = new_avg_price;

    auction.tokens_sold = auction.tokens_sold + tokens_to_purchase;

    proof {
        lemma_div_is_ordered(
            old(auction).tokens_sold as int,
            auction.tokens_sold as int,
            auction.tokens_per_bucket as int,
        );
        lemma_mul_is_commutative(auction.buckets as int, auction.tokens_per_bucket as int);
        lemma_multiply_divide_le(
            auction.tokens_sold as int,
            auction.tokens_per_bucket as int,
            auction.buckets as int,
        );
    }

    let tokens_sold_in_buckets: u64 = auction.tokens_sold / auction.tokens_per_bucket;
    if tokens_sold_in_buckets >= auction.current_bucket as u64 {
        auction.current_bucket = tokens_sold_in_buckets as u8;
    }

    if auction.tokens_sold >= auction.total_tokens {
        auction.is_active = false;
    }
}

/// The purchase entry point's decision: requires a live auction, resolves
/// the payment, and checks the buyer's balance against the payment the
/// resolution consumes. Returns the `(tokens, payment consumed)` pair the
/// caller must settle — moving exactly that payment and then committing it
/// with `apply_purchase` — or the error that ends the attempt. This function
/// mutates nothing.
pub fn purchase(auction: &Auction, user_balance: u64, amount_sol: u64) -> (r: Result<
    (u64, u64),
    ErrorCode,
>)
    requires
        auction.wf(),
    ensures
        ({
            let plan = auction_resolve_spec(*auction, amount_sol as int);
            match r {
                Ok(p) => {
                    &&& auction.is_active
                    &&& p.0 == plan.0
                    &&& p.1 == plan.1
                    &&& 1 <= p.0 <= auction.total_tokens - auction.tokens_sold
                    &&& p.1 <= amount_sol
                    &&& p.1 <= user_balance
                },
                Err(e) => {
                    &&& ((e == ErrorCode::AuctionNotActive) <==> !auction.is_active)
                    &&& ((e == ErrorCode::ZeroPurchase) <==> (auction.is_active && plan.0 == 0))
                    &&& ((e == ErrorCode::InsufficientFunds) <==> (auction.is_active
                        && 1 <= plan.0 && user_balance < plan.1))
                },
            }
        }),
{
    if !auction.is_active {
        return Err(ErrorCode::AuctionNotActive);
    }

    let resolved = calculate_purchase(auction, amount_sol);
    match resolved {
        Err(e) => Err(e),
        Ok((tokens_to_purchase, sol_required)) => {
            if user_balance < sol_required {
                return Err(ErrorCode::InsufficientFunds);
            }
            Ok((tokens_to_purchase, sol_required))
        },
    }
}

} // verus!

