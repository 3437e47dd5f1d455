use vstd::prelude::*;
use vstd::arithmetic::div_mod::*;
use vstd::arithmetic::mul::*;
use crate::errors::ErrorCode;
use crate::state::Auction;

verus! {

/// Fixed-point scale separating whole tokens from payment base units:
/// a rate of `SCALE` means one whole token per payment base unit.
pub const SCALE: u64 = 1_000_000_000;

/// The exchange rate (tokens receivable per payment unit, fixed point) that
/// bucket `bucket` of `total_buckets` sells at:
/// `initial_rate * total_buckets / (total_buckets + bucket)`.
/// Harmonic decay: bucket 0 sells at `initial_rate`, later buckets at less.
pub open spec fn rate_spec(initial_rate: int, bucket: int, total_buckets: int) -> int
    recommends
        1 <= total_buckets,
        0 <= bucket,
{
    initial_rate * total_buckets / (total_buckets + bucket)
}

/// The rate of any bucket lies between 0 and `initial_rate`.
pub proof fn lemma_rate_le_initial(initial_rate: int, bucket: int, total_buckets: int)
    requires
        0 <= initial_rate,
        0 <= bucket,
        1 <= total_buckets,
    ensures
        0 <= rate_spec(initial_rate, bucket, total_buckets) <= initial_rate,
{
    let d: int = total_buckets + bucket;
    lemma_mul_nonnegative(initial_rate, total_buckets);
    lemma_div_pos_is_pos(initial_rate * total_buckets, d);
    lemma_mul_left_inequality(d, initial_rate, initial_rate);
    lemma_mul_inequality(total_buckets, d, initial_rate);
    lemma_mul_is_commutative(total_buckets, initial_rate);
    lemma_mul_is_commutative(d, initial_rate);
    lemma_div_is_ordered(initial_rate * total_buckets, d * initial_rate, d);
    lemma_div_multiples_vanish(initial_rate, d);
}

/// The rate is non-increasing in the bucket index: a later bucket never
/// offers more tokens per payment unit than an earlier one.
pub proof fn lemma_rate_non_increasing(initial_rate: int, b1: int, b2: int, total_buckets: int)
    requires
        0 <= initial_rate,
        0 <= b1 <= b2,
        1 <= total_buckets,
    ensures
        rate_spec(initial_rate, b2, total_buckets) <= rate_spec(initial_rate, b1, total_buckets),
{
    lemma_mul_nonnegative(initial_rate, total_buckets);
    lemma_div_is_ordered_by_denominator(
        initial_rate * total_buckets,
        total_buckets + b1,
        total_buckets + b2,
    );
}

/// Bucket 0 sells at exactly `initial_rate`.
pub proof fn lemma_rate_at_bucket_zero(initial_rate: int, total_buckets: int)
    requires
        0 <= initial_rate,
        1 <= total_buckets,
    ensures
        rate_spec(initial_rate, 0, total_buckets) == initial_rate,
{
    lemma_mul_is_commutative(initial_rate, total_buckets);
    lemma_div_multiples_vanish(initial_rate, total_buckets);
}

/// Tokens receivable per payment unit for bucket `bucket` of `total_buckets`,
/// decaying harmonically from `initial_rate` at bucket 0. `final_rate` is an
/// accepted parameter of the schedule but does not enter the formula.
pub fn calculate_bucket_rate(
    initial_rate: u64,
    _final_rate: u64,
    bucket: u8,
    total_buckets: u8,
) -> (rate: u64)
    requires
        1 <= total_buckets,
    ensures
        rate == rate_spec(initial_rate as int, bucket as int, total_buckets as int),
        rate <= initial_rate,
{
    proof {
        lemma_rate_le_initial(initial_rate as int, bucket as int, total_buckets as int);
        lemma_mul_upper_bound(initial_rate as int, u64::MAX as int, total_buckets as int, 255);
    }
    let numerator: u128 = initial_rate as u128 * (total_buckets as u128);
    let denominator: u128 = (total_buckets as u128) + (bucket as u128);
    (numerator / denominator) as u64
}

/// What a payment of `payment` resolves to — `(tokens, payment consumed)` —
/// when the walk stands at `bucket` with `consumed_in_bucket` tokens of that
/// bucket already sold and `tokens_remaining` tokens of supply left.
///
/// Bucket by bucket: a payment that covers the whole price of the bucket's
/// remaining capacity takes all of it and the walk advances; a smaller
/// payment buys `payment * rate / SCALE` tokens at this bucket's rate and is
/// consumed entirely, rounding dust included.
pub open spec fn resolve_spec(
    initial_rate: u64,
    total_buckets: u8,
    tokens_per_bucket: u64,
    consumed_in_bucket: int,
    tokens_remaining: int,
    bucket: int,
    payment: int,
) -> (int, int)
    recommends
        1 <= total_buckets,
        0 <= bucket,
    decreases total_buckets - bucket,
{
    if payment <= 0 || tokens_remaining <= 0 || bucket >= total_buckets {
        (0int, 0int)
    } else {
        let rate: int = rate_spec(initial_rate as int, bucket, total_buckets as int);
        let left: int = tokens_per_bucket - consumed_in_bucket;
        let cost: int = left * SCALE / rate;
        if payment >= cost {
            let rest: (int, int) = resolve_spec(
                initial_rate,
                total_buckets,
                tokens_per_bucket,
                0,
                tokens_remaining - left,
                bucket + 1,
                payment - cost,
            );
            (left + rest.0, cost + rest.1)
        } else {
            (payment * rate / SCALE as int, payment)
        }
    }
}

/// How many tokens of bucket `bucket` are already sold when the resolver's
/// walk stands there: within the auction's own current bucket it is
/// `tokens_sold % tokens_per_bucket`; any later bucket is untouched.
pub open spec fn consumed_in_bucket_spec(a: Auction, bucket: int) -> int {
    if bucket == a.current_bucket as int {
        a.tokens_sold as int % a.tokens_per_bucket as int
    } else {
        0int
    }
}

/// What `payment` resolves to against the auction's current state.
pub open spec fn auction_resolve_spec(a: Auction, payment: int) -> (int, int) {
    resolve_spec(
        a.initial_tokens_per_sol,
        a.buckets,
        a.tokens_per_bucket,
        consumed_in_bucket_spec(a, a.current_bucket as int),
        a.total_tokens - a.tokens_sold,
        a.current_bucket as int,
        payment,
    )
}

/// The shape the resolver's walk state has whenever it starts from a
/// well-formed auction: the bucket index lies within the schedule, the part
/// of the current bucket already sold is a proper remainder, and the
/// untouched supply fills the buckets from `bucket` on exactly.
pub open spec fn walk_invariant(
    total_buckets: u8,
    tokens_per_bucket: u64,
    consumed_in_bucket: int,
    tokens_remaining: int,
    bucket: int,
) -> bool {
    &&& 1 <= tokens_per_bucket
    &&& 0 <= bucket <= total_buckets
    &&& 0 <= consumed_in_bucket < tokens_per_bucket
    &&& (bucket == total_buckets ==> consumed_in_bucket == 0)
    &&& tokens_remaining == (total_buckets - bucket) * tokens_per_bucket - consumed_in_bucket
}

/// The resolver never hands out more tokens than the supply that remains,
/// and never consumes more payment than was offered.
pub proof fn lemma_resolve_bounds(
    initial_rate: u64,
    total_buckets: u8,
    tokens_per_bucket: u64,
    consumed_in_bucket: int,
    tokens_remaining: int,
    bucket: int,
    payment: int,
)
    requires
        walk_invariant(total_buckets, tokens_per_bucket, consumed_in_bucket, tokens_remaining, bucket),
        0 <= payment,
        1 <= rate_spec(initial_rate as int, total_buckets as int - 1, total_buckets as int),
    ensures
        ({
            let r = resolve_spec(
                initial_rate,
                total_buckets,
                tokens_per_bucket,
                consumed_in_bucket,
                tokens_remaining,
                bucket,
                payment,
            );
            &&& 0 <= r.0 <= tokens_remaining
            &&& 0 <= r.1 <= payment
        }),
    decreases total_buckets as int - bucket,
{
    if bucket < total_buckets {
        lemma_mul_inequality(1, total_buckets as int - bucket, tokens_per_bucket as int);
        lemma_rate_non_increasing(
            initial_rate as int,
            bucket,
            total_buckets as int - 1,
            total_buckets as int,
        );
    }
    if payment <= 0 || tokens_remaining <= 0 || bucket >= total_buckets {
        // The walk is over; nothing is handed out and nothing consumed.
    } else {
        let rate: int = rate_spec(initial_rate as int, bucket, total_buckets as int);
        let left: int = tokens_per_bucket - consumed_in_bucket;
        let cost: int = left * SCALE / rate;
        lemma_mul_nonnegative(left, SCALE as int);
        lemma_div_pos_is_pos(left * SCALE, rate);
        if payment >= cost {
            lemma_mul_is_distributive_sub_other_way(
                tokens_per_bucket as int,
                total_buckets as int - bucket,
                1,
            );
            lemma_resolve_bounds(
                initial_rate,
                total_buckets,
                tokens_per_bucket,
                0,
                tokens_remaining - left,
                bucket + 1,
                payment - cost,
            );
        } else {
            // The payment is below the bucket's full price, so it buys less
            // than the bucket's remaining capacity.
            lemma_fundamental_div_mod(left * SCALE, rate);
            lemma_mul_inequality(payment, cost - 1, rate);
            lemma_mul_is_distributive_sub(rate, cost, 1);
            lemma_mul_is_commutative(rate, cost);
            lemma_mul_is_commutative(payment, rate);
            lemma_mul_is_commutative(left, SCALE as int);
            lemma_multiply_divide_lt(payment * rate, SCALE as int, left);
            lemma_mul_nonnegative(payment, rate);
            lemma_div_pos_is_pos(payment * rate, SCALE as int);
        }
    }
}

/// Law: resolution is monotonic in the payment. Against one walk state, a
/// larger payment never resolves to fewer tokens.
pub proof fn lemma_resolve_monotonic(
    initial_rate: u64,
    total_buckets: u8,
    tokens_per_bucket: u64,
    consumed_in_bucket: int,
    tokens_remaining: int,
    bucket: int,
    payment1: int,
    payment2: int,
)
    requires
        walk_invariant(total_buckets, tokens_per_bucket, consumed_in_bucket, tokens_remaining, bucket),
        0 <= payment1 <= payment2,
        1 <= rate_spec(initial_rate as int, total_buckets as int - 1, total_buckets as int),
    ensures
        resolve_spec(
            initial_rate,
            total_buckets,
            tokens_per_bucket,
            consumed_in_bucket,
            tokens_remaining,
            bucket,
            payment1,
        ).0 <= resolve_spec(
            initial_rate,
            total_buckets,
            tokens_per_bucket,
            consumed_in_bucket,
            tokens_remaining,
            bucket,
            payment2,
        ).0,
    decreases total_buckets as int - bucket,
{
    if payment1 <= 0 || tokens_remaining <= 0 || bucket >= total_buckets {
        lemma_resolve_bounds(
            initial_rate,
            total_buckets,
            tokens_per_bucket,
            consumed_in_bucket,
            tokens_remaining,
            bucket,
            payment2,
        );
    } else {
        lemma_mul_inequality(1, total_buckets as int - bucket, tokens_per_bucket as int);
        lemma_rate_non_increasing(
            initial_rate as int,
            bucket,
            total_buckets as int - 1,
            total_buckets as int,
        );
        let rate: int = rate_spec(initial_rate as int, bucket, total_buckets as int);
        let left: int = tokens_per_bucket - consumed_in_bucket;
        let cost: int = left * SCALE / rate;
        if payment1 >= cost {
            // Both payments take the whole bucket; induction on the rest.
            lemma_mul_is_distributive_sub_other_way(
                tokens_per_bucket as int,
                total_buckets as int - bucket,
                1,
            );
            lemma_resolve_monotonic(
                initial_rate,
                total_buckets,
                tokens_per_bucket,
                0,
                tokens_remaining - left,
                bucket + 1,
                payment1 - cost,
                payment2 - cost,
            );
        } else if payment2 >= cost {
            // The smaller payment buys less than this bucket's remaining
            // capacity; the larger takes all of it, and possibly more.
            lemma_fundamental_div_mod(left * SCALE, rate);
            lemma_mul_inequality(payment1, cost - 1, rate);
            lemma_mul_is_distributive_sub(rate, cost, 1);
            lemma_mul_is_commutative(rate, cost);
            lemma_mul_is_commutative(payment1, rate);
            lemma_mul_is_commutative(left, SCALE as int);
            lemma_multiply_divide_lt(payment1 * rate, SCALE as int, left);
            lemma_mul_is_distributive_sub_other_way(
                tokens_per_bucket as int,
                total_buckets as int - bucket,
                1,
            );
            lemma_resolve_bounds(
                initial_rate,
                total_buckets,
                tokens_per_bucket,
                0,
                tokens_remaining - left,
                bucket + 1,
                payment2 - cost,
            );
        } else {
            // Both payments stay within this bucket at one rate.
            lemma_mul_nonnegative(initial_rate as int, total_buckets as int);
            lemma_div_pos_is_pos(
                initial_rate as int * total_buckets as int,
                total_buckets as int + bucket,
            );
            lemma_mul_inequality(payment1, payment2, rate);
            lemma_div_is_ordered(payment1 * rate, payment2 * rate, SCALE as int);
        }
    }
}

/// Law: against any well-formed auction, a larger payment never resolves to
/// fewer tokens, up to exhausting the supply.
pub proof fn lemma_purchase_monotonic(a: Auction, payment1: int, payment2: int)
    requires
        a.wf(),
        0 <= payment1 <= payment2,
    ensures
        auction_resolve_spec(a, payment1).0 <= auction_resolve_spec(a, payment2).0,
{
    lemma_auction_walk_invariant(a);
    lemma_resolve_monotonic(
        a.initial_tokens_per_sol,
        a.buckets,
        a.tokens_per_bucket,
        consumed_in_bucket_spec(a, a.current_bucket as int),
        a.total_tokens - a.tokens_sold,
        a.current_bucket as int,
        payment1,
        payment2,
    );
}

/// A well-formed auction's state is a valid walk state for the resolver.
pub proof fn lemma_auction_walk_invariant(a: Auction)
    requires
        a.wf(),
    ensures
        walk_invariant(
            a.buckets,
            a.tokens_per_bucket,
            consumed_in_bucket_spec(a, a.current_bucket as int),
            a.total_tokens - a.tokens_sold,
            a.current_bucket as int,
        ),
{
    lemma_fundamental_div_mod(a.tokens_sold as int, a.tokens_per_bucket as int);
    lemma_mul_is_commutative(a.buckets as int, a.tokens_per_bucket as int);
    lemma_multiply_divide_le(
        a.tokens_sold as int,
        a.tokens_per_bucket as int,
        a.buckets as int,
    );
    lemma_mul_is_distributive_sub_other_way(
        a.tokens_per_bucket as int,
        a.buckets as int,
        a.current_bucket as int,
    );
    lemma_mul_is_commutative(a.tokens_per_bucket as int, a.current_bucket as int);
}

/// Resolves a payment into `(tokens, payment consumed)` against the current
/// auction state, walking bucket boundaries as in `resolve_spec`, and fails
/// with `ZeroPurchase` exactly when the payment buys zero whole tokens.
/// Never hands out more than the remaining supply and never consumes more
/// than the payment offered.
pub fn calculate_purchase(auction: &Auction, amount_sol: u64) -> (r: Result<(u64, u64), ErrorCode>)
    requires
        auction.wf(),
    ensures
        ({
            let plan = auction_resolve_spec(*auction, amount_sol as int);
            match r {
                Ok(p) => {
                    &&& p.0 == plan.0
                    &&& p.1 == plan.1
                    &&& 1 <= p.0 <= auction.total_tokens - auction.tokens_sold
                    &&& p.1 <= amount_sol
                }
                Err(e) => e == ErrorCode::ZeroPurchase && plan.0 == 0,
            }
        }),
{
    let ghost plan: (int, int) = auction_resolve_spec(*auction, amount_sol as int);
    let mut tokens_remaining: u64 = auction.total_tokens - auction.tokens_sold;
    let mut current_bucket: u8 = auction.current_bucket;
    let mut tokens_to_purchase: u64 = 0;
    let mut sol_required: u64 = 0;

    let mut sol_remaining: u64 = amount_sol;

    proof {
        lemma_fundamental_div_mod(auction.tokens_sold as int, auction.tokens_per_bucket as int);
        lemma_mul_is_commutative(auction.buckets as int, auction.tokens_per_bucket as int);
        lemma_multiply_divide_le(
            auction.tokens_sold as int,
            auction.tokens_per_bucket as int,
            auction.buckets as int,
        );
    }

    while sol_remaining > 0 && tokens_remaining > 0 && current_bucket < auction.buckets
        invariant
            auction.wf(),
            plan == auction_resolve_spec(*auction, amount_sol as int),
            sol_required + sol_remaining == amount_sol,
            tokens_remaining == auction.total_tokens - auction.tokens_sold - tokens_to_purchase,
            auction.current_bucket <= current_bucket <= auction.buckets,
            sol_remaining > 0 ==> auction.tokens_sold + tokens_to_purchase
                == current_bucket as int * auction.tokens_per_bucket as int
                    + consumed_in_bucket_spec(*auction, current_bucket as int),
            plan.0 == tokens_to_purchase + resolve_spec(
                auction.initial_tokens_per_sol,
                auction.buckets,
                auction.tokens_per_bucket,
                consumed_in_bucket_spec(*auction, current_bucket as int),
                tokens_remaining as int,
                current_bucket as int,
                sol_remaining as int,
            ).0,
            plan.1 == sol_required + resolve_spec(
                auction.initial_tokens_per_sol,
                auction.buckets,
                auction.tokens_per_bucket,
                consumed_in_bucket_spec(*auction, current_bucket as int),
                tokens_remaining as int,
                current_bucket as int,
                sol_remaining as int,
            ).1,
        decreases auction.buckets - current_bucket, sol_remaining,
    {
        let ghost consumed_now: int = consumed_in_bucket_spec(*auction, current_bucket as int);
        let ghost rate_now: int = rate_spec(
            auction.initial_tokens_per_sol as int,
            current_bucket as int,
            auction.buckets as int,
        );

        let tokens_per_sol: u64 = calculate_bucket_rate(
            auction.initial_tokens_per_sol,
            auction.final_tokens_per_sol,
            current_bucket,
            auction.buckets,
        );

        proof {
            // The rate of every bucket the walk can stand at is at least the
            // last bucket's rate, which well-formedness makes positive.
            lemma_rate_non_increasing(
                auction.initial_tokens_per_sol as int,
                current_bucket as int,
                auction.buckets as int - 1,
                auction.buckets as int,
            );
        }

        let tokens_in_bucket: u64 = auction.tokens_per_bucket;
        let tokens_sold_in_bucket: u64 = if current_bucket == auction.current_bucket {
            auction.tokens_sold % auction.tokens_per_bucket
        } else {
            0
        };
        let tokens_left_in_bucket: u64 = tokens_in_bucket - tokens_sold_in_bucket;

        proof {
            assert(tokens_sold_in_bucket == consumed_now);
            // A full bucket's price bounds this bucket's price, and
            // well-formedness bounds the former by u64::MAX.
            lemma_mul_upper_bound(
                tokens_left_in_bucket as int,
                u64::MAX as int,
                SCALE as int,
                SCALE as int,
            );
            lemma_mul_inequality(
                tokens_left_in_bucket as int,
                auction.tokens_per_bucket as int,
                SCALE as int,
            );
            lemma_div_is_ordered(
                tokens_left_in_bucket as int * SCALE as int,
                auction.tokens_per_bucket as int * SCALE as int,
                rate_now,
            );
            lemma_div_is_ordered_by_denominator(
                auction.tokens_per_bucket as int * SCALE as int,
                auction.min_rate(),
                rate_now,
            );
            // The supply still covers this bucket's remaining capacity.
            lemma_mul_is_distributive_sub_other_way(
                auction.tokens_per_bucket as int,
                auction.buckets as int,
                current_bucket as int,
            );
            lemma_mul_inequality(
                1,
                auction.buckets as int - current_bucket as int,
                auction.tokens_per_bucket as int,
            );
        }

        let sol_for_bucket: u64 =
            (tokens_left_in_bucket as u128 * 1_000_000_000 / tokens_per_sol as u128) as u64;

        if sol_remaining >= sol_for_bucket {
            proof {
                assert(resolve_spec(
                    auction.initial_tokens_per_sol,
                    auction.buckets,
                    auction.tokens_per_bucket,
                    consumed_now,
                    tokens_remaining as int,
                    current_bucket as int,
                    sol_remaining as int,
                ) == {
                    let rest = resolve_spec(
                        auction.initial_tokens_per_sol,
                        auction.buckets,
                        auction.tokens_per_bucket,
                        0,
                        tokens_remaining - tokens_left_in_bucket,
                        current_bucket + 1,
                        sol_remaining - sol_for_bucket,
                    );
                    (tokens_left_in_bucket + rest.0, sol_for_bucket + rest.1)
                });
                lemma_mul_is_distributive_add_other_way(
                    auction.tokens_per_bucket as int,
                    current_bucket as int,
                    1,
                );
            }
            tokens_to_purchase += tokens_left_in_bucket;
            sol_required += sol_for_bucket;
            sol_remaining -= sol_for_bucket;
            tokens_remaining -= tokens_left_in_bucket;
            current_bucket += 1;
        } else {
            proof {
                // The payment is below this bucket's full price, so what it
                // buys is below the bucket's remaining capacity.
                let q: int = tokens_left_in_bucket as int * SCALE as int / rate_now;
                lemma_fundamental_div_mod(tokens_left_in_bucket as int * SCALE as int, rate_now);
                lemma_mul_inequality(sol_remaining as int, q - 1, rate_now);
                lemma_mul_is_distributive_sub(rate_now, q, 1);
                lemma_mul_is_commutative(rate_now, q);
                lemma_mul_is_commutative(sol_remaining as int, rate_now);
                lemma_mul_is_commutative(tokens_left_in_bucket as int, SCALE as int);
                lemma_multiply_divide_lt(
                    sol_remaining as int * rate_now,
                    SCALE as int,
                    tokens_left_in_bucket as int,
                );
                lemma_mul_upper_bound(
                    sol_remaining as int,
                    u64::MAX as int,
                    rate_now,
                    u64::MAX as int,
                );
                lemma_div_pos_is_pos(sol_remaining as int * rate_now, SCALE as int);
            }
            let tokens_purchasable: u64 =
                (sol_remaining as u128 * tokens_per_sol as u128 / 1_000_000_000) as u64;
            tokens_to_purchase += tokens_purchasable;
            sol_required += sol_remaining;
            tokens_remaining -= tokens_purchasable;
            sol_remaining = 0;
        }
    }

    if tokens_to_purchase == 0 {
        return Err(ErrorCode::ZeroPurchase);
    }

    Ok((tokens_to_purchase, sol_required))
}

} // verus!
