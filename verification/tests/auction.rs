use dutch_auction::errors::ErrorCode;
use dutch_auction::helpers::calculate_bucket_rate;
use dutch_auction::helpers::calculate_purchase;
use dutch_auction::initialize::initialize;
use dutch_auction::purchase::apply_purchase;
use dutch_auction::purchase::purchase;
use dutch_auction::state::Auction;
use dutch_auction::state::UserRecord;

const SCALE: u64 = 1_000_000_000;

/// The auction of the reference scenario: 1000 tokens over 10 buckets of
/// 100, opening at 1000 tokens per payment unit (fixed point at 1e9).
fn scenario_auction() -> Auction {
    let a = initialize(7, 1000, 10, 100, 1000, 500);
    assert!(a.is_well_formed());
    a
}

#[test]
fn initialize_sets_all_fields() {
    let a = initialize(42, 1000, 10, 100, 1000, 500);
    assert_eq!(a.authority, 42);
    assert_eq!(a.total_tokens, 1000);
    assert_eq!(a.buckets, 10);
    assert_eq!(a.tokens_per_bucket, 100);
    assert_eq!(a.initial_tokens_per_sol, 1000);
    assert_eq!(a.final_tokens_per_sol, 500);
    assert_eq!(a.current_bucket, 0);
    assert_eq!(a.tokens_sold, 0);
    assert!(a.is_active);
}

#[test]
fn user_record_starts_empty() {
    let r = UserRecord::new();
    assert_eq!(r.tokens_purchased, 0);
    assert_eq!(r.avg_price_per_token, 0);
}

#[test]
fn rate_of_bucket_zero_is_initial_rate() {
    assert_eq!(calculate_bucket_rate(1000, 500, 0, 10), 1000);
    assert_eq!(calculate_bucket_rate(12345, 0, 0, 255), 12345);
}

#[test]
fn rate_decays_harmonically() {
    // rate(k) = 1000 * 10 / (10 + k)
    assert_eq!(calculate_bucket_rate(1000, 500, 1, 10), 909);
    assert_eq!(calculate_bucket_rate(1000, 500, 2, 10), 833);
    assert_eq!(calculate_bucket_rate(1000, 500, 9, 10), 526);
}

#[test]
fn rate_survives_the_widest_operands() {
    // initial_rate * total_buckets is computed widened; at the last bucket
    // of the longest schedule the rate is exactly half the initial rate.
    assert_eq!(
        calculate_bucket_rate(u64::MAX, 0, 255, 255),
        u64::MAX / 2
    );
}

#[test]
fn rate_is_non_increasing_in_bucket() {
    let mut previous: u64 = calculate_bucket_rate(1000, 500, 0, 10);
    for bucket in 1..=255u8 {
        let rate = calculate_bucket_rate(1000, 500, bucket, 10);
        assert!(rate <= previous);
        previous = rate;
    }
}

#[test]
fn first_purchase_buys_fifty_tokens_at_bucket_zero() {
    let mut a = scenario_auction();
    let mut rec = UserRecord::new();
    // 0.05 payment units at the bucket-0 rate of 1000 tokens per unit.
    let (tokens, consumed) = purchase(&a, u64::MAX, 50_000_000).unwrap();
    assert_eq!(tokens, 50);
    assert_eq!(consumed, 50_000_000);
    apply_purchase(&mut a, &mut rec, tokens, consumed);
    assert_eq!(a.tokens_sold, 50);
    assert_eq!(a.current_bucket, 0);
    assert!(a.is_active);
    assert_eq!(rec.tokens_purchased, 50);
    // 50_000_000 * 1e9 / 50 payment base units per token.
    assert_eq!(rec.avg_price_per_token, 1_000_000_000_000_000);
}

#[test]
fn purchase_splits_across_bucket_boundary() {
    let mut a = scenario_auction();
    let mut rec = UserRecord::new();
    let (t1, p1) = purchase(&a, u64::MAX, 50_000_000).unwrap();
    apply_purchase(&mut a, &mut rec, t1, p1);

    // 0.15 units: the remaining 50 tokens of bucket 0 cost 0.05 at rate
    // 1000; the leftover 0.10 buys floor(0.10 * 909) = 90 tokens of
    // bucket 1 at its lower rate of 909.
    let (t2, p2) = purchase(&a, u64::MAX, 150_000_000).unwrap();
    assert_eq!(t2, 140);
    assert_eq!(p2, 150_000_000);
    let bucket_before = a.current_bucket;
    apply_purchase(&mut a, &mut rec, t2, p2);
    assert_eq!(a.tokens_sold, 190);
    assert_eq!(a.current_bucket, 1);
    assert!(a.current_bucket >= bucket_before);
    assert!(a.is_active);
    assert_eq!(rec.tokens_purchased, 190);
}

#[test]
fn tokens_sold_advances_by_exactly_the_tokens_returned() {
    let mut a = scenario_auction();
    let mut rec = UserRecord::new();
    let mut expected_sold: u64 = 0;
    for payment in [1_000_000u64, 50_000_000, 150_000_000, 777_777_777] {
        let before_bucket = a.current_bucket;
        let (tokens, consumed) = purchase(&a, u64::MAX, payment).unwrap();
        apply_purchase(&mut a, &mut rec, tokens, consumed);
        expected_sold += tokens;
        assert_eq!(a.tokens_sold, expected_sold);
        assert!(a.current_bucket >= before_bucket);
    }
}

#[test]
fn resolved_tokens_are_monotonic_in_payment() {
    let a = scenario_auction();
    let mut previous_tokens: u64 = 0;
    let payments = [
        0u64,
        999_999,
        1_000_000,
        50_000_000,
        100_000_000,
        150_000_000,
        1_000_000_000,
        10_000_000_000,
    ];
    for payment in payments {
        let tokens = match calculate_purchase(&a, payment) {
            Ok((tokens, _)) => tokens,
            Err(ErrorCode::ZeroPurchase) => 0,
            Err(e) => panic!("unexpected error {:?}", e),
        };
        assert!(tokens >= previous_tokens);
        previous_tokens = tokens;
    }
}

#[test]
fn payment_below_one_token_price_is_zero_purchase() {
    let a = scenario_auction();
    // One token at rate 1000 costs 1e9 / 1000 = 1_000_000 base units.
    assert_eq!(calculate_purchase(&a, 999_999), Err(ErrorCode::ZeroPurchase));
    assert_eq!(calculate_purchase(&a, 0), Err(ErrorCode::ZeroPurchase));
    assert_eq!(purchase(&a, u64::MAX, 999_999), Err(ErrorCode::ZeroPurchase));
}

#[test]
fn insufficient_balance_fails_without_state_change() {
    let a = scenario_auction();
    // 0.05 units resolve to 50 tokens consuming the full payment, but the
    // buyer only holds 0.01.
    assert_eq!(purchase(&a, 10_000_000, 50_000_000), Err(ErrorCode::InsufficientFunds));
    assert_eq!(a.tokens_sold, 0);
}

#[test]
fn selling_out_closes_the_auction_and_further_purchases_fail() {
    let mut a = scenario_auction();
    let mut rec = UserRecord::new();
    // Far more than the whole supply costs.
    let (tokens, consumed) = purchase(&a, u64::MAX, 10_000_000_000).unwrap();
    assert_eq!(tokens, 1000);
    assert!(consumed < 10_000_000_000);
    apply_purchase(&mut a, &mut rec, tokens, consumed);
    assert_eq!(a.tokens_sold, 1000);
    assert_eq!(a.current_bucket, 10);
    assert!(!a.is_active);

    // P4: every later attempt fails with AuctionNotActive and touches
    // nothing.
    let snapshot = a;
    assert_eq!(purchase(&a, u64::MAX, 50_000_000), Err(ErrorCode::AuctionNotActive));
    assert_eq!(purchase(&a, u64::MAX, 0), Err(ErrorCode::AuctionNotActive));
    assert_eq!(a, snapshot);
}

#[test]
fn weighted_average_of_two_purchases_is_token_weighted_mean() {
    let mut a = scenario_auction();
    let mut rec = UserRecord::new();

    let (t1, p1) = purchase(&a, u64::MAX, 50_000_000).unwrap();
    apply_purchase(&mut a, &mut rec, t1, p1);
    let ppt1 = p1 * SCALE / t1;
    assert_eq!(rec.avg_price_per_token, ppt1);

    let (t2, p2) = purchase(&a, u64::MAX, 150_000_000).unwrap();
    apply_purchase(&mut a, &mut rec, t2, p2);
    let ppt2 = p2 * SCALE / t2;

    let expected = ((t1 as u128 * ppt1 as u128) + (t2 as u128 * ppt2 as u128))
        / ((t1 + t2) as u128);
    assert_eq!(rec.avg_price_per_token as u128, expected);

    // And within one base unit of the exact volume-weighted mean.
    let exact = ((t1 as u128 * ppt1 as u128) + (t2 as u128 * ppt2 as u128)) as f64
        / ((t1 + t2) as f64);
    let got = rec.avg_price_per_token as f64;
    assert!((got - exact).abs() <= 1.0);
}

#[test]
fn single_bucket_auction_at_the_size_limit() {
    // The largest bucket the fixed-point arithmetic supports at rate 1:
    // its full price is tokens_per_bucket * SCALE, which must fit in u64.
    let tokens_per_bucket: u64 = u64::MAX / SCALE;
    let mut a = initialize(1, tokens_per_bucket, 1, tokens_per_bucket, 1, 1);
    assert!(a.is_well_formed());
    let (tokens, consumed) = calculate_purchase(&a, u64::MAX).unwrap();
    assert_eq!(tokens, tokens_per_bucket);
    assert_eq!(consumed, tokens_per_bucket * SCALE);

    // The commit computes the per-token price in a widened domain, so even
    // this purchase — whose payment times SCALE is far beyond u64 — lands:
    // each token cost exactly SCALE base units, so the price is SCALE^2.
    let mut rec = UserRecord::new();
    apply_purchase(&mut a, &mut rec, tokens, consumed);
    assert_eq!(rec.tokens_purchased, tokens_per_bucket);
    assert_eq!(rec.avg_price_per_token, SCALE * SCALE);
    assert_eq!(a.tokens_sold, tokens_per_bucket);
    assert!(!a.is_active);
}

#[test]
fn commit_survives_payment_scale_product_beyond_u64() {
    // One bucket of 1000 tokens at rate 10: the whole supply costs 1e11
    // base units, so the consumed payment times SCALE (1e20) overflows any
    // u64 product, while the per-token price, 1e17, fits comfortably.
    let mut a = initialize(3, 1000, 1, 1000, 10, 10);
    assert!(a.is_well_formed());
    let mut rec = UserRecord::new();
    let (tokens, consumed) = purchase(&a, u64::MAX, 100_000_000_000).unwrap();
    assert_eq!(tokens, 1000);
    assert_eq!(consumed, 100_000_000_000);
    apply_purchase(&mut a, &mut rec, tokens, consumed);
    assert_eq!(rec.tokens_purchased, 1000);
    assert_eq!(rec.avg_price_per_token, 100_000_000_000_000_000);
    assert_eq!(a.tokens_sold, 1000);
    assert!(!a.is_active);
}

#[test]
fn well_formedness_rejects_unsupported_parameters() {
    // No buckets.
    assert!(!initialize(1, 0, 0, 100, 1000, 500).is_well_formed());
    // Zero-capacity buckets.
    assert!(!initialize(1, 0, 10, 0, 1000, 500).is_well_formed());
    // A short final bucket: the supply does not fill the schedule exactly.
    assert!(!initialize(1, 950, 10, 100, 1000, 500).is_well_formed());
    // A zero initial rate makes every bucket's price undefined.
    assert!(!initialize(1, 1000, 10, 100, 0, 0).is_well_formed());
    // The last bucket's rate collapses to zero: 1 * 2 / 3 == 0.
    assert!(!initialize(1, 200, 2, 100, 1, 1).is_well_formed());
}
