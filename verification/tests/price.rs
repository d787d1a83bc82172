use auction_engine::asset::{AssetId, Value};
use auction_engine::auction::description::{DescriptionError, DutchAuctionDescription};
use auction_engine::auction::price::{price_at, Price};
use auction_engine::num::Amount;

fn description(
    input: u128,
    max_output: u128,
    min_output: u128,
    start_height: u64,
    end_height: u64,
    step_count: u64,
) -> DutchAuctionDescription {
    DutchAuctionDescription {
        input: Value { amount: Amount { inner: input }, asset_id: AssetId { inner: [1u8; 32] } },
        output_id: AssetId { inner: [2u8; 32] },
        max_output: Amount { inner: max_output },
        min_output: Amount { inner: min_output },
        start_height,
        end_height,
        step_count,
        nonce: [0u8; 32],
    }
}

#[test]
fn price_follows_the_four_steps() {
    let d = description(100, 1000, 200, 100, 200, 4);
    assert_eq!(d.validate(), Ok(()));
    assert_eq!(price_at(&d, 100).numerator.inner, 1000);
    assert_eq!(price_at(&d, 125).numerator.inner, 800);
    assert_eq!(price_at(&d, 150).numerator.inner, 600);
    assert_eq!(price_at(&d, 175).numerator.inner, 400);
    assert_eq!(price_at(&d, 200).numerator.inner, 200);
}

#[test]
fn price_holds_between_step_boundaries() {
    let d = description(100, 1000, 200, 100, 200, 4);
    assert_eq!(price_at(&d, 101).numerator.inner, 1000);
    assert_eq!(price_at(&d, 124).numerator.inner, 1000);
    assert_eq!(price_at(&d, 126).numerator.inner, 800);
    assert_eq!(price_at(&d, 149).numerator.inner, 800);
    assert_eq!(price_at(&d, 199).numerator.inner, 400);
}

#[test]
fn price_before_start_is_max_output() {
    let d = description(100, 1000, 200, 100, 200, 4);
    assert_eq!(price_at(&d, 0).numerator.inner, 1000);
    assert_eq!(price_at(&d, 99).numerator.inner, 1000);
}

#[test]
fn price_after_end_is_min_output() {
    let d = description(100, 1000, 200, 100, 200, 4);
    assert_eq!(price_at(&d, 201).numerator.inner, 200);
    assert_eq!(price_at(&d, u64::MAX).numerator.inner, 200);
}

#[test]
fn price_is_a_ratio_over_the_input() {
    let d = description(100, 1000, 200, 100, 200, 4);
    assert_eq!(
        price_at(&d, 150),
        Price { numerator: Amount { inner: 600 }, denominator: Amount { inner: 100 } }
    );
}

#[test]
fn price_reduction_is_truncated() {
    // spread 10 over 3 steps: reductions 3, 6, 10
    let d = description(1, 10, 0, 0, 3, 3);
    assert_eq!(d.validate(), Ok(()));
    assert_eq!(price_at(&d, 0).numerator.inner, 10);
    assert_eq!(price_at(&d, 1).numerator.inner, 7);
    assert_eq!(price_at(&d, 2).numerator.inner, 4);
    assert_eq!(price_at(&d, 3).numerator.inner, 0);
}

#[test]
fn price_never_rises() {
    let d = description(5, 1_000_003, 17, 10, 1010, 40);
    assert_eq!(d.validate(), Ok(()));
    let mut last = price_at(&d, 0).numerator.inner;
    let mut h = 0u64;
    while h <= 1100 {
        let now = price_at(&d, h).numerator.inner;
        assert!(now <= last);
        assert!(17 <= now && now <= 1_000_003);
        last = now;
        h += 1;
    }
    assert_eq!(last, 17);
}

#[test]
fn price_with_the_largest_amounts() {
    let d = description(u128::MAX, u128::MAX, 0, 0, u64::MAX, u64::MAX);
    assert_eq!(d.validate(), Ok(()));
    assert_eq!(price_at(&d, 0).numerator.inner, u128::MAX);
    assert_eq!(price_at(&d, u64::MAX).numerator.inner, 0);
    // one step in: max - floor(max / (2^64 - 1)) = max - (2^64 + 1)
    assert_eq!(price_at(&d, 1).numerator.inner, u128::MAX - ((1u128 << 64) + 1));
}

#[test]
fn price_of_a_flat_auction_is_constant() {
    let d = description(10, 500, 500, 0, 10, 5);
    assert_eq!(d.validate(), Ok(()));
    assert_eq!(price_at(&d, 0).numerator.inner, 500);
    assert_eq!(price_at(&d, 4).numerator.inner, 500);
    assert_eq!(price_at(&d, 10).numerator.inner, 500);
}

#[test]
fn description_with_inverted_bounds_is_rejected() {
    let d = description(100, 199, 200, 100, 200, 4);
    assert_eq!(d.validate(), Err(DescriptionError::InvertedPriceBounds));
}

#[test]
fn description_with_empty_range_is_rejected() {
    assert_eq!(
        description(100, 1000, 200, 200, 200, 4).validate(),
        Err(DescriptionError::EmptyHeightRange)
    );
    assert_eq!(
        description(100, 1000, 200, 201, 200, 4).validate(),
        Err(DescriptionError::EmptyHeightRange)
    );
}

#[test]
fn description_with_zero_steps_is_rejected() {
    let d = description(100, 1000, 200, 100, 200, 0);
    assert_eq!(d.validate(), Err(DescriptionError::ZeroStepCount));
}

#[test]
fn description_with_indivisible_steps_is_rejected() {
    let d = description(100, 1000, 200, 100, 200, 3);
    assert_eq!(d.validate(), Err(DescriptionError::IndivisibleStepCount));
}

#[test]
fn description_defects_are_reported_in_order() {
    // inverted bounds and an empty range and zero steps: the bounds come first
    let d = description(100, 1, 2, 5, 5, 0);
    assert_eq!(d.validate(), Err(DescriptionError::InvertedPriceBounds));
    let d = description(100, 2, 1, 5, 5, 0);
    assert_eq!(d.validate(), Err(DescriptionError::EmptyHeightRange));
}

#[test]
fn next_trigger_is_the_next_step_boundary() {
    let d = description(100, 1000, 200, 100, 200, 4);
    assert_eq!(d.next_trigger_after(100), 125);
    assert_eq!(d.next_trigger_after(101), 125);
    assert_eq!(d.next_trigger_after(124), 125);
    assert_eq!(d.next_trigger_after(125), 150);
    assert_eq!(d.next_trigger_after(199), 200);
    assert_eq!(d.next_trigger_after(200), 200);
    assert_eq!(d.next_trigger_after(5000), 200);
}
