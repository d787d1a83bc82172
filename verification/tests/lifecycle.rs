use auction_engine::asset::{AssetId, BalanceCommitment, Value};
use auction_engine::auction::commitment::{verify_commitment, ReservesCommitment};
use auction_engine::auction::description::{DescriptionError, DutchAuctionDescription};
use auction_engine::auction::guard::{authorize, Rejection};
use auction_engine::auction::lifecycle::{Action, Quote};
use auction_engine::auction::price::Price;
use auction_engine::auction::state::DutchAuction;
use auction_engine::dex::{PositionId, Reserves};
use auction_engine::num::Amount;

const ASSET_A: AssetId = AssetId { inner: [0xaa; 32] };
const ASSET_B: AssetId = AssetId { inner: [0xbb; 32] };

fn amount(inner: u128) -> Amount {
    Amount { inner }
}

fn standard() -> DutchAuctionDescription {
    DutchAuctionDescription {
        input: Value { amount: amount(100), asset_id: ASSET_A },
        output_id: ASSET_B,
        max_output: amount(1000),
        min_output: amount(200),
        start_height: 100,
        end_height: 200,
        step_count: 4,
        nonce: [7u8; 32],
    }
}

fn position(tag: u8) -> PositionId {
    PositionId { inner: [tag; 32] }
}

fn commitment(tag: u8) -> BalanceCommitment {
    BalanceCommitment { inner: [tag; 32] }
}

fn over(auction: &DutchAuction, tag: u8) -> ReservesCommitment {
    ReservesCommitment {
        input: auction.state.input_reserves,
        output: auction.state.output_reserves,
        commitment: commitment(tag),
    }
}

fn quote_at(input: u128, numerator: u128) -> Quote {
    Quote {
        input: Value { amount: amount(input), asset_id: ASSET_A },
        output_id: ASSET_B,
        price: Price { numerator: amount(numerator), denominator: amount(100) },
    }
}

fn close_position(auction: &mut DutchAuction, input: u128, output: u128) {
    let recovered = Reserves { input: amount(input), output: amount(output) };
    assert!(auction.accepts_recovered(&recovered));
    auction.position_closed(recovered);
}

#[test]
fn schedule_before_start_defers_the_first_step() {
    let (auction, action) = DutchAuction::schedule(standard(), 50).unwrap();
    assert_eq!(action, Action::Nothing);
    assert_eq!(auction.state.seq, 0);
    assert_eq!(auction.state.current_position, None);
    assert_eq!(auction.state.next_trigger, Some(100));
    assert_eq!(auction.state.input_reserves, amount(100));
    assert_eq!(auction.state.output_reserves, amount(0));
    assert!(!auction.is_due(99));
    assert!(auction.is_due(100));
}

#[test]
fn schedule_after_start_quotes_at_once() {
    let (mut auction, action) = DutchAuction::schedule(standard(), 130).unwrap();
    assert_eq!(action, Action::OpenPosition { quote: quote_at(100, 800) });
    auction.position_opened(position(1), 130);
    assert_eq!(auction.state.current_position, Some(position(1)));
    assert_eq!(auction.state.input_reserves, amount(0));
    assert_eq!(auction.state.next_trigger, Some(150));
}

#[test]
fn schedule_after_end_quotes_at_min_output_until_the_next_block() {
    let (mut auction, action) = DutchAuction::schedule(standard(), 500).unwrap();
    assert_eq!(action, Action::OpenPosition { quote: quote_at(100, 200) });
    auction.position_opened(position(1), 500);
    assert_eq!(auction.state.next_trigger, Some(200));
    assert_eq!(auction.step(501), Action::ClosePosition { position: position(1) });
    close_position(&mut auction, 100, 0);
    assert_eq!(auction.step(501), Action::Nothing);
    assert_eq!(auction.state.seq, 1);
}

#[test]
fn schedule_rejects_a_malformed_description() {
    let mut d = standard();
    d.step_count = 3;
    assert_eq!(
        DutchAuction::schedule(d, 50),
        Err(Rejection::InvalidDescription(DescriptionError::IndivisibleStepCount))
    );
    let mut d = standard();
    d.max_output = amount(1);
    assert_eq!(
        DutchAuction::schedule(d, 50),
        Err(Rejection::InvalidDescription(DescriptionError::InvertedPriceBounds))
    );
    let mut d = standard();
    d.step_count = 0;
    assert_eq!(
        DutchAuction::schedule(d, 50),
        Err(Rejection::InvalidDescription(DescriptionError::ZeroStepCount))
    );
    let mut d = standard();
    d.end_height = 100;
    assert_eq!(
        DutchAuction::schedule(d, 50),
        Err(Rejection::InvalidDescription(DescriptionError::EmptyHeightRange))
    );
}

#[test]
fn step_does_nothing_when_not_due() {
    let (mut auction, _) = DutchAuction::schedule(standard(), 50).unwrap();
    let before = auction;
    assert_eq!(auction.step(99), Action::Nothing);
    assert_eq!(auction, before);
}

#[test]
fn steps_walk_down_the_price() {
    let (mut auction, _) = DutchAuction::schedule(standard(), 50).unwrap();
    assert_eq!(auction.step(100), Action::OpenPosition { quote: quote_at(100, 1000) });
    auction.position_opened(position(1), 100);
    assert_eq!(auction.state.next_trigger, Some(125));

    assert_eq!(auction.step(125), Action::ClosePosition { position: position(1) });
    close_position(&mut auction, 70, 300);
    assert_eq!(auction.state.current_position, None);
    assert_eq!(auction.state.input_reserves, amount(70));
    assert_eq!(auction.state.output_reserves, amount(300));
    assert_eq!(auction.step(125), Action::OpenPosition { quote: quote_at(70, 800) });
    auction.position_opened(position(2), 125);
    assert_eq!(auction.state.next_trigger, Some(150));
    assert_eq!(auction.state.input_reserves, amount(0));
    assert_eq!(auction.state.output_reserves, amount(300));

    assert_eq!(auction.step(150), Action::ClosePosition { position: position(2) });
    close_position(&mut auction, 70, 0);
    assert_eq!(auction.step(150), Action::OpenPosition { quote: quote_at(70, 600) });
    auction.position_opened(position(3), 150);
    assert_eq!(auction.state.next_trigger, Some(175));

    assert_eq!(auction.step(175), Action::ClosePosition { position: position(3) });
    close_position(&mut auction, 10, 360);
    assert_eq!(auction.step(175), Action::OpenPosition { quote: quote_at(10, 400) });
    auction.position_opened(position(4), 175);
    assert_eq!(auction.state.next_trigger, Some(200));

    assert_eq!(auction.step(200), Action::ClosePosition { position: position(4) });
    close_position(&mut auction, 10, 0);
    assert_eq!(auction.step(200), Action::Nothing);
    assert_eq!(auction.state.seq, 1);
    assert_eq!(auction.state.current_position, None);
    assert_eq!(auction.state.next_trigger, None);
    assert_eq!(auction.state.input_reserves, amount(10));
    assert_eq!(auction.state.output_reserves, amount(660));
}

#[test]
fn a_late_step_uses_the_price_of_its_height() {
    let (mut auction, _) = DutchAuction::schedule(standard(), 50).unwrap();
    // the chain skipped ahead: the first step happens at 160
    assert_eq!(auction.step(160), Action::OpenPosition { quote: quote_at(100, 600) });
    auction.position_opened(position(1), 160);
    assert_eq!(auction.state.next_trigger, Some(175));
}

#[test]
fn end_closes_an_open_auction_and_rejects_a_stale_seq() {
    // scheduled at 50, first position at 100 with the full 100 at price 1000
    let (mut auction, action) = DutchAuction::schedule(standard(), 50).unwrap();
    assert_eq!(action, Action::Nothing);
    assert_eq!(auction.step(100), Action::OpenPosition { quote: quote_at(100, 1000) });
    auction.position_opened(position(1), 100);

    // the owner ends it at 120
    assert_eq!(auction.end(0), Ok(Action::ClosePosition { position: position(1) }));
    assert_eq!(auction.state.seq, 0);
    close_position(&mut auction, 60, 400);
    assert_eq!(auction.end(0), Ok(Action::Nothing));
    assert_eq!(auction.state.seq, 1);
    assert_eq!(auction.state.current_position, None);
    assert_eq!(auction.state.next_trigger, None);
    assert_eq!(auction.state.input_reserves, amount(60));
    assert_eq!(auction.state.output_reserves, amount(400));

    // a second End with seq 0 is stale
    let before = auction;
    assert_eq!(auction.end(0), Err(Rejection::SeqMismatch { expected: 1, claimed: 0 }));
    assert_eq!(auction, before);
}

#[test]
fn end_before_any_position_closes_at_once() {
    let (mut auction, _) = DutchAuction::schedule(standard(), 50).unwrap();
    assert_eq!(auction.end(0), Ok(Action::Nothing));
    assert_eq!(auction.state.seq, 1);
    assert_eq!(auction.state.input_reserves, amount(100));
}

#[test]
fn end_of_a_closed_auction_is_rejected() {
    let (mut auction, _) = DutchAuction::schedule(standard(), 50).unwrap();
    assert_eq!(auction.end(0), Ok(Action::Nothing));
    let before = auction;
    assert_eq!(auction.end(1), Err(Rejection::AlreadyClosed));
    assert_eq!(auction.end(7), Err(Rejection::SeqMismatch { expected: 1, claimed: 7 }));
    assert_eq!(auction, before);
}

fn closed_with(input: u128, output: u128) -> DutchAuction {
    let (mut auction, _) = DutchAuction::schedule(standard(), 50).unwrap();
    assert_eq!(auction.step(100), Action::OpenPosition { quote: quote_at(100, 1000) });
    auction.position_opened(position(1), 100);
    assert_eq!(auction.end(0), Ok(Action::ClosePosition { position: position(1) }));
    close_position(&mut auction, input, output);
    assert_eq!(auction.end(0), Ok(Action::Nothing));
    auction
}

#[test]
fn withdraw_with_the_right_commitment_releases_the_reserves() {
    let mut auction = closed_with(0, 950);
    let recomputed = over(&auction, 5);
    assert_eq!(
        auction.withdraw(1, &commitment(5), &recomputed),
        Ok(Action::Release {
            input: Value { amount: amount(0), asset_id: ASSET_A },
            output: Value { amount: amount(950), asset_id: ASSET_B },
        })
    );
    assert_eq!(auction.state.seq, 2);
    assert_eq!(auction.state.input_reserves, amount(0));
    assert_eq!(auction.state.output_reserves, amount(0));

    // a second attempt finds nothing left
    let before = auction;
    let recomputed = over(&auction, 6);
    assert_eq!(auction.withdraw(2, &commitment(5), &recomputed), Err(Rejection::NothingToWithdraw));
    assert_eq!(auction.withdraw(2, &commitment(6), &recomputed), Err(Rejection::NothingToWithdraw));
    assert_eq!(auction, before);
}

#[test]
fn withdraw_with_a_wrong_commitment_is_rejected() {
    let mut auction = closed_with(10, 950);
    let before = auction;
    let recomputed = over(&auction, 5);
    assert_eq!(auction.withdraw(1, &commitment(4), &recomputed), Err(Rejection::CommitmentMismatch));
    assert_eq!(auction, before);
    // the caller resubmits with the right one
    assert!(auction.withdraw(1, &commitment(5), &recomputed).is_ok());
    assert_eq!(auction.state.seq, 2);
}

#[test]
fn withdraw_from_an_open_auction_is_rejected() {
    let (mut auction, _) = DutchAuction::schedule(standard(), 50).unwrap();
    let before = auction;
    let recomputed = over(&auction, 5);
    assert_eq!(auction.withdraw(0, &commitment(5), &recomputed), Err(Rejection::NotClosed));
    assert_eq!(auction, before);
}

#[test]
fn withdraw_with_a_stale_seq_is_rejected() {
    let mut auction = closed_with(10, 950);
    let before = auction;
    let recomputed = over(&auction, 5);
    assert_eq!(
        auction.withdraw(0, &commitment(5), &recomputed),
        Err(Rejection::SeqMismatch { expected: 1, claimed: 0 })
    );
    assert_eq!(
        auction.withdraw(2, &commitment(5), &recomputed),
        Err(Rejection::SeqMismatch { expected: 1, claimed: 2 })
    );
    assert_eq!(auction, before);
}

#[test]
fn terminal_state_rejects_every_withdraw() {
    // closed with nothing in it: seq 1, both reserves empty, no position
    let mut auction = closed_with(0, 0);
    assert_eq!(auction.state.seq, 1);
    let before = auction;
    let recomputed = over(&auction, 5);
    assert_eq!(auction.withdraw(1, &commitment(5), &recomputed), Err(Rejection::NothingToWithdraw));
    assert_eq!(auction.withdraw(1, &commitment(9), &recomputed), Err(Rejection::NothingToWithdraw));
    assert_eq!(
        auction.withdraw(0, &commitment(5), &recomputed),
        Err(Rejection::SeqMismatch { expected: 1, claimed: 0 })
    );
    assert_eq!(auction.step(1_000), Action::Nothing);
    assert_eq!(auction.end(1), Err(Rejection::AlreadyClosed));
    assert_eq!(auction, before);
}

#[test]
fn seq_never_falls() {
    let (mut auction, _) = DutchAuction::schedule(standard(), 50).unwrap();
    let mut last = auction.state.seq;
    let mut check = |auction: &DutchAuction| {
        assert!(auction.state.seq >= last);
        last = auction.state.seq;
    };
    auction.step(100);
    check(&auction);
    auction.position_opened(position(1), 100);
    check(&auction);
    let _ = auction.end(3);
    check(&auction);
    let _ = auction.end(0);
    check(&auction);
    close_position(&mut auction, 100, 0);
    check(&auction);
    let _ = auction.end(0);
    check(&auction);
    let recomputed = over(&auction, 1);
    let _ = auction.withdraw(1, &commitment(2), &recomputed);
    check(&auction);
    let _ = auction.withdraw(1, &commitment(1), &recomputed);
    check(&auction);
    assert_eq!(auction.state.seq, 2);
}

#[test]
fn input_is_conserved_across_steps() {
    let (mut auction, _) = DutchAuction::schedule(standard(), 50).unwrap();
    let deposited = 100u128;
    let mut height = 100u64;
    let mut placed = 0u128;
    let mut tag = 0u8;
    while height <= 200 {
        loop {
            match auction.step(height) {
                Action::Nothing => break,
                Action::ClosePosition { .. } => {
                    // the exchange sold a third of what was placed
                    let back = placed - placed / 3;
                    close_position(&mut auction, back, placed / 3 * 5);
                    placed = 0;
                }
                Action::OpenPosition { quote } => {
                    placed = quote.input.amount.inner;
                    tag += 1;
                    auction.position_opened(position(tag), height);
                    break;
                }
                Action::Release { .. } => unreachable!(),
            }
            assert!(auction.state.input_reserves.inner + placed <= deposited);
        }
        assert!(auction.state.input_reserves.inner + placed <= deposited);
        height += 25;
    }
    assert_eq!(auction.state.seq, 1);
    assert_eq!(placed, 0);
    assert!(auction.state.input_reserves.inner <= deposited);
}

#[test]
fn recovered_reserves_must_be_consistent_with_the_deposit() {
    let (mut auction, _) = DutchAuction::schedule(standard(), 50).unwrap();
    // without a position nothing can be recovered
    assert!(!auction.accepts_recovered(&Reserves { input: amount(0), output: amount(0) }));
    auction.step(100);
    auction.position_opened(position(1), 100);
    assert!(auction.accepts_recovered(&Reserves { input: amount(100), output: amount(0) }));
    assert!(auction.accepts_recovered(&Reserves { input: amount(0), output: amount(u128::MAX) }));
    assert!(!auction.accepts_recovered(&Reserves { input: amount(101), output: amount(0) }));
}

#[test]
fn guard_is_an_equality_check() {
    let (auction, _) = DutchAuction::schedule(standard(), 50).unwrap();
    assert_eq!(authorize(&auction, 0), Ok(()));
    assert_eq!(authorize(&auction, 1), Err(Rejection::SeqMismatch { expected: 0, claimed: 1 }));
    assert_eq!(
        authorize(&auction, u64::MAX),
        Err(Rejection::SeqMismatch { expected: 0, claimed: u64::MAX })
    );
}

#[test]
fn commitments_are_compared_byte_for_byte() {
    assert_eq!(verify_commitment(&commitment(1), &commitment(1)), Ok(()));
    assert_eq!(verify_commitment(&commitment(1), &commitment(2)), Err(Rejection::CommitmentMismatch));
    let mut almost = commitment(1);
    almost.inner[31] = 0;
    assert_eq!(verify_commitment(&commitment(1), &almost), Err(Rejection::CommitmentMismatch));
}

#[test]
fn holdings_name_both_assets() {
    let auction = closed_with(3, 950);
    assert_eq!(
        auction.holdings(),
        (
            Value { amount: amount(3), asset_id: ASSET_A },
            Value { amount: amount(950), asset_id: ASSET_B }
        )
    );
    assert_eq!(auction.reserves(), Reserves { input: amount(3), output: amount(950) });
    assert!(over(&auction, 0).covers(&auction));
    let mut other = over(&auction, 0);
    other.output = amount(951);
    assert!(!other.covers(&auction));
}

#[test]
fn rejections_give_their_reason() {
    assert_eq!(Rejection::NothingToWithdraw.message(), "nothing to withdraw");
    assert_eq!(Rejection::SeqMismatch { expected: 1, claimed: 0 }.message(), "sequence number mismatch");
    assert_eq!(Rejection::CommitmentMismatch.message(), "reserves commitment mismatch");
    assert_eq!(
        Rejection::InvalidDescription(DescriptionError::ZeroStepCount).message(),
        "invalid description: step count is zero"
    );
    assert_eq!(
        Rejection::InvalidDescription(DescriptionError::InvertedPriceBounds).message(),
        "invalid description: max output is below min output"
    );
    assert_eq!(
        Rejection::InvalidDescription(DescriptionError::EmptyHeightRange).message(),
        "invalid description: end height is not above start height"
    );
    assert_eq!(
        Rejection::InvalidDescription(DescriptionError::IndivisibleStepCount).message(),
        "invalid description: the heights are not a multiple of the step count"
    );
    assert_eq!(Rejection::AuctionExists.message(), "an auction with this id exists already");
    assert_eq!(Rejection::UnknownAuction.message(), "no auction has this id");
    assert_eq!(Rejection::AlreadyClosed.message(), "the auction is already closed");
    assert_eq!(Rejection::NotClosed.message(), "the auction is not closed yet");
}
