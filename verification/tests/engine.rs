use auction_engine::asset::{AssetId, BalanceCommitment, Value};
use auction_engine::auction::action::{
    ActionDutchAuctionEnd, ActionDutchAuctionSchedule, ActionDutchAuctionWithdraw,
    ActionDutchAuctionWithdrawPlan, AuctionAction,
};
use auction_engine::auction::commitment::ReservesCommitment;
use auction_engine::auction::description::{DescriptionError, DutchAuctionDescription};
use auction_engine::auction::engine::Engine;
use auction_engine::auction::guard::Rejection;
use auction_engine::auction::id::{AuctionId, AuctionNft};
use auction_engine::auction::lifecycle::Action;
use auction_engine::auction::params::{AuctionParameters, GenesisContent};
use auction_engine::auction::store::{AuctionRecord, AuctionStore};
use auction_engine::auction::state::DutchAuction;
use auction_engine::dex::{PositionId, Reserves};
use auction_engine::num::Amount;

const ASSET_A: AssetId = AssetId { inner: [0xaa; 32] };
const ASSET_B: AssetId = AssetId { inner: [0xbb; 32] };

fn amount(inner: u128) -> Amount {
    Amount { inner }
}

fn description(start_height: u64, end_height: u64, nonce: u8) -> DutchAuctionDescription {
    DutchAuctionDescription {
        input: Value { amount: amount(100), asset_id: ASSET_A },
        output_id: ASSET_B,
        max_output: amount(1000),
        min_output: amount(200),
        start_height,
        end_height,
        step_count: 4,
        nonce: [nonce; 32],
    }
}

fn id(tag: u8) -> AuctionId {
    AuctionId { inner: [tag; 32] }
}

fn position(tag: u8) -> PositionId {
    PositionId { inner: [tag; 32] }
}

fn commitment(tag: u8) -> BalanceCommitment {
    BalanceCommitment { inner: [tag; 32] }
}

/// Steps one due auction as the chain would, against an exchange that
/// returns everything unsold.
fn drive_step(engine: &mut Engine, auction: &AuctionId, height: u64, next_position: &mut u8) {
    loop {
        match engine.step(auction, height) {
            Action::Nothing => break,
            Action::ClosePosition { .. } => {
                let recovered = Reserves { input: amount(100), output: amount(0) };
                let state = engine.state_by_id(auction).unwrap();
                assert!(state.accepts_recovered(&recovered));
                engine.position_closed(auction, recovered);
            }
            Action::OpenPosition { .. } => {
                *next_position += 1;
                engine.position_opened(auction, position(*next_position), height);
                break;
            }
            Action::Release { .. } => unreachable!(),
        }
    }
}

#[test]
fn engine_starts_empty() {
    let mut engine = Engine::new();
    assert_eq!(engine.state_by_id(&id(1)), None);
    assert_eq!(engine.positions_for(&id(1)), Vec::<PositionId>::new());
    assert_eq!(engine.on_block_enter(1_000), Vec::<AuctionId>::new());
    assert_eq!(engine.ids(), Vec::<AuctionId>::new());
}

#[test]
fn schedule_indexes_the_auction_at_its_start() {
    let mut engine = Engine::new();
    assert_eq!(engine.schedule(id(1), description(100, 200, 0), 50), Ok(Action::Nothing));
    assert_eq!(engine.trigger_of(&id(1)), Some(100));
    let stored = engine.state_by_id(&id(1)).unwrap();
    assert_eq!(stored.description, description(100, 200, 0));
    assert_eq!(stored.state.seq, 0);
    assert_eq!(stored.state.next_trigger, Some(100));
}

#[test]
fn schedule_rejects_a_taken_id_and_keeps_the_first_description() {
    let mut engine = Engine::new();
    assert_eq!(engine.schedule(id(1), description(100, 200, 0), 50), Ok(Action::Nothing));
    assert_eq!(
        engine.schedule(id(1), description(300, 400, 1), 50),
        Err(Rejection::AuctionExists)
    );
    assert_eq!(engine.state_by_id(&id(1)).unwrap().description, description(100, 200, 0));
    assert_eq!(engine.trigger_of(&id(1)), Some(100));
}

#[test]
fn schedule_rejects_a_malformed_description_and_records_nothing() {
    let mut engine = Engine::new();
    let mut d = description(100, 200, 0);
    d.min_output = amount(2000);
    assert_eq!(
        engine.schedule(id(1), d, 50),
        Err(Rejection::InvalidDescription(DescriptionError::InvertedPriceBounds))
    );
    assert_eq!(engine.state_by_id(&id(1)), None);
    assert_eq!(engine.trigger_of(&id(1)), None);
}

#[test]
fn block_enter_hands_out_due_auctions_in_order() {
    let mut engine = Engine::new();
    assert!(engine.schedule(id(9), description(100, 200, 0), 50).is_ok());
    assert!(engine.schedule(id(3), description(100, 200, 1), 50).is_ok());
    assert!(engine.schedule(id(5), description(80, 180, 2), 50).is_ok());
    assert!(engine.schedule(id(1), description(300, 400, 3), 50).is_ok());
    assert_eq!(engine.on_block_enter(79), Vec::<AuctionId>::new());
    assert!(!engine.has_pending());
    let due = engine.on_block_enter(100);
    assert_eq!(due, vec![id(5), id(3), id(9)]);
    assert_eq!(engine.current_height(), 100);
    let mut positions = 0u8;
    for auction in due {
        assert!(engine.has_pending());
        assert_eq!(engine.next_pending(), Some(auction));
        assert!(engine.may_move(&auction));
        assert!(!engine.may_move(&id(1)));
        // a pending auction is off the index until it has been stepped
        assert_eq!(engine.trigger_of(&auction), None);
        drive_step(&mut engine, &auction, 100, &mut positions);
        assert!(engine.trigger_of(&auction).is_some());
    }
    assert!(!engine.has_pending());
    assert_eq!(engine.next_pending(), None);
    assert!(engine.may_move(&id(1)));
    // handed out once
    assert_eq!(engine.on_block_enter(100), Vec::<AuctionId>::new());
    assert_eq!(engine.trigger_of(&id(1)), Some(300));
    assert_eq!(engine.trigger_of(&id(5)), Some(105));
    assert_eq!(engine.trigger_of(&id(3)), Some(125));
}

#[test]
fn a_pending_auction_stays_pending_until_its_step_is_complete() {
    let mut engine = Engine::new();
    let auction = id(1);
    let mut positions = 0u8;
    assert!(engine.schedule(auction, description(100, 200, 0), 50).is_ok());
    assert_eq!(engine.on_block_enter(100), vec![auction]);
    drive_step(&mut engine, &auction, 100, &mut positions);

    assert_eq!(engine.on_block_enter(125), vec![auction]);
    assert_eq!(engine.step(&auction, 125), Action::ClosePosition { position: position(1) });
    assert_eq!(engine.next_pending(), Some(auction));
    engine.position_closed(&auction, Reserves { input: amount(100), output: amount(0) });
    assert_eq!(engine.next_pending(), Some(auction));
    assert!(matches!(engine.step(&auction, 125), Action::OpenPosition { .. }));
    assert_eq!(engine.next_pending(), Some(auction));
    engine.position_opened(&auction, position(2), 125);
    assert_eq!(engine.next_pending(), None);
    assert_eq!(engine.trigger_of(&auction), Some(150));
}

#[test]
fn a_whole_auction_runs_from_schedule_to_withdrawal() {
    let mut engine = Engine::new();
    let auction = id(1);
    let mut positions = 0u8;
    assert_eq!(engine.schedule(auction, description(100, 200, 0), 50), Ok(Action::Nothing));

    let mut height = 51u64;
    let mut stepped_at = Vec::new();
    while height <= 210 {
        for due in engine.on_block_enter(height) {
            assert_eq!(due, auction);
            stepped_at.push(height);
            drive_step(&mut engine, &due, height, &mut positions);
        }
        height += 1;
    }
    assert_eq!(stepped_at, vec![100, 125, 150, 175, 200]);
    assert_eq!(positions, 4);

    let closed = engine.state_by_id(&auction).unwrap();
    assert_eq!(closed.state.seq, 1);
    assert_eq!(closed.state.current_position, None);
    assert_eq!(closed.state.next_trigger, None);
    assert_eq!(closed.state.input_reserves, amount(100));
    assert_eq!(engine.trigger_of(&auction), None);
    assert_eq!(engine.positions_for(&auction), Vec::<PositionId>::new());

    let recomputed = ReservesCommitment {
        input: amount(100),
        output: amount(0),
        commitment: commitment(4),
    };
    assert_eq!(
        engine.withdraw(&auction, 1, &commitment(4), &recomputed),
        Ok(Action::Release {
            input: Value { amount: amount(100), asset_id: ASSET_A },
            output: Value { amount: amount(0), asset_id: ASSET_B },
        })
    );
    assert_eq!(engine.state_by_id(&auction).unwrap().state.seq, 2);
}

#[test]
fn positions_for_lists_the_current_position() {
    let mut engine = Engine::new();
    let auction = id(1);
    let mut positions = 0u8;
    assert!(engine.schedule(auction, description(100, 200, 0), 50).is_ok());
    assert_eq!(engine.positions_for(&auction), Vec::<PositionId>::new());
    assert_eq!(engine.on_block_enter(100), vec![auction]);
    drive_step(&mut engine, &auction, 100, &mut positions);
    assert_eq!(engine.positions_for(&auction), vec![position(1)]);
    assert_eq!(engine.trigger_of(&auction), Some(125));
    assert_eq!(engine.on_block_enter(125), vec![auction]);
    drive_step(&mut engine, &auction, 125, &mut positions);
    assert_eq!(engine.positions_for(&auction), vec![position(2)]);
}

#[test]
fn schedule_past_start_returns_the_position_to_open() {
    let mut engine = Engine::new();
    let auction = id(1);
    let action = engine.schedule(auction, description(100, 200, 0), 130).unwrap();
    match action {
        Action::OpenPosition { quote } => {
            assert_eq!(quote.input.amount, amount(100));
            assert_eq!(quote.price.numerator, amount(800));
        }
        other => panic!("unexpected action {:?}", other),
    }
    engine.position_opened(&auction, position(1), 130);
    assert_eq!(engine.trigger_of(&auction), Some(150));
    assert_eq!(engine.on_block_enter(149), Vec::<AuctionId>::new());
    assert_eq!(engine.on_block_enter(150), vec![auction]);
}

#[test]
fn end_through_the_engine_clears_the_trigger() {
    let mut engine = Engine::new();
    let auction = id(1);
    let mut positions = 0u8;
    assert!(engine.schedule(auction, description(100, 200, 0), 50).is_ok());
    assert_eq!(engine.on_block_enter(100), vec![auction]);
    drive_step(&mut engine, &auction, 100, &mut positions);

    assert_eq!(engine.end(&auction, 0), Ok(Action::ClosePosition { position: position(1) }));
    engine.position_closed(&auction, Reserves { input: amount(40), output: amount(600) });
    assert_eq!(engine.end(&auction, 0), Ok(Action::Nothing));
    assert_eq!(engine.trigger_of(&auction), None);
    assert_eq!(engine.on_block_enter(1_000), Vec::<AuctionId>::new());
    assert_eq!(engine.end(&auction, 0), Err(Rejection::SeqMismatch { expected: 1, claimed: 0 }));
    assert_eq!(engine.end(&auction, 1), Err(Rejection::AlreadyClosed));
}

#[test]
fn actions_on_an_unknown_auction_are_rejected() {
    let mut engine = Engine::new();
    let recomputed =
        ReservesCommitment { input: amount(0), output: amount(0), commitment: commitment(0) };
    assert_eq!(engine.end(&id(1), 0), Err(Rejection::UnknownAuction));
    assert_eq!(
        engine.withdraw(&id(1), 1, &commitment(0), &recomputed),
        Err(Rejection::UnknownAuction)
    );
}

#[test]
fn apply_action_dispatches_the_three_actions() {
    let mut engine = Engine::new();
    let auction = id(1);
    let schedule = AuctionAction::Schedule {
        id: auction,
        action: ActionDutchAuctionSchedule { description: description(100, 200, 0) },
    };
    assert_eq!(engine.apply_action(&schedule, 50), Ok(Action::Nothing));
    assert_eq!(engine.apply_action(&schedule, 50), Err(Rejection::AuctionExists));

    let stale = AuctionAction::End {
        action: ActionDutchAuctionEnd { auction_id: auction },
        auth_seq: 1,
    };
    assert_eq!(
        engine.apply_action(&stale, 60),
        Err(Rejection::SeqMismatch { expected: 0, claimed: 1 })
    );
    let end = AuctionAction::End {
        action: ActionDutchAuctionEnd { auction_id: auction },
        auth_seq: AuctionNft::new(auction, 0).seq,
    };
    assert_eq!(engine.apply_action(&end, 60), Ok(Action::Nothing));

    let plan = ActionDutchAuctionWithdrawPlan {
        auction_id: auction,
        seq: 1,
        reserves_input: Value { amount: amount(100), asset_id: ASSET_A },
        reserves_output: Value { amount: amount(0), asset_id: ASSET_B },
    };
    let action = plan.to_action(commitment(8));
    assert_eq!(
        action,
        ActionDutchAuctionWithdraw {
            auction_id: auction,
            seq: 1,
            reserves_commitment: commitment(8)
        }
    );
    let recomputed =
        ReservesCommitment { input: amount(100), output: amount(0), commitment: commitment(8) };
    let withdraw = AuctionAction::Withdraw { action, recomputed };
    assert_eq!(
        engine.apply_action(&withdraw, 61),
        Ok(Action::Release {
            input: Value { amount: amount(100), asset_id: ASSET_A },
            output: Value { amount: amount(0), asset_id: ASSET_B },
        })
    );
    let recomputed =
        ReservesCommitment { input: amount(0), output: amount(0), commitment: commitment(8) };
    let again = AuctionAction::Withdraw {
        action: ActionDutchAuctionWithdraw {
            auction_id: auction,
            seq: 2,
            reserves_commitment: commitment(8),
        },
        recomputed,
    };
    assert_eq!(engine.apply_action(&again, 62), Err(Rejection::NothingToWithdraw));
}

#[test]
fn steps_come_before_the_actions_of_the_same_block() {
    // the terminal step and an End arrive in one block: the End sees the
    // closed auction
    let mut engine = Engine::new();
    let auction = id(1);
    let mut positions = 0u8;
    assert!(engine.schedule(auction, description(100, 200, 0), 50).is_ok());
    for height in [100u64, 125, 150, 175, 200] {
        for due in engine.on_block_enter(height) {
            drive_step(&mut engine, &due, height, &mut positions);
        }
    }
    assert_eq!(engine.end(&auction, 0), Err(Rejection::SeqMismatch { expected: 1, claimed: 0 }));
    assert_eq!(engine.state_by_id(&auction).unwrap().state.current_position, None);
}

#[test]
fn the_index_can_be_rebuilt_from_the_states() {
    let mut engine = Engine::new();
    let mut positions = 0u8;
    assert!(engine.schedule(id(1), description(100, 200, 0), 50).is_ok());
    assert!(engine.schedule(id(2), description(120, 220, 1), 50).is_ok());
    assert!(engine.schedule(id(3), description(100, 200, 2), 50).is_ok());
    assert_eq!(engine.end(&id(3), 0), Ok(Action::Nothing));
    // two auctions are handed out and only one of them is stepped
    assert_eq!(engine.on_block_enter(120), vec![id(1), id(2)]);
    drive_step(&mut engine, &id(1), 120, &mut positions);
    assert_eq!(engine.trigger_of(&id(1)), Some(125));
    assert_eq!(engine.trigger_of(&id(2)), None);

    engine.rebuild_index();
    assert_eq!(engine.trigger_of(&id(1)), Some(125));
    assert_eq!(engine.trigger_of(&id(2)), Some(120));
    assert_eq!(engine.trigger_of(&id(3)), None);
    assert_eq!(engine.on_block_enter(125), vec![id(2), id(1)]);
}

#[test]
fn ids_are_listed_in_byte_order() {
    let mut engine = Engine::new();
    for tag in [9u8, 2, 200, 1, 77] {
        assert!(engine.schedule(id(tag), description(100, 200, tag), 50).is_ok());
    }
    assert_eq!(engine.ids(), vec![id(1), id(2), id(9), id(77), id(200)]);
}

#[test]
fn store_keeps_descriptions_and_replaces_states() {
    let mut store = AuctionStore::new();
    let (auction, _) = DutchAuction::schedule(description(100, 200, 0), 50).unwrap();
    let (other, _) = DutchAuction::schedule(description(300, 400, 1), 50).unwrap();
    assert_eq!(store.len(), 0);
    assert!(!store.contains(&id(1)));
    assert!(store.insert(id(1), auction));
    assert!(!store.insert(id(1), other));
    assert_eq!(store.get(&id(1)), Some(auction));
    assert_eq!(store.get(&id(2)), None);
    assert!(store.insert(id(0), other));
    assert_eq!(store.len(), 2);
    assert_eq!(store.ids(), vec![id(0), id(1)]);

    let mut state = auction.state;
    state.seq = 1;
    state.next_trigger = None;
    assert!(store.put_state(&id(1), state));
    assert!(!store.put_state(&id(5), state));
    let stored = store.get(&id(1)).unwrap();
    assert_eq!(stored.description, auction.description);
    assert_eq!(stored.state, state);
    assert_eq!(store.get(&id(0)), Some(other));
}

#[test]
fn auction_id_is_the_truncated_personalised_hash() {
    let encoded = b"some serialized description";
    let id = AuctionId::derive(encoded);
    let hash = blake2b_simd::Params::new().personal(b"penumbra_DA_nft").hash(encoded);
    assert_eq!(&id.inner[..], &hash.as_bytes()[..32]);
    assert_ne!(AuctionId::derive(b"some serialized descriptioN"), id);
    assert_eq!(AuctionId::derive(encoded), id);
}

#[test]
fn genesis_holds_the_parameters() {
    assert_eq!(GenesisContent::default().params, AuctionParameters {});
}

#[test]
fn an_engine_is_restored_from_its_records() {
    let mut engine = Engine::new();
    let mut positions = 0u8;
    assert!(engine.schedule(id(1), description(100, 200, 0), 50).is_ok());
    assert!(engine.schedule(id(2), description(120, 220, 1), 50).is_ok());
    assert!(engine.schedule(id(3), description(100, 200, 2), 50).is_ok());
    assert_eq!(engine.end(&id(3), 0), Ok(Action::Nothing));
    for due in engine.on_block_enter(110) {
        drive_step(&mut engine, &due, 110, &mut positions);
    }
    let records: Vec<AuctionRecord> = engine
        .ids()
        .into_iter()
        .rev()
        .map(|id| AuctionRecord { id, auction: engine.state_by_id(&id).unwrap() })
        .collect();

    let mut restored = Engine::restore(&records, 110).unwrap();
    assert_eq!(restored.ids(), engine.ids());
    assert_eq!(restored.current_height(), 110);
    assert!(!restored.has_pending());
    for id in engine.ids() {
        assert_eq!(restored.state_by_id(&id), engine.state_by_id(&id));
        assert_eq!(restored.trigger_of(&id), engine.trigger_of(&id));
    }
    assert_eq!(restored.trigger_of(&id(1)), Some(125));
    assert_eq!(restored.trigger_of(&id(2)), Some(120));
    assert_eq!(restored.trigger_of(&id(3)), None);
    assert_eq!(restored.on_block_enter(125), vec![id(2), id(1)]);
}

#[test]
fn restore_refuses_records_that_cannot_be() {
    let (auction, _) = DutchAuction::schedule(description(100, 200, 0), 50).unwrap();
    assert!(Engine::restore(&Vec::new(), 0).is_some());
    assert!(Engine::restore(&vec![AuctionRecord { id: id(1), auction }], 0).is_some());
    // an id twice
    let twice = vec![
        AuctionRecord { id: id(1), auction },
        AuctionRecord { id: id(2), auction },
        AuctionRecord { id: id(1), auction },
    ];
    assert!(Engine::restore(&twice, 0).is_none());
    // an open auction without a trigger
    let mut broken = auction;
    broken.state.next_trigger = None;
    assert!(!broken.check());
    assert!(Engine::restore(&vec![AuctionRecord { id: id(1), auction: broken }], 0).is_none());
}

#[test]
fn records_are_checked_against_the_invariant() {
    let (auction, _) = DutchAuction::schedule(description(100, 200, 0), 50).unwrap();
    assert!(auction.check());
    let mut a = auction;
    a.state.input_reserves = amount(101);
    assert!(!a.check());
    let mut a = auction;
    a.state.current_position = Some(position(1));
    assert!(!a.check());
    a.state.input_reserves = amount(0);
    assert!(a.check());
    let mut a = auction;
    a.state.next_trigger = Some(99);
    assert!(!a.check());
    a.state.next_trigger = Some(200);
    assert!(a.check());
    a.state.next_trigger = Some(201);
    assert!(!a.check());
    let mut a = auction;
    a.state.seq = 1;
    assert!(!a.check());
    a.state.next_trigger = None;
    assert!(a.check());
    a.state.seq = 2;
    assert!(!a.check());
    a.state.input_reserves = amount(0);
    assert!(a.check());
    let mut a = auction;
    a.description.step_count = 3;
    assert!(!a.check());
}
