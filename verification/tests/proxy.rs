use auction_engine::proxy::{BlockLog, SyncInfo, Timestamp};
use auction_engine::rpc::{
    full_name, route, QueryMethod, AUCTION_STATE_BY_IDS_PATH, AUCTION_STATE_BY_ID_PATH, PACKAGE,
    SERVICE_NAME,
};

fn at(seconds: i64) -> Timestamp {
    Timestamp { seconds, nanos: 5 }
}

#[test]
fn block_log_starts_empty() {
    let log: BlockLog<&str> = BlockLog::new();
    assert!(log.latest().is_none());
    assert!(!log.has_block(0));
    assert!(log.get_block_by_height(0).is_none());
}

#[test]
fn block_log_reports_the_latest_block() {
    let mut log: BlockLog<&str> = BlockLog::new();
    log.on_block(1, at(100), "one");
    assert_eq!(log.latest_block_height(), 1);
    assert_eq!(log.timestamp(), at(100));
    log.on_block(2, at(105), "two");
    log.on_block(3, at(111), "three");
    assert_eq!(log.latest_block_height(), 3);
    assert_eq!(log.timestamp(), at(111));
    assert_eq!(
        log.get_status(),
        SyncInfo { latest_block_height: 3, latest_block_time: at(111), catching_up: false }
    );
    assert_eq!(log.latest().map(|seen| seen.block), Some("three"));
}

#[test]
fn block_log_finds_blocks_by_height() {
    let mut log: BlockLog<String> = BlockLog::new();
    for height in [5u64, 1, 9, 3, 7] {
        assert!(!log.has_block(height));
        log.on_block(height, at(height as i64), format!("block {}", height));
        assert!(log.has_block(height));
    }
    assert_eq!(log.latest_block_height(), 9);
    for height in [1i64, 3, 5, 7, 9] {
        let seen = log.get_block_by_height(height).unwrap();
        assert_eq!(seen.height, height as u64);
        assert_eq!(seen.time, at(height));
        assert_eq!(seen.block, format!("block {}", height));
    }
    for height in [0i64, 2, 4, 6, 8, 10, i64::MAX] {
        assert!(log.get_block_by_height(height).is_none());
    }
}

#[test]
fn query_paths_are_routed() {
    assert_eq!(
        route("/penumbra.core.component.auction.v1alpha1.QueryService/AuctionStateById"),
        Some(QueryMethod::AuctionStateById)
    );
    assert_eq!(
        route("/penumbra.core.component.auction.v1alpha1.QueryService/AuctionStateByIds"),
        Some(QueryMethod::AuctionStateByIds)
    );
    for path in [
        "",
        "/",
        "/penumbra.core.component.auction.v1alpha1.QueryService/",
        "/penumbra.core.component.auction.v1alpha1.QueryService/AuctionStateByIdss",
        "penumbra.core.component.auction.v1alpha1.QueryService/AuctionStateById",
    ] {
        assert_eq!(route(path), None);
    }
}

#[test]
fn query_methods_know_their_names() {
    assert_eq!(QueryMethod::AuctionStateById.path(), AUCTION_STATE_BY_ID_PATH);
    assert_eq!(QueryMethod::AuctionStateByIds.path(), AUCTION_STATE_BY_IDS_PATH);
    assert_eq!(route(QueryMethod::AuctionStateByIds.path()), Some(QueryMethod::AuctionStateByIds));
    assert_eq!(QueryMethod::AuctionStateById.name(), "AuctionStateById");
    assert_eq!(QueryMethod::AuctionStateByIds.name(), "AuctionStateByIds");
    assert_eq!(
        format!("/{}/{}", SERVICE_NAME, QueryMethod::AuctionStateById.name()),
        AUCTION_STATE_BY_ID_PATH
    );
}

#[test]
fn message_names_are_qualified_by_the_package() {
    assert_eq!(PACKAGE, "penumbra.core.component.auction.v1alpha1");
    assert_eq!(
        full_name("DutchAuctionState"),
        "penumbra.core.component.auction.v1alpha1.DutchAuctionState"
    );
    assert_eq!(full_name(""), "penumbra.core.component.auction.v1alpha1.");
}
