use auction_engine::auction::id::AuctionId;
use auction_engine::auction::scheduler::{Trigger, TriggerScheduler};

fn id(first: u8, last: u8) -> AuctionId {
    let mut inner = [0u8; 32];
    inner[0] = first;
    inner[31] = last;
    AuctionId { inner }
}

#[test]
fn scheduler_starts_empty() {
    let mut s = TriggerScheduler::new();
    assert!(s.is_empty());
    assert_eq!(s.len(), 0);
    assert_eq!(s.next_height(), None);
    assert_eq!(s.pop_due(u64::MAX), Vec::<AuctionId>::new());
}

#[test]
fn pop_due_returns_what_is_due_and_keeps_the_rest() {
    let mut s = TriggerScheduler::new();
    s.schedule(30, id(1, 0));
    s.schedule(10, id(2, 0));
    s.schedule(20, id(3, 0));
    assert_eq!(s.len(), 3);
    assert_eq!(s.next_height(), Some(10));
    assert_eq!(s.pop_due(9), Vec::<AuctionId>::new());
    assert_eq!(s.pop_due(20), vec![id(2, 0), id(3, 0)]);
    assert_eq!(s.len(), 1);
    assert_eq!(s.height_of(&id(1, 0)), Some(30));
    assert_eq!(s.height_of(&id(2, 0)), None);
    assert_eq!(s.pop_due(20), Vec::<AuctionId>::new());
    assert_eq!(s.pop_due(30), vec![id(1, 0)]);
    assert!(s.is_empty());
}

#[test]
fn pop_due_orders_by_height_then_by_id_bytes() {
    let mut s = TriggerScheduler::new();
    s.schedule(7, id(9, 0));
    s.schedule(7, id(0, 2));
    s.schedule(5, id(200, 0));
    s.schedule(7, id(0, 1));
    s.schedule(6, id(1, 0));
    assert_eq!(
        s.pop_due(7),
        vec![id(200, 0), id(1, 0), id(0, 1), id(0, 2), id(9, 0)]
    );
}

#[test]
fn cancel_removes_from_whatever_height() {
    let mut s = TriggerScheduler::new();
    s.schedule(5, id(1, 0));
    s.schedule(8, id(2, 0));
    assert_eq!(s.cancel(&id(2, 0)), Some(8));
    assert_eq!(s.cancel(&id(2, 0)), None);
    assert_eq!(s.cancel(&id(3, 0)), None);
    assert_eq!(s.pop_due(100), vec![id(1, 0)]);
}

#[test]
fn cancel_then_reschedule_moves_the_trigger() {
    let mut s = TriggerScheduler::new();
    s.schedule(5, id(1, 0));
    s.schedule(6, id(2, 0));
    assert_eq!(s.cancel(&id(1, 0)), Some(5));
    s.schedule(50, id(1, 0));
    assert_eq!(s.pop_due(10), vec![id(2, 0)]);
    assert_eq!(s.height_of(&id(1, 0)), Some(50));
    assert_eq!(s.pop_due(50), vec![id(1, 0)]);
}

#[test]
fn scheduling_twice_at_one_height_changes_nothing() {
    let mut s = TriggerScheduler::new();
    s.schedule(5, id(1, 0));
    s.schedule(5, id(1, 0));
    assert_eq!(s.len(), 1);
    assert_eq!(s.pop_due(5), vec![id(1, 0)]);
}

#[test]
fn popped_ids_are_not_popped_again() {
    let mut s = TriggerScheduler::new();
    s.schedule(1, id(1, 0));
    s.schedule(2, id(2, 0));
    assert_eq!(s.pop_due(5), vec![id(1, 0), id(2, 0)]);
    assert_eq!(s.pop_due(5), Vec::<AuctionId>::new());
    assert_eq!(s.pop_due(u64::MAX), Vec::<AuctionId>::new());
}

#[test]
fn trigger_order_is_height_then_id() {
    let a = Trigger { height: 1, id: id(9, 9) };
    let b = Trigger { height: 2, id: id(0, 0) };
    let c = Trigger { height: 2, id: id(0, 1) };
    assert!(a.precedes(&b));
    assert!(b.precedes(&c));
    assert!(a.precedes(&c));
    assert!(!b.precedes(&a));
    assert!(!c.precedes(&b));
    assert!(!a.precedes(&a));
}

#[test]
fn auction_id_order_is_byte_order() {
    assert!(id(0, 255).precedes(&id(1, 0)));
    assert!(!id(1, 0).precedes(&id(0, 255)));
    assert!(id(1, 0).precedes(&id(1, 1)));
    assert!(!id(1, 1).precedes(&id(1, 1)));
    assert!(id(1, 1).equals(&id(1, 1)));
    assert!(!id(1, 1).equals(&id(1, 2)));
}

#[test]
fn scheduler_with_many_entries_pops_in_order() {
    let mut s = TriggerScheduler::new();
    let mut k: u32 = 0;
    while k < 200 {
        let h = ((k * 37) % 50) as u64;
        s.schedule(h, id((k % 256) as u8, (k / 7) as u8));
        k += 1;
    }
    assert_eq!(s.len(), 200);
    let first = s.pop_due(24);
    let second = s.pop_due(49);
    assert_eq!(first.len() + second.len(), 200);
    assert!(s.is_empty());
    for w in first.windows(2) {
        assert_ne!(w[0], w[1]);
    }
}
