use cita_services::history::{HistoryHeights, BLOCKLIMIT, REQUEST_INTERVAL};

#[test]
fn basic() {
    let mut h = HistoryHeights::new();
    assert_eq!(h.is_init(), false);
    assert_eq!(h.next_height(), 1);

    h.update_height(60);
    assert_eq!(h.is_init(), false);
    assert_eq!(h.next_height(), 61);

    for i in 0..60 {
        h.update_height(i);
    }
    assert_eq!(h.is_init(), true);
    assert_eq!(h.next_height(), 61);

    h.update_height(70);
    assert_eq!(h.is_init(), false);
    assert_eq!(h.next_height(), 71);

    for i in 0..70 {
        h.update_height(i);
    }
    assert_eq!(h.is_init(), true);
    assert_eq!(h.next_height(), 71);

    h.update_height(99);
    assert_eq!(h.is_init(), false);
    assert_eq!(h.next_height(), 100);

    for i in 0..99 {
        h.update_height(i);
    }
    assert_eq!(h.is_init(), true);
    assert_eq!(h.next_height(), 100);

    h.update_height(100);
    assert_eq!(h.is_init(), true);
    assert_eq!(h.next_height(), 101);

    h.update_height(101);
    assert_eq!(h.is_init(), true);
    assert_eq!(h.next_height(), 102);
}

#[test]
fn window_follows_the_top() {
    let mut h = HistoryHeights::new();
    h.update_height(100);
    assert_eq!(h.min_height(), 0);
    h.update_height(101);
    assert_eq!(h.min_height(), 2);
    h.update_height(500);
    assert_eq!(h.min_height(), 401);
    assert_eq!(h.max_height(), 500);
}

#[test]
fn heights_below_the_window_are_ignored() {
    let mut h = HistoryHeights::new();
    h.update_height(500);
    h.update_height(400);
    assert_eq!(h.max_height(), 500);
    assert_eq!(h.min_height(), 401);
    assert!(!h.is_init());
}

#[test]
fn seeing_a_block_again_changes_nothing() {
    let mut h = HistoryHeights::new();
    for i in [3, 1, 0, 2] {
        h.update_height(i);
    }
    assert!(h.is_init());
    h.update_height(1);
    assert!(h.is_init());
    assert_eq!(h.next_height(), 4);
}

#[test]
fn first_block_initialises_an_empty_chain() {
    let mut h = HistoryHeights::new();
    h.update_height(0);
    assert!(h.is_init());
    assert_eq!(h.next_height(), 1);
}

#[test]
fn the_next_block_keeps_the_history_initialised_and_a_gap_does_not() {
    let mut h = HistoryHeights::new();
    h.update_height(0);
    h.update_height(1);
    assert!(h.is_init());
    h.update_height(3);
    assert!(!h.is_init());
    h.update_height(2);
    assert!(h.is_init());
}

#[test]
fn history_can_be_reset() {
    let mut h = HistoryHeights::new();
    h.update_height(0);
    h.update_height(1);
    h.update_time_stamp_at(7000);
    h.reset();
    assert!(!h.is_init());
    assert_eq!(h.max_height(), 0);
    assert_eq!(h.min_height(), 0);
    assert!(!h.is_too_frequent_at(REQUEST_INTERVAL));
}

#[test]
fn another_request_waits_for_the_interval() {
    let mut h = HistoryHeights::new();
    assert!(h.is_too_frequent_at(2999));
    assert!(!h.is_too_frequent_at(3000));
    h.update_time_stamp_at(10_000);
    assert!(h.is_too_frequent_at(9_000));
    assert!(h.is_too_frequent_at(12_999));
    assert!(!h.is_too_frequent_at(13_000));
    h.update_time_stamp_at(u64::MAX);
    assert!(h.is_too_frequent_at(u64::MAX));
}

#[test]
fn the_clock_moves_with_the_machine() {
    let mut h = HistoryHeights::new();
    assert!(!h.is_too_frequent());
    h.update_time_stamp();
    assert!(h.is_too_frequent());
}

#[test]
fn block_limit_is_that_of_the_node() {
    assert_eq!(BLOCKLIMIT, cita_util::BLOCKLIMIT);
}

#[test]
fn the_order_of_two_blocks_does_not_matter() {
    for (a, b) in [(1, 2), (3, 500), (500, 450), (102, 1), (7, 7)] {
        let mut one = HistoryHeights::new();
        let mut other = HistoryHeights::new();
        for h in [&mut one, &mut other] {
            h.update_height(0);
        }
        one.update_height(a);
        one.update_height(b);
        other.update_height(b);
        other.update_height(a);
        assert_eq!(one.is_init(), other.is_init());
        assert_eq!(one.min_height(), other.min_height());
        assert_eq!(one.max_height(), other.max_height());
    }
}
