use chronicle_bot::interactions::{gateway_lag_ms, RecentInteractions, RECENT_INTERACTION_CAPACITY};

#[test]
fn first_record_returns_true() {
    let mut r = RecentInteractions::new();
    assert!(r.record(42));
}

#[test]
fn duplicate_record_returns_false() {
    let mut r = RecentInteractions::new();
    assert!(r.record(42));
    assert!(!r.record(42), "replay should be deduped");
    assert!(!r.record(42), "second replay still deduped");
}

#[test]
fn distinct_ids_all_accepted() {
    let mut r = RecentInteractions::new();
    for i in 0..50 {
        assert!(r.record(i), "id {i} first-seen");
    }
}

#[test]
fn eviction_past_capacity() {
    let mut r = RecentInteractions::new();
    for i in 0..(RECENT_INTERACTION_CAPACITY as u64) {
        r.record(i);
    }
    assert!(!r.record(0));
    assert!(r.record(999));
    assert!(
        r.record(0),
        "once evicted, id 0 is treated as fresh"
    );
    assert!(!r.record(2));
}

#[test]
fn lag_counts_from_the_snowflake() {
    assert_eq!(gateway_lag_ms(0, 1420070400000), 0);
    assert_eq!(gateway_lag_ms(0, 1420070402800), 2800);
    assert_eq!(gateway_lag_ms(5 << 22, 1420070400105), 100);
    assert_eq!(gateway_lag_ms((5 << 22) + 77, 1420070400105), 100);
    assert_eq!(gateway_lag_ms(5 << 22, 1420070400000), 0);
}
