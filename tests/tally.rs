use coinflipper::tally::{AsyncStatistics, TallyEntry};

#[test]
fn window_sums_and_speed() {
    let mut s = AsyncStatistics::new(2000);
    s.push_at(7, 10, 0);
    s.push_at(7, 5, 1000);
    let t = s.get_tally_at(1000);
    let e = t.get(&7).unwrap();
    assert_eq!(e.total_coins, 15);
    assert_eq!(e.begin, 0);
    assert_eq!(e.end, 1000);
    assert_eq!(e.speed(), 15);
}

#[test]
fn stale_entries_are_evicted() {
    let mut s = AsyncStatistics::new(10_000);
    s.push_at(7, 10, 0);
    s.push_at(7, 5, 1000);
    let t = s.get_tally_at(100_000);
    assert!(t.get(&7).is_none());
    assert!(t.is_empty());
}

#[test]
fn push_evicts_before_appending() {
    let mut s = AsyncStatistics::new(1000);
    s.push_at(1, 10, 0);
    s.push_at(2, 20, 5000);
    let t = s.get_tally_at(5000);
    assert_eq!(t.len(), 1);
    assert_eq!(t.get(&2).unwrap().total_coins, 20);
}

#[test]
fn clients_tallied_separately() {
    let mut s = AsyncStatistics::new(10_000);
    s.push_at(1, 100, 0);
    s.push_at(2, 50, 500);
    s.push_at(1, 100, 2000);
    let t = s.get_tally_at(2000);
    assert_eq!(t.len(), 2);
    assert_eq!(*t.get(&1).unwrap(), TallyEntry { total_coins: 200, begin: 0, end: 2000 });
    assert_eq!(t.get(&1).unwrap().speed(), 100);
    assert_eq!(*t.get(&2).unwrap(), TallyEntry { total_coins: 50, begin: 500, end: 500 });
    assert_eq!(t.get(&2).unwrap().speed(), 0);
}

#[test]
fn speed_zero_span_is_zero() {
    let e = TallyEntry { total_coins: 1000, begin: 5, end: 5 };
    assert_eq!(e.speed(), 0);
}

#[test]
fn speed_rounds_down_and_saturates() {
    let e = TallyEntry { total_coins: 10, begin: 0, end: 3000 };
    assert_eq!(e.speed(), 3);
    let big = TallyEntry { total_coins: u64::MAX, begin: 0, end: 1 };
    assert_eq!(big.speed(), u64::MAX);
}

#[test]
fn totals_saturate() {
    let mut s = AsyncStatistics::new(10_000);
    s.push_at(1, u64::MAX, 0);
    s.push_at(1, 5, 10);
    assert_eq!(s.get_tally_at(10).get(&1).unwrap().total_coins, u64::MAX);
}

#[test]
fn clock_push_is_seen_by_clock_query() {
    let mut s = AsyncStatistics::new(60_000);
    s.push(9, 12);
    let t = s.get_tally();
    assert_eq!(t.get(&9).unwrap().total_coins, 12);
}
