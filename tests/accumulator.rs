use coinflipper::pb::Coinflip;
use coinflipper::stats::{result_array_from_pb, result_array_to_pb, AsyncResults};

fn hist_with(pairs: &[(usize, u64)]) -> [u64; 128] {
    let mut a = [0u64; 128];
    for &(i, v) in pairs {
        a[i] = v;
    }
    a
}

#[test]
fn new_accumulator_is_empty() {
    let r = AsyncResults::new();
    let (h, t) = r.get();
    assert_eq!(h, [0u64; 128]);
    assert_eq!(t, 0);
}

#[test]
fn push_then_pop_returns_pushed() {
    let mut r = AsyncResults::new();
    let x = hist_with(&[(0, 7), (5, 3), (127, 1)]);
    r.push(&x, 42);
    let (h, t) = r.pop();
    assert_eq!(h, x);
    assert_eq!(t, 42);
}

#[test]
fn pop_then_get_is_zero() {
    let mut r = AsyncResults::new();
    r.push(&hist_with(&[(3, 9)]), 9);
    let _ = r.pop();
    let (h, t) = r.get();
    assert_eq!(h, [0u64; 128]);
    assert_eq!(t, 0);
}

#[test]
fn get_does_not_reset() {
    let mut r = AsyncResults::new();
    r.push(&hist_with(&[(1, 2)]), 2);
    assert_eq!(r.get(), r.get());
    assert_eq!(r.get().1, 2);
}

#[test]
fn pushes_in_any_order_sum_elementwise() {
    let a = hist_with(&[(0, 1), (1, 2)]);
    let b = hist_with(&[(1, 10), (2, 20)]);
    let c = hist_with(&[(0, 100), (127, 5)]);
    let mut r1 = AsyncResults::new();
    r1.push(&a, 3);
    r1.push(&b, 30);
    r1.push(&c, 105);
    let mut r2 = AsyncResults::new();
    r2.push(&c, 105);
    r2.push(&a, 3);
    r2.push(&b, 30);
    assert_eq!(r1.get(), r2.get());
    assert_eq!(r1.get().0, hist_with(&[(0, 101), (1, 12), (2, 20), (127, 5)]));
    assert_eq!(r1.get().1, 138);
}

#[test]
fn fits_detects_overflow() {
    let mut r = AsyncResults::new();
    r.push(&hist_with(&[(4, u64::MAX - 1)]), 1);
    assert!(r.fits(&hist_with(&[(4, 1)]), 5));
    assert!(!r.fits(&hist_with(&[(4, 2)]), 5));
    assert!(!r.fits(&hist_with(&[]), u64::MAX));
}

#[test]
fn to_pb_lists_non_zero_buckets_in_order() {
    let a = hist_with(&[(2, 5), (0, 1), (127, 9)]);
    let v = result_array_to_pb(&a);
    assert_eq!(
        v,
        vec![
            Coinflip { position: 0, flips: 1 },
            Coinflip { position: 2, flips: 5 },
            Coinflip { position: 127, flips: 9 },
        ]
    );
    assert!(result_array_to_pb(&[0u64; 128]).is_empty());
}

#[test]
fn from_pb_drops_out_of_range_positions() {
    let v = vec![
        Coinflip { position: 3, flips: 4 },
        Coinflip { position: 128, flips: 99 },
        Coinflip { position: 4000, flips: 1 },
        Coinflip { position: 127, flips: 2 },
    ];
    assert_eq!(result_array_from_pb(&v), hist_with(&[(3, 4), (127, 2)]));
}

#[test]
fn from_pb_later_entry_wins() {
    let v = vec![Coinflip { position: 1, flips: 4 }, Coinflip { position: 1, flips: 6 }];
    assert_eq!(result_array_from_pb(&v), hist_with(&[(1, 6)]));
}

#[test]
fn sparse_round_trip_restores_dense() {
    let a = hist_with(&[(0, 10), (63, 1), (64, 0), (100, 77), (127, 3)]);
    let mut r = AsyncResults::new();
    r.push(&a, 91);
    let (h, t) = r.get();
    let wire = result_array_to_pb(&h);
    assert_eq!(wire.len(), 4);
    assert_eq!(result_array_from_pb(&wire), a);
    assert_eq!(t, 91);
}
