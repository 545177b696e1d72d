use coinflipper::flipper::RunCounter;

#[test]
fn uniform_word_finishes_no_run() {
    let mut r = RunCounter::new();
    r.feed_word(u64::MAX);
    assert_eq!(r.take(), [0u64; 128]);
}

#[test]
fn alternating_bits_are_runs_of_one() {
    let mut r = RunCounter::new();
    r.feed_word(0xAAAA_AAAA_AAAA_AAAA);
    let h = r.take();
    assert_eq!(h[0], 62);
    assert_eq!(h[1], 1);
    assert_eq!(h.iter().sum::<u64>(), 63);
}

#[test]
fn run_spanning_words_is_counted_once() {
    let mut r = RunCounter::new();
    r.feed_word(u64::MAX);
    r.feed_word(0);
    let h = r.take();
    assert_eq!(h[64], 1);
    assert_eq!(h.iter().sum::<u64>(), 1);
}

#[test]
fn long_runs_share_last_bucket() {
    let mut r = RunCounter::new();
    r.feed_word(u64::MAX);
    r.feed_word(u64::MAX);
    r.feed_word(u64::MAX);
    r.feed_word(0);
    let h = r.take();
    assert_eq!(h[127], 1);
    assert_eq!(h.iter().sum::<u64>(), 1);
}

#[test]
fn take_clears_histogram() {
    let mut r = RunCounter::new();
    r.feed_word(0x5555_5555_5555_5555);
    assert_ne!(r.take(), [0u64; 128]);
    assert_eq!(r.take(), [0u64; 128]);
}
