use coinflipper::status::timeify;

#[test]
fn timeify_all_units() {
    assert_eq!(timeify(86400 + 3600 + 60 + 1), "1 days 1 hours 1 minutes 1 seconds");
}

#[test]
fn timeify_skips_zero_units() {
    assert_eq!(timeify(2 * 86400 + 5), "2 days 5 seconds");
    assert_eq!(timeify(3600 * 13), "13 hours");
    assert_eq!(timeify(125), "2 minutes 5 seconds");
}

#[test]
fn timeify_zero_is_empty() {
    assert_eq!(timeify(0), "");
}

#[test]
fn timeify_large() {
    assert_eq!(timeify(1_000_000), "11 days 13 hours 46 minutes 40 seconds");
}
