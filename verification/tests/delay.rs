use webscout::delay::{parse_delay, pick_delay};

#[test]
fn parse_delay_accepts_increasing_range() {
    assert_eq!(parse_delay("100-500"), Some(100..500));
    assert_eq!(parse_delay("0-1"), Some(0..1));
    assert_eq!(parse_delay("+5-+9"), Some(5..9));
}

#[test]
fn parse_delay_rejects_other_shapes() {
    assert_eq!(parse_delay("500-100"), None);
    assert_eq!(parse_delay("100-100"), None);
    assert_eq!(parse_delay("100"), None);
    assert_eq!(parse_delay("1-2-3"), None);
    assert_eq!(parse_delay("a-b"), None);
    assert_eq!(parse_delay(" 1-2"), None);
    assert_eq!(parse_delay("-5"), None);
    assert_eq!(parse_delay(""), None);
    assert_eq!(parse_delay("1-99999999999999999999"), None);
}

#[test]
fn pick_delay_stays_in_range() {
    assert_eq!(pick_delay(None), None);
    assert_eq!(pick_delay(Some(5..5)), None);
    for _ in 0..100 {
        let d = pick_delay(Some(10..20)).unwrap();
        assert!((10..20).contains(&d));
    }
}

#[test]
fn written_ranges_read_back() {
    let cases: [(u64, u64); 4] = [(0, 1), (100, 500), (9, 10), (u64::MAX - 1, u64::MAX)];
    for (a, b) in cases {
        assert_eq!(parse_delay(&format!("{}-{}", a, b)), Some(a..b));
    }
}
