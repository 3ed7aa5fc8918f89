use magictax::amount::{Amount, MAX_CENTS};

fn parsed(text: &str) -> Option<i64> {
    Amount::parse_text(text).map(|a| a.cents())
}

#[test]
fn parse_accepts_decimals() {
    assert_eq!(parsed("123.5"), Some(12350));
    assert_eq!(parsed("0"), Some(0));
    assert_eq!(parsed("-1.0"), Some(-100));
    assert_eq!(parsed("1.23"), Some(123));
    assert_eq!(parsed("007"), Some(700));
    assert_eq!(parsed("-0.5"), Some(-50));
    assert_eq!(parsed("-0"), Some(0));
}

#[test]
fn parse_rejects_bad_shapes() {
    assert_eq!(parsed(""), None);
    assert_eq!(parsed("-"), None);
    assert_eq!(parsed("."), None);
    assert_eq!(parsed(".5"), None);
    assert_eq!(parsed("5."), None);
    assert_eq!(parsed("1.234"), None);
    assert_eq!(parsed("1e3"), None);
    assert_eq!(parsed("12a"), None);
    assert_eq!(parsed("1,5"), None);
    assert_eq!(parsed("inf"), None);
}

#[test]
fn parse_respects_the_cap() {
    assert_eq!(parsed("1000000000000"), Some(MAX_CENTS));
    assert_eq!(parsed("1000000000000.01"), None);
    assert_eq!(parsed("9999999999999999999999"), None);
    assert_eq!(parsed("-1000000000000"), Some(-MAX_CENTS));
}

#[test]
fn render_drops_trailing_zeros() {
    let text = |cents: i64| Amount::from_cents(cents).unwrap().to_text();
    assert_eq!(text(0), "0");
    assert_eq!(text(100), "1");
    assert_eq!(text(-100), "-1");
    assert_eq!(text(12350), "123.5");
    assert_eq!(text(12345), "123.45");
    assert_eq!(text(-50), "-0.5");
    assert_eq!(text(1), "0.01");
    assert_eq!(text(MAX_CENTS), "1000000000000");
}

#[test]
fn render_parse_round_trip() {
    for cents in [0, 1, -1, 99, 100, -12345, 12350, MAX_CENTS, -MAX_CENTS] {
        let a = Amount::from_cents(cents).unwrap();
        let back = Amount::parse_text(&a.to_text()).expect("rendered values parse");
        assert_eq!(back.cents(), cents);
    }
}

#[test]
fn from_cents_checks_the_range() {
    assert!(Amount::from_cents(MAX_CENTS).is_some());
    assert!(Amount::from_cents(MAX_CENTS + 1).is_none());
    assert!(Amount::from_cents(-MAX_CENTS - 1).is_none());
    assert_eq!(Amount::zero().cents(), 0);
}
