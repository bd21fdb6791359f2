use gwip::errors::ConfigurationError;
use gwip::geometry::Size;
use gwip::tokens::IntOrPercent;
use gwip::tokens::parse_gap_spec;
use gwip::tokens::parse_int_or_percent;
use gwip::tokens::resolve;
use gwip::tokens::resolve_gaps;

#[test]
fn percent_of_base() {
    let g = parse_int_or_percent("50%").unwrap();
    assert_eq!(g, IntOrPercent::Percent { numerator: 50, denominator: 100 });
    assert_eq!(resolve(&g, 1000), 500);
}

#[test]
fn pixels_ignore_base() {
    let g = parse_int_or_percent("10").unwrap();
    assert_eq!(g, IntOrPercent::Int(10));
    assert_eq!(resolve(&g, 1000), 10);
    assert_eq!(resolve(&g, 7777), 10);
    assert_eq!(resolve(&g, 0), 10);
}

#[test]
fn fractional_percent_truncates_toward_zero() {
    let g = parse_int_or_percent("12.5%").unwrap();
    assert_eq!(g, IntOrPercent::Percent { numerator: 125, denominator: 1000 });
    assert_eq!(resolve(&g, 1000), 125);
    // 12.5% of 999 is 124.875: truncated, not rounded.
    assert_eq!(resolve(&g, 999), 124);
}

#[test]
fn over_hundred_percent_accepted() {
    let g = parse_int_or_percent("150%").unwrap();
    assert_eq!(resolve(&g, 1000), 1500);
}

#[test]
fn gap_parts_are_trimmed() {
    assert_eq!(parse_int_or_percent(" 10 ").unwrap(), IntOrPercent::Int(10));
    let spec = parse_gap_spec("10 x 5%").unwrap();
    assert_eq!(spec.0, IntOrPercent::Int(10));
    assert_eq!(spec.1, IntOrPercent::Percent { numerator: 5, denominator: 100 });
}

#[test]
fn gap_descriptor_splits_in_two() {
    let spec = parse_gap_spec("10x20%").unwrap();
    assert_eq!(spec.0, IntOrPercent::Int(10));
    assert_eq!(spec.1, IntOrPercent::Percent { numerator: 20, denominator: 100 });
}

#[test]
fn malformed_gap_descriptors_rejected() {
    for token in ["10", "10x20x30", "axb", "-5x3", "5.0.1%x1", "%x1", "x", ""] {
        let e = parse_gap_spec(token).unwrap_err();
        assert_eq!(e, ConfigurationError::InvalidGapFormat { token: token.to_string() });
    }
}

#[test]
fn signed_gap_part_rejected() {
    let e = parse_int_or_percent("-5").unwrap_err();
    assert_eq!(e, ConfigurationError::InvalidGapFormat { token: "-5".to_string() });
}

#[test]
fn overlong_numeral_rejected() {
    let e = parse_int_or_percent("12345678901%").unwrap_err();
    assert_eq!(e, ConfigurationError::InvalidGapFormat { token: "12345678901%".to_string() });
    let e = parse_int_or_percent("99999999999").unwrap_err();
    assert_eq!(e, ConfigurationError::InvalidGapFormat { token: "99999999999".to_string() });
}

#[test]
fn vertical_gap_resolves_against_width() {
    // Deliberate quirk of the gap semantics: both parts resolve
    // against the display width.
    let display = Size { width: 1000, height: 500 };
    let (h, v) = parse_gap_spec("10%x10%").unwrap();
    let gaps = resolve_gaps(&h, &v, &display);
    assert_eq!(gaps, Size { width: 100, height: 100 });
}
