use gwip::errors::ConfigurationError;
use gwip::geometry::CellIndex;
use gwip::geometry::GridShape;
use gwip::tokens::parse_grid_spec;
use gwip::tokens::parse_place_spec;

#[test]
fn grid_descriptor_parses() {
    assert_eq!(parse_grid_spec("2x3").unwrap(), GridShape { rows: 2, columns: 3 });
    assert_eq!(parse_grid_spec("1x1").unwrap(), GridShape { rows: 1, columns: 1 });
}

#[test]
fn malformed_grid_descriptor_names_the_token() {
    let e = parse_grid_spec("2x").unwrap_err();
    assert_eq!(e, ConfigurationError::InvalidGridFormat { token: "2x".to_string() });
}

#[test]
fn grid_descriptor_with_extra_part_rejected() {
    let e = parse_grid_spec("2x3x4").unwrap_err();
    assert_eq!(e, ConfigurationError::InvalidGridFormat { token: "2x3x4".to_string() });
}

#[test]
fn grid_descriptor_without_separator_rejected() {
    let e = parse_grid_spec("23").unwrap_err();
    assert_eq!(e, ConfigurationError::InvalidGridFormat { token: "23".to_string() });
}

#[test]
fn negative_grid_dimension_parses_here() {
    // Range checking happens at placement time, not at parse time.
    assert_eq!(parse_grid_spec("-2x3").unwrap(), GridShape { rows: -2, columns: 3 });
}

#[test]
fn grid_descriptor_extreme_values() {
    assert_eq!(
        parse_grid_spec("2147483647x-2147483648").unwrap(),
        GridShape { rows: i32::MAX, columns: i32::MIN }
    );
    let e = parse_grid_spec("2147483648x1").unwrap_err();
    assert_eq!(e, ConfigurationError::InvalidGridFormat { token: "2147483648x1".to_string() });
}

#[test]
fn grid_descriptor_allows_plus_sign() {
    assert_eq!(parse_grid_spec("+2x+3").unwrap(), GridShape { rows: 2, columns: 3 });
}

#[test]
fn place_descriptor_parses() {
    assert_eq!(parse_place_spec("0,1").unwrap(), CellIndex { row: 0, column: 1 });
    assert_eq!(parse_place_spec("-1,2").unwrap(), CellIndex { row: -1, column: 2 });
}

#[test]
fn malformed_place_descriptor_names_the_token() {
    for token in ["1", "1,2,3", "a,b", "1,", ",", ""] {
        let e = parse_place_spec(token).unwrap_err();
        assert_eq!(e, ConfigurationError::InvalidPlaceFormat { token: token.to_string() });
    }
}
