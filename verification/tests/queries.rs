use gwip::errors::QueryError;
use gwip::geometry::Size;
use gwip::queries::get_display_geometry;
use gwip::queries::get_focused_window_id;
use gwip::queries::get_window_geometry;

#[test]
fn focused_window_id_parses() {
    assert_eq!(get_focused_window_id("12345\n").unwrap(), 12345);
    assert_eq!(get_focused_window_id("  77  ").unwrap(), 77);
}

#[test]
fn focused_window_id_rejects_junk() {
    let e = get_focused_window_id("no window\n").unwrap_err();
    assert_eq!(e, QueryError::ParseFailed { output: "no window\n".to_string() });
}

#[test]
fn display_geometry_parses() {
    assert_eq!(get_display_geometry("1920 1080\n").unwrap(), Size { width: 1920, height: 1080 });
}

#[test]
fn display_geometry_ignores_trailing_fields() {
    assert_eq!(get_display_geometry("1024 768 extra\n").unwrap(), Size {
        width: 1024,
        height: 768,
    });
}

#[test]
fn display_geometry_rejects_single_field() {
    let e = get_display_geometry("1920\n").unwrap_err();
    assert_eq!(e, QueryError::ParseFailed { output: "1920\n".to_string() });
}

#[test]
fn display_geometry_rejects_double_space() {
    // A doubled separator leaves an empty second field, which is not a
    // numeral.
    assert!(get_display_geometry("1920  1080\n").is_err());
}

#[test]
fn window_geometry_parses() {
    let output = "xwininfo: Window id: 0x2a00005 \"term\"\n\n  Absolute upper-left X:  10\n  Absolute upper-left Y:  20\n  Width: 800\n  Height: 600\n  Depth: 24\n";
    assert_eq!(get_window_geometry(output).unwrap(), Size { width: 800, height: 600 });
}

#[test]
fn window_geometry_allows_deep_indentation() {
    let output = "      Width:    1280\nHeight: 1024\n";
    assert_eq!(get_window_geometry(output).unwrap(), Size { width: 1280, height: 1024 });
}

#[test]
fn window_geometry_needs_blank_after_header() {
    // Without at least one blank between the header and the digits the
    // line does not match.
    let output = "Width:800\nHeight: 600\n";
    assert!(get_window_geometry(output).is_err());
}

#[test]
fn window_geometry_missing_height_rejected() {
    let output = "  Width: 800\n";
    let e = get_window_geometry(output).unwrap_err();
    assert_eq!(e, QueryError::ParseFailed { output: output.to_string() });
}

#[test]
fn window_geometry_takes_first_match() {
    let output = "  Width: 800\n  Width: 900\n  Height: 600\n";
    assert_eq!(get_window_geometry(output).unwrap(), Size { width: 800, height: 600 });
}

#[test]
fn window_geometry_line_must_end_after_digits() {
    // Trailing text after the digits keeps the line from matching.
    let output = "  Width: 800 px\n  Width: 640\n  Height: 480\n";
    assert_eq!(get_window_geometry(output).unwrap(), Size { width: 640, height: 480 });
}

#[test]
fn window_geometry_value_overflow_rejected() {
    let output = "  Width: 99999999999\n  Height: 10\n";
    let e = get_window_geometry(output).unwrap_err();
    assert_eq!(e, QueryError::ParseFailed { output: output.to_string() });
}
