use gwip::decoration::get_window_decoration;
use gwip::decoration::has_window_decoration_from_xprop;
use gwip::decoration::parse_window_decoration_from_xprop;
use gwip::geometry::DecorationInsets;

fn insets() -> DecorationInsets {
    DecorationInsets { left: 4, right: 4, top: 28, bottom: 4 }
}

#[test]
fn motif_zero_means_undecorated() {
    let output = "_MOTIF_WM_HINTS(CARDINAL) = 2, 0, 0, 0, 0\n";
    assert!(!has_window_decoration_from_xprop(output));
}

#[test]
fn motif_nonzero_means_decorated() {
    let output = "_MOTIF_WM_HINTS(CARDINAL) = 2, 0, 1, 0, 0\n";
    assert!(has_window_decoration_from_xprop(output));
}

#[test]
fn missing_motif_property_means_decorated() {
    let output = "WM_NAME(STRING) = \"term\"\n";
    assert!(has_window_decoration_from_xprop(output));
}

#[test]
fn motif_third_field_decides() {
    // The third number is the decorations field; the others do not
    // matter.
    let output = "_MOTIF_WM_HINTS(CARDINAL) = 0, 0, 7, 0, 0\n";
    assert!(has_window_decoration_from_xprop(output));
    let output = "_MOTIF_WM_HINTS(CARDINAL) = 7, 7, 0, 7, 7\n";
    assert!(!has_window_decoration_from_xprop(output));
}

#[test]
fn motif_with_fewer_numbers_does_not_match() {
    let output = "_MOTIF_WM_HINTS(CARDINAL) = 2, 0, 0\n";
    assert!(has_window_decoration_from_xprop(output));
}

#[test]
fn frame_extents_parse() {
    let output = "_NET_FRAME_EXTENTS(CARDINAL) = 4, 4, 28, 4\n";
    assert_eq!(parse_window_decoration_from_xprop(output).unwrap(), Some(insets()));
}

#[test]
fn missing_frame_extents_gives_none() {
    let output = "WM_NAME(STRING) = \"term\"\n";
    assert_eq!(parse_window_decoration_from_xprop(output).unwrap(), None);
}

#[test]
fn first_frame_extents_line_wins() {
    let output = "_NET_FRAME_EXTENTS(CARDINAL) = 4, 4, 28, 4\n_NET_FRAME_EXTENTS(CARDINAL) = 1, 1, 1, 1\n";
    assert_eq!(parse_window_decoration_from_xprop(output).unwrap(), Some(insets()));
}

#[test]
fn frame_extents_found_mid_line() {
    let output = "prefix _NET_FRAME_EXTENTS(CARDINAL) = 1, 2, 3, 4 suffix\n";
    assert_eq!(
        parse_window_decoration_from_xprop(output).unwrap(),
        Some(DecorationInsets { left: 1, right: 2, top: 3, bottom: 4 })
    );
}

#[test]
fn undecorated_window_reports_no_insets() {
    let output = "_MOTIF_WM_HINTS(CARDINAL) = 2, 0, 0, 0, 0\n_NET_FRAME_EXTENTS(CARDINAL) = 4, 4, 28, 4\n";
    assert_eq!(get_window_decoration(output).unwrap(), None);
}

#[test]
fn decorated_window_reports_frame_extents() {
    let output = "_MOTIF_WM_HINTS(CARDINAL) = 2, 0, 1, 0, 0\n_NET_FRAME_EXTENTS(CARDINAL) = 4, 4, 28, 4\n";
    assert_eq!(get_window_decoration(output).unwrap(), Some(insets()));
}

#[test]
fn decorated_window_without_extents_reports_none() {
    let output = "_MOTIF_WM_HINTS(CARDINAL) = 2, 0, 1, 0, 0\n";
    assert_eq!(get_window_decoration(output).unwrap(), None);
}

#[test]
fn frame_extents_value_overflow_rejected() {
    let output = "_NET_FRAME_EXTENTS(CARDINAL) = 99999999999, 1, 1, 1\n";
    assert!(parse_window_decoration_from_xprop(output).is_err());
}
