use gwip::fill::compute_fill_size;
use gwip::geometry::DecorationInsets;
use gwip::geometry::GridShape;
use gwip::geometry::Size;

#[test]
fn quarter_fill_without_gaps() {
    let display = Size { width: 1920, height: 1080 };
    let grid = GridShape { rows: 2, columns: 2 };
    let gaps = Size { width: 0, height: 0 };
    let size = compute_fill_size(&display, &grid, &gaps, &None);
    assert_eq!(size, Size { width: 960, height: 540 });
}

#[test]
fn gaps_come_off_both_edges() {
    let display = Size { width: 1920, height: 1080 };
    let grid = GridShape { rows: 2, columns: 2 };
    let gaps = Size { width: 10, height: 20 };
    let size = compute_fill_size(&display, &grid, &gaps, &None);
    assert_eq!(size, Size { width: 940, height: 500 });
}

#[test]
fn decoration_comes_off_after_gaps() {
    let display = Size { width: 1920, height: 1080 };
    let grid = GridShape { rows: 2, columns: 2 };
    let gaps = Size { width: 10, height: 20 };
    let deco = Some(DecorationInsets { left: 5, right: 5, top: 20, bottom: 5 });
    let size = compute_fill_size(&display, &grid, &gaps, &deco);
    assert_eq!(size, Size { width: 930, height: 475 });
}

#[test]
fn negative_fill_passes_through() {
    let display = Size { width: 100, height: 100 };
    let grid = GridShape { rows: 1, columns: 1 };
    let gaps = Size { width: 60, height: 70 };
    let size = compute_fill_size(&display, &grid, &gaps, &None);
    assert_eq!(size, Size { width: -20, height: -40 });
}

#[test]
fn uneven_division_truncates() {
    let display = Size { width: 1001, height: 701 };
    let grid = GridShape { rows: 2, columns: 3 };
    let gaps = Size { width: 0, height: 0 };
    let size = compute_fill_size(&display, &grid, &gaps, &None);
    assert_eq!(size, Size { width: 333, height: 350 });
}
