use gwip::geometry::CellIndex;
use gwip::geometry::DecorationInsets;
use gwip::geometry::GridShape;
use gwip::geometry::Point;
use gwip::geometry::Size;
use gwip::placement::compute_position;

fn grid(rows: i32, columns: i32) -> GridShape {
    GridShape { rows, columns }
}

fn cell(row: i32, column: i32) -> CellIndex {
    CellIndex { row, column }
}

#[test]
fn single_cell_centers_exactly() {
    let display = Size { width: 800, height: 600 };
    let window = Size { width: 100, height: 100 };
    let p = compute_position(&display, &window, &None, &grid(1, 1), &cell(0, 0));
    assert_eq!(p, Point { x: 350, y: 250 });
}

#[test]
fn identical_inputs_identical_outputs() {
    let display = Size { width: 1366, height: 768 };
    let window = Size { width: 500, height: 300 };
    let deco = Some(DecorationInsets { left: 2, right: 2, top: 24, bottom: 2 });
    let first = compute_position(&display, &window, &deco, &grid(3, 2), &cell(1, 1));
    let second = compute_position(&display, &window, &deco, &grid(3, 2), &cell(1, 1));
    assert_eq!(first, second);
}

#[test]
fn decoration_inflates_placement() {
    // Effective size is 110 x 125, so centring uses 110/125, not 100/100.
    let display = Size { width: 800, height: 600 };
    let window = Size { width: 100, height: 100 };
    let deco = Some(DecorationInsets { left: 5, right: 5, top: 20, bottom: 5 });
    let p = compute_position(&display, &window, &deco, &grid(1, 1), &cell(0, 0));
    assert_eq!(p, Point { x: 345, y: 237 });
}

#[test]
fn oversized_window_pinned_to_origin() {
    let display = Size { width: 800, height: 600 };
    let window = Size { width: 1000, height: 600 };
    for column in 0..2 {
        let p = compute_position(&display, &window, &None, &grid(1, 2), &cell(0, column));
        assert_eq!(p.x, 0);
    }
}

#[test]
fn grid_cell_placement_exact() {
    // Cells are 640 x 540; the window centres within cell (0, 1).
    let display = Size { width: 1920, height: 1080 };
    let window = Size { width: 600, height: 400 };
    let p = compute_position(&display, &window, &None, &grid(2, 3), &cell(0, 1));
    assert_eq!(p, Point { x: 660, y: 70 });
    let q = compute_position(&display, &window, &None, &grid(2, 3), &cell(1, 2));
    assert_eq!(q, Point { x: 1300, y: 610 });
}

#[test]
fn stays_within_display() {
    let display = Size { width: 1920, height: 1080 };
    let window = Size { width: 400, height: 300 };
    for row in 0..3 {
        for column in 0..2 {
            let p = compute_position(&display, &window, &None, &grid(3, 2), &cell(row, column));
            assert!(0 <= p.x && p.x <= display.width - window.width);
            assert!(0 <= p.y && p.y <= display.height - window.height);
        }
    }
}

#[test]
fn odd_remainder_biases_toward_origin() {
    let display = Size { width: 101, height: 101 };
    let window = Size { width: 96, height: 96 };
    let p = compute_position(&display, &window, &None, &grid(1, 1), &cell(0, 0));
    assert_eq!(p, Point { x: 2, y: 2 });
}

#[test]
fn window_larger_than_cell_clamps_to_edge() {
    // Cell width is 400, the window is 500 wide: in the last column the
    // unclamped x would push past the right edge and is clamped back.
    let display = Size { width: 800, height: 600 };
    let window = Size { width: 500, height: 200 };
    let p = compute_position(&display, &window, &None, &grid(1, 2), &cell(0, 1));
    assert_eq!(p.x, 800 - 500);
}
