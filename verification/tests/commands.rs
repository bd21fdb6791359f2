use gwip::commands::WindowCommand;
use gwip::commands::move_window;
use gwip::commands::move_window_in_grid;
use gwip::commands::resize_window;
use gwip::commands::resize_window_to_fill;
use gwip::errors::ConfigurationError;
use gwip::geometry::DecorationInsets;
use gwip::geometry::Point;
use gwip::geometry::Size;

#[test]
fn move_command_carries_its_arguments() {
    let c = move_window(42, 10, -5);
    assert_eq!(c, WindowCommand::Move { id: 42, position: Point { x: 10, y: -5 } });
}

#[test]
fn resize_command_carries_its_arguments() {
    let c = resize_window(42, 800, 600);
    assert_eq!(c, WindowCommand::Resize { id: 42, size: Size { width: 800, height: 600 } });
}

#[test]
fn move_in_grid_yields_centred_move() {
    let display = Size { width: 800, height: 600 };
    let window = Size { width: 100, height: 100 };
    let c = move_window_in_grid(7, 1, 1, 0, 0, &None, &display, &window).unwrap();
    assert_eq!(c, WindowCommand::Move { id: 7, position: Point { x: 350, y: 250 } });
}

#[test]
fn move_in_grid_uses_decorated_size() {
    let display = Size { width: 800, height: 600 };
    let window = Size { width: 100, height: 100 };
    let deco = Some(DecorationInsets { left: 5, right: 5, top: 20, bottom: 5 });
    let c = move_window_in_grid(7, 1, 1, 0, 0, &deco, &display, &window).unwrap();
    assert_eq!(c, WindowCommand::Move { id: 7, position: Point { x: 345, y: 237 } });
}

#[test]
fn non_positive_grid_is_a_configuration_error() {
    let display = Size { width: 800, height: 600 };
    let window = Size { width: 100, height: 100 };
    let e = move_window_in_grid(7, 0, 2, 0, 0, &None, &display, &window).unwrap_err();
    assert_eq!(e, ConfigurationError::NonPositiveGrid { rows: 0, columns: 2 });
    let e = resize_window_to_fill(7, 2, -1, 0, 0, &None, &display).unwrap_err();
    assert_eq!(e, ConfigurationError::NonPositiveGrid { rows: 2, columns: -1 });
}

#[test]
fn out_of_range_cell_is_a_configuration_error() {
    let display = Size { width: 800, height: 600 };
    let window = Size { width: 100, height: 100 };
    let e = move_window_in_grid(7, 2, 2, 2, 0, &None, &display, &window).unwrap_err();
    assert_eq!(e, ConfigurationError::CellOutOfRange { row: 2, column: 0, rows: 2, columns: 2 });
    let e = move_window_in_grid(7, 2, 2, 0, -1, &None, &display, &window).unwrap_err();
    assert_eq!(e, ConfigurationError::CellOutOfRange { row: 0, column: -1, rows: 2, columns: 2 });
}

#[test]
fn fill_yields_resize_command() {
    let display = Size { width: 1920, height: 1080 };
    let c = resize_window_to_fill(7, 2, 2, 0, 0, &None, &display).unwrap();
    assert_eq!(c, WindowCommand::Resize { id: 7, size: Size { width: 960, height: 540 } });
}

#[test]
fn fill_subtracts_gaps_and_decoration() {
    let display = Size { width: 1920, height: 1080 };
    let deco = Some(DecorationInsets { left: 5, right: 5, top: 20, bottom: 5 });
    let c = resize_window_to_fill(7, 2, 2, 10, 20, &deco, &display).unwrap();
    assert_eq!(c, WindowCommand::Resize { id: 7, size: Size { width: 930, height: 475 } });
}
