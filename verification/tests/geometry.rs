use oxytiles::geometry::{
    cell_at, cell_parity, cell_rect, cell_rect_in_range, cell_shade, point_to_cell, CellIndex,
    CellSize, Dimensions, PixelRect, Point, Shade,
};

fn index(column: u32, row: u32) -> CellIndex {
    CellIndex { column, row }
}

#[test]
fn cell_rect_spans_one_cell_from_the_origin() {
    let size = CellSize::new(32, 32);
    let rect = cell_rect(index(3, 2), size, Point { x: 10, y: -5 });
    assert_eq!(rect.min, Point { x: 106, y: 59 });
    assert_eq!(rect.max, Point { x: 138, y: 91 });
}

#[test]
fn cell_rect_uses_width_for_columns_and_height_for_rows() {
    let size = CellSize::new(16, 24);
    let rect = cell_rect(index(2, 5), size, Point { x: 0, y: 0 });
    assert_eq!(
        rect,
        PixelRect {
            min: Point { x: 32, y: 120 },
            max: Point { x: 48, y: 144 }
        }
    );
}

#[test]
fn cell_rect_accepts_the_largest_index() {
    let size = CellSize::new(1, 1);
    let rect = cell_rect(index(u32::MAX, u32::MAX), size, Point { x: -7, y: 7 });
    assert_eq!(rect.min, Point { x: 4294967288, y: 4294967302 });
    assert_eq!(rect.max, Point { x: 4294967289, y: 4294967303 });
}

#[test]
fn neighbouring_cells_share_an_edge() {
    let size = CellSize::new(32, 32);
    let origin = Point { x: 3, y: 4 };
    let left = cell_rect(index(1, 1), size, origin);
    let right = cell_rect(index(2, 1), size, origin);
    let below = cell_rect(index(1, 2), size, origin);
    assert_eq!(left.max.x, right.min.x);
    assert_eq!(left.max.y, below.min.y);
}

#[test]
fn point_to_cell_takes_the_floor() {
    let size = CellSize::new(32, 32);
    assert_eq!(point_to_cell(Point { x: 0, y: 0 }, size), (0, 0));
    assert_eq!(point_to_cell(Point { x: 31, y: 32 }, size), (0, 1));
    assert_eq!(point_to_cell(Point { x: 100, y: 255 }, size), (3, 7));
    assert_eq!(point_to_cell(Point { x: 256, y: 1000 }, size), (8, 31));
}

#[test]
fn point_to_cell_rounds_negative_positions_down() {
    let size = CellSize::new(32, 16);
    assert_eq!(point_to_cell(Point { x: -1, y: -1 }, size), (-1, -1));
    assert_eq!(point_to_cell(Point { x: -32, y: -16 }, size), (-1, -1));
    assert_eq!(point_to_cell(Point { x: -33, y: -17 }, size), (-2, -2));
    assert_eq!(
        point_to_cell(Point { x: i64::MIN, y: i64::MAX }, size),
        (-288230376151711744, 576460752303423487)
    );
}

#[test]
fn center_of_every_cell_maps_back_to_the_cell() {
    let size = CellSize::new(32, 32);
    let origin = Point { x: 0, y: 0 };
    for row in 0..8 {
        for column in 0..8 {
            let rect = cell_rect(index(column, row), size, origin);
            let center = rect.center();
            assert_eq!(
                point_to_cell(center, size),
                (column as i64, row as i64)
            );
        }
    }
}

#[test]
fn center_relative_to_a_shifted_origin_maps_back_to_the_cell() {
    let size = CellSize::new(7, 5);
    let origin = Point { x: 1000, y: -333 };
    for row in 0..6 {
        for column in 0..9 {
            let center = cell_rect(index(column, row), size, origin).center();
            let local = Point {
                x: center.x - origin.x,
                y: center.y - origin.y,
            };
            assert_eq!(point_to_cell(local, size), (column as i64, row as i64));
        }
    }
}

#[test]
fn center_in_absolute_coordinates_misses_when_the_origin_is_a_cell_away() {
    let size = CellSize::new(32, 32);
    let center = cell_rect(index(0, 0), size, Point { x: 32, y: 0 }).center();
    assert_eq!(center, Point { x: 48, y: 16 });
    assert_eq!(point_to_cell(center, size), (1, 0));
}

#[test]
fn center_rounds_towards_min() {
    let rect = PixelRect {
        min: Point { x: 0, y: -3 },
        max: Point { x: 5, y: 0 },
    };
    assert_eq!(rect.center(), Point { x: 2, y: -2 });
    let wide = PixelRect {
        min: Point { x: i64::MIN, y: 0 },
        max: Point { x: i64::MAX, y: 0 },
    };
    assert_eq!(wide.center(), Point { x: -1, y: 0 });
}

#[test]
fn cell_at_checks_the_grid() {
    let size = CellSize::new(32, 32);
    let grid = Dimensions::new(8, 8);
    assert_eq!(cell_at(Point { x: 100, y: 255 }, size, grid), Some(index(3, 7)));
    assert_eq!(cell_at(Point { x: 0, y: 0 }, size, grid), Some(index(0, 0)));
    assert_eq!(cell_at(Point { x: 256, y: 0 }, size, grid), None);
    assert_eq!(cell_at(Point { x: 0, y: 256 }, size, grid), None);
    assert_eq!(cell_at(Point { x: -1, y: 10 }, size, grid), None);
    assert_eq!(cell_at(Point { x: 10, y: -1 }, size, grid), None);
}

#[test]
fn dimensions_contain_their_cells_only() {
    let grid = Dimensions::new(8, 4);
    assert!(grid.contains(index(0, 0)));
    assert!(grid.contains(index(7, 3)));
    assert!(!grid.contains(index(8, 3)));
    assert!(!grid.contains(index(7, 4)));
}

#[test]
fn checkerboard_parity_of_diagonal_and_adjacent_cells() {
    assert_eq!(cell_parity(index(0, 0)), cell_parity(index(1, 1)));
    assert_ne!(cell_parity(index(0, 0)), cell_parity(index(1, 0)));
    assert_eq!(cell_parity(index(0, 0)), 0);
    assert_eq!(cell_parity(index(1, 0)), 1);
    assert_eq!(cell_parity(index(0, 1)), 1);
    assert_eq!(cell_parity(index(2, 5)), 1);
    assert_eq!(cell_parity(index(u32::MAX, u32::MAX)), 0);
    assert_eq!(cell_parity(index(u32::MAX, 0)), 1);
}

#[test]
fn checkerboard_alternates_along_rows_and_columns() {
    for row in 0..5 {
        for column in 0..5 {
            let here = cell_parity(index(column, row));
            assert_ne!(here, cell_parity(index(column + 1, row)));
            assert_ne!(here, cell_parity(index(column, row + 1)));
            assert_eq!(here, cell_parity(index(column + 1, row + 1)));
        }
    }
}

#[test]
fn shades_follow_parity() {
    assert_eq!(cell_shade(index(0, 0)), Shade::Light);
    assert_eq!(cell_shade(index(1, 0)), Shade::Dark);
    assert_eq!(cell_shade(index(1, 1)), Shade::Light);
    assert_eq!(Shade::Light.rgb(), (169, 169, 169));
    assert_eq!(Shade::Dark.rgb(), (84, 84, 84));
}

#[test]
fn center_of_an_inverted_rectangle_still_rounds_towards_min() {
    let rect = PixelRect {
        min: Point { x: 5, y: 0 },
        max: Point { x: 0, y: -4 },
    };
    assert_eq!(rect.center(), Point { x: 2, y: -2 });
    let far = PixelRect {
        min: Point { x: i64::MAX, y: 1 },
        max: Point { x: i64::MIN, y: 0 },
    };
    assert_eq!(far.center(), Point { x: -1, y: 0 });
}

#[test]
fn cell_rect_range_check_tells_when_corners_are_representable() {
    let size = CellSize::new(32, 32);
    assert!(cell_rect_in_range(index(3, 2), size, Point { x: 10, y: -5 }));
    assert!(cell_rect_in_range(
        index(0, 0),
        size,
        Point { x: i64::MAX - 32, y: i64::MIN }
    ));
    assert!(!cell_rect_in_range(
        index(0, 0),
        size,
        Point { x: i64::MAX - 31, y: 0 }
    ));
    assert!(!cell_rect_in_range(
        index(0, 1),
        size,
        Point { x: 0, y: i64::MAX - 63 }
    ));
    let widest = CellSize::new(u32::MAX, u32::MAX);
    assert!(!cell_rect_in_range(
        index(u32::MAX, u32::MAX),
        widest,
        Point { x: 0, y: 0 }
    ));
    assert!(!cell_rect_in_range(index(2147483648, 0), widest, Point { x: 0, y: 0 }));
    assert!(cell_rect_in_range(index(2147483647, 0), widest, Point { x: 0, y: 0 }));
    let rect = cell_rect(index(2147483647, 0), widest, Point { x: 0, y: 0 });
    assert_eq!(rect.min.x, 9223372030412324865);
    assert_eq!(rect.max.x, 9223372034707292160);
}

#[test]
fn every_cell_of_a_grid_lies_within_its_world() {
    let size = CellSize::new(16, 24);
    let grid = Dimensions::new(5, 3);
    let origin = Point { x: -40, y: 9 };
    for row in 0..3 {
        for column in 0..5 {
            let rect = cell_rect(index(column, row), size, origin);
            assert!(origin.x <= rect.min.x && rect.max.x <= origin.x + 5 * 16);
            assert!(origin.y <= rect.min.y && rect.max.y <= origin.y + 3 * 24);
            let inside = Point { x: rect.min.x - origin.x, y: rect.max.y - 1 - origin.y };
            assert_eq!(cell_at(inside, size, grid), Some(index(column, row)));
        }
    }
}
