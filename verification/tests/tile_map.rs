use oxytiles::geometry::{CellIndex, Dimensions};
use oxytiles::ratio::Ratio;
use oxytiles::tile_map::{PaintError, TileMap};
use oxytiles::uv::UvRect;

fn at(column: u32, row: u32) -> CellIndex {
    CellIndex { column, row }
}

fn quarter() -> UvRect {
    UvRect {
        min_u: Ratio::new(0, 1),
        min_v: Ratio::new(0, 1),
        max_u: Ratio::new(1, 4),
        max_v: Ratio::new(1, 4),
    }
}

fn lower_half() -> UvRect {
    UvRect {
        min_u: Ratio::new(0, 1),
        min_v: Ratio::new(1, 2),
        max_u: Ratio::new(1, 1),
        max_v: Ratio::new(1, 1),
    }
}

#[test]
fn paint_scenario_on_an_eight_by_eight_grid() {
    let grid = Dimensions::new(8, 8);
    let mut map = TileMap::new(grid);
    map.pick_region(quarter());
    assert_eq!(map.paint_cell(at(3, 3), grid), Ok(()));
    assert_eq!(map.tile_at(at(3, 3)), Some(quarter()));
    assert_eq!(map.tile_at(at(4, 4)), None);
    let shown = map.tile_at(at(3, 3)).unwrap();
    assert_eq!(shown.min_u.num as f32 / shown.min_u.den as f32, 0.0);
    assert_eq!(shown.min_v.num as f32 / shown.min_v.den as f32, 0.0);
    assert_eq!(shown.max_u.num as f32 / shown.max_u.den as f32, 0.25);
    assert_eq!(shown.max_v.num as f32 / shown.max_v.den as f32, 0.25);
}

#[test]
fn new_map_is_empty_and_unarmed() {
    let grid = Dimensions::new(8, 8);
    let map = TileMap::new(grid);
    assert_eq!(map.size(), grid);
    assert_eq!(map.selection(), None);
    for row in 0..8 {
        for column in 0..8 {
            assert_eq!(map.tile_at(at(column, row)), None);
        }
    }
}

#[test]
fn paint_before_any_pick_fails_with_no_selection() {
    let grid = Dimensions::new(8, 8);
    let mut map = TileMap::new(grid);
    assert_eq!(map.paint_cell(at(0, 0), grid), Err(PaintError::NoSelection));
    assert_eq!(map.paint_cell(at(7, 7), grid), Err(PaintError::NoSelection));
    assert_eq!(map.paint_cell(at(8, 8), grid), Err(PaintError::NoSelection));
    assert_eq!(map.tile_at(at(0, 0)), None);
    assert_eq!(map.tile_at(at(7, 7)), None);
    assert_eq!(map.selection(), None);
}

#[test]
fn paint_outside_the_grid_fails_with_out_of_bounds() {
    let grid = Dimensions::new(8, 8);
    let mut map = TileMap::new(grid);
    map.pick_region(quarter());
    assert_eq!(map.paint_cell(at(1, 1), grid), Ok(()));
    assert_eq!(map.paint_cell(at(8, 0), grid), Err(PaintError::OutOfBounds));
    assert_eq!(map.paint_cell(at(0, 8), grid), Err(PaintError::OutOfBounds));
    assert_eq!(
        map.paint_cell(at(u32::MAX, u32::MAX), grid),
        Err(PaintError::OutOfBounds)
    );
    assert_eq!(map.tile_at(at(8, 0)), None);
    assert_eq!(map.tile_at(at(0, 8)), None);
    assert_eq!(map.tile_at(at(u32::MAX, u32::MAX)), None);
    assert_eq!(map.tile_at(at(1, 1)), Some(quarter()));
    assert_eq!(map.selection(), Some(quarter()));
}

#[test]
fn selection_is_sticky_across_paints() {
    let grid = Dimensions::new(8, 8);
    let mut map = TileMap::new(grid);
    map.pick_region(quarter());
    assert_eq!(map.paint_cell(at(2, 5), grid), Ok(()));
    assert_eq!(map.tile_at(at(2, 5)), Some(quarter()));
    assert_eq!(map.paint_cell(at(6, 1), grid), Ok(()));
    assert_eq!(map.tile_at(at(6, 1)), Some(quarter()));
    assert_eq!(map.tile_at(at(2, 5)), Some(quarter()));
    assert_eq!(map.selection(), Some(quarter()));
}

#[test]
fn a_new_pick_replaces_the_selection_and_paint_overwrites() {
    let grid = Dimensions::new(8, 8);
    let mut map = TileMap::new(grid);
    map.pick_region(quarter());
    assert_eq!(map.paint_cell(at(3, 3), grid), Ok(()));
    assert_eq!(map.paint_cell(at(4, 3), grid), Ok(()));
    map.pick_region(lower_half());
    assert_eq!(map.selection(), Some(lower_half()));
    assert_eq!(map.tile_at(at(3, 3)), Some(quarter()));
    assert_eq!(map.paint_cell(at(3, 3), grid), Ok(()));
    assert_eq!(map.tile_at(at(3, 3)), Some(lower_half()));
    assert_eq!(map.tile_at(at(4, 3)), Some(quarter()));
}

#[test]
fn cells_that_swap_column_and_row_are_kept_apart() {
    let grid = Dimensions::new(8, 8);
    let mut map = TileMap::new(grid);
    map.pick_region(quarter());
    assert_eq!(map.paint_cell(at(1, 2), grid), Ok(()));
    assert_eq!(map.tile_at(at(1, 2)), Some(quarter()));
    assert_eq!(map.tile_at(at(2, 1)), None);
    assert_eq!(map.tile_at(at(0, 0)), None);
}

#[test]
fn paint_checks_the_dimensions_it_is_given() {
    let mut map = TileMap::new(Dimensions::new(8, 8));
    map.pick_region(quarter());
    let narrow = Dimensions::new(2, 8);
    assert_eq!(map.paint_cell(at(2, 0), narrow), Err(PaintError::OutOfBounds));
    assert_eq!(map.paint_cell(at(1, 7), narrow), Ok(()));
    assert_eq!(map.tile_at(at(1, 7)), Some(quarter()));
    assert_eq!(map.tile_at(at(2, 0)), None);
}

#[test]
fn the_largest_cell_of_the_largest_grid_can_be_painted() {
    let grid = Dimensions::new(u32::MAX, u32::MAX);
    let mut map = TileMap::new(grid);
    map.pick_region(lower_half());
    let last = at(u32::MAX - 1, u32::MAX - 1);
    assert_eq!(map.paint_cell(last, grid), Ok(()));
    assert_eq!(map.tile_at(last), Some(lower_half()));
    assert_eq!(map.tile_at(at(u32::MAX - 1, u32::MAX - 2)), None);
    assert_eq!(map.paint_cell(at(u32::MAX, 0), grid), Err(PaintError::OutOfBounds));
}
