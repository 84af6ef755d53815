//! The canvas: a grid of cells of one size, the tiles painted on it, and
//! the sheet the tiles come from.

use vstd::prelude::*;
use vstd::arithmetic::div_mod::lemma_fundamental_div_mod_converse;
use crate::geometry::{
    cell_rect,
    cell_region,
    cell_shade,
    shade_of,
    CellIndex,
    CellSize,
    Dimensions,
    PixelRect,
    Point,
    Shade,
    Size,
};
use crate::tile_map::{PaintError, TileMap, TileMapState};
use crate::tile_set::{sheet_tile_region, tile_rect, TileSet, TileSheet};
use crate::uv::{uv_region, UvRect};

verus! {

/// A grid canvas with its tile map and tile sheet.
pub struct Canvas {
    pub tile_size: CellSize,
    pub tile_map: TileMap,
    pub tile_set: TileSet,
    /// Where on the sheet the tile selected last begins.
    pub selected_rect: Point,
}

/// What to draw for one cell.
#[derive(Clone, Copy, Debug, PartialEq, Eq, Structural)]
pub struct CellView {
    /// Which cell.
    pub index: CellIndex,
    /// Where it lies.
    pub rect: PixelRect,
    /// Its background.
    pub shade: Shade,
    /// The texture region it shows, if it was painted.
    pub tile: Option<UvRect>,
}

/// The cell at position `k` when the cells of a grid with `columns` columns
/// are listed row by row.
pub open spec fn row_major(k: int, columns: int) -> CellIndex {
    CellIndex { column: (k % columns) as u32, row: (k / columns) as u32 }
}

impl Canvas {
    /// The extent of the grid.
    pub open spec fn dimensions(&self) -> Dimensions {
        self.tile_map@.size
    }

    /// Cells and grid have positive sizes, every painted cell is a cell of
    /// the grid, and a loaded sheet has pixels.
    pub open spec fn wf(&self) -> bool {
        &&& self.tile_size.wf()
        &&& self.dimensions().wf()
        &&& self.tile_map.wf()
        &&& self.tile_set.wf()
    }

    /// Whether the cells of the grid can be listed from `origin`: the far
    /// corner of the grid is a representable position and the number of
    /// cells a representable length.
    pub open spec fn listable_from(&self, origin: Point) -> bool {
        &&& origin.x + self.dimensions().columns * self.tile_size.width <= i64::MAX
        &&& origin.y + self.dimensions().rows * self.tile_size.height <= i64::MAX
        &&& self.dimensions().columns * self.dimensions().rows <= usize::MAX
    }

    /// Whether `view` is what the canvas shows for cell `view.index` when
    /// the grid is laid out from `origin`.
    pub open spec fn shows(&self, view: CellView, origin: Point) -> bool {
        &&& view.rect@ == cell_region(view.index, self.tile_size, origin)
        &&& view.shade == shade_of(view.index)
        &&& view.tile == self.tile_map@.tile_at(view.index)
    }

    /// A canvas of `dimensions` cells of `tile_size` pixels, with nothing
    /// painted, nothing selected and no sheet loaded.
    pub fn new(tile_size: CellSize, dimensions: Dimensions, tile_set_size: Dimensions) -> (canvas:
        Canvas)
        requires
            tile_size.wf(),
            dimensions.wf(),
        ensures
            canvas.wf(),
            canvas.tile_size == tile_size,
            canvas.tile_map@ == TileMapState::empty(dimensions),
            canvas.tile_set == (TileSet { size: tile_set_size, sheet: TileSheet::Unloaded }),
            canvas.selected_rect == (Point { x: 0, y: 0 }),
    {
        Canvas {
            tile_size,
            tile_map: TileMap::new(dimensions),
            tile_set: TileSet::new(tile_set_size),
            selected_rect: Point { x: 0, y: 0 },
        }
    }

    /// The size of a cell at a whole zoom factor: the cell size times
    /// `zoom`.
    pub fn get_tile_size(&self, zoom: u32) -> (scaled: CellSize)
        requires
            zoom > 0,
            self.tile_size.width * zoom <= u32::MAX,
            self.tile_size.height * zoom <= u32::MAX,
        ensures
            scaled.width == self.tile_size.width * zoom,
            scaled.height == self.tile_size.height * zoom,
            self.tile_size.wf() ==> scaled.wf(),
    {
        proof {
            let w = self.tile_size.width as int;
            let h = self.tile_size.height as int;
            let z = zoom as int;
            assert(w > 0 ==> w * z > 0) by (nonlinear_arith)
                requires
                    z > 0,
            ;
            assert(h > 0 ==> h * z > 0) by (nonlinear_arith)
                requires
                    z > 0,
            ;
        }
        CellSize { width: self.tile_size.width * zoom, height: self.tile_size.height * zoom }
    }

    /// The pixel extent of the whole grid: columns times cell width, rows
    /// times cell height.
    pub fn get_world_size(&self) -> (world: Size)
        ensures
            world.width == self.dimensions().columns * self.tile_size.width,
            world.height == self.dimensions().rows * self.tile_size.height,
    {
        let dimensions = self.tile_map.size();
        let columns: u64 = dimensions.columns as u64;
        let rows: u64 = dimensions.rows as u64;
        let width: u64 = self.tile_size.width as u64;
        let height: u64 = self.tile_size.height as u64;
        assert(columns * width <= 0xFFFF_FFFF * 0xFFFF_FFFF) by (nonlinear_arith)
            requires
                columns <= 0xFFFF_FFFF,
                width <= 0xFFFF_FFFF,
        ;
        assert(rows * height <= 0xFFFF_FFFF * 0xFFFF_FFFF) by (nonlinear_arith)
            requires
                rows <= 0xFFFF_FFFF,
                height <= 0xFFFF_FFFF,
        ;
        Size { width: columns * width, height: rows * height }
    }

    /// Paints cell `index` of the grid with the armed selection.
    ///
    /// Fails, and changes nothing, without a selection or for an index that
    /// is not a cell of the grid.
    pub fn paint(&mut self, index: CellIndex) -> (result: Result<(), PaintError>)
        ensures
            final(self).tile_size == old(self).tile_size,
            final(self).tile_set == old(self).tile_set,
            final(self).selected_rect == old(self).selected_rect,
            final(self).tile_map@ == old(self).tile_map@.paint_cell(
                index,
                old(self).dimensions(),
            ).0,
            result == old(self).tile_map@.paint_cell(index, old(self).dimensions()).1,
            old(self).wf() ==> final(self).wf(),
    {
        let dimensions = self.tile_map.size();
        self.tile_map.paint_cell(index, dimensions)
    }

    /// Arms tile `tile` of the sheet as the selection and notes where on
    /// the sheet it begins. Without a sheet nothing can be selected: the
    /// canvas stays as it was and `false` is returned.
    pub fn select_tile(&mut self, tile: CellIndex) -> (selected: bool)
        requires
            old(self).tile_set.wf(),
        ensures
            final(self).tile_size == old(self).tile_size,
            final(self).tile_set == old(self).tile_set,
            match old(self).tile_set.sheet {
                TileSheet::Unloaded => {
                    &&& !selected
                    &&& final(self).tile_map@ == old(self).tile_map@
                    &&& final(self).selected_rect == old(self).selected_rect
                },
                TileSheet::Loaded { size } => {
                    &&& selected
                    &&& final(self).selected_rect.x == sheet_tile_region(tile).min_x
                    &&& final(self).selected_rect.y == sheet_tile_region(tile).min_y
                    &&& final(self).tile_map@.selected matches Some(uv)
                    &&& uv.wf()
                    &&& uv@ == uv_region(
                        sheet_tile_region(tile),
                        size.width as int,
                        size.height as int,
                    )
                    &&& final(self).tile_map@ == old(self).tile_map@.pick_region(uv)
                },
            },
            old(self).wf() ==> final(self).wf(),
    {
        match self.tile_set.tile_uv(tile) {
            None => false,
            Some(uv) => {
                self.selected_rect = tile_rect(tile).min;
                self.tile_map.pick_region(uv);
                true
            },
        }
    }

    /// Whether [`Canvas::cells`] can list the cells from `origin`.
    pub fn can_list_from(&self, origin: Point) -> (fits: bool)
        ensures
            fits == self.listable_from(origin),
    {
        let dimensions = self.tile_map.size();
        let columns: i128 = dimensions.columns as i128;
        let rows: i128 = dimensions.rows as i128;
        let width: i128 = self.tile_size.width as i128;
        let height: i128 = self.tile_size.height as i128;
        assert(0 <= columns * width <= 0xFFFF_FFFF * 0xFFFF_FFFF) by (nonlinear_arith)
            requires
                0 <= columns <= 0xFFFF_FFFF,
                0 <= width <= 0xFFFF_FFFF,
        ;
        assert(0 <= rows * height <= 0xFFFF_FFFF * 0xFFFF_FFFF) by (nonlinear_arith)
            requires
                0 <= rows <= 0xFFFF_FFFF,
                0 <= height <= 0xFFFF_FFFF,
        ;
        assert(0 <= columns * rows <= 0xFFFF_FFFF * 0xFFFF_FFFF) by (nonlinear_arith)
            requires
                0 <= columns <= 0xFFFF_FFFF,
                0 <= rows <= 0xFFFF_FFFF,
        ;
        origin.x as i128 + columns * width <= i64::MAX as i128 && origin.y as i128 + rows * height
            <= i64::MAX as i128 && columns * rows <= usize::MAX as i128
    }

    /// What to draw, cell by cell, when the grid is laid out from
    /// `origin`: the cells of the grid row by row, each with its rectangle,
    /// its background shade and the tile it shows.
    pub fn cells(&self, origin: Point) -> (cells: Vec<CellView>)
        requires
            self.listable_from(origin),
        ensures
            cells@.len() == self.dimensions().columns * self.dimensions().rows,
            forall|k: int|
                0 <= k < cells@.len() ==> (#[trigger] cells@[k]).index == row_major(
                    k,
                    self.dimensions().columns as int,
                ) && self.shows(cells@[k], origin),
    {
        let dimensions = self.tile_map.size();
        let ghost columns = dimensions.columns as int;
        let ghost rows = dimensions.rows as int;
        let ghost width = self.tile_size.width as int;
        let ghost height = self.tile_size.height as int;
        let mut cells: Vec<CellView> = Vec::new();
        let mut row: u32 = 0;
        assert(0 * columns == 0) by (nonlinear_arith);
        while row < dimensions.rows
            invariant
                dimensions == self.dimensions(),
                columns == dimensions.columns,
                rows == dimensions.rows,
                width == self.tile_size.width,
                height == self.tile_size.height,
                origin.x + columns * width <= i64::MAX,
                origin.y + rows * height <= i64::MAX,
                row <= dimensions.rows,
                cells@.len() == row * columns,
                forall|k: int|
                    0 <= k < cells@.len() ==> (#[trigger] cells@[k]).index == row_major(k, columns)
                        && self.shows(cells@[k], origin),
            decreases dimensions.rows - row,
        {
            let mut column: u32 = 0;
            while column < dimensions.columns
                invariant
                    dimensions == self.dimensions(),
                    columns == dimensions.columns,
                    rows == dimensions.rows,
                    width == self.tile_size.width,
                    height == self.tile_size.height,
                    origin.x + columns * width <= i64::MAX,
                    origin.y + rows * height <= i64::MAX,
                    row < dimensions.rows,
                    column <= dimensions.columns,
                    cells@.len() == row * columns + column,
                    forall|k: int|
                        0 <= k < cells@.len() ==> (#[trigger] cells@[k]).index == row_major(
                            k,
                            columns,
                        ) && self.shows(cells@[k], origin),
                decreases dimensions.columns - column,
            {
                let index = CellIndex { column, row };
                proof {
                    let c = column as int;
                    let r = row as int;
                    assert((c + 1) * width <= columns * width) by (nonlinear_arith)
                        requires
                            c + 1 <= columns,
                            width >= 0,
                    ;
                    assert((r + 1) * height <= rows * height) by (nonlinear_arith)
                        requires
                            r + 1 <= rows,
                            height >= 0,
                    ;
                    lemma_fundamental_div_mod_converse(r * columns + c, columns, r, c);
                }
                let view = CellView {
                    index,
                    rect: cell_rect(index, self.tile_size, origin),
                    shade: cell_shade(index),
                    tile: self.tile_map.tile_at(index),
                };
                cells.push(view);
                column = column + 1;
            }
            proof {
                let r = row as int;
                assert(r * columns + columns == (r + 1) * columns) by (nonlinear_arith);
            }
            row = row + 1;
        }
        assert(rows * columns == columns * rows) by (nonlinear_arith);
        cells
    }
}

impl Default for Canvas {
    /// An 8 by 8 grid of 32 pixel cells, with a 4 by 4 tile set.
    fn default() -> (canvas: Canvas)
        ensures
            canvas.wf(),
            canvas.tile_size == (CellSize { width: 32, height: 32 }),
            canvas.tile_map@ == TileMapState::empty(Dimensions { columns: 8, rows: 8 }),
            canvas.tile_set == (TileSet {
                size: Dimensions { columns: 4, rows: 4 },
                sheet: TileSheet::Unloaded,
            }),
            canvas.selected_rect == (Point { x: 0, y: 0 }),
    {
        Canvas::new(CellSize::new(32, 32), Dimensions::new(8, 8), Dimensions::new(4, 4))
    }
}

} // verus!
