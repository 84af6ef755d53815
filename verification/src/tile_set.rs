//! The tile sheet: the source image that tiles are cropped from.
//!
//! The library keeps what the geometry needs of a sheet, its pixel size;
//! the decoded pixels stay with whoever draws them.

use vstd::prelude::*;
use crate::geometry::{
    cell_containing,
    cell_rect,
    cell_region,
    lemma_point_in_cell_maps_to_cell,
    point_to_cell,
    CellIndex,
    CellSize,
    Dimensions,
    PixelRect,
    Point,
    Region,
};
use crate::uv::{pixel_region_to_uv, uv_region, SheetSize, UvRect};

verus! {

/// Side of one square tile on a sheet, in pixels.
pub const SHEET_TILE_SIDE: u32 = 16;

/// Whether a sheet has been loaded, and its size if so.
#[derive(Clone, Copy, Debug, PartialEq, Eq, Structural)]
pub enum TileSheet {
    Unloaded,
    Loaded { size: SheetSize },
}

/// The tile sheet of a canvas.
#[derive(Clone, Copy, Debug, PartialEq, Eq, Structural)]
pub struct TileSet {
    /// The extent the tile set was made for, in tiles.
    pub size: Dimensions,
    /// The sheet, once one is loaded.
    pub sheet: TileSheet,
}

/// The size of one tile on a sheet.
pub open spec fn sheet_tile_size() -> CellSize {
    CellSize { width: SHEET_TILE_SIDE, height: SHEET_TILE_SIDE }
}

/// The pixels of tile `tile` on a sheet whose tiles are laid out from its
/// top left corner.
pub open spec fn sheet_tile_region(tile: CellIndex) -> Region {
    cell_region(tile, sheet_tile_size(), Point { x: 0, y: 0 })
}

/// The tile under a position given relative to the sheet's top left
/// corner, if the position is not left of or above the sheet and the tile
/// has an index.
pub open spec fn sheet_tile_under(local: Point) -> Option<CellIndex> {
    let (column, row) = cell_containing(local.x as int, local.y as int, sheet_tile_size());
    if 0 <= column <= u32::MAX && 0 <= row <= u32::MAX {
        Some(CellIndex { column: column as u32, row: row as u32 })
    } else {
        None
    }
}

impl TileSheet {
    /// A loaded sheet has a positive width and height.
    pub open spec fn wf(&self) -> bool {
        match self {
            TileSheet::Unloaded => true,
            TileSheet::Loaded { size } => size.wf(),
        }
    }
}

impl TileSet {
    /// The sheet, if loaded, has a positive width and height.
    pub open spec fn wf(&self) -> bool {
        self.sheet.wf()
    }

    /// A tile set of `size` with no sheet loaded.
    pub fn new(size: Dimensions) -> (tile_set: TileSet)
        ensures
            tile_set.size == size,
            tile_set.sheet == TileSheet::Unloaded,
            tile_set.wf(),
    {
        TileSet { size, sheet: TileSheet::Unloaded }
    }

    /// Takes a decoded sheet of `width` by `height` pixels, replacing any
    /// sheet loaded before. An image without pixels is no sheet: it is
    /// refused and the tile set stays as it was.
    pub fn load(&mut self, width: u32, height: u32) -> (loaded: bool)
        ensures
            loaded == (width > 0 && height > 0),
            loaded ==> *final(self) == (TileSet {
                size: old(self).size,
                sheet: TileSheet::Loaded { size: SheetSize { width, height } },
            }),
            !loaded ==> *final(self) == *old(self),
            old(self).wf() ==> final(self).wf(),
    {
        if width > 0 && height > 0 {
            self.sheet = TileSheet::Loaded { size: SheetSize { width, height } };
            true
        } else {
            false
        }
    }

    /// Whether a sheet is loaded.
    pub fn is_loaded(&self) -> (loaded: bool)
        ensures
            loaded == (self.sheet is Loaded),
    {
        match self.sheet {
            TileSheet::Unloaded => false,
            TileSheet::Loaded { .. } => true,
        }
    }

    /// The pixel size of the loaded sheet.
    pub fn sheet_size(&self) -> (size: Option<SheetSize>)
        ensures
            size == (match self.sheet {
                TileSheet::Unloaded => None::<SheetSize>,
                TileSheet::Loaded { size } => Some(size),
            }),
    {
        match self.sheet {
            TileSheet::Unloaded => None,
            TileSheet::Loaded { size } => Some(size),
        }
    }

    /// The texture coordinates of tile `tile` on the loaded sheet, or
    /// `None` while no sheet is loaded.
    pub fn tile_uv(&self, tile: CellIndex) -> (uv: Option<UvRect>)
        requires
            self.wf(),
        ensures
            match (uv, self.sheet) {
                (None, TileSheet::Unloaded) => true,
                (Some(rect), TileSheet::Loaded { size }) => rect.wf() && rect@ == uv_region(
                    sheet_tile_region(tile),
                    size.width as int,
                    size.height as int,
                ),
                _ => false,
            },
    {
        match self.sheet {
            TileSheet::Unloaded => None,
            TileSheet::Loaded { size } => Some(pixel_region_to_uv(tile_rect(tile), size)),
        }
    }
}

/// The pixels of tile `tile` on a sheet.
pub fn tile_rect(tile: CellIndex) -> (rect: PixelRect)
    ensures
        rect@ == sheet_tile_region(tile),
        rect.wf(),
{
    proof {
        let side = SHEET_TILE_SIDE as int;
        let column = tile.column as int;
        let row = tile.row as int;
        assert(column * side <= (column + 1) * side <= i64::MAX) by (nonlinear_arith)
            requires
                side == 16,
                0 <= column <= 0xFFFF_FFFF,
        ;
        assert(row * side <= (row + 1) * side <= i64::MAX) by (nonlinear_arith)
            requires
                side == 16,
                0 <= row <= 0xFFFF_FFFF,
        ;
    }
    cell_rect(
        tile,
        CellSize { width: SHEET_TILE_SIDE, height: SHEET_TILE_SIDE },
        Point { x: 0, y: 0 },
    )
}

/// The tile under a position given relative to the sheet's top left corner.
pub fn tile_under(local: Point) -> (tile: Option<CellIndex>)
    ensures
        tile == sheet_tile_under(local),
{
    let (column, row) = point_to_cell(
        local,
        CellSize { width: SHEET_TILE_SIDE, height: SHEET_TILE_SIDE },
    );
    if 0 <= column && column <= u32::MAX as i64 && 0 <= row && row <= u32::MAX as i64 {
        Some(CellIndex { column: column as u32, row: row as u32 })
    } else {
        None
    }
}

/// A position inside a tile's rectangle lies under that tile.
pub proof fn lemma_tile_under_its_rect(tile: CellIndex, local: Point)
    requires
        sheet_tile_region(tile).contains(local.x as int, local.y as int),
    ensures
        sheet_tile_under(local) == Some(tile),
{
    lemma_point_in_cell_maps_to_cell(
        tile,
        sheet_tile_size(),
        Point { x: 0, y: 0 },
        local.x as int,
        local.y as int,
    );
}

} // verus!
