//! Tile map state: which texture region each painted cell shows, and the
//! armed selection that the next paint stamps.

use std::collections::HashMap;
use vstd::prelude::*;
use crate::geometry::{CellIndex, Dimensions};
use crate::uv::UvRect;

verus! {

/// Why a paint was refused.
#[derive(Clone, Copy, Debug, PartialEq, Eq, Structural)]
pub enum PaintError {
    /// No region has been picked yet.
    NoSelection,
    /// The cell is not part of the grid.
    OutOfBounds,
}

/// The mathematical value of a [`TileMap`].
pub struct TileMapState {
    /// The extent the map was made for.
    pub size: Dimensions,
    /// The armed selection.
    pub selected: Option<UvRect>,
    /// The painted cells.
    pub tiles: Map<CellIndex, UvRect>,
}

impl TileMapState {
    /// The state of a map on which nothing has been picked or painted.
    pub open spec fn empty(size: Dimensions) -> TileMapState {
        TileMapState { size, selected: None, tiles: Map::empty() }
    }

    /// The state after arming `uv`.
    pub open spec fn pick_region(self, uv: UvRect) -> TileMapState {
        TileMapState { selected: Some(uv), ..self }
    }

    /// The state after an attempt to paint `index` on a grid of
    /// `dimensions`, and how the attempt ends: without a selection nothing
    /// is painted; with one, a cell of the grid takes the selection and any
    /// other index is refused.
    pub open spec fn paint_cell(self, index: CellIndex, dimensions: Dimensions) -> (
        TileMapState,
        Result<(), PaintError>,
    ) {
        match self.selected {
            None => (self, Err(PaintError::NoSelection)),
            Some(uv) => if dimensions.holds(index) {
                (TileMapState { tiles: self.tiles.insert(index, uv), ..self }, Ok(()))
            } else {
                (self, Err(PaintError::OutOfBounds))
            },
        }
    }

    /// What cell `index` shows.
    pub open spec fn tile_at(self, index: CellIndex) -> Option<UvRect> {
        if self.tiles.contains_key(index) {
            Some(self.tiles[index])
        } else {
            None
        }
    }

    /// Every painted cell is a cell of a grid of `dimensions`.
    pub open spec fn within(self, dimensions: Dimensions) -> bool {
        forall|index: CellIndex| #[trigger]
            self.tiles.contains_key(index) ==> dimensions.holds(index)
    }
}

/// The number under which a cell is stored: column and row side by side.
pub open spec fn cell_key(index: CellIndex) -> int {
    index.column * 0x1_0000_0000 + index.row
}

fn key_of(index: CellIndex) -> (key: u64)
    ensures
        key == cell_key(index),
{
    index.column as u64 * 0x1_0000_0000 + index.row as u64
}

/// A sparse map from cells to texture regions, with the armed selection.
pub struct TileMap {
    size: Dimensions,
    selected_rect: Option<UvRect>,
    tiles: HashMap<u64, UvRect>,
}

impl View for TileMap {
    type V = TileMapState;

    closed spec fn view(&self) -> TileMapState {
        TileMapState {
            size: self.size,
            selected: self.selected_rect,
            tiles: Map::new(
                |index: CellIndex| self.tiles@.contains_key(cell_key(index) as u64),
                |index: CellIndex| self.tiles@[cell_key(index) as u64],
            ),
        }
    }
}

impl TileMap {
    /// Every painted cell lies within the extent the map was made for.
    pub open spec fn wf(&self) -> bool {
        self@.within(self@.size)
    }

    /// An empty map for a grid of `size`, with nothing selected.
    pub fn new(size: Dimensions) -> (map: TileMap)
        ensures
            map@ == TileMapState::empty(size),
            map.wf(),
    {
        let map = TileMap { size, selected_rect: None, tiles: HashMap::new() };
        assert(map@.tiles =~= Map::empty());
        map
    }

    /// The extent the map was made for.
    pub fn size(&self) -> (size: Dimensions)
        ensures
            size == self@.size,
    {
        self.size
    }

    /// The armed selection, if a region has been picked.
    pub fn selection(&self) -> (selected: Option<UvRect>)
        ensures
            selected == self@.selected,
    {
        self.selected_rect
    }

    /// Arms `uv`: later paints stamp it until another region is picked.
    pub fn pick_region(&mut self, uv: UvRect)
        ensures
            final(self)@ == old(self)@.pick_region(uv),
    {
        self.selected_rect = Some(uv);
    }

    /// Paints cell `index` of a grid of `dimensions` with the armed
    /// selection.
    ///
    /// Fails, and changes nothing, without a selection or for an index that
    /// is not a cell of the grid.
    pub fn paint_cell(&mut self, index: CellIndex, dimensions: Dimensions) -> (result: Result<
        (),
        PaintError,
    >)
        ensures
            final(self)@ == old(self)@.paint_cell(index, dimensions).0,
            result == old(self)@.paint_cell(index, dimensions).1,
            old(self)@.within(dimensions) ==> final(self)@.within(dimensions),
    {
        match self.selected_rect {
            None => Err(PaintError::NoSelection),
            Some(uv) => {
                if dimensions.contains(index) {
                    let key: u64 = key_of(index);
                    self.tiles.insert(key, uv);
                    assert(self@.tiles =~= old(self)@.tiles.insert(index, uv));
                    Ok(())
                } else {
                    Err(PaintError::OutOfBounds)
                }
            },
        }
    }

    /// What cell `index` shows: the region it was last painted with, or
    /// `None` for a cell that was never painted.
    pub fn tile_at(&self, index: CellIndex) -> (tile: Option<UvRect>)
        ensures
            tile == self@.tile_at(index),
    {
        let key: u64 = key_of(index);
        match self.tiles.get(&key) {
            Some(uv) => Some(*uv),
            None => None,
        }
    }
}

/// Without a selection a paint fails with `NoSelection`, whatever the
/// index, and leaves the map as it was.
pub proof fn lemma_paint_without_selection(
    state: TileMapState,
    index: CellIndex,
    dimensions: Dimensions,
)
    requires
        state.selected is None,
    ensures
        state.paint_cell(index, dimensions) == (state, Err::<(), PaintError>(PaintError::NoSelection)),
{
}

/// A map on which nothing was picked refuses every paint with
/// `NoSelection`, however many paints were tried before.
pub proof fn lemma_paint_before_pick(
    size: Dimensions,
    first: CellIndex,
    second: CellIndex,
    dimensions: Dimensions,
)
    ensures
        ({
            let fresh = TileMapState::empty(size);
            let (after, outcome) = fresh.paint_cell(first, dimensions);
            &&& outcome == Err::<(), PaintError>(PaintError::NoSelection)
            &&& after == fresh
            &&& after.paint_cell(second, dimensions) == (
                fresh,
                Err::<(), PaintError>(PaintError::NoSelection),
            )
        }),
{
}

/// A paint outside the grid changes nothing and fails; with a selection
/// armed it fails with `OutOfBounds`.
pub proof fn lemma_paint_out_of_bounds(
    state: TileMapState,
    index: CellIndex,
    dimensions: Dimensions,
)
    requires
        !dimensions.holds(index),
    ensures
        state.paint_cell(index, dimensions).0 == state,
        state.paint_cell(index, dimensions).1 is Err,
        state.selected is Some ==> state.paint_cell(index, dimensions).1 == Err::<(), PaintError>(
            PaintError::OutOfBounds,
        ),
{
}

/// A paint succeeds exactly when a selection is armed and the index is a
/// cell of the grid.
pub proof fn lemma_paint_succeeds_iff(
    state: TileMapState,
    index: CellIndex,
    dimensions: Dimensions,
)
    ensures
        state.paint_cell(index, dimensions).1 is Ok <==> state.selected is Some
            && dimensions.holds(index),
{
}

/// The selection is sticky: after picking `uv`, painting one cell and then
/// another shows `uv` on both, and the selection is still armed.
pub proof fn lemma_sticky_selection(
    state: TileMapState,
    uv: UvRect,
    first: CellIndex,
    second: CellIndex,
    dimensions: Dimensions,
)
    requires
        dimensions.holds(first),
        dimensions.holds(second),
    ensures
        ({
            let armed = state.pick_region(uv);
            let (once, first_outcome) = armed.paint_cell(first, dimensions);
            let (twice, second_outcome) = once.paint_cell(second, dimensions);
            &&& first_outcome is Ok
            &&& once.tile_at(first) == Some(uv)
            &&& second_outcome is Ok
            &&& twice.tile_at(second) == Some(uv)
            &&& twice.tile_at(first) == Some(uv)
            &&& twice.selected == Some(uv)
        }),
{
}

/// A paint touches one cell: every other cell shows what it showed before.
pub proof fn lemma_paint_leaves_other_cells(
    state: TileMapState,
    index: CellIndex,
    other: CellIndex,
    dimensions: Dimensions,
)
    requires
        other != index,
    ensures
        state.paint_cell(index, dimensions).0.tile_at(other) == state.tile_at(other),
{
}

/// Picking a region paints nothing.
pub proof fn lemma_pick_keeps_tiles(state: TileMapState, uv: UvRect)
    ensures
        state.pick_region(uv).tiles == state.tiles,
        state.pick_region(uv).size == state.size,
{
}

/// Painting never puts a cell outside the grid into the map: if every
/// painted cell was within `dimensions`, so is every cell afterwards.
pub proof fn lemma_paint_keeps_cells_within(
    state: TileMapState,
    index: CellIndex,
    dimensions: Dimensions,
)
    requires
        state.within(dimensions),
    ensures
        state.paint_cell(index, dimensions).0.within(dimensions),
{
}

} // verus!
