//! Grid geometry: the mapping between positions on the integer pixel lattice
//! and the cells of a uniform grid.
//!
//! All coordinates are whole pixels. A cell of the grid is the half-open
//! rectangle `[min, max)`; a position belongs to exactly one cell.

use vstd::prelude::*;
use vstd::arithmetic::div_mod::{
    lemma_fundamental_div_mod,
    lemma_fundamental_div_mod_converse_div,
    lemma_mod_bound,
};

verus! {

/// A position on the pixel lattice.
#[derive(Clone, Copy, Debug, PartialEq, Eq, Structural)]
pub struct Point {
    pub x: i64,
    pub y: i64,
}

/// A pixel extent.
#[derive(Clone, Copy, Debug, PartialEq, Eq, Structural)]
pub struct Size {
    pub width: u64,
    pub height: u64,
}

/// Width and height of one grid cell in pixels; both are positive in a
/// well-formed value.
#[derive(Clone, Copy, Debug, PartialEq, Eq, Structural)]
pub struct CellSize {
    pub width: u32,
    pub height: u32,
}

/// Identity of a grid cell: its column and row.
#[derive(Clone, Copy, Debug, PartialEq, Eq, Hash, Structural)]
pub struct CellIndex {
    pub column: u32,
    pub row: u32,
}

/// The logical extent of a grid: how many columns and rows it has; both are
/// positive in a well-formed value.
#[derive(Clone, Copy, Debug, PartialEq, Eq, Structural)]
pub struct Dimensions {
    pub columns: u32,
    pub rows: u32,
}

/// An axis-aligned rectangle of pixels, `[min, max)` on both axes.
#[derive(Clone, Copy, Debug, PartialEq, Eq, Structural)]
pub struct PixelRect {
    pub min: Point,
    pub max: Point,
}

/// The two background shades of cells that show no tile.
#[derive(Clone, Copy, Debug, PartialEq, Eq, Structural)]
pub enum Shade {
    Light,
    Dark,
}

/// A rectangle with unbounded integer corners: the mathematical value of a
/// [`PixelRect`].
pub struct Region {
    pub min_x: int,
    pub min_y: int,
    pub max_x: int,
    pub max_y: int,
}

impl Region {
    /// The lattice point in the middle of the rectangle, rounded towards `min`.
    pub open spec fn center(self) -> (int, int) {
        (self.min_x + (self.max_x - self.min_x) / 2, self.min_y + (self.max_y - self.min_y) / 2)
    }

    /// Whether `(x, y)` lies in the half-open rectangle.
    pub open spec fn contains(self, x: int, y: int) -> bool {
        self.min_x <= x < self.max_x && self.min_y <= y < self.max_y
    }

    /// `min` does not exceed `max` on either axis.
    pub open spec fn ordered(self) -> bool {
        self.min_x <= self.max_x && self.min_y <= self.max_y
    }

    /// The rectangle with every coordinate multiplied by `factor`.
    pub open spec fn scaled(self, factor: int) -> Region {
        Region {
            min_x: factor * self.min_x,
            min_y: factor * self.min_y,
            max_x: factor * self.max_x,
            max_y: factor * self.max_y,
        }
    }
}

impl View for PixelRect {
    type V = Region;

    open spec fn view(&self) -> Region {
        Region {
            min_x: self.min.x as int,
            min_y: self.min.y as int,
            max_x: self.max.x as int,
            max_y: self.max.y as int,
        }
    }
}

/// The rectangle that cell `index` covers when cells of `cell_size` are laid
/// out from `origin`: column `c` spans `origin.x + c * width` up to
/// `origin.x + (c + 1) * width`, and rows likewise.
pub open spec fn cell_region(index: CellIndex, cell_size: CellSize, origin: Point) -> Region {
    Region {
        min_x: origin.x + index.column * cell_size.width,
        min_y: origin.y + index.row * cell_size.height,
        max_x: origin.x + (index.column + 1) * cell_size.width,
        max_y: origin.y + (index.row + 1) * cell_size.height,
    }
}

/// Whether every corner of [`cell_region`] is a representable pixel position.
pub open spec fn cell_rect_fits(index: CellIndex, cell_size: CellSize, origin: Point) -> bool {
    &&& origin.x + (index.column + 1) * cell_size.width <= i64::MAX
    &&& origin.y + (index.row + 1) * cell_size.height <= i64::MAX
}

/// Column and row of the cell that holds position `(x, y)`, for a grid laid
/// out from the origin of the lattice: the floors of `x / width` and
/// `y / height`. Either may be negative.
pub open spec fn cell_containing(x: int, y: int, cell_size: CellSize) -> (int, int) {
    (x / (cell_size.width as int), y / (cell_size.height as int))
}

/// The cell of a `dimensions` grid that holds `point`, if there is one.
pub open spec fn cell_within(point: Point, cell_size: CellSize, dimensions: Dimensions) -> Option<
    CellIndex,
> {
    let (column, row) = cell_containing(point.x as int, point.y as int, cell_size);
    if 0 <= column < dimensions.columns && 0 <= row < dimensions.rows {
        Some(CellIndex { column: column as u32, row: row as u32 })
    } else {
        None
    }
}

/// Checkerboard parity of a cell: `(column + row) % 2`.
pub open spec fn parity_of(index: CellIndex) -> int {
    (index.column + index.row) % 2
}

/// Background shade of a cell: light on even parity, dark on odd.
pub open spec fn shade_of(index: CellIndex) -> Shade {
    if parity_of(index) == 0 {
        Shade::Light
    } else {
        Shade::Dark
    }
}

impl CellSize {
    /// Both sides are positive.
    pub open spec fn wf(&self) -> bool {
        self.width > 0 && self.height > 0
    }

    pub fn new(width: u32, height: u32) -> (size: CellSize)
        requires
            width > 0,
            height > 0,
        ensures
            size.wf(),
            size.width == width,
            size.height == height,
    {
        CellSize { width, height }
    }
}

impl Dimensions {
    /// Both counts are positive.
    pub open spec fn wf(&self) -> bool {
        self.columns > 0 && self.rows > 0
    }

    /// Whether `index` names a cell of this grid.
    pub open spec fn holds(&self, index: CellIndex) -> bool {
        index.column < self.columns && index.row < self.rows
    }

    pub fn new(columns: u32, rows: u32) -> (dimensions: Dimensions)
        requires
            columns > 0,
            rows > 0,
        ensures
            dimensions.wf(),
            dimensions.columns == columns,
            dimensions.rows == rows,
    {
        Dimensions { columns, rows }
    }

    /// Range check of a cell index against the grid.
    pub fn contains(&self, index: CellIndex) -> (inside: bool)
        ensures
            inside == self.holds(index),
    {
        index.column < self.columns && index.row < self.rows
    }
}

impl PixelRect {
    /// `min` does not exceed `max` on either axis.
    pub open spec fn wf(&self) -> bool {
        self@.ordered()
    }

    /// The lattice point in the middle of the rectangle, rounded towards
    /// `min`.
    pub fn center(&self) -> (middle: Point)
        ensures
            (middle.x as int, middle.y as int) == self@.center(),
    {
        Point { x: midpoint(self.min.x, self.max.x), y: midpoint(self.min.y, self.max.y) }
    }
}

impl Shade {
    /// The shade as red, green and blue.
    pub open spec fn rgb_of(self) -> (u8, u8, u8) {
        match self {
            Shade::Light => (169u8, 169u8, 169u8),
            Shade::Dark => (84u8, 84u8, 84u8),
        }
    }

    pub fn rgb(&self) -> (channels: (u8, u8, u8))
        ensures
            channels == self.rgb_of(),
    {
        match self {
            Shade::Light => (169, 169, 169),
            Shade::Dark => (84, 84, 84),
        }
    }
}

/// The lattice position half way from `low` to `high`, rounded towards
/// `low`.
fn midpoint(low: i64, high: i64) -> (middle: i64)
    ensures
        middle == low + (high - low) / 2,
{
    let span: i128 = high as i128 - low as i128;
    let half: i128 = if span >= 0 {
        span / 2
    } else {
        -((1 - span) / 2)
    };
    (low as i128 + half) as i64
}

/// Floor of `a / d` for a positive divisor.
fn floor_div(a: i64, d: u32) -> (q: i64)
    requires
        d > 0,
    ensures
        q == a as int / d as int,
{
    let w: i64 = d as i64;
    if a >= 0 {
        a / w
    } else {
        let m: i64 = -(a + 1);
        let t: i64 = m / w;
        proof {
            assert(a as int / w as int == -(m as int / w as int) - 1) by (nonlinear_arith)
                requires
                    w > 0,
                    a < 0,
                    m == -(a + 1),
            ;
        }
        -t - 1
    }
}

/// Whether `origin + count * side` is a representable position.
fn edge_in_range(origin: i64, count: u64, side: u32) -> (fits: bool)
    requires
        count <= 0x1_0000_0000,
    ensures
        fits == (origin + count * side <= i64::MAX),
{
    let n: i128 = count as i128;
    let s: i128 = side as i128;
    assert(0 <= n * s <= 0x1_0000_0000 * 0xFFFF_FFFF) by (nonlinear_arith)
        requires
            0 <= n <= 0x1_0000_0000,
            0 <= s <= 0xFFFF_FFFF,
    ;
    origin as i128 + n * s <= i64::MAX as i128
}

/// One edge of a cell: `origin + count * side`.
fn cell_edge(origin: i64, count: u64, side: u32) -> (edge: i64)
    requires
        count <= 0x1_0000_0000,
        origin + count * side <= i64::MAX,
    ensures
        edge == origin + count * side,
{
    let n: i128 = count as i128;
    let s: i128 = side as i128;
    assert(0 <= n * s <= 0x1_0000_0000 * 0xFFFF_FFFF) by (nonlinear_arith)
        requires
            0 <= n <= 0x1_0000_0000,
            0 <= s <= 0xFFFF_FFFF,
    ;
    (origin as i128 + n * s) as i64
}

/// Whether the rectangle of cell `index` has representable corners, so that
/// [`cell_rect`] can be asked for it.
pub fn cell_rect_in_range(index: CellIndex, cell_size: CellSize, origin: Point) -> (fits: bool)
    ensures
        fits == cell_rect_fits(index, cell_size, origin),
{
    edge_in_range(origin.x, index.column as u64 + 1, cell_size.width) && edge_in_range(
        origin.y,
        index.row as u64 + 1,
        cell_size.height,
    )
}

/// The rectangle of cell `index` in a grid of `cell_size` cells laid out from
/// `origin`.
///
/// Any index is accepted; whether it names a cell of a particular grid is for
/// the caller to check.
pub fn cell_rect(index: CellIndex, cell_size: CellSize, origin: Point) -> (rect: PixelRect)
    requires
        cell_rect_fits(index, cell_size, origin),
    ensures
        rect@ == cell_region(index, cell_size, origin),
{
    proof {
        let w = cell_size.width as int;
        let h = cell_size.height as int;
        let c = index.column as int;
        let r = index.row as int;
        assert(c * w <= (c + 1) * w) by (nonlinear_arith)
            requires
                w >= 0,
        ;
        assert(r * h <= (r + 1) * h) by (nonlinear_arith)
            requires
                h >= 0,
        ;
    }
    let left: i64 = cell_edge(origin.x, index.column as u64, cell_size.width);
    let top: i64 = cell_edge(origin.y, index.row as u64, cell_size.height);
    let right: i64 = cell_edge(origin.x, index.column as u64 + 1, cell_size.width);
    let bottom: i64 = cell_edge(origin.y, index.row as u64 + 1, cell_size.height);
    PixelRect { min: Point { x: left, y: top }, max: Point { x: right, y: bottom } }
}

/// Column and row of the cell that holds `point`, for a grid laid out from
/// the origin of the lattice.
///
/// The result may be negative or lie beyond a grid's last cell.
pub fn point_to_cell(point: Point, cell_size: CellSize) -> (cell: (i64, i64))
    requires
        cell_size.wf(),
    ensures
        (cell.0 as int, cell.1 as int) == cell_containing(
            point.x as int,
            point.y as int,
            cell_size,
        ),
{
    (floor_div(point.x, cell_size.width), floor_div(point.y, cell_size.height))
}

/// The cell of a `dimensions` grid under `point`, or `None` where the point
/// lies outside the grid.
pub fn cell_at(point: Point, cell_size: CellSize, dimensions: Dimensions) -> (cell: Option<
    CellIndex,
>)
    requires
        cell_size.wf(),
    ensures
        cell == cell_within(point, cell_size, dimensions),
{
    let (column, row) = point_to_cell(point, cell_size);
    if 0 <= column && column < dimensions.columns as i64 && 0 <= row && row
        < dimensions.rows as i64 {
        Some(CellIndex { column: column as u32, row: row as u32 })
    } else {
        None
    }
}

/// Checkerboard parity of a cell, 0 or 1.
pub fn cell_parity(index: CellIndex) -> (parity: u8)
    ensures
        parity == parity_of(index),
{
    ((index.column as u64 + index.row as u64) % 2) as u8
}

/// Background shade of a cell: light on even parity, dark on odd.
pub fn cell_shade(index: CellIndex) -> (shade: Shade)
    ensures
        shade == shade_of(index),
{
    if cell_parity(index) == 0 {
        Shade::Light
    } else {
        Shade::Dark
    }
}

/// Every position inside a cell's rectangle, taken relative to the origin
/// the grid was laid out from, maps back to that cell.
pub proof fn lemma_point_in_cell_maps_to_cell(
    index: CellIndex,
    cell_size: CellSize,
    origin: Point,
    x: int,
    y: int,
)
    requires
        cell_size.wf(),
        cell_region(index, cell_size, origin).contains(x, y),
    ensures
        cell_containing(x - origin.x, y - origin.y, cell_size) == (
            index.column as int,
            index.row as int,
        ),
{
    let w = cell_size.width as int;
    let h = cell_size.height as int;
    let c = index.column as int;
    let r = index.row as int;
    assert((c + 1) * w == c * w + w) by (nonlinear_arith);
    assert((r + 1) * h == r * h + h) by (nonlinear_arith);
    lemma_fundamental_div_mod_converse_div(x - origin.x, w, c, x - origin.x - c * w);
    lemma_fundamental_div_mod_converse_div(y - origin.y, h, r, y - origin.y - r * h);
}

/// The centre of a cell lies inside the cell.
pub proof fn lemma_center_in_cell(index: CellIndex, cell_size: CellSize, origin: Point)
    requires
        cell_size.wf(),
    ensures
        ({
            let region = cell_region(index, cell_size, origin);
            let (x, y) = region.center();
            region.contains(x, y)
        }),
{
    let w = cell_size.width as int;
    let h = cell_size.height as int;
    let c = index.column as int;
    let r = index.row as int;
    assert((c + 1) * w == c * w + w) by (nonlinear_arith);
    assert((r + 1) * h == r * h + h) by (nonlinear_arith);
}

/// Round trip of the geometry mapping: the centre of a cell, taken relative
/// to the grid's origin, maps back to the cell's index.
pub proof fn lemma_center_round_trip(index: CellIndex, cell_size: CellSize, origin: Point)
    requires
        cell_size.wf(),
    ensures
        ({
            let (x, y) = cell_region(index, cell_size, origin).center();
            cell_containing(x - origin.x, y - origin.y, cell_size) == (
                index.column as int,
                index.row as int,
            )
        }),
{
    lemma_center_in_cell(index, cell_size, origin);
    let (x, y) = cell_region(index, cell_size, origin).center();
    lemma_point_in_cell_maps_to_cell(index, cell_size, origin, x, y);
}

/// Round trip in absolute coordinates: where the origin of the layout is
/// less than half a cell away from the origin of the lattice, so that the
/// centre of cell (0, 0) falls into cell (0, 0), the centre of every cell
/// maps back to the cell's index.
pub proof fn lemma_center_round_trip_absolute(
    index: CellIndex,
    cell_size: CellSize,
    origin: Point,
)
    requires
        cell_size.wf(),
        0 <= origin.x + cell_size.width / 2 < cell_size.width,
        0 <= origin.y + cell_size.height / 2 < cell_size.height,
    ensures
        ({
            let (x, y) = cell_region(index, cell_size, origin).center();
            cell_containing(x, y, cell_size) == (index.column as int, index.row as int)
        }),
{
    let w = cell_size.width as int;
    let h = cell_size.height as int;
    let c = index.column as int;
    let r = index.row as int;
    let (x, y) = cell_region(index, cell_size, origin).center();
    assert((c + 1) * w == c * w + w) by (nonlinear_arith);
    assert((r + 1) * h == r * h + h) by (nonlinear_arith);
    lemma_fundamental_div_mod_converse_div(x, w, c, x - c * w);
    lemma_fundamental_div_mod_converse_div(y, h, r, y - r * h);
}

/// A position lies under a cell of the grid exactly when it lies in the
/// rectangle that the cell covers in a grid laid out from the origin of the
/// lattice.
pub proof fn lemma_cell_within_iff_in_cell(
    point: Point,
    cell_size: CellSize,
    dimensions: Dimensions,
    index: CellIndex,
)
    requires
        cell_size.wf(),
    ensures
        cell_within(point, cell_size, dimensions) == Some(index) <==> dimensions.holds(index)
            && cell_region(index, cell_size, Point { x: 0, y: 0 }).contains(
            point.x as int,
            point.y as int,
        ),
{
    let w = cell_size.width as int;
    let h = cell_size.height as int;
    let c = index.column as int;
    let r = index.row as int;
    let x = point.x as int;
    let y = point.y as int;
    let origin = Point { x: 0, y: 0 };
    if cell_region(index, cell_size, origin).contains(x, y) {
        lemma_point_in_cell_maps_to_cell(index, cell_size, origin, x, y);
    }
    if cell_within(point, cell_size, dimensions) == Some(index) {
        lemma_fundamental_div_mod(x, w);
        lemma_fundamental_div_mod(y, h);
        lemma_mod_bound(x, w);
        lemma_mod_bound(y, h);
        assert(x / w == c && y / h == r);
        assert(c * w <= x < (c + 1) * w) by (nonlinear_arith)
            requires
                x == w * c + x % w,
                0 <= x % w < w,
        ;
        assert(r * h <= y < (r + 1) * h) by (nonlinear_arith)
            requires
                y == h * r + y % h,
                0 <= y % h < h,
        ;
    }
}

/// Every cell of a grid lies within the grid's full pixel extent: columns
/// times cell width by rows times cell height, from the origin of the
/// layout.
pub proof fn lemma_cell_within_world(
    index: CellIndex,
    cell_size: CellSize,
    dimensions: Dimensions,
    origin: Point,
)
    requires
        dimensions.holds(index),
    ensures
        ({
            let region = cell_region(index, cell_size, origin);
            &&& origin.x <= region.min_x <= region.max_x <= origin.x + dimensions.columns
                * cell_size.width
            &&& origin.y <= region.min_y <= region.max_y <= origin.y + dimensions.rows
                * cell_size.height
        }),
{
    let w = cell_size.width as int;
    let h = cell_size.height as int;
    let c = index.column as int;
    let r = index.row as int;
    let columns = dimensions.columns as int;
    let rows = dimensions.rows as int;
    assert(0 <= c * w <= (c + 1) * w <= columns * w) by (nonlinear_arith)
        requires
            0 <= c,
            c + 1 <= columns,
            0 <= w,
    ;
    assert(0 <= r * h <= (r + 1) * h <= rows * h) by (nonlinear_arith)
        requires
            0 <= r,
            r + 1 <= rows,
            0 <= h,
    ;
}

/// The checkerboard alternates: a cell differs in parity from its right and
/// lower neighbours and agrees with its diagonal neighbour.
pub proof fn lemma_parity_alternates(index: CellIndex)
    requires
        index.column < u32::MAX,
        index.row < u32::MAX,
    ensures
        parity_of(CellIndex { column: (index.column + 1) as u32, row: index.row }) != parity_of(
            index,
        ),
        parity_of(CellIndex { column: index.column, row: (index.row + 1) as u32 }) != parity_of(
            index,
        ),
        parity_of(CellIndex { column: (index.column + 1) as u32, row: (index.row + 1) as u32 })
            == parity_of(index),
{
}

} // verus!
