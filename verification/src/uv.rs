//! Texture coordinates: rectangles of a tile sheet in normalized space,
//! where the sheet spans 0 to 1 on both axes.

use vstd::prelude::*;
use crate::geometry::{PixelRect, Region};
use crate::ratio::{
    lemma_reduce_lowest_terms,
    lemma_reduce_monotonic,
    lemma_reduce_scale,
    reduce,
    Fraction,
    Ratio,
};

verus! {

/// Pixel width and height of a tile sheet; both are positive in a
/// well-formed value.
#[derive(Clone, Copy, Debug, PartialEq, Eq, Structural)]
pub struct SheetSize {
    pub width: u32,
    pub height: u32,
}

/// A rectangle in normalized texture space, as exact fractions.
#[derive(Clone, Copy, Debug, PartialEq, Eq, Structural)]
pub struct UvRect {
    pub min_u: Ratio,
    pub min_v: Ratio,
    pub max_u: Ratio,
    pub max_v: Ratio,
}

/// The mathematical value of a [`UvRect`].
pub struct UvRegion {
    pub min_u: Fraction,
    pub min_v: Fraction,
    pub max_u: Fraction,
    pub max_v: Fraction,
}

impl UvRegion {
    /// Every coordinate is a fraction in lowest terms.
    pub open spec fn canonical(self) -> bool {
        &&& self.min_u.lowest_terms()
        &&& self.min_v.lowest_terms()
        &&& self.max_u.lowest_terms()
        &&& self.max_v.lowest_terms()
    }

    /// `min` does not exceed `max` on either axis.
    pub open spec fn ordered(self) -> bool {
        self.min_u.le(self.max_u) && self.min_v.le(self.max_v)
    }

    /// The rectangle lies within the sheet: between 0 and 1 on both axes.
    pub open spec fn within_sheet(self) -> bool {
        &&& 0 <= self.min_u.num
        &&& 0 <= self.min_v.num
        &&& self.max_u.num <= self.max_u.den
        &&& self.max_v.num <= self.max_v.den
    }
}

impl View for UvRect {
    type V = UvRegion;

    open spec fn view(&self) -> UvRegion {
        UvRegion {
            min_u: self.min_u@,
            min_v: self.min_v@,
            max_u: self.max_u@,
            max_v: self.max_v@,
        }
    }
}

/// The texture coordinates of a pixel rectangle on a sheet of
/// `width` by `height` pixels: each corner divided by the sheet's size,
/// component by component. Nothing is clamped.
pub open spec fn uv_region(region: Region, width: int, height: int) -> UvRegion {
    UvRegion {
        min_u: reduce(region.min_x, width),
        min_v: reduce(region.min_y, height),
        max_u: reduce(region.max_x, width),
        max_v: reduce(region.max_y, height),
    }
}

impl SheetSize {
    /// Both sides are positive.
    pub open spec fn wf(&self) -> bool {
        self.width > 0 && self.height > 0
    }

    pub fn new(width: u32, height: u32) -> (size: SheetSize)
        requires
            width > 0,
            height > 0,
        ensures
            size.wf(),
            size.width == width,
            size.height == height,
    {
        SheetSize { width, height }
    }
}

impl UvRect {
    /// Coordinates in lowest terms, `min` not above `max`.
    pub open spec fn wf(&self) -> bool {
        self@.canonical() && self@.ordered()
    }
}

/// Texture coordinates of the pixel rectangle `region` on a sheet of
/// `sheet_size` pixels.
///
/// A region that reaches beyond the sheet yields coordinates outside of
/// 0 to 1; nothing is clamped.
pub fn pixel_region_to_uv(region: PixelRect, sheet_size: SheetSize) -> (uv: UvRect)
    requires
        sheet_size.wf(),
    ensures
        uv@ == uv_region(region@, sheet_size.width as int, sheet_size.height as int),
        uv@.canonical(),
        region.wf() ==> uv.wf(),
{
    proof {
        lemma_uv_region_wf(region@, sheet_size.width as int, sheet_size.height as int);
    }
    let width: u64 = sheet_size.width as u64;
    let height: u64 = sheet_size.height as u64;
    UvRect {
        min_u: Ratio::new(region.min.x, width),
        min_v: Ratio::new(region.min.y, height),
        max_u: Ratio::new(region.max.x, width),
        max_v: Ratio::new(region.max.y, height),
    }
}

/// Texture coordinates are in lowest terms, and ordered where the pixel
/// rectangle is.
pub proof fn lemma_uv_region_wf(region: Region, width: int, height: int)
    requires
        width > 0,
        height > 0,
    ensures
        uv_region(region, width, height).canonical(),
        region.ordered() ==> uv_region(region, width, height).ordered(),
{
    lemma_reduce_lowest_terms(region.min_x, width);
    lemma_reduce_lowest_terms(region.min_y, height);
    lemma_reduce_lowest_terms(region.max_x, width);
    lemma_reduce_lowest_terms(region.max_y, height);
    if region.ordered() {
        assert(region.min_x * width <= region.max_x * width) by (nonlinear_arith)
            requires
                region.min_x <= region.max_x,
                width > 0,
        ;
        assert(region.min_y * height <= region.max_y * height) by (nonlinear_arith)
            requires
                region.min_y <= region.max_y,
                height > 0,
        ;
        lemma_reduce_monotonic(region.min_x, region.max_x, width, width);
        lemma_reduce_monotonic(region.min_y, region.max_y, height, height);
    }
}

/// Texture coordinates do not depend on resolution: scaling the pixel
/// rectangle and the sheet by the same positive factor leaves them unchanged.
pub proof fn lemma_uv_scale_invariant(region: Region, width: int, height: int, factor: int)
    requires
        width > 0,
        height > 0,
        factor > 0,
    ensures
        uv_region(region.scaled(factor), factor * width, factor * height) == uv_region(
            region,
            width,
            height,
        ),
{
    lemma_reduce_scale(region.min_x, width, factor);
    lemma_reduce_scale(region.min_y, height, factor);
    lemma_reduce_scale(region.max_x, width, factor);
    lemma_reduce_scale(region.max_y, height, factor);
}

/// A pixel rectangle inside the sheet has texture coordinates between 0
/// and 1.
pub proof fn lemma_uv_within_sheet(region: Region, width: int, height: int)
    requires
        width > 0,
        height > 0,
        0 <= region.min_x,
        0 <= region.min_y,
        region.max_x <= width,
        region.max_y <= height,
    ensures
        uv_region(region, width, height).within_sheet(),
{
    lemma_reduce_not_negative(region.min_x, width);
    lemma_reduce_not_negative(region.min_y, height);
    lemma_reduce_at_most_one(region.max_x, width);
    lemma_reduce_at_most_one(region.max_y, height);
}

/// The reduction of a quotient that is not negative has no negative
/// numerator.
proof fn lemma_reduce_not_negative(num: int, den: int)
    requires
        den > 0,
        0 <= num,
    ensures
        0 <= reduce(num, den).num,
{
    lemma_reduce_lowest_terms(num, den);
    let f = reduce(num, den);
    assert(0 <= f.num) by (nonlinear_arith)
        requires
            f.num * den == num * f.den,
            f.den > 0,
            den > 0,
            0 <= num,
    ;
}

/// The reduction of a quotient that is at most one has a numerator that is
/// at most its denominator.
proof fn lemma_reduce_at_most_one(num: int, den: int)
    requires
        den > 0,
        num <= den,
    ensures
        reduce(num, den).num <= reduce(num, den).den,
{
    lemma_reduce_lowest_terms(num, den);
    let f = reduce(num, den);
    assert(f.num <= f.den) by (nonlinear_arith)
        requires
            f.num * den == num * f.den,
            f.den > 0,
            den > 0,
            num <= den,
    ;
}

} // verus!
