//! The regions of emulated input devices and the box that bounds them.

use vstd::prelude::*;

verus! {

/// Region information for a device.
///
/// The scale factor is not interpreted here; it is kept as the bits of its
/// single-precision representation.
#[derive(Debug, Clone, Copy, PartialEq, Eq, Structural)]
pub struct Region {
    pub x: u32,
    pub y: u32,
    pub width: u32,
    pub height: u32,
    pub scale_bits: u32,
}

/// The bits of the scale factor one.
pub const SCALE_ONE: u32 = 0x3f80_0000;

/// The screen that is assumed while no device has a region: 1920x1080 at the origin.
pub open spec fn default_screen() -> (u16, u16, u16, u16) {
    (0, 0, 1920, 1080)
}

/// The left edges of the regions.
pub open spec fn lefts(regions: Seq<Region>) -> Seq<int> {
    regions.map_values(|r: Region| r.x as int)
}

/// The top edges of the regions.
pub open spec fn tops(regions: Seq<Region>) -> Seq<int> {
    regions.map_values(|r: Region| r.y as int)
}

/// The right edges of the regions.
pub open spec fn rights(regions: Seq<Region>) -> Seq<int> {
    regions.map_values(|r: Region| r.x + r.width)
}

/// The bottom edges of the regions.
pub open spec fn bottoms(regions: Seq<Region>) -> Seq<int> {
    regions.map_values(|r: Region| r.y + r.height)
}

/// Whether the right and the bottom edge of a region are coordinates.
pub open spec fn region_fits(r: Region) -> bool {
    r.x + r.width <= u32::MAX && r.y + r.height <= u32::MAX
}

/// Whether all regions fit the coordinate range.
pub open spec fn regions_fit(regions: Seq<Region>) -> bool {
    forall|i: int| 0 <= i < regions.len() ==> region_fits(#[trigger] regions[i])
}

/// An extent as the protocol carries it, with `u16::MAX` for anything larger.
pub open spec fn clamp_extent(extent: int) -> u16 {
    if extent <= u16::MAX {
        extent as u16
    } else {
        u16::MAX
    }
}

/// The low 16 bits of a coordinate.
pub open spec fn low_bits(coordinate: int) -> u16 {
    (coordinate % 0x1_0000) as u16
}

/// The screen (x, y, width, height) that the regions make up: their bounding box,
/// or the default where there are none.
pub open spec fn screen(regions: Seq<Region>) -> (u16, u16, u16, u16) {
    if regions.len() == 0 {
        default_screen()
    } else {
        (
            low_bits(lefts(regions).min()),
            low_bits(tops(regions).min()),
            clamp_extent(rights(regions).max() - lefts(regions).min()),
            clamp_extent(bottoms(regions).max() - tops(regions).min()),
        )
    }
}

/// The box that bounds the regions seen so far.
#[derive(Debug, Clone, Copy, PartialEq, Eq, Structural)]
pub struct BoundingBox {
    pub min_x: u32,
    pub min_y: u32,
    pub max_x: u32,
    pub max_y: u32,
}

/// The least of some values, or `none` where there are none.
spec fn least(values: Seq<int>, none: int) -> int {
    if values.len() == 0 {
        none
    } else {
        values.min()
    }
}

/// The greatest of some values, or zero where there are none.
spec fn greatest(values: Seq<int>) -> int {
    if values.len() == 0 {
        0
    } else {
        values.max()
    }
}

proof fn lemma_least_push(values: Seq<int>, value: int, none: int)
    requires
        value <= none,
    ensures
        least(values.push(value), none) == if value < least(values, none) {
            value
        } else {
            least(values, none)
        },
{
    let all = values.push(value);
    values.min_ensures();
    all.min_ensures();
    assert(all[values.len() as int] == value);
    assert(forall|i: int| 0 <= i < values.len() ==> all[i] == values[i]);
    if values.len() > 0 {
        let i = choose|i: int| 0 <= i < values.len() && values[i] == values.min();
        assert(all[i] == values.min());
    }
}

proof fn lemma_greatest_push(values: Seq<int>, value: int)
    requires
        value >= 0,
    ensures
        greatest(values.push(value)) == if value > greatest(values) {
            value
        } else {
            greatest(values)
        },
{
    let all = values.push(value);
    values.max_ensures();
    all.max_ensures();
    assert(all[values.len() as int] == value);
    assert(forall|i: int| 0 <= i < values.len() ==> all[i] == values[i]);
    if values.len() > 0 {
        let i = choose|i: int| 0 <= i < values.len() && values[i] == values.max();
        assert(all[i] == values.max());
    }
}

impl BoundingBox {
    /// Whether this is the box that bounds exactly the given regions.
    pub closed spec fn bounds(&self, regions: Seq<Region>) -> bool {
        &&& self.min_x == least(lefts(regions), u32::MAX as int)
        &&& self.min_y == least(tops(regions), u32::MAX as int)
        &&& self.max_x == greatest(rights(regions))
        &&& self.max_y == greatest(bottoms(regions))
    }

    /// The box around no region at all.
    pub fn new() -> (bounding_box: BoundingBox)
        ensures
            bounding_box.bounds(Seq::empty()),
    {
        BoundingBox { min_x: u32::MAX, min_y: u32::MAX, max_x: 0, max_y: 0 }
    }

    /// Extends the box to one more region.
    pub fn extend(&mut self, region: &Region)
        requires
            region_fits(*region),
        ensures
            forall|regions: Seq<Region>|
                old(self).bounds(regions) ==> #[trigger] final(self).bounds(regions.push(*region)),
    {
        if region.x < self.min_x {
            self.min_x = region.x;
        }
        if region.y < self.min_y {
            self.min_y = region.y;
        }
        if region.x + region.width > self.max_x {
            self.max_x = region.x + region.width;
        }
        if region.y + region.height > self.max_y {
            self.max_y = region.y + region.height;
        }
        assert forall|regions: Seq<Region>| old(self).bounds(regions) implies
            #[trigger] self.bounds(regions.push(*region)) by {
            let all = regions.push(*region);
            lemma_least_push(lefts(regions), region.x as int, u32::MAX as int);
            lemma_least_push(tops(regions), region.y as int, u32::MAX as int);
            lemma_greatest_push(rights(regions), region.x + region.width);
            lemma_greatest_push(bottoms(regions), region.y + region.height);
            assert(lefts(all) =~= lefts(regions).push(region.x as int));
            assert(tops(all) =~= tops(regions).push(region.y as int));
            assert(rights(all) =~= rights(regions).push(region.x + region.width));
            assert(bottoms(all) =~= bottoms(regions).push(region.y + region.height));
        }
    }

    /// The screen that the bounded regions make up.
    pub fn to_screen(&self) -> (result: (u16, u16, u16, u16))
        requires
            exists|regions: Seq<Region>| self.bounds(regions),
        ensures
            forall|regions: Seq<Region>| #[trigger]
                self.bounds(regions) ==> result == screen(regions),
    {
        proof {
            assert forall|regions: Seq<Region>| #[trigger] self.bounds(regions) implies (
            regions.len() > 0 <==> self.min_x <= self.max_x) && (regions.len() > 0 ==> self.min_y
                <= self.max_y) by {
                if regions.len() > 0 {
                    lemma_box_is_ordered(regions);
                }
            }
        }
        if self.min_x > self.max_x {
            return (0, 0, 1920, 1080);
        }
        let width: u32 = self.max_x - self.min_x;
        let height: u32 = self.max_y - self.min_y;
        let (x, y): (u32, u32) = (self.min_x % 0x1_0000, self.min_y % 0x1_0000);
        (
            x as u16,
            y as u16,
            if width <= 0xffff {
                width as u16
            } else {
                0xffff
            },
            if height <= 0xffff {
                height as u16
            } else {
                0xffff
            },
        )
    }
}

proof fn lemma_box_is_ordered(regions: Seq<Region>)
    requires
        regions.len() > 0,
    ensures
        lefts(regions).min() <= rights(regions).max(),
        tops(regions).min() <= bottoms(regions).max(),
{
    lefts(regions).min_ensures();
    tops(regions).min_ensures();
    rights(regions).max_ensures();
    bottoms(regions).max_ensures();
    assert(lefts(regions)[0] <= rights(regions)[0]);
    assert(tops(regions)[0] <= bottoms(regions)[0]);
}

/// The bounding box holds every region: none begins before its left and top edge or
/// ends behind its right and bottom edge.
pub proof fn box_holds_every_region(regions: Seq<Region>, i: int)
    requires
        0 <= i < regions.len(),
    ensures
        lefts(regions).min() <= regions[i].x,
        tops(regions).min() <= regions[i].y,
        regions[i].x + regions[i].width <= rights(regions).max(),
        regions[i].y + regions[i].height <= bottoms(regions).max(),
{
    lefts(regions).min_ensures();
    tops(regions).min_ensures();
    rights(regions).max_ensures();
    bottoms(regions).max_ensures();
    assert(lefts(regions)[i] == regions[i].x);
    assert(tops(regions)[i] == regions[i].y);
    assert(rights(regions)[i] == regions[i].x + regions[i].width);
    assert(bottoms(regions)[i] == regions[i].y + regions[i].height);
}

/// The bounding box is tight: each of its edges is an edge of some region.
pub proof fn box_is_tight(regions: Seq<Region>)
    requires
        regions.len() > 0,
    ensures
        exists|i: int| 0 <= i < regions.len() && #[trigger] regions[i].x == lefts(regions).min(),
        exists|i: int| 0 <= i < regions.len() && #[trigger] regions[i].y == tops(regions).min(),
        exists|i: int|
            0 <= i < regions.len() && #[trigger] regions[i].x + regions[i].width == rights(
                regions,
            ).max(),
        exists|i: int|
            0 <= i < regions.len() && #[trigger] regions[i].y + regions[i].height == bottoms(
                regions,
            ).max(),
{
    lefts(regions).min_ensures();
    tops(regions).min_ensures();
    rights(regions).max_ensures();
    bottoms(regions).max_ensures();
    let a = choose|i: int| 0 <= i < regions.len() && lefts(regions)[i] == lefts(regions).min();
    let b = choose|i: int| 0 <= i < regions.len() && tops(regions)[i] == tops(regions).min();
    let c = choose|i: int| 0 <= i < regions.len() && rights(regions)[i] == rights(regions).max();
    let d = choose|i: int| 0 <= i < regions.len() && bottoms(regions)[i] == bottoms(regions).max();
    assert(regions[a].x == lefts(regions).min());
    assert(regions[b].y == tops(regions).min());
    assert(regions[c].x + regions[c].width == rights(regions).max());
    assert(regions[d].y + regions[d].height == bottoms(regions).max());
}

/// The screen reaches from the least left to the greatest right edge of all regions, and
/// from the least top to the greatest bottom edge. Its size is exact as far as 16 bits go
/// and the largest such number beyond, and its origin is given by its low 16 bits.
pub proof fn screen_in_full(
    regions: Seq<Region>,
    leftmost: int,
    topmost: int,
    rightmost: int,
    bottommost: int,
)
    requires
        0 <= leftmost < regions.len(),
        0 <= topmost < regions.len(),
        0 <= rightmost < regions.len(),
        0 <= bottommost < regions.len(),
        forall|i: int|
            0 <= i < regions.len() ==> {
                let r = #[trigger] regions[i];
                &&& regions[leftmost].x <= r.x
                &&& regions[topmost].y <= r.y
                &&& r.x + r.width <= regions[rightmost].x + regions[rightmost].width
                &&& r.y + r.height <= regions[bottommost].y + regions[bottommost].height
            },
    ensures
        ({
            let (x, y, width, height) = screen(regions);
            let w = regions[rightmost].x + regions[rightmost].width - regions[leftmost].x;
            let h = regions[bottommost].y + regions[bottommost].height - regions[topmost].y;
            &&& x == regions[leftmost].x % 0x1_0000
            &&& y == regions[topmost].y % 0x1_0000
            &&& w <= 65535 ==> width == w
            &&& w > 65535 ==> width == 65535
            &&& h <= 65535 ==> height == h
            &&& h > 65535 ==> height == 65535
        }),
{
    box_holds_every_region(regions, leftmost);
    box_holds_every_region(regions, topmost);
    box_holds_every_region(regions, rightmost);
    box_holds_every_region(regions, bottommost);
    box_is_tight(regions);
    lemma_box_is_ordered(regions);
}

/// Without any region the screen is 1920 by 1080 at the origin.
pub proof fn screen_without_regions()
    ensures
        screen(Seq::empty()) == (0u16, 0u16, 1920u16, 1080u16),
{
}

/// Regions fit where none ends beyond the largest coordinate.
pub proof fn fitting_in_full(regions: Seq<Region>)
    ensures
        regions_fit(regions) <==> forall|i: int|
            0 <= i < regions.len() ==> (#[trigger] regions[i]).x + regions[i].width <= 0xffff_ffff
                && regions[i].y + regions[i].height <= 0xffff_ffff,
{
    if regions_fit(regions) {
        assert forall|i: int| 0 <= i < regions.len() implies (#[trigger] regions[i]).x
            + regions[i].width <= 0xffff_ffff && regions[i].y + regions[i].height
            <= 0xffff_ffff by {
            assert(region_fits(regions[i]));
        }
    }
}

} // verus!
