use vstd::prelude::*;

verus! {

/// A position in viewport-local coordinates.
#[derive(Debug, Clone, Copy, PartialEq, Eq, Structural)]
pub struct Point {
    pub x: i32,
    pub y: i32,
}

/// An axis-aligned rectangle given by its top-left corner and its extent.
#[derive(Debug, Clone, Copy, PartialEq, Eq, Structural)]
pub struct Rect {
    pub x: i32,
    pub y: i32,
    pub width: u32,
    pub height: u32,
}

/// A half-open pixel region `[min_x, max_x) x [min_y, max_y)`.
#[derive(Debug, Clone, Copy, PartialEq, Eq, Structural)]
pub struct DirtyRect {
    pub min_x: u32,
    pub min_y: u32,
    pub max_x: u32,
    pub max_y: u32,
}

pub open spec fn spec_min(a: int, b: int) -> int {
    if a <= b { a } else { b }
}

pub open spec fn spec_max(a: int, b: int) -> int {
    if a >= b { a } else { b }
}

pub open spec fn spec_abs_diff(a: int, b: int) -> int {
    if a >= b { a - b } else { b - a }
}

/// `v` limited to the range `[0, hi]`.
pub open spec fn clamp(v: int, hi: int) -> int {
    if v < 0 { 0 } else if v > hi { hi } else { v }
}

/// The rectangle spanned by two corner points.
pub open spec fn normalized(start: Point, end: Point) -> Rect {
    Rect {
        x: spec_min(start.x as int, end.x as int) as i32,
        y: spec_min(start.y as int, end.y as int) as i32,
        width: spec_abs_diff(start.x as int, end.x as int) as u32,
        height: spec_abs_diff(start.y as int, end.y as int) as u32,
    }
}

impl DirtyRect {
    pub open spec fn contains(self, x: int, y: int) -> bool {
        self.min_x <= x < self.max_x && self.min_y <= y < self.max_y
    }

    /// Not empty, and inside a viewport of the given size.
    pub open spec fn within(self, width: int, height: int) -> bool {
        self.min_x < self.max_x <= width && self.min_y < self.max_y <= height
    }

    /// The outermost ring of pixels of the region.
    pub open spec fn on_border(self, x: int, y: int) -> bool {
        self.contains(x, y) && (x == self.min_x || x == self.max_x - 1 || y == self.min_y || y
            == self.max_y - 1)
    }
}

/// The whole viewport as a region.
pub open spec fn full_view(width: u32, height: u32) -> DirtyRect {
    DirtyRect { min_x: 0, min_y: 0, max_x: width, max_y: height }
}

/// The selection spanned by `start` and `pos`, clipped to the viewport, then widened by
/// a one-pixel margin for its border and clipped again.
pub open spec fn outlined_box(width: u32, height: u32, start: Point, pos: Point) -> DirtyRect {
    let lo_x = clamp(spec_min(start.x as int, pos.x as int), width as int);
    let hi_x = clamp(spec_max(start.x as int, pos.x as int), width as int);
    let lo_y = clamp(spec_min(start.y as int, pos.y as int), height as int);
    let hi_y = clamp(spec_max(start.y as int, pos.y as int), height as int);
    DirtyRect {
        min_x: (if lo_x > 0 { lo_x - 1 } else { 0 }) as u32,
        min_y: (if lo_y > 0 { lo_y - 1 } else { 0 }) as u32,
        max_x: spec_min(hi_x + 1, width as int) as u32,
        max_y: spec_min(hi_y + 1, height as int) as u32,
    }
}

/// The bounding box of `acc` and `r`, when there is an `r`.
pub open spec fn merge(acc: DirtyRect, r: Option<DirtyRect>) -> DirtyRect {
    match r {
        Some(b) => DirtyRect {
            min_x: spec_min(acc.min_x as int, b.min_x as int) as u32,
            min_y: spec_min(acc.min_y as int, b.min_y as int) as u32,
            max_x: spec_max(acc.max_x as int, b.max_x as int) as u32,
            max_y: spec_max(acc.max_y as int, b.max_y as int) as u32,
        },
        None => acc,
    }
}

/// The region to redraw: the union of the previous and the current selection boxes, or
/// the whole viewport when a full redraw is pending or the union is empty.
pub open spec fn dirty_region(
    width: u32,
    height: u32,
    full: bool,
    prev: Option<DirtyRect>,
    curr: Option<DirtyRect>,
) -> DirtyRect {
    let empty = DirtyRect { min_x: width, min_y: height, max_x: 0, max_y: 0 };
    let u = merge(merge(empty, prev), curr);
    if full || u.max_x <= u.min_x || u.max_y <= u.min_y {
        full_view(width, height)
    } else {
        u
    }
}

/// The rectangle spanned by two corner points, whatever their order.
pub fn normalize(start: Point, end: Point) -> (r: Rect)
    ensures
        r == normalized(start, end),
        r.x == spec_min(start.x as int, end.x as int),
        r.y == spec_min(start.y as int, end.y as int),
        r.width == spec_abs_diff(start.x as int, end.x as int),
        r.height == spec_abs_diff(start.y as int, end.y as int),
{
    let (x1, y1) = (start.x, start.y);
    let (x2, y2) = (end.x, end.y);
    let x = if x1 <= x2 { x1 } else { x2 };
    let y = if y1 <= y2 { y1 } else { y2 };
    let width: u32 = if x1 >= x2 { (x1 as i64 - x2 as i64) as u32 } else { (x2 as i64 - x1 as i64) as u32 };
    let height: u32 = if y1 >= y2 { (y1 as i64 - y2 as i64) as u32 } else { (y2 as i64 - y1 as i64) as u32 };
    Rect { x, y, width, height }
}

fn clamp_coord(v: i32, hi: u32) -> (r: u32)
    ensures
        r == clamp(v as int, hi as int),
{
    if v < 0 {
        0
    } else if v as i64 > hi as i64 {
        hi
    } else {
        v as u32
    }
}

/// Computes `outlined_box` for a non-empty viewport.
pub fn outline_box(width: u32, height: u32, start: Point, pos: Point) -> (r: DirtyRect)
    requires
        width > 0,
        height > 0,
    ensures
        r == outlined_box(width, height, start, pos),
        r.within(width as int, height as int),
{
    let lo_x = clamp_coord(if start.x <= pos.x { start.x } else { pos.x }, width);
    let hi_x = clamp_coord(if start.x >= pos.x { start.x } else { pos.x }, width);
    let lo_y = clamp_coord(if start.y <= pos.y { start.y } else { pos.y }, height);
    let hi_y = clamp_coord(if start.y >= pos.y { start.y } else { pos.y }, height);
    DirtyRect {
        min_x: lo_x.saturating_sub(1),
        min_y: lo_y.saturating_sub(1),
        max_x: if hi_x < width { hi_x + 1 } else { width },
        max_y: if hi_y < height { hi_y + 1 } else { height },
    }
}

fn merge_into(acc: DirtyRect, r: Option<DirtyRect>) -> (m: DirtyRect)
    ensures
        m == merge(acc, r),
{
    match r {
        Some(b) => DirtyRect {
            min_x: if acc.min_x <= b.min_x { acc.min_x } else { b.min_x },
            min_y: if acc.min_y <= b.min_y { acc.min_y } else { b.min_y },
            max_x: if acc.max_x >= b.max_x { acc.max_x } else { b.max_x },
            max_y: if acc.max_y >= b.max_y { acc.max_y } else { b.max_y },
        },
        None => acc,
    }
}

/// Computes `dirty_region`; with both boxes inside the viewport, so is the result.
pub fn dirty_area(
    width: u32,
    height: u32,
    full: bool,
    prev: Option<DirtyRect>,
    curr: Option<DirtyRect>,
) -> (r: DirtyRect)
    requires
        width > 0,
        height > 0,
        prev matches Some(b) ==> b.within(width as int, height as int),
        curr matches Some(b) ==> b.within(width as int, height as int),
    ensures
        r == dirty_region(width, height, full, prev, curr),
        r.within(width as int, height as int),
{
    let empty = DirtyRect { min_x: width, min_y: height, max_x: 0, max_y: 0 };
    let u = merge_into(merge_into(empty, prev), curr);
    if full || u.max_x <= u.min_x || u.max_y <= u.min_y {
        DirtyRect { min_x: 0, min_y: 0, max_x: width, max_y: height }
    } else {
        u
    }
}

} // verus!
