//! Units, points, rectangles and the conversion from line-local normalized
//! coordinates to device coordinates.
//!
//! Normalized coordinates count `GRID_UNIT` units per unscaled cell. Device
//! coordinates are whatever integer unit the host draws in.

use vstd::prelude::*;

verus! {

/// Normalized units in one cell (one column wide, one row high) at full scale.
pub const GRID_UNIT: u64 = 1024;

/// Largest cell width or height, in device units.
pub const MAX_CELL_SIZE: u64 = 0x1_0000;

/// Largest normalized coordinate that is converted to device units.
pub const MAX_EXTENT: u64 = 0x200_0000_0000;

/// Largest height of a laid-out document, in normalized units. It leaves room below
/// `MAX_EXTENT` for the rows of one more line.
pub const MAX_DOCUMENT_HEIGHT: u64 = 0x100_0000_0000;

/// Largest magnitude of a viewport origin coordinate, in device units.
pub const MAX_ORIGIN: i64 = 0x1000_0000_0000_0000;

/// Largest column index, row count or byte offset within one line.
pub const MAX_LINE_SPAN: usize = 0x10_0000;

#[derive(Clone, Copy, Debug, PartialEq, Eq, Structural)]
pub struct Point {
    pub x: i64,
    pub y: i64,
}

/// An axis-aligned rectangle in device units, given by its top-left corner and its size.
#[derive(Clone, Copy, Debug, PartialEq, Eq, Structural)]
pub struct Rect {
    pub x: i64,
    pub y: i64,
    pub width: i64,
    pub height: i64,
}

impl Rect {
    /// The x coordinate just past the right edge.
    pub open spec fn spec_right(self) -> int {
        self.x + self.width
    }

    /// The y coordinate just past the bottom edge.
    pub open spec fn spec_bottom(self) -> int {
        self.y + self.height
    }
}

/// Cell size and viewport origin: all that is needed to place a normalized
/// coordinate on the device.
#[derive(Clone, Copy, Debug, PartialEq, Eq, Structural)]
pub struct Metrics {
    /// Width of one unscaled cell, in device units.
    pub cell_width: u64,
    /// Height of one unscaled cell, in device units.
    pub cell_height: u64,
    /// Device position of the document's top-left corner.
    pub origin: Point,
    /// Width of carets and indent guides, in device units.
    pub stroke_width: u64,
}

/// Device length of `g` normalized units along an axis whose cell measures `cell` device units,
/// rounded down.
pub open spec fn spec_scale(g: int, cell: int) -> int {
    (g * cell) / (GRID_UNIT as int)
}

/// `spec_scale` never decreases when the normalized length grows.
pub proof fn lemma_scale_monotonic(g1: int, g2: int, cell: int)
    requires
        0 <= g1 <= g2,
        0 <= cell,
    ensures
        0 <= spec_scale(g1, cell) <= spec_scale(g2, cell),
{
    assert(0 <= g1 * cell <= g2 * cell) by (nonlinear_arith)
        requires
            0 <= g1 <= g2,
            0 <= cell,
    ;
}

/// `spec_scale` stays within the product of the two bounds.
pub(crate) proof fn lemma_scale_bound(g: int, cell: int)
    requires
        0 <= g <= MAX_EXTENT,
        0 <= cell <= MAX_CELL_SIZE,
    ensures
        0 <= g * cell <= MAX_EXTENT * MAX_CELL_SIZE,
        0 <= spec_scale(g, cell) <= MAX_EXTENT * 64,
{
    assert(0 <= g * cell <= 0x200_0000_0000 * 0x1_0000) by (nonlinear_arith)
        requires
            0 <= g <= 0x200_0000_0000,
            0 <= cell <= 0x1_0000,
    ;
}

impl Metrics {
    /// Cell sizes are positive and, like the origin and the stroke width, small enough that no
    /// conversion overflows.
    pub open spec fn wf(self) -> bool {
        &&& 1 <= self.cell_width <= MAX_CELL_SIZE
        &&& 1 <= self.cell_height <= MAX_CELL_SIZE
        &&& -MAX_ORIGIN <= self.origin.x <= MAX_ORIGIN
        &&& -MAX_ORIGIN <= self.origin.y <= MAX_ORIGIN
        &&& self.stroke_width <= MAX_CELL_SIZE
    }

    /// Device x of the normalized x coordinate `gx`.
    pub open spec fn spec_device_x(self, gx: int) -> int {
        self.origin.x + spec_scale(gx, self.cell_width as int)
    }

    /// Device y of the normalized y coordinate `gy`.
    pub open spec fn spec_device_y(self, gy: int) -> int {
        self.origin.y + spec_scale(gy, self.cell_height as int)
    }

    /// Whether the metrics are well formed.
    pub fn is_valid(&self) -> (ok: bool)
        ensures
            ok == self.wf(),
    {
        1 <= self.cell_width && self.cell_width <= MAX_CELL_SIZE && 1 <= self.cell_height
            && self.cell_height <= MAX_CELL_SIZE && -MAX_ORIGIN <= self.origin.x && self.origin.x
            <= MAX_ORIGIN && -MAX_ORIGIN <= self.origin.y && self.origin.y <= MAX_ORIGIN
            && self.stroke_width <= MAX_CELL_SIZE
    }

    /// Device x of the normalized x coordinate `gx`.
    pub fn device_x(&self, gx: u64) -> (x: i64)
        requires
            self.wf(),
            gx <= MAX_EXTENT,
        ensures
            x == self.spec_device_x(gx as int),
    {
        proof {
            lemma_scale_bound(gx as int, self.cell_width as int);
        }
        let scaled: u64 = gx * self.cell_width / GRID_UNIT;
        self.origin.x + (scaled as i64)
    }

    /// Device y of the normalized y coordinate `gy`.
    pub fn device_y(&self, gy: u64) -> (y: i64)
        requires
            self.wf(),
            gy <= MAX_EXTENT,
        ensures
            y == self.spec_device_y(gy as int),
    {
        proof {
            lemma_scale_bound(gy as int, self.cell_height as int);
        }
        let scaled: u64 = gy * self.cell_height / GRID_UNIT;
        self.origin.y + (scaled as i64)
    }

    /// The device rectangle whose corners are the normalized points `(left, top)` and
    /// `(right, bottom)`.
    pub open spec fn spec_device_rect(self, left: int, top: int, right: int, bottom: int) -> Rect {
        Rect {
            x: self.spec_device_x(left) as i64,
            y: self.spec_device_y(top) as i64,
            width: (self.spec_device_x(right) - self.spec_device_x(left)) as i64,
            height: (self.spec_device_y(bottom) - self.spec_device_y(top)) as i64,
        }
    }

    /// The device rectangle whose corners are the normalized points `(left, top)` and
    /// `(right, bottom)`. Its edges are the device images of the four coordinates, so
    /// rectangles that share a normalized edge share the device edge too.
    pub fn device_rect(&self, left: u64, top: u64, right: u64, bottom: u64) -> (r: Rect)
        requires
            self.wf(),
            left <= MAX_EXTENT,
            top <= MAX_EXTENT,
            right <= MAX_EXTENT,
            bottom <= MAX_EXTENT,
        ensures
            r == self.spec_device_rect(left as int, top as int, right as int, bottom as int),
            r.x == self.spec_device_x(left as int),
            r.y == self.spec_device_y(top as int),
            r.spec_right() == self.spec_device_x(right as int),
            r.spec_bottom() == self.spec_device_y(bottom as int),
    {
        proof {
            lemma_scale_bound(left as int, self.cell_width as int);
            lemma_scale_bound(right as int, self.cell_width as int);
            lemma_scale_bound(top as int, self.cell_height as int);
            lemma_scale_bound(bottom as int, self.cell_height as int);
        }
        let x0 = self.device_x(left);
        let x1 = self.device_x(right);
        let y0 = self.device_y(top);
        let y1 = self.device_y(bottom);
        Rect { x: x0, y: y0, width: x1 - x0, height: y1 - y0 }
    }

    /// A vertical stroke (caret or indent guide) at the normalized point `(gx, top)` reaching
    /// down to `bottom`.
    pub open spec fn spec_stroke(self, gx: int, top: int, bottom: int) -> Rect {
        Rect {
            x: self.spec_device_x(gx) as i64,
            y: self.spec_device_y(top) as i64,
            width: self.stroke_width as i64,
            height: (self.spec_device_y(bottom) - self.spec_device_y(top)) as i64,
        }
    }

    /// A vertical stroke (caret or indent guide) at the normalized point `(gx, top)` reaching
    /// down to `bottom`.
    pub fn stroke(&self, gx: u64, top: u64, bottom: u64) -> (r: Rect)
        requires
            self.wf(),
            gx <= MAX_EXTENT,
            top <= MAX_EXTENT,
            bottom <= MAX_EXTENT,
        ensures
            r == self.spec_stroke(gx as int, top as int, bottom as int),
    {
        proof {
            lemma_scale_bound(gx as int, self.cell_width as int);
            lemma_scale_bound(top as int, self.cell_height as int);
            lemma_scale_bound(bottom as int, self.cell_height as int);
        }
        let x0 = self.device_x(gx);
        let y0 = self.device_y(top);
        let y1 = self.device_y(bottom);
        Rect { x: x0, y: y0, width: self.stroke_width as i64, height: y1 - y0 }
    }
}

/// The normalized coordinate of a point `distance` device units past the document origin,
/// along an axis whose cell measures `cell` device units: rounded down and kept within
/// `[-1, MAX_EXTENT]`. Against the normalized coordinates of a layout, which are whole
/// numbers between 0 and `MAX_EXTENT`, it compares as the exact quotient does.
pub open spec fn spec_normalized_floor(distance: int, cell: int) -> int {
    if distance < 0 {
        -1
    } else if distance * GRID_UNIT / cell > MAX_EXTENT {
        MAX_EXTENT as int
    } else {
        distance * GRID_UNIT / cell
    }
}

/// The normalized coordinate of a point `distance` device units past the document origin,
/// rounded down and kept within `[-1, MAX_EXTENT]`.
pub fn normalized_floor(distance: i128, cell: u64) -> (n: i64)
    requires
        1 <= cell,
        -0x1_0000_0000_0000_0000 <= distance <= 0x1_0000_0000_0000_0000,
    ensures
        n == spec_normalized_floor(distance as int, cell as int),
        -1 <= n <= MAX_EXTENT,
{
    if distance < 0 {
        -1
    } else {
        assert(GRID_UNIT == 1024);
        let n: u128 = (distance as u128) * 1024 / (cell as u128);
        if n > MAX_EXTENT as u128 {
            MAX_EXTENT as i64
        } else {
            n as i64
        }
    }
}

} // verus!
