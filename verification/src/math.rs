use vstd::prelude::*;

verus! {

/// Number of fixed-point subunits in one world pixel.
///
/// World geometry is stored in whole pixels (`Point`) where the entity data
/// model needs it, and in subpixels (`Vec2D`) where the simulation bridge
/// needs fractional values: velocities, accelerations, sensor geometry.
/// Every fraction the bridge uses (a 0.01-pixel collider margin, a 0.8 edge
/// scale, half-pixel offsets) is an exact multiple of 1/1000 pixel.
pub const SUBPIXELS_PER_PIXEL: i64 = 1000;

/// XY world coordinates in whole pixels, +x to the right and +y downwards.
#[derive(Debug, Clone, Copy, PartialEq, Eq, Structural)]
pub struct Point {
    pub x: i32,
    pub y: i32,
}

/// A 2D vector in subpixel units (see `SUBPIXELS_PER_PIXEL`).
#[derive(Debug, Clone, Copy, PartialEq, Eq, Structural)]
pub struct Vec2D {
    pub x: i64,
    pub y: i64,
}

/// Truncating division of a subpixel coordinate by `SUBPIXELS_PER_PIXEL`:
/// rounds toward zero, the way a float-to-integer cast does.
pub open spec fn subpixels_to_pixels(v: int) -> int {
    if v >= 0 {
        v / (SUBPIXELS_PER_PIXEL as int)
    } else {
        -((-v) / (SUBPIXELS_PER_PIXEL as int))
    }
}

/// A pair of subpixel coordinates as a whole-pixel point: truncated toward
/// zero and saturated at the `i32` range, the way `Vec2D::to_point` casts.
pub open spec fn point_from_subpixels(x: int, y: int) -> Point {
    Point {
        x: clamp_int(subpixels_to_pixels(x), i32::MIN as int, i32::MAX as int) as i32,
        y: clamp_int(subpixels_to_pixels(y), i32::MIN as int, i32::MAX as int) as i32,
    }
}

/// `v` clamped into the inclusive range `lo..=hi`.
pub open spec fn clamp_int(v: int, lo: int, hi: int) -> int {
    if v < lo {
        lo
    } else if v > hi {
        hi
    } else {
        v
    }
}

impl Point {
    pub fn new(x: i32, y: i32) -> (p: Point)
        ensures
            p == (Point { x, y }),
    {
        Point { x, y }
    }

    /// The point moved by `(dx, dy)` pixels.
    pub fn offset(self, dx: i32, dy: i32) -> (p: Point)
        requires
            i32::MIN <= self.x + dx <= i32::MAX,
            i32::MIN <= self.y + dy <= i32::MAX,
        ensures
            p.x == self.x + dx,
            p.y == self.y + dy,
    {
        Point { x: self.x + dx, y: self.y + dy }
    }
}

impl Vec2D {
    pub fn new(x: i64, y: i64) -> (v: Vec2D)
        ensures
            v == (Vec2D { x, y }),
    {
        Vec2D { x, y }
    }

    /// The zero vector.
    pub fn zeros() -> (v: Vec2D)
        ensures
            v == (Vec2D { x: 0, y: 0 }),
    {
        Vec2D { x: 0, y: 0 }
    }
}

/// Conversion from whole-pixel coordinates into subpixel vectors.
pub trait ToVec2D {
    fn to_vec2d(self) -> Vec2D;
}

impl ToVec2D for Point {
    /// Exact: one pixel becomes `SUBPIXELS_PER_PIXEL` subpixels.
    fn to_vec2d(self) -> (v: Vec2D)
        ensures
            v.x == self.x * (SUBPIXELS_PER_PIXEL as int),
            v.y == self.y * (SUBPIXELS_PER_PIXEL as int),
    {
        Vec2D { x: (self.x as i64) * SUBPIXELS_PER_PIXEL, y: (self.y as i64) * SUBPIXELS_PER_PIXEL }
    }
}

/// Conversion from subpixel vectors back to whole-pixel coordinates.
pub trait ToPoint {
    fn to_point(self) -> Point;
}

impl ToPoint for Vec2D {
    /// Truncates toward zero and saturates at the `i32` range, the way the
    /// simulation's continuous coordinates are cast back into pixel points.
    fn to_point(self) -> (p: Point)
        ensures
            p.x == clamp_int(subpixels_to_pixels(self.x as int), i32::MIN as int, i32::MAX as int),
            p.y == clamp_int(subpixels_to_pixels(self.y as int), i32::MIN as int, i32::MAX as int),
    {
        Point { x: saturate_i32(div_trunc_1000(self.x)), y: saturate_i32(div_trunc_1000(self.y)) }
    }
}

/// Division by `SUBPIXELS_PER_PIXEL` that rounds toward zero.
fn div_trunc_1000(v: i64) -> (r: i64)
    ensures
        r == subpixels_to_pixels(v as int),
{
    if v >= 0 {
        v / SUBPIXELS_PER_PIXEL
    } else {
        // Work on the magnitude as a `u64` so that even `i64::MIN` is handled.
        let magnitude: u64 = ((-(v + 1)) as u64) + 1;
        let quotient: u64 = magnitude / (SUBPIXELS_PER_PIXEL as u64);
        assert(magnitude == -(v as int));
        assert(quotient == (-(v as int)) / (SUBPIXELS_PER_PIXEL as int));
        -(quotient as i64)
    }
}

/// `v` clamped into the `i32` range.
fn saturate_i32(v: i64) -> (r: i32)
    ensures
        r == clamp_int(v as int, i32::MIN as int, i32::MAX as int),
{
    if v < i32::MIN as i64 {
        i32::MIN
    } else if v > i32::MAX as i64 {
        i32::MAX
    } else {
        v as i32
    }
}

/// An axis-aligned rectangle: top-left corner in pixels, size in pixels.
#[derive(Debug, Clone, Copy, PartialEq, Eq, Structural)]
pub struct Rect {
    pub x: i32,
    pub y: i32,
    pub width: u32,
    pub height: u32,
}

impl Rect {
    pub fn new(x: i32, y: i32, width: u32, height: u32) -> (r: Rect)
        ensures
            r == (Rect { x, y, width, height }),
    {
        Rect { x, y, width, height }
    }

    /// The rectangle of the given size whose center is `center`.
    ///
    /// With integer coordinates the top-left corner is `center - size / 2`
    /// rounded toward zero, so `r.center()` gives back `center` exactly.
    pub fn from_center(center: Point, width: u32, height: u32) -> (r: Rect)
        requires
            width <= i32::MAX,
            height <= i32::MAX,
            i32::MIN <= center.x - width / 2,
            i32::MIN <= center.y - height / 2,
        ensures
            r.x == center.x - width / 2,
            r.y == center.y - height / 2,
            r.width == width,
            r.height == height,
    {
        Rect { x: center.x - (width as i32) / 2, y: center.y - (height as i32) / 2, width, height }
    }

    /// The center of the rectangle, rounded toward the top-left.
    pub fn center(&self) -> (c: Point)
        requires
            self.width <= i32::MAX,
            self.height <= i32::MAX,
            self.x + self.width / 2 <= i32::MAX,
            self.y + self.height / 2 <= i32::MAX,
        ensures
            c.x == self.x + self.width / 2,
            c.y == self.y + self.height / 2,
    {
        Point { x: self.x + (self.width as i32) / 2, y: self.y + (self.height as i32) / 2 }
    }

    /// Moves the rectangle (keeping its size) so that its center is `center`.
    pub fn center_on(&mut self, center: Point)
        requires
            old(self).width <= i32::MAX,
            old(self).height <= i32::MAX,
            i32::MIN <= center.x - old(self).width / 2,
            i32::MIN <= center.y - old(self).height / 2,
        ensures
            final(self).x == center.x - old(self).width / 2,
            final(self).y == center.y - old(self).height / 2,
            final(self).width == old(self).width,
            final(self).height == old(self).height,
    {
        self.x = center.x - (self.width as i32) / 2;
        self.y = center.y - (self.height as i32) / 2;
    }
}

} // verus!
