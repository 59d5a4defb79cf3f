//! Shapes, their bounding boxes and the overlap test.
//!
//! Lengths are whole numbers of units, a hundred to the pixel. Times are
//! in milliseconds and speeds in units per second.

use vstd::prelude::*;

verus! {

/// Length units in one pixel.
pub const UNITS_PER_PIXEL: i64 = 100;

/// Largest size a shape may have.
pub const MAX_SIZE: i64 = 1_000_000;

/// Largest speed a shape may have, in units per second.
pub const MAX_SPEED: i64 = 1_000_000_000;

/// Largest magnitude of a coordinate.
pub const MAX_COORD: i64 = 1_000_000_000_000;

/// Longest frame, in milliseconds, that a shape can be moved by in one go.
pub const MAX_FRAME_MS: u64 = 1_000_000;

/// Widest and tallest screen, in units.
pub const MAX_SCREEN: i64 = 1_000_000;

/// The visible area: its top left corner is the origin.
#[derive(Clone, Copy, Debug, PartialEq, Eq, Structural)]
pub struct Screen {
    pub width: i64,
    pub height: i64,
}

impl Screen {
    /// A screen is well formed when neither side is negative or beyond
    /// `MAX_SCREEN`.
    pub open spec fn wf(self) -> bool {
        &&& 0 <= self.width <= MAX_SCREEN
        &&& 0 <= self.height <= MAX_SCREEN
    }

    /// Decides [`Screen::wf`].
    pub fn is_valid(&self) -> (b: bool)
        ensures
            b == self.wf(),
    {
        0 <= self.width && self.width <= MAX_SCREEN && 0 <= self.height && self.height
            <= MAX_SCREEN
    }
}

/// An axis-aligned box. Its edges are measured in half units, so that a
/// box centred on a whole coordinate has exact edges whatever its size.
#[derive(Clone, Copy, Debug, PartialEq, Eq, Structural)]
pub struct Rect {
    pub left: i64,
    pub top: i64,
    pub width: i64,
    pub height: i64,
}

/// A movable square: the ship, an enemy or a bullet.
#[derive(Clone, Copy, Debug, PartialEq, Eq, Structural)]
pub struct Shape {
    /// Centre, in units.
    pub x: i64,
    pub y: i64,
    /// Edge length of the bounding box, in units.
    pub size: i64,
    /// Units travelled per second.
    pub speed: i64,
    /// Colour as `0xRRGGBB`.
    pub color: u32,
    /// Set on a shape that was hit and is about to be removed.
    pub collided: bool,
}

/// The value nearest to `value` that is neither below `min` nor, failing
/// that, above `max`.
pub open spec fn clamped(value: int, min: int, max: int) -> int {
    if value < min {
        min
    } else if value > max {
        max
    } else {
        value
    }
}

/// Distance covered in `dt_ms` milliseconds at `speed` units per second.
pub open spec fn travel_of(speed: int, dt_ms: int) -> int {
    speed * dt_ms / 1000
}

/// The bounding box of a shape: a square of the shape's size around its
/// centre.
pub open spec fn rect_of(s: Shape) -> Rect {
    Rect {
        left: (2 * s.x - s.size) as i64,
        top: (2 * s.y - s.size) as i64,
        width: (2 * s.size) as i64,
        height: (2 * s.size) as i64,
    }
}

/// Whether the bounding boxes of two shapes overlap.
pub open spec fn collides(a: Shape, b: Shape) -> bool {
    rect_of(a).overlaps_spec(rect_of(b))
}

/// Distance between two coordinates.
pub open spec fn distance(a: int, b: int) -> int {
    if a < b {
        b - a
    } else {
        a - b
    }
}

impl Rect {
    /// Two boxes overlap when their interiors meet; boxes that only touch
    /// along an edge do not.
    pub open spec fn overlaps_spec(self, other: Rect) -> bool {
        &&& self.left < other.left + other.width
        &&& other.left < self.left + self.width
        &&& self.top < other.top + other.height
        &&& other.top < self.top + self.height
    }

    /// Tests two boxes for overlap.
    pub fn overlaps(&self, other: &Rect) -> (b: bool)
        ensures
            b == self.overlaps_spec(*other),
    {
        let self_right: i128 = self.left as i128 + self.width as i128;
        let self_bottom: i128 = self.top as i128 + self.height as i128;
        let other_right: i128 = other.left as i128 + other.width as i128;
        let other_bottom: i128 = other.top as i128 + other.height as i128;
        (self.left as i128) < other_right && (other.left as i128) < self_right && (self.top as i128)
            < other_bottom && (other.top as i128) < self_bottom
    }
}

impl Shape {
    /// A shape is well formed when its size is positive and its size,
    /// speed and position lie within the limits above.
    pub open spec fn wf(self) -> bool {
        &&& 0 < self.size <= MAX_SIZE
        &&& 0 <= self.speed <= MAX_SPEED
        &&& -MAX_COORD <= self.x <= MAX_COORD
        &&& -MAX_COORD <= self.y <= MAX_COORD
    }

    /// Decides [`Shape::wf`].
    pub fn is_valid(&self) -> (b: bool)
        ensures
            b == self.wf(),
    {
        0 < self.size && self.size <= MAX_SIZE && 0 <= self.speed && self.speed <= MAX_SPEED
            && -MAX_COORD <= self.x && self.x <= MAX_COORD && -MAX_COORD <= self.y && self.y
            <= MAX_COORD
    }

    /// The bounding box of the shape.
    pub fn rect(&self) -> (r: Rect)
        requires
            self.wf(),
        ensures
            r == rect_of(*self),
            r.left + r.width / 2 == 2 * self.x,
            r.top + r.height / 2 == 2 * self.y,
            r.width == 2 * self.size,
            r.height == 2 * self.size,
    {
        Rect {
            left: 2 * self.x - self.size,
            top: 2 * self.y - self.size,
            width: 2 * self.size,
            height: 2 * self.size,
        }
    }

    /// Whether this shape and `other` overlap.
    pub fn collides_with(&self, other: &Shape) -> (b: bool)
        requires
            self.wf(),
            other.wf(),
        ensures
            b == collides(*self, *other),
            b <==> 2 * distance(self.x as int, other.x as int) < self.size + other.size && 2
                * distance(self.y as int, other.y as int) < self.size + other.size,
    {
        self.rect().overlaps(&other.rect())
    }
}

/// Whether every shape of a sequence is well formed.
pub open spec fn all_wf(shapes: Seq<Shape>) -> bool {
    forall|k: int| 0 <= k < shapes.len() ==> (#[trigger] shapes[k]).wf()
}

/// Whether no shape of a sequence is flagged as hit.
pub open spec fn none_collided(shapes: Seq<Shape>) -> bool {
    forall|k: int| 0 <= k < shapes.len() ==> !(#[trigger] shapes[k]).collided
}

/// Bounds `value` by `min` and `max`, testing `min` first.
pub fn clamp(value: i64, min: i64, max: i64) -> (r: i64)
    ensures
        r == clamped(value as int, min as int, max as int),
{
    if value < min {
        min
    } else if value > max {
        max
    } else {
        value
    }
}

/// Distance covered in `dt_ms` milliseconds at `speed` units per second,
/// rounded down to a whole unit.
pub fn travel(speed: i64, dt_ms: u64) -> (d: i64)
    requires
        0 <= speed <= MAX_SPEED,
        dt_ms <= MAX_FRAME_MS,
    ensures
        d == travel_of(speed as int, dt_ms as int),
        0 <= d <= MAX_COORD,
{
    proof {
        lemma_travel_bounds(speed as int, dt_ms as int);
    }
    let dt: i64 = dt_ms as i64;
    speed * dt / 1000
}

/// What a well-formed shape covers in a frame is never negative and stays
/// within the limit on coordinates.
pub proof fn lemma_travel_bounds(speed: int, dt_ms: int)
    requires
        0 <= speed <= MAX_SPEED,
        0 <= dt_ms <= MAX_FRAME_MS,
    ensures
        0 <= speed * dt_ms <= MAX_SPEED * MAX_FRAME_MS,
        0 <= travel_of(speed, dt_ms) <= MAX_COORD,
{
    assert(0 <= speed * dt_ms <= MAX_SPEED * MAX_FRAME_MS) by (nonlinear_arith)
        requires
            0 <= speed <= MAX_SPEED,
            0 <= dt_ms <= MAX_FRAME_MS,
    ;
}

/// Overlap does not depend on the order of the two shapes.
pub proof fn lemma_collides_symmetric(a: Shape, b: Shape)
    ensures
        collides(a, b) == collides(b, a),
{
}

/// For well-formed shapes, overlap means that the centres are closer than
/// half the sum of the sizes, along both axes.
pub proof fn lemma_collides_by_distance(a: Shape, b: Shape)
    requires
        a.wf(),
        b.wf(),
    ensures
        collides(a, b) <==> 2 * distance(a.x as int, b.x as int) < a.size + b.size && 2
            * distance(a.y as int, b.y as int) < a.size + b.size,
{
}

/// Bounding a value that is already bounded changes nothing, as long as
/// the bounds are in order.
pub proof fn lemma_clamp_idempotent(value: int, min: int, max: int)
    requires
        min <= max,
    ensures
        clamped(clamped(value, min, max), min, max) == clamped(value, min, max),
        min <= clamped(value, min, max) <= max,
{
}

} // verus!
