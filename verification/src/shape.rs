//! Game entities and their axis-aligned bounding-box geometry.

use vstd::prelude::*;

verus! {

/// Subpixel units per pixel. All positions and sizes are in subpixels.
pub const SCALE: i64 = 1000;

/// Largest size any shape may have, in subpixels (64 pixels).
pub const MAX_SIZE: i64 = 64000;

/// Largest speed any shape may have, in subpixels per millisecond.
pub const MAX_SPEED: i64 = 1048576;

/// Bound on coordinate magnitudes of well-formed shapes, in subpixels.
pub const POS_LIMIT: i64 = 4398046511104;

/// Bound on the coordinates a rectangle may carry into `Rect::overlaps`.
pub const GEOM_LIMIT: i64 = 1125899906842624;

/// A moving square/circle used as the player, a bullet, or an obstacle.
///
/// `size` is the edge length (square) or diameter (circle), `speed` the
/// magnitude of per-millisecond vertical movement (direction fixed by role),
/// `(x, y)` the center in screen space, and `collided` marks an entity for
/// removal once it has been matched in a collision; it is never reset.
#[derive(Clone, Copy, Debug)]
pub struct Shape {
    pub size: i64,
    pub speed: i64,
    pub x: i64,
    pub y: i64,
    pub collided: bool,
}

/// Mathematical model of a `Shape`, over unbounded integers.
pub struct ShapeModel {
    pub size: int,
    pub speed: int,
    pub x: int,
    pub y: int,
    pub collided: bool,
}

impl View for Shape {
    type V = ShapeModel;

    open spec fn view(&self) -> ShapeModel {
        ShapeModel {
            size: self.size as int,
            speed: self.speed as int,
            x: self.x as int,
            y: self.y as int,
            collided: self.collided,
        }
    }
}

impl ShapeModel {
    /// Geometry of the shape is in range: positive size, coordinates bounded.
    pub open spec fn bounded(self) -> bool {
        &&& 0 < self.size <= MAX_SIZE
        &&& -POS_LIMIT <= self.x <= POS_LIMIT
        &&& -POS_LIMIT <= self.y <= POS_LIMIT
    }

    /// Well-formed shape: bounded geometry and a speed in range.
    pub open spec fn wf(self) -> bool {
        &&& self.bounded()
        &&& 0 <= self.speed <= MAX_SPEED
    }
}

/// An axis-aligned rectangle: top-left corner `(x, y)`, width `w`, height `h`.
#[derive(Clone, Copy, Debug)]
pub struct Rect {
    pub x: i64,
    pub y: i64,
    pub w: i64,
    pub h: i64,
}

/// Mathematical model of a `Rect`.
pub struct RectModel {
    pub x: int,
    pub y: int,
    pub w: int,
    pub h: int,
}

impl View for Rect {
    type V = RectModel;

    open spec fn view(&self) -> RectModel {
        RectModel { x: self.x as int, y: self.y as int, w: self.w as int, h: self.h as int }
    }
}

/// The bounding box of a shape: centered at `(x, y)` with width and height
/// `size`. The top-left corner rounds toward negative offsets by at most half
/// a subpixel when `size` is odd.
pub open spec fn spec_rect_of(s: ShapeModel) -> RectModel {
    RectModel { x: s.x - s.size / 2, y: s.y - s.size / 2, w: s.size, h: s.size }
}

/// Strict rectangle intersection: the rectangles overlap with non-zero area.
/// Touching edges do not count as overlapping.
pub open spec fn spec_rects_overlap(a: RectModel, b: RectModel) -> bool {
    &&& a.x < b.x + b.w
    &&& b.x < a.x + a.w
    &&& a.y < b.y + b.h
    &&& b.y < a.y + a.h
}

/// Two shapes collide when the size-by-size boxes centered exactly at their
/// centers overlap with non-zero area on both axes; touching edges do not
/// count. Doubling both sides keeps the half-size margins in integers:
/// `|a.x - b.x| < (a.size + b.size) / 2` becomes
/// `2 * |a.x - b.x| < a.size + b.size`, with no rounding.
pub open spec fn spec_shapes_overlap(a: ShapeModel, b: ShapeModel) -> bool {
    &&& 2 * (a.x - b.x) < a.size + b.size
    &&& 2 * (b.x - a.x) < a.size + b.size
    &&& 2 * (a.y - b.y) < a.size + b.size
    &&& 2 * (b.y - a.y) < a.size + b.size
}

impl Rect {
    /// Strict intersection test between two rectangles.
    pub fn overlaps(&self, other: &Rect) -> (r: bool)
        requires
            -GEOM_LIMIT <= self.x <= GEOM_LIMIT,
            -GEOM_LIMIT <= self.y <= GEOM_LIMIT,
            0 <= self.w <= GEOM_LIMIT,
            0 <= self.h <= GEOM_LIMIT,
            -GEOM_LIMIT <= other.x <= GEOM_LIMIT,
            -GEOM_LIMIT <= other.y <= GEOM_LIMIT,
            0 <= other.w <= GEOM_LIMIT,
            0 <= other.h <= GEOM_LIMIT,
        ensures
            r == spec_rects_overlap(self@, other@),
    {
        self.x < other.x + other.w && other.x < self.x + self.w && self.y < other.y + other.h
            && other.y < self.y + self.h
    }
}

impl Shape {
    /// The shape's axis-aligned bounding box, as drawn: the corner floors by
    /// half a subpixel when `size` is odd. Collision testing does not go
    /// through this box; `collide_with` uses the exact centered criterion.
    pub fn rect(&self) -> (r: Rect)
        requires
            self@.bounded(),
        ensures
            r@ == spec_rect_of(self@),
    {
        Rect { x: self.x - self.size / 2, y: self.y - self.size / 2, w: self.size, h: self.size }
    }

    /// True iff the two shapes' centered bounding boxes strictly overlap on
    /// both axes. Computed over doubled center distances, so odd sizes lose
    /// nothing to rounding.
    pub fn collide_with(&self, other: &Self) -> (r: bool)
        requires
            self@.bounded(),
            other@.bounded(),
        ensures
            r == spec_shapes_overlap(self@, other@),
    {
        let sum = self.size + other.size;
        2 * (self.x - other.x) < sum && 2 * (other.x - self.x) < sum && 2 * (self.y - other.y)
            < sum && 2 * (other.y - self.y) < sum
    }
}

/// The models of a sequence of shapes.
pub open spec fn views_of(v: Seq<Shape>) -> Seq<ShapeModel> {
    v.map_values(|s: Shape| s@)
}

/// Overlap is symmetric: swapping the two shapes never changes the answer.
pub proof fn lemma_overlaps_symmetric(a: ShapeModel, b: ShapeModel)
    ensures
        spec_shapes_overlap(a, b) == spec_shapes_overlap(b, a),
{
}

/// Bounding boxes that share only an edge (a zero-area intersection) do not
/// overlap: the centers being exactly the half-size margins apart along
/// either axis already rules the overlap out.
pub proof fn lemma_edge_touch_no_overlap(a: ShapeModel, b: ShapeModel)
    requires
        2 * (a.x - b.x) == a.size + b.size || 2 * (b.x - a.x) == a.size + b.size || 2 * (a.y - b.y)
            == a.size + b.size || 2 * (b.y - a.y) == a.size + b.size,
    ensures
        !spec_shapes_overlap(a, b),
{
}

} // verus!
