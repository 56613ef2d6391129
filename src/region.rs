//! Point, rectangle and circle regions and the pairwise intersection test.
use vstd::prelude::*;

verus! {

/// Fixed-point steps in one world unit (and time ticks in one second).
pub const UNIT: i64 = 1_000_000;

/// Largest magnitude of a coordinate, and largest extent of a region.
pub const COORD_LIMIT: i64 = 1_000_000_000_000;

/// Two points closer than this on both axes count as the same point (0.001 units).
pub const POINT_DELTA: i64 = 1_000;

pub open spec fn sq(v: int) -> int {
    v * v
}

pub open spec fn in_coord_range(v: int) -> bool {
    -COORD_LIMIT <= v <= COORD_LIMIT
}

pub open spec fn in_extent_range(v: int) -> bool {
    0 <= v <= COORD_LIMIT
}

#[derive(Debug, Clone, Copy, PartialEq, Eq, Structural)]
pub struct PointData {
    pub x: i64,
    pub y: i64,
}

impl PointData {
    pub open spec fn valid(self) -> bool {
        in_coord_range(self.x as int) && in_coord_range(self.y as int)
    }

    pub fn new(x: i64, y: i64) -> (r: Self)
        ensures
            r == (PointData { x, y }),
    {
        Self { x, y }
    }
}

/// An axis-aligned rectangle with corner `(x, y)`, width `w` and height `h`.
#[derive(Debug, Clone, Copy, PartialEq, Eq, Structural)]
pub struct RectangleData {
    pub x: i64,
    pub y: i64,
    pub w: i64,
    pub h: i64,
}

impl RectangleData {
    pub open spec fn valid(self) -> bool {
        &&& in_coord_range(self.x as int)
        &&& in_coord_range(self.y as int)
        &&& in_extent_range(self.w as int)
        &&& in_extent_range(self.h as int)
        &&& in_coord_range(self.x + self.w)
        &&& in_coord_range(self.y + self.h)
    }

    /// `self` lies inside `outer`.
    pub open spec fn within(self, outer: RectangleData) -> bool {
        outer.x <= self.x && self.x + self.w <= outer.x + outer.w && outer.y <= self.y && self.y
            + self.h <= outer.y + outer.h
    }

    pub fn new(x: i64, y: i64, w: i64, h: i64) -> (r: Self)
        ensures
            r == (RectangleData { x, y, w, h }),
    {
        Self { x, y, w, h }
    }
}

#[derive(Debug, Clone, Copy, PartialEq, Eq, Structural)]
pub struct CircleData {
    pub x: i64,
    pub y: i64,
    pub r: i64,
}

impl CircleData {
    pub open spec fn valid(self) -> bool {
        in_coord_range(self.x as int) && in_coord_range(self.y as int) && in_extent_range(
            self.r as int,
        )
    }

    pub fn new(x: i64, y: i64, r: i64) -> (c: Self)
        ensures
            c == (CircleData { x, y, r }),
    {
        Self { x, y, r }
    }
}

#[derive(Debug, Clone, Copy, PartialEq, Eq, Structural)]
pub enum Region {
    Point(PointData),
    Rectangle(RectangleData),
    Circle(CircleData),
}

impl Region {
    pub open spec fn valid(self) -> bool {
        match self {
            Region::Point(p) => p.valid(),
            Region::Rectangle(r) => r.valid(),
            Region::Circle(c) => c.valid(),
        }
    }
}

// ---------------------------------------------------------------------------
// The predicates, over mathematical integers.
pub open spec fn approx_eq_spec(a: int, b: int) -> bool {
    a - POINT_DELTA < b && a + POINT_DELTA > b
}

pub open spec fn point_point_spec(p: PointData, q: PointData) -> bool {
    approx_eq_spec(p.x as int, q.x as int) && approx_eq_spec(p.y as int, q.y as int)
}

pub open spec fn circle_circle_spec(c1: CircleData, c2: CircleData) -> bool {
    sq(c2.x - c1.x) + sq(c2.y - c1.y) <= sq(c1.r + c2.r)
}

pub open spec fn rect_rect_spec(r1: RectangleData, r2: RectangleData) -> bool {
    !(r1.x + r1.w < r2.x || r2.x + r2.w < r1.x || r1.y + r1.h < r2.y || r2.y + r2.h < r1.y)
}

pub open spec fn point_circle_spec(p: PointData, c: CircleData) -> bool {
    sq(p.x - c.x) + sq(p.y - c.y) <= sq(c.r as int)
}

pub open spec fn point_rect_spec(p: PointData, r: RectangleData) -> bool {
    p.x >= r.x && p.y >= r.y && p.x <= r.x + r.w && p.y <= r.y + r.h
}

pub open spec fn max3(a: int, b: int, c: int) -> int {
    if a >= b && a >= c {
        a
    } else if b >= c {
        b
    } else {
        c
    }
}

/// Distance along the x axis from the circle's center to the rectangle.
pub open spec fn gap_x(r: RectangleData, c: CircleData) -> int {
    max3(0, r.x - c.x, c.x - (r.x + r.w))
}

/// Distance along the y axis from the circle's center to the rectangle.
pub open spec fn gap_y(r: RectangleData, c: CircleData) -> int {
    max3(0, r.y - c.y, c.y - (r.y + r.h))
}

/// The circle's center is within its radius of the nearest point of the rectangle.
pub open spec fn rect_circle_spec(r: RectangleData, c: CircleData) -> bool {
    sq(gap_x(r, c)) + sq(gap_y(r, c)) <= sq(c.r as int)
}

pub open spec fn intersects_spec(a: Region, b: Region) -> bool {
    match (a, b) {
        (Region::Point(p), Region::Point(q)) => point_point_spec(p, q),
        (Region::Point(p), Region::Rectangle(r)) => point_rect_spec(p, r),
        (Region::Point(p), Region::Circle(c)) => point_circle_spec(p, c),
        (Region::Rectangle(r), Region::Point(p)) => point_rect_spec(p, r),
        (Region::Rectangle(r1), Region::Rectangle(r2)) => rect_rect_spec(r1, r2),
        (Region::Rectangle(r), Region::Circle(c)) => rect_circle_spec(r, c),
        (Region::Circle(c), Region::Point(p)) => point_circle_spec(p, c),
        (Region::Circle(c), Region::Rectangle(r)) => rect_circle_spec(r, c),
        (Region::Circle(c1), Region::Circle(c2)) => circle_circle_spec(c1, c2),
    }
}

/// A value that occupies a region of the plane.
pub trait HasRegion {
    spec fn region_of(&self) -> Region;

    fn get_region(&self) -> (r: Region)
        ensures
            r == self.region_of(),
    ;
}

impl HasRegion for PointData {
    open spec fn region_of(&self) -> Region {
        Region::Point(*self)
    }

    fn get_region(&self) -> (r: Region) {
        Region::Point(*self)
    }
}

impl HasRegion for RectangleData {
    open spec fn region_of(&self) -> Region {
        Region::Rectangle(*self)
    }

    fn get_region(&self) -> (r: Region) {
        Region::Rectangle(*self)
    }
}

impl HasRegion for CircleData {
    open spec fn region_of(&self) -> Region {
        Region::Circle(*self)
    }

    fn get_region(&self) -> (r: Region) {
        Region::Circle(*self)
    }
}

impl HasRegion for Region {
    open spec fn region_of(&self) -> Region {
        *self
    }

    fn get_region(&self) -> (r: Region) {
        *self
    }
}

impl Region {
    /// Whether this region and `h`'s region meet.
    pub fn intersects<H: HasRegion>(&self, h: &H) -> (r: bool)
        requires
            self.valid(),
            h.region_of().valid(),
        ensures
            r == intersects_spec(*self, h.region_of()),
    {
        let other = h.get_region();
        match self {
            Region::Point(a) => match other {
                Region::Point(b) => point_intersects_point(a, &b),
                Region::Rectangle(b) => point_intersects_rectangle(a, &b),
                Region::Circle(b) => point_intersects_circle(a, &b),
            },
            Region::Rectangle(a) => match other {
                Region::Point(b) => rectangle_intersects_point(a, &b),
                Region::Rectangle(b) => rectangle_intersects_rectangle(a, &b),
                Region::Circle(b) => rectangle_intersects_circle(a, &b),
            },
            Region::Circle(a) => match other {
                Region::Point(b) => circle_intersects_point(a, &b),
                Region::Rectangle(b) => circle_intersects_rectangle(a, &b),
                Region::Circle(b) => circle_intersects_circle(a, &b),
            },
        }
    }

    pub fn new_rect(x: i64, y: i64, w: i64, h: i64) -> (r: Self)
        ensures
            r == Region::Rectangle(RectangleData { x, y, w, h }),
    {
        Region::Rectangle(RectangleData::new(x, y, w, h))
    }

    pub fn new_point(x: i64, y: i64) -> (r: Self)
        ensures
            r == Region::Point(PointData { x, y }),
    {
        Region::Point(PointData::new(x, y))
    }

    pub fn new_circle(x: i64, y: i64, r: i64) -> (c: Self)
        ensures
            c == Region::Circle(CircleData { x, y, r }),
    {
        Region::Circle(CircleData::new(x, y, r))
    }
}

// ---------------------------------------------------------------------------
// Executable predicates.
pub fn approx_eq(v1: i64, v2: i64) -> (r: bool)
    requires
        in_coord_range(v1 as int),
        in_coord_range(v2 as int),
    ensures
        r == approx_eq_spec(v1 as int, v2 as int),
{
    v1 - POINT_DELTA < v2 && v1 + POINT_DELTA > v2
}

pub fn point_intersects_point(p1: &PointData, p2: &PointData) -> (r: bool)
    requires
        p1.valid(),
        p2.valid(),
    ensures
        r == point_point_spec(*p1, *p2),
{
    approx_eq(p1.x, p2.x) && approx_eq(p1.y, p2.y)
}

pub fn circle_intersects_circle(c1: &CircleData, c2: &CircleData) -> (r: bool)
    requires
        c1.valid(),
        c2.valid(),
    ensures
        r == circle_circle_spec(*c1, *c2),
{
    let dx = c2.x as i128 - c1.x as i128;
    let dy = c2.y as i128 - c1.y as i128;
    let rr = c1.r as i128 + c2.r as i128;
    proof {
        lemma_sq_bound(dx as int, 2 * COORD_LIMIT);
        lemma_sq_bound(dy as int, 2 * COORD_LIMIT);
        lemma_sq_bound(rr as int, 2 * COORD_LIMIT);
    }
    dx * dx + dy * dy <= rr * rr
}

pub fn rectangle_intersects_rectangle(r1: &RectangleData, r2: &RectangleData) -> (r: bool)
    requires
        r1.valid(),
        r2.valid(),
    ensures
        r == rect_rect_spec(*r1, *r2),
{
    !(r1.x + r1.w < r2.x || r2.x + r2.w < r1.x || r1.y + r1.h < r2.y || r2.y + r2.h < r1.y)
}

pub fn point_intersects_circle(p: &PointData, c: &CircleData) -> (r: bool)
    requires
        p.valid(),
        c.valid(),
    ensures
        r == point_circle_spec(*p, *c),
{
    let dx = p.x as i128 - c.x as i128;
    let dy = p.y as i128 - c.y as i128;
    let rr = c.r as i128;
    proof {
        lemma_sq_bound(dx as int, 2 * COORD_LIMIT);
        lemma_sq_bound(dy as int, 2 * COORD_LIMIT);
        lemma_sq_bound(rr as int, 2 * COORD_LIMIT);
    }
    dx * dx + dy * dy <= rr * rr
}

pub fn circle_intersects_point(c: &CircleData, p: &PointData) -> (r: bool)
    requires
        p.valid(),
        c.valid(),
    ensures
        r == point_circle_spec(*p, *c),
{
    point_intersects_circle(p, c)
}

pub fn point_intersects_rectangle(p: &PointData, r: &RectangleData) -> (b: bool)
    requires
        p.valid(),
        r.valid(),
    ensures
        b == point_rect_spec(*p, *r),
{
    p.x >= r.x && p.y >= r.y && p.x <= r.x + r.w && p.y <= r.y + r.h
}

pub fn rectangle_intersects_point(r: &RectangleData, p: &PointData) -> (b: bool)
    requires
        p.valid(),
        r.valid(),
    ensures
        b == point_rect_spec(*p, *r),
{
    point_intersects_rectangle(p, r)
}

/// Three stages: far from the rectangle on an axis, within its extent on an
/// axis, or near one of its corners. Lengths are doubled so that the
/// rectangle's center stays on the integer grid.
pub fn rectangle_intersects_circle(r: &RectangleData, c: &CircleData) -> (b: bool)
    requires
        r.valid(),
        c.valid(),
    ensures
        b == rect_circle_spec(*r, *c),
{
    let ddx = 2 * c.x as i128 - 2 * r.x as i128 - r.w as i128;
    let ddy = 2 * c.y as i128 - 2 * r.y as i128 - r.h as i128;
    let dx = if ddx < 0 { -ddx } else { ddx };
    let dy = if ddy < 0 { -ddy } else { ddy };
    let w = r.w as i128;
    let h = r.h as i128;
    let rad = 2 * c.r as i128;
    proof {
        lemma_rect_circle_stages(*r, *c);
    }
    if dx > w + rad || dy > h + rad {
        return false;
    }
    if dx <= w || dy <= h {
        return true;
    }
    proof {
        lemma_sq_bound((dx - w) as int, 2 * COORD_LIMIT);
        lemma_sq_bound((dy - h) as int, 2 * COORD_LIMIT);
        lemma_sq_bound(rad as int, 2 * COORD_LIMIT);
    }
    (dx - w) * (dx - w) + (dy - h) * (dy - h) <= rad * rad
}

pub fn circle_intersects_rectangle(c: &CircleData, r: &RectangleData) -> (b: bool)
    requires
        r.valid(),
        c.valid(),
    ensures
        b == rect_circle_spec(*r, *c),
{
    rectangle_intersects_circle(r, c)
}

// ---------------------------------------------------------------------------
// Arithmetic facts.
pub proof fn lemma_sq_bound(v: int, bound: int)
    requires
        -bound <= v <= bound,
    ensures
        0 <= sq(v) <= bound * bound,
{
    if v >= 0 {
        assert(v * v <= bound * bound) by (nonlinear_arith)
            requires
                0 <= v <= bound,
        ;
    } else {
        assert(v * v <= bound * bound) by (nonlinear_arith)
            requires
                0 < -v <= bound,
        ;
    }
    assert(v * v >= 0) by (nonlinear_arith);
}

pub proof fn lemma_sq_monotone(a: int, b: int)
    requires
        0 <= a <= b,
    ensures
        sq(a) <= sq(b),
{
    assert(a * a <= b * b) by (nonlinear_arith)
        requires
            0 <= a <= b,
    ;
}

/// The three stages computed by `rectangle_intersects_circle` agree with
/// `rect_circle_spec`, with every length doubled.
proof fn lemma_rect_circle_stages(r: RectangleData, c: CircleData)
    requires
        r.valid(),
        c.valid(),
    ensures
        ({
            let ddx = 2 * c.x - 2 * r.x - r.w;
            let ddy = 2 * c.y - 2 * r.y - r.h;
            let dx = if ddx < 0 { -ddx } else { ddx };
            let dy = if ddy < 0 { -ddy } else { ddy };
            let rad = 2 * c.r;
            &&& (dx > r.w + rad || dy > r.h + rad) ==> !rect_circle_spec(r, c)
            &&& !(dx > r.w + rad || dy > r.h + rad) && (dx <= r.w || dy <= r.h) ==> rect_circle_spec(r, c)
            &&& !(dx <= r.w || dy <= r.h) ==> (rect_circle_spec(r, c) <==> sq(dx - r.w) + sq(dy - r.h) <= sq(rad))
            &&& -4 * COORD_LIMIT <= dx - r.w <= 4 * COORD_LIMIT
            &&& -4 * COORD_LIMIT <= dy - r.h <= 4 * COORD_LIMIT
        }),
{
    let ddx = 2 * c.x - 2 * r.x - r.w;
    let ddy = 2 * c.y - 2 * r.y - r.h;
    let dx = if ddx < 0 { -ddx } else { ddx };
    let dy = if ddy < 0 { -ddy } else { ddy };
    let rad = 2 * c.r;
    let gx = gap_x(r, c);
    let gy = gap_y(r, c);
    // Twice the gap on each axis.
    assert(2 * gx == if dx > r.w { dx - r.w } else { 0 });
    assert(2 * gy == if dy > r.h { dy - r.h } else { 0 });
    assert(sq(2 * gx) == 4 * sq(gx)) by (nonlinear_arith);
    assert(sq(2 * gy) == 4 * sq(gy)) by (nonlinear_arith);
    assert(sq(2 * (c.r as int)) == 4 * sq(c.r as int)) by (nonlinear_arith);
    lemma_sq_bound(gx, 2 * COORD_LIMIT + 1);
    lemma_sq_bound(gy, 2 * COORD_LIMIT + 1);
    if dx > r.w + rad {
        lemma_strict_sq(c.r as int, gx);
    } else if dy > r.h + rad {
        lemma_strict_sq(c.r as int, gy);
    } else if dx <= r.w {
        lemma_sq_monotone(gy, c.r as int);
    } else if dy <= r.h {
        lemma_sq_monotone(gx, c.r as int);
    }
}

proof fn lemma_strict_sq(a: int, b: int)
    requires
        0 <= a < b,
    ensures
        sq(a) < sq(b),
{
    assert(a * a < b * b) by (nonlinear_arith)
        requires
            0 <= a < b,
    ;
}

// ---------------------------------------------------------------------------
// Laws.
/// Intersection does not depend on the order of its arguments.
pub proof fn lemma_intersects_symmetric(a: Region, b: Region)
    ensures
        intersects_spec(a, b) == intersects_spec(b, a),
{
    if let (Region::Circle(c1), Region::Circle(c2)) = (a, b) {
        assert(sq(c2.x - c1.x) == sq(c1.x - c2.x)) by (nonlinear_arith);
        assert(sq(c2.y - c1.y) == sq(c1.y - c2.y)) by (nonlinear_arith);
        assert(c1.r + c2.r == c2.r + c1.r);
    }
}

/// A circle meets a point exactly when the point's squared distance from the
/// center is at most the squared radius.
pub proof fn lemma_circle_meets_point(c: CircleData, p: PointData)
    ensures
        intersects_spec(Region::Circle(c), Region::Point(p)) <==> sq(p.x - c.x) + sq(p.y - c.y)
            <= sq(c.r as int),
        intersects_spec(Region::Point(p), Region::Circle(c)) <==> sq(p.x - c.x) + sq(p.y - c.y)
            <= sq(c.r as int),
{
}

/// A region that meets a rectangle meets every rectangle around it.
pub proof fn lemma_meets_enclosing(v: Region, inner: RectangleData, outer: RectangleData)
    requires
        inner.within(outer),
        intersects_spec(v, Region::Rectangle(inner)),
    ensures
        intersects_spec(v, Region::Rectangle(outer)),
{
    if let Region::Circle(c) = v {
        lemma_sq_monotone(gap_x(outer, c), gap_x(inner, c));
        lemma_sq_monotone(gap_y(outer, c), gap_y(inner, c));
    }
}

/// The region covers the grid point `p`.
pub open spec fn contains_point(r: Region, p: PointData) -> bool {
    match r {
        Region::Point(q) => q == p,
        Region::Rectangle(rect) => point_rect_spec(p, rect),
        Region::Circle(c) => point_circle_spec(p, c),
    }
}

/// A circle that covers a point of a rectangle meets the rectangle.
proof fn lemma_circle_point_rect(c: CircleData, p: PointData, r: RectangleData)
    requires
        point_circle_spec(p, c),
        point_rect_spec(p, r),
    ensures
        rect_circle_spec(r, c),
{
    let gx = gap_x(r, c);
    let gy = gap_y(r, c);
    let ax = if p.x >= c.x { p.x - c.x } else { c.x - p.x };
    let ay = if p.y >= c.y { p.y - c.y } else { c.y - p.y };
    assert(0 <= gx <= ax);
    assert(0 <= gy <= ay);
    lemma_sq_monotone(gx, ax as int);
    lemma_sq_monotone(gy, ay as int);
    assert(sq(ax as int) == sq(p.x - c.x)) by (nonlinear_arith)
        requires
            ax == p.x - c.x || ax == c.x - p.x,
    ;
    assert(sq(ay as int) == sq(p.y - c.y)) by (nonlinear_arith)
        requires
            ay == p.y - c.y || ay == c.y - p.y,
    ;
}

proof fn lemma_lagrange(a1: int, a2: int, b1: int, b2: int)
    ensures
        (a1 * a1 + a2 * a2) * (b1 * b1 + b2 * b2) == (a1 * b1 + a2 * b2) * (a1 * b1 + a2 * b2) + (
        a1 * b2 - a2 * b1) * (a1 * b2 - a2 * b1),
{
    assert((a1 * a1 + a2 * a2) * (b1 * b1 + b2 * b2) == (a1 * a1) * (b1 * b1) + (a1 * a1) * (b2
        * b2) + (a2 * a2) * (b1 * b1) + (a2 * a2) * (b2 * b2)) by (nonlinear_arith);
    assert((a1 * b1 + a2 * b2) * (a1 * b1 + a2 * b2) == (a1 * b1) * (a1 * b1) + 2 * ((a1 * b1) * (
    a2 * b2)) + (a2 * b2) * (a2 * b2)) by (nonlinear_arith);
    assert((a1 * b2 - a2 * b1) * (a1 * b2 - a2 * b1) == (a1 * b2) * (a1 * b2) - 2 * ((a1 * b2) * (
    a2 * b1)) + (a2 * b1) * (a2 * b1)) by (nonlinear_arith);
    assert((a1 * a1) * (b1 * b1) == (a1 * b1) * (a1 * b1)) by (nonlinear_arith);
    assert((a1 * a1) * (b2 * b2) == (a1 * b2) * (a1 * b2)) by (nonlinear_arith);
    assert((a2 * a2) * (b1 * b1) == (a2 * b1) * (a2 * b1)) by (nonlinear_arith);
    assert((a2 * a2) * (b2 * b2) == (a2 * b2) * (a2 * b2)) by (nonlinear_arith);
    assert((a1 * b1) * (a2 * b2) == (a1 * b2) * (a2 * b1)) by (nonlinear_arith);
}

/// Two circles that cover a common point meet.
proof fn lemma_circles_sharing_point(c1: CircleData, c2: CircleData, p: PointData)
    requires
        c1.valid(),
        c2.valid(),
        point_circle_spec(p, c1),
        point_circle_spec(p, c2),
    ensures
        circle_circle_spec(c1, c2),
{
    let a1 = p.x - c1.x;
    let a2 = p.y - c1.y;
    let b1 = p.x - c2.x;
    let b2 = p.y - c2.y;
    let r1 = c1.r as int;
    let r2 = c2.r as int;
    let dot = a1 * b1 + a2 * b2;
    let la = a1 * a1 + a2 * a2;
    let lb = b1 * b1 + b2 * b2;
    assert(la <= r1 * r1);
    assert(lb <= r2 * r2);
    assert(la >= 0 && lb >= 0) by (nonlinear_arith)
        requires
            la == a1 * a1 + a2 * a2,
            lb == b1 * b1 + b2 * b2,
    ;
    // Cauchy-Schwarz, by Lagrange's identity.
    let cross = a1 * b2 - a2 * b1;
    lemma_lagrange(a1, a2, b1, b2);
    assert(cross * cross >= 0) by (nonlinear_arith);
    let rr = r1 * r2;
    assert(la * lb <= rr * rr) by (nonlinear_arith)
        requires
            0 <= la <= r1 * r1,
            0 <= lb <= r2 * r2,
            rr == r1 * r2,
    ;
    assert(rr >= 0) by (nonlinear_arith)
        requires
            r1 >= 0,
            r2 >= 0,
            rr == r1 * r2,
    ;
    assert(-dot <= rr) by (nonlinear_arith)
        requires
            dot * dot <= rr * rr,
            rr >= 0,
    ;
    assert(sq(c2.x - c1.x) + sq(c2.y - c1.y) == (a1 * a1 + a2 * a2) + (b1 * b1 + b2 * b2) - 2 * dot)
        by (nonlinear_arith)
        requires
            a1 == p.x - c1.x,
            a2 == p.y - c1.y,
            b1 == p.x - c2.x,
            b2 == p.y - c2.y,
            dot == a1 * b1 + a2 * b2,
    ;
    assert(sq(r1 + r2) == r1 * r1 + r2 * r2 + 2 * rr) by (nonlinear_arith)
        requires
            rr == r1 * r2,
    ;
}

/// A region that covers a point of a rectangle meets the rectangle.
pub proof fn lemma_covering_meets_rect(v: Region, p: PointData, r: RectangleData)
    requires
        contains_point(v, p),
        point_rect_spec(p, r),
    ensures
        intersects_spec(v, Region::Rectangle(r)),
{
    if let Region::Circle(c) = v {
        lemma_circle_point_rect(c, p, r);
    }
}

/// Two regions that cover a common grid point meet.
pub proof fn lemma_sharing_point_meets(a: Region, b: Region, p: PointData)
    requires
        a.valid(),
        b.valid(),
        contains_point(a, p),
        contains_point(b, p),
    ensures
        intersects_spec(a, b),
{
    match (a, b) {
        (Region::Rectangle(r), Region::Circle(c)) => lemma_circle_point_rect(c, p, r),
        (Region::Circle(c), Region::Rectangle(r)) => lemma_circle_point_rect(c, p, r),
        (Region::Circle(c1), Region::Circle(c2)) => lemma_circles_sharing_point(c1, c2, p),
        _ => {},
    }
}

} // verus!
