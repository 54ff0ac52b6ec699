//! Points, triangles and the exact integer geometry used for snapping.
//!
//! Coordinates are millimetres. Distances are compared through their
//! squares, so every comparison is exact.
use vstd::prelude::*;
use vstd::arithmetic::div_mod::{lemma_div_is_ordered, lemma_div_multiples_vanish};
use crate::arith::{
    div_toward_zero, isqrt, le_wide, lemma_abs_lt_of_square_lt, lemma_mul_abs_le, lemma_mul_le_mono,
    lemma_square_nonneg, mul_wide, spec_isqrt,
};

verus! {

/// Strict bound on the coordinates of a mesh vertex (about 537 km).
pub const COORD_LIMIT: i64 = 0x2000_0000;

/// Strict bound on the coordinates of a point sampled from a capture image.
pub const SAMPLE_LIMIT: i64 = 0x8000_0001;

/// Strict bound on the coordinates of a query point on a camera ray.
pub const QUERY_LIMIT: i64 = 0x100_0000_0000;

/// A point, or a vector, with integer millimetre coordinates.
#[derive(Clone, Copy, Debug, PartialEq, Eq, Structural)]
pub struct Point {
    pub x: i64,
    pub y: i64,
    pub z: i64,
}

/// The coordinates of a point as mathematical integers.
pub open spec fn coords(p: Point) -> (int, int, int) {
    (p.x as int, p.y as int, p.z as int)
}

/// Every coordinate of `p` lies strictly between `-limit` and `limit`.
pub open spec fn within(p: Point, limit: int) -> bool {
    -limit < p.x < limit && -limit < p.y < limit && -limit < p.z < limit
}

/// The vector from `b` to `a`.
pub open spec fn diff(a: Point, b: Point) -> (int, int, int) {
    (a.x - b.x, a.y - b.y, a.z - b.z)
}

pub open spec fn dot3(u: (int, int, int), v: (int, int, int)) -> int {
    u.0 * v.0 + u.1 * v.1 + u.2 * v.2
}

pub open spec fn cross3(u: (int, int, int), v: (int, int, int)) -> (int, int, int) {
    (u.1 * v.2 - u.2 * v.1, u.2 * v.0 - u.0 * v.2, u.0 * v.1 - u.1 * v.0)
}

/// The squared distance between two points.
pub open spec fn dist2(a: Point, b: Point) -> int {
    dot3(diff(a, b), diff(a, b))
}

/// The (unnormalised) face normal of the triangle `p0 p1 p2`.
pub open spec fn normal_of(p0: Point, p1: Point, p2: Point) -> (int, int, int) {
    cross3(diff(p1, p0), diff(p2, p0))
}

/// The dot product of two vectors whose components are below 2^62.
pub fn dot_wide(u: (i128, i128, i128), v: (i128, i128, i128)) -> (r: i128)
    requires
        -0x4000_0000_0000_0000 < u.0 < 0x4000_0000_0000_0000,
        -0x4000_0000_0000_0000 < u.1 < 0x4000_0000_0000_0000,
        -0x4000_0000_0000_0000 < u.2 < 0x4000_0000_0000_0000,
        -0x4000_0000_0000_0000 < v.0 < 0x4000_0000_0000_0000,
        -0x4000_0000_0000_0000 < v.1 < 0x4000_0000_0000_0000,
        -0x4000_0000_0000_0000 < v.2 < 0x4000_0000_0000_0000,
    ensures
        r as int == dot3((u.0 as int, u.1 as int, u.2 as int), (v.0 as int, v.1 as int, v.2 as int)),
{
    let ghost l: int = 0x4000_0000_0000_0000int;
    proof {
        lemma_mul_abs_le(u.0 as int, v.0 as int, l, l);
        lemma_mul_abs_le(u.1 as int, v.1 as int, l, l);
        lemma_mul_abs_le(u.2 as int, v.2 as int, l, l);
    }
    u.0 * v.0 + u.1 * v.1 + u.2 * v.2
}

/// The vector from `b` to `a`, widened.
pub fn sub_wide(a: Point, b: Point) -> (r: (i128, i128, i128))
    ensures
        (r.0 as int, r.1 as int, r.2 as int) == diff(a, b),
{
    (a.x as i128 - b.x as i128, a.y as i128 - b.y as i128, a.z as i128 - b.z as i128)
}

/// Whether every coordinate of `p` lies within the vertex coordinate bound.
pub fn in_coord_range(p: Point) -> (r: bool)
    ensures
        r == within(p, COORD_LIMIT as int),
{
    -COORD_LIMIT < p.x && p.x < COORD_LIMIT && -COORD_LIMIT < p.y && p.y < COORD_LIMIT
        && -COORD_LIMIT < p.z && p.z < COORD_LIMIT
}

/// A triangle with its face normal.
#[derive(Clone, Copy, Debug, PartialEq, Eq)]
pub struct Triangle {
    pub p: [Point; 3],
    pub normal: Point,
}

impl Triangle {
    /// Every vertex lies within the vertex coordinate bound and the normal
    /// is the cross product of the two edges leaving the first vertex.
    pub open spec fn wf(self) -> bool {
        &&& within(self.p[0], COORD_LIMIT as int)
        &&& within(self.p[1], COORD_LIMIT as int)
        &&& within(self.p[2], COORD_LIMIT as int)
        &&& coords(self.normal) == normal_of(self.p[0], self.p[1], self.p[2])
    }

    pub fn new(p0: Point, p1: Point, p2: Point) -> (r: Triangle)
        requires
            within(p0, COORD_LIMIT as int),
            within(p1, COORD_LIMIT as int),
            within(p2, COORD_LIMIT as int),
        ensures
            r.p[0] == p0,
            r.p[1] == p1,
            r.p[2] == p2,
            r.wf(),
    {
        let ux: i64 = p1.x - p0.x;
        let uy: i64 = p1.y - p0.y;
        let uz: i64 = p1.z - p0.z;
        let vx: i64 = p2.x - p0.x;
        let vy: i64 = p2.y - p0.y;
        let vz: i64 = p2.z - p0.z;
        let ghost l: int = 0x4000_0000int;
        proof {
            lemma_mul_abs_le(uy as int, vz as int, l, l);
            lemma_mul_abs_le(uz as int, vy as int, l, l);
            lemma_mul_abs_le(uz as int, vx as int, l, l);
            lemma_mul_abs_le(ux as int, vz as int, l, l);
            lemma_mul_abs_le(ux as int, vy as int, l, l);
            lemma_mul_abs_le(uy as int, vx as int, l, l);
        }
        let normal = Point {
            x: uy * vz - uz * vy,
            y: uz * vx - ux * vz,
            z: ux * vy - uy * vx,
        };
        Triangle { p: [p0, p1, p2], normal }
    }

    pub fn from_coords(
        x0: i64,
        y0: i64,
        z0: i64,
        x1: i64,
        y1: i64,
        z1: i64,
        x2: i64,
        y2: i64,
        z2: i64,
    ) -> (r: Triangle)
        requires
            within(Point { x: x0, y: y0, z: z0 }, COORD_LIMIT as int),
            within(Point { x: x1, y: y1, z: z1 }, COORD_LIMIT as int),
            within(Point { x: x2, y: y2, z: z2 }, COORD_LIMIT as int),
        ensures
            r.p[0] == (Point { x: x0, y: y0, z: z0 }),
            r.p[1] == (Point { x: x1, y: y1, z: z1 }),
            r.p[2] == (Point { x: x2, y: y2, z: z2 }),
            r.wf(),
    {
        Triangle::new(
            Point { x: x0, y: y0, z: z0 },
            Point { x: x1, y: y1, z: z1 },
            Point { x: x2, y: y2, z: z2 },
        )
    }
}

/// The angle between two faces with these normals is at least 30 degrees,
/// that is |cos| <= sqrt(3)/2, stated without roots or division. A zero
/// normal has no direction and always passes.
pub open spec fn faces_steep(n1: (int, int, int), n2: (int, int, int)) -> bool {
    4 * (dot3(n1, n2) * dot3(n1, n2)) <= 3 * (dot3(n1, n1) * dot3(n2, n2))
}

/// Strict bound on the components of a face normal.
pub const NORMAL_LIMIT: i64 = 0x4000_0000_0000_0000;

/// The normal of a well-formed triangle has components below 2^61.
pub proof fn lemma_normal_bounded(t: Triangle)
    requires
        t.wf(),
    ensures
        within(t.normal, NORMAL_LIMIT as int),
{
    let u = diff(t.p[1], t.p[0]);
    let v = diff(t.p[2], t.p[0]);
    let l: int = 0x4000_0000int;
    lemma_mul_abs_le(u.1, v.2, l, l);
    lemma_mul_abs_le(u.2, v.1, l, l);
    lemma_mul_abs_le(u.2, v.0, l, l);
    lemma_mul_abs_le(u.0, v.2, l, l);
    lemma_mul_abs_le(u.0, v.1, l, l);
    lemma_mul_abs_le(u.1, v.0, l, l);
}

/// Whether the faces with normals `n_base` and `n_other` meet at an angle
/// of at least 30 degrees.
pub fn face_angle_admits(n_base: Point, n_other: Point) -> (r: bool)
    requires
        within(n_base, NORMAL_LIMIT as int),
        within(n_other, NORMAL_LIMIT as int),
    ensures
        r == faces_steep(coords(n_base), coords(n_other)),
{
    let u: (i128, i128, i128) = (n_base.x as i128, n_base.y as i128, n_base.z as i128);
    let v: (i128, i128, i128) = (n_other.x as i128, n_other.y as i128, n_other.z as i128);
    let ghost l: int = 0x4000_0000_0000_0000int;
    proof {
        lemma_mul_abs_le(u.0 as int, v.0 as int, l, l);
        lemma_mul_abs_le(u.1 as int, v.1 as int, l, l);
        lemma_mul_abs_le(u.2 as int, v.2 as int, l, l);
        lemma_mul_abs_le(u.0 as int, u.0 as int, l, l);
        lemma_mul_abs_le(u.1 as int, u.1 as int, l, l);
        lemma_mul_abs_le(u.2 as int, u.2 as int, l, l);
        lemma_mul_abs_le(v.0 as int, v.0 as int, l, l);
        lemma_mul_abs_le(v.1 as int, v.1 as int, l, l);
        lemma_mul_abs_le(v.2 as int, v.2 as int, l, l);
        lemma_square_nonneg(u.0 as int);
        lemma_square_nonneg(u.1 as int);
        lemma_square_nonneg(u.2 as int);
        lemma_square_nonneg(v.0 as int);
        lemma_square_nonneg(v.1 as int);
        lemma_square_nonneg(v.2 as int);
    }
    let d: i128 = dot_wide(u, v);
    let s1: i128 = dot_wide(u, u);
    let s2: i128 = dot_wide(v, v);
    let d_abs: u128 = if d >= 0 { d as u128 } else { (-d) as u128 };
    let twice: u128 = 2 * d_abs;
    let three_s1: u128 = 3 * (s1 as u128);
    let lhs: (u128, u128) = mul_wide(twice, twice);
    let rhs: (u128, u128) = mul_wide(three_s1, s2 as u128);
    proof {
        let di: int = d as int;
        assert((twice as int) * (twice as int) == 4 * (di * di)) by (nonlinear_arith)
            requires twice as int == 2 * (d_abs as int), d_abs as int == di || d_abs as int == -di;
        assert((three_s1 as int) * (s2 as int) == 3 * ((s1 as int) * (s2 as int))) by (nonlinear_arith)
            requires three_s1 as int == 3 * (s1 as int);
    }
    le_wide(lhs, rhs)
}

/// Strict bound on the components of a ray direction.
pub const DIR_LIMIT: i64 = 0x4000_0000;

/// A camera ray through the cursor: an origin and a direction of any
/// non-zero length.
#[derive(Clone, Copy, Debug, PartialEq, Eq, Structural)]
pub struct Ray {
    pub origin: Point,
    pub direction: Point,
}

impl Ray {
    pub open spec fn wf(self) -> bool {
        &&& within(self.origin, COORD_LIMIT as int)
        &&& within(self.direction, DIR_LIMIT as int)
        &&& !(self.direction.x == 0 && self.direction.y == 0 && self.direction.z == 0)
    }

    pub fn is_valid(&self) -> (r: bool)
        ensures
            r == self.wf(),
    {
        let o: Point = self.origin;
        let d: Point = self.direction;
        -COORD_LIMIT < o.x && o.x < COORD_LIMIT && -COORD_LIMIT < o.y && o.y < COORD_LIMIT
            && -COORD_LIMIT < o.z && o.z < COORD_LIMIT && -DIR_LIMIT < d.x && d.x < DIR_LIMIT
            && -DIR_LIMIT < d.y && d.y < DIR_LIMIT && -DIR_LIMIT < d.z && d.z < DIR_LIMIT
            && !(d.x == 0 && d.y == 0 && d.z == 0)
    }
}

/// The point on `ray` as far from its origin as `sample` is: the origin
/// plus the direction scaled to that distance. Lengths are integer square
/// roots and each coordinate step is rounded toward zero.
pub open spec fn spec_query_point(ray: Ray, sample: Point) -> (int, int, int) {
    let dist = spec_isqrt(dist2(ray.origin, sample));
    let len = spec_isqrt(dot3(coords(ray.direction), coords(ray.direction)));
    (
        ray.origin.x + div_toward_zero(ray.direction.x * dist, len),
        ray.origin.y + div_toward_zero(ray.direction.y * dist, len),
        ray.origin.z + div_toward_zero(ray.direction.z * dist, len),
    )
}

/// `dir * dist / len` rounded toward zero, for `|dir| <= len`.
fn scale_component(dir: i64, dist: u128, len: u128) -> (r: i64)
    requires
        -(len as int) <= dir <= len as int,
        0 < len < 0x1_0000_0000_0000_0000,
        dist < 0x2_0000_0000,
    ensures
        r as int == div_toward_zero(dir as int * dist as int, len as int),
        -(dist as int) <= r <= dist as int,
{
    let mag: u128 = if dir >= 0 { dir as u128 } else { (-(dir as i128)) as u128 };
    let ghost mi: int = mag as int;
    let ghost di: int = dist as int;
    let ghost li: int = len as int;
    proof {
        lemma_mul_le_mono(mi, di, li, di);
        lemma_mul_le_mono(li, di, 0x1_0000_0000_0000_0000int, 0x2_0000_0000int);
        lemma_div_is_ordered(mi * di, li * di, li);
        lemma_div_multiples_vanish(di, li);
        assert(li * di == di * li) by (nonlinear_arith);
        if dir < 0 {
            assert((dir as int) * di == -(mi * di)) by (nonlinear_arith)
                requires mi == -(dir as int);
        }
    }
    let q: u128 = (mag * dist) / len;
    if dir >= 0 {
        q as i64
    } else {
        -(q as i64)
    }
}

/// Reprojects a captured sample onto the camera ray at the sample's depth.
pub fn ray_query_point(ray: &Ray, sample: Point) -> (r: Point)
    requires
        ray.wf(),
        within(sample, SAMPLE_LIMIT as int),
    ensures
        coords(r) == spec_query_point(*ray, sample),
        within(r, QUERY_LIMIT as int),
{
    let dv: (i128, i128, i128) = sub_wide(ray.origin, sample);
    let dir: (i128, i128, i128) = (ray.direction.x as i128, ray.direction.y as i128, ray.direction.z as i128);
    proof {
        lemma_square_nonneg(dv.0 as int);
        lemma_square_nonneg(dv.1 as int);
        lemma_square_nonneg(dv.2 as int);
        lemma_square_nonneg(dir.0 as int);
        lemma_square_nonneg(dir.1 as int);
        lemma_square_nonneg(dir.2 as int);
        lemma_mul_abs_le(dv.0 as int, dv.0 as int, 0x1_0000_0000int, 0x1_0000_0000int);
        lemma_mul_abs_le(dv.1 as int, dv.1 as int, 0x1_0000_0000int, 0x1_0000_0000int);
        lemma_mul_abs_le(dv.2 as int, dv.2 as int, 0x1_0000_0000int, 0x1_0000_0000int);
    }
    let d2: i128 = dot_wide(dv, dv);
    let n2: i128 = dot_wide(dir, dir);
    let dist: u128 = isqrt(d2 as u128);
    let len: u128 = isqrt(n2 as u128);
    proof {
        let dd: int = dist as int;
        let ll: int = len as int;
        if dd >= 0x2_0000_0000int {
            lemma_mul_le_mono(0x2_0000_0000int, 0x2_0000_0000int, dd, dd);
        }
        let (x, y, z) = (dir.0 as int, dir.1 as int, dir.2 as int);
        if x != 0 {
            lemma_mul_le_mono(1, 1, if x > 0 { x } else { -x }, if x > 0 { x } else { -x });
            assert((-x) * (-x) == x * x) by (nonlinear_arith);
        }
        if y != 0 {
            lemma_mul_le_mono(1, 1, if y > 0 { y } else { -y }, if y > 0 { y } else { -y });
            assert((-y) * (-y) == y * y) by (nonlinear_arith);
        }
        if z != 0 {
            lemma_mul_le_mono(1, 1, if z > 0 { z } else { -z }, if z > 0 { z } else { -z });
            assert((-z) * (-z) == z * z) by (nonlinear_arith);
        }
        assert(n2 >= 1);
        if ll == 0 {
            assert((ll + 1) * (ll + 1) == 1);
        }
        lemma_abs_lt_of_square_lt(x, ll + 1);
        lemma_abs_lt_of_square_lt(y, ll + 1);
        lemma_abs_lt_of_square_lt(z, ll + 1);
    }
    let sx: i64 = scale_component(ray.direction.x, dist, len);
    let sy: i64 = scale_component(ray.direction.y, dist, len);
    let sz: i64 = scale_component(ray.direction.z, dist, len);
    Point { x: ray.origin.x + sx, y: ray.origin.y + sy, z: ray.origin.z + sz }
}

/// The squared distance between two integer triples.
pub open spec fn sq_dist(u: (int, int, int), v: (int, int, int)) -> int {
    (u.0 - v.0) * (u.0 - v.0) + (u.1 - v.1) * (u.1 - v.1) + (u.2 - v.2) * (u.2 - v.2)
}

/// `(b - a) . (p - a)`: the projection of `p` on the line `ab`, scaled by
/// the squared length of `ab`.
pub open spec fn edge_num(p: Point, a: Point, b: Point) -> int {
    dot3(diff(b, a), diff(p, a))
}

/// The squared length of the segment `ab`.
pub open spec fn edge_den(a: Point, b: Point) -> int {
    dot3(diff(b, a), diff(b, a))
}

/// The projection of `p` on the line `ab`, each coordinate rounded toward
/// `a`'s.
pub open spec fn spec_projection(p: Point, a: Point, b: Point) -> (int, int, int) {
    let v = diff(b, a);
    let num = edge_num(p, a, b);
    let den = edge_den(a, b);
    (
        a.x + div_toward_zero(v.0 * num, den),
        a.y + div_toward_zero(v.1 * num, den),
        a.z + div_toward_zero(v.2 * num, den),
    )
}

pub open spec fn sub3(u: (int, int, int), v: (int, int, int)) -> (int, int, int) {
    (u.0 - v.0, u.1 - v.1, u.2 - v.2)
}

/// The dot product of the vectors from `a` and from `b` to the projection
/// of `p` on the line `ab`: negative exactly when the projection lies
/// strictly between the endpoints.
pub open spec fn endpoint_dot(p: Point, a: Point, b: Point) -> int {
    let q = spec_projection(p, a, b);
    dot3(sub3(q, coords(a)), sub3(q, coords(b)))
}

/// The projection of `p` on the line `ab`, its squared distance to `p` and
/// the endpoint dot product, for a segment with a length.
pub open spec fn spec_project(p: Point, a: Point, b: Point) -> Option<((int, int, int), int, int)> {
    if edge_den(a, b) > 0 {
        Some((spec_projection(p, a, b), sq_dist(coords(p), spec_projection(p, a, b)), endpoint_dot(p, a, b)))
    } else {
        None
    }
}

/// The edge candidate of `p` on the segment `ab`: the projection and its
/// squared distance, when the endpoint dot product is negative.
pub open spec fn spec_edge(p: Point, a: Point, b: Point) -> Option<((int, int, int), int)> {
    match spec_project(p, a, b) {
        Some((q, d, k)) => if k < 0 {
            Some((q, d))
        } else {
            None
        },
        None => None,
    }
}

/// A projection result as mathematical values.
pub open spec fn projection_view(r: Option<(Point, u128, i128)>) -> Option<((int, int, int), int, int)> {
    match r {
        Some((q, d, k)) => Some((coords(q), d as int, k as int)),
        None => None,
    }
}

/// An edge candidate as mathematical values.
pub open spec fn edge_view(e: Option<(Point, u128)>) -> Option<((int, int, int), int)> {
    match e {
        Some((q, d)) => Some((coords(q), d as int)),
        None => None,
    }
}

pub open spec fn abs(x: int) -> int {
    if x < 0 {
        -x
    } else {
        x
    }
}

proof fn lemma_abs_mul(x: int, y: int)
    ensures
        abs(x * y) == abs(x) * abs(y),
{
    if x < 0 && y < 0 {
        assert(x * y == (-x) * (-y)) by (nonlinear_arith);
        assert((-x) * (-y) >= 0) by (nonlinear_arith) requires x < 0, y < 0;
    } else if x < 0 {
        assert(x * y == -((-x) * y)) by (nonlinear_arith);
        assert((-x) * y >= 0) by (nonlinear_arith) requires x < 0, y >= 0;
    } else if y < 0 {
        assert(x * y == -(x * (-y))) by (nonlinear_arith);
        assert(x * (-y) >= 0) by (nonlinear_arith) requires x >= 0, y < 0;
    } else {
        assert(x * y >= 0) by (nonlinear_arith) requires x >= 0, y >= 0;
    }
}

/// `|x| |y| <= x^2 + y^2`.
proof fn lemma_cross_le(x: int, y: int)
    ensures
        abs(x) * abs(y) <= x * x + y * y,
        abs(x) * abs(x) == x * x,
{
    lemma_abs_mul(x, x);
    lemma_abs_mul(y, y);
    let (u, w) = (abs(x), abs(y));
    assert(u * w <= u * u + w * w) by (nonlinear_arith) requires u >= 0, w >= 0;
    assert(abs(x) * abs(x) == x * x) by {
        lemma_abs_mul(x, x);
        assert(x * x >= 0) by (nonlinear_arith);
    }
    assert(abs(y) * abs(y) == y * y) by {
        assert(y * y >= 0) by (nonlinear_arith);
    }
}

/// The offset of the projection from `a` along one axis is at most
/// `3 * bound` when every coordinate of `p - a` is at most `bound`.
proof fn lemma_offset_bound(v: (int, int, int), w: (int, int, int), bound: int, i: int)
    requires
        0 <= i < 3,
        bound >= 0,
        abs(w.0) <= bound,
        abs(w.1) <= bound,
        abs(w.2) <= bound,
    ensures
        abs((if i == 0 { v.0 } else if i == 1 { v.1 } else { v.2 }) * dot3(v, w)) <= 3 * bound * dot3(v, v),
{
    let vi = if i == 0 {
        v.0
    } else if i == 1 {
        v.1
    } else {
        v.2
    };
    let n = dot3(v, w);
    let d = dot3(v, v);
    let (a0, a1, a2) = (abs(v.0), abs(v.1), abs(v.2));
    lemma_abs_mul(v.0, w.0);
    lemma_abs_mul(v.1, w.1);
    lemma_abs_mul(v.2, w.2);
    lemma_mul_le_mono(a0, abs(w.0), a0, bound);
    lemma_mul_le_mono(a1, abs(w.1), a1, bound);
    lemma_mul_le_mono(a2, abs(w.2), a2, bound);
    assert(abs(n) <= a0 * bound + a1 * bound + a2 * bound);
    lemma_cross_le(vi, v.0);
    lemma_cross_le(vi, v.1);
    lemma_cross_le(vi, v.2);
    lemma_cross_le(v.0, v.0);
    lemma_cross_le(v.1, v.1);
    lemma_cross_le(v.2, v.2);
    let ai = abs(vi);
    assert(ai * a0 <= d && ai * a1 <= d && ai * a2 <= d) by {
        lemma_square_nonneg(v.0);
        lemma_square_nonneg(v.1);
        lemma_square_nonneg(v.2);
        if i == 0 {
            assert(ai * a0 == v.0 * v.0);
        } else if i == 1 {
            assert(ai * a1 == v.1 * v.1);
        } else {
            assert(ai * a2 == v.2 * v.2);
        }
    }
    lemma_abs_mul(vi, n);
    lemma_mul_le_mono(ai, abs(n), ai, a0 * bound + a1 * bound + a2 * bound);
    assert(ai * (a0 * bound + a1 * bound + a2 * bound) == (ai * a0 + ai * a1 + ai * a2) * bound)
        by (nonlinear_arith);
    lemma_mul_le_mono(ai * a0 + ai * a1 + ai * a2, bound, 3 * d, bound);
    assert((3 * d) * bound == 3 * bound * d) by (nonlinear_arith);
}

/// `v * num / den` rounded toward zero, when that is at most 2^44.
fn scale_by(v: i128, num: i128, den: i128) -> (r: i64)
    requires
        -0x8000_0000 < v < 0x8000_0000,
        -0x8_0000_0000_0000_0000_0000 < num < 0x8_0000_0000_0000_0000_0000,
        0 < den,
        abs(v * num) <= 0x1000_0000_0000 * den,
    ensures
        r as int == div_toward_zero(v as int * num as int, den as int),
        -0x1000_0000_0000 <= r <= 0x1000_0000_0000,
{
    let ghost vn: int = v as int * num as int;
    proof {
        lemma_abs_mul(v as int, num as int);
        lemma_mul_le_mono(abs(v as int), abs(num as int), 0x8000_0000int, 0x8_0000_0000_0000_0000_0000int);
    }
    let mv: u128 = if v >= 0 { v as u128 } else { (-v) as u128 };
    let mn: u128 = if num >= 0 { num as u128 } else { (-num) as u128 };
    let mag: u128 = mv * mn;
    proof {
        lemma_div_is_ordered(mag as int, 0x1000_0000_0000 * den, den as int);
        lemma_div_multiples_vanish(0x1000_0000_0000int, den as int);
        assert(den * 0x1000_0000_0000int == 0x1000_0000_0000 * den);
    }
    let q: u128 = mag / (den as u128);
    if (v >= 0) == (num >= 0) {
        proof {
            assert(mag == abs(vn));
            assert(vn >= 0) by (nonlinear_arith)
                requires vn == v as int * num as int, (v >= 0) == (num >= 0);
        }
        q as i64
    } else {
        proof {
            assert(mag == abs(vn));
            assert(vn <= 0) by (nonlinear_arith)
                requires vn == v as int * num as int, (v >= 0) != (num >= 0);
        }
        -(q as i64)
    }
}

/// Projects `p` on the line through `a` and `b`. Gives the projected point,
/// its squared distance to `p` and the endpoint dot product, for every
/// segment with a length; nothing for `a == b`.
pub fn project_point_to_line(p: Point, a: Point, b: Point) -> (r: Option<(Point, u128, i128)>)
    requires
        within(a, COORD_LIMIT as int),
        within(b, COORD_LIMIT as int),
        within(p, QUERY_LIMIT as int),
    ensures
        projection_view(r) == spec_project(p, a, b),
{
    let lv: (i128, i128, i128) = sub_wide(b, a);
    let pv: (i128, i128, i128) = sub_wide(p, a);
    let den: i128 = dot_wide(lv, lv);
    let num: i128 = dot_wide(lv, pv);
    let ghost bound: int = 0x400_0000_0000int;
    let ghost v: (int, int, int) = (lv.0 as int, lv.1 as int, lv.2 as int);
    let ghost w: (int, int, int) = (pv.0 as int, pv.1 as int, pv.2 as int);
    proof {
        lemma_mul_abs_le(lv.0 as int, lv.0 as int, 0x4000_0000int, 0x4000_0000int);
        lemma_mul_abs_le(lv.1 as int, lv.1 as int, 0x4000_0000int, 0x4000_0000int);
        lemma_mul_abs_le(lv.2 as int, lv.2 as int, 0x4000_0000int, 0x4000_0000int);
        lemma_mul_abs_le(lv.0 as int, pv.0 as int, 0x4000_0000int, bound);
        lemma_mul_abs_le(lv.1 as int, pv.1 as int, 0x4000_0000int, bound);
        lemma_mul_abs_le(lv.2 as int, pv.2 as int, 0x4000_0000int, bound);
    }
    if den <= 0 {
        return None;
    }
    proof {
        lemma_offset_bound(v, w, bound, 0);
        lemma_offset_bound(v, w, bound, 1);
        lemma_offset_bound(v, w, bound, 2);
    }
    let cx: i64 = scale_by(lv.0, num, den);
    let cy: i64 = scale_by(lv.1, num, den);
    let cz: i64 = scale_by(lv.2, num, den);
    let q = Point { x: a.x + cx, y: a.y + cy, z: a.z + cz };
    let qa: (i128, i128, i128) = (cx as i128, cy as i128, cz as i128);
    let qb: (i128, i128, i128) = sub_wide(q, b);
    let dq: (i128, i128, i128) = sub_wide(p, q);
    proof {
        lemma_square_nonneg(dq.0 as int);
        lemma_square_nonneg(dq.1 as int);
        lemma_square_nonneg(dq.2 as int);
    }
    let d: i128 = dot_wide(dq, dq);
    let k: i128 = dot_wide(qa, qb);
    Some((q, d as u128, k))
}

/// A projection that is an edge candidate: a negative endpoint dot product.
fn edge_candidate(r: Option<(Point, u128, i128)>) -> (e: Option<(Point, u128)>)
    ensures
        projection_view(r) matches Some((q, d, k)) ==> edge_view(e) == (if k < 0 {
            Some((q, d))
        } else {
            None::<((int, int, int), int)>
        }),
        r is None ==> e is None,
{
    match r {
        Some((q, d, k)) => if k < 0 {
            Some((q, d))
        } else {
            None
        },
        None => None,
    }
}

/// An edge is accepted as a candidate only with a negative endpoint dot
/// product: the accepted point is the projection, at its distance.
pub proof fn lemma_edge_candidate_has_negative_dot(p: Point, a: Point, b: Point)
    ensures
        spec_edge(p, a, b) matches Some((q, d)) ==> spec_project(p, a, b) matches Some((q2, d2, k)) && q2 == q
            && d2 == d && k < 0,
        spec_project(p, a, b) matches Some((_, _, k)) && k >= 0 ==> spec_edge(p, a, b) is None,
{
}

/// The vertex of `a b c` nearest to `p`; of equally near vertices the first.
pub open spec fn nearest_vertex_pts(p: Point, a: Point, b: Point, c: Point) -> Point {
    let d0 = dist2(p, a);
    let d1 = dist2(p, b);
    let d2 = dist2(p, c);
    if d0 <= d1 && d0 <= d2 {
        a
    } else if d1 <= d2 {
        b
    } else {
        c
    }
}

/// The vertex of `t` nearest to `p`; of equally near vertices the first.
pub open spec fn nearest_vertex(p: Point, t: Triangle) -> Point {
    nearest_vertex_pts(p, t.p[0], t.p[1], t.p[2])
}

/// Of two edge candidates the strictly nearer; the current one on a tie.
pub open spec fn closer_edge(
    cur: Option<((int, int, int), int)>,
    cand: Option<((int, int, int), int)>,
) -> Option<((int, int, int), int)> {
    match cand {
        None => cur,
        Some(c) => match cur {
            None => cand,
            Some(k) => if c.1 < k.1 {
                cand
            } else {
                cur
            },
        },
    }
}

/// The nearest edge candidate of `p` on the edges `ab`, `bc`, `ca`.
pub open spec fn nearest_edge_pts(p: Point, a: Point, b: Point, c: Point) -> Option<((int, int, int), int)> {
    closer_edge(closer_edge(spec_edge(p, a, b), spec_edge(p, b, c)), spec_edge(p, c, a))
}

/// The nearest edge candidate of `p` on the edges of `t`.
pub open spec fn nearest_edge(p: Point, t: Triangle) -> Option<((int, int, int), int)> {
    nearest_edge_pts(p, t.p[0], t.p[1], t.p[2])
}

/// The snap features of one triangle near a query point.
#[derive(Clone, Copy, Debug, PartialEq, Eq)]
pub struct Nearest {
    pub vertex: Point,
    pub vertex_dist2: u128,
    pub edge: Option<(Point, u128)>,
}

fn vertex_dist2(p: Point, v: Point) -> (r: u128)
    requires
        within(p, QUERY_LIMIT as int),
        within(v, COORD_LIMIT as int),
    ensures
        r as int == dist2(p, v),
{
    let dv: (i128, i128, i128) = sub_wide(p, v);
    proof {
        lemma_square_nonneg(dv.0 as int);
        lemma_square_nonneg(dv.1 as int);
        lemma_square_nonneg(dv.2 as int);
    }
    dot_wide(dv, dv) as u128
}

fn closer_edge_exec(cur: Option<(Point, u128)>, cand: Option<(Point, u128)>) -> (r: Option<(Point, u128)>)
    ensures
        edge_view(r) == closer_edge(edge_view(cur), edge_view(cand)),
{
    match cand {
        None => cur,
        Some(c) => match cur {
            None => cand,
            Some(k) => if c.1 < k.1 {
                cand
            } else {
                cur
            },
        },
    }
}

/// The nearest vertex of `tri` to `p`, and the nearest point inside one of
/// its edges when there is one.
pub fn find_nearest(p: Point, tri: &Triangle) -> (r: Nearest)
    requires
        tri.wf(),
        within(p, QUERY_LIMIT as int),
    ensures
        r.vertex == nearest_vertex(p, *tri),
        r.vertex_dist2 as int == dist2(p, r.vertex),
        edge_view(r.edge) == nearest_edge(p, *tri),
{
    let a: Point = tri.p[0];
    let b: Point = tri.p[1];
    let c: Point = tri.p[2];
    let e_ab = edge_candidate(project_point_to_line(p, a, b));
    let e_bc = edge_candidate(project_point_to_line(p, b, c));
    let e_ca = edge_candidate(project_point_to_line(p, c, a));
    let edge = closer_edge_exec(closer_edge_exec(e_ab, e_bc), e_ca);
    let d_a: u128 = vertex_dist2(p, a);
    let d_b: u128 = vertex_dist2(p, b);
    let d_c: u128 = vertex_dist2(p, c);
    let (vertex, vertex_dist2) = if d_a <= d_b && d_a <= d_c {
        (a, d_a)
    } else if d_b <= d_c {
        (b, d_b)
    } else {
        (c, d_c)
    };
    Nearest { vertex, vertex_dist2, edge }
}

/// `(q, d)` is the projection of `p` on the line `uw` and its squared
/// distance, with a negative endpoint dot product.
pub open spec fn projects_inside(p: Point, u: Point, w: Point, q: (int, int, int), d: int) -> bool {
    spec_project(p, u, w) matches Some((q2, d2, k)) && q2 == q && d2 == d && k < 0
}

/// The edge candidate of a triangle is the projection on one of its three
/// edges whose endpoint dot product is negative: no edge with a dot product
/// of zero or more is ever the candidate.
pub proof fn lemma_nearest_edge_is_inside(p: Point, a: Point, b: Point, c: Point)
    ensures
        nearest_edge_pts(p, a, b, c) matches Some((q, d)) ==> projects_inside(p, a, b, q, d) || projects_inside(
            p,
            b,
            c,
            q,
            d,
        ) || projects_inside(p, c, a, q, d),
{
    lemma_edge_candidate_has_negative_dot(p, a, b);
    lemma_edge_candidate_has_negative_dot(p, b, c);
    lemma_edge_candidate_has_negative_dot(p, c, a);
}

proof fn lemma_axis_outside(v: int, num: int, den: int)
    requires
        den > 0,
    ensures
        num <= 0 ==> div_toward_zero(v * num, den) * v <= 0,
        num >= den ==> div_toward_zero(v * num, den) * (div_toward_zero(v * num, den) - v) >= 0,
{
    let c = div_toward_zero(v * num, den);
    assert((-v) * num == -(v * num)) by (nonlinear_arith);
    if num <= 0 {
        if v >= 0 {
            assert(v * num <= 0) by (nonlinear_arith) requires v >= 0, num <= 0;
            if v * num < 0 {
                assert(-(v * num) >= 0);
                assert((-(v * num)) / den >= 0);
            }
            assert(c <= 0);
            assert(c * v <= 0) by (nonlinear_arith) requires c <= 0, v >= 0;
        } else {
            assert(v * num >= 0) by (nonlinear_arith) requires v < 0, num <= 0;
            assert((v * num) / den >= 0);
            assert(c >= 0);
            assert(c * v <= 0) by (nonlinear_arith) requires c >= 0, v < 0;
        }
    }
    if num >= den {
        if v >= 0 {
            assert(v * num >= v * den) by (nonlinear_arith) requires v >= 0, num >= den;
            assert(v * den >= 0) by (nonlinear_arith) requires v >= 0, den > 0;
            lemma_div_is_ordered(v * den, v * num, den);
            lemma_div_multiples_vanish(v, den);
            assert(den * v == v * den) by (nonlinear_arith);
            assert(c >= v);
            assert(c * (c - v) >= 0) by (nonlinear_arith) requires c >= v, v >= 0;
        } else {
            assert(v * num < 0) by (nonlinear_arith) requires v < 0, num >= den, den > 0;
            assert((-v) * num >= (-v) * den) by (nonlinear_arith) requires v < 0, num >= den;
            lemma_div_is_ordered((-v) * den, (-v) * num, den);
            lemma_div_multiples_vanish(-v, den);
            assert(den * (-v) == (-v) * den) by (nonlinear_arith);
            assert(c <= v);
            assert(c * (c - v) >= 0) by (nonlinear_arith) requires c <= v, v < 0;
        }
    }
}

/// A negative endpoint dot product places the exact projection strictly
/// inside the segment: `0 < t < 1` for `t = (b - a).(p - a) / |b - a|^2`.
pub proof fn lemma_negative_dot_is_inside(p: Point, a: Point, b: Point)
    ensures
        spec_project(p, a, b) matches Some((_, _, k)) && k < 0 ==> 0 < edge_num(p, a, b) < edge_den(a, b),
{
    let den = edge_den(a, b);
    let num = edge_num(p, a, b);
    if den > 0 {
        let v = diff(b, a);
        lemma_axis_outside(v.0, num, den);
        lemma_axis_outside(v.1, num, den);
        lemma_axis_outside(v.2, num, den);
        let c0 = div_toward_zero(v.0 * num, den);
        let c1 = div_toward_zero(v.1 * num, den);
        let c2 = div_toward_zero(v.2 * num, den);
        let q = spec_projection(p, a, b);
        assert(sub3(q, coords(a)) == (c0, c1, c2));
        assert(sub3(q, coords(b)) == (c0 - v.0, c1 - v.1, c2 - v.2));
        assert(c0 * (c0 - v.0) == c0 * c0 - c0 * v.0) by (nonlinear_arith);
        assert(c1 * (c1 - v.1) == c1 * c1 - c1 * v.1) by (nonlinear_arith);
        assert(c2 * (c2 - v.2) == c2 * c2 - c2 * v.2) by (nonlinear_arith);
        lemma_square_nonneg(c0);
        lemma_square_nonneg(c1);
        lemma_square_nonneg(c2);
        assert(c0 * v.0 == v.0 * c0 && c1 * v.1 == v.1 * c1 && c2 * v.2 == v.2 * c2) by (nonlinear_arith);
    }
}

} // verus!
